//! The engine for the plugin's HTML archives: sessions, their participants,
//! and one message per row of a session's table.

use crate::messenger::asset_of;
use crate::messenger::asset_views;
use crate::messenger::blank_message;
use crate::messenger::clock::moment_by_pattern;
use crate::messenger::clock::read_moment_by_pattern;
use crate::messenger::clock::read_time_by_pattern;
use crate::messenger::clock::time_by_pattern;
use crate::messenger::clock::write_moment;
use crate::messenger::clock::written;
use crate::messenger::clock::Moment;
use crate::messenger::clock::TimeOfDay;
use crate::messenger::common::attribute_views;
use crate::messenger::common::document_tokens;
use crate::messenger::common::fault_error;
use crate::messenger::common::last_segment;
use crate::messenger::common::plain_path;
use crate::messenger::common::recipient_of;
use crate::messenger::common::stem_of;
use crate::messenger::common::get_parser;
use crate::messenger::common::is_part_of;
use crate::messenger::common::parse_attributes;
use crate::messenger::common::pending;
use crate::messenger::common::pull_event;
use crate::messenger::common::value_of;
use crate::messenger::common::Attribute;
use crate::messenger::common::AttributeView;
use crate::messenger::common::MarkupEvent;
use crate::messenger::common::MarkupEventView;
use crate::messenger::common::Token;
use crate::messenger::common::Tokenizer;
use crate::messenger::context::names;
use crate::messenger::context::Context;
use crate::messenger::context::ContextView;
use crate::messenger::error::ErrorKind;
use crate::messenger::error::MessengerError;
use crate::messenger::find_asset;
use crate::messenger::message_views;
use crate::messenger::step_view;
use crate::messenger::text::contains;
use crate::messenger::text::decimal;
use crate::messenger::text::decimal_text;
use crate::messenger::text::decode_entities;
use crate::messenger::text::decoded_entities;
use crate::messenger::text::occurs_in;
use crate::messenger::text::same_text;
use crate::messenger::text::trim;
use crate::messenger::text::trimmed;
use crate::messenger::Archive;
use crate::messenger::ArchiveDetails;
use crate::messenger::ArchiveDetailsView;
use crate::messenger::ArchiveView;
use crate::messenger::Asset;
use crate::messenger::AssetView;
use crate::messenger::Data;
use crate::messenger::DataView;
use crate::messenger::FileType;
use crate::messenger::Image;
use crate::messenger::ImageView;
use crate::messenger::Message;
use crate::messenger::MessengerArchive;
use crate::messenger::MessageView;
use crate::messenger::Step;
use crate::messenger::StepView;
use crate::messenger::Text;
use crate::messenger::TextView;
use vstd::prelude::*;
use vstd::string::*;

verus! {

/// Where a session may start: an element opens right inside the body.
pub open spec fn session_place() -> Seq<Seq<char>> {
    seq!["html"@, "body"@]
}

/// Where the two participants of a session are listed.
pub open spec fn participants_place() -> Seq<Seq<char>> {
    seq!["html"@, "body"@, "div"@, "ul"@, "li"@]
}

/// Where the rows of a session stand.
pub open spec fn rows_place() -> Seq<Seq<char>> {
    seq!["html"@, "body"@, "div"@, "table"@, "tbody"@]
}

/// A row of a session.
pub open spec fn row_place() -> Seq<Seq<char>> {
    seq!["html"@, "body"@, "div"@, "table"@, "tbody"@, "tr"@]
}

/// The header of a row, which names who speaks.
pub open spec fn header_place() -> Seq<Seq<char>> {
    seq!["html"@, "body"@, "div"@, "table"@, "tbody"@, "tr"@, "th"@]
}

/// The time label inside the header of a row.
pub open spec fn label_place() -> Seq<Seq<char>> {
    seq!["html"@, "body"@, "div"@, "table"@, "tbody"@, "tr"@, "th"@, "span"@]
}

/// A cell of a row, which holds what was said.
pub open spec fn cell_place() -> Seq<Seq<char>> {
    seq!["html"@, "body"@, "div"@, "table"@, "tbody"@, "tr"@, "td"@]
}

/// What is known of the session that the document is in.
pub struct SessionView {
    pub id: Seq<char>,
    /// The day and time that the identifier holds; the times of the rows
    /// are completed from it.
    pub date: Moment,
    pub owner: Seq<char>,
    pub recipient: Seq<char>,
    /// The style for a run of text that has none of its own, nor one from
    /// its row.
    pub message_style: Seq<char>,
    /// No row of the session had its time label read yet.
    pub first_row: bool,
}

/// The message of the row that is open.
pub struct RowView {
    pub message: MessageView,
    /// The style that a cell of this row gave.
    pub style: Option<Seq<char>>,
    /// An image of which the source and the alternative text were read and
    /// the bytes are owed.
    pub awaited: Option<ImageView>,
}

/// All that the engine keeps between two events.
pub struct PlusState {
    pub details: ArchiveDetailsView,
    pub context: ContextView,
    pub session: Option<SessionView>,
    pub row: Option<RowView>,
    pub finished: bool,
    /// The failure that ended the parse, if one did.
    pub failed: Option<ErrorKind>,
}

/// The state before the first event.
pub open spec fn plus_initial(recipient_id: Seq<char>) -> PlusState {
    PlusState {
        details: ArchiveDetailsView {
            file_type: FileType::MessengerPlus,
            first_session_id: "0"@,
            last_session_id: "0"@,
            recipient_id,
        },
        context: ContextView { path: Seq::empty(), attributes: Seq::empty() },
        session: None,
        row: None,
        finished: false,
        failed: None,
    }
}

/// The state after a failure of the given kind: the failure is final.
pub open spec fn plus_failed(s: PlusState, kind: ErrorKind) -> PlusState {
    PlusState { failed: Some(kind), ..s }
}

/// What an event does: the next state and what there is to tell, or the
/// kind of the failure.
pub type PlusEffect = Result<(PlusState, Option<StepView>), ErrorKind>;

/// A session starts at an element that carries an identifier. The day and
/// time in the identifier must be readable; a session cannot start inside
/// a row.
pub open spec fn start_session(s: PlusState, attributes: Seq<AttributeView>) -> PlusEffect {
    match value_of(attributes, "id"@) {
        None => Ok((s, None)),
        Some(id) => if s.row.is_some() {
            Err(ErrorKind::MalformedStructure)
        } else {
            match moment_by_pattern(id, "Session_%Y-%m-%dT%H-%M-%S"@) {
                None => Err(ErrorKind::TimestampReconstructionFailure),
                Some(date) => Ok(
                    (
                        PlusState {
                            details: ArchiveDetailsView {
                                first_session_id: if s.session.is_none() {
                                    id
                                } else {
                                    s.details.first_session_id
                                },
                                last_session_id: id,
                                ..s.details
                            },
                            session: Some(
                                SessionView {
                                    id,
                                    date,
                                    owner: Seq::empty(),
                                    recipient: Seq::empty(),
                                    message_style: Seq::empty(),
                                    first_row: true,
                                },
                            ),
                            ..s
                        },
                        None,
                    ),
                ),
            }
        },
    }
}

/// A styled cell gives its style to its row and to the session.
pub open spec fn capture_style(s: PlusState, style: Seq<char>) -> PlusState {
    let text = trimmed(decoded_entities(style));
    PlusState {
        session: match s.session {
            Some(session) => Some(SessionView { message_style: text, ..session }),
            None => None,
        },
        row: match s.row {
            Some(row) => Some(RowView { style: Some(text), ..row }),
            None => None,
        },
        ..s
    }
}

/// The message that a row starts with.
pub open spec fn fresh_row(session_id: Seq<char>, attributes: Seq<AttributeView>) -> RowView {
    RowView {
        message: MessageView {
            session_id,
            data: if value_of(attributes, "class"@) == Some("msgplus"@) {
                seq![DataView::System(Seq::empty())]
            } else {
                Seq::empty()
            },
            ..blank_message()
        },
        style: None,
        awaited: None,
    }
}

/// A row opens a message of the session that is active. Rows stand in
/// sessions and not in one another.
pub open spec fn open_row(s: PlusState, attributes: Seq<AttributeView>) -> PlusEffect {
    match s.session {
        None => Err(ErrorKind::MalformedStructure),
        Some(session) => if s.row.is_some() {
            Err(ErrorKind::MalformedStructure)
        } else {
            Ok((PlusState { row: Some(fresh_row(session.id, attributes)), ..s }, None))
        },
    }
}

/// The message is a note of the plugin and not something that was said.
pub open spec fn is_system_note(message: MessageView) -> bool {
    message.data.len() > 0 && message.data[0] is System
}

/// The image that an element describes, before its bytes are known.
pub open spec fn described_image(source: Seq<char>, attributes: Seq<AttributeView>) -> ImageView {
    ImageView {
        src: trimmed(source),
        alt: match value_of(attributes, "alt"@) {
            Some(alt) => trimmed(alt),
            None => Seq::empty(),
        },
        content: Seq::empty(),
    }
}

/// An image with a source, in a row that is no note, asks for its bytes.
pub open spec fn request_image(s: PlusState, attributes: Seq<AttributeView>) -> (
    PlusState,
    Option<StepView>,
) {
    match (s.row, value_of(attributes, "src"@)) {
        (Some(row), Some(source)) => if is_system_note(row.message) {
            (s, None)
        } else {
            (
                PlusState {
                    row: Some(
                        RowView { awaited: Some(described_image(source, attributes)), ..row },
                    ),
                    ..s
                },
                Some(StepView::Asset(source)),
            )
        },
        _ => (s, None),
    }
}

/// What the opening of an element does, by its name and the place where
/// it opens.
pub open spec fn node_effect(
    s: PlusState,
    name: Seq<char>,
    attributes: Seq<AttributeView>,
) -> PlusEffect {
    let path = s.context.path;
    if name == "div"@ {
        if session_place().is_suffix_of(path) && value_of(attributes, "class"@) == Some(
            "mplsession"@,
        ) {
            start_session(s, attributes)
        } else {
            Ok((s, None))
        }
    } else if name == "td"@ {
        if row_place().is_suffix_of(path) {
            match value_of(attributes, "style"@) {
                Some(style) => Ok((capture_style(s, style), None)),
                None => Ok((s, None)),
            }
        } else {
            Ok((s, None))
        }
    } else if name == "tr"@ {
        if rows_place().is_suffix_of(path) {
            open_row(s, attributes)
        } else {
            Ok((s, None))
        }
    } else if name == "img"@ {
        if cell_place().is_suffix_of(path) {
            Ok(request_image(s, attributes))
        } else {
            Ok((s, None))
        }
    } else {
        Ok((s, None))
    }
}

/// A listed participant is the owner where the entry is marked so, else
/// the recipient. Participants are listed between rows.
pub open spec fn name_participant(s: PlusState, text: Seq<char>) -> PlusState {
    match s.session {
        Some(session) => if s.row.is_none() {
            PlusState {
                session: Some(
                    if value_of(s.context.attributes, "class"@) == Some("in"@) {
                        SessionView { owner: trimmed(text), ..session }
                    } else {
                        SessionView { recipient: trimmed(text), ..session }
                    },
                ),
                ..s
            }
        } else {
            s
        },
        None => s,
    }
}

/// The time of day in the first time label of a session, to the second.
/// A label without seconds is completed by the seconds of the session's
/// start; one that has its own keeps them.
pub open spec fn first_label_time(label: Seq<char>, second: u32) -> Option<TimeOfDay> {
    match time_by_pattern(label + ":"@ + decimal(second as nat), "(%H:%M):%S"@) {
        Some(time) => Some(time),
        None => time_by_pattern(label, "(%H:%M):%S"@),
    }
}

/// The timestamp of a row from its time label, on the day that the
/// session started. The first label of a session is written to the
/// second; the later ones are read and written to the minute.
pub open spec fn row_timestamp(session: SessionView, label: Seq<char>) -> Option<Seq<char>> {
    if session.first_row {
        match first_label_time(label, session.date.time.second) {
            Some(time) => written(session.date.date, time, "%Y-%m-%dT%H:%M:%S"@),
            None => None,
        }
    } else {
        match time_by_pattern(label, "(%H:%M)"@) {
            Some(time) => written(session.date.date, time, "%Y-%m-%dT%H:%M"@),
            None => None,
        }
    }
}

/// A time label gives the open row its timestamp.
pub open spec fn stamp_row(s: PlusState, label: Seq<char>) -> Result<PlusState, ErrorKind> {
    match (s.session, s.row) {
        (Some(session), Some(row)) => match row_timestamp(session, label) {
            None => Err(ErrorKind::TimestampReconstructionFailure),
            Some(stamp) => Ok(
                PlusState {
                    session: Some(SessionView { first_row: false, ..session }),
                    row: Some(
                        RowView { message: MessageView { datetime: stamp, ..row.message }, ..row },
                    ),
                    ..s
                },
            ),
        },
        _ => Ok(s),
    }
}

/// The message with its two participants: the owner sends where the
/// owner's nickname stands in the header, else the recipient does.
pub open spec fn attributed(
    message: MessageView,
    session: SessionView,
    header: Seq<char>,
) -> MessageView {
    if occurs_in(session.owner, header) {
        MessageView {
            sender_friendly_name: session.owner,
            receiver_friendly_name: session.recipient,
            ..message
        }
    } else {
        MessageView {
            sender_friendly_name: session.recipient,
            receiver_friendly_name: session.owner,
            ..message
        }
    }
}

/// The header of a row tells who sent its message.
pub open spec fn attribute_row(s: PlusState, header: Seq<char>) -> PlusState {
    match (s.session, s.row) {
        (Some(session), Some(row)) => PlusState {
            row: Some(RowView { message: attributed(row.message, session, header), ..row }),
            ..s
        },
        _ => s,
    }
}

/// The style of a run of text: its own, else that of its row, else that of
/// the session.
pub open spec fn resolve_style(
    own: Option<Seq<char>>,
    row: Option<Seq<char>>,
    session: Seq<char>,
) -> Seq<char> {
    match own {
        Some(style) => style,
        None => match row {
            Some(style) => style,
            None => session,
        },
    }
}

/// The content of a message after a text arrived in a cell: a note is
/// replaced by the text, anything else gets one more run of text.
pub open spec fn with_text(
    message: MessageView,
    style: Seq<char>,
    text: Seq<char>,
) -> Seq<DataView> {
    if is_system_note(message) {
        seq![DataView::System(text)]
    } else {
        message.data.push(DataView::Text(TextView { style, content: text }))
    }
}

/// The style, trimmed, that the element opened last carries.
pub open spec fn own_style(attributes: Seq<AttributeView>) -> Option<Seq<char>> {
    match value_of(attributes, "style"@) {
        Some(style) => Some(trimmed(style)),
        None => None,
    }
}

/// The style that the session gives to runs without one.
pub open spec fn session_style(session: Option<SessionView>) -> Seq<char> {
    match session {
        Some(session) => session.message_style,
        None => Seq::empty(),
    }
}

/// A text in a cell goes into the message of the open row.
pub open spec fn add_text(s: PlusState, text: Seq<char>) -> PlusState {
    match s.row {
        None => s,
        Some(row) => PlusState {
            row: Some(
                RowView {
                    message: MessageView {
                        data: with_text(
                            row.message,
                            resolve_style(
                                own_style(s.context.attributes),
                                row.style,
                                session_style(s.session),
                            ),
                            text,
                        ),
                        ..row.message
                    },
                    ..row
                },
            ),
            ..s
        },
    }
}

/// What character data does, by the place where it stands.
pub open spec fn text_effect(s: PlusState, text: Seq<char>) -> Result<PlusState, ErrorKind> {
    let path = s.context.path;
    if path == participants_place() {
        Ok(name_participant(s, text))
    } else if path == label_place() {
        stamp_row(s, text)
    } else if path == header_place() {
        Ok(attribute_row(s, text))
    } else if path == cell_place() {
        Ok(add_text(s, text))
    } else {
        Ok(s)
    }
}

/// The state with the innermost element closed.
pub open spec fn left(s: PlusState) -> PlusState {
    PlusState {
        context: ContextView { path: s.context.path.drop_last(), attributes: s.context.attributes },
        ..s
    }
}

/// An element closes: it must be the innermost open one. Where it is a
/// row, the message of the row is complete.
pub open spec fn close_effect(s: PlusState, name: Seq<char>) -> PlusEffect {
    let path = s.context.path;
    if path.len() == 0 || path.last() != name {
        Err(ErrorKind::MalformedStructure)
    } else if row_place().is_suffix_of(path) {
        match s.row {
            None => Err(ErrorKind::MalformedStructure),
            Some(row) => Ok((PlusState { row: None, ..left(s) }, Some(StepView::Message(row.message)))),
        }
    } else {
        Ok((left(s), None))
    }
}

/// The document ends: nothing may be open. The last session is the one
/// that was active.
pub open spec fn end_effect(s: PlusState) -> PlusEffect {
    if s.context.path.len() > 0 || s.row.is_some() {
        Err(ErrorKind::MalformedStructure)
    } else {
        Ok(
            (
                PlusState {
                    details: ArchiveDetailsView {
                        last_session_id: match s.session {
                            Some(session) => session.id,
                            None => s.details.last_session_id,
                        },
                        ..s.details
                    },
                    finished: true,
                    ..s
                },
                Some(StepView::End),
            ),
        )
    }
}

/// The bytes of an image are owed.
pub open spec fn awaits_asset(s: PlusState) -> bool {
    s.row is Some && s.row.unwrap().awaited is Some
}

/// The state with the element entered that just opened.
pub open spec fn entered(s: PlusState, name: Seq<char>, attributes: Seq<AttributeView>) -> PlusState {
    PlusState { context: ContextView { path: s.context.path.push(name), attributes }, ..s }
}

/// What one event does to the engine. A failure is final: once an event
/// has failed, every later one fails in the same way.
pub open spec fn plus_step(s: PlusState, event: MarkupEventView) -> PlusEffect {
    match s.failed {
        Some(kind) => Err(kind),
        None => plus_event_effect(s, event),
    }
}

/// What one event does to an engine that has not failed. While the bytes
/// of an image are owed no event can be taken: the image was not read.
/// After the end of the document only its end is told again.
pub open spec fn plus_event_effect(s: PlusState, event: MarkupEventView) -> PlusEffect {
    if awaits_asset(s) {
        Err(ErrorKind::SourceUnreadable)
    } else if s.finished {
        if event == MarkupEventView::EndDocument {
            Ok((s, Some(StepView::End)))
        } else {
            Err(ErrorKind::MalformedStructure)
        }
    } else {
        match event {
            MarkupEventView::Open { name, attributes } => match node_effect(s, name, attributes) {
                Ok((t, step)) => Ok((entered(t, name, attributes), step)),
                Err(kind) => Err(kind),
            },
            MarkupEventView::Characters(text) => match text_effect(s, text) {
                Ok(t) => Ok((t, None)),
                Err(kind) => Err(kind),
            },
            MarkupEventView::Close { name } => close_effect(s, name),
            MarkupEventView::EndDocument => end_effect(s),
            MarkupEventView::Other => Ok((s, None)),
        }
    }
}

/// The bytes of an image are taken where one is awaited and the parse has
/// not failed.
pub open spec fn takes_asset(s: PlusState) -> bool {
    awaits_asset(s) && s.failed is None
}

/// The state after the bytes of the awaited image arrived: the image ends
/// the content of the open row's message. Where no bytes are taken,
/// nothing changes.
pub open spec fn supplied(s: PlusState, content: Seq<u8>) -> PlusState {
    if s.failed is Some {
        s
    } else {
        supplied_image(s, content)
    }
}

/// The state with the awaited image, if there is one, added to the
/// content of the open row's message.
pub open spec fn supplied_image(s: PlusState, content: Seq<u8>) -> PlusState {
    match s.row {
        Some(row) => match row.awaited {
            Some(image) => PlusState {
                row: Some(
                    RowView {
                        message: MessageView {
                            data: row.message.data.push(
                                DataView::Image(ImageView { content, ..image }),
                            ),
                            ..row.message
                        },
                        awaited: None,
                        ..row
                    },
                ),
                ..s
            },
            None => s,
        },
        None => s,
    }
}

/// A result of the engine says what a specified step asks for: on success
/// the step told and the state reached, on failure the kind of the error,
/// which the engine keeps from then on.
pub open spec fn plus_told(
    before: PlusState,
    expected: PlusEffect,
    after: PlusState,
    given: Result<Option<Step>, MessengerError>,
) -> bool {
    match expected {
        Ok((state, step)) => given is Ok && step_view(given->Ok_0) == step && after == state,
        Err(kind) => given is Err && given->Err_0@.kind == kind && after == plus_failed(
            before,
            kind,
        ),
    }
}

/// A result of a part of the engine says what a specified effect asks
/// for: on success the step told and the state reached, on failure the
/// kind of the error, with the state as it was.
pub open spec fn plus_agrees(
    before: PlusState,
    expected: PlusEffect,
    after: PlusState,
    given: Result<Option<Step>, MessengerError>,
) -> bool {
    match expected {
        Ok((state, step)) => given is Ok && step_view(given->Ok_0) == step && after == state,
        Err(kind) => given is Err && given->Err_0@.kind == kind && after == before,
    }
}

/// Where one advance of the parser leads.
pub struct PlusAdvance {
    pub state: PlusState,
    /// The tokens that are left to give.
    pub rest: Seq<Token>,
    pub outcome: Result<StepView, ErrorKind>,
}

/// The tokens left after the first was given: a terminal one stays.
pub open spec fn rest_after(tokens: Seq<Token>) -> Seq<Token> {
    if tokens.first().is_terminal() {
        tokens
    } else {
        tokens.drop_first()
    }
}

/// One advance: events are taken until one has something to tell or
/// fails. A fault of the tokenizer is a malformed document; an advance
/// while the bytes of an image are owed fails, for the image was not read.
/// A failure is final: after one, an advance takes no token and fails in
/// the same way.
pub open spec fn plus_advance(s: PlusState, tokens: Seq<Token>) -> PlusAdvance
    decreases tokens.len(),
{
    if s.failed is Some {
        PlusAdvance { state: s, rest: tokens, outcome: Err(s.failed->Some_0) }
    } else if awaits_asset(s) {
        PlusAdvance {
            state: plus_failed(s, ErrorKind::SourceUnreadable),
            rest: tokens,
            outcome: Err(ErrorKind::SourceUnreadable),
        }
    } else if tokens.len() == 0 {
        PlusAdvance {
            state: plus_failed(s, ErrorKind::MalformedStructure),
            rest: tokens,
            outcome: Err(ErrorKind::MalformedStructure),
        }
    } else {
        match tokens.first() {
            Token::Fault => PlusAdvance {
                state: plus_failed(s, ErrorKind::MalformedStructure),
                rest: tokens,
                outcome: Err(ErrorKind::MalformedStructure),
            },
            Token::Event(event) => match plus_step(s, event) {
                Err(kind) => PlusAdvance {
                    state: plus_failed(s, kind),
                    rest: rest_after(tokens),
                    outcome: Err(kind),
                },
                Ok((t, Some(step))) => PlusAdvance {
                    state: t,
                    rest: rest_after(tokens),
                    outcome: Ok(step),
                },
                Ok((t, None)) => plus_advance(t, tokens.drop_first()),
            },
        }
    }
}

/// The whole archive of a run of tokens, from a given state on and after
/// the messages already told. An image is looked up among the assets by
/// its source as written; one that is not there ends the parse.
pub open spec fn plus_collect(
    s: PlusState,
    tokens: Seq<Token>,
    assets: Seq<AssetView>,
    messages: Seq<MessageView>,
) -> Result<ArchiveView, ErrorKind>
    decreases tokens.len(),
{
    if s.failed is Some {
        Err(s.failed->Some_0)
    } else if awaits_asset(s) {
        Err(ErrorKind::SourceUnreadable)
    } else if tokens.len() == 0 {
        Err(ErrorKind::MalformedStructure)
    } else {
        match tokens.first() {
            Token::Fault => Err(ErrorKind::MalformedStructure),
            Token::Event(event) => match plus_step(s, event) {
                Err(kind) => Err(kind),
                Ok((t, Some(StepView::End))) => Ok(ArchiveView { details: t.details, messages }),
                Ok((t, Some(StepView::Message(message)))) => plus_collect(
                    t,
                    tokens.drop_first(),
                    assets,
                    messages.push(message),
                ),
                Ok((t, Some(StepView::Asset(source)))) => match asset_of(assets, source) {
                    None => Err(ErrorKind::SourceUnreadable),
                    Some(content) => plus_collect(
                        supplied(t, content),
                        tokens.drop_first(),
                        assets,
                        messages,
                    ),
                },
                Ok((t, None)) => plus_collect(t, tokens.drop_first(), assets, messages),
            },
        }
    }
}

/// The archive that a document of the plugin's dialect holds.
pub open spec fn plus_archive(
    recipient_id: Seq<char>,
    tokens: Seq<Token>,
    assets: Seq<AssetView>,
) -> Result<ArchiveView, ErrorKind> {
    plus_collect(plus_initial(recipient_id), tokens, assets, Seq::empty())
}

/// A result of a whole parse says what the specified archive asks for.
pub open spec fn archive_agrees(
    expected: Result<ArchiveView, ErrorKind>,
    given: Result<Archive, MessengerError>,
) -> bool {
    match expected {
        Ok(archive) => given is Ok && given->Ok_0@ == archive,
        Err(kind) => given is Err && given->Err_0@.kind == kind,
    }
}

struct MsgPlusSession {
    id: String,
    date: Moment,
    owner: String,
    recipient: String,
    message_style: String,
    first_row: bool,
}

impl View for MsgPlusSession {
    type V = SessionView;

    closed spec fn view(&self) -> SessionView {
        SessionView {
            id: self.id@,
            date: self.date,
            owner: self.owner@,
            recipient: self.recipient@,
            message_style: self.message_style@,
            first_row: self.first_row,
        }
    }
}

struct Row {
    message: Message,
    style: Option<String>,
    awaited: Option<Image>,
}

impl View for Row {
    type V = RowView;

    closed spec fn view(&self) -> RowView {
        RowView {
            message: self.message@,
            style: match self.style {
                Some(style) => Some(style@),
                None => None,
            },
            awaited: match self.awaited {
                Some(image) => Some(image@),
                None => None,
            },
        }
    }
}

/// The timestamp of a row from its time label, in the session given by
/// the day and time of its start.
pub fn row_timestamp_text(date: Moment, first_row: bool, label: &str) -> (stamp: Option<String>)
    ensures
        ({
            let session = SessionView {
                id: Seq::empty(),
                date,
                owner: Seq::empty(),
                recipient: Seq::empty(),
                message_style: Seq::empty(),
                first_row,
            };
            match stamp {
                Some(text) => row_timestamp(session, label@) == Some(text@),
                None => row_timestamp(session, label@).is_none(),
            }
        }),
{
    if first_row {
        match first_label_time_of(label, date.time.second) {
            Some(time) => write_moment(date.date, time, "%Y-%m-%dT%H:%M:%S"),
            None => None,
        }
    } else {
        match read_time_by_pattern(label, "(%H:%M)") {
            Some(time) => write_moment(date.date, time, "%Y-%m-%dT%H:%M"),
            None => None,
        }
    }
}

/// The time of day in the first time label of a session.
pub fn first_label_time_of(label: &str, second: u32) -> (time: Option<TimeOfDay>)
    ensures
        time == first_label_time(label@, second),
{
    let mut full = String::from_str(label);
    full.append(":");
    full.append(decimal_text(second).as_str());
    match read_time_by_pattern(full.as_str(), "(%H:%M):%S") {
        Some(time) => Some(time),
        None => read_time_by_pattern(label, "(%H:%M):%S"),
    }
}

/// The style of a run of text: its own, else that of its row, else that of
/// the session.
pub fn resolve_style_text(own: Option<&str>, row: Option<&str>, session: &str) -> (style: String)
    ensures
        style@ == resolve_style(
            match own {
                Some(text) => Some(text@),
                None => None,
            },
            match row {
                Some(text) => Some(text@),
                None => None,
            },
            session@,
        ),
{
    match own {
        Some(style) => String::from_str(style),
        None => match row {
            Some(style) => String::from_str(style),
            None => String::from_str(session),
        },
    }
}

/// A parser of an archive written by the plugin, over a document held in
/// memory.
pub struct MessengerPlusParser {
    list: ArchiveDetails,
    reader: Tokenizer,
    context: Context,
    session: Option<MsgPlusSession>,
    row: Option<Row>,
    finished: bool,
    failure: Option<MessengerError>,
}

impl MessengerPlusParser {
    /// What the engine holds.
    pub closed spec fn state(&self) -> PlusState {
        PlusState {
            details: self.list@,
            context: self.context@,
            session: match self.session {
                Some(session) => Some(session@),
                None => None,
            },
            row: match self.row {
                Some(row) => Some(row@),
                None => None,
            },
            finished: self.finished,
            failed: match self.failure {
                Some(failure) => Some(failure@.kind),
                None => None,
            },
        }
    }

    /// The tokens of the document that were not taken yet.
    pub closed spec fn tokens(&self) -> Seq<Token> {
        pending(self.reader)
    }

    /// A parser at the start of a document, for the archive of a
    /// conversation with the given recipient.
    pub fn with_recipient(recipient_id: String, document: Vec<u8>) -> (parser: Self)
        ensures
            parser.state() == plus_initial(recipient_id@),
            parser.tokens() == document_tokens(document@),
    {
        MessengerPlusParser {
            list: ArchiveDetails {
                file_type: FileType::MessengerPlus,
                first_session_id: String::from_str("0"),
                last_session_id: String::from_str("0"),
                recipient_id,
            },
            reader: get_parser(document),
            context: Context::new(),
            session: None,
            row: None,
            finished: false,
            failure: None,
        }
    }

    /// A parser at the start of the document that was read from `path`. The
    /// recipient is named by the stem of the file's name.
    pub fn new(path: &str, document: Vec<u8>) -> (parser: Self)
        ensures
            is_part_of(parser.state().details.recipient_id, path@),
            plain_path(path@) ==> parser.state().details.recipient_id == stem_of(
                last_segment(path@),
            ),
            parser.state() == plus_initial(parser.state().details.recipient_id),
            parser.tokens() == document_tokens(document@),
    {
        Self::with_recipient(recipient_of(path), document)
    }

    /// The details of the archive as far as they are known.
    pub fn archive(&self) -> (details: &ArchiveDetails)
        ensures
            details@ == self.state().details,
    {
        &self.list
    }

    /// Whether the bytes of an image are owed.
    pub fn awaits_asset(&self) -> (r: bool)
        ensures
            r == awaits_asset(self.state()),
    {
        match &self.row {
            Some(row) => row.awaited.is_some(),
            None => false,
        }
    }

    fn start_session(&mut self, attributes: &Vec<Attribute>) -> (r: Result<
        Option<Step>,
        MessengerError,
    >)
        ensures
            plus_agrees(
                old(self).state(),
                start_session(old(self).state(), attribute_views(attributes@)),
                final(self).state(),
                r,
            ),
            final(self).tokens() == old(self).tokens(),
    {
        match parse_attributes(attributes).get("id") {
            None => Ok(None),
            Some(id) => {
                if self.row.is_some() {
                    return Err(
                        MessengerError::of_kind(
                            ErrorKind::MalformedStructure,
                            "A session starts inside a message",
                        ),
                    );
                }
                match read_moment_by_pattern(id, "Session_%Y-%m-%dT%H-%M-%S") {
                    None => Err(
                        MessengerError::of_kind(
                            ErrorKind::TimestampReconstructionFailure,
                            "Unable to parse the session datetime",
                        ),
                    ),
                    Some(date) => {
                        if self.session.is_none() {
                            self.list.first_session_id = String::from_str(id);
                        }
                        self.list.last_session_id = String::from_str(id);
                        self.session = Some(
                            MsgPlusSession {
                                id: String::from_str(id),
                                date,
                                owner: String::new(),
                                recipient: String::new(),
                                message_style: String::new(),
                                first_row: true,
                            },
                        );
                        Ok(None)
                    },
                }
            },
        }
    }

    fn capture_style(&mut self, style: &str)
        ensures
            final(self).state() == capture_style(old(self).state(), style@),
            final(self).tokens() == old(self).tokens(),
    {
        let text = trim(decode_entities(style).as_str());
        match self.row.take() {
            Some(row) => {
                self.row = Some(Row { style: Some(text.clone()), ..row });
            },
            None => {},
        }
        match self.session.take() {
            Some(session) => {
                self.session = Some(MsgPlusSession { message_style: text, ..session });
            },
            None => {},
        }
    }

    fn open_row(&mut self, attributes: &Vec<Attribute>) -> (r: Result<Option<Step>, MessengerError>)
        ensures
            plus_agrees(
                old(self).state(),
                open_row(old(self).state(), attribute_views(attributes@)),
                final(self).state(),
                r,
            ),
            final(self).tokens() == old(self).tokens(),
    {
        if self.row.is_some() {
            return Err(
                MessengerError::of_kind(
                    ErrorKind::MalformedStructure,
                    "A message starts inside a message",
                ),
            );
        }
        match &self.session {
            None => Err(
                MessengerError::of_kind(
                    ErrorKind::MalformedStructure,
                    "A message starts outside a session",
                ),
            ),
            Some(session) => {
                let mut message = Message::default();
                message.session_id = session.id.clone();
                if parse_attributes(attributes).has("class", "msgplus") {
                    message.data.push(Data::System(String::new()));
                }
                assert(message@.data =~= fresh_row(
                    session@.id,
                    attribute_views(attributes@),
                ).message.data);
                self.row = Some(Row { message, style: None, awaited: None });
                Ok(None)
            },
        }
    }

    fn request_image(&mut self, attributes: &Vec<Attribute>) -> (step: Option<Step>)
        ensures
            final(self).state() == request_image(
                old(self).state(),
                attribute_views(attributes@),
            ).0,
            step_view(step) == request_image(old(self).state(), attribute_views(attributes@)).1,
            final(self).tokens() == old(self).tokens(),
    {
        let map = parse_attributes(attributes);
        match map.get("src") {
            None => None,
            Some(source) => {
                let system = match &self.row {
                    Some(row) => row.message.data.len() > 0 && is_system(&row.message.data[0]),
                    None => true,
                };
                if system {
                    return None;
                }
                let alt = match map.get("alt") {
                    Some(alt) => trim(alt),
                    None => String::new(),
                };
                let image = Image { src: trim(source), alt, content: Vec::new() };
                match self.row.take() {
                    Some(row) => {
                        self.row = Some(Row { awaited: Some(image), ..row });
                        Some(Step::Asset(String::from_str(source)))
                    },
                    None => None,
                }
            },
        }
    }

    /// What the opening of an element does, before the element is entered.
    fn parse_node(&mut self, name: &str, attributes: &Vec<Attribute>) -> (r: Result<
        Option<Step>,
        MessengerError,
    >)
        ensures
            plus_agrees(
                old(self).state(),
                node_effect(old(self).state(), name@, attribute_views(attributes@)),
                final(self).state(),
                r,
            ),
            final(self).tokens() == old(self).tokens(),
    {
        proof {
            assert(names(["html", "body"]@) =~= session_place());
            assert(names(["html", "body", "div", "table", "tbody", "tr"]@) =~= row_place());
            assert(names(["html", "body", "div", "table", "tbody"]@) =~= rows_place());
            assert(names(["html", "body", "div", "table", "tbody", "tr", "td"]@) =~= cell_place());
        }
        if same_text(name, "div") {
            if self.context.ends_with(&["html", "body"]) && parse_attributes(attributes).has(
                "class",
                "mplsession",
            ) {
                self.start_session(attributes)
            } else {
                Ok(None)
            }
        } else if same_text(name, "td") {
            if self.context.ends_with(&["html", "body", "div", "table", "tbody", "tr"]) {
                match parse_attributes(attributes).get("style") {
                    Some(style) => {
                        self.capture_style(style);
                    },
                    None => {},
                }
            }
            Ok(None)
        } else if same_text(name, "tr") {
            if self.context.ends_with(&["html", "body", "div", "table", "tbody"]) {
                self.open_row(attributes)
            } else {
                Ok(None)
            }
        } else if same_text(name, "img") {
            if self.context.ends_with(&["html", "body", "div", "table", "tbody", "tr", "td"]) {
                Ok(self.request_image(attributes))
            } else {
                Ok(None)
            }
        } else {
            Ok(None)
        }
    }

    fn name_participant(&mut self, data: &str)
        ensures
            final(self).state() == name_participant(old(self).state(), data@),
            final(self).tokens() == old(self).tokens(),
    {
        if self.row.is_some() {
            return;
        }
        let owner = parse_attributes(self.context.attributes()).has("class", "in");
        match self.session.take() {
            Some(session) => {
                if owner {
                    self.session = Some(MsgPlusSession { owner: trim(data), ..session });
                } else {
                    self.session = Some(MsgPlusSession { recipient: trim(data), ..session });
                }
            },
            None => {},
        }
    }

    fn stamp_row(&mut self, label: &str) -> (r: Result<(), MessengerError>)
        ensures
            match stamp_row(old(self).state(), label@) {
                Ok(state) => r is Ok && final(self).state() == state,
                Err(kind) => r is Err && r->Err_0@.kind == kind && final(self).state() == old(
                    self,
                ).state(),
            },
            final(self).tokens() == old(self).tokens(),
    {
        if self.row.is_none() {
            return Ok(());
        }
        let stamp = match &self.session {
            None => {
                return Ok(());
            },
            Some(session) => row_timestamp_text(session.date, session.first_row, label),
        };
        match stamp {
            None => Err(
                MessengerError::of_kind(
                    ErrorKind::TimestampReconstructionFailure,
                    "Unable to parse the session time",
                ),
            ),
            Some(text) => {
                match self.session.take() {
                    Some(session) => {
                        self.session = Some(MsgPlusSession { first_row: false, ..session });
                    },
                    None => {},
                }
                match self.row.take() {
                    Some(row) => {
                        self.row = Some(
                            Row { message: Message { datetime: text, ..row.message }, ..row },
                        );
                    },
                    None => {},
                }
                Ok(())
            },
        }
    }

    fn attribute_row(&mut self, header: &str)
        ensures
            final(self).state() == attribute_row(old(self).state(), header@),
            final(self).tokens() == old(self).tokens(),
    {
        let (sender, receiver) = match &self.session {
            None => {
                return;
            },
            Some(session) => {
                if contains(header, session.owner.as_str()) {
                    (session.owner.clone(), session.recipient.clone())
                } else {
                    (session.recipient.clone(), session.owner.clone())
                }
            },
        };
        match self.row.take() {
            Some(row) => {
                self.row = Some(
                    Row {
                        message: Message {
                            sender_friendly_name: sender,
                            receiver_friendly_name: receiver,
                            ..row.message
                        },
                        ..row
                    },
                );
            },
            None => {},
        }
    }

    fn add_text(&mut self, data: &str)
        ensures
            final(self).state() == add_text(old(self).state(), data@),
            final(self).tokens() == old(self).tokens(),
    {
        let own = parse_attributes(self.context.attributes()).get("style");
        let own = match own {
            Some(style) => Some(trim(style)),
            None => None,
        };
        let session_style = match &self.session {
            Some(session) => session.message_style.clone(),
            None => String::new(),
        };
        match self.row.take() {
            None => {},
            Some(row) => {
                let mut row = row;
                if row.message.data.len() > 0 && is_system(&row.message.data[0]) {
                    let mut data_runs: Vec<Data> = Vec::new();
                    data_runs.push(Data::System(String::from_str(data)));
                    row.message.data = data_runs;
                    assert(row.message@.data =~= seq![DataView::System(data@)]);
                } else {
                    let style = resolve_style_text(
                        match &own {
                            Some(style) => Some(style.as_str()),
                            None => None,
                        },
                        match &row.style {
                            Some(style) => Some(style.as_str()),
                            None => None,
                        },
                        session_style.as_str(),
                    );
                    let ghost before = row.message@.data;
                    let text = Text { style, content: String::from_str(data) };
                    row.message.data.push(Data::Text(text));
                    assert(row.message@.data =~= before.push(DataView::Text(text@)));
                }
                self.row = Some(row);
            },
        }
    }

    /// What character data does.
    fn parse_text(&mut self, data: &str) -> (r: Result<(), MessengerError>)
        ensures
            match text_effect(old(self).state(), data@) {
                Ok(state) => r is Ok && final(self).state() == state,
                Err(kind) => r is Err && r->Err_0@.kind == kind && final(self).state() == old(
                    self,
                ).state(),
            },
            final(self).tokens() == old(self).tokens(),
    {
        proof {
            assert(names(["html", "body", "div", "ul", "li"]@) =~= participants_place());
            assert(names(["html", "body", "div", "table", "tbody", "tr", "th", "span"]@)
                =~= label_place());
            assert(names(["html", "body", "div", "table", "tbody", "tr", "th"]@)
                =~= header_place());
            assert(names(["html", "body", "div", "table", "tbody", "tr", "td"]@) =~= cell_place());
        }
        if self.context.is_exactly(&["html", "body", "div", "ul", "li"]) {
            self.name_participant(data);
            Ok(())
        } else if self.context.is_exactly(
            &["html", "body", "div", "table", "tbody", "tr", "th", "span"],
        ) {
            self.stamp_row(data)
        } else if self.context.is_exactly(&["html", "body", "div", "table", "tbody", "tr", "th"]) {
            self.attribute_row(data);
            Ok(())
        } else if self.context.is_exactly(&["html", "body", "div", "table", "tbody", "tr", "td"]) {
            self.add_text(data);
            Ok(())
        } else {
            Ok(())
        }
    }

    fn close(&mut self, name: &str) -> (r: Result<Option<Step>, MessengerError>)
        ensures
            plus_agrees(
                old(self).state(),
                close_effect(old(self).state(), name@),
                final(self).state(),
                r,
            ),
            final(self).tokens() == old(self).tokens(),
    {
        proof {
            assert(names(["html", "body", "div", "table", "tbody", "tr"]@) =~= row_place());
        }
        let balanced = match self.context.innermost() {
            Some(open) => same_text(open, name),
            None => false,
        };
        if !balanced {
            return Err(
                MessengerError::of_kind(
                    ErrorKind::MalformedStructure,
                    "An element closes that is not the innermost open one",
                ),
            );
        }
        let row_ends = self.context.ends_with(&["html", "body", "div", "table", "tbody", "tr"]);
        if row_ends && self.row.is_none() {
            return Err(
                MessengerError::of_kind(
                    ErrorKind::MalformedStructure,
                    "A message ends that never started",
                ),
            );
        }
        match self.context.leave() {
            Err(e) => Err(e),
            Ok(_) => {
                if row_ends {
                    match self.row.take() {
                        Some(row) => Ok(Some(Step::Message(row.message))),
                        None => Ok(None),
                    }
                } else {
                    Ok(None)
                }
            },
        }
    }

    fn finish(&mut self) -> (r: Result<Option<Step>, MessengerError>)
        ensures
            plus_agrees(old(self).state(), end_effect(old(self).state()), final(self).state(), r),
            final(self).tokens() == old(self).tokens(),
    {
        if self.context.innermost().is_some() || self.row.is_some() {
            return Err(
                MessengerError::of_kind(
                    ErrorKind::MalformedStructure,
                    "The document ends with elements open",
                ),
            );
        }
        match &self.session {
            Some(session) => {
                self.list.last_session_id = session.id.clone();
            },
            None => {},
        }
        self.finished = true;
        Ok(Some(Step::End))
    }

    /// Takes one event of the document. Says what the event completes, if
    /// anything: a message, the need for the bytes of an image, or the end
    /// of the document. An error ends the parse: every later event fails
    /// in the same way.
    pub fn handle_event(&mut self, event: MarkupEvent) -> (r: Result<Option<Step>, MessengerError>)
        ensures
            plus_told(
                old(self).state(),
                plus_step(old(self).state(), event@),
                final(self).state(),
                r,
            ),
            final(self).tokens() == old(self).tokens(),
    {
        match &self.failure {
            Some(failure) => {
                return Err(failure.again());
            },
            None => {},
        }
        match self.take_event(event) {
            Ok(step) => Ok(step),
            Err(e) => {
                self.fail(&e);
                Err(e)
            },
        }
    }

    /// Records a failure that ends the parse.
    fn fail(&mut self, e: &MessengerError)
        requires
            old(self).state().failed is None,
        ensures
            final(self).state() == plus_failed(old(self).state(), e@.kind),
            final(self).tokens() == old(self).tokens(),
    {
        self.failure = Some(e.again());
    }

    /// What one event does to a parser that has not failed.
    fn take_event(&mut self, event: MarkupEvent) -> (r: Result<Option<Step>, MessengerError>)
        requires
            old(self).state().failed is None,
        ensures
            plus_agrees(
                old(self).state(),
                plus_event_effect(old(self).state(), event@),
                final(self).state(),
                r,
            ),
            final(self).tokens() == old(self).tokens(),
    {
        if self.awaits_asset() {
            return Err(
                MessengerError::of_kind(ErrorKind::SourceUnreadable, "Unable to read the image"),
            );
        }
        if self.finished {
            return match event {
                MarkupEvent::EndDocument => Ok(Some(Step::End)),
                _ => Err(
                    MessengerError::of_kind(
                        ErrorKind::MalformedStructure,
                        "The document goes on after its end",
                    ),
                ),
            };
        }
        match event {
            MarkupEvent::Open { name, attributes } => {
                match self.parse_node(name.as_str(), &attributes) {
                    Ok(step) => {
                        self.context.enter(name, attributes);
                        Ok(step)
                    },
                    Err(e) => Err(e),
                }
            },
            MarkupEvent::Characters(text) => {
                match self.parse_text(text.as_str()) {
                    Ok(()) => Ok(None),
                    Err(e) => Err(e),
                }
            },
            MarkupEvent::Close { name } => self.close(name.as_str()),
            MarkupEvent::EndDocument => self.finish(),
            MarkupEvent::Other => Ok(None),
        }
    }

    /// Hands over the bytes of the image that the parser asked for. They
    /// are taken only where an image is awaited and the parse has not
    /// failed; else nothing changes.
    pub fn supply_asset(&mut self, content: Vec<u8>) -> (taken: bool)
        ensures
            taken == takes_asset(old(self).state()),
            final(self).state() == supplied(old(self).state(), content@),
            final(self).tokens() == old(self).tokens(),
    {
        if self.failure.is_some() || !self.awaits_asset() {
            return false;
        }
        match self.row.take() {
            None => false,
            Some(row) => {
                let mut row = row;
                match row.awaited.take() {
                    None => {
                        self.row = Some(row);
                        false
                    },
                    Some(image) => {
                        let ghost before = row.message@.data;
                        let image = Image { content, ..image };
                        row.message.data.push(Data::Image(image));
                        assert(row.message@.data =~= before.push(DataView::Image(image@)));
                        self.row = Some(row);
                        true
                    },
                }
            },
        }
    }

    /// Advances to the next thing that the document has to tell: a
    /// message, the need for the bytes of an image, or its end. The bytes
    /// of an image that was asked for are owed before the next advance.
    /// An error ends the parse: every later advance fails in the same way
    /// and takes nothing more of the document.
    pub fn next(&mut self) -> (r: Result<Step, MessengerError>)
        ensures
            final(self).state() == plus_advance(old(self).state(), old(self).tokens()).state,
            final(self).tokens() == plus_advance(old(self).state(), old(self).tokens()).rest,
            match plus_advance(old(self).state(), old(self).tokens()).outcome {
                Ok(step) => r is Ok && r->Ok_0@ == step,
                Err(kind) => r is Err && r->Err_0@.kind == kind,
            },
    {
        match &self.failure {
            Some(failure) => {
                return Err(failure.again());
            },
            None => {},
        }
        if self.awaits_asset() {
            let e = MessengerError::of_kind(ErrorKind::SourceUnreadable, "Unable to read the image");
            self.fail(&e);
            return Err(e);
        }
        loop
            invariant
                self.state().failed is None,
                !awaits_asset(self.state()),
                plus_advance(self.state(), self.tokens()) == plus_advance(
                    old(self).state(),
                    old(self).tokens(),
                ),
            decreases self.tokens().len(),
        {
            match pull_event(&mut self.reader) {
                Err(fault) => {
                    let e = fault_error(&fault);
                    self.fail(&e);
                    return Err(e);
                },
                Ok(event) => {
                    match self.handle_event(event) {
                        Err(e) => {
                            return Err(e);
                        },
                        Ok(Some(step)) => {
                            return Ok(step);
                        },
                        Ok(None) => {},
                    }
                },
            }
        }
    }
}

impl MessengerArchive for MessengerPlusParser {
    open spec fn known(&self) -> ArchiveDetailsView {
        self.state().details
    }

    open spec fn upcoming(&self) -> Result<StepView, ErrorKind> {
        plus_advance(self.state(), self.tokens()).outcome
    }

    fn details(&self) -> (details: Option<&ArchiveDetails>) {
        Some(self.archive())
    }

    fn advance(&mut self) -> (r: Result<Step, MessengerError>)
        ensures
            final(self).state() == plus_advance(old(self).state(), old(self).tokens()).state,
            final(self).tokens() == plus_advance(old(self).state(), old(self).tokens()).rest,
    {
        self.next()
    }
}

/// The archive in a document of the plugin's dialect, for a conversation
/// with the given recipient. The images that the document refers to are
/// taken from `assets`.
pub fn parse_for(recipient_id: String, document: Vec<u8>, assets: &Vec<Asset>) -> (r: Result<
    Archive,
    MessengerError,
>)
    ensures
        archive_agrees(
            plus_archive(recipient_id@, document_tokens(document@), asset_views(assets@)),
            r,
        ),
{
    let mut parser = MessengerPlusParser::with_recipient(recipient_id, document);
    let mut messages: Vec<Message> = Vec::new();
    assert(message_views(messages@) =~= Seq::empty());
    loop
        invariant
            parser.state().failed is None,
            !awaits_asset(parser.state()),
            plus_collect(
                parser.state(),
                parser.tokens(),
                asset_views(assets@),
                message_views(messages@),
            ) == plus_archive(recipient_id@, document_tokens(document@), asset_views(assets@)),
        decreases parser.tokens().len(),
    {
        match pull_event(&mut parser.reader) {
            Err(fault) => {
                return Err(fault_error(&fault));
            },
            Ok(event) => {
                match parser.handle_event(event) {
                    Err(e) => {
                        return Err(e);
                    },
                    Ok(None) => {},
                    Ok(Some(Step::End)) => {
                        return Ok(Archive { details: parser.list, messages });
                    },
                    Ok(Some(Step::Message(message))) => {
                        let ghost before = message_views(messages@);
                        messages.push(message);
                        assert(message_views(messages@) =~= before.push(message@));
                    },
                    Ok(Some(Step::Asset(source))) => {
                        match find_asset(assets, source.as_str()) {
                            None => {
                                return Err(
                                    MessengerError::of_kind(
                                        ErrorKind::SourceUnreadable,
                                        "Image does not exist",
                                    ),
                                );
                            },
                            Some(content) => {
                                parser.supply_asset(content);
                            },
                        }
                    },
                }
            },
        }
    }
}

/// The archive in the document of the plugin's dialect that was read from
/// `path`. The recipient is named by the stem of the file's name.
pub fn parse(path: &str, document: Vec<u8>, assets: &Vec<Asset>) -> (r: Result<
    Archive,
    MessengerError,
>)
    ensures
        exists|recipient_id: Seq<char>|
            is_part_of(recipient_id, path@) && #[trigger] archive_agrees(
                plus_archive(recipient_id, document_tokens(document@), asset_views(assets@)),
                r,
            ),
        plain_path(path@) ==> archive_agrees(
            plus_archive(stem_of(last_segment(path@)), document_tokens(document@), asset_views(assets@)),
            r,
        ),
{
    let recipient_id = recipient_of(path);
    let ghost name = recipient_id@;
    let r = parse_for(recipient_id, document, assets);
    assert(archive_agrees(plus_archive(name, document_tokens(document@), asset_views(assets@)), r));
    r
}

/// Whether a run is a note of the plugin.
fn is_system(run: &Data) -> (r: bool)
    ensures
        r == (run@ is System),
{
    match run {
        Data::System(_) => true,
        _ => false,
    }
}

} // verus!
