//! What holds of every document of the plugin's dialect.

use crate::messenger::asset_of;
use crate::messenger::clock::moment_by_pattern;
use crate::messenger::clock::time_by_pattern;
use crate::messenger::clock::written;
use crate::messenger::clock::Moment;
use crate::messenger::common::AttributeView;
use crate::messenger::messenger_plus_parser::cell_place;
use crate::messenger::messenger_plus_parser::first_label_time;
use crate::messenger::messenger_plus_parser::header_place;
use crate::messenger::messenger_plus_parser::label_place;
use crate::messenger::messenger_plus_parser::participants_place;
use crate::messenger::messenger_plus_parser::session_place;
use crate::messenger::messenger_plus_parser::takes_asset;
use crate::messenger::messenger_plus_parser::RowView;
use crate::messenger::text::occurs_in;
use crate::messenger::text::trimmed;
use crate::messenger::DataView;
use crate::messenger::ImageView;
use crate::messenger::common::document_tokens;
use crate::messenger::common::value_of;
use crate::messenger::common::MarkupEventView;
use crate::messenger::common::Token;
use crate::messenger::error::ErrorKind;
use crate::messenger::error::MessengerError;
use crate::messenger::messenger_plus_parser::archive_agrees;
use crate::messenger::messenger_plus_parser::is_system_note;
use crate::messenger::messenger_plus_parser::awaits_asset;
use crate::messenger::messenger_plus_parser::plus_advance;
use crate::messenger::messenger_plus_parser::plus_failed;
use crate::messenger::messenger_plus_parser::PlusAdvance;
use crate::messenger::messenger_plus_parser::plus_archive;
use crate::messenger::messenger_plus_parser::plus_collect;
use crate::messenger::messenger_plus_parser::plus_initial;
use crate::messenger::messenger_plus_parser::plus_step;
use crate::messenger::messenger_plus_parser::rows_place;
use crate::messenger::messenger_plus_parser::supplied;
use crate::messenger::messenger_plus_parser::PlusState;
use crate::messenger::messenger_plus_parser::SessionView;
use crate::messenger::Archive;
use crate::messenger::ArchiveView;
use crate::messenger::AssetView;
use crate::messenger::MessageView;
use crate::messenger::StepView;
use vstd::prelude::*;

verus! {

/// A session as its messages show it: its identifier and the nicknames of
/// its two participants.
pub struct Speakers {
    pub session_id: Seq<char>,
    pub owner: Seq<char>,
    pub recipient: Seq<char>,
}

/// The speakers of a session.
pub open spec fn speakers(session: SessionView) -> Speakers {
    Speakers { session_id: session.id, owner: session.owner, recipient: session.recipient }
}

/// The message belongs to the session and was exchanged by its two
/// participants, one way or the other. A message of a row without a
/// header, such as a note of the plugin, names nobody.
pub open spec fn speaks_in(message: MessageView, session: Speakers) -> bool {
    &&& message.session_id == session.session_id
    &&& {
        ||| message.sender_friendly_name == session.owner && message.receiver_friendly_name
            == session.recipient
        ||| message.sender_friendly_name == session.recipient && message.receiver_friendly_name
            == session.owner
        ||| message.sender_friendly_name == Seq::<char>::empty() && message.receiver_friendly_name
            == Seq::<char>::empty()
    }
}

/// The content of the message is of one kind: a single note of the plugin,
/// or runs of text and images only.
pub open spec fn of_one_kind(message: MessageView) -> bool {
    ||| message.data.len() == 1 && message.data[0] is System
    ||| forall|i: int| 0 <= i < message.data.len() ==> !(#[trigger] message.data[i] is System)
}

/// The message is one of the session: it speaks in it, and its content is
/// of one kind.
pub open spec fn fits(message: MessageView, session: Speakers) -> bool {
    speaks_in(message, session) && of_one_kind(message)
}

/// The event opens a row, and with it a message.
pub open spec fn opens_row(s: PlusState, event: MarkupEventView) -> bool {
    event matches MarkupEventView::Open { name, .. } && name == "tr"@ && rows_place().is_suffix_of(
        s.context.path,
    )
}

/// The event starts a session.
pub open spec fn starts_session(event: MarkupEventView) -> bool {
    event matches MarkupEventView::Open { name, attributes } && name == "div"@ && value_of(
        attributes,
        "class"@,
    ) == Some("mplsession"@) && value_of(attributes, "id"@) is Some
}

/// The sessions that are active at the row openings of a run, one for
/// each opening, in the order of the document.
pub open spec fn plus_openings(
    s: PlusState,
    tokens: Seq<Token>,
    assets: Seq<AssetView>,
) -> Seq<Speakers>
    decreases tokens.len(),
{
    if tokens.len() == 0 {
        Seq::empty()
    } else {
        match tokens.first() {
            Token::Fault => Seq::empty(),
            Token::Event(event) => match plus_step(s, event) {
                Err(_) => Seq::empty(),
                Ok((_, Some(StepView::End))) => Seq::empty(),
                Ok((t, Some(StepView::Asset(source)))) => match asset_of(assets, source) {
                    None => Seq::empty(),
                    Some(content) => plus_openings(
                        supplied(t, content),
                        tokens.drop_first(),
                        assets,
                    ),
                },
                Ok((t, _)) => if opens_row(s, event) && s.session is Some {
                    seq![speakers(s.session->Some_0)] + plus_openings(
                        t,
                        tokens.drop_first(),
                        assets,
                    )
                } else {
                    plus_openings(t, tokens.drop_first(), assets)
                },
            },
        }
    }
}

/// Each message fits the session of the same place.
pub open spec fn all_fit(messages: Seq<MessageView>, sessions: Seq<Speakers>) -> bool {
    &&& messages.len() == sessions.len()
    &&& forall|i: int| 0 <= i < messages.len() ==> fits(#[trigger] messages[i], sessions[i])
}

/// What the engine keeps true of its state: an open row fits the active
/// session, a note awaits no image, and nothing is open after the end.
pub open spec fn coherent(s: PlusState) -> bool {
    &&& s.row is Some ==> s.session is Some && fits(
        s.row->Some_0.message,
        speakers(s.session->Some_0),
    )
    &&& s.row is Some && s.row->Some_0.awaited is Some ==> !is_system_note(s.row->Some_0.message)
    &&& !(s.finished && s.row is Some)
}

proof fn lemma_names_differ()
    ensures
        "div"@ != "tr"@,
        "td"@ != "tr"@,
        "img"@ != "tr"@,
        "div"@ != "td"@,
        "img"@ != "td"@,
        "div"@ != "img"@,
{
    reveal_strlit("div");
    reveal_strlit("td");
    reveal_strlit("tr");
    reveal_strlit("img");
    assert("div"@.len() == 3);
    assert("img"@.len() == 3);
    assert("td"@.len() == 2);
    assert("tr"@.len() == 2);
    assert("td"@[1] == 'd');
    assert("tr"@[1] == 'r');
    assert("div"@[0] == 'd');
    assert("img"@[0] == 'i');
}

proof fn lemma_quiet_step(s: PlusState, event: MarkupEventView)
    requires
        plus_step(s, event) is Ok,
        !(plus_step(s, event)->Ok_0.1 matches Some(StepView::Message(_))),
        coherent(s),
    ensures
        ({
            let t = plus_step(s, event)->Ok_0.0;
            &&& coherent(t)
            &&& t.details.recipient_id == s.details.recipient_id
            &&& if opens_row(s, event) {
                s.row is None && t.row is Some && s.session is Some && t.session == s.session
            } else {
                (t.row is Some) == (s.row is Some) && (s.row is Some ==> speakers(t.session->Some_0)
                    == speakers(s.session->Some_0))
            }
        }),
{
    lemma_names_differ();
    let t = plus_step(s, event)->Ok_0.0;
    match event {
        MarkupEventView::Open { name, attributes } => {},
        MarkupEventView::Characters(text) => {},
        MarkupEventView::Close { name } => {},
        MarkupEventView::EndDocument => {},
        MarkupEventView::Other => {},
    }
}

proof fn lemma_supplied(s: PlusState, content: Seq<u8>)
    requires
        coherent(s),
    ensures
        coherent(supplied(s, content)),
        supplied(s, content).session == s.session,
        supplied(s, content).details == s.details,
        (supplied(s, content).row is Some) == (s.row is Some),
{
}

/// How many rows are open: one or none.
pub open spec fn open_rows(s: PlusState) -> int {
    if s.row is Some {
        1
    } else {
        0
    }
}

proof fn lemma_plus_run(
    s: PlusState,
    tokens: Seq<Token>,
    assets: Seq<AssetView>,
    messages: Seq<MessageView>,
    archive: ArchiveView,
)
    requires
        plus_collect(s, tokens, assets, messages) == Ok::<ArchiveView, ErrorKind>(archive),
        coherent(s),
    ensures
        archive.messages.len() == messages.len() + open_rows(s) + plus_openings(
            s,
            tokens,
            assets,
        ).len(),
        archive.messages.subrange(0, messages.len() as int) == messages,
        s.row is Some ==> fits(
            archive.messages[messages.len() as int],
            speakers(s.session->Some_0),
        ),
        all_fit(
            archive.messages.subrange(
                messages.len() + open_rows(s),
                archive.messages.len() as int,
            ),
            plus_openings(s, tokens, assets),
        ),
        archive.details.recipient_id == s.details.recipient_id,
    decreases tokens.len(),
{
    let event = tokens.first()->Event_0;
    let (t, step) = plus_step(s, event)->Ok_0;
    let rest = tokens.drop_first();
    let all = archive.messages;
    let n = messages.len() as int;
    match step {
        Some(StepView::End) => {
            assert(all.subrange(0, n) =~= messages);
        },
        Some(StepView::Message(message)) => {
            lemma_plus_run(t, rest, assets, messages.push(message), archive);
            assert(all.subrange(0, n + 1)[n] == messages.push(message)[n]);
            assert(all.subrange(0, n) =~= messages) by {
                assert forall|i: int| 0 <= i < n implies all[i] == messages[i] by {
                    assert(all.subrange(0, n + 1)[i] == messages.push(message)[i]);
                }
            }
            assert(plus_openings(s, tokens, assets) == plus_openings(t, rest, assets));
        },
        Some(StepView::Asset(source)) => {
            lemma_quiet_step(s, event);
            let content = asset_of(assets, source)->Some_0;
            lemma_supplied(t, content);
            lemma_plus_run(supplied(t, content), rest, assets, messages, archive);
            assert(!opens_row(s, event)) by {
                lemma_names_differ();
            }
        },
        None => {
            lemma_quiet_step(s, event);
            lemma_plus_run(t, rest, assets, messages, archive);
            if opens_row(s, event) {
                let later = plus_openings(t, rest, assets);
                let here = plus_openings(s, tokens, assets);
                assert(here =~= seq![speakers(s.session->Some_0)] + later);
                let tail = all.subrange(n, all.len() as int);
                let after = all.subrange(n + 1, all.len() as int);
                assert forall|i: int| 0 <= i < tail.len() implies fits(
                    #[trigger] tail[i],
                    here[i],
                ) by {
                    if i > 0 {
                        assert(tail[i] == after[i - 1]);
                        assert(fits(after[i - 1], later[i - 1]));
                    }
                }
            }
        },
    }
}

/// Every message of an archive belongs to the session that was active
/// where its row opened and was exchanged by the two participants of that
/// session, or names nobody; its content is a single note or text and
/// images only; and there is one message for each row.
pub proof fn law_messages_fit_their_session(
    recipient_id: Seq<char>,
    tokens: Seq<Token>,
    assets: Seq<AssetView>,
    archive: ArchiveView,
)
    requires
        plus_archive(recipient_id, tokens, assets) == Ok::<ArchiveView, ErrorKind>(archive),
    ensures
        archive.messages.len() == plus_openings(plus_initial(recipient_id), tokens, assets).len(),
        forall|i: int|
            0 <= i < archive.messages.len() ==> fits(
                #[trigger] archive.messages[i],
                plus_openings(plus_initial(recipient_id), tokens, assets)[i],
            ),
{
    lemma_plus_run(plus_initial(recipient_id), tokens, assets, Seq::empty(), archive);
    assert(archive.messages.subrange(0, archive.messages.len() as int) =~= archive.messages);
}

/// A document in which no row opens holds no message, and its archive is
/// that of the recipient it was read for.
pub proof fn law_no_opening_no_message(
    recipient_id: Seq<char>,
    tokens: Seq<Token>,
    assets: Seq<AssetView>,
    archive: ArchiveView,
)
    requires
        plus_archive(recipient_id, tokens, assets) == Ok::<ArchiveView, ErrorKind>(archive),
        plus_openings(plus_initial(recipient_id), tokens, assets).len() == 0,
    ensures
        archive.messages == Seq::<MessageView>::empty(),
        archive.details.recipient_id == recipient_id,
{
    lemma_plus_run(plus_initial(recipient_id), tokens, assets, Seq::empty(), archive);
    assert(archive.messages =~= Seq::empty());
}

proof fn lemma_no_session(
    s: PlusState,
    tokens: Seq<Token>,
    assets: Seq<AssetView>,
    messages: Seq<MessageView>,
    archive: ArchiveView,
)
    requires
        plus_collect(s, tokens, assets, messages) == Ok::<ArchiveView, ErrorKind>(archive),
        s.session is None,
        forall|i: int|
            0 <= i < tokens.len() ==> !(#[trigger] tokens[i] matches Token::Event(event)
                && starts_session(event)),
    ensures
        archive.details == s.details,
    decreases tokens.len(),
{
    assert(tokens[0] == tokens.first());
    let event = tokens.first()->Event_0;
    let (t, step) = plus_step(s, event)->Ok_0;
    let rest = tokens.drop_first();
    assert forall|i: int| 0 <= i < rest.len() implies !(#[trigger] rest[i] matches Token::Event(
        event,
    ) && starts_session(event)) by {
        assert(rest[i] == tokens[i + 1]);
    }
    assert(t.details == s.details && t.session is None);
    match step {
        Some(StepView::End) => {},
        Some(StepView::Message(message)) => {
            lemma_no_session(t, rest, assets, messages.push(message), archive);
        },
        Some(StepView::Asset(source)) => {
            lemma_no_session(
                supplied(t, asset_of(assets, source)->Some_0),
                rest,
                assets,
                messages,
                archive,
            );
        },
        None => {
            lemma_no_session(t, rest, assets, messages, archive);
        },
    }
}

/// A document in which no session starts names none: the first and the
/// last session of its archive are the default.
pub proof fn law_sessions_default(
    recipient_id: Seq<char>,
    tokens: Seq<Token>,
    assets: Seq<AssetView>,
    archive: ArchiveView,
)
    requires
        plus_archive(recipient_id, tokens, assets) == Ok::<ArchiveView, ErrorKind>(archive),
        forall|i: int|
            0 <= i < tokens.len() ==> !(#[trigger] tokens[i] matches Token::Event(event)
                && starts_session(event)),
    ensures
        archive.details.first_session_id == "0"@,
        archive.details.last_session_id == "0"@,
        archive.details.recipient_id == recipient_id,
{
    lemma_no_session(plus_initial(recipient_id), tokens, assets, Seq::empty(), archive);
}

/// Two parses of one document for one recipient, with the same image
/// files beside it, end alike: both give the same archive, or both fail
/// in the same way.
pub proof fn law_same_document_same_archive(
    recipient_id: Seq<char>,
    document: Seq<u8>,
    assets: Seq<AssetView>,
    first: Result<Archive, MessengerError>,
    second: Result<Archive, MessengerError>,
)
    requires
        archive_agrees(plus_archive(recipient_id, document_tokens(document), assets), first),
        archive_agrees(plus_archive(recipient_id, document_tokens(document), assets), second),
    ensures
        first is Ok <==> second is Ok,
        first is Ok ==> first->Ok_0@ == second->Ok_0@,
        first is Err ==> first->Err_0@.kind == second->Err_0@.kind,
{
}

/// The archive of a run of tokens is what advancing through it tells,
/// message by message, with each image taken from the assets where the
/// document asks for it: the two ways to read a document agree.
pub proof fn law_collecting_is_advancing(
    s: PlusState,
    tokens: Seq<Token>,
    assets: Seq<AssetView>,
    messages: Seq<MessageView>,
)
    ensures
        plus_collect(s, tokens, assets, messages) == match plus_advance(s, tokens).outcome {
            Err(kind) => Err(kind),
            Ok(StepView::End) => Ok(
                ArchiveView { details: plus_advance(s, tokens).state.details, messages },
            ),
            Ok(StepView::Message(message)) => plus_collect(
                plus_advance(s, tokens).state,
                plus_advance(s, tokens).rest,
                assets,
                messages.push(message),
            ),
            Ok(StepView::Asset(source)) => match asset_of(assets, source) {
                None => Err(ErrorKind::SourceUnreadable),
                Some(content) => plus_collect(
                    supplied(plus_advance(s, tokens).state, content),
                    plus_advance(s, tokens).rest,
                    assets,
                    messages,
                ),
            },
        },
    decreases tokens.len(),
{
    if tokens.len() > 0 {
        match tokens.first() {
            Token::Fault => {},
            Token::Event(event) => match plus_step(s, event) {
                Err(_) => {},
                Ok((t, None)) => {
                    law_collecting_is_advancing(t, tokens.drop_first(), assets, messages);
                },
                Ok((t, Some(_))) => {},
            },
        }
    }
}

/// Once an advance has told that the document is over, every later one
/// tells the same and changes nothing.
pub proof fn law_end_is_told_again(s: PlusState, tokens: Seq<Token>)
    requires
        plus_advance(s, tokens).outcome == Ok::<StepView, ErrorKind>(StepView::End),
    ensures
        plus_advance(plus_advance(s, tokens).state, plus_advance(s, tokens).rest) == plus_advance(
            s,
            tokens,
        ),
    decreases tokens.len(),
{
    match tokens.first() {
        Token::Fault => {},
        Token::Event(event) => match plus_step(s, event) {
            Err(_) => {},
            Ok((t, None)) => {
                law_end_is_told_again(t, tokens.drop_first());
            },
            Ok((t, Some(_))) => {},
        },
    }
}

/// An event that fails ends the parse: after it every event fails in the
/// same way, whatever it is, and so no message is told any more.
pub proof fn law_failed_event_ends_the_parse(
    s: PlusState,
    event: MarkupEventView,
    later: MarkupEventView,
)
    requires
        plus_step(s, event) is Err,
    ensures
        plus_step(plus_failed(s, plus_step(s, event)->Err_0), later) == plus_step(s, event),
{
}

/// An advance that fails ends the parse: every later advance fails in the
/// same way, takes no token and changes nothing, and no bytes of an image
/// are taken any more.
pub proof fn law_failure_is_final(s: PlusState, tokens: Seq<Token>, later: Seq<Token>)
    requires
        plus_advance(s, tokens).outcome is Err,
    ensures
        plus_advance(plus_advance(s, tokens).state, later) == (PlusAdvance {
            state: plus_advance(s, tokens).state,
            rest: later,
            outcome: plus_advance(s, tokens).outcome,
        }),
        forall|content: Seq<u8>|
            supplied(plus_advance(s, tokens).state, content) == plus_advance(s, tokens).state,
    decreases tokens.len(),
{
    if s.failed is None && !awaits_asset(s) && tokens.len() > 0 {
        match tokens.first() {
            Token::Fault => {},
            Token::Event(event) => match plus_step(s, event) {
                Err(_) => {},
                Ok((t, None)) => {
                    law_failure_is_final(t, tokens.drop_first(), later);
                },
                Ok((t, Some(_))) => {},
            },
        }
    }
}

/// The engine takes events: it has not failed, the document is not over,
/// and no bytes of an image are owed.
pub open spec fn ready(s: PlusState) -> bool {
    s.failed is None && !s.finished && !awaits_asset(s)
}

/// A session that starts is new in all but its identifier and its day and
/// time: it has no participants and no style yet, and its first row is
/// still to come.
pub proof fn law_session_starts_afresh(
    s: PlusState,
    attributes: Seq<AttributeView>,
    id: Seq<char>,
    date: Moment,
)
    requires
        ready(s),
        s.row is None,
        session_place().is_suffix_of(s.context.path),
        value_of(attributes, "class"@) == Some("mplsession"@),
        value_of(attributes, "id"@) == Some(id),
        moment_by_pattern(id, "Session_%Y-%m-%dT%H-%M-%S"@) == Some(date),
    ensures
        plus_step(s, MarkupEventView::Open { name: "div"@, attributes }) matches Ok((t, step))
            && step is None && t.row is None && t.session == Some(
            SessionView {
                id,
                date,
                owner: Seq::empty(),
                recipient: Seq::empty(),
                message_style: Seq::empty(),
                first_row: true,
            },
        ) && t.details.last_session_id == id && t.details.first_session_id == (if s.session
            is None {
            id
        } else {
            s.details.first_session_id
        }),
{
}

/// A row that opens in a session opens a message of that session: the
/// message has the session's identifier, no names and no time yet, and
/// neither the session nor the details of the archive change. The row of
/// a note starts with one empty note, any other row with no content.
pub proof fn law_row_opens_in_its_session(s: PlusState, attributes: Seq<AttributeView>)
    requires
        ready(s),
        s.session is Some,
        s.row is None,
        rows_place().is_suffix_of(s.context.path),
    ensures
        ({
            let told = plus_step(s, MarkupEventView::Open { name: "tr"@, attributes });
            let t = told->Ok_0.0;
            let message = t.row->Some_0.message;
            &&& told is Ok
            &&& told->Ok_0.1 is None
            &&& t.session == s.session
            &&& t.details == s.details
            &&& t.row is Some
            &&& message.session_id == s.session->Some_0.id
            &&& message.sender_friendly_name == Seq::<char>::empty()
            &&& message.receiver_friendly_name == Seq::<char>::empty()
            &&& message.datetime == Seq::<char>::empty()
            &&& message.timezone_offset is None
            &&& message.data == (if value_of(attributes, "class"@) == Some("msgplus"@) {
                seq![DataView::System(Seq::empty())]
            } else {
                Seq::empty()
            })
        }),
{
    lemma_names_differ();
}

/// The time label of a row gives the row its timestamp on the day that
/// its session started. The first label of every session is written to
/// the second, and is the first no longer; every later one is written to
/// the minute. A label that cannot be read ends the parse.
pub proof fn law_label_stamps_the_row(s: PlusState, label: Seq<char>)
    requires
        ready(s),
        s.session is Some,
        s.row is Some,
        s.context.path == label_place(),
    ensures
        ({
            let session = s.session->Some_0;
            let time = if session.first_row {
                first_label_time(label, session.date.time.second)
            } else {
                time_by_pattern(label, "(%H:%M)"@)
            };
            let pattern = if session.first_row {
                "%Y-%m-%dT%H:%M:%S"@
            } else {
                "%Y-%m-%dT%H:%M"@
            };
            let stamp = match time {
                Some(time) => written(session.date.date, time, pattern),
                None => None,
            };
            match plus_step(s, MarkupEventView::Characters(label)) {
                Ok((t, step)) => stamp is Some && step is None && t.row->Some_0.message
                    == (MessageView { datetime: stamp->Some_0, ..s.row->Some_0.message })
                    && t.session == Some(SessionView { first_row: false, ..session }),
                Err(kind) => stamp is None && kind == ErrorKind::TimestampReconstructionFailure,
            }
        }),
{
    assert(participants_place().len() == 5);
    assert(label_place().len() == 8);
}

/// The header of a row names both participants of the session: the owner
/// sends where the owner's nickname stands in the header, else the
/// recipient does, and the other receives. The session stays as it is.
pub proof fn law_header_names_both(s: PlusState, header: Seq<char>)
    requires
        ready(s),
        s.session is Some,
        s.row is Some,
        s.context.path == header_place(),
    ensures
        ({
            let session = s.session->Some_0;
            let message = s.row->Some_0.message;
            plus_step(s, MarkupEventView::Characters(header)) matches Ok((t, step)) && step
                is None && t.session == s.session && t.details == s.details && t.row->Some_0.message
                == (if occurs_in(session.owner, header) {
                MessageView {
                    sender_friendly_name: session.owner,
                    receiver_friendly_name: session.recipient,
                    ..message
                }
            } else {
                MessageView {
                    sender_friendly_name: session.recipient,
                    receiver_friendly_name: session.owner,
                    ..message
                }
            })
        }),
{
    assert(participants_place().len() == 5);
    assert(label_place().len() == 8);
    assert(header_place().len() == 7);
}

/// An image in a cell of a row that is no note asks for its bytes by its
/// source as written, and keeps its source and its alternative text,
/// trimmed, until they come. The content of the message stays as it is.
pub proof fn law_image_asks_for_its_bytes(
    s: PlusState,
    attributes: Seq<AttributeView>,
    source: Seq<char>,
)
    requires
        ready(s),
        s.row is Some,
        !is_system_note(s.row->Some_0.message),
        cell_place().is_suffix_of(s.context.path),
        value_of(attributes, "src"@) == Some(source),
    ensures
        ({
            let told = plus_step(s, MarkupEventView::Open { name: "img"@, attributes });
            let t = told->Ok_0.0;
            &&& told is Ok
            &&& told->Ok_0.1 == Some(StepView::Asset(source))
            &&& t.row is Some
            &&& t.row->Some_0.message == s.row->Some_0.message
            &&& t.row->Some_0.awaited == Some(
                ImageView {
                    src: trimmed(source),
                    alt: match value_of(attributes, "alt"@) {
                        Some(alt) => trimmed(alt),
                        None => Seq::empty(),
                    },
                    content: Seq::empty(),
                },
            )
        }),
{
    lemma_names_differ();
}

/// The bytes handed over for an image are its content, byte for byte; the
/// image comes after what the message held, and nothing else changes.
pub proof fn law_image_keeps_its_bytes(s: PlusState, content: Seq<u8>)
    requires
        takes_asset(s),
    ensures
        ({
            let row = s.row->Some_0;
            let image = row.awaited->Some_0;
            supplied(s, content) == (PlusState {
                row: Some(
                    RowView {
                        message: MessageView {
                            data: row.message.data.push(
                                DataView::Image(
                                    ImageView { src: image.src, alt: image.alt, content },
                                ),
                            ),
                            ..row.message
                        },
                        awaited: None,
                        ..row
                    },
                ),
                ..s
            })
        }),
{
}

} // verus!
