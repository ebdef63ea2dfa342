//! The engine for the messenger's own XML archives: one message per
//! `Message` element, with its participants and its runs of text.

use crate::messenger::blank_message;
use crate::messenger::clock::minutes_between;
use crate::messenger::clock::read_time;
use crate::messenger::clock::read_time_at_start;
use crate::messenger::clock::time_at_start;
use crate::messenger::clock::time_of;
use crate::messenger::clock::whole_minutes_between;
use crate::messenger::common::attribute_views;
use crate::messenger::common::document_tokens;
use crate::messenger::common::fault_error;
use crate::messenger::common::last_segment;
use crate::messenger::common::plain_path;
use crate::messenger::common::recipient_of;
use crate::messenger::common::stem_of;
use crate::messenger::common::get_parser;
use crate::messenger::common::is_part_of;
use crate::messenger::common::parse_attributes;
use crate::messenger::common::pending;
use crate::messenger::common::pull_event;
use crate::messenger::common::value_of;
use crate::messenger::common::Attribute;
use crate::messenger::common::AttributeMap;
use crate::messenger::common::AttributeView;
use crate::messenger::common::MarkupEvent;
use crate::messenger::common::MarkupEventView;
use crate::messenger::common::Token;
use crate::messenger::common::Tokenizer;
use crate::messenger::context::names;
use crate::messenger::context::Context;
use crate::messenger::context::ContextView;
use crate::messenger::error::ErrorKind;
use crate::messenger::error::MessengerError;
use crate::messenger::message_views;
use crate::messenger::step_view;
use crate::messenger::text::same_text;
use crate::messenger::Archive;
use crate::messenger::ArchiveDetails;
use crate::messenger::ArchiveDetailsView;
use crate::messenger::ArchiveView;
use crate::messenger::Data;
use crate::messenger::DataView;
use crate::messenger::FileType;
use crate::messenger::Message;
use crate::messenger::MessengerArchive;
use crate::messenger::MessageView;
use crate::messenger::Step;
use crate::messenger::StepView;
use crate::messenger::Text;
use crate::messenger::TextView;
use vstd::prelude::*;
use vstd::string::*;

verus! {

/// All that the engine keeps between two events.
pub struct XmlState {
    pub details: ArchiveDetailsView,
    pub context: ContextView,
    /// The message of the `Message` element that is open.
    pub message: Option<MessageView>,
    /// A `Log` element was read.
    pub logged: bool,
    pub finished: bool,
    /// The failure that ended the parse, if one did.
    pub failed: Option<ErrorKind>,
}

/// The state before the first event.
pub open spec fn xml_initial(recipient_id: Seq<char>) -> XmlState {
    XmlState {
        details: ArchiveDetailsView {
            file_type: FileType::XML,
            first_session_id: "0"@,
            last_session_id: "0"@,
            recipient_id,
        },
        context: ContextView { path: Seq::empty(), attributes: Seq::empty() },
        message: None,
        logged: false,
        finished: false,
        failed: None,
    }
}

/// The state after a failure of the given kind: the failure is final.
pub open spec fn xml_failed(s: XmlState, kind: ErrorKind) -> XmlState {
    XmlState { failed: Some(kind), ..s }
}

/// What an event does: the next state and what there is to tell, or the
/// kind of the failure.
pub type XmlEffect = Result<(XmlState, Option<StepView>), ErrorKind>;

/// The value of an attribute, or a default where it is missing.
pub open spec fn value_or(
    attributes: Seq<AttributeView>,
    name: Seq<char>,
    default: Seq<char>,
) -> Seq<char> {
    match value_of(attributes, name) {
        Some(value) => value,
        None => default,
    }
}

/// The minutes by which the local time of day is ahead of the time of day
/// in the timestamp; `None` where either cannot be read. Only times of day
/// are compared: around midnight the offset is off by a day.
pub open spec fn utc_offset(datetime: Seq<char>, time: Seq<char>) -> Option<i64> {
    match time_at_start(datetime, "%Y-%m-%dT%H:%M:%S"@) {
        Some(utc) => match time_of(time) {
            Some(local) => minutes_between(local, utc),
            None => None,
        },
        None => None,
    }
}

/// The root of the log names the first and the last session. The first is
/// taken from the first root only.
pub open spec fn open_log(s: XmlState, attributes: Seq<AttributeView>) -> XmlState {
    XmlState {
        details: ArchiveDetailsView {
            first_session_id: if s.logged {
                s.details.first_session_id
            } else {
                value_or(attributes, "FirstSessionID"@, "0"@)
            },
            last_session_id: value_or(attributes, "LastSessionID"@, "0"@),
            ..s.details
        },
        logged: true,
        ..s
    }
}

/// The message that a `Message` element starts with.
pub open spec fn fresh_message(attributes: Seq<AttributeView>) -> MessageView {
    MessageView {
        session_id: value_or(attributes, "SessionID"@, "0"@),
        datetime: value_or(attributes, "DateTime"@, Seq::empty()),
        timezone_offset: utc_offset(
            value_or(attributes, "DateTime"@, Seq::empty()),
            value_or(attributes, "Time"@, Seq::empty()),
        ),
        ..blank_message()
    }
}

/// A `Message` element opens a message. Messages do not stand in one
/// another.
pub open spec fn open_message(s: XmlState, attributes: Seq<AttributeView>) -> XmlEffect {
    if s.message.is_some() {
        Err(ErrorKind::MalformedStructure)
    } else {
        Ok((XmlState { message: Some(fresh_message(attributes)), ..s }, None))
    }
}

/// The message with the participant that a `User` element names: the
/// sender inside `From`, the receiver inside `To`.
pub open spec fn with_user(
    message: MessageView,
    path: Seq<Seq<char>>,
    attributes: Seq<AttributeView>,
) -> MessageView {
    if path.contains("From"@) {
        MessageView {
            sender_friendly_name: value_or(attributes, "FriendlyName"@, Seq::empty()),
            ..message
        }
    } else if path.contains("To"@) {
        MessageView {
            receiver_friendly_name: value_or(attributes, "FriendlyName"@, Seq::empty()),
            ..message
        }
    } else {
        message
    }
}

/// The message with one more run of text, of the style that a `Text`
/// element gives and as yet empty.
pub open spec fn with_run(message: MessageView, attributes: Seq<AttributeView>) -> MessageView {
    MessageView {
        data: message.data.push(
            DataView::Text(
                TextView { style: value_or(attributes, "Style"@, Seq::empty()), content: Seq::empty() },
            ),
        ),
        ..message
    }
}

/// The state with the open message changed, if one is open.
pub open spec fn with_message(s: XmlState, change: spec_fn(MessageView) -> MessageView) -> XmlState {
    match s.message {
        Some(message) => XmlState { message: Some(change(message)), ..s },
        None => s,
    }
}

/// What the opening of an element does, by its name.
pub open spec fn xml_node_effect(
    s: XmlState,
    name: Seq<char>,
    attributes: Seq<AttributeView>,
) -> XmlEffect {
    if name == "Log"@ {
        Ok((open_log(s, attributes), None))
    } else if name == "Message"@ {
        open_message(s, attributes)
    } else if name == "User"@ {
        Ok((with_message(s, |m: MessageView| with_user(m, s.context.path, attributes)), None))
    } else if name == "Text"@ {
        Ok((with_message(s, |m: MessageView| with_run(m, attributes)), None))
    } else {
        Ok((s, None))
    }
}

/// Where the text of a run stands.
pub open spec fn run_place() -> Seq<Seq<char>> {
    seq!["Message"@, "Text"@]
}

/// The message with a chunk of character data added to the end of its
/// last run of text. Where the last run is no text, the chunk is dropped.
pub open spec fn with_chunk(message: MessageView, chunk: Seq<char>) -> MessageView {
    if message.data.len() > 0 && message.data.last() is Text {
        let run = message.data.last()->Text_0;
        MessageView {
            data: message.data.drop_last().push(
                DataView::Text(TextView { content: run.content + chunk, ..run }),
            ),
            ..message
        }
    } else {
        message
    }
}

/// What character data does: inside a run of text of a message it is
/// added to the run.
pub open spec fn xml_text_effect(s: XmlState, text: Seq<char>) -> XmlState {
    if run_place().is_suffix_of(s.context.path) {
        with_message(s, |m: MessageView| with_chunk(m, text))
    } else {
        s
    }
}

/// The state with the innermost element closed.
pub open spec fn xml_left(s: XmlState) -> XmlState {
    XmlState {
        context: ContextView { path: s.context.path.drop_last(), attributes: s.context.attributes },
        ..s
    }
}

/// An element closes: it must be the innermost open one. Where it is a
/// `Message`, the message is complete.
pub open spec fn xml_close_effect(s: XmlState, name: Seq<char>) -> XmlEffect {
    let path = s.context.path;
    if path.len() == 0 || path.last() != name {
        Err(ErrorKind::MalformedStructure)
    } else if name == "Message"@ {
        match s.message {
            None => Err(ErrorKind::MalformedStructure),
            Some(message) => Ok(
                (XmlState { message: None, ..xml_left(s) }, Some(StepView::Message(message))),
            ),
        }
    } else {
        Ok((xml_left(s), None))
    }
}

/// The document ends: nothing may be open.
pub open spec fn xml_end_effect(s: XmlState) -> XmlEffect {
    if s.context.path.len() > 0 || s.message.is_some() {
        Err(ErrorKind::MalformedStructure)
    } else {
        Ok((XmlState { finished: true, ..s }, Some(StepView::End)))
    }
}

/// The state with the element entered that just opened.
pub open spec fn xml_entered(
    s: XmlState,
    name: Seq<char>,
    attributes: Seq<AttributeView>,
) -> XmlState {
    XmlState { context: ContextView { path: s.context.path.push(name), attributes }, ..s }
}

/// What one event does to an engine that has not failed. After the end
/// of the document only its end is told again.
pub open spec fn xml_event_effect(s: XmlState, event: MarkupEventView) -> XmlEffect {
    if s.finished {
        if event == MarkupEventView::EndDocument {
            Ok((s, Some(StepView::End)))
        } else {
            Err(ErrorKind::MalformedStructure)
        }
    } else {
        match event {
            MarkupEventView::Open { name, attributes } => match xml_node_effect(
                s,
                name,
                attributes,
            ) {
                Ok((t, step)) => Ok((xml_entered(t, name, attributes), step)),
                Err(kind) => Err(kind),
            },
            MarkupEventView::Characters(text) => Ok((xml_text_effect(s, text), None)),
            MarkupEventView::Close { name } => xml_close_effect(s, name),
            MarkupEventView::EndDocument => xml_end_effect(s),
            MarkupEventView::Other => Ok((s, None)),
        }
    }
}

/// What one event does to the engine. A failure is final: once an event
/// has failed, every later one fails in the same way.
pub open spec fn xml_step(s: XmlState, event: MarkupEventView) -> XmlEffect {
    match s.failed {
        Some(kind) => Err(kind),
        None => xml_event_effect(s, event),
    }
}

/// A result of the engine says what a specified step asks for: on success
/// the step told and the state reached, on failure the kind of the error,
/// which the engine keeps from then on.
pub open spec fn xml_told(
    before: XmlState,
    expected: XmlEffect,
    after: XmlState,
    given: Result<Option<Step>, MessengerError>,
) -> bool {
    match expected {
        Ok((state, step)) => given is Ok && step_view(given->Ok_0) == step && after == state,
        Err(kind) => given is Err && given->Err_0@.kind == kind && after == xml_failed(
            before,
            kind,
        ),
    }
}

/// A result of a part of the engine says what a specified effect asks
/// for: on success the step told and the state reached, on failure the
/// kind of the error, with the state as it was.
pub open spec fn xml_agrees(
    before: XmlState,
    expected: XmlEffect,
    after: XmlState,
    given: Result<Option<Step>, MessengerError>,
) -> bool {
    match expected {
        Ok((state, step)) => given is Ok && step_view(given->Ok_0) == step && after == state,
        Err(kind) => given is Err && given->Err_0@.kind == kind && after == before,
    }
}

/// Where one advance of the parser leads.
pub struct XmlAdvance {
    pub state: XmlState,
    /// The tokens that are left to give.
    pub rest: Seq<Token>,
    pub outcome: Result<Option<MessageView>, ErrorKind>,
}

/// The tokens left after the first was given: a terminal one stays.
pub open spec fn xml_rest_after(tokens: Seq<Token>) -> Seq<Token> {
    if tokens.first().is_terminal() {
        tokens
    } else {
        tokens.drop_first()
    }
}

/// What a step of this dialect tells a caller: a message, or nothing more.
pub open spec fn told(step: StepView) -> Option<MessageView> {
    match step {
        StepView::Message(message) => Some(message),
        _ => None,
    }
}

/// One advance: events are taken until a message is complete, the
/// document ends or an event fails. A fault of the tokenizer is a
/// malformed document. A failure is final: after one, an advance takes no
/// token and fails in the same way.
pub open spec fn xml_advance(s: XmlState, tokens: Seq<Token>) -> XmlAdvance
    decreases tokens.len(),
{
    if s.failed is Some {
        XmlAdvance { state: s, rest: tokens, outcome: Err(s.failed->Some_0) }
    } else if tokens.len() == 0 {
        XmlAdvance {
            state: xml_failed(s, ErrorKind::MalformedStructure),
            rest: tokens,
            outcome: Err(ErrorKind::MalformedStructure),
        }
    } else {
        match tokens.first() {
            Token::Fault => XmlAdvance {
                state: xml_failed(s, ErrorKind::MalformedStructure),
                rest: tokens,
                outcome: Err(ErrorKind::MalformedStructure),
            },
            Token::Event(event) => match xml_step(s, event) {
                Err(kind) => XmlAdvance {
                    state: xml_failed(s, kind),
                    rest: xml_rest_after(tokens),
                    outcome: Err(kind),
                },
                Ok((t, Some(step))) => XmlAdvance {
                    state: t,
                    rest: xml_rest_after(tokens),
                    outcome: Ok(told(step)),
                },
                Ok((t, None)) => xml_advance(t, tokens.drop_first()),
            },
        }
    }
}

/// The whole archive of a run of tokens, from a given state on and after
/// the messages already told.
pub open spec fn xml_collect(
    s: XmlState,
    tokens: Seq<Token>,
    messages: Seq<MessageView>,
) -> Result<ArchiveView, ErrorKind>
    decreases tokens.len(),
{
    if s.failed is Some {
        Err(s.failed->Some_0)
    } else if tokens.len() == 0 {
        Err(ErrorKind::MalformedStructure)
    } else {
        match tokens.first() {
            Token::Fault => Err(ErrorKind::MalformedStructure),
            Token::Event(event) => match xml_step(s, event) {
                Err(kind) => Err(kind),
                Ok((t, Some(StepView::End))) => Ok(ArchiveView { details: t.details, messages }),
                Ok((t, Some(StepView::Message(message)))) => xml_collect(
                    t,
                    tokens.drop_first(),
                    messages.push(message),
                ),
                Ok((t, _)) => xml_collect(t, tokens.drop_first(), messages),
            },
        }
    }
}

/// The archive that a document of the XML dialect holds.
pub open spec fn xml_archive(recipient_id: Seq<char>, tokens: Seq<Token>) -> Result<
    ArchiveView,
    ErrorKind,
> {
    xml_collect(xml_initial(recipient_id), tokens, Seq::empty())
}

/// A result of a whole parse says what the specified archive asks for.
pub open spec fn xml_archive_agrees(
    expected: Result<ArchiveView, ErrorKind>,
    given: Result<Archive, MessengerError>,
) -> bool {
    match expected {
        Ok(archive) => given is Ok && given->Ok_0@ == archive,
        Err(kind) => given is Err && given->Err_0@.kind == kind,
    }
}

/// The value of an attribute as an owned text, or a default.
fn owned_value(map: &AttributeMap, name: &str, default: &str) -> (value: String)
    ensures
        value@ == match map@.get(name@) {
            Some(text) => text,
            None => default@,
        },
{
    match map.get(name) {
        Some(text) => String::from_str(text),
        None => String::from_str(default),
    }
}

/// A parser of an archive in the XML dialect, over a document held in
/// memory.
pub struct XmlParser {
    list: ArchiveDetails,
    reader: Tokenizer,
    context: Context,
    message: Option<Message>,
    logged: bool,
    finished: bool,
    failure: Option<MessengerError>,
}

impl XmlParser {
    /// What the engine holds.
    pub closed spec fn state(&self) -> XmlState {
        XmlState {
            details: self.list@,
            context: self.context@,
            message: match self.message {
                Some(message) => Some(message@),
                None => None,
            },
            logged: self.logged,
            finished: self.finished,
            failed: match self.failure {
                Some(failure) => Some(failure@.kind),
                None => None,
            },
        }
    }

    /// The tokens of the document that were not taken yet.
    pub closed spec fn tokens(&self) -> Seq<Token> {
        pending(self.reader)
    }

    /// A parser at the start of a document, for the archive of a
    /// conversation with the given recipient.
    pub fn with_recipient(recipient_id: String, document: Vec<u8>) -> (parser: Self)
        ensures
            parser.state() == xml_initial(recipient_id@),
            parser.tokens() == document_tokens(document@),
    {
        XmlParser {
            list: ArchiveDetails {
                file_type: FileType::XML,
                first_session_id: String::from_str("0"),
                last_session_id: String::from_str("0"),
                recipient_id,
            },
            reader: get_parser(document),
            context: Context::new(),
            message: None,
            logged: false,
            finished: false,
            failure: None,
        }
    }

    /// A parser at the start of the document that was read from `path`. The
    /// recipient is named by the stem of the file's name.
    pub fn new(path: &str, document: Vec<u8>) -> (parser: Self)
        ensures
            is_part_of(parser.state().details.recipient_id, path@),
            plain_path(path@) ==> parser.state().details.recipient_id == stem_of(
                last_segment(path@),
            ),
            parser.state() == xml_initial(parser.state().details.recipient_id),
            parser.tokens() == document_tokens(document@),
    {
        Self::with_recipient(recipient_of(path), document)
    }

    /// The details of the archive as far as they are known.
    pub fn archive(&self) -> (details: &ArchiveDetails)
        ensures
            details@ == self.state().details,
    {
        &self.list
    }

    /// The offset of the local time of a message from its timestamp.
    fn handle_message_datetime(datetime: &str, time: &str) -> (offset: Option<i64>)
        ensures
            offset == utc_offset(datetime@, time@),
    {
        match read_time_at_start(datetime, "%Y-%m-%dT%H:%M:%S") {
            Some(utc) => match read_time(time) {
                Some(local) => whole_minutes_between(local, utc),
                None => None,
            },
            None => None,
        }
    }

    /// What the opening of an element does, before the element is entered.
    fn parse_node(&mut self, name: &str, attributes: &Vec<Attribute>) -> (r: Result<
        Option<Step>,
        MessengerError,
    >)
        ensures
            xml_agrees(
                old(self).state(),
                xml_node_effect(old(self).state(), name@, attribute_views(attributes@)),
                final(self).state(),
                r,
            ),
            final(self).tokens() == old(self).tokens(),
    {
        let map = parse_attributes(attributes);
        if same_text(name, "Log") {
            if !self.logged {
                self.list.first_session_id = owned_value(&map, "FirstSessionID", "0");
            }
            self.list.last_session_id = owned_value(&map, "LastSessionID", "0");
            self.logged = true;
            Ok(None)
        } else if same_text(name, "Message") {
            if self.message.is_some() {
                return Err(
                    MessengerError::of_kind(
                        ErrorKind::MalformedStructure,
                        "A message starts inside a message",
                    ),
                );
            }
            let datetime = owned_value(&map, "DateTime", "");
            let time = owned_value(&map, "Time", "");
            let mut message = Message::default();
            message.session_id = owned_value(&map, "SessionID", "0");
            message.timezone_offset = Self::handle_message_datetime(
                datetime.as_str(),
                time.as_str(),
            );
            message.datetime = datetime;
            proof {
                reveal_strlit("");
                assert(""@ =~= Seq::<char>::empty());
            }
            self.message = Some(message);
            Ok(None)
        } else if same_text(name, "User") {
            let from = self.context.contains("From");
            let to = self.context.contains("To");
            proof {
                reveal_strlit("");
                assert(""@ =~= Seq::<char>::empty());
            }
            match self.message.take() {
                Some(message) => {
                    let mut message = message;
                    if from {
                        message.sender_friendly_name = owned_value(&map, "FriendlyName", "");
                    } else if to {
                        message.receiver_friendly_name = owned_value(&map, "FriendlyName", "");
                    }
                    self.message = Some(message);
                },
                None => {},
            }
            Ok(None)
        } else if same_text(name, "Text") {
            proof {
                reveal_strlit("");
                assert(""@ =~= Seq::<char>::empty());
            }
            match self.message.take() {
                Some(message) => {
                    let mut message = message;
                    let ghost before = message@.data;
                    let text = Text { style: owned_value(&map, "Style", ""), content: String::new() };
                    message.data.push(Data::Text(text));
                    assert(message@.data =~= before.push(DataView::Text(text@)));
                    self.message = Some(message);
                },
                None => {},
            }
            Ok(None)
        } else {
            Ok(None)
        }
    }

    /// What character data does.
    fn parse_text(&mut self, data: &str)
        ensures
            final(self).state() == xml_text_effect(old(self).state(), data@),
            final(self).tokens() == old(self).tokens(),
    {
        proof {
            assert(names(["Message", "Text"]@) =~= run_place());
        }
        if !self.context.ends_with(&["Message", "Text"]) {
            return;
        }
        match self.message.take() {
            None => {},
            Some(message) => {
                let mut message = message;
                let ghost before = message@;
                match message.data.pop() {
                    None => {
                        assert(message@.data =~= before.data);
                    },
                    Some(Data::Text(text)) => {
                        let mut text = text;
                        let ghost run = text@;
                        text.content.append(data);
                        message.data.push(Data::Text(text));
                        assert(before.data.last() == DataView::Text(run));
                        assert(message@.data =~= before.data.drop_last().push(
                            DataView::Text(TextView { content: run.content + data@, ..run }),
                        ));
                    },
                    Some(other) => {
                        message.data.push(other);
                        assert(before.data.last() == other@);
                        assert(message@.data =~= before.data);
                    },
                }
                self.message = Some(message);
            },
        }
    }

    fn close(&mut self, name: &str) -> (r: Result<Option<Step>, MessengerError>)
        ensures
            xml_agrees(
                old(self).state(),
                xml_close_effect(old(self).state(), name@),
                final(self).state(),
                r,
            ),
            final(self).tokens() == old(self).tokens(),
    {
        let balanced = match self.context.innermost() {
            Some(open) => same_text(open, name),
            None => false,
        };
        if !balanced {
            return Err(
                MessengerError::of_kind(
                    ErrorKind::MalformedStructure,
                    "An element closes that is not the innermost open one",
                ),
            );
        }
        let message_ends = same_text(name, "Message");
        if message_ends && self.message.is_none() {
            return Err(
                MessengerError::of_kind(
                    ErrorKind::MalformedStructure,
                    "A message ends that never started",
                ),
            );
        }
        match self.context.leave() {
            Err(e) => Err(e),
            Ok(_) => {
                if message_ends {
                    match self.message.take() {
                        Some(message) => Ok(Some(Step::Message(message))),
                        None => Ok(None),
                    }
                } else {
                    Ok(None)
                }
            },
        }
    }

    fn finish(&mut self) -> (r: Result<Option<Step>, MessengerError>)
        ensures
            xml_agrees(
                old(self).state(),
                xml_end_effect(old(self).state()),
                final(self).state(),
                r,
            ),
            final(self).tokens() == old(self).tokens(),
    {
        if self.context.innermost().is_some() || self.message.is_some() {
            return Err(
                MessengerError::of_kind(
                    ErrorKind::MalformedStructure,
                    "The document ends with elements open",
                ),
            );
        }
        self.finished = true;
        Ok(Some(Step::End))
    }

    /// Takes one event of the document. Says what the event completes, if
    /// anything: a message, or the end of the document. An error ends the
    /// parse: every later event fails in the same way.
    pub fn handle_event(&mut self, event: MarkupEvent) -> (r: Result<Option<Step>, MessengerError>)
        ensures
            xml_told(
                old(self).state(),
                xml_step(old(self).state(), event@),
                final(self).state(),
                r,
            ),
            final(self).tokens() == old(self).tokens(),
    {
        match &self.failure {
            Some(failure) => {
                return Err(failure.again());
            },
            None => {},
        }
        match self.take_event(event) {
            Ok(step) => Ok(step),
            Err(e) => {
                self.fail(&e);
                Err(e)
            },
        }
    }

    /// Records a failure that ends the parse.
    fn fail(&mut self, e: &MessengerError)
        requires
            old(self).state().failed is None,
        ensures
            final(self).state() == xml_failed(old(self).state(), e@.kind),
            final(self).tokens() == old(self).tokens(),
    {
        self.failure = Some(e.again());
    }

    /// What one event does to a parser that has not failed.
    fn take_event(&mut self, event: MarkupEvent) -> (r: Result<Option<Step>, MessengerError>)
        requires
            old(self).state().failed is None,
        ensures
            xml_agrees(
                old(self).state(),
                xml_event_effect(old(self).state(), event@),
                final(self).state(),
                r,
            ),
            final(self).tokens() == old(self).tokens(),
    {
        if self.finished {
            return match event {
                MarkupEvent::EndDocument => Ok(Some(Step::End)),
                _ => Err(
                    MessengerError::of_kind(
                        ErrorKind::MalformedStructure,
                        "The document goes on after its end",
                    ),
                ),
            };
        }
        match event {
            MarkupEvent::Open { name, attributes } => {
                match self.parse_node(name.as_str(), &attributes) {
                    Ok(step) => {
                        self.context.enter(name, attributes);
                        Ok(step)
                    },
                    Err(e) => Err(e),
                }
            },
            MarkupEvent::Characters(text) => {
                self.parse_text(text.as_str());
                Ok(None)
            },
            MarkupEvent::Close { name } => self.close(name.as_str()),
            MarkupEvent::EndDocument => self.finish(),
            MarkupEvent::Other => Ok(None),
        }
    }

    /// Advances to the next message of the document; `None` where the
    /// document is over. An error ends the parse: every later advance
    /// fails in the same way and takes nothing more of the document.
    pub fn next(&mut self) -> (r: Result<Option<Message>, MessengerError>)
        ensures
            final(self).state() == xml_advance(old(self).state(), old(self).tokens()).state,
            final(self).tokens() == xml_advance(old(self).state(), old(self).tokens()).rest,
            match xml_advance(old(self).state(), old(self).tokens()).outcome {
                Ok(Some(message)) => r matches Ok(Some(given)) && given@ == message,
                Ok(None) => r matches Ok(None),
                Err(kind) => r is Err && r->Err_0@.kind == kind,
            },
    {
        match &self.failure {
            Some(failure) => {
                return Err(failure.again());
            },
            None => {},
        }
        loop
            invariant
                self.state().failed is None,
                xml_advance(self.state(), self.tokens()) == xml_advance(
                    old(self).state(),
                    old(self).tokens(),
                ),
            decreases self.tokens().len(),
        {
            match pull_event(&mut self.reader) {
                Err(fault) => {
                    let e = fault_error(&fault);
                    self.fail(&e);
                    return Err(e);
                },
                Ok(event) => {
                    match self.handle_event(event) {
                        Err(e) => {
                            return Err(e);
                        },
                        Ok(Some(Step::Message(message))) => {
                            return Ok(Some(message));
                        },
                        Ok(Some(_)) => {
                            return Ok(None);
                        },
                        Ok(None) => {},
                    }
                },
            }
        }
    }
}

impl MessengerArchive for XmlParser {
    open spec fn known(&self) -> ArchiveDetailsView {
        self.state().details
    }

    open spec fn upcoming(&self) -> Result<StepView, ErrorKind> {
        match xml_advance(self.state(), self.tokens()).outcome {
            Ok(Some(message)) => Ok(StepView::Message(message)),
            Ok(None) => Ok(StepView::End),
            Err(kind) => Err(kind),
        }
    }

    fn details(&self) -> (details: Option<&ArchiveDetails>) {
        Some(self.archive())
    }

    fn advance(&mut self) -> (r: Result<Step, MessengerError>)
        ensures
            final(self).state() == xml_advance(old(self).state(), old(self).tokens()).state,
            final(self).tokens() == xml_advance(old(self).state(), old(self).tokens()).rest,
    {
        match self.next() {
            Ok(Some(message)) => Ok(Step::Message(message)),
            Ok(None) => Ok(Step::End),
            Err(e) => Err(e),
        }
    }
}

/// The archive in a document of the XML dialect, for a conversation with
/// the given recipient.
pub fn parse_for(recipient_id: String, document: Vec<u8>) -> (r: Result<Archive, MessengerError>)
    ensures
        xml_archive_agrees(xml_archive(recipient_id@, document_tokens(document@)), r),
{
    let mut parser = XmlParser::with_recipient(recipient_id, document);
    let mut messages: Vec<Message> = Vec::new();
    assert(message_views(messages@) =~= Seq::empty());
    loop
        invariant
            parser.state().failed is None,
            xml_collect(parser.state(), parser.tokens(), message_views(messages@)) == xml_archive(
                recipient_id@,
                document_tokens(document@),
            ),
        decreases parser.tokens().len(),
    {
        match pull_event(&mut parser.reader) {
            Err(fault) => {
                return Err(fault_error(&fault));
            },
            Ok(event) => {
                match parser.handle_event(event) {
                    Err(e) => {
                        return Err(e);
                    },
                    Ok(Some(Step::End)) => {
                        return Ok(Archive { details: parser.list, messages });
                    },
                    Ok(Some(Step::Message(message))) => {
                        let ghost before = message_views(messages@);
                        messages.push(message);
                        assert(message_views(messages@) =~= before.push(message@));
                    },
                    Ok(_) => {},
                }
            },
        }
    }
}

/// The archive in the document of the XML dialect that was read from
/// `path`. The recipient is named by the stem of the file's name.
pub fn parse(path: &str, document: Vec<u8>) -> (r: Result<Archive, MessengerError>)
    ensures
        exists|recipient_id: Seq<char>|
            is_part_of(recipient_id, path@) && #[trigger] xml_archive_agrees(
                xml_archive(recipient_id, document_tokens(document@)),
                r,
            ),
        plain_path(path@) ==> xml_archive_agrees(
            xml_archive(stem_of(last_segment(path@)), document_tokens(document@)),
            r,
        ),
{
    let recipient_id = recipient_of(path);
    let ghost name = recipient_id@;
    let r = parse_for(recipient_id, document);
    assert(xml_archive_agrees(xml_archive(name, document_tokens(document@)), r));
    r
}

} // verus!
