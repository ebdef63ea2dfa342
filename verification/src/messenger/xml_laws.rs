//! What holds of every document of the XML dialect.

use crate::messenger::common::document_tokens;
use crate::messenger::common::AttributeView;
use crate::messenger::common::MarkupEventView;
use crate::messenger::common::Token;
use crate::messenger::error::ErrorKind;
use crate::messenger::error::MessengerError;
use crate::messenger::xml_parser::run_place;
use crate::messenger::xml_parser::value_or;
use crate::messenger::xml_parser::xml_advance;
use crate::messenger::xml_parser::xml_failed;
use crate::messenger::xml_parser::XmlAdvance;
use crate::messenger::xml_parser::with_chunk;
use crate::messenger::xml_parser::xml_archive;
use crate::messenger::xml_parser::xml_archive_agrees;
use crate::messenger::xml_parser::xml_collect;
use crate::messenger::xml_parser::xml_initial;
use crate::messenger::xml_parser::xml_step;
use crate::messenger::xml_parser::xml_text_effect;
use crate::messenger::xml_parser::XmlState;
use crate::messenger::Archive;
use crate::messenger::ArchiveView;
use crate::messenger::DataView;
use crate::messenger::MessageView;
use crate::messenger::StepView;
use crate::messenger::TextView;
use vstd::prelude::*;

verus! {

/// The event opens a message.
pub open spec fn opens_message(event: MarkupEventView) -> bool {
    event matches MarkupEventView::Open { name, .. } && name == "Message"@
}

/// The event opens the root of a log.
pub open spec fn opens_log(event: MarkupEventView) -> bool {
    event matches MarkupEventView::Open { name, .. } && name == "Log"@
}

/// The session that is active where an event opens a message: the one
/// that the element names, or the default.
pub open spec fn session_at(event: MarkupEventView) -> Seq<char> {
    match event {
        MarkupEventView::Open { attributes, .. } => value_or(attributes, "SessionID"@, "0"@),
        _ => Seq::empty(),
    }
}

/// The sessions that are active at the message openings of a run, one for
/// each opening, in the order of the document.
pub open spec fn xml_openings(s: XmlState, tokens: Seq<Token>) -> Seq<Seq<char>>
    decreases tokens.len(),
{
    if tokens.len() == 0 {
        Seq::empty()
    } else {
        match tokens.first() {
            Token::Fault => Seq::empty(),
            Token::Event(event) => match xml_step(s, event) {
                Err(_) => Seq::empty(),
                Ok((_, Some(StepView::End))) => Seq::empty(),
                Ok((t, _)) => if opens_message(event) {
                    seq![session_at(event)] + xml_openings(t, tokens.drop_first())
                } else {
                    xml_openings(t, tokens.drop_first())
                },
            },
        }
    }
}

/// The sessions of a sequence of messages, in the same order.
pub open spec fn session_ids(messages: Seq<MessageView>) -> Seq<Seq<char>> {
    messages.map_values(|message: MessageView| message.session_id)
}

/// The session of the message that is open, if one is.
pub open spec fn open_session(s: XmlState) -> Seq<Seq<char>> {
    match s.message {
        Some(message) => seq![message.session_id],
        None => Seq::empty(),
    }
}

proof fn lemma_names_differ()
    ensures
        "Log"@ != "Message"@,
{
    reveal_strlit("Log");
    reveal_strlit("Message");
    assert("Log"@.len() == 3);
    assert("Message"@.len() == 7);
}

proof fn lemma_quiet_step(s: XmlState, event: MarkupEventView)
    requires
        xml_step(s, event) is Ok,
        !(xml_step(s, event)->Ok_0.1 matches Some(StepView::Message(_))),
        !(s.finished && s.message is Some),
    ensures
        ({
            let t = xml_step(s, event)->Ok_0.0;
            &&& !(t.finished && t.message is Some)
            &&& t.details.recipient_id == s.details.recipient_id
            &&& if opens_message(event) {
                open_session(s) == Seq::<Seq<char>>::empty() && open_session(t) == seq![
                    session_at(event),
                ]
            } else {
                open_session(t) == open_session(s)
            }
        }),
{
    let t = xml_step(s, event)->Ok_0.0;
    match event {
        MarkupEventView::Open { name, attributes } => {
            lemma_names_differ();
            if opens_message(event) {
                assert(open_session(t) =~= seq![session_at(event)]);
            } else {
                assert(open_session(t) =~= open_session(s));
            }
        },
        MarkupEventView::Characters(text) => {},
        MarkupEventView::Close { name } => {},
        MarkupEventView::EndDocument => {},
        MarkupEventView::Other => {},
    }
}

proof fn lemma_xml_run(
    s: XmlState,
    tokens: Seq<Token>,
    messages: Seq<MessageView>,
    archive: ArchiveView,
)
    requires
        xml_collect(s, tokens, messages) == Ok::<ArchiveView, ErrorKind>(archive),
        !(s.finished && s.message is Some),
    ensures
        session_ids(archive.messages) == session_ids(messages) + open_session(s) + xml_openings(
            s,
            tokens,
        ),
        archive.details.recipient_id == s.details.recipient_id,
    decreases tokens.len(),
{
    let event = tokens.first()->Event_0;
    let (t, step) = xml_step(s, event)->Ok_0;
    let rest = tokens.drop_first();
    match step {
        Some(StepView::End) => {
            assert(xml_openings(s, tokens) =~= Seq::empty());
            assert(session_ids(archive.messages) =~= session_ids(messages) + open_session(s)
                + xml_openings(s, tokens));
        },
        Some(StepView::Message(message)) => {
            lemma_xml_run(t, rest, messages.push(message), archive);
            assert(session_ids(messages.push(message)) =~= session_ids(messages) + open_session(s));
            assert(session_ids(archive.messages) =~= session_ids(messages) + open_session(s)
                + xml_openings(s, tokens));
        },
        _ => {
            lemma_quiet_step(s, event);
            lemma_xml_run(t, rest, messages, archive);
            assert(open_session(t) + xml_openings(t, rest) =~= open_session(s) + xml_openings(
                s,
                tokens,
            ));
            assert(session_ids(archive.messages) =~= session_ids(messages) + open_session(s)
                + xml_openings(s, tokens));
        },
    }
}

/// Every message of an archive has the session that was active where its
/// element opened, and there is one message for each opening.
pub proof fn law_messages_keep_their_session(
    recipient_id: Seq<char>,
    tokens: Seq<Token>,
    archive: ArchiveView,
)
    requires
        xml_archive(recipient_id, tokens) == Ok::<ArchiveView, ErrorKind>(archive),
    ensures
        archive.messages.len() == xml_openings(xml_initial(recipient_id), tokens).len(),
        forall|i: int|
            0 <= i < archive.messages.len() ==> (#[trigger] archive.messages[i]).session_id
                == xml_openings(xml_initial(recipient_id), tokens)[i],
{
    let openings = xml_openings(xml_initial(recipient_id), tokens);
    lemma_xml_run(xml_initial(recipient_id), tokens, Seq::empty(), archive);
    assert(session_ids(archive.messages) =~= openings);
    assert forall|i: int| 0 <= i < archive.messages.len() implies (
    #[trigger] archive.messages[i]).session_id == openings[i] by {
        assert(session_ids(archive.messages)[i] == archive.messages[i].session_id);
    }
}

proof fn lemma_no_opening(s: XmlState, tokens: Seq<Token>)
    requires
        forall|i: int|
            0 <= i < tokens.len() ==> !(#[trigger] tokens[i] matches Token::Event(event)
                && opens_message(event)),
    ensures
        xml_openings(s, tokens) == Seq::<Seq<char>>::empty(),
    decreases tokens.len(),
{
    if tokens.len() > 0 {
        assert(tokens[0] == tokens.first());
        let rest = tokens.drop_first();
        assert forall|i: int| 0 <= i < rest.len() implies !(#[trigger] rest[i] matches Token::Event(
            event,
        ) && opens_message(event)) by {
            assert(rest[i] == tokens[i + 1]);
        }
        match tokens.first() {
            Token::Fault => {},
            Token::Event(event) => match xml_step(s, event) {
                Err(_) => {},
                Ok((t, _)) => {
                    lemma_no_opening(t, rest);
                },
            },
        }
    }
}

/// A document in which no message opens holds no message, and its
/// archive is that of the recipient it was read for.
pub proof fn law_no_opening_no_message(
    recipient_id: Seq<char>,
    tokens: Seq<Token>,
    archive: ArchiveView,
)
    requires
        xml_archive(recipient_id, tokens) == Ok::<ArchiveView, ErrorKind>(archive),
        forall|i: int|
            0 <= i < tokens.len() ==> !(#[trigger] tokens[i] matches Token::Event(event)
                && opens_message(event)),
    ensures
        archive.messages == Seq::<MessageView>::empty(),
        archive.details.recipient_id == recipient_id,
{
    lemma_no_opening(xml_initial(recipient_id), tokens);
    lemma_xml_run(xml_initial(recipient_id), tokens, Seq::empty(), archive);
    assert(session_ids(archive.messages).len() == 0);
    assert(archive.messages =~= Seq::empty());
}

proof fn lemma_no_log(s: XmlState, tokens: Seq<Token>, messages: Seq<MessageView>, archive: ArchiveView)
    requires
        xml_collect(s, tokens, messages) == Ok::<ArchiveView, ErrorKind>(archive),
        forall|i: int|
            0 <= i < tokens.len() ==> !(#[trigger] tokens[i] matches Token::Event(event)
                && opens_log(event)),
    ensures
        archive.details == s.details,
    decreases tokens.len(),
{
    assert(tokens[0] == tokens.first());
    let event = tokens.first()->Event_0;
    let (t, step) = xml_step(s, event)->Ok_0;
    let rest = tokens.drop_first();
    assert forall|i: int| 0 <= i < rest.len() implies !(#[trigger] rest[i] matches Token::Event(
        event,
    ) && opens_log(event)) by {
        assert(rest[i] == tokens[i + 1]);
    }
    assert(t.details == s.details);
    match step {
        Some(StepView::End) => {},
        Some(StepView::Message(message)) => {
            lemma_no_log(t, rest, messages.push(message), archive);
        },
        _ => {
            lemma_no_log(t, rest, messages, archive);
        },
    }
}

/// A document without the root of a log names no session: the first and
/// the last session of its archive are the default.
pub proof fn law_sessions_default(recipient_id: Seq<char>, tokens: Seq<Token>, archive: ArchiveView)
    requires
        xml_archive(recipient_id, tokens) == Ok::<ArchiveView, ErrorKind>(archive),
        forall|i: int|
            0 <= i < tokens.len() ==> !(#[trigger] tokens[i] matches Token::Event(event)
                && opens_log(event)),
    ensures
        archive.details.first_session_id == "0"@,
        archive.details.last_session_id == "0"@,
        archive.details.recipient_id == recipient_id,
{
    lemma_no_log(xml_initial(recipient_id), tokens, Seq::empty(), archive);
}

/// Two parses of one document for one recipient end alike: both give the
/// same archive, or both fail in the same way.
pub proof fn law_same_document_same_archive(
    recipient_id: Seq<char>,
    document: Seq<u8>,
    first: Result<Archive, MessengerError>,
    second: Result<Archive, MessengerError>,
)
    requires
        xml_archive_agrees(xml_archive(recipient_id, document_tokens(document)), first),
        xml_archive_agrees(xml_archive(recipient_id, document_tokens(document)), second),
    ensures
        first is Ok <==> second is Ok,
        first is Ok ==> first->Ok_0@ == second->Ok_0@,
        first is Err ==> first->Err_0@.kind == second->Err_0@.kind,
{
}

/// Character data that comes in two chunks gives the run of text that it
/// gives in one: the chunks are joined in their order.
pub proof fn law_chunks_concatenate(s: XmlState, first: Seq<char>, second: Seq<char>)
    requires
        !s.finished,
        s.failed is None,
    ensures
        xml_step(s, MarkupEventView::Characters(first)) == Ok::<
            (XmlState, Option<StepView>),
            ErrorKind,
        >((xml_text_effect(s, first), None)),
        xml_step(xml_text_effect(s, first), MarkupEventView::Characters(second)) == xml_step(
            s,
            MarkupEventView::Characters(first + second),
        ),
{
    if run_place().is_suffix_of(s.context.path) {
        match s.message {
            Some(message) => {
                lemma_chunks_join(message, first, second);
            },
            None => {},
        }
    }
}

proof fn lemma_chunks_join(message: MessageView, first: Seq<char>, second: Seq<char>)
    ensures
        with_chunk(with_chunk(message, first), second) == with_chunk(message, first + second),
{
    if message.data.len() > 0 && message.data.last() is Text {
        let run = message.data.last()->Text_0;
        let once = with_chunk(message, first);
        assert(once.data.last() == DataView::Text(TextView { content: run.content + first, ..run }));
        assert(once.data.drop_last() =~= message.data.drop_last());
        assert((run.content + first) + second =~= run.content + (first + second));
    }
}

/// Every run of the message is a run of text.
pub open spec fn only_text(message: MessageView) -> bool {
    forall|i: int| 0 <= i < message.data.len() ==> #[trigger] message.data[i] is Text
}

proof fn lemma_text_only(
    s: XmlState,
    tokens: Seq<Token>,
    messages: Seq<MessageView>,
    archive: ArchiveView,
)
    requires
        xml_collect(s, tokens, messages) == Ok::<ArchiveView, ErrorKind>(archive),
        s.message is Some ==> only_text(s.message->Some_0),
        forall|i: int| 0 <= i < messages.len() ==> only_text(#[trigger] messages[i]),
    ensures
        forall|i: int| 0 <= i < archive.messages.len() ==> only_text(#[trigger] archive.messages[i]),
    decreases tokens.len(),
{
    let event = tokens.first()->Event_0;
    let (t, step) = xml_step(s, event)->Ok_0;
    let rest = tokens.drop_first();
    assert(t.message is Some ==> only_text(t.message->Some_0));
    match step {
        Some(StepView::End) => {},
        Some(StepView::Message(message)) => {
            lemma_text_only(t, rest, messages.push(message), archive);
        },
        _ => {
            lemma_text_only(t, rest, messages, archive);
        },
    }
}

/// The messages of an archive of this dialect hold runs of text and
/// nothing else.
pub proof fn law_messages_hold_text(recipient_id: Seq<char>, tokens: Seq<Token>, archive: ArchiveView)
    requires
        xml_archive(recipient_id, tokens) == Ok::<ArchiveView, ErrorKind>(archive),
    ensures
        forall|i: int| 0 <= i < archive.messages.len() ==> only_text(#[trigger] archive.messages[i]),
{
    lemma_text_only(xml_initial(recipient_id), tokens, Seq::empty(), archive);
}

/// The archive of a run of tokens is what advancing through it tells,
/// message by message: the two ways to read a document agree.
pub proof fn law_collecting_is_advancing(
    s: XmlState,
    tokens: Seq<Token>,
    messages: Seq<MessageView>,
)
    ensures
        xml_collect(s, tokens, messages) == match xml_advance(s, tokens).outcome {
            Err(kind) => Err(kind),
            Ok(None) => Ok(
                ArchiveView { details: xml_advance(s, tokens).state.details, messages },
            ),
            Ok(Some(message)) => xml_collect(
                xml_advance(s, tokens).state,
                xml_advance(s, tokens).rest,
                messages.push(message),
            ),
        },
    decreases tokens.len(),
{
    if tokens.len() > 0 {
        match tokens.first() {
            Token::Fault => {},
            Token::Event(event) => match xml_step(s, event) {
                Err(_) => {},
                Ok((t, None)) => {
                    law_collecting_is_advancing(t, tokens.drop_first(), messages);
                },
                Ok((t, Some(_))) => {},
            },
        }
    }
}

/// Once an advance has told that the document is over, every later one
/// tells the same and changes nothing.
pub proof fn law_end_is_told_again(s: XmlState, tokens: Seq<Token>)
    requires
        xml_advance(s, tokens).outcome == Ok::<Option<MessageView>, ErrorKind>(None),
    ensures
        xml_advance(xml_advance(s, tokens).state, xml_advance(s, tokens).rest) == xml_advance(
            s,
            tokens,
        ),
    decreases tokens.len(),
{
    match tokens.first() {
        Token::Fault => {},
        Token::Event(event) => match xml_step(s, event) {
            Err(_) => {},
            Ok((t, None)) => {
                law_end_is_told_again(t, tokens.drop_first());
            },
            Ok((t, Some(_))) => {},
        },
    }
}

/// An event that fails ends the parse: after it every event fails in the
/// same way, whatever it is, and so no message is told any more.
pub proof fn law_failed_event_ends_the_parse(
    s: XmlState,
    event: MarkupEventView,
    later: MarkupEventView,
)
    requires
        xml_step(s, event) is Err,
    ensures
        xml_step(xml_failed(s, xml_step(s, event)->Err_0), later) == xml_step(s, event),
{
}

/// An advance that fails ends the parse: every later advance fails in the
/// same way, takes no token and changes nothing.
pub proof fn law_failure_is_final(s: XmlState, tokens: Seq<Token>, later: Seq<Token>)
    requires
        xml_advance(s, tokens).outcome is Err,
    ensures
        xml_advance(xml_advance(s, tokens).state, later) == (XmlAdvance {
            state: xml_advance(s, tokens).state,
            rest: later,
            outcome: xml_advance(s, tokens).outcome,
        }),
    decreases tokens.len(),
{
    if s.failed is None && tokens.len() > 0 {
        match tokens.first() {
            Token::Fault => {},
            Token::Event(event) => match xml_step(s, event) {
                Err(_) => {},
                Ok((t, None)) => {
                    law_failure_is_final(t, tokens.drop_first(), later);
                },
                Ok((t, Some(_))) => {},
            },
        }
    }
}

/// A `Message` element that opens where no message is open opens one of
/// the session that it names, or of the default session where it names
/// none; the message has no names and no content yet, and the details of
/// the archive do not change.
pub proof fn law_message_opens_in_its_session(s: XmlState, attributes: Seq<AttributeView>)
    requires
        s.failed is None,
        !s.finished,
        s.message is None,
    ensures
        ({
            let told = xml_step(s, MarkupEventView::Open { name: "Message"@, attributes });
            let t = told->Ok_0.0;
            let message = t.message->Some_0;
            &&& told is Ok
            &&& told->Ok_0.1 is None
            &&& t.details == s.details
            &&& t.message is Some
            &&& message.session_id == value_or(attributes, "SessionID"@, "0"@)
            &&& message.sender_friendly_name == Seq::<char>::empty()
            &&& message.receiver_friendly_name == Seq::<char>::empty()
            &&& message.data == Seq::<DataView>::empty()
        }),
{
    lemma_names_differ();
}

} // verus!
