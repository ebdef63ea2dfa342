use messenger_archive::messenger::common::Attribute;
use messenger_archive::messenger::common::MarkupEvent;
use messenger_archive::messenger::error::ErrorKind;
use messenger_archive::messenger::xml_parser::parse_for;
use messenger_archive::messenger::xml_parser::XmlParser;
use messenger_archive::messenger::Archive;
use messenger_archive::messenger::ArchiveDetails;
use messenger_archive::messenger::Data;
use messenger_archive::messenger::FileType;
use messenger_archive::messenger::Message;
use messenger_archive::messenger::Step;
use messenger_archive::messenger::Text;
use messenger_archive::parse;

const SAMPLE: &str = r#"<?xml version="1.0"?>
<?xml-stylesheet type='text/xsl' href='MessageLog.xsl'?>
<Log FirstSessionID="1" LastSessionID="1">
<Message Date="06/04/2009" Time="21:40:41" DateTime="2009-04-06T19:40:41.851Z" SessionID="1"><From><User FriendlyName="Alice"/></From><To><User FriendlyName="Bob"/></To><Text Style="font-family:Courier New; color:#004000; ">Hello!</Text></Message>
<Message Date="06/04/2009" Time="22:22:05" DateTime="2009-04-06T20:22:05.918Z" SessionID="1"><From><User FriendlyName="Bob"/></From><To><User FriendlyName="Alice"/></To><Text Style="font-family:Courier New; color:#004000; ">Hi </Text><Text Style="font-family:Arial; color:#004020; ">Alice!</Text></Message>
</Log>
"#;

const SCRAPPY: &str = r#"<?xml version="1.0"?>
<Log>
<!-- nothing was ever said -->
<Scrap kind="paper"><Text>not a message</Text></Scrap>
</Log>
"#;

fn bytes(document: &str) -> Vec<u8> {
    document.as_bytes().to_vec()
}

fn attribute(name: &str, value: &str) -> Attribute {
    Attribute { name: name.to_string(), value: value.to_string() }
}

fn open(name: &str, attributes: Vec<Attribute>) -> MarkupEvent {
    MarkupEvent::Open { name: name.to_string(), attributes }
}

fn close(name: &str) -> MarkupEvent {
    MarkupEvent::Close { name: name.to_string() }
}

fn characters(text: &str) -> MarkupEvent {
    MarkupEvent::Characters(text.to_string())
}

fn text(style: &str, content: &str) -> Data {
    Data::Text(Text { style: style.to_string(), content: content.to_string() })
}

fn sample_messages() -> Vec<Message> {
    vec![
        Message {
            datetime: "2009-04-06T19:40:41.851Z".to_string(),
            timezone_offset: Some(120),
            session_id: "1".to_string(),
            sender_friendly_name: "Alice".to_string(),
            receiver_friendly_name: "Bob".to_string(),
            data: vec![Data::Text(Text {
                style: "font-family:Courier New; color:#004000; ".to_string(),
                content: "Hello!".to_string(),
            })],
        },
        Message {
            datetime: "2009-04-06T20:22:05.918Z".to_string(),
            timezone_offset: Some(120),
            session_id: "1".to_string(),
            sender_friendly_name: "Bob".to_string(),
            receiver_friendly_name: "Alice".to_string(),
            data: vec![
                Data::Text(Text {
                    style: "font-family:Courier New; color:#004000; ".to_string(),
                    content: "Hi ".to_string(),
                }),
                Data::Text(Text {
                    style: "font-family:Arial; color:#004020; ".to_string(),
                    content: "Alice!".to_string(),
                }),
            ],
        },
    ]
}

#[test]
fn xml_parser_parse_sample_file() {
    let path = "test/alice1234.xml";
    let mut parser = XmlParser::new(path, bytes(SAMPLE));
    let expected = ArchiveDetails {
        file_type: FileType::XML,
        first_session_id: "1".to_string(),
        last_session_id: "1".to_string(),
        recipient_id: "alice1234".to_string(),
    };
    let messages = sample_messages();
    assert_eq!(parser.next().unwrap().as_ref(), Some(&messages[0]));
    assert_eq!(parser.next().unwrap().as_ref(), Some(&messages[1]));
    assert_eq!(parser.next().unwrap(), None);
    assert_eq!(parser.archive(), &expected);
}

#[test]
fn parse_scrappy_file() {
    let path = "test/scrappy.xml";
    let mut parser = XmlParser::new(path, bytes(SCRAPPY));
    let expected = ArchiveDetails {
        file_type: FileType::XML,
        first_session_id: "0".to_string(),
        last_session_id: "0".to_string(),
        recipient_id: "scrappy".to_string(),
    };
    assert_eq!(parser.next().unwrap(), None);
    assert_eq!(parser.archive(), &expected);
}

#[test]
fn whole_sample_by_its_path() {
    let archive = parse("test/alice1234.xml".to_string(), bytes(SAMPLE), &Vec::new()).unwrap();
    let expected = Archive {
        details: ArchiveDetails {
            file_type: FileType::XML,
            first_session_id: "1".to_string(),
            last_session_id: "1".to_string(),
            recipient_id: "alice1234".to_string(),
        },
        messages: sample_messages(),
    };
    assert_eq!(archive, expected);
}

#[test]
fn same_document_twice_gives_equal_archives() {
    let first = parse_for("alice1234".to_string(), bytes(SAMPLE)).unwrap();
    let second = parse_for("alice1234".to_string(), bytes(SAMPLE)).unwrap();
    assert_eq!(first, second);
    assert_eq!(first.messages.len(), 2);
}

#[test]
fn one_message_with_offset_of_two_hours() {
    let document = r#"<Log FirstSessionID="1" LastSessionID="1"><Message Time="21:40:41" DateTime="2009-04-06T19:40:41.851Z" SessionID="1"><From><User FriendlyName="Alice"/></From><To><User FriendlyName="Bob"/></To><Text Style="font-family:Courier New; color:#004000;">Hello!</Text></Message></Log>"#;
    let archive = parse_for("bob".to_string(), bytes(document)).unwrap();
    assert_eq!(archive.details.first_session_id, "1");
    assert_eq!(archive.details.last_session_id, "1");
    assert_eq!(archive.messages.len(), 1);
    let message = &archive.messages[0];
    assert_eq!(message.timezone_offset, Some(120));
    assert_eq!(message.session_id, "1");
    assert_eq!(message.sender_friendly_name, "Alice");
    assert_eq!(message.receiver_friendly_name, "Bob");
    assert_eq!(message.data, vec![text("font-family:Courier New; color:#004000;", "Hello!")]);
}

#[test]
fn local_time_behind_gives_negative_offset() {
    let document = r#"<Log><Message Time="14:10:00" DateTime="2009-04-06T19:40:41Z" SessionID="3"></Message></Log>"#;
    let archive = parse_for("bob".to_string(), bytes(document)).unwrap();
    assert_eq!(archive.messages[0].timezone_offset, Some(-330));
}

#[test]
fn offset_ignores_the_day() {
    let document = r#"<Log><Message Time="01:00:00" DateTime="2009-04-06T23:00:00Z" SessionID="3"></Message></Log>"#;
    let archive = parse_for("bob".to_string(), bytes(document)).unwrap();
    assert_eq!(archive.messages[0].timezone_offset, Some(-1320));
}

#[test]
fn unreadable_local_time_leaves_offset_unset() {
    let document = r#"<Log><Message Time="soon" DateTime="2009-04-06T19:40:41.851Z" SessionID="1"><Text>Hi</Text></Message><Message DateTime="2009-04-06T19:40:41.851Z"/><Message Time="21:40:41" DateTime="yesterday"/></Log>"#;
    let archive = parse_for("bob".to_string(), bytes(document)).unwrap();
    assert_eq!(archive.messages.len(), 3);
    assert_eq!(archive.messages[0].timezone_offset, None);
    assert_eq!(archive.messages[0].data, vec![text("", "Hi")]);
    assert_eq!(archive.messages[1].timezone_offset, None);
    assert_eq!(archive.messages[1].session_id, "0");
    assert_eq!(archive.messages[2].timezone_offset, None);
    assert_eq!(archive.messages[2].datetime, "yesterday");
}

#[test]
fn document_without_messages_has_default_sessions() {
    let archive = parse("logs/carol.xml".to_string(), bytes("<Journal><Page/></Journal>"), &Vec::new())
        .unwrap();
    assert_eq!(archive.messages, Vec::new());
    assert_eq!(archive.details.first_session_id, "0");
    assert_eq!(archive.details.last_session_id, "0");
    assert_eq!(archive.details.recipient_id, "carol");
    assert_eq!(archive.details.file_type, FileType::XML);
}

#[test]
fn log_names_its_sessions_without_messages() {
    let archive = parse_for("carol".to_string(), bytes(r#"<Log FirstSessionID="4" LastSessionID="9"/>"#))
        .unwrap();
    assert_eq!(archive.messages, Vec::new());
    assert_eq!(archive.details.first_session_id, "4");
    assert_eq!(archive.details.last_session_id, "9");
}

#[test]
fn message_keeps_the_session_it_opened_with() {
    let document = r#"<Log FirstSessionID="1" LastSessionID="2"><Message SessionID="1"/><Message SessionID="2"><Text>x</Text></Message><Message/></Log>"#;
    let archive = parse_for("bob".to_string(), bytes(document)).unwrap();
    let sessions: Vec<&str> = archive.messages.iter().map(|m| m.session_id.as_str()).collect();
    assert_eq!(sessions, vec!["1", "2", "0"]);
}

#[test]
fn chunks_of_one_run_concatenate_in_order() {
    let mut parser = XmlParser::with_recipient("bob".to_string(), Vec::new());
    assert_eq!(parser.handle_event(open("Log", vec![])).unwrap(), None);
    assert_eq!(parser.handle_event(open("Message", vec![attribute("SessionID", "7")])).unwrap(), None);
    assert_eq!(parser.handle_event(open("Text", vec![attribute("Style", "color:red")])).unwrap(), None);
    assert_eq!(parser.handle_event(characters("Hel")).unwrap(), None);
    assert_eq!(parser.handle_event(characters("lo, ")).unwrap(), None);
    assert_eq!(parser.handle_event(MarkupEvent::Other).unwrap(), None);
    assert_eq!(parser.handle_event(characters("world")).unwrap(), None);
    assert_eq!(parser.handle_event(close("Text")).unwrap(), None);
    let step = parser.handle_event(close("Message")).unwrap();
    match step {
        Some(Step::Message(message)) => {
            assert_eq!(message.data, vec![text("color:red", "Hello, world")]);
            assert_eq!(message.session_id, "7");
        }
        other => panic!("no message: {:?}", other),
    }
    assert_eq!(parser.handle_event(close("Log")).unwrap(), None);
    assert_eq!(parser.handle_event(MarkupEvent::EndDocument).unwrap(), Some(Step::End));
    assert_eq!(parser.handle_event(MarkupEvent::EndDocument).unwrap(), Some(Step::End));
}

#[test]
fn text_outside_a_run_is_dropped() {
    let document = r#"<Log><Message><From>loose<User FriendlyName="A"/></From><Text>kept</Text>loose</Message></Log>"#;
    let archive = parse_for("bob".to_string(), bytes(document)).unwrap();
    assert_eq!(archive.messages[0].data, vec![text("", "kept")]);
    assert_eq!(archive.messages[0].sender_friendly_name, "A");
    assert_eq!(archive.messages[0].receiver_friendly_name, "");
}

#[test]
fn closing_with_nothing_open_is_malformed() {
    let mut parser = XmlParser::with_recipient("bob".to_string(), Vec::new());
    let error = parser.handle_event(close("Log")).unwrap_err();
    assert_eq!(error.kind(), ErrorKind::MalformedStructure);
}

#[test]
fn failed_event_ends_the_parse() {
    let mut parser = XmlParser::with_recipient("bob".to_string(), Vec::new());
    let error = parser.handle_event(close("Log")).unwrap_err();
    assert_eq!(error.kind(), ErrorKind::MalformedStructure);
    let words = error.to_string();
    for event in vec![
        open("Log", vec![]),
        open("Message", vec![]),
        close("Message"),
        close("Log"),
        MarkupEvent::EndDocument,
    ] {
        let later = parser.handle_event(event).unwrap_err();
        assert_eq!(later.kind(), ErrorKind::MalformedStructure);
        assert_eq!(later.to_string(), words);
    }
}

#[test]
fn message_inside_message_tells_no_message() {
    let document = r#"<Log><Message SessionID="1"><Text>outer</Text><Message SessionID="2"></Message></Message><Message SessionID="3"/></Log>"#;
    let mut parser = XmlParser::new("bob.xml", bytes(document));
    assert_eq!(parser.next().unwrap_err().kind(), ErrorKind::MalformedStructure);
    assert_eq!(parser.next().unwrap_err().kind(), ErrorKind::MalformedStructure);
    assert_eq!(parser.next().unwrap_err().kind(), ErrorKind::MalformedStructure);
    let error = parser.handle_event(close("Message")).unwrap_err();
    assert_eq!(error.kind(), ErrorKind::MalformedStructure);
}

#[test]
fn fault_after_a_message_ends_the_parse() {
    let document = r#"<Log><Message SessionID="1"/><Message SessionID="2"></Log>"#;
    let mut parser = XmlParser::new("bob.xml", bytes(document));
    assert_eq!(parser.next().unwrap().unwrap().session_id, "1");
    assert_eq!(parser.next().unwrap_err().kind(), ErrorKind::MalformedStructure);
    assert_eq!(parser.next().unwrap_err().kind(), ErrorKind::MalformedStructure);
    let error = parser.handle_event(open("Message", vec![])).unwrap_err();
    assert_eq!(error.kind(), ErrorKind::MalformedStructure);
}

#[test]
fn offset_counts_whole_minutes_toward_zero() {
    let document = r#"<Log><Message Time="10:00:00" DateTime="2009-04-06T10:01:30Z"/><Message Time="10:01:30" DateTime="2009-04-06T10:00:00Z"/><Message Time="00:00:00.5" DateTime="2009-04-06T00:01:00Z"/><Message Time="23:59:60" DateTime="2009-04-06T23:58:59Z"/><Message Time="23:59:59" DateTime="2009-04-06T23:59:60Z"/><Message Time="12:00" DateTime="2009-04-06T11:59:59Z"/></Log>"#;
    let archive = parse_for("bob".to_string(), bytes(document)).unwrap();
    let offsets: Vec<Option<i64>> = archive.messages.iter().map(|m| m.timezone_offset).collect();
    assert_eq!(offsets, vec![Some(-1), Some(1), Some(0), Some(1), Some(0), Some(0)]);
}

#[test]
fn offset_counts_a_leap_second_between_the_two_times() {
    let document = r#"<Log><Message Time="10:00:60" DateTime="2009-04-06T10:01:59Z"/><Message Time="10:01:59" DateTime="2009-04-06T10:00:60Z"/><Message Time="10:00:60" DateTime="2009-04-06T10:00:60Z"/></Log>"#;
    let archive = parse_for("bob".to_string(), bytes(document)).unwrap();
    let offsets: Vec<Option<i64>> = archive.messages.iter().map(|m| m.timezone_offset).collect();
    assert_eq!(offsets, vec![Some(-1), Some(1), Some(0)]);
}

#[test]
fn closing_another_element_is_malformed() {
    let mut parser = XmlParser::with_recipient("bob".to_string(), Vec::new());
    parser.handle_event(open("Log", vec![])).unwrap();
    let error = parser.handle_event(close("Message")).unwrap_err();
    assert_eq!(error.kind(), ErrorKind::MalformedStructure);
}

#[test]
fn message_inside_message_is_malformed() {
    let document = r#"<Log><Message><Message/></Message></Log>"#;
    let error = parse_for("bob".to_string(), bytes(document)).unwrap_err();
    assert_eq!(error.kind(), ErrorKind::MalformedStructure);
}

#[test]
fn end_with_elements_open_is_malformed() {
    let mut parser = XmlParser::with_recipient("bob".to_string(), Vec::new());
    parser.handle_event(open("Log", vec![])).unwrap();
    let error = parser.handle_event(MarkupEvent::EndDocument).unwrap_err();
    assert_eq!(error.kind(), ErrorKind::MalformedStructure);
}

#[test]
fn events_after_the_end_are_malformed() {
    let mut parser = XmlParser::with_recipient("bob".to_string(), Vec::new());
    assert_eq!(parser.handle_event(MarkupEvent::EndDocument).unwrap(), Some(Step::End));
    assert_eq!(parser.handle_event(MarkupEvent::EndDocument).unwrap(), Some(Step::End));
    let error = parser.handle_event(open("Log", vec![])).unwrap_err();
    assert_eq!(error.kind(), ErrorKind::MalformedStructure);
    let error = parser.handle_event(MarkupEvent::EndDocument).unwrap_err();
    assert_eq!(error.kind(), ErrorKind::MalformedStructure);
}

#[test]
fn ill_formed_markup_is_malformed() {
    let error = parse_for("bob".to_string(), bytes("<Log><Message></Log>")).unwrap_err();
    assert_eq!(error.kind(), ErrorKind::MalformedStructure);
    assert!(!error.to_string().is_empty());
    let mut parser = XmlParser::new("bob.xml", bytes("no markup at all"));
    assert_eq!(parser.next().unwrap_err().kind(), ErrorKind::MalformedStructure);
    assert_eq!(parser.next().unwrap_err().kind(), ErrorKind::MalformedStructure);
}

#[test]
fn advancing_past_the_end_tells_the_end_again() {
    let mut parser = XmlParser::new("bob.xml", bytes("<Log/>"));
    assert_eq!(parser.next().unwrap(), None);
    assert_eq!(parser.next().unwrap(), None);
    assert_eq!(parser.archive().recipient_id, "bob");
}
