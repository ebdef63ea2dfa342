use messenger_archive::messenger::common::Attribute;
use messenger_archive::messenger::common::MarkupEvent;
use messenger_archive::messenger::error::ErrorKind;
use messenger_archive::messenger::messenger_plus_parser::parse_for;
use messenger_archive::messenger::messenger_plus_parser::MessengerPlusParser;
use messenger_archive::messenger::ArchiveDetails;
use messenger_archive::messenger::Asset;
use messenger_archive::messenger::Data;
use messenger_archive::messenger::FileType;
use messenger_archive::messenger::Image;
use messenger_archive::messenger::Message;
use messenger_archive::messenger::Step;
use messenger_archive::messenger::Text;
use messenger_archive::parse;

const SAMPLE: &str = r#"<html>
<head><title>Conversation with alice@example.com</title></head>
<body>
<div class="mplsession" id="Session_2009-08-05T19-30-21">
<h2>Session Start: Wednesday, August 05, 2009</h2>
<ul>
<li class="in">Alice</li>
<li>Bob</li>
</ul>
<table>
<tbody>
<tr><th><span>(19:30)</span> Bob:</th><td style="font-family:&quot;Courier New&quot;;color:#004000;">Hello Alice!<br/>How are you?</td></tr>
<tr><th><span>(19:30)</span> Alice:</th><td style="font-family:&quot;Segoe UI&quot;;">I'm fine, thank you!<br/>What about you?<br/>Have you called John about this weekend?</td></tr>
<tr><th><span>(19:31)</span> Bob:</th><td style="font-family:&quot;Courier New&quot;;color:#004000;">Yes!<br/>He should have called you...</td></tr>
<tr><th><span>(19:31)</span> Alice:</th><td style="font-family:&quot;Segoe UI&quot;;">He didn't!</td></tr>
<tr><th><span>(19:35)</span> Bob:</th><td style="font-family:&quot;Courier New&quot;;color:#004000;"><img src="./Images/MsgPlus_Img0663.png" alt=":)"/>Maybe you can call him?</td></tr>
<tr class="msgplus"><th><span>(19:44)</span></th><td>Alice is now offline</td></tr>
</tbody>
</table>
</div>
</body>
</html>
"#;

const PICTURE: [u8; 12] = [0x89, 0x50, 0x4e, 0x47, 0x0d, 0x0a, 0x1a, 0x0a, 0x00, 0xff, 0x10, 0x7f];

fn bytes(document: &str) -> Vec<u8> {
    document.as_bytes().to_vec()
}

fn picture() -> Vec<Asset> {
    vec![Asset { source: "./Images/MsgPlus_Img0663.png".to_string(), content: PICTURE.to_vec() }]
}

fn attribute(name: &str, value: &str) -> Attribute {
    Attribute { name: name.to_string(), value: value.to_string() }
}

fn open(name: &str, attributes: Vec<Attribute>) -> MarkupEvent {
    MarkupEvent::Open { name: name.to_string(), attributes }
}

fn close(name: &str) -> MarkupEvent {
    MarkupEvent::Close { name: name.to_string() }
}

fn characters(text: &str) -> MarkupEvent {
    MarkupEvent::Characters(text.to_string())
}

fn text(style: &str, content: &str) -> Data {
    Data::Text(Text { style: style.to_string(), content: content.to_string() })
}

fn next_message(parser: &mut MessengerPlusParser, assets: &Vec<Asset>) -> Option<Message> {
    loop {
        match parser.next().unwrap() {
            Step::Message(message) => return Some(message),
            Step::End => return None,
            Step::Asset(source) => {
                let asset = assets.iter().find(|asset| asset.source == source).unwrap();
                assert!(parser.supply_asset(asset.content.clone()));
            }
        }
    }
}

fn session(id: &str, rows: &str) -> String {
    format!(
        "<html><body><div class=\"mplsession\" id=\"{}\"><ul><li class=\"in\">Alice</li><li>Bob</li></ul><table><tbody>{}</tbody></table></div></body></html>",
        id, rows
    )
}

fn into_session(parser: &mut MessengerPlusParser, id: &str) {
    parser.handle_event(open("html", vec![])).unwrap();
    parser.handle_event(open("body", vec![])).unwrap();
    parser
        .handle_event(open("div", vec![attribute("class", "mplsession"), attribute("id", id)]))
        .unwrap();
}

fn into_rows(parser: &mut MessengerPlusParser) {
    parser.handle_event(open("table", vec![])).unwrap();
    parser.handle_event(open("tbody", vec![])).unwrap();
}

#[test]
fn messenger_plus_parser_parse_sample_file() {
    let path = "test/alice@example.com.html";
    let mut parser = MessengerPlusParser::new(path, bytes(SAMPLE));
    let assets = picture();
    let buffer = PICTURE.to_vec();

    let expected = ArchiveDetails {
        file_type: FileType::MessengerPlus,
        recipient_id: "alice@example.com".to_string(),
        first_session_id: "Session_2009-08-05T19-30-21".to_string(),
        last_session_id: "Session_2009-08-05T19-30-21".to_string(),
    };
    let messages = vec![
        Message {
            datetime: "2009-08-05T19:30:21".to_string(),
            timezone_offset: None,
            session_id: "Session_2009-08-05T19-30-21".to_string(),
            sender_friendly_name: "Bob".to_string(),
            receiver_friendly_name: "Alice".to_string(),
            data: vec![
                Data::Text(Text {
                    style: "font-family:\"Courier New\";color:#004000;".to_string(),
                    content: "Hello Alice!".to_string(),
                }),
                Data::Text(Text {
                    style: "font-family:\"Courier New\";color:#004000;".to_string(),
                    content: "How are you?".to_string(),
                }),
            ],
        },
        Message {
            datetime: "2009-08-05T19:30".to_string(),
            timezone_offset: None,
            session_id: "Session_2009-08-05T19-30-21".to_string(),
            sender_friendly_name: "Alice".to_string(),
            receiver_friendly_name: "Bob".to_string(),
            data: vec![
                Data::Text(Text {
                    style: "font-family:\"Segoe UI\";".to_string(),
                    content: "I'm fine, thank you!".to_string(),
                }),
                Data::Text(Text {
                    style: "font-family:\"Segoe UI\";".to_string(),
                    content: "What about you?".to_string(),
                }),
                Data::Text(Text {
                    style: "font-family:\"Segoe UI\";".to_string(),
                    content: "Have you called John about this weekend?".to_string(),
                }),
            ],
        },
        Message {
            datetime: "2009-08-05T19:31".to_string(),
            timezone_offset: None,
            session_id: "Session_2009-08-05T19-30-21".to_string(),
            sender_friendly_name: "Bob".to_string(),
            receiver_friendly_name: "Alice".to_string(),
            data: vec![
                Data::Text(Text {
                    style: "font-family:\"Courier New\";color:#004000;".to_string(),
                    content: "Yes!".to_string(),
                }),
                Data::Text(Text {
                    style: "font-family:\"Courier New\";color:#004000;".to_string(),
                    content: "He should have called you...".to_string(),
                }),
            ],
        },
        Message {
            datetime: "2009-08-05T19:31".to_string(),
            timezone_offset: None,
            session_id: "Session_2009-08-05T19-30-21".to_string(),
            sender_friendly_name: "Alice".to_string(),
            receiver_friendly_name: "Bob".to_string(),
            data: vec![Data::Text(Text {
                style: "font-family:\"Segoe UI\";".to_string(),
                content: "He didn't!".to_string(),
            })],
        },
        Message {
            datetime: "2009-08-05T19:35".to_string(),
            timezone_offset: None,
            session_id: "Session_2009-08-05T19-30-21".to_string(),
            sender_friendly_name: "Bob".to_string(),
            receiver_friendly_name: "Alice".to_string(),
            data: vec![
                Data::Image(Image {
                    src: "./Images/MsgPlus_Img0663.png".to_string(),
                    alt: ":)".to_string(),
                    content: buffer,
                }),
                Data::Text(Text {
                    style: "font-family:\"Courier New\";color:#004000;".to_string(),
                    content: "Maybe you can call him?".to_string(),
                }),
            ],
        },
        Message {
            datetime: "2009-08-05T19:44".to_string(),
            timezone_offset: None,
            session_id: "Session_2009-08-05T19-30-21".to_string(),
            sender_friendly_name: "".to_string(),
            receiver_friendly_name: "".to_string(),
            data: vec![Data::System("Alice is now offline".to_string())],
        },
    ];
    assert_eq!(next_message(&mut parser, &assets).as_ref(), Some(&messages[0]));
    assert_eq!(next_message(&mut parser, &assets).as_ref(), Some(&messages[1]));
    assert_eq!(next_message(&mut parser, &assets).as_ref(), Some(&messages[2]));
    assert_eq!(next_message(&mut parser, &assets).as_ref(), Some(&messages[3]));
    assert_eq!(next_message(&mut parser, &assets).as_ref(), Some(&messages[4]));
    assert_eq!(next_message(&mut parser, &assets).as_ref(), Some(&messages[5]));
    assert_eq!(next_message(&mut parser, &assets), None);
    assert_eq!(parser.archive(), &expected);
}

#[test]
fn whole_plugin_sample_by_its_path() {
    let archive = parse("test/alice@example.com.html".to_string(), bytes(SAMPLE), &picture()).unwrap();
    assert_eq!(archive.details.file_type, FileType::MessengerPlus);
    assert_eq!(archive.details.recipient_id, "alice@example.com");
    assert_eq!(archive.details.first_session_id, "Session_2009-08-05T19-30-21");
    assert_eq!(archive.details.last_session_id, "Session_2009-08-05T19-30-21");
    assert_eq!(archive.messages.len(), 6);
    let again = parse("test/alice@example.com.html".to_string(), bytes(SAMPLE), &picture()).unwrap();
    assert_eq!(archive, again);
}

#[test]
fn first_row_has_seconds_and_later_rows_have_none() {
    let document = session(
        "Session_2009-08-05T19-30-21",
        "<tr><th><span>(19:30)</span> Bob:</th><td>one</td></tr><tr><th><span>(19:30)</span> Alice:</th><td>two</td></tr>",
    );
    let archive = parse_for("alice".to_string(), bytes(&document), &Vec::new()).unwrap();
    assert_eq!(archive.messages.len(), 2);
    assert_eq!(archive.messages[0].datetime, "2009-08-05T19:30:21");
    assert_eq!(archive.messages[1].datetime, "2009-08-05T19:30");
    assert_eq!(archive.messages[0].timezone_offset, None);
}

#[test]
fn first_label_with_its_own_seconds_keeps_them() {
    let document = session(
        "Session_2009-08-05T19-30-21",
        "<tr><th><span>(19:30):21</span> Bob:</th><td>one</td></tr><tr><th><span>(19:30)</span> Alice:</th><td>two</td></tr>",
    );
    let archive = parse_for("alice".to_string(), bytes(&document), &Vec::new()).unwrap();
    assert_eq!(archive.messages.len(), 2);
    assert_eq!(archive.messages[0].datetime, "2009-08-05T19:30:21");
    assert_eq!(archive.messages[1].datetime, "2009-08-05T19:30");
    assert_eq!(archive.messages[0].sender_friendly_name, "Bob");
    assert_eq!(archive.messages[0].receiver_friendly_name, "Alice");
    assert_eq!(archive.messages[1].sender_friendly_name, "Alice");
}

#[test]
fn each_session_starts_with_a_full_timestamp() {
    let document = format!(
        "<html><body>{}{}</body></html>",
        "<div class=\"mplsession\" id=\"Session_2009-08-05T19-30-21\"><table><tbody><tr><th><span>(19:30)</span></th></tr><tr><th><span>(19:32)</span></th></tr></tbody></table></div>",
        "<div class=\"mplsession\" id=\"Session_2010-01-02T03-04-05\"><table><tbody><tr><th><span>(03:04)</span></th></tr><tr><th><span>(03:09)</span></th></tr></tbody></table></div>",
    );
    let archive = parse_for("alice".to_string(), bytes(&document), &Vec::new()).unwrap();
    let stamps: Vec<&str> = archive.messages.iter().map(|m| m.datetime.as_str()).collect();
    assert_eq!(stamps, vec!["2009-08-05T19:30:21", "2009-08-05T19:32", "2010-01-02T03:04:05", "2010-01-02T03:09"]);
    let sessions: Vec<&str> = archive.messages.iter().map(|m| m.session_id.as_str()).collect();
    assert_eq!(
        sessions,
        vec![
            "Session_2009-08-05T19-30-21",
            "Session_2009-08-05T19-30-21",
            "Session_2010-01-02T03-04-05",
            "Session_2010-01-02T03-04-05"
        ]
    );
    assert_eq!(archive.details.first_session_id, "Session_2009-08-05T19-30-21");
    assert_eq!(archive.details.last_session_id, "Session_2010-01-02T03-04-05");
}

#[test]
fn system_note_has_one_entry_and_no_names() {
    let document = session(
        "Session_2009-08-05T19-30-21",
        "<tr class=\"msgplus\"><th><span>(19:44)</span></th><td>Alice is now offline</td></tr>",
    );
    let archive = parse_for("alice".to_string(), bytes(&document), &Vec::new()).unwrap();
    assert_eq!(archive.messages.len(), 1);
    assert_eq!(archive.messages[0].data, vec![Data::System("Alice is now offline".to_string())]);
    assert_eq!(archive.messages[0].sender_friendly_name, "");
    assert_eq!(archive.messages[0].receiver_friendly_name, "");
}

#[test]
fn system_note_is_overwritten_and_takes_no_image() {
    let document = session(
        "Session_2009-08-05T19-30-21",
        "<tr class=\"msgplus\"><td>first<img src=\"a.png\"/>second</td></tr>",
    );
    let archive = parse_for("alice".to_string(), bytes(&document), &Vec::new()).unwrap();
    assert_eq!(archive.messages[0].data, vec![Data::System("second".to_string())]);
}

#[test]
fn image_content_is_the_file_beside_the_archive() {
    let document = session(
        "Session_2009-08-05T19-30-21",
        "<tr><td>look<img src=\"./Images/pic.png\" alt=\" :) \"/></td></tr>",
    );
    let assets = vec![
        Asset { source: "./Images/other.png".to_string(), content: vec![9, 9] },
        Asset { source: "./Images/pic.png".to_string(), content: vec![1, 2, 3, 250] },
        Asset { source: "./Images/pic.png".to_string(), content: vec![7] },
    ];
    let archive = parse_for("alice".to_string(), bytes(&document), &assets).unwrap();
    assert_eq!(
        archive.messages[0].data,
        vec![
            text("", "look"),
            Data::Image(Image {
                src: "./Images/pic.png".to_string(),
                alt: ":)".to_string(),
                content: vec![1, 2, 3, 250],
            }),
        ]
    );
}

#[test]
fn missing_image_ends_the_parse() {
    let document = session(
        "Session_2009-08-05T19-30-21",
        "<tr><td><img src=\"./Images/pic.png\" alt=\":)\"/></td></tr>",
    );
    let error = parse_for("alice".to_string(), bytes(&document), &Vec::new()).unwrap_err();
    assert_eq!(error.kind(), ErrorKind::SourceUnreadable);
}

#[test]
fn image_is_handed_over_between_two_advances() {
    let mut parser = MessengerPlusParser::new("a.html", bytes(&session(
        "Session_2009-08-05T19-30-21",
        "<tr><td><img src=\" pic.png \"/>after</td></tr>",
    )));
    assert!(!parser.awaits_asset());
    assert!(!parser.supply_asset(vec![1]));
    assert_eq!(parser.next().unwrap(), Step::Asset(" pic.png ".to_string()));
    assert!(parser.awaits_asset());
    assert!(parser.supply_asset(vec![4, 5]));
    assert!(!parser.awaits_asset());
    assert!(!parser.supply_asset(vec![6]));
    match parser.next().unwrap() {
        Step::Message(message) => assert_eq!(
            message.data,
            vec![
                Data::Image(Image { src: "pic.png".to_string(), alt: "".to_string(), content: vec![4, 5] }),
                text("", "after"),
            ]
        ),
        other => panic!("no message: {:?}", other),
    }
    assert_eq!(parser.next().unwrap(), Step::End);
    assert_eq!(parser.next().unwrap(), Step::End);
}

#[test]
fn advance_without_the_owed_image_ends_the_parse() {
    let mut parser = MessengerPlusParser::new("a.html", bytes(&session(
        "Session_2009-08-05T19-30-21",
        "<tr><td><img src=\"pic.png\"/>after</td></tr><tr><td>later</td></tr>",
    )));
    assert_eq!(parser.next().unwrap(), Step::Asset("pic.png".to_string()));
    assert_eq!(parser.next().unwrap_err().kind(), ErrorKind::SourceUnreadable);
    assert!(!parser.supply_asset(vec![4, 5]));
    assert_eq!(parser.next().unwrap_err().kind(), ErrorKind::SourceUnreadable);
    assert_eq!(parser.handle_event(characters("after")).unwrap_err().kind(), ErrorKind::SourceUnreadable);
}

#[test]
fn event_without_the_owed_image_ends_the_parse() {
    let mut parser = MessengerPlusParser::with_recipient("alice".to_string(), Vec::new());
    into_session(&mut parser, "Session_2009-08-05T19-30-21");
    into_rows(&mut parser);
    parser.handle_event(open("tr", vec![])).unwrap();
    parser.handle_event(open("td", vec![])).unwrap();
    assert_eq!(
        parser.handle_event(open("img", vec![attribute("src", "pic.png")])).unwrap(),
        Some(Step::Asset("pic.png".to_string()))
    );
    let error = parser.handle_event(close("img")).unwrap_err();
    assert_eq!(error.kind(), ErrorKind::SourceUnreadable);
    assert!(!parser.supply_asset(vec![1]));
    let error = parser.handle_event(close("img")).unwrap_err();
    assert_eq!(error.kind(), ErrorKind::SourceUnreadable);
}

#[test]
fn unreadable_row_time_tells_no_later_row() {
    let document = session(
        "Session_2009-08-05T19-30-21",
        "<tr><th><span>19:30</span> Bob:</th><td>one</td></tr><tr><th><span>(19:31)</span> Alice:</th><td>two</td></tr>",
    );
    let mut parser = MessengerPlusParser::new("a.html", bytes(&document));
    assert_eq!(parser.next().unwrap_err().kind(), ErrorKind::TimestampReconstructionFailure);
    assert_eq!(parser.next().unwrap_err().kind(), ErrorKind::TimestampReconstructionFailure);
    assert_eq!(parser.next().unwrap_err().kind(), ErrorKind::TimestampReconstructionFailure);
    assert_eq!(
        parser.handle_event(close("span")).unwrap_err().kind(),
        ErrorKind::TimestampReconstructionFailure
    );
}

#[test]
fn unreadable_session_time_is_fatal() {
    let document = session("Session_yesterday", "");
    let error = parse_for("alice".to_string(), bytes(&document), &Vec::new()).unwrap_err();
    assert_eq!(error.kind(), ErrorKind::TimestampReconstructionFailure);
}

#[test]
fn unreadable_row_time_is_fatal() {
    let first = session("Session_2009-08-05T19-30-21", "<tr><th><span>19:30</span></th></tr>");
    let error = parse_for("alice".to_string(), bytes(&first), &Vec::new()).unwrap_err();
    assert_eq!(error.kind(), ErrorKind::TimestampReconstructionFailure);
    let later = session(
        "Session_2009-08-05T19-30-21",
        "<tr><th><span>(19:30)</span></th></tr><tr><th><span>(19:30):21</span></th></tr>",
    );
    let error = parse_for("alice".to_string(), bytes(&later), &Vec::new()).unwrap_err();
    assert_eq!(error.kind(), ErrorKind::TimestampReconstructionFailure);
}

#[test]
fn row_outside_a_session_is_malformed() {
    let document = "<html><body><div><table><tbody><tr><td>x</td></tr></tbody></table></div></body></html>";
    let error = parse_for("alice".to_string(), bytes(document), &Vec::new()).unwrap_err();
    assert_eq!(error.kind(), ErrorKind::MalformedStructure);
}

#[test]
fn document_without_sessions_has_default_sessions() {
    let archive = parse(
        "logs/dave@example.com.html".to_string(),
        bytes("<html><body><p>nothing</p></body></html>"),
        &Vec::new(),
    )
    .unwrap();
    assert_eq!(archive.messages, Vec::new());
    assert_eq!(archive.details.first_session_id, "0");
    assert_eq!(archive.details.last_session_id, "0");
    assert_eq!(archive.details.recipient_id, "dave@example.com");
    assert_eq!(archive.details.file_type, FileType::MessengerPlus);
}

#[test]
fn session_without_rows_names_itself() {
    let document = session("Session_2009-08-05T19-30-21", "");
    let mut parser = MessengerPlusParser::with_recipient("alice".to_string(), bytes(&document));
    assert_eq!(parser.archive().first_session_id, "0");
    assert_eq!(parser.next().unwrap(), Step::End);
    assert_eq!(parser.archive().first_session_id, "Session_2009-08-05T19-30-21");
    assert_eq!(parser.archive().last_session_id, "Session_2009-08-05T19-30-21");
}

#[test]
fn sender_is_who_the_header_names() {
    let document = session(
        "Session_2009-08-05T19-30-21",
        "<tr><th> Alice says:</th></tr><tr><th> Bob says:</th></tr><tr><th> Somebody:</th></tr><tr></tr>",
    );
    let archive = parse_for("alice".to_string(), bytes(&document), &Vec::new()).unwrap();
    let pairs: Vec<(&str, &str)> = archive
        .messages
        .iter()
        .map(|m| (m.sender_friendly_name.as_str(), m.receiver_friendly_name.as_str()))
        .collect();
    assert_eq!(pairs, vec![("Alice", "Bob"), ("Bob", "Alice"), ("Bob", "Alice"), ("", "")]);
}

#[test]
fn owner_inside_the_other_name_is_taken_for_the_sender() {
    let document = "<html><body><div class=\"mplsession\" id=\"Session_2009-08-05T19-30-21\"><ul><li>Annabel</li><li class=\"in\"> Ann </li></ul><table><tbody><tr><th> Annabel says:</th></tr></tbody></table></div></body></html>";
    let archive = parse_for("alice".to_string(), bytes(document), &Vec::new()).unwrap();
    assert_eq!(archive.messages[0].sender_friendly_name, "Ann");
    assert_eq!(archive.messages[0].receiver_friendly_name, "Annabel");
}

#[test]
fn style_is_own_then_row_then_session() {
    let document = session(
        "Session_2009-08-05T19-30-21",
        "<tr><td>bare</td><td style=\" color:red; \">row<span style=\" color:blue \">x</span>own</td></tr><tr><td>inherited</td></tr>",
    );
    let archive = parse_for("alice".to_string(), bytes(&document), &Vec::new()).unwrap();
    assert_eq!(
        archive.messages[0].data,
        vec![text("", "bare"), text("color:red;", "row"), text("color:blue", "own")]
    );
    assert_eq!(archive.messages[1].data, vec![text("color:red;", "inherited")]);
}

#[test]
fn captured_style_has_its_entities_decoded() {
    let document = session(
        "Session_2009-08-05T19-30-21",
        "<tr><td style=\"font-family:&amp;quot;Segoe UI&amp;quot;;\"><br/>text</td></tr>",
    );
    let archive = parse_for("alice".to_string(), bytes(&document), &Vec::new()).unwrap();
    assert_eq!(archive.messages[0].data, vec![text("font-family:\"Segoe UI\";", "text")]);
}

#[test]
fn events_by_hand_build_a_row() {
    let mut parser = MessengerPlusParser::with_recipient("alice".to_string(), Vec::new());
    into_session(&mut parser, "Session_2009-08-05T19-30-59");
    into_rows(&mut parser);
    assert_eq!(parser.handle_event(open("tr", vec![])).unwrap(), None);
    parser.handle_event(open("th", vec![])).unwrap();
    parser.handle_event(open("span", vec![])).unwrap();
    parser.handle_event(characters("(07:05)")).unwrap();
    parser.handle_event(close("span")).unwrap();
    parser.handle_event(close("th")).unwrap();
    match parser.handle_event(close("tr")).unwrap() {
        Some(Step::Message(message)) => {
            assert_eq!(message.datetime, "2009-08-05T07:05:59");
            assert_eq!(message.session_id, "Session_2009-08-05T19-30-59");
        }
        other => panic!("no message: {:?}", other),
    }
}

#[test]
fn session_inside_a_row_is_malformed() {
    let mut parser = MessengerPlusParser::with_recipient("alice".to_string(), Vec::new());
    into_session(&mut parser, "Session_2009-08-05T19-30-21");
    into_rows(&mut parser);
    parser.handle_event(open("tr", vec![])).unwrap();
    parser.handle_event(open("td", vec![])).unwrap();
    into_rows_of_nothing(&mut parser);
    let error = parser
        .handle_event(open(
            "div",
            vec![attribute("class", "mplsession"), attribute("id", "Session_2010-08-05T19-30-21")],
        ))
        .unwrap_err();
    assert_eq!(error.kind(), ErrorKind::MalformedStructure);
}

fn into_rows_of_nothing(parser: &mut MessengerPlusParser) {
    parser.handle_event(open("html", vec![])).unwrap();
    parser.handle_event(open("body", vec![])).unwrap();
}

#[test]
fn closing_without_opening_is_malformed() {
    let mut parser = MessengerPlusParser::with_recipient("alice".to_string(), Vec::new());
    let error = parser.handle_event(close("tr")).unwrap_err();
    assert_eq!(error.kind(), ErrorKind::MalformedStructure);
    let error = parser.handle_event(open("html", vec![])).unwrap_err();
    assert_eq!(error.kind(), ErrorKind::MalformedStructure);
    let error = parser.handle_event(MarkupEvent::EndDocument).unwrap_err();
    assert_eq!(error.kind(), ErrorKind::MalformedStructure);
}

#[test]
fn closing_another_element_than_the_innermost_is_malformed() {
    let mut parser = MessengerPlusParser::with_recipient("alice".to_string(), Vec::new());
    parser.handle_event(open("html", vec![])).unwrap();
    let error = parser.handle_event(close("body")).unwrap_err();
    assert_eq!(error.kind(), ErrorKind::MalformedStructure);
    let error = parser.handle_event(close("html")).unwrap_err();
    assert_eq!(error.kind(), ErrorKind::MalformedStructure);
}

#[test]
fn end_with_an_element_open_is_malformed() {
    let mut parser = MessengerPlusParser::with_recipient("alice".to_string(), Vec::new());
    parser.handle_event(open("html", vec![])).unwrap();
    let error = parser.handle_event(MarkupEvent::EndDocument).unwrap_err();
    assert_eq!(error.kind(), ErrorKind::MalformedStructure);
    let mut parser = MessengerPlusParser::with_recipient("alice".to_string(), Vec::new());
    parser.handle_event(open("html", vec![])).unwrap();
    parser.handle_event(close("html")).unwrap();
    assert_eq!(parser.handle_event(MarkupEvent::EndDocument).unwrap(), Some(Step::End));
    assert_eq!(parser.handle_event(MarkupEvent::EndDocument).unwrap(), Some(Step::End));
}

#[test]
fn ill_formed_document_is_malformed() {
    let error = parse_for("alice".to_string(), bytes("<html><body></html>"), &Vec::new()).unwrap_err();
    assert_eq!(error.kind(), ErrorKind::MalformedStructure);
}
