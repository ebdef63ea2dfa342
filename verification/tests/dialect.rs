use messenger_archive::messenger::error::ErrorKind;
use messenger_archive::parse;

#[test]
fn cannot_parse_crazy_file() {
    let result = parse("archive.zip".to_string(), Vec::new(), &Vec::new());
    assert!(result.is_err());
}

#[test]
fn crazy_file_is_of_no_dialect() {
    let error = parse("archive.zip".to_string(), Vec::new(), &Vec::new()).unwrap_err();
    assert_eq!(error.kind(), ErrorKind::UnrecognizedDialect);
    assert_eq!(error.to_string(), "Invalid messenger archive. Expected format: .html or .xml");
}
