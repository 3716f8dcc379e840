use flodoc::tree::Span;
use flodoc::util::{Error, ExpectedPath, ParseError};

fn io_message(r: Result<(), Error>) -> String {
    match r {
        Err(Error::IO(m)) => m,
        other => panic!("expected an IO error, got {:?}", other),
    }
}

#[test]
fn existing_file_meets_the_file_expectation() {
    assert!(ExpectedPath::File.check_path(true, false, true).is_ok());
}

#[test]
fn existing_dir_meets_the_dir_expectation() {
    assert!(ExpectedPath::Dir.check_path(true, true, false).is_ok());
}

#[test]
fn missing_path_is_reported() {
    assert_eq!(
        io_message(ExpectedPath::File.check_path(false, false, false)),
        "Provided path does not exist"
    );
    assert_eq!(
        io_message(ExpectedPath::Dir.check_path(false, false, false)),
        "Provided path does not exist"
    );
}

#[test]
fn wrong_kind_is_reported() {
    assert_eq!(
        io_message(ExpectedPath::File.check_path(true, true, false)),
        "Provided path exists, but does not lead to a file"
    );
    assert_eq!(
        io_message(ExpectedPath::Dir.check_path(true, false, true)),
        "Provided path exists, but does not lead to a directory"
    );
}

#[test]
fn expectations_describe_themselves() {
    assert_eq!(ExpectedPath::Dir.describe(), "directory");
    assert_eq!(ExpectedPath::File.describe(), "file");
}

#[test]
fn every_error_carries_its_message() {
    assert_eq!(Error::IO("cannot read".to_string()).message(), "cannot read");
    assert_eq!(Error::FromUtf8("bad bytes".to_string()).message(), "bad bytes");
    assert_eq!(Error::Serde("bad value".to_string()).message(), "bad value");
    let pe = ParseError { span: Span { start: 2, end: 5 }, message: "unclosed block".to_string() };
    assert_eq!(Error::Parser(pe).message(), "unclosed block");
}
