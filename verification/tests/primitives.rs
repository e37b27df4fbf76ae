use mclient::bytes::{copy_range, same_bytes, split_fields, starts_with};
use mclient::decimal::{parse_number, push_decimal};
use mclient::{classify, Failure, FromMcItem, Header, IoCause, Item, McResult, Response, Status};

#[test]
fn split_cuts_at_every_separator() {
    assert_eq!(
        split_fields(b"VALUE k 0 3", b' '),
        vec![b"VALUE".to_vec(), b"k".to_vec(), b"0".to_vec(), b"3".to_vec()]
    );
    assert_eq!(split_fields(b"", b' '), vec![Vec::<u8>::new()]);
    assert_eq!(split_fields(b"abc", b' '), vec![b"abc".to_vec()]);
    assert_eq!(split_fields(b" ", b' '), vec![Vec::<u8>::new(), Vec::<u8>::new()]);
    assert_eq!(
        split_fields(b"a  b ", b' '),
        vec![b"a".to_vec(), Vec::<u8>::new(), b"b".to_vec(), Vec::<u8>::new()]
    );
    assert_eq!(split_fields(b"a,b", b','), vec![b"a".to_vec(), b"b".to_vec()]);
}

#[test]
fn prefixes_and_equality_of_byte_strings() {
    assert!(starts_with(b"STORED", b"STORED"));
    assert!(starts_with(b"STORED more", b"STORED"));
    assert!(starts_with(b"anything", b""));
    assert!(!starts_with(b"STORE", b"STORED"));
    assert!(!starts_with(b"sTORED", b"STORED"));
    assert!(!starts_with(b"", b"S"));
    assert!(same_bytes(b"END", b"END"));
    assert!(same_bytes(b"", b""));
    assert!(!same_bytes(b"END", b"ENDS"));
    assert!(!same_bytes(b"ENDS", b"END"));
    assert!(!same_bytes(b"END", b"EnD"));
}

#[test]
fn copy_range_copies_the_stretch() {
    assert_eq!(copy_range(b"hello world", 6, 11), b"world".to_vec());
    assert_eq!(copy_range(b"hello", 0, 5), b"hello".to_vec());
    assert_eq!(copy_range(b"hello", 2, 2), Vec::<u8>::new());
}

#[test]
fn decimal_is_written_without_leading_zeros() {
    let mut out: Vec<u8> = b"n=".to_vec();
    push_decimal(&mut out, 0);
    assert_eq!(out, b"n=0".to_vec());
    let mut out: Vec<u8> = Vec::new();
    push_decimal(&mut out, 7);
    push_decimal(&mut out, 10);
    push_decimal(&mut out, 65535);
    assert_eq!(out, b"71065535".to_vec());
    let mut out: Vec<u8> = Vec::new();
    push_decimal(&mut out, usize::MAX);
    assert_eq!(out, format!("{}", usize::MAX).into_bytes());
}

#[test]
fn decimal_is_read_up_to_its_bound() {
    assert_eq!(parse_number(b"0", 10), Some(0));
    assert_eq!(parse_number(b"10", 10), Some(10));
    assert_eq!(parse_number(b"11", 10), None);
    assert_eq!(parse_number(b"0010", 10), Some(10));
    assert_eq!(parse_number(b"65535", 65535), Some(65535));
    assert_eq!(parse_number(b"65536", 65535), None);
    assert_eq!(parse_number(b"99999999999999999999999999", usize::MAX), None);
    assert_eq!(parse_number(format!("{}", usize::MAX).as_bytes(), usize::MAX), Some(usize::MAX));
    assert_eq!(parse_number(b"7", 0), None);
    assert_eq!(parse_number(b"0", 0), Some(0));
}

#[test]
fn decimal_takes_digits_only() {
    assert_eq!(parse_number(b"", 10), None);
    assert_eq!(parse_number(b"+1", 10), None);
    assert_eq!(parse_number(b"-1", 10), None);
    assert_eq!(parse_number(b"1 ", 10), None);
    assert_eq!(parse_number(b" 1", 10), None);
    assert_eq!(parse_number(b"1a", 10), None);
    assert_eq!(parse_number(b"0x1", 10), None);
    assert_eq!(parse_number(b"99x", 10), None);
}

#[test]
fn status_lines_are_classified() {
    assert_eq!(classify(b"STORED"), Ok(Status::Reply(Response::Stored)));
    assert_eq!(classify(b"NOT_STORED"), Ok(Status::Reply(Response::NotStored)));
    assert_eq!(classify(b"DELETED"), Ok(Status::Reply(Response::Deleted)));
    assert_eq!(classify(b"NOT_FOUND"), Ok(Status::Reply(Response::NotFound)));
    assert_eq!(classify(b"ERROR"), Ok(Status::Reply(Response::InvalidCommand)));
    assert_eq!(classify(b"END"), Ok(Status::Reply(Response::NotFound)));
    assert_eq!(
        classify(b"CLIENT_ERROR line too long"),
        Ok(Status::Reply(Response::ClientErrorMsg(String::from("line too long"))))
    );
    assert_eq!(
        classify(b"SERVER_ERROR busy"),
        Ok(Status::Reply(Response::ServerErrorMsg(String::from("busy"))))
    );
    assert_eq!(
        classify(b"VALUE foo 7 3"),
        Ok(Status::Header(Header { key: String::from("foo"), flag: 7, size: 3 }))
    );
}

#[test]
fn status_lines_that_are_refused() {
    assert_eq!(
        classify(b"GARBAGE"),
        Err(Failure::ProtocolFailure(String::from("invalid response")))
    );
    assert_eq!(classify(b""), Err(Failure::ProtocolFailure(String::from("invalid response"))));
    assert_eq!(
        classify(b"VALUE k 0"),
        Err(Failure::ProtocolFailure(String::from("invalid Value response")))
    );
    assert_eq!(
        classify(b"VALUE k 0 -3"),
        Err(Failure::ProtocolFailure(String::from("invalid Value response")))
    );
    assert_eq!(
        classify(b"CLIENT_ERROR \x80"),
        Err(Failure::ProtocolFailure(String::from("Expect string,Invalid byte in response")))
    );
}

#[test]
fn value_line_is_told_by_its_front() {
    assert_eq!(
        classify(b"VALUES k 1 2"),
        Ok(Status::Header(Header { key: String::from("k"), flag: 1, size: 2 }))
    );
}

#[test]
fn failure_describes_itself() {
    assert_eq!(Failure::ProtocolFailure(String::from("expected END")).description(), "expected END");
    assert_eq!(Failure::ValidationFailure(String::from("invalid key")).description(), "invalid key");
    assert_eq!(Failure::IoFailure(IoCause::new("connection reset")).description(), "connection reset");
}

#[test]
fn io_cause_becomes_an_io_failure() {
    let cause = IoCause::new("timed out");
    assert_eq!(cause.message, "timed out");
    assert_eq!(Failure::from(cause.clone()), Failure::IoFailure(cause));
}

struct Text(String);

impl FromMcItem for Text {
    fn from_item(item: &Item) -> McResult<Text> {
        match String::from_utf8(item.value.clone()) {
            Ok(text) => Ok(Text(text)),
            Err(_) => Err(Failure::ProtocolFailure(String::from("value is not text"))),
        }
    }
}

#[test]
fn an_item_converts_into_a_callers_type() {
    let item = Item { key: String::from("k"), flag: 0, value: b"for".to_vec() };
    assert_eq!(Text::from_item(&item).map(|t| t.0), Ok(String::from("for")));
    let item = Item { key: String::from("k"), flag: 0, value: b"\xff".to_vec() };
    assert_eq!(
        Text::from_item(&item).map(|t| t.0),
        Err(Failure::ProtocolFailure(String::from("value is not text")))
    );
}
