use mclient::command::check_key;
use mclient::{encode_delete, encode_get, encode_set, Failure};

fn invalid_key<T>() -> Result<T, Failure> {
    Err(Failure::ValidationFailure(String::from("invalid key")))
}

#[test]
fn get_request_is_exact() {
    assert_eq!(encode_get("k"), Ok(b"get k\r\n".to_vec()));
    assert_eq!(encode_get("some:longer/key"), Ok(b"get some:longer/key\r\n".to_vec()));
}

#[test]
fn delete_request_keeps_the_time_argument() {
    assert_eq!(encode_delete("k"), Ok(b"delete k 0\r\n".to_vec()));
    assert_eq!(encode_delete("nonexistent"), Ok(b"delete nonexistent 0\r\n".to_vec()));
}

#[test]
fn set_request_is_exact() {
    assert_eq!(encode_set("k", 0, 0, b"v"), Ok(b"set k 0 0 1\r\nv\r\n".to_vec()));
    assert_eq!(
        encode_set("go", 7, 3600, b"for"),
        Ok(b"set go 7 3600 3\r\nfor\r\n".to_vec())
    );
}

#[test]
fn set_with_no_data_has_length_zero() {
    assert_eq!(encode_set("k", 0, 0, b""), Ok(b"set k 0 0 0\r\n\r\n".to_vec()));
}

#[test]
fn set_length_counts_bytes_whatever_they_are() {
    assert_eq!(encode_set("k", 0, 0, b"a\r\nb"), Ok(b"set k 0 0 4\r\na\r\nb\r\n".to_vec()));
    assert_eq!(
        encode_set("k", 0, 0, b"\x00\xff\r\n\r\n"),
        Ok(b"set k 0 0 6\r\n\x00\xff\r\n\r\n\r\n".to_vec())
    );
    assert_eq!(
        encode_set("k", 0, 0, "d\u{e9}j\u{e0}".as_bytes()),
        Ok(b"set k 0 0 6\r\nd\xc3\xa9j\xc3\xa0\r\n".to_vec())
    );
    assert_eq!(
        encode_set("k", 0, 0, b"0123456789"),
        Ok(b"set k 0 0 10\r\n0123456789\r\n".to_vec())
    );
}

#[test]
fn set_writes_its_numbers_in_decimal() {
    assert_eq!(
        encode_set("k", 65535, 4294967295, b"v"),
        Ok(b"set k 65535 4294967295 1\r\nv\r\n".to_vec())
    );
    assert_eq!(encode_set("k", 10, 100, b"v"), Ok(b"set k 10 100 1\r\nv\r\n".to_vec()));
    assert_eq!(encode_set("k", 9, 1009, b"v"), Ok(b"set k 9 1009 1\r\nv\r\n".to_vec()));
}

#[test]
fn key_is_sent_as_utf8() {
    assert_eq!(encode_get("cl\u{e9}"), Ok(b"get cl\xc3\xa9\r\n".to_vec()));
}

#[test]
fn empty_key_is_not_refused() {
    assert_eq!(encode_get(""), Ok(b"get \r\n".to_vec()));
    assert_eq!(check_key(""), Ok(()));
}

#[test]
fn key_with_space_is_refused() {
    assert_eq!(encode_get("a b"), invalid_key());
    assert_eq!(encode_set("a b", 0, 0, b"v"), invalid_key());
    assert_eq!(encode_delete("a b"), invalid_key());
    assert_eq!(encode_get(" "), invalid_key());
    assert_eq!(encode_get("ab "), invalid_key());
}

#[test]
fn key_with_tab_is_refused() {
    assert_eq!(encode_get("a\tb"), invalid_key());
    assert_eq!(encode_set("a\tb", 0, 0, b"v"), invalid_key());
    assert_eq!(encode_delete("a\tb"), invalid_key());
}

#[test]
fn key_with_carriage_return_is_refused() {
    assert_eq!(encode_get("a\rb"), invalid_key());
    assert_eq!(encode_set("a\rb", 0, 0, b"v"), invalid_key());
    assert_eq!(encode_delete("a\rb"), invalid_key());
}

#[test]
fn key_with_line_feed_is_refused() {
    assert_eq!(encode_get("a\nb"), invalid_key());
    assert_eq!(encode_set("a\nb", 0, 0, b"v"), invalid_key());
    assert_eq!(encode_delete("a\nb"), invalid_key());
    assert_eq!(encode_get("k\r\nset x 0 0 1"), invalid_key());
}

#[test]
fn check_key_tells_valid_from_invalid() {
    assert_eq!(check_key("plain-key_1"), Ok(()));
    assert_eq!(check_key("cl\u{e9}\u{2713}"), Ok(()));
    assert_eq!(check_key("a b"), invalid_key());
    assert_eq!(check_key("\n"), invalid_key());
}
