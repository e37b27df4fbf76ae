use mclient::{parse_reply, Failure, IoCause, Item, Response};

fn protocol(text: &str) -> Result<Response, Failure> {
    Err(Failure::ProtocolFailure(String::from(text)))
}

fn truncated() -> Result<Response, Failure> {
    Err(Failure::IoFailure(IoCause { message: String::from("unexpected end of input") }))
}

fn value(key: &str, flag: u16, value: &[u8]) -> Result<Response, Failure> {
    Ok(Response::Value(Item { key: String::from(key), flag, value: value.to_vec() }))
}

#[test]
fn stored_line_is_stored() {
    assert_eq!(parse_reply(b"STORED\r\n"), Ok(Response::Stored));
}

#[test]
fn value_reply_is_an_item() {
    assert_eq!(parse_reply(b"VALUE foo 7 3\r\nbar\r\nEND\r\n"), value("foo", 7, b"bar"));
}

#[test]
fn bare_end_is_a_miss() {
    assert_eq!(parse_reply(b"END\r\n"), Ok(Response::NotFound));
}

#[test]
fn client_error_carries_its_text() {
    assert_eq!(
        parse_reply(b"CLIENT_ERROR bad command line format\r\n"),
        Ok(Response::ClientErrorMsg(String::from("bad command line format")))
    );
}

#[test]
fn garbage_is_a_protocol_failure() {
    assert_eq!(parse_reply(b"GARBAGE\r\n"), protocol("invalid response"));
}

#[test]
fn every_status_keyword_has_its_response() {
    assert_eq!(parse_reply(b"NOT_STORED\r\n"), Ok(Response::NotStored));
    assert_eq!(parse_reply(b"DELETED\r\n"), Ok(Response::Deleted));
    assert_eq!(parse_reply(b"NOT_FOUND\r\n"), Ok(Response::NotFound));
    assert_eq!(parse_reply(b"ERROR\r\n"), Ok(Response::InvalidCommand));
    assert_eq!(
        parse_reply(b"SERVER_ERROR out of memory\r\n"),
        Ok(Response::ServerErrorMsg(String::from("out of memory")))
    );
}

#[test]
fn bare_line_feed_ends_a_line() {
    assert_eq!(parse_reply(b"STORED\n"), Ok(Response::Stored));
    assert_eq!(parse_reply(b"VALUE foo 7 3\nbar\nEND\n"), value("foo", 7, b"bar"));
}

#[test]
fn keywords_are_told_by_the_front_of_the_line() {
    assert_eq!(parse_reply(b"STORED and more\r\n"), Ok(Response::Stored));
    assert_eq!(parse_reply(b"NOT_STOREDx\r\n"), Ok(Response::NotStored));
    assert_eq!(parse_reply(b"DELETED!\r\n"), Ok(Response::Deleted));
    assert_eq!(parse_reply(b"NOT_FOUND 1\r\n"), Ok(Response::NotFound));
}

#[test]
fn error_and_end_are_the_whole_line() {
    assert_eq!(parse_reply(b"ERROR unknown\r\n"), protocol("invalid response"));
    assert_eq!(parse_reply(b"ENDING\r\n"), protocol("invalid response"));
    assert_eq!(parse_reply(b"END \r\n"), protocol("invalid response"));
}

#[test]
fn lines_that_begin_with_no_keyword_are_refused() {
    assert_eq!(parse_reply(b"\r\n"), protocol("invalid response"));
    assert_eq!(parse_reply(b"stored\r\n"), protocol("invalid response"));
    assert_eq!(parse_reply(b" STORED\r\n"), protocol("invalid response"));
    assert_eq!(parse_reply(b"STORE\r\n"), protocol("invalid response"));
    assert_eq!(parse_reply(b"\xff\xfe\r\n"), protocol("invalid response"));
}

#[test]
fn diagnostic_loses_one_space_only() {
    assert_eq!(parse_reply(b"CLIENT_ERROR\r\n"), Ok(Response::ClientErrorMsg(String::new())));
    assert_eq!(parse_reply(b"CLIENT_ERROR \r\n"), Ok(Response::ClientErrorMsg(String::new())));
    assert_eq!(
        parse_reply(b"CLIENT_ERROR  two\r\n"),
        Ok(Response::ClientErrorMsg(String::from(" two")))
    );
    assert_eq!(
        parse_reply(b"SERVER_ERRORclose\r\n"),
        Ok(Response::ServerErrorMsg(String::from("close")))
    );
}

#[test]
fn diagnostic_is_decoded_as_utf8() {
    assert_eq!(
        parse_reply("SERVER_ERROR d\u{e9}bordement \u{2713}\r\n".as_bytes()),
        Ok(Response::ServerErrorMsg(String::from("d\u{e9}bordement \u{2713}")))
    );
}

#[test]
fn diagnostic_that_is_not_text_is_refused() {
    assert_eq!(
        parse_reply(b"CLIENT_ERROR \xff\r\n"),
        protocol("Expect string,Invalid byte in response")
    );
    assert_eq!(
        parse_reply(b"SERVER_ERROR \xc3\r\n"),
        protocol("Expect string,Invalid byte in response")
    );
}

#[test]
fn payload_with_line_ends_is_returned_whole() {
    assert_eq!(parse_reply(b"VALUE k 0 4\r\na\r\nb\r\nEND\r\n"), value("k", 0, b"a\r\nb"));
    assert_eq!(parse_reply(b"VALUE k 0 2\r\n\r\n\r\nEND\r\n"), value("k", 0, b"\r\n"));
    assert_eq!(parse_reply(b"VALUE k 0 5\r\nEND\r\n\r\nEND\r\n"), value("k", 0, b"END\r\n"));
}

#[test]
fn payload_may_be_any_bytes() {
    assert_eq!(
        parse_reply(b"VALUE k 1 4\r\n\x00\xff\n\r\r\nEND\r\n"),
        value("k", 1, b"\x00\xff\n\r")
    );
}

#[test]
fn empty_payload_is_a_value() {
    assert_eq!(parse_reply(b"VALUE k 0 0\r\n\r\nEND\r\n"), value("k", 0, b""));
}

#[test]
fn value_line_without_four_fields_is_refused() {
    assert_eq!(parse_reply(b"VALUE k 0\r\n"), protocol("invalid Value response"));
    assert_eq!(parse_reply(b"VALUE\r\n"), protocol("invalid Value response"));
    assert_eq!(parse_reply(b"VALUE k\r\n"), protocol("invalid Value response"));
    assert_eq!(parse_reply(b"VALUE k 0 3 9\r\nbar\r\nEND\r\n"), protocol("invalid Value response"));
    assert_eq!(parse_reply(b"VALUE k  0 3\r\nbar\r\nEND\r\n"), protocol("invalid Value response"));
    assert_eq!(parse_reply(b"VALUE k 0 3 \r\nbar\r\nEND\r\n"), protocol("invalid Value response"));
}

#[test]
fn value_line_with_bad_numbers_is_refused() {
    assert_eq!(parse_reply(b"VALUE k x 3\r\nbar\r\nEND\r\n"), protocol("invalid Value response"));
    assert_eq!(parse_reply(b"VALUE k 0 three\r\n"), protocol("invalid Value response"));
    assert_eq!(parse_reply(b"VALUE k -1 3\r\nbar\r\nEND\r\n"), protocol("invalid Value response"));
    assert_eq!(parse_reply(b"VALUE k +1 3\r\nbar\r\nEND\r\n"), protocol("invalid Value response"));
    assert_eq!(parse_reply(b"VALUE k 0 \r\n"), protocol("invalid Value response"));
    assert_eq!(parse_reply(b"VALUE k 1.5 3\r\nbar\r\nEND\r\n"), protocol("invalid Value response"));
}

#[test]
fn flag_is_sixteen_bits() {
    assert_eq!(parse_reply(b"VALUE k 65535 1\r\nx\r\nEND\r\n"), value("k", 65535, b"x"));
    assert_eq!(parse_reply(b"VALUE k 65536 1\r\nx\r\nEND\r\n"), protocol("invalid Value response"));
    assert_eq!(parse_reply(b"VALUE k 007 1\r\nx\r\nEND\r\n"), value("k", 7, b"x"));
}

#[test]
fn length_beyond_the_machine_is_refused() {
    assert_eq!(
        parse_reply(b"VALUE k 0 340282366920938463463374607431768211456\r\n"),
        protocol("invalid Value response")
    );
}

#[test]
fn key_of_a_value_is_decoded_as_utf8() {
    assert_eq!(
        parse_reply("VALUE cl\u{e9} 2 1\r\nx\r\nEND\r\n".as_bytes()),
        value("cl\u{e9}", 2, b"x")
    );
    assert_eq!(parse_reply(b"VALUE \xff 2 1\r\nx\r\nEND\r\n"), protocol("invalid Value response"));
}

#[test]
fn empty_key_of_a_value_is_kept() {
    assert_eq!(parse_reply(b"VALUE  0 1\r\nx\r\nEND\r\n"), value("", 0, b"x"));
}

#[test]
fn missing_end_is_refused() {
    assert_eq!(parse_reply(b"VALUE foo 7 3\r\nbar\r\nSTORED\r\n"), protocol("expected END"));
    assert_eq!(parse_reply(b"VALUE foo 7 3\r\nbar\r\n\r\n"), protocol("expected END"));
    assert_eq!(parse_reply(b"VALUE foo 7 3\r\nbar\r\nEND \r\n"), protocol("expected END"));
    assert_eq!(parse_reply(b"VALUE foo 7 3\r\nbar\r\n\xff\r\n"), protocol("expected END"));
    assert_eq!(
        parse_reply(b"VALUE foo 7 3\r\nbar\r\nVALUE foo 7 3\r\nbar\r\nEND\r\n"),
        protocol("expected END")
    );
}

#[test]
fn payload_must_be_followed_by_a_line_end() {
    assert_eq!(
        parse_reply(b"VALUE foo 7 3\r\nbarEND\r\n"),
        protocol("Expect new line,Invalid byte in response")
    );
    assert_eq!(
        parse_reply(b"VALUE foo 7 2\r\nbar\r\nEND\r\n"),
        protocol("Expect new line,Invalid byte in response")
    );
    assert_eq!(
        parse_reply(b"VALUE foo 7 3\r\nbar\rEND\r\n"),
        protocol("Invalid byte in response")
    );
}

#[test]
fn carriage_return_must_be_followed_by_line_feed() {
    assert_eq!(parse_reply(b"STORED\rX"), protocol("Invalid byte in response"));
    assert_eq!(parse_reply(b"STO\rRED\r\n"), protocol("Invalid byte in response"));
    assert_eq!(
        parse_reply(b"VALUE foo 7 3\r\nbar\r\nEND\r\r\n"),
        protocol("Invalid byte in response")
    );
}

#[test]
fn input_that_ends_early_is_an_io_failure() {
    assert_eq!(parse_reply(b""), truncated());
    assert_eq!(parse_reply(b"STORED"), truncated());
    assert_eq!(parse_reply(b"STORED\r"), truncated());
    assert_eq!(parse_reply(b"VALUE foo 7 3\r\n"), truncated());
    assert_eq!(parse_reply(b"VALUE foo 7 3\r\nba"), truncated());
    assert_eq!(parse_reply(b"VALUE foo 7 3\r\nbar"), truncated());
    assert_eq!(parse_reply(b"VALUE foo 7 3\r\nbar\r"), truncated());
    assert_eq!(parse_reply(b"VALUE foo 7 3\r\nbar\r\n"), truncated());
    assert_eq!(parse_reply(b"VALUE foo 7 3\r\nbar\r\nEND"), truncated());
    assert_eq!(parse_reply(b"VALUE foo 7 3\r\nbar\r\nEND\r"), truncated());
}

#[test]
fn bytes_behind_the_reply_are_not_looked_at() {
    assert_eq!(parse_reply(b"STORED\r\nGARBAGE"), Ok(Response::Stored));
    assert_eq!(parse_reply(b"DELETED\n\r\r\r"), Ok(Response::Deleted));
    assert_eq!(parse_reply(b"VALUE foo 7 3\r\nbar\r\nEND\r\nVALUE"), value("foo", 7, b"bar"));
    assert_eq!(parse_reply(b"GARBAGE\r\nSTORED\r\n"), protocol("invalid response"));
}

#[test]
fn large_payload_is_read_by_its_length() {
    let mut payload: Vec<u8> = Vec::new();
    for i in 0..100_000u32 {
        payload.push((i % 251) as u8);
    }
    let mut reply: Vec<u8> = Vec::new();
    reply.extend_from_slice(b"VALUE big 9 100000\r\n");
    reply.extend_from_slice(&payload);
    reply.extend_from_slice(b"\r\nEND\r\n");
    assert_eq!(parse_reply(&reply), value("big", 9, &payload));
}
