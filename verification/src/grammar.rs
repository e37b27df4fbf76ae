//! The replies of the protocol, as functions on the bytes of the stream.
//!
//! A reply is one status line, or a `VALUE` line followed by a payload of the
//! announced length, a line end, and the line `END`. Lines end in `\n` or
//! `\r\n`. Each function here reads a stretch of bytes from its front and
//! says how the reading ends: with a value after so many bytes, with a
//! complaint after so many bytes, or wanting more.

use vstd::prelude::*;
use vstd::string::StringSliceAdditionalSpecFns;
use vstd::utf8::{decode_utf8, valid_utf8};
use crate::bytes::{split, until, CR, LF, SP};
use crate::decimal::number;
use crate::types::{ItemView, ResponseView};

verus! {

pub const STORED: &'static str = "STORED";

pub const NOT_STORED: &'static str = "NOT_STORED";

pub const DELETED: &'static str = "DELETED";

pub const NOT_FOUND: &'static str = "NOT_FOUND";

pub const ERROR: &'static str = "ERROR";

pub const CLIENT_ERROR: &'static str = "CLIENT_ERROR";

pub const SERVER_ERROR: &'static str = "SERVER_ERROR";

pub const VALUE: &'static str = "VALUE";

pub const END: &'static str = "END";

/// A byte other than the one that had to come.
pub const INVALID_BYTE: &'static str = "Invalid byte in response";

/// A byte where a line end had to come.
pub const EXPECT_NEWLINE: &'static str = "Expect new line,Invalid byte in response";

/// A line that is not UTF-8.
pub const EXPECT_STRING: &'static str = "Expect string,Invalid byte in response";

/// A `VALUE` line without its four fields, or with a flag or a length that is
/// no number in range.
pub const INVALID_VALUE: &'static str = "invalid Value response";

/// A line other than `END` behind a payload.
pub const EXPECTED_END: &'static str = "expected END";

/// A status line that begins with no keyword of the protocol.
pub const INVALID_RESPONSE: &'static str = "invalid response";

/// How reading a stretch of bytes ends.
pub enum Scan<T> {
    /// `value` was read from the first `used` bytes.
    Done { value: T, used: nat },
    /// The first `used` bytes cannot begin what was to be read.
    Bad { reason: Seq<char>, used: nat },
    /// The bytes end before the reading does.
    More,
}

impl<T> Scan<T> {
    /// The same ending, `by` bytes further down the stream.
    pub open spec fn shift(self, by: nat) -> Scan<T> {
        match self {
            Scan::Done { value, used } => Scan::Done { value, used: used + by },
            Scan::Bad { reason, used } => Scan::Bad { reason, used: used + by },
            Scan::More => Scan::More,
        }
    }

    /// The reading has ended and has looked at `used` bytes and no further.
    pub open spec fn ends_at(self, used: nat) -> bool {
        match self {
            Scan::Done { used: n, .. } => n == used,
            Scan::Bad { used: n, .. } => n == used,
            Scan::More => false,
        }
    }
}

/// Reads the one byte `want`.
pub open spec fn scan_char(s: Seq<u8>, want: u8) -> Scan<()> {
    if s.len() == 0 {
        Scan::More
    } else if s[0] == want {
        Scan::Done { value: (), used: 1 }
    } else {
        Scan::Bad { reason: INVALID_BYTE@, used: 1 }
    }
}

/// Reads a line end: `\n`, or `\r` and `\n`.
pub open spec fn scan_newline(s: Seq<u8>) -> Scan<()> {
    if s.len() == 0 {
        Scan::More
    } else if s[0] == LF {
        Scan::Done { value: (), used: 1 }
    } else if s[0] == CR {
        scan_char(s.skip(1), LF).shift(1)
    } else {
        Scan::Bad { reason: EXPECT_NEWLINE@, used: 1 }
    }
}

/// Reads a line: the bytes before the first `\r` or `\n`, and the line end.
/// A `\r` that no `\n` follows is a complaint.
#[verifier::opaque]
pub open spec fn scan_line(s: Seq<u8>) -> Scan<Seq<u8>> {
    let n = until(s, CR, LF);
    if n >= s.len() {
        Scan::More
    } else {
        match scan_newline(s.skip(n as int)) {
            Scan::Done { used, .. } => Scan::Done { value: s.take(n as int), used: n + used },
            Scan::Bad { reason, used } => Scan::Bad { reason, used: n + used },
            Scan::More => Scan::More,
        }
    }
}

/// Reads a line of text: a line that is well-formed UTF-8.
#[verifier::opaque]
pub open spec fn scan_string_line(s: Seq<u8>) -> Scan<Seq<char>> {
    match scan_line(s) {
        Scan::Done { value, used } => if valid_utf8(value) {
            Scan::Done { value: decode_utf8(value), used }
        } else {
            Scan::Bad { reason: EXPECT_STRING@, used }
        },
        Scan::Bad { reason, used } => Scan::Bad { reason, used },
        Scan::More => Scan::More,
    }
}

/// Reads `n` bytes, whatever they are.
pub open spec fn scan_exact(s: Seq<u8>, n: nat) -> Scan<Seq<u8>> {
    if s.len() < n {
        Scan::More
    } else {
        Scan::Done { value: s.take(n as int), used: n }
    }
}

/// What a `VALUE` line announces.
pub struct HeaderView {
    pub key: Seq<char>,
    pub flag: u16,
    pub size: nat,
}

/// What a status line says.
pub enum StatusView {
    /// The line is the whole reply.
    Reply(ResponseView),
    /// A payload follows.
    Header(HeaderView),
    /// The line is no status line.
    Malformed(Seq<char>),
}

/// The text behind a keyword of `keyword` bytes: the rest of the line, less
/// the one space that parts it from the keyword.
pub open spec fn detail(line: Seq<u8>, keyword: int) -> Seq<u8> {
    if keyword < line.len() && line[keyword] == SP {
        line.skip(keyword + 1)
    } else {
        line.skip(keyword)
    }
}

/// What a line that begins with `VALUE` announces: it has four fields parted
/// by single spaces, the second the key, which is UTF-8, the third a flag of
/// 16 bits, the fourth the length of the payload.
pub open spec fn header(line: Seq<u8>) -> StatusView {
    let fields = split(line, SP);
    if fields.len() != 4 || !valid_utf8(fields[1]) {
        StatusView::Malformed(INVALID_VALUE@)
    } else {
        match (number(fields[2], u16::MAX as nat), number(fields[3], usize::MAX as nat)) {
            (Some(flag), Some(size)) => StatusView::Header(
                HeaderView { key: decode_utf8(fields[1]), flag: flag as u16, size },
            ),
            _ => StatusView::Malformed(INVALID_VALUE@),
        }
    }
}

/// What the server's diagnostic says: the bytes as text, which they have to
/// be.
pub open spec fn diagnostic(text: Seq<u8>) -> Option<Seq<char>> {
    if valid_utf8(text) {
        Some(decode_utf8(text))
    } else {
        None
    }
}

/// What the status line `line` says. Keywords are told by the front of the
/// line, but for `ERROR` and `END`, which are the whole line.
#[verifier::opaque]
pub open spec fn status(line: Seq<u8>) -> StatusView {
    if NOT_STORED.spec_bytes().is_prefix_of(line) {
        StatusView::Reply(ResponseView::NotStored)
    } else if STORED.spec_bytes().is_prefix_of(line) {
        StatusView::Reply(ResponseView::Stored)
    } else if NOT_FOUND.spec_bytes().is_prefix_of(line) {
        StatusView::Reply(ResponseView::NotFound)
    } else if DELETED.spec_bytes().is_prefix_of(line) {
        StatusView::Reply(ResponseView::Deleted)
    } else if line == ERROR.spec_bytes() {
        StatusView::Reply(ResponseView::InvalidCommand)
    } else if line == END.spec_bytes() {
        StatusView::Reply(ResponseView::NotFound)
    } else if CLIENT_ERROR.spec_bytes().is_prefix_of(line) {
        match diagnostic(detail(line, CLIENT_ERROR.spec_bytes().len() as int)) {
            Some(text) => StatusView::Reply(ResponseView::ClientErrorMsg(text)),
            None => StatusView::Malformed(EXPECT_STRING@),
        }
    } else if SERVER_ERROR.spec_bytes().is_prefix_of(line) {
        match diagnostic(detail(line, SERVER_ERROR.spec_bytes().len() as int)) {
            Some(text) => StatusView::Reply(ResponseView::ServerErrorMsg(text)),
            None => StatusView::Malformed(EXPECT_STRING@),
        }
    } else if VALUE.spec_bytes().is_prefix_of(line) {
        header(line)
    } else {
        StatusView::Malformed(INVALID_RESPONSE@)
    }
}

/// Reads the line that closes a value: `END`, and nothing else.
#[verifier::opaque]
pub open spec fn scan_end(s: Seq<u8>) -> Scan<()> {
    match scan_line(s) {
        Scan::Done { value, used } => if value == END.spec_bytes() {
            Scan::Done { value: (), used }
        } else {
            Scan::Bad { reason: EXPECTED_END@, used }
        },
        Scan::Bad { reason, used } => Scan::Bad { reason, used },
        Scan::More => Scan::More,
    }
}

/// Reads what follows a `VALUE` line: `size` bytes of payload, taken as they
/// come, a line end, and the line `END`.
#[verifier::opaque]
pub open spec fn scan_body(s: Seq<u8>, size: nat) -> Scan<Seq<u8>> {
    if s.len() < size {
        Scan::More
    } else {
        match scan_newline(s.skip(size as int)) {
            Scan::Done { used, .. } => match scan_end(s.skip((size + used) as int)) {
                Scan::Done { used: last, .. } => Scan::Done {
                    value: s.take(size as int),
                    used: size + used + last,
                },
                Scan::Bad { reason, used: last } => Scan::Bad { reason, used: size + used + last },
                Scan::More => Scan::More,
            },
            Scan::Bad { reason, used } => Scan::Bad { reason, used: size + used },
            Scan::More => Scan::More,
        }
    }
}

/// The value that a `VALUE` line and what follows it make, where `body` is
/// how the reading of what follows ends.
pub open spec fn value_of(header: HeaderView, body: Scan<Seq<u8>>) -> Scan<ResponseView> {
    match body {
        Scan::Done { value, used } => Scan::Done {
            value: ResponseView::Value(ItemView { key: header.key, flag: header.flag, value }),
            used,
        },
        Scan::Bad { reason, used } => Scan::Bad { reason, used },
        Scan::More => Scan::More,
    }
}

/// Reads one reply: a status line, and behind a `VALUE` line what follows
/// one.
#[verifier::opaque]
pub open spec fn scan_reply(s: Seq<u8>) -> Scan<ResponseView> {
    match scan_line(s) {
        Scan::Done { value: line, used } => match status(line) {
            StatusView::Reply(answer) => Scan::Done { value: answer, used },
            StatusView::Malformed(reason) => Scan::Bad { reason, used },
            StatusView::Header(header) => value_of(
                header,
                scan_body(s.skip(used as int), header.size),
            ).shift(used),
        },
        Scan::Bad { reason, used } => Scan::Bad { reason, used },
        Scan::More => Scan::More,
    }
}

} // verus!
