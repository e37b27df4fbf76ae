//! What a status line says, decided from the line alone.

use vstd::prelude::*;
use vstd::string::StringSliceAdditionalSpecFns;
use crate::bytes::{copy_range, same_bytes, split_fields, starts_with, views, SP};
use crate::decimal::parse_number;
use crate::grammar::{
    detail, diagnostic, header, status, HeaderView, StatusView, CLIENT_ERROR, DELETED, END,
    ERROR, EXPECT_STRING, INVALID_RESPONSE, INVALID_VALUE, NOT_FOUND, NOT_STORED, SERVER_ERROR,
    STORED, VALUE,
};
use crate::text::utf8_string;
use crate::types::{Failure, FailureView, McResult, Response};

verus! {

/// What a `VALUE` line announces: whose value follows, its flag, and how many
/// bytes it has.
#[derive(Debug, Clone, PartialEq, Eq)]
pub struct Header {
    pub key: String,
    pub flag: u16,
    pub size: usize,
}

impl View for Header {
    type V = HeaderView;

    open spec fn view(&self) -> HeaderView {
        HeaderView { key: self.key@, flag: self.flag, size: self.size as nat }
    }
}

/// What a well-formed status line says.
#[derive(Debug, Clone, PartialEq, Eq)]
pub enum Status {
    /// The line is the whole reply.
    Reply(Response),
    /// A payload follows.
    Header(Header),
}

impl View for Status {
    type V = StatusView;

    open spec fn view(&self) -> StatusView {
        match *self {
            Status::Reply(answer) => StatusView::Reply(answer@),
            Status::Header(header) => StatusView::Header(header@),
        }
    }
}

/// A complaint about the reply, with the given text.
fn complaint(reason: &str) -> (failure: Failure)
    ensures
        failure@ == FailureView::ProtocolFailure(reason@),
{
    Failure::ProtocolFailure(reason.to_owned())
}

/// The server's diagnostic behind a keyword of `keyword` bytes at the front
/// of `line`, as text.
fn detail_text(line: &[u8], keyword: usize) -> (text: Option<String>)
    requires
        keyword <= line@.len(),
    ensures
        match diagnostic(detail(line@, keyword as int)) {
            Some(t) => text matches Some(s) && s@ == t,
            None => text is None,
        },
{
    let from: usize = if keyword < line.len() && line[keyword] == SP {
        keyword + 1
    } else {
        keyword
    };
    utf8_string(copy_range(line, from, line.len()))
}

/// What a line that begins with `VALUE` announces.
fn value_header(line: &[u8]) -> (r: McResult<Status>)
    ensures
        match r {
            Ok(s) => header(line@) == s@,
            Err(f) => f@ is ProtocolFailure && header(line@) == StatusView::Malformed(f@.text()),
        },
{
    let fields: Vec<Vec<u8>> = split_fields(line, SP);
    if fields.len() != 4 {
        return Err(complaint(INVALID_VALUE));
    }
    let flag: Option<usize> = parse_number(fields[2].as_slice(), 0xffff);
    let size: Option<usize> = parse_number(fields[3].as_slice(), usize::MAX);
    let key: Option<String> = utf8_string(copy_range(fields[1].as_slice(), 0, fields[1].len()));
    assert(fields@[1]@.subrange(0, fields@[1]@.len() as int) =~= fields@[1]@);
    match (key, flag, size) {
        (Some(key), Some(flag), Some(size)) => Ok(
            Status::Header(Header { key, flag: flag as u16, size }),
        ),
        _ => Err(complaint(INVALID_VALUE)),
    }
}

/// Decides what the status line `line` says. A line that begins with no
/// keyword of the protocol, a diagnostic that is not text, and a `VALUE`
/// line that is not well-formed are refused.
pub fn classify(line: &[u8]) -> (r: McResult<Status>)
    ensures
        match r {
            Ok(s) => status(line@) == s@,
            Err(f) => f@ is ProtocolFailure && status(line@) == StatusView::Malformed(f@.text()),
        },
{
    proof {
        reveal(status);
    }
    if starts_with(line, NOT_STORED.as_bytes()) {
        Ok(Status::Reply(Response::NotStored))
    } else if starts_with(line, STORED.as_bytes()) {
        Ok(Status::Reply(Response::Stored))
    } else if starts_with(line, NOT_FOUND.as_bytes()) {
        Ok(Status::Reply(Response::NotFound))
    } else if starts_with(line, DELETED.as_bytes()) {
        Ok(Status::Reply(Response::Deleted))
    } else if same_bytes(line, ERROR.as_bytes()) {
        Ok(Status::Reply(Response::InvalidCommand))
    } else if same_bytes(line, END.as_bytes()) {
        Ok(Status::Reply(Response::NotFound))
    } else if starts_with(line, CLIENT_ERROR.as_bytes()) {
        match detail_text(line, CLIENT_ERROR.as_bytes().len()) {
            Some(text) => Ok(Status::Reply(Response::ClientErrorMsg(text))),
            None => Err(complaint(EXPECT_STRING)),
        }
    } else if starts_with(line, SERVER_ERROR.as_bytes()) {
        match detail_text(line, SERVER_ERROR.as_bytes().len()) {
            Some(text) => Ok(Status::Reply(Response::ServerErrorMsg(text))),
            None => Err(complaint(EXPECT_STRING)),
        }
    } else if starts_with(line, VALUE.as_bytes()) {
        value_header(line)
    } else {
        Err(complaint(INVALID_RESPONSE))
    }
}

} // verus!
