//! What replies read as: the rows of the status table one by one, and how
//! the bytes of a value are read back.

use vstd::prelude::*;
use vstd::string::StringSliceAdditionalSpecFns;
use vstd::utf8::{decode_utf8, valid_utf8};
use crate::bytes::{
    free_of, lemma_free_of_both, lemma_split_front, lemma_split_whole, split, CR, LF, SP,
};
use crate::decimal::{decimal, lemma_decimal_reads_back, lemma_digits_are_plain};
use crate::grammar::{
    detail, diagnostic, header, scan_end, scan_reply, status, HeaderView, Scan, StatusView,
    CLIENT_ERROR, DELETED, END, ERROR, EXPECTED_END, EXPECT_STRING, INVALID_RESPONSE,
    INVALID_VALUE, NOT_FOUND, NOT_STORED, SERVER_ERROR, STORED, VALUE,
};
use crate::laws::framing::{
    is_line_end, lemma_body_parts, lemma_line_is_read_back, lemma_reply_parts,
};
use crate::laws::words::lemma_keywords;
use crate::types::{ItemView, ResponseView};

verus! {

/// A string and its front hold the same bytes as far as the front goes.
proof fn lemma_byte_of_front(front: Seq<u8>, s: Seq<u8>, i: int)
    requires
        0 <= i < front.len(),
    ensures
        front.is_prefix_of(s) ==> s[i] == front[i],
{
}

/// The status table, row by row. No two keywords can both stand at the
/// front of one line, so each row holds by itself, whatever the order in
/// which the rows are tried.
pub proof fn lemma_status_table(line: Seq<u8>)
    ensures
        STORED.spec_bytes().is_prefix_of(line) ==> status(line) == StatusView::Reply(
            ResponseView::Stored,
        ),
        NOT_STORED.spec_bytes().is_prefix_of(line) ==> status(line) == StatusView::Reply(
            ResponseView::NotStored,
        ),
        DELETED.spec_bytes().is_prefix_of(line) ==> status(line) == StatusView::Reply(
            ResponseView::Deleted,
        ),
        NOT_FOUND.spec_bytes().is_prefix_of(line) ==> status(line) == StatusView::Reply(
            ResponseView::NotFound,
        ),
        line == ERROR.spec_bytes() ==> status(line) == StatusView::Reply(
            ResponseView::InvalidCommand,
        ),
        line == END.spec_bytes() ==> status(line) == StatusView::Reply(ResponseView::NotFound),
        CLIENT_ERROR.spec_bytes().is_prefix_of(line) ==> status(line) == match diagnostic(
            detail(line, CLIENT_ERROR.spec_bytes().len() as int),
        ) {
            Some(text) => StatusView::Reply(ResponseView::ClientErrorMsg(text)),
            None => StatusView::Malformed(EXPECT_STRING@),
        },
        SERVER_ERROR.spec_bytes().is_prefix_of(line) ==> status(line) == match diagnostic(
            detail(line, SERVER_ERROR.spec_bytes().len() as int),
        ) {
            Some(text) => StatusView::Reply(ResponseView::ServerErrorMsg(text)),
            None => StatusView::Malformed(EXPECT_STRING@),
        },
        VALUE.spec_bytes().is_prefix_of(line) ==> status(line) == header(line),
        !STORED.spec_bytes().is_prefix_of(line) && !NOT_STORED.spec_bytes().is_prefix_of(line)
            && !DELETED.spec_bytes().is_prefix_of(line) && !NOT_FOUND.spec_bytes().is_prefix_of(
            line,
        ) && line != ERROR.spec_bytes() && line != END.spec_bytes()
            && !CLIENT_ERROR.spec_bytes().is_prefix_of(line)
            && !SERVER_ERROR.spec_bytes().is_prefix_of(line) && !VALUE.spec_bytes().is_prefix_of(
            line,
        ) ==> status(line) == StatusView::Malformed(INVALID_RESPONSE@),
{
    reveal(status);
    lemma_keywords();
    if line.len() > 0 {
        lemma_byte_of_front(STORED.spec_bytes(), line, 0);
        lemma_byte_of_front(NOT_STORED.spec_bytes(), line, 0);
        lemma_byte_of_front(DELETED.spec_bytes(), line, 0);
        lemma_byte_of_front(NOT_FOUND.spec_bytes(), line, 0);
        lemma_byte_of_front(CLIENT_ERROR.spec_bytes(), line, 0);
        lemma_byte_of_front(SERVER_ERROR.spec_bytes(), line, 0);
        lemma_byte_of_front(VALUE.spec_bytes(), line, 0);
        if NOT_STORED.spec_bytes().is_prefix_of(line) || NOT_FOUND.spec_bytes().is_prefix_of(line) {
            lemma_byte_of_front(NOT_STORED.spec_bytes(), line, 4);
            lemma_byte_of_front(NOT_FOUND.spec_bytes(), line, 4);
        }
        if STORED.spec_bytes().is_prefix_of(line) || SERVER_ERROR.spec_bytes().is_prefix_of(line) {
            assert(line[1] == STORED.spec_bytes()[1] || line[1] == SERVER_ERROR.spec_bytes()[1])
                by {
                lemma_byte_of_front(STORED.spec_bytes(), line, 1);
                lemma_byte_of_front(SERVER_ERROR.spec_bytes(), line, 1);
            }
        }
    }
}

/// A reply of one line: where the status line is no `VALUE` line, it is the
/// whole reply, and the reply is what the line says.
pub proof fn lemma_one_line_reply(line: Seq<u8>, end: Seq<u8>, rest: Seq<u8>)
    requires
        free_of(line, CR, LF),
        is_line_end(end),
    ensures
        status(line) matches StatusView::Reply(answer) ==> scan_reply(line + end + rest) == (
        Scan::Done { value: answer, used: line.len() + end.len() }),
        status(line) matches StatusView::Malformed(reason) ==> scan_reply(line + end + rest) == (
        Scan::<ResponseView>::Bad { reason, used: line.len() + end.len() }),
{
    lemma_line_is_read_back(line, end, Seq::<u8>::empty());
    lemma_reply_parts(line + end, rest);
}

/// A `VALUE` line that has not four fields is refused, and so is the reply:
/// no value comes of it.
pub proof fn lemma_short_value_line(line: Seq<u8>, end: Seq<u8>, rest: Seq<u8>)
    requires
        free_of(line, CR, LF),
        is_line_end(end),
        VALUE.spec_bytes().is_prefix_of(line),
        split(line, SP).len() != 4,
    ensures
        scan_reply(line + end + rest) == (Scan::<ResponseView>::Bad {
            reason: INVALID_VALUE@,
            used: line.len() + end.len(),
        }),
{
    lemma_status_table(line);
    lemma_one_line_reply(line, end, rest);
}

/// The bytes of a `VALUE` line for `key`, `flag` and a payload of `size`
/// bytes.
pub open spec fn value_line(key: Seq<u8>, flag: u16, size: nat) -> Seq<u8> {
    VALUE.spec_bytes() + seq![SP] + key + seq![SP] + decimal(flag as nat) + seq![SP] + decimal(
        size,
    )
}

/// The bytes of the reply that hands back `value`, stored under `key` with
/// `flag`, as a server writes it.
pub open spec fn value_reply(key: Seq<u8>, flag: u16, value: Seq<u8>) -> Seq<u8> {
    value_line(key, flag, value.len()) + seq![CR, LF] + value + seq![CR, LF] + END.spec_bytes()
        + seq![CR, LF]
}

/// The keyword `VALUE` holds neither a space nor a line end.
proof fn lemma_value_word_is_plain()
    ensures
        free_of(VALUE.spec_bytes(), SP, SP),
        free_of(VALUE.spec_bytes(), CR, LF),
{
    lemma_keywords();
}

/// The fields of a `VALUE` line are the four that it was written from.
proof fn lemma_value_line_fields(key: Seq<u8>, flag: u16, size: nat)
    requires
        free_of(key, SP, SP),
    ensures
        split(value_line(key, flag, size), SP) == seq![
            VALUE.spec_bytes(),
            key,
            decimal(flag as nat),
            decimal(size),
        ],
{
    let word = VALUE.spec_bytes();
    let tag = decimal(flag as nat);
    let count = decimal(size);
    let after_key = tag + seq![SP] + count;
    let after_word = key + seq![SP] + after_key;
    lemma_value_word_is_plain();
    lemma_decimal_reads_back(flag as nat);
    lemma_decimal_reads_back(size);
    lemma_digits_are_plain(tag);
    lemma_digits_are_plain(count);
    assert(value_line(key, flag, size) =~= word + seq![SP] + after_word);
    lemma_split_front(word, after_word, SP);
    lemma_split_front(key, after_key, SP);
    lemma_split_front(tag, count, SP);
    lemma_split_whole(count, SP);
}

/// A `VALUE` line written for a key without line ends holds none.
proof fn lemma_value_line_is_plain(key: Seq<u8>, flag: u16, size: nat)
    requires
        free_of(key, CR, LF),
    ensures
        free_of(value_line(key, flag, size), CR, LF),
{
    let word = VALUE.spec_bytes();
    let tag = decimal(flag as nat);
    let count = decimal(size);
    let sp = seq![SP];
    lemma_value_word_is_plain();
    lemma_decimal_reads_back(flag as nat);
    lemma_decimal_reads_back(size);
    lemma_digits_are_plain(tag);
    lemma_digits_are_plain(count);
    lemma_free_of_both(word, sp, CR, LF);
    lemma_free_of_both(word + sp, key, CR, LF);
    lemma_free_of_both(word + sp + key, sp, CR, LF);
    lemma_free_of_both(word + sp + key + sp, tag, CR, LF);
    lemma_free_of_both(word + sp + key + sp + tag, sp, CR, LF);
    lemma_free_of_both(word + sp + key + sp + tag + sp, count, CR, LF);
}

/// A `VALUE` line is read as what it was written for.
pub proof fn lemma_value_line(key: Seq<u8>, flag: u16, size: nat)
    requires
        valid_utf8(key),
        free_of(key, SP, SP),
        size <= usize::MAX,
    ensures
        status(value_line(key, flag, size)) == StatusView::Header(
            HeaderView { key: decode_utf8(key), flag, size },
        ),
{
    let line = value_line(key, flag, size);
    assert(status(line) == header(line)) by {
        lemma_status_table(line);
    }
    lemma_value_line_fields(key, flag, size);
    lemma_decimal_reads_back(flag as nat);
    lemma_decimal_reads_back(size);
}

/// A value is read back whole: the reply that a server writes for `value`
/// reads as that value, byte for byte, whatever bytes it holds, line ends
/// among them, and whatever comes behind the reply.
pub proof fn lemma_value_is_read_back(key: Seq<u8>, flag: u16, value: Seq<u8>, rest: Seq<u8>)
    requires
        valid_utf8(key),
        free_of(key, SP, SP),
        free_of(key, CR, LF),
        value.len() <= usize::MAX,
    ensures
        scan_reply(value_reply(key, flag, value) + rest) == (Scan::Done {
            value: ResponseView::Value(ItemView { key: decode_utf8(key), flag, value }),
            used: value_reply(key, flag, value).len(),
        }),
{
    let line = value_line(key, flag, value.len());
    let end = seq![CR, LF];
    let head = line + end;
    let closing = END.spec_bytes() + end + rest;
    let body = value + end + closing;
    lemma_value_line(key, flag, value.len());
    lemma_value_line_is_plain(key, flag, value.len());
    lemma_line_is_read_back(line, end, Seq::<u8>::empty());
    lemma_reply_parts(head, body);
    assert(head + body =~= value_reply(key, flag, value) + rest);
    lemma_keywords();
    assert(scan_end(closing) == (Scan::Done { value: (), used: END.spec_bytes().len() + 2 })) by {
        reveal(scan_end);
        lemma_line_is_read_back(END.spec_bytes(), end, rest);
    }
    lemma_body_parts(value, end, closing);
}

/// A value that is not closed by `END` is refused: where another line
/// stands behind the payload, the reply is no value.
pub proof fn lemma_missing_end(
    line: Seq<u8>,
    value: Seq<u8>,
    closing: Seq<u8>,
    end: Seq<u8>,
    rest: Seq<u8>,
)
    requires
        free_of(line, CR, LF),
        free_of(closing, CR, LF),
        is_line_end(end),
        status(line) matches StatusView::Header(header) && header.size == value.len(),
        closing != END.spec_bytes(),
    ensures
        scan_reply(line + end + value + end + closing + end + rest) == (Scan::<
            ResponseView,
        >::Bad {
            reason: EXPECTED_END@,
            used: line.len() + value.len() + closing.len() + 3 * end.len(),
        }),
{
    let head = line + end;
    let last = closing + end + rest;
    let body = value + end + last;
    lemma_line_is_read_back(line, end, Seq::<u8>::empty());
    lemma_reply_parts(head, body);
    assert(head + body =~= line + end + value + end + closing + end + rest);
    assert(scan_end(last) == (Scan::<()>::Bad {
        reason: EXPECTED_END@,
        used: closing.len() + end.len(),
    })) by {
        reveal(scan_end);
        lemma_line_is_read_back(closing, end, rest);
    }
    lemma_body_parts(value, end, last);
}

} // verus!
