//! How the parts of a reply follow one another in the stream: what was read
//! whole reads the same with more bytes behind it, and a reply reads as its
//! parts do.

use vstd::prelude::*;
use crate::bytes::{
    free_of, lemma_until, lemma_until_after, lemma_until_stable, until, CR, LF,
};
use crate::grammar::{
    scan_body, scan_end, scan_line, scan_newline, scan_reply, status, value_of, Scan, StatusView,
};
use crate::types::ResponseView;

verus! {

/// The two line ends that the parser takes.
pub open spec fn is_line_end(end: Seq<u8>) -> bool {
    end == seq![LF] || end == seq![CR, LF]
}

/// A line is read back whole: bytes without `\r` and `\n`, then a line end,
/// read as those bytes, whatever comes behind.
pub proof fn lemma_line_is_read_back(line: Seq<u8>, end: Seq<u8>, rest: Seq<u8>)
    requires
        free_of(line, CR, LF),
        is_line_end(end),
    ensures
        scan_line(line + end + rest) == (Scan::Done { value: line, used: line.len() + end.len() }),
{
    reveal(scan_line);
    let s = line + end + rest;
    let tail = end + rest;
    assert(s =~= line + tail);
    lemma_until_after(line, tail, CR, LF);
    assert(s.take(line.len() as int) =~= line);
}

/// A line end that was read whole reads the same with more bytes behind it.
pub proof fn lemma_newline_stable(s: Seq<u8>, more: Seq<u8>)
    requires
        !(scan_newline(s) is More),
    ensures
        scan_newline(s + more) == scan_newline(s),
        scan_newline(s) matches Scan::Done { used, .. } ==> used <= s.len(),
        scan_newline(s) matches Scan::Bad { used, .. } ==> used <= s.len(),
{
}

/// A line that was read whole reads the same with more bytes behind it.
pub proof fn lemma_line_stable(s: Seq<u8>, more: Seq<u8>)
    requires
        !(scan_line(s) is More),
    ensures
        scan_line(s + more) == scan_line(s),
        scan_line(s) matches Scan::Done { used, .. } ==> used <= s.len(),
        scan_line(s) matches Scan::Bad { used, .. } ==> used <= s.len(),
{
    reveal(scan_line);
    let n = until(s, CR, LF) as int;
    lemma_until_stable(s, more, CR, LF);
    lemma_newline_stable(s.skip(n), more);
    assert((s + more).take(n) =~= s.take(n));
}

/// The closing line, once read whole, reads the same with more bytes behind it.
pub proof fn lemma_end_stable(s: Seq<u8>, more: Seq<u8>)
    requires
        !(scan_end(s) is More),
    ensures
        scan_end(s + more) == scan_end(s),
        scan_end(s) matches Scan::Done { used, .. } ==> used <= s.len(),
        scan_end(s) matches Scan::Bad { used, .. } ==> used <= s.len(),
{
    reveal(scan_end);
    lemma_line_stable(s, more);
}

/// What follows a `VALUE` line, once read whole, reads the same with more
/// bytes behind it.
pub proof fn lemma_body_stable(s: Seq<u8>, size: nat, more: Seq<u8>)
    requires
        !(scan_body(s, size) is More),
    ensures
        scan_body(s + more, size) == scan_body(s, size),
        scan_body(s, size) matches Scan::Done { used, .. } ==> used <= s.len(),
        scan_body(s, size) matches Scan::Bad { used, .. } ==> used <= s.len(),
{
    reveal(scan_body);
    let t = s + more;
    let k = size as int;
    assert(t.take(k) =~= s.take(k));
    lemma_newline_stable(s.skip(k), more);
    if let Scan::Done { used, .. } = scan_newline(s.skip(k)) {
        let j = (size + used) as int;
        assert(t.skip(j) =~= s.skip(j) + more);
        lemma_end_stable(s.skip(j), more);
    }
}

/// A reply that was read whole reads the same with more bytes behind it: the
/// parser looks at one reply and at nothing after it.
pub proof fn lemma_reply_stable(s: Seq<u8>, more: Seq<u8>)
    requires
        !(scan_reply(s) is More),
    ensures
        scan_reply(s + more) == scan_reply(s),
        scan_reply(s) matches Scan::Done { used, .. } ==> used <= s.len(),
        scan_reply(s) matches Scan::Bad { used, .. } ==> used <= s.len(),
{
    reveal(scan_reply);
    lemma_line_stable(s, more);
    if let Scan::Done { value: line, used } = scan_line(s) {
        if let StatusView::Header(header) = status(line) {
            assert((s + more).skip(used as int) =~= s.skip(used as int) + more);
            lemma_body_stable(s.skip(used as int), header.size, more);
        }
    }
}

/// A reply that was read whole at the front of `s` is what `s` reads as.
pub proof fn lemma_reply_at_front(front: Seq<u8>, s: Seq<u8>)
    requires
        front.is_prefix_of(s),
        !(scan_reply(front) is More),
    ensures
        scan_reply(s) == scan_reply(front),
{
    let rest = s.skip(front.len() as int);
    assert(front + rest =~= s);
    lemma_reply_stable(front, rest);
}

/// No bytes are no reply yet.
pub proof fn lemma_reply_wants_bytes()
    ensures
        scan_reply(Seq::<u8>::empty()) is More,
{
    reveal(scan_reply);
    reveal(scan_line);
}

/// A reply whose first line did not end as a line ends as that line did.
pub proof fn lemma_reply_without_line(s: Seq<u8>)
    ensures
        scan_line(s) is More ==> scan_reply(s) is More,
        scan_line(s) matches Scan::Bad { reason, used } ==> scan_reply(s) == (Scan::<
            ResponseView,
        >::Bad { reason, used }),
{
    reveal(scan_reply);
}

/// A reply in two parts, `head` read as its first line and `rest` behind it:
/// the line decides, and where it is a `VALUE` line, `rest` is what follows
/// one.
pub proof fn lemma_reply_parts(head: Seq<u8>, rest: Seq<u8>)
    requires
        scan_line(head) is Done,
        scan_line(head).ends_at(head.len()),
    ensures
        scan_reply(head + rest) == match status(scan_line(head)->value) {
            StatusView::Reply(answer) => Scan::Done { value: answer, used: head.len() },
            StatusView::Malformed(reason) => Scan::Bad { reason, used: head.len() },
            StatusView::Header(header) => value_of(header, scan_body(rest, header.size)).shift(
                head.len(),
            ),
        },
{
    reveal(scan_reply);
    lemma_line_stable(head, rest);
    assert((head + rest).skip(head.len() as int) =~= rest);
}

/// What follows a `VALUE` line, in its three parts: the payload, the bytes
/// `newline` read as its line end, and the bytes `end` behind them.
pub proof fn lemma_body_parts(payload: Seq<u8>, newline: Seq<u8>, end: Seq<u8>)
    requires
        scan_newline(newline) is More ==> end.len() == 0,
        !(scan_newline(newline) is More) ==> scan_newline(newline).ends_at(newline.len()),
    ensures
        scan_body(payload + newline + end, payload.len()) == match scan_newline(newline) {
            Scan::Done { .. } => match scan_end(end) {
                Scan::Done { used, .. } => Scan::Done {
                    value: payload,
                    used: payload.len() + newline.len() + used,
                },
                Scan::Bad { reason, used } => Scan::Bad {
                    reason,
                    used: payload.len() + newline.len() + used,
                },
                Scan::More => Scan::More,
            },
            Scan::Bad { reason, .. } => Scan::Bad { reason, used: payload.len() + newline.len() },
            Scan::More => Scan::More,
        },
{
    reveal(scan_body);
    let s = payload + newline + end;
    let size = payload.len() as int;
    assert(s.take(size) =~= payload);
    if !(scan_newline(newline) is More) {
        lemma_newline_stable(newline, end);
        assert(s.skip(size + newline.len()) =~= end);
    }
}

/// What follows a `VALUE` line is not read whole from no more bytes than
/// the payload has: a line end is still to come.
pub proof fn lemma_body_wants(s: Seq<u8>, size: nat)
    requires
        s.len() <= size,
    ensures
        scan_body(s, size) is More,
{
    reveal(scan_body);
    if s.len() == size {
        assert(s.skip(size as int) =~= Seq::<u8>::empty());
    }
}

/// A line that was read whole is read from the bytes that it used, and
/// from no more.
pub proof fn lemma_line_front(s: Seq<u8>)
    requires
        scan_line(s) is Done,
    ensures
        scan_line(s)->Done_used <= s.len(),
        scan_line(s.take(scan_line(s)->Done_used as int)) == scan_line(s),
{
    reveal(scan_line);
    lemma_until(s, CR, LF);
    let n = until(s, CR, LF) as int;
    let used = scan_line(s)->Done_used as int;
    let line = s.take(n);
    let end = s.subrange(n, used);
    if s[n] == LF {
        assert(end =~= seq![LF]);
    } else {
        assert(s.skip(n).skip(1)[0] == s[n + 1]);
        assert(end =~= seq![CR, LF]);
    }
    lemma_line_is_read_back(line, end, Seq::<u8>::empty());
    assert(line + end + Seq::<u8>::empty() =~= s.take(used));
}

} // verus!
