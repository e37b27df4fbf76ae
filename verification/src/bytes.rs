//! Byte strings: scanning up to a delimiter, splitting into fields, prefixes.

use vstd::prelude::*;

verus! {

pub const SP: u8 = 32;

pub const TAB: u8 = 9;

pub const CR: u8 = 13;

pub const LF: u8 = 10;

/// How many bytes stand at the front of `s` before the first `a` or `b`:
/// the index of that byte, or the length of `s` where there is none.
pub open spec fn until(s: Seq<u8>, a: u8, b: u8) -> nat
    decreases s.len(),
{
    if s.len() == 0 || s[0] == a || s[0] == b {
        0
    } else {
        1 + until(s.skip(1), a, b)
    }
}

/// No byte of `s` is `a` or `b`.
pub open spec fn free_of(s: Seq<u8>, a: u8, b: u8) -> bool {
    forall|i: int| 0 <= i < s.len() ==> #[trigger] s[i] != a && s[i] != b
}

/// `until` stays inside `s`, passes over no delimiter, and stops on one unless
/// it reaches the end.
pub proof fn lemma_until(s: Seq<u8>, a: u8, b: u8)
    ensures
        until(s, a, b) <= s.len(),
        free_of(s.take(until(s, a, b) as int), a, b),
        until(s, a, b) < s.len() ==> s[until(s, a, b) as int] == a || s[until(s, a, b) as int] == b,
    decreases s.len(),
{
    if s.len() == 0 || s[0] == a || s[0] == b {
    } else {
        let rest = s.skip(1);
        lemma_until(rest, a, b);
        let n = until(rest, a, b) as int;
        assert forall|i: int| 0 <= i < n + 1 implies #[trigger] s.take(n + 1)[i] != a && s.take(
            n + 1,
        )[i] != b by {
            if i > 0 {
                assert(s.take(n + 1)[i] == rest.take(n)[i - 1]);
            }
        }
    }
}

/// A front without delimiters is passed over whole.
pub proof fn lemma_until_after(front: Seq<u8>, rest: Seq<u8>, a: u8, b: u8)
    requires
        free_of(front, a, b),
    ensures
        until(front + rest, a, b) == front.len() + until(rest, a, b),
    decreases front.len(),
{
    if front.len() > 0 {
        assert((front + rest).skip(1) =~= front.skip(1) + rest);
        lemma_until_after(front.skip(1), rest, a, b);
    }
}

/// Where `until` stops short of the end, bytes added behind change nothing.
pub proof fn lemma_until_stable(s: Seq<u8>, more: Seq<u8>, a: u8, b: u8)
    requires
        until(s, a, b) < s.len(),
    ensures
        until(s + more, a, b) == until(s, a, b),
{
    lemma_until(s, a, b);
    let n = until(s, a, b) as int;
    let front = s.take(n);
    let tail = s.skip(n) + more;
    assert(s + more =~= front + tail);
    lemma_until_after(front, tail, a, b);
}

/// Strings that hold neither of two bytes make one that holds neither.
pub proof fn lemma_free_of_both(a: Seq<u8>, b: Seq<u8>, x: u8, y: u8)
    requires
        free_of(a, x, y),
        free_of(b, x, y),
    ensures
        free_of(a + b, x, y),
{
}

/// The fields of `s`: the stretches between one `sep` and the next. A string
/// with n separators has n + 1 fields, some of them empty where separators
/// touch or stand at an end.
pub open spec fn split(s: Seq<u8>, sep: u8) -> Seq<Seq<u8>>
    decreases s.len(),
{
    let n = until(s, sep, sep) as int;
    if n >= s.len() {
        seq![s]
    } else {
        seq![s.take(n)] + split(s.skip(n + 1), sep)
    }
}

/// A string without separators is its own single field.
pub proof fn lemma_split_whole(s: Seq<u8>, sep: u8)
    requires
        free_of(s, sep, sep),
    ensures
        split(s, sep) == seq![s],
{
    lemma_until_after(s, Seq::<u8>::empty(), sep, sep);
}

/// A front without separators, then a separator: the front is the first
/// field, and the others are those of what follows the separator.
pub proof fn lemma_split_front(front: Seq<u8>, rest: Seq<u8>, sep: u8)
    requires
        free_of(front, sep, sep),
    ensures
        split(front + seq![sep] + rest, sep) == seq![front] + split(rest, sep),
{
    let s = front + seq![sep] + rest;
    let tail = seq![sep] + rest;
    assert(s =~= front + tail);
    lemma_until_after(front, tail, sep, sep);
    assert(s.take(front.len() as int) =~= front);
    assert(s.skip(front.len() as int + 1) =~= rest);
}

/// The index of the first `sep` at or after `from`, or the length of `line`.
fn find(line: &[u8], from: usize, sep: u8) -> (at: usize)
    requires
        from <= line@.len(),
    ensures
        at == from + until(line@.skip(from as int), sep, sep),
        from <= at <= line@.len(),
{
    let mut at: usize = from;
    while at < line.len() && line[at] != sep
        invariant
            from <= at <= line@.len(),
            free_of(line@.subrange(from as int, at as int), sep, sep),
        decreases line@.len() - at,
    {
        at = at + 1;
    }
    proof {
        let front = line@.subrange(from as int, at as int);
        let tail = line@.skip(at as int);
        assert(line@.skip(from as int) =~= front + tail);
        lemma_until_after(front, tail, sep, sep);
    }
    at
}

/// A copy of `line[from..to]`.
pub fn copy_range(line: &[u8], from: usize, to: usize) -> (out: Vec<u8>)
    requires
        from <= to <= line@.len(),
    ensures
        out@ == line@.subrange(from as int, to as int),
{
    let mut out: Vec<u8> = Vec::new();
    let mut i: usize = from;
    while i < to
        invariant
            from <= i <= to <= line@.len(),
            out@ == line@.subrange(from as int, i as int),
        decreases to - i,
    {
        out.push(line[i]);
        i = i + 1;
    }
    out
}

/// The views of the byte strings in `fields`.
pub open spec fn views(fields: Seq<Vec<u8>>) -> Seq<Seq<u8>> {
    fields.map_values(|field: Vec<u8>| field@)
}

/// Cuts `line` at every `sep`.
pub fn split_fields(line: &[u8], sep: u8) -> (fields: Vec<Vec<u8>>)
    ensures
        views(fields@) == split(line@, sep),
{
    let mut fields: Vec<Vec<u8>> = Vec::new();
    let mut from: usize = 0;
    assert(line@.skip(0) =~= line@);
    loop
        invariant
            from <= line@.len(),
            split(line@, sep) == views(fields@) + split(line@.skip(from as int), sep),
        decreases line@.len() - from,
    {
        let at: usize = find(line, from, sep);
        let field: Vec<u8> = copy_range(line, from, at);
        let ghost before = views(fields@);
        fields.push(field);
        assert(line@.skip(from as int).take(at - from) =~= field@);
        if at >= line.len() {
            return fields;
        }
        assert(line@.skip(from as int).skip(at - from + 1) =~= line@.skip(at + 1));
        from = at + 1;
    }
}

/// Whether `line` begins with `prefix`.
pub fn starts_with(line: &[u8], prefix: &[u8]) -> (yes: bool)
    ensures
        yes == prefix@.is_prefix_of(line@),
{
    if prefix.len() > line.len() {
        return false;
    }
    let mut i: usize = 0;
    while i < prefix.len()
        invariant
            i <= prefix.len() <= line.len(),
            forall|k: int| 0 <= k < i ==> line@[k] == prefix@[k],
        decreases prefix.len() - i,
    {
        if line[i] != prefix[i] {
            return false;
        }
        i = i + 1;
    }
    true
}

/// Whether the two byte strings are the same.
pub fn same_bytes(left: &[u8], right: &[u8]) -> (yes: bool)
    ensures
        yes == (left@ == right@),
{
    if left.len() != right.len() {
        return false;
    }
    let yes: bool = starts_with(left, right);
    assert(left@.subrange(0, left@.len() as int) =~= left@);
    yes
}

} // verus!
