//! The requests of the protocol, and the encoders that build them.

use vstd::prelude::*;
use vstd::string::StringSliceAdditionalSpecFns;
use vstd::utf8::encode_utf8;
use crate::bytes::{CR, LF, SP};
use crate::decimal::{decimal, push_decimal};
use crate::types::{Failure, FailureView, McResult};

verus! {

pub const GET: &'static str = "get";

pub const SET: &'static str = "set";

pub const DELETE: &'static str = "delete";

/// What is said of a key that cannot be put on the wire.
pub const INVALID_KEY: &'static str = "invalid key";

/// A character that would end a key on the wire, or the line it stands in.
pub open spec fn breaks_key(c: char) -> bool {
    c == ' ' || c == '\t' || c == '\r' || c == '\n'
}

/// A key that can be put on the wire: it holds no space, tab, carriage
/// return or line feed.
pub open spec fn valid_key(key: Seq<char>) -> bool {
    forall|i: int| 0 <= i < key.len() ==> !breaks_key(#[trigger] key[i])
}

/// `get <key>\r\n`
pub open spec fn get_request(key: Seq<char>) -> Seq<u8> {
    GET.spec_bytes() + seq![SP] + encode_utf8(key) + seq![CR, LF]
}

/// The first line of a request to store `size` bytes: `set <key> <flag>
/// <expire> <size>`, the numbers in decimal.
pub open spec fn set_line(key: Seq<char>, flag: u16, expire: nat, size: nat) -> Seq<u8> {
    SET.spec_bytes() + seq![SP] + encode_utf8(key) + seq![SP] + decimal(flag as nat) + seq![SP]
        + decimal(expire) + seq![SP] + decimal(size)
}

/// `set <key> <flag> <expire> <length of data>\r\n<data>\r\n`. The length
/// is the count of the bytes of `data`, whatever they are.
pub open spec fn set_request(key: Seq<char>, flag: u16, expire: nat, data: Seq<u8>) -> Seq<u8> {
    set_line(key, flag, expire, data.len()) + seq![CR, LF] + data + seq![CR, LF]
}

/// `delete <key> 0\r\n`; the `0` is the time argument that older servers ask
/// for.
pub open spec fn delete_request(key: Seq<char>) -> Seq<u8> {
    DELETE.spec_bytes() + seq![SP] + encode_utf8(key) + seq![SP] + decimal(0) + seq![CR, LF]
}

/// The refusal of a key that is not valid.
pub open spec fn invalid_key() -> FailureView {
    FailureView::ValidationFailure(INVALID_KEY@)
}

/// Whether `key` can be put on the wire.
pub fn check_key(key: &str) -> (r: McResult<()>)
    ensures
        valid_key(key@) ==> r is Ok,
        !valid_key(key@) ==> (r matches Err(f) && f@ == invalid_key()),
{
    broadcast use vstd::string::axiom_spec_iter;

    for c in it: key.chars()
        invariant
            it.seq() == key@,
            forall|i: int| 0 <= i < it.index() ==> !breaks_key(#[trigger] key@[i]),
    {
        if c == ' ' || c == '\t' || c == '\r' || c == '\n' {
            return Err(Failure::ValidationFailure(INVALID_KEY.to_owned()));
        }
    }
    Ok(())
}

/// Appends `bytes` to `out`.
fn append(out: &mut Vec<u8>, bytes: &[u8])
    ensures
        final(out)@ == old(out)@ + bytes@,
{
    out.extend_from_slice(bytes);
}

/// The request that fetches `key`. A key that is not valid is refused, and
/// nothing is built.
pub fn encode_get(key: &str) -> (r: McResult<Vec<u8>>)
    ensures
        valid_key(key@) ==> (r matches Ok(request) && request@ == get_request(key@)),
        !valid_key(key@) ==> (r matches Err(f) && f@ == invalid_key()),
{
    match check_key(key) {
        Ok(_) => {},
        Err(f) => {
            return Err(f);
        },
    }
    let mut out: Vec<u8> = Vec::new();
    append(&mut out, GET.as_bytes());
    out.push(SP);
    append(&mut out, key.as_bytes());
    out.push(CR);
    out.push(LF);
    Ok(out)
}

/// The request that stores `data` under `key`, with the tag `flag`, to
/// expire after `expire` seconds. A key that is not valid is refused, and
/// nothing is built.
pub fn encode_set(key: &str, flag: u16, expire: usize, data: &[u8]) -> (r: McResult<Vec<u8>>)
    ensures
        valid_key(key@) ==> (r matches Ok(request) && request@ == set_request(
            key@,
            flag,
            expire as nat,
            data@,
        )),
        !valid_key(key@) ==> (r matches Err(f) && f@ == invalid_key()),
{
    match check_key(key) {
        Ok(_) => {},
        Err(f) => {
            return Err(f);
        },
    }
    let mut out: Vec<u8> = Vec::new();
    append(&mut out, SET.as_bytes());
    out.push(SP);
    append(&mut out, key.as_bytes());
    out.push(SP);
    push_decimal(&mut out, flag as usize);
    out.push(SP);
    push_decimal(&mut out, expire);
    out.push(SP);
    push_decimal(&mut out, data.len());
    out.push(CR);
    out.push(LF);
    append(&mut out, data);
    out.push(CR);
    out.push(LF);
    Ok(out)
}

/// The request that removes `key`. A key that is not valid is refused, and
/// nothing is built.
pub fn encode_delete(key: &str) -> (r: McResult<Vec<u8>>)
    ensures
        valid_key(key@) ==> (r matches Ok(request) && request@ == delete_request(key@)),
        !valid_key(key@) ==> (r matches Err(f) && f@ == invalid_key()),
{
    match check_key(key) {
        Ok(_) => {},
        Err(f) => {
            return Err(f);
        },
    }
    let mut out: Vec<u8> = Vec::new();
    append(&mut out, DELETE.as_bytes());
    out.push(SP);
    append(&mut out, key.as_bytes());
    out.push(SP);
    push_decimal(&mut out, 0);
    out.push(CR);
    out.push(LF);
    Ok(out)
}

} // verus!
