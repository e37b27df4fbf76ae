//! What requests read as: a valid key is written so that the request is the
//! one line that was meant, and its key the one field.

use vstd::prelude::*;
use vstd::string::StringSliceAdditionalSpecFns;
use vstd::utf8::{
    char_u32_cast, encode_scalar, encode_utf8, encode_utf8_decode_utf8, encode_utf8_valid_utf8,
    has_width_1_encoding,
};
use crate::bytes::{
    free_of, lemma_free_of_both, lemma_split_front, lemma_split_whole, split, CR, LF, SP, TAB,
};
use crate::command::{
    breaks_key, delete_request, get_request, set_line, set_request, valid_key, DELETE, GET, SET,
};
use crate::decimal::{decimal, lemma_decimal_reads_back, lemma_digits_are_plain, number};
use crate::grammar::{scan_line, scan_reply, Scan};
use crate::laws::framing::lemma_line_is_read_back;
use crate::laws::replies::{lemma_value_is_read_back, value_reply};
use crate::laws::words::lemma_command_words;
use crate::types::{ItemView, ResponseView};

verus! {

/// A byte built on a high bit is no one-byte character.
proof fn lemma_high_bytes(x: u8)
    ensures
        0xC0u8 | x >= 0x80,
        0xE0u8 | x >= 0x80,
        0xF0u8 | x >= 0x80,
        0x80u8 | x >= 0x80,
{
    assert(0xC0u8 | x >= 0x80) by (bit_vector);
    assert(0xE0u8 | x >= 0x80) by (bit_vector);
    assert(0xF0u8 | x >= 0x80) by (bit_vector);
    assert(0x80u8 | x >= 0x80) by (bit_vector);
}

/// The bytes of one character: its own number where that is below 128, and
/// bytes from 128 up otherwise.
proof fn lemma_char_bytes(c: char)
    ensures
        forall|i: int|
            0 <= i < encode_scalar(c as u32).len() ==> (#[trigger] encode_scalar(c as u32)[i])
                >= 0x80 || encode_scalar(c as u32)[i] == c as u32,
{
    let v = c as u32;
    if has_width_1_encoding(v) {
        assert((v & 0x7F) as u8 == v) by (bit_vector)
            requires
                v <= 0x7F,
        ;
    } else {
        lemma_high_bytes(((v >> 6) & 0x1F) as u8);
        lemma_high_bytes(((v >> 12) & 0x0F) as u8);
        lemma_high_bytes(((v >> 18) & 0x7) as u8);
        lemma_high_bytes((v & 0x3F) as u8);
        lemma_high_bytes(((v >> 6) & 0x3F) as u8);
        lemma_high_bytes(((v >> 12) & 0x3F) as u8);
    }
}

/// A valid key is written without a space, a tab or a line end among its
/// bytes: what the key must not hold as characters, its encoding does not
/// hold as bytes.
pub proof fn lemma_key_bytes(key: Seq<char>)
    requires
        valid_key(key),
    ensures
        free_of(encode_utf8(key), SP, TAB),
        free_of(encode_utf8(key), SP, SP),
        free_of(encode_utf8(key), CR, LF),
    decreases key.len(),
{
    if key.len() > 0 {
        let first = encode_scalar(key[0] as u32);
        let rest = encode_utf8(key.drop_first());
        lemma_key_bytes(key.drop_first());
        lemma_char_bytes(key[0]);
        char_u32_cast(key[0], key[0] as u32);
        assert forall|i: int| 0 <= i < encode_utf8(key).len() implies {
            let b = #[trigger] encode_utf8(key)[i];
            b != SP && b != TAB && b != CR && b != LF
        } by {
            if i >= first.len() {
                assert(free_of(rest, SP, TAB));
            }
        }
    }
}

/// A fetch is one line of two fields, the second the key as it was given:
/// a valid key cannot end the line early, nor pass for two fields.
pub proof fn lemma_get_is_one_line(key: Seq<char>, rest: Seq<u8>)
    requires
        valid_key(key),
    ensures
        scan_line(get_request(key) + rest) == (Scan::Done {
            value: GET.spec_bytes() + seq![SP] + encode_utf8(key),
            used: get_request(key).len(),
        }),
        split(GET.spec_bytes() + seq![SP] + encode_utf8(key), SP) == seq![
            GET.spec_bytes(),
            encode_utf8(key),
        ],
{
    let word = GET.spec_bytes();
    let name = encode_utf8(key);
    let sp = seq![SP];
    lemma_command_words();
    lemma_key_bytes(key);
    lemma_free_of_both(word, sp, CR, LF);
    lemma_free_of_both(word + sp, name, CR, LF);
    lemma_line_is_read_back(word + sp + name, seq![CR, LF], rest);
    lemma_split_front(word, name, SP);
    lemma_split_whole(name, SP);
}

/// A removal is one line of three fields, the second the key as it was
/// given.
pub proof fn lemma_delete_is_one_line(key: Seq<char>, rest: Seq<u8>)
    requires
        valid_key(key),
    ensures
        scan_line(delete_request(key) + rest) == (Scan::Done {
            value: DELETE.spec_bytes() + seq![SP] + encode_utf8(key) + seq![SP] + decimal(0),
            used: delete_request(key).len(),
        }),
        split(DELETE.spec_bytes() + seq![SP] + encode_utf8(key) + seq![SP] + decimal(0), SP)
            == seq![DELETE.spec_bytes(), encode_utf8(key), decimal(0)],
{
    let word = DELETE.spec_bytes();
    let name = encode_utf8(key);
    let time = decimal(0);
    let sp = seq![SP];
    lemma_command_words();
    lemma_key_bytes(key);
    lemma_decimal_reads_back(0);
    lemma_digits_are_plain(time);
    lemma_free_of_both(word, sp, CR, LF);
    lemma_free_of_both(word + sp, name, CR, LF);
    lemma_free_of_both(word + sp + name, sp, CR, LF);
    lemma_free_of_both(word + sp + name + sp, time, CR, LF);
    lemma_line_is_read_back(word + sp + name + sp + time, seq![CR, LF], rest);
    assert(word + sp + name + sp + time =~= word + sp + (name + sp + time));
    lemma_split_front(word, name + sp + time, SP);
    lemma_split_front(name, time, SP);
    lemma_split_whole(time, SP);
}

/// A store is one line of five fields and then the data: the second field
/// is the key as it was given, and the last reads back as the count of the
/// bytes of the data, whatever they are.
pub proof fn lemma_set_is_line_and_data(
    key: Seq<char>,
    flag: u16,
    expire: nat,
    data: Seq<u8>,
    rest: Seq<u8>,
)
    requires
        valid_key(key),
    ensures
        scan_line(set_request(key, flag, expire, data) + rest) == (Scan::Done {
            value: set_line(key, flag, expire, data.len()),
            used: set_line(key, flag, expire, data.len()).len() + 2,
        }),
        split(set_line(key, flag, expire, data.len()), SP) == seq![
            SET.spec_bytes(),
            encode_utf8(key),
            decimal(flag as nat),
            decimal(expire),
            decimal(data.len()),
        ],
        number(decimal(data.len()), data.len()) == Some(data.len()),
{
    let word = SET.spec_bytes();
    let name = encode_utf8(key);
    let tag = decimal(flag as nat);
    let time = decimal(expire);
    let count = decimal(data.len());
    let sp = seq![SP];
    let line = set_line(key, flag, expire, data.len());
    lemma_command_words();
    lemma_key_bytes(key);
    lemma_decimal_reads_back(flag as nat);
    lemma_decimal_reads_back(expire);
    lemma_decimal_reads_back(data.len());
    lemma_digits_are_plain(tag);
    lemma_digits_are_plain(time);
    lemma_digits_are_plain(count);
    assert(set_request(key, flag, expire, data) + rest =~= line + seq![CR, LF] + (data + seq![
        CR,
        LF,
    ] + rest));
    lemma_line_is_read_back(line, seq![CR, LF], data + seq![CR, LF] + rest);
    assert(split(line, SP) =~= seq![word, name, tag, time, count]) by {
        let after_time = count;
        let after_tag = time + sp + after_time;
        let after_name = tag + sp + after_tag;
        let after_word = name + sp + after_name;
        assert(line =~= word + sp + after_word);
        lemma_split_front(word, after_word, SP);
        lemma_split_front(name, after_name, SP);
        lemma_split_front(tag, after_tag, SP);
        lemma_split_front(time, after_time, SP);
        lemma_split_whole(count, SP);
    }
}

/// A stored value comes back under its key: the reply that a server writes
/// for a valid key reads as the value under that very key.
pub proof fn lemma_value_comes_back(key: Seq<char>, flag: u16, value: Seq<u8>, rest: Seq<u8>)
    requires
        valid_key(key),
        value.len() <= usize::MAX,
    ensures
        scan_reply(value_reply(encode_utf8(key), flag, value) + rest) == (Scan::Done {
            value: ResponseView::Value(ItemView { key, flag, value }),
            used: value_reply(encode_utf8(key), flag, value).len(),
        }),
{
    lemma_key_bytes(key);
    encode_utf8_valid_utf8(key);
    encode_utf8_decode_utf8(key);
    lemma_value_is_read_back(encode_utf8(key), flag, value, rest);
}

} // verus!
