//! The words of the protocol, byte by byte.

use vstd::prelude::*;
use vstd::string::StringSliceAdditionalSpecFns;
use vstd::utf8::{encode_utf8, is_ascii_chars, is_ascii_chars_encode_utf8};
use crate::command::{DELETE, GET, SET};
use crate::grammar::{
    CLIENT_ERROR, DELETED, END, ERROR, NOT_FOUND, NOT_STORED, SERVER_ERROR, STORED, VALUE,
};

verus! {

/// The bytes of a text of one-byte characters: each character's own number.
pub open spec fn ascii(text: Seq<char>) -> Seq<u8> {
    Seq::new(text.len(), |i: int| text[i] as u8)
}

/// A text of one-byte characters is encoded by those bytes.
pub proof fn lemma_ascii_text(text: Seq<char>)
    requires
        is_ascii_chars(text),
    ensures
        encode_utf8(text) == ascii(text),
{
    is_ascii_chars_encode_utf8(text);
}

/// The keywords, byte by byte.
pub proof fn lemma_keywords()
    ensures
        STORED.spec_bytes() == ascii(seq!['S', 'T', 'O', 'R', 'E', 'D']),
        NOT_STORED.spec_bytes() == ascii(seq!['N', 'O', 'T', '_', 'S', 'T', 'O', 'R', 'E', 'D']),
        DELETED.spec_bytes() == ascii(seq!['D', 'E', 'L', 'E', 'T', 'E', 'D']),
        NOT_FOUND.spec_bytes() == ascii(seq!['N', 'O', 'T', '_', 'F', 'O', 'U', 'N', 'D']),
        ERROR.spec_bytes() == ascii(seq!['E', 'R', 'R', 'O', 'R']),
        CLIENT_ERROR.spec_bytes() == ascii(
            seq!['C', 'L', 'I', 'E', 'N', 'T', '_', 'E', 'R', 'R', 'O', 'R'],
        ),
        SERVER_ERROR.spec_bytes() == ascii(
            seq!['S', 'E', 'R', 'V', 'E', 'R', '_', 'E', 'R', 'R', 'O', 'R'],
        ),
        VALUE.spec_bytes() == ascii(seq!['V', 'A', 'L', 'U', 'E']),
        END.spec_bytes() == ascii(seq!['E', 'N', 'D']),
{
    reveal_strlit("STORED");
    reveal_strlit("NOT_STORED");
    reveal_strlit("DELETED");
    reveal_strlit("NOT_FOUND");
    reveal_strlit("ERROR");
    reveal_strlit("CLIENT_ERROR");
    reveal_strlit("SERVER_ERROR");
    reveal_strlit("VALUE");
    reveal_strlit("END");
    lemma_ascii_text(STORED@);
    lemma_ascii_text(NOT_STORED@);
    lemma_ascii_text(DELETED@);
    lemma_ascii_text(NOT_FOUND@);
    lemma_ascii_text(ERROR@);
    lemma_ascii_text(CLIENT_ERROR@);
    lemma_ascii_text(SERVER_ERROR@);
    lemma_ascii_text(VALUE@);
    lemma_ascii_text(END@);
}

/// The command words, byte by byte.
pub proof fn lemma_command_words()
    ensures
        GET.spec_bytes() == ascii(seq!['g', 'e', 't']),
        SET.spec_bytes() == ascii(seq!['s', 'e', 't']),
        DELETE.spec_bytes() == ascii(seq!['d', 'e', 'l', 'e', 't', 'e']),
{
    reveal_strlit("get");
    reveal_strlit("set");
    reveal_strlit("delete");
    lemma_ascii_text(GET@);
    lemma_ascii_text(SET@);
    lemma_ascii_text(DELETE@);
}

} // verus!
