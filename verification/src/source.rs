//! Where the parser takes its bytes from.

use vstd::prelude::*;
use crate::types::IoCause;

verus! {

/// A supply of bytes, handed out one at a time, with a record of what has
/// been handed out.
pub trait ByteSource {
    /// Every byte handed out so far, oldest first.
    spec fn taken(&self) -> Seq<u8>;

    /// All the bytes that the source will ever hand out, where that is known
    /// beforehand.
    spec fn supply(&self) -> Option<Seq<u8>>;

    /// What the source says when it refuses.
    spec fn refusal(&self) -> Seq<char>;

    /// The source has handed out all that it was known to hold.
    open spec fn dry(&self) -> bool {
        self.supply() matches Some(all) ==> self.taken() == all
    }

    /// Hands out the next byte, or says why there is none. A refusal hands
    /// out nothing and carries what the source says, and a source that knows
    /// its supply refuses only at its end.
    fn read_byte(&mut self) -> (r: Result<u8, IoCause>)
        ensures
            final(self).supply() == old(self).supply(),
            match r {
                Ok(b) => final(self).taken() == old(self).taken().push(b),
                Err(cause) => final(self).taken() == old(self).taken() && final(self).dry()
                    && cause.message@ == final(self).refusal(),
            },
    ;
}

/// The bytes of a slice, from its start.
pub struct SliceSource<'a> {
    bytes: &'a [u8],
    at: usize,
}

impl<'a> SliceSource<'a> {
    /// A source at the start of `bytes`.
    pub fn new(bytes: &'a [u8]) -> (source: Self)
        ensures
            source.supply() == Some(bytes@),
            source.taken() == Seq::<u8>::empty(),
    {
        SliceSource { bytes, at: 0 }
    }

    /// How many bytes have been handed out.
    pub fn position(&self) -> (n: usize)
        ensures
            n == self.taken().len(),
    {
        if self.at < self.bytes.len() {
            self.at
        } else {
            self.bytes.len()
        }
    }

    /// What was handed out is the front of the slice.
    pub proof fn lemma_front(&self)
        ensures
            self.supply() is Some,
            self.taken().is_prefix_of(self.supply()->0),
    {
    }
}

/// What the source says at the end of the slice.
pub const END_OF_INPUT: &'static str = "unexpected end of input";

impl<'a> ByteSource for SliceSource<'a> {
    closed spec fn taken(&self) -> Seq<u8> {
        if self.at < self.bytes@.len() {
            self.bytes@.take(self.at as int)
        } else {
            self.bytes@
        }
    }

    closed spec fn supply(&self) -> Option<Seq<u8>> {
        Some(self.bytes@)
    }

    open spec fn refusal(&self) -> Seq<char> {
        END_OF_INPUT@
    }

    fn read_byte(&mut self) -> (r: Result<u8, IoCause>)
        ensures
            r is Err <==> old(self).dry(),
    {
        if self.at < self.bytes.len() {
            let b: u8 = self.bytes[self.at];
            self.at = self.at + 1;
            Ok(b)
        } else {
            Err(IoCause::new(END_OF_INPUT))
        }
    }
}

} // verus!
