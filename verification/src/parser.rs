//! The reply parser: it pulls bytes from a source until one reply is read.

use vstd::prelude::*;
use crate::bytes::{free_of, lemma_until_after, same_bytes, CR, LF};
use crate::grammar::{
    scan_body, scan_char, scan_end, scan_exact, scan_line, scan_newline, scan_reply,
    scan_string_line, value_of, Scan, END, EXPECTED_END, EXPECT_NEWLINE, EXPECT_STRING,
    INVALID_BYTE,
};
use crate::laws::framing::{
    lemma_body_parts, lemma_reply_at_front, lemma_reply_parts, lemma_reply_without_line,
};
use crate::source::{ByteSource, SliceSource, END_OF_INPUT};
use crate::status::{classify, Header, Status};
use crate::text::utf8_string;
use crate::types::{Failure, FailureView, IoCause, Item, McResult, Response, ResponseView};

verus! {

/// How a failed reading agrees with the grammar: a complaint is the
/// grammar's own, made at the last of the `used` bytes that were read; a
/// failure of the source came while the grammar wanted more, and carries
/// what the source said.
pub open spec fn refused<T, R: ByteSource>(
    failure: FailureView,
    scan: Scan<T>,
    used: nat,
    source: R,
) -> bool {
    match failure {
        FailureView::ProtocolFailure(reason) => scan == (Scan::<T>::Bad { reason, used }),
        FailureView::IoFailure(said) => scan is More && source.dry() && said == source.refusal(),
        FailureView::ValidationFailure(_) => false,
    }
}

/// How the answer of a reading agrees with the grammar: a response is the
/// grammar's own, read from the `used` bytes that were pulled; a failure is
/// as [`refused`] says.
pub open spec fn answers<R: ByteSource>(
    r: McResult<Response>,
    scan: Scan<ResponseView>,
    used: nat,
    source: R,
) -> bool {
    match r {
        Ok(answer) => scan == (Scan::Done { value: answer@, used }),
        Err(f) => refused(f@, scan, used, source),
    }
}

/// A parser of replies over a source of bytes. It keeps nothing from one
/// reply to the next.
pub struct Parser<R: ByteSource> {
    pub reader: R,
}

impl<R: ByteSource> Parser<R> {
    /// The bytes that were pulled from the source between two states of the
    /// parser.
    pub open spec fn read(before: Self, after: Self) -> Seq<u8> {
        after.reader.taken().skip(before.reader.taken().len() as int)
    }

    /// `after` is `before` with more bytes pulled, and none given back.
    pub open spec fn follows(before: Self, after: Self) -> bool {
        &&& after.reader.taken() == before.reader.taken() + Self::read(before, after)
        &&& after.reader.supply() == before.reader.supply()
    }

    /// What was pulled is what was added to the record of the source.
    pub proof fn lemma_read(before: Self, after: Self, added: Seq<u8>)
        requires
            after.reader.taken() == before.reader.taken() + added,
            after.reader.supply() == before.reader.supply(),
        ensures
            Self::read(before, after) == added,
            Self::follows(before, after),
    {
        assert(Self::read(before, after) =~= added);
    }

    /// A state follows itself, with nothing pulled.
    pub proof fn lemma_nothing_read(before: Self, after: Self)
        requires
            after.reader.taken() == before.reader.taken(),
            after.reader.supply() == before.reader.supply(),
        ensures
            Self::read(before, after) == Seq::<u8>::empty(),
            Self::follows(before, after),
    {
        Self::lemma_read(before, after, Seq::<u8>::empty());
    }

    /// One byte pulled is a reading of that byte.
    pub proof fn lemma_one_read(before: Self, after: Self, b: u8)
        requires
            after.reader.taken() == before.reader.taken().push(b),
            after.reader.supply() == before.reader.supply(),
        ensures
            Self::read(before, after) == seq![b],
            Self::follows(before, after),
    {
        assert(before.reader.taken().push(b) =~= before.reader.taken() + seq![b]);
        Self::lemma_read(before, after, seq![b]);
    }

    /// Two readings, one after the other, are one reading of both stretches.
    pub proof fn lemma_follows(before: Self, between: Self, after: Self)
        requires
            Self::follows(before, between),
            Self::follows(between, after),
        ensures
            Self::follows(before, after),
            Self::read(before, after) == Self::read(before, between) + Self::read(between, after),
    {
        let both = Self::read(before, between) + Self::read(between, after);
        assert(after.reader.taken() =~= before.reader.taken() + both);
        Self::lemma_read(before, after, both);
    }

    /// A parser that reads from `reader`.
    pub fn new(reader: R) -> (parser: Parser<R>)
        ensures
            parser.reader == reader,
    {
        Parser { reader }
    }

    /// Pulls one byte, which has to be `refchar`.
    pub fn expect_char(&mut self, refchar: u8) -> (r: McResult<()>)
        ensures
            Self::follows(*old(self), *final(self)),
            ({
                let read = Self::read(*old(self), *final(self));
                match r {
                    Ok(_) => scan_char(read, refchar) == (Scan::Done {
                        value: (),
                        used: read.len(),
                    }),
                    Err(f) => refused(
                        f@,
                        scan_char(read, refchar),
                        read.len(),
                        final(self).reader,
                    ),
                }
            }),
    {
        match self.reader.read_byte() {
            Ok(b) => {
                proof {
                    Self::lemma_one_read(*old(self), *self, b);
                }
                if b == refchar {
                    Ok(())
                } else {
                    Err(Failure::ProtocolFailure(INVALID_BYTE.to_owned()))
                }
            },
            Err(cause) => {
                proof {
                    Self::lemma_nothing_read(*old(self), *self);
                }
                Err(Failure::IoFailure(cause))
            },
        }
    }

    /// Pulls a line end: `\n`, or `\r` and `\n`.
    pub fn expect_newline(&mut self) -> (r: McResult<()>)
        ensures
            Self::follows(*old(self), *final(self)),
            ({
                let read = Self::read(*old(self), *final(self));
                match r {
                    Ok(_) => scan_newline(read) == (Scan::Done { value: (), used: read.len() }),
                    Err(f) => refused(f@, scan_newline(read), read.len(), final(self).reader),
                }
            }),
    {
        match self.reader.read_byte() {
            Ok(b) => {
                proof {
                    Self::lemma_one_read(*old(self), *self, b);
                }
                if b == LF {
                    Ok(())
                } else if b == CR {
                    let ghost mid = *self;
                    let r = self.expect_char(LF);
                    proof {
                        Self::lemma_follows(*old(self), mid, *self);
                    }
                    r
                } else {
                    Err(Failure::ProtocolFailure(EXPECT_NEWLINE.to_owned()))
                }
            },
            Err(cause) => {
                proof {
                    Self::lemma_nothing_read(*old(self), *self);
                }
                Err(Failure::IoFailure(cause))
            },
        }
    }

    /// Pulls a line and its line end, and hands back the line without them.
    pub fn read_line(&mut self) -> (r: McResult<Vec<u8>>)
        ensures
            Self::follows(*old(self), *final(self)),
            ({
                let read = Self::read(*old(self), *final(self));
                match r {
                    Ok(line) => scan_line(read) == (Scan::Done { value: line@, used: read.len() }),
                    Err(f) => refused(f@, scan_line(read), read.len(), final(self).reader),
                }
            }),
    {
        let ghost before = self.reader.taken();
        let mut line: Vec<u8> = Vec::new();
        loop
            invariant
                self.reader.taken() == before + line@,
                before == old(self).reader.taken(),
                self.reader.supply() == old(self).reader.supply(),
                free_of(line@, CR, LF),
            decreases usize::MAX - line.len(),
        {
            let ghost start = *self;
            match self.reader.read_byte() {
                Ok(b) => {
                    if b == LF || b == CR {
                        let ghost mid = *self;
                        let r = if b == LF {
                            Ok(())
                        } else {
                            self.expect_char(LF)
                        };
                        proof {
                            reveal(scan_line);
                            Self::lemma_read(*old(self), start, line@);
                            Self::lemma_one_read(start, mid, b);
                            if b == LF {
                                Self::lemma_nothing_read(mid, *self);
                            }
                            Self::lemma_follows(start, mid, *self);
                            Self::lemma_follows(*old(self), start, *self);
                            let read = Self::read(*old(self), *self);
                            lemma_until_after(line@, seq![b] + Self::read(mid, *self), CR, LF);
                            assert(read.take(line@.len() as int) =~= line@);
                        }
                        return match r {
                            Ok(_) => Ok(line),
                            Err(f) => Err(f),
                        };
                    }
                    line.push(b);
                },
                Err(cause) => {
                    proof {
                        reveal(scan_line);
                        Self::lemma_read(*old(self), *self, line@);
                        lemma_until_after(line@, Seq::<u8>::empty(), CR, LF);
                    }
                    return Err(Failure::IoFailure(cause));
                },
            }
        }
    }

    /// Pulls a line of text: a line that is UTF-8.
    pub fn read_string_line(&mut self) -> (r: McResult<String>)
        ensures
            Self::follows(*old(self), *final(self)),
            ({
                let read = Self::read(*old(self), *final(self));
                match r {
                    Ok(text) => scan_string_line(read) == (Scan::Done {
                        value: text@,
                        used: read.len(),
                    }),
                    Err(f) => refused(
                        f@,
                        scan_string_line(read),
                        read.len(),
                        final(self).reader,
                    ),
                }
            }),
    {
        proof {
            reveal(scan_string_line);
        }
        match self.read_line() {
            Ok(line) => match utf8_string(line) {
                Some(text) => Ok(text),
                None => Err(Failure::ProtocolFailure(EXPECT_STRING.to_owned())),
            },
            Err(f) => Err(f),
        }
    }

    /// Pulls `size` bytes, whatever they are.
    pub fn read_exact(&mut self, size: usize) -> (r: McResult<Vec<u8>>)
        ensures
            Self::follows(*old(self), *final(self)),
            ({
                let read = Self::read(*old(self), *final(self));
                match r {
                    Ok(bytes) => scan_exact(read, size as nat) == (Scan::Done {
                        value: bytes@,
                        used: read.len(),
                    }),
                    Err(f) => refused(
                        f@,
                        scan_exact(read, size as nat),
                        read.len(),
                        final(self).reader,
                    ),
                }
            }),
    {
        let ghost before = self.reader.taken();
        let mut bytes: Vec<u8> = Vec::new();
        while bytes.len() < size
            invariant
                self.reader.taken() == before + bytes@,
                before == old(self).reader.taken(),
                self.reader.supply() == old(self).reader.supply(),
                bytes@.len() <= size,
            decreases size - bytes@.len(),
        {
            match self.reader.read_byte() {
                Ok(b) => {
                    bytes.push(b);
                },
                Err(cause) => {
                    proof {
                        Self::lemma_read(*old(self), *self, bytes@);
                    }
                    return Err(Failure::IoFailure(cause));
                },
            }
        }
        proof {
            Self::lemma_read(*old(self), *self, bytes@);
            assert(bytes@.take(size as int) =~= bytes@);
        }
        Ok(bytes)
    }

    /// Pulls the line that closes a value, which has to be `END`.
    fn expect_end(&mut self) -> (r: McResult<()>)
        ensures
            Self::follows(*old(self), *final(self)),
            ({
                let read = Self::read(*old(self), *final(self));
                match r {
                    Ok(_) => scan_end(read) == (Scan::Done { value: (), used: read.len() }),
                    Err(f) => refused(f@, scan_end(read), read.len(), final(self).reader),
                }
            }),
    {
        proof {
            reveal(scan_end);
        }
        match self.read_line() {
            Ok(end) => {
                if same_bytes(end.as_slice(), END.as_bytes()) {
                    Ok(())
                } else {
                    Err(Failure::ProtocolFailure(EXPECTED_END.to_owned()))
                }
            },
            Err(f) => Err(f),
        }
    }

    /// Pulls what follows a `VALUE` line that announced `size` bytes: the
    /// payload, a line end, and the line `END`. Hands back the payload.
    fn read_body(&mut self, size: usize) -> (r: McResult<Vec<u8>>)
        ensures
            Self::follows(*old(self), *final(self)),
            ({
                let read = Self::read(*old(self), *final(self));
                match r {
                    Ok(value) => scan_body(read, size as nat) == (Scan::Done {
                        value: value@,
                        used: read.len(),
                    }),
                    Err(f) => refused(
                        f@,
                        scan_body(read, size as nat),
                        read.len(),
                        final(self).reader,
                    ),
                }
            }),
    {
        let value: Vec<u8> = match self.read_exact(size) {
            Ok(value) => value,
            Err(f) => {
                proof {
                    reveal(scan_body);
                }
                return Err(f);
            },
        };
        let ghost a = *self;
        let newline = self.expect_newline();
        let ghost b = *self;
        proof {
            Self::lemma_follows(*old(self), a, b);
        }
        match newline {
            Ok(_) => {},
            Err(f) => {
                proof {
                    lemma_body_parts(value@, Self::read(a, b), Seq::<u8>::empty());
                    assert(value@ + Self::read(a, b) + Seq::<u8>::empty() =~= Self::read(
                        *old(self),
                        b,
                    ));
                }
                return Err(f);
            },
        }
        let end = self.expect_end();
        proof {
            Self::lemma_follows(*old(self), b, *self);
            lemma_body_parts(value@, Self::read(a, b), Self::read(b, *self));
            assert(value@ + Self::read(a, b) + Self::read(b, *self) =~= Self::read(
                *old(self),
                *self,
            ));
        }
        match end {
            Ok(_) => Ok(value),
            Err(f) => Err(f),
        }
    }

    /// Pulls what follows the `VALUE` line that announced `header`, and
    /// makes the value of both.
    fn read_item(&mut self, header: Header) -> (r: McResult<Response>)
        ensures
            Self::follows(*old(self), *final(self)),
            ({
                let read = Self::read(*old(self), *final(self));
                answers(
                    r,
                    value_of(header@, scan_body(read, header@.size)),
                    read.len(),
                    final(self).reader,
                )
            }),
    {
        match self.read_body(header.size) {
            Ok(value) => Ok(Response::Value(Item { key: header.key, flag: header.flag, value })),
            Err(f) => Err(f),
        }
    }

    /// Pulls one reply from the source and says what the server answered.
    ///
    /// The bytes pulled are those of the reply and no more. A payload is
    /// taken by its announced length, whatever bytes it holds.
    pub fn parse_value(&mut self) -> (r: McResult<Response>)
        ensures
            Self::follows(*old(self), *final(self)),
            answers(
                r,
                scan_reply(Self::read(*old(self), *final(self))),
                Self::read(*old(self), *final(self)).len(),
                final(self).reader,
            ),
    {
        let line: Vec<u8> = match self.read_line() {
            Ok(line) => line,
            Err(f) => {
                proof {
                    lemma_reply_without_line(Self::read(*old(self), *self));
                }
                return Err(f);
            },
        };
        let ghost a = *self;
        let ghost head = Self::read(*old(self), a);
        match classify(line.as_slice()) {
            Ok(Status::Reply(answer)) => {
                proof {
                    lemma_reply_parts(head, Seq::<u8>::empty());
                }
                Ok(answer)
            },
            Ok(Status::Header(header)) => {
                let r = self.read_item(header);
                proof {
                    let rest = Self::read(a, *self);
                    Self::lemma_follows(*old(self), a, *self);
                    lemma_reply_parts(head, rest);
                }
                r
            },
            Err(f) => {
                proof {
                    lemma_reply_parts(head, Seq::<u8>::empty());
                }
                Err(f)
            },
        }
    }
}

/// Reads one reply from the front of `input`. Bytes behind the reply are not
/// looked at; where `input` ends before the reply does, the failure is an
/// `IoFailure` that says so.
pub fn parse_reply(input: &[u8]) -> (r: McResult<Response>)
    ensures
        match scan_reply(input@) {
            Scan::Done { value, .. } => r matches Ok(answer) && answer@ == value,
            Scan::Bad { reason, .. } => r matches Err(f) && f@ == FailureView::ProtocolFailure(
                reason,
            ),
            Scan::More => r matches Err(f) && f@ == FailureView::IoFailure(END_OF_INPUT@),
        },
{
    let mut parser = Parser::new(SliceSource::new(input));
    let ghost start = parser;
    let r = parser.parse_value();
    proof {
        parser.reader.lemma_front();
        let read = Parser::read(start, parser);
        if !(scan_reply(read) is More) {
            lemma_reply_at_front(read, input@);
        }
    }
    match r {
        Ok(answer) => Ok(answer),
        Err(Failure::IoFailure(_)) => Err(Failure::IoFailure(IoCause::new(END_OF_INPUT))),
        Err(f) => Err(f),
    }
}

} // verus!
