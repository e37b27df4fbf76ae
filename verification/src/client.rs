//! The client: what to do next in an exchange, decided from what the stream
//! answered. The client holds no stream; the caller writes and reads as the
//! client says, and hands each answer of the stream back to it.

use vstd::prelude::*;
use vstd::string::StringSliceAdditionalSpecFns;
use crate::command::{
    delete_request, encode_delete, encode_get, encode_set, get_request, invalid_key,
    set_request, valid_key,
};
use crate::grammar::{scan_line, scan_reply, status, Scan, StatusView};
use crate::laws::framing::{
    lemma_body_wants, lemma_line_front, lemma_line_stable, lemma_reply_parts,
};
use crate::parser::{parse_reply, Parser};
use crate::source::{ByteSource, SliceSource};
use crate::status::{classify, Status};
use crate::types::{Failure, FailureView, IoCause, McResult, Response, ResponseView};

verus! {

/// What is said where the stream takes no byte of what it was offered.
pub const WRITE_STALLED: &'static str = "failed to write whole buffer";

/// What is said where the stream claims more bytes than it was offered.
pub const WRITE_OVERRUN: &'static str = "transport wrote more than it was given";

/// What a write of `left` bytes comes to, by the answer of the stream: so
/// many bytes taken, at least one and no more than were offered, or the
/// text of the failure.
pub open spec fn taken(left: nat, answer: Result<usize, IoCause>) -> Result<nat, Seq<char>> {
    match answer {
        Ok(n) => if n == 0 {
            Err(WRITE_STALLED@)
        } else if n > left {
            Err(WRITE_OVERRUN@)
        } else {
            Ok(n as nat)
        },
        Err(cause) => Err(cause.message@),
    }
}

/// How many of `len` bytes are written once the stream has answered
/// `answer` to the offer of those behind the first `done`. A failure of the
/// stream is handed on as it came; a stream that takes nothing, or claims
/// more than it was offered, is a failure too.
pub fn written(len: usize, done: usize, answer: Result<usize, IoCause>) -> (r: Result<
    usize,
    IoCause,
>)
    ensures
        match taken(if done < len { (len - done) as nat } else { 0 }, answer) {
            Ok(n) => r == Ok::<usize, IoCause>((done + n) as usize),
            Err(text) => r matches Err(cause) && cause.message@ == text,
        },
        answer matches Err(cause) ==> r == Err::<usize, IoCause>(cause),
{
    let left: usize = if done < len {
        len - done
    } else {
        0
    };
    match answer {
        Ok(n) => {
            if n == 0 {
                Err(IoCause::new(WRITE_STALLED))
            } else if n > left {
                Err(IoCause::new(WRITE_OVERRUN))
            } else {
                Ok(done + n)
            }
        },
        Err(cause) => Err(cause),
    }
}

/// How many bytes the reply that begins with `buffer` lacks at the least:
/// behind a whole `VALUE` line the rest of the payload and one byte, as far
/// as that can be counted, and one byte otherwise.
pub open spec fn lacking(buffer: Seq<u8>) -> nat {
    match scan_line(buffer) {
        Scan::Done { value: line, used } => match status(line) {
            StatusView::Header(header) => {
                let have = buffer.len() - used;
                if have > header.size {
                    1
                } else if header.size - have < usize::MAX {
                    (header.size - have + 1) as nat
                } else {
                    usize::MAX as nat
                }
            },
            _ => 1,
        },
        _ => 1,
    }
}

/// No reply is complete within fewer than `n` bytes more than `buffer`.
pub open spec fn short_of(buffer: Seq<u8>, n: nat) -> bool {
    forall|more: Seq<u8>| more.len() < n ==> #[trigger] scan_reply(buffer + more) is More
}

/// A reply that is not yet whole stays so until the bytes that it lacks
/// have come: who reads no more than that never reads past the reply.
pub proof fn lemma_lacking_is_short(buffer: Seq<u8>)
    requires
        scan_reply(buffer) is More,
    ensures
        lacking(buffer) >= 1,
        short_of(buffer, lacking(buffer)),
{
    assert forall|more: Seq<u8>| more.len() < lacking(buffer) implies #[trigger] scan_reply(
        buffer + more,
    ) is More by {
        if let Scan::Done { value: line, used } = scan_line(buffer) {
            lemma_line_stable(buffer, Seq::<u8>::empty());
            lemma_line_front(buffer);
            let head = buffer.take(used as int);
            let rest = buffer.skip(used as int) + more;
            assert(buffer + more =~= head + rest);
            lemma_reply_parts(head, rest);
            if let StatusView::Header(header) = status(line) {
                if rest.len() <= header.size {
                    lemma_body_wants(rest, header.size);
                } else {
                    assert(buffer + more =~= buffer);
                }
            } else {
                assert(buffer + more =~= buffer);
            }
        } else {
            assert(buffer + more =~= buffer);
        }
    }
}

/// How many bytes the reply that begins with `buffer` lacks at the least.
fn wanted(buffer: &[u8]) -> (n: usize)
    ensures
        n == lacking(buffer@),
{
    let mut parser = Parser::new(SliceSource::new(buffer));
    let ghost start = parser;
    let line = parser.read_line();
    let at: usize = parser.reader.position();
    proof {
        let head = Parser::read(start, parser);
        let rest = buffer@.skip(at as int);
        parser.reader.lemma_front();
        assert(head =~= parser.reader.taken());
        assert(buffer@ =~= head + rest);
        if !(scan_line(head) is More) {
            lemma_line_stable(head, rest);
        }
    }
    match line {
        Ok(line) => match classify(line.as_slice()) {
            Ok(Status::Header(header)) => {
                let have: usize = buffer.len() - at;
                if have > header.size {
                    1
                } else if header.size - have < usize::MAX {
                    header.size - have + 1
                } else {
                    usize::MAX
                }
            },
            _ => 1,
        },
        Err(_) => 1,
    }
}

/// What the caller does next.
#[derive(Debug, PartialEq, Eq)]
pub enum Step {
    /// Nothing: no exchange is under way.
    Idle,
    /// Offer the stream the bytes of `unsent`, and hand its answer to
    /// `written`.
    Write,
    /// Read from the stream, no more than so many bytes, and hand what came
    /// to `received`.
    Read(usize),
    /// The exchange is over, and this is how it ended.
    Done(McResult<Response>),
}

/// The mathematical value of a [`Step`].
pub enum StepView {
    Idle,
    Write,
    Read(nat),
    Done(Result<ResponseView, FailureView>),
}

impl View for Step {
    type V = StepView;

    open spec fn view(&self) -> StepView {
        match *self {
            Step::Idle => StepView::Idle,
            Step::Write => StepView::Write,
            Step::Read(n) => StepView::Read(n as nat),
            Step::Done(Ok(answer)) => StepView::Done(Ok(answer@)),
            Step::Done(Err(failure)) => StepView::Done(Err(failure@)),
        }
    }
}

/// Whose turn it is in an exchange.
pub enum Turn {
    /// No exchange is under way.
    Idle,
    /// The request is not yet written whole.
    Write,
    /// The request is written, and the reply not yet read whole.
    Read,
}

/// A client of one server. It takes one exchange at a time: a request goes
/// out whole, then one reply comes back.
pub struct Client {
    request: Vec<u8>,
    done: usize,
    reply: Vec<u8>,
}

impl Client {
    /// An exchange is under way.
    pub closed spec fn busy(&self) -> bool {
        self.request@.len() > 0
    }

    /// The bytes of the request that are still to be written.
    pub closed spec fn unsent(&self) -> Seq<u8> {
        if self.done < self.request@.len() {
            self.request@.skip(self.done as int)
        } else {
            Seq::empty()
        }
    }

    /// The bytes of the reply that have come so far.
    pub closed spec fn reply(&self) -> Seq<u8> {
        self.reply@
    }

    /// Whose turn it is.
    pub open spec fn turn(&self) -> Turn {
        if !self.busy() {
            Turn::Idle
        } else if self.unsent().len() > 0 {
            Turn::Write
        } else {
            Turn::Read
        }
    }

    /// No exchange is under way, and nothing is kept of the last.
    pub open spec fn idle(&self) -> bool {
        !self.busy() && self.unsent().len() == 0 && self.reply().len() == 0
    }

    /// An exchange has begun with `request` and nothing of it is written.
    pub open spec fn began(&self, request: Seq<u8>) -> bool {
        self.busy() && self.unsent() == request && self.reply().len() == 0
    }

    /// What the client waits for where an answer comes out of turn: what
    /// it waited for before.
    pub open spec fn waits(&self) -> StepView {
        match self.turn() {
            Turn::Idle => StepView::Idle,
            Turn::Write => StepView::Write,
            Turn::Read => StepView::Read(1),
        }
    }

    /// A client with no exchange under way.
    pub fn new() -> (client: Client)
        ensures
            client.idle(),
    {
        Client { request: Vec::new(), done: 0, reply: Vec::new() }
    }

    /// The bytes of the request that are still to be written.
    pub fn pending(&self) -> (bytes: &[u8])
        ensures
            bytes@ == self.unsent(),
    {
        let len: usize = self.request.len();
        let from: usize = if self.done < len {
            self.done
        } else {
            len
        };
        let bytes: &[u8] = vstd::slice::slice_subrange(self.request.as_slice(), from, len);
        assert(bytes@ =~= self.unsent());
        bytes
    }

    /// Begins the exchange that stores `data` under `key` with the tag
    /// `flag`, to expire after `expire` seconds. An exchange under way is
    /// given up.
    ///
    /// A key that is not valid is refused, and the client stays as it was.
    pub fn set(&mut self, key: &str, flag: u16, expire: usize, data: &str) -> (step: Step)
        ensures
            valid_key(key@) ==> step@ == StepView::Write && final(self).began(
                set_request(key@, flag, expire as nat, data.spec_bytes()),
            ),
            !valid_key(key@) ==> step@ == StepView::Done(Err(invalid_key())) && *final(self)
                == *old(self),
    {
        match encode_set(key, flag, expire, data.as_bytes()) {
            Ok(request) => self.begin(request),
            Err(f) => Step::Done(Err(f)),
        }
    }

    /// Begins the exchange that fetches the value stored under `key`. An
    /// exchange under way is given up.
    ///
    /// A key that is not valid is refused, and the client stays as it was.
    pub fn get(&mut self, key: &str) -> (step: Step)
        ensures
            valid_key(key@) ==> step@ == StepView::Write && final(self).began(get_request(key@)),
            !valid_key(key@) ==> step@ == StepView::Done(Err(invalid_key())) && *final(self)
                == *old(self),
    {
        match encode_get(key) {
            Ok(request) => self.begin(request),
            Err(f) => Step::Done(Err(f)),
        }
    }

    /// Begins the exchange that removes the value stored under `key`. An
    /// exchange under way is given up.
    ///
    /// A key that is not valid is refused, and the client stays as it was.
    pub fn del(&mut self, key: &str) -> (step: Step)
        ensures
            valid_key(key@) ==> step@ == StepView::Write && final(self).began(
                delete_request(key@),
            ),
            !valid_key(key@) ==> step@ == StepView::Done(Err(invalid_key())) && *final(self)
                == *old(self),
    {
        match encode_delete(key) {
            Ok(request) => self.begin(request),
            Err(f) => Step::Done(Err(f)),
        }
    }

    /// Begins an exchange with `request`.
    fn begin(&mut self, request: Vec<u8>) -> (step: Step)
        requires
            request@.len() > 0,
        ensures
            step@ == StepView::Write,
            final(self).began(request@),
    {
        assert(request@.skip(0) =~= request@);
        self.request = request;
        self.done = 0;
        self.reply = Vec::new();
        Step::Write
    }

    /// Ends the exchange.
    fn end(&mut self)
        ensures
            final(self).idle(),
    {
        self.request = Vec::new();
        self.done = 0;
        self.reply = Vec::new();
    }

    /// What the client waits for.
    fn again(&self) -> (step: Step)
        ensures
            step@ == self.waits(),
    {
        if self.request.len() == 0 {
            Step::Idle
        } else if self.done < self.request.len() {
            Step::Write
        } else {
            Step::Read(1)
        }
    }

    /// Takes in the answer of the stream to the offer of the unsent bytes.
    ///
    /// Bytes that the stream took are written; once the last is, the
    /// client turns to reading. A failure of the stream ends the exchange
    /// with that failure, and so does a stream that took nothing or claims
    /// more than it was offered. Out of turn the answer counts for nothing.
    pub fn written(&mut self, answer: Result<usize, IoCause>) -> (step: Step)
        ensures
            !(old(self).turn() is Write) ==> *final(self) == *old(self) && step@ == old(
                self,
            ).waits(),
            old(self).turn() is Write ==> match taken(old(self).unsent().len(), answer) {
                Ok(n) => {
                    &&& final(self).busy()
                    &&& final(self).unsent() == old(self).unsent().skip(n as int)
                    &&& final(self).reply() == old(self).reply()
                    &&& step@ == if n == old(self).unsent().len() {
                        StepView::Read(1)
                    } else {
                        StepView::Write
                    }
                },
                Err(text) => final(self).idle() && step@ == StepView::Done(
                    Err(FailureView::IoFailure(text)),
                ),
            },
    {
        let len: usize = self.request.len();
        if len == 0 || self.done >= len {
            return self.again();
        }
        match self::written(len, self.done, answer) {
            Ok(done) => {
                assert(self.request@.skip(self.done as int).skip(done - self.done)
                    =~= self.request@.skip(done as int));
                self.done = done;
                self.again()
            },
            Err(cause) => {
                self.end();
                Step::Done(Err(Failure::from(cause)))
            },
        }
    }

    /// Takes in what a read of the stream gave.
    ///
    /// Bytes that came are put behind those of the reply so far. Where they
    /// make one reply, the exchange ends with what it reads as, and bytes
    /// behind the reply are dropped; where they cannot begin one, it ends
    /// with the complaint; else the client says how many bytes the reply
    /// still lacks at the least, so that a caller who reads no more than
    /// that never reads past the reply. A failure of the stream ends the
    /// exchange with that failure. Out of turn what came counts for
    /// nothing.
    pub fn received(&mut self, answer: Result<Vec<u8>, IoCause>) -> (step: Step)
        ensures
            !(old(self).turn() is Read) ==> *final(self) == *old(self) && step@ == old(
                self,
            ).waits(),
            old(self).turn() is Read ==> match answer {
                Ok(bytes) => match scan_reply(old(self).reply() + bytes@) {
                    Scan::Done { value, .. } => final(self).idle() && step@ == StepView::Done(
                        Ok(value),
                    ),
                    Scan::Bad { reason, .. } => final(self).idle() && step@ == StepView::Done(
                        Err(FailureView::ProtocolFailure(reason)),
                    ),
                    Scan::More => {
                        &&& final(self).turn() is Read
                        &&& final(self).reply() == old(self).reply() + bytes@
                        &&& step@ == StepView::Read(lacking(final(self).reply()))
                    },
                },
                Err(cause) => final(self).idle() && step@ == StepView::Done(
                    Err(FailureView::IoFailure(cause.message@)),
                ),
            },
    {
        let len: usize = self.request.len();
        if len == 0 || self.done < len {
            return self.again();
        }
        match answer {
            Ok(bytes) => {
                self.reply.extend_from_slice(bytes.as_slice());
                assert(self.reply@ =~= old(self).reply@ + bytes@);
                match parse_reply(self.reply.as_slice()) {
                    Ok(answer) => {
                        self.end();
                        Step::Done(Ok(answer))
                    },
                    Err(Failure::IoFailure(_)) => Step::Read(wanted(self.reply.as_slice())),
                    Err(f) => {
                        self.end();
                        Step::Done(Err(f))
                    },
                }
            },
            Err(cause) => {
                self.end();
                Step::Done(Err(Failure::from(cause)))
            },
        }
    }
}

} // verus!
