//! The values that cross the client's boundary: what a server answered, and
//! why an exchange could not be completed.

use vstd::prelude::*;
use vstd::std_specs::convert::FromSpecImpl;

verus! {

/// Why the transport gave up: the text of the underlying I/O error.
#[derive(Debug, Clone, PartialEq, Eq)]
pub struct IoCause {
    pub message: String,
}

impl IoCause {
    /// A cause with the given text.
    pub fn new(message: &str) -> (cause: IoCause)
        ensures
            cause.message@ == message@,
    {
        IoCause { message: message.to_owned() }
    }
}

/// An exchange that could not be completed or understood.
///
/// A server that answers with an error of its own has still answered: that is
/// a [`Response`], not a `Failure`.
#[derive(Debug, Clone, PartialEq, Eq)]
pub enum Failure {
    /// The transport failed while connecting, writing or reading.
    IoFailure(IoCause),
    /// The bytes received are not a reply of the protocol.
    ProtocolFailure(String),
    /// The caller's input cannot be put on the wire.
    ValidationFailure(String),
}

/// The mathematical value of a [`Failure`].
pub enum FailureView {
    IoFailure(Seq<char>),
    ProtocolFailure(Seq<char>),
    ValidationFailure(Seq<char>),
}

impl FailureView {
    /// The text that the failure carries.
    pub open spec fn text(self) -> Seq<char> {
        match self {
            FailureView::IoFailure(t) => t,
            FailureView::ProtocolFailure(t) => t,
            FailureView::ValidationFailure(t) => t,
        }
    }
}

impl View for Failure {
    type V = FailureView;

    open spec fn view(&self) -> FailureView {
        match *self {
            Failure::IoFailure(cause) => FailureView::IoFailure(cause.message@),
            Failure::ProtocolFailure(text) => FailureView::ProtocolFailure(text@),
            Failure::ValidationFailure(text) => FailureView::ValidationFailure(text@),
        }
    }
}

impl Failure {
    /// The text that the failure carries: the transport's own words for an
    /// I/O failure, the complaint otherwise.
    pub fn description(&self) -> (text: &str)
        ensures
            text@ == self@.text(),
    {
        match self {
            Failure::IoFailure(cause) => cause.message.as_str(),
            Failure::ProtocolFailure(text) => text.as_str(),
            Failure::ValidationFailure(text) => text.as_str(),
        }
    }
}

impl From<IoCause> for Failure {
    fn from(cause: IoCause) -> (failure: Failure) {
        Failure::IoFailure(cause)
    }
}

impl FromSpecImpl<IoCause> for Failure {
    open spec fn obeys_from_spec() -> bool {
        true
    }

    open spec fn from_spec(cause: IoCause) -> Failure {
        Failure::IoFailure(cause)
    }
}

/// What every operation of the client returns.
pub type McResult<T> = Result<T, Failure>;

/// A stored entry as the server handed it back.
#[derive(Debug, Clone, PartialEq, Eq)]
pub struct Item {
    pub key: String,
    /// An opaque tag that the server keeps with the value.
    pub flag: u16,
    pub value: Vec<u8>,
}

/// The mathematical value of an [`Item`].
pub struct ItemView {
    pub key: Seq<char>,
    pub flag: u16,
    pub value: Seq<u8>,
}

impl View for Item {
    type V = ItemView;

    open spec fn view(&self) -> ItemView {
        ItemView { key: self.key@, flag: self.flag, value: self.value@ }
    }
}

/// A conversion from a fetched [`Item`] into a caller's own type.
pub trait FromMcItem: Sized {
    fn from_item(item: &Item) -> McResult<Self>;
}

/// What the server answered.
#[derive(Debug, Clone, PartialEq, Eq)]
pub enum Response {
    Stored,
    NotStored,
    Deleted,
    /// The key is not in the cache: the answer to a delete of an absent key,
    /// and to a fetch that found nothing.
    NotFound,
    /// The server did not know the command.
    InvalidCommand,
    /// The server blames the request; the text is its diagnostic.
    ClientErrorMsg(String),
    /// The server blames itself; the text is its diagnostic.
    ServerErrorMsg(String),
    Value(Item),
}

/// The mathematical value of a [`Response`].
pub enum ResponseView {
    Stored,
    NotStored,
    Deleted,
    NotFound,
    InvalidCommand,
    ClientErrorMsg(Seq<char>),
    ServerErrorMsg(Seq<char>),
    Value(ItemView),
}

impl View for Response {
    type V = ResponseView;

    open spec fn view(&self) -> ResponseView {
        match *self {
            Response::Stored => ResponseView::Stored,
            Response::NotStored => ResponseView::NotStored,
            Response::Deleted => ResponseView::Deleted,
            Response::NotFound => ResponseView::NotFound,
            Response::InvalidCommand => ResponseView::InvalidCommand,
            Response::ClientErrorMsg(text) => ResponseView::ClientErrorMsg(text@),
            Response::ServerErrorMsg(text) => ResponseView::ServerErrorMsg(text@),
            Response::Value(item) => ResponseView::Value(item@),
        }
    }
}

} // verus!
