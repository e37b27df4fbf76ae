//! A client for the text protocol of a memcached-style cache: it stores,
//! fetches and removes values by key over one stream to one server.
//!
//! The wire format is stated as functions on byte sequences: [`command`] for
//! requests, [`grammar`] for replies. The encoders, the reply [`parser`] and
//! the [`client`] are proved against them, and [`laws`] holds what follows
//! for every request and every reply.
//!
//! The client holds no stream. It says what to write and how much to read,
//! the caller does so on a stream of its own and hands each answer back,
//! and the client says what the exchange came to.

pub mod bytes;
pub mod client;
pub mod command;
pub mod decimal;
pub mod grammar;
pub mod laws;
pub mod parser;
pub mod source;
pub mod status;
pub mod text;
pub mod types;

pub use client::{written, Client, Step};
pub use command::{encode_delete, encode_get, encode_set};
pub use parser::{parse_reply, Parser};
pub use source::{ByteSource, SliceSource};
pub use status::{classify, Header, Status};
pub use types::{Failure, FromMcItem, IoCause, Item, McResult, Response};
