//! What holds of every request and every reply, proved from the grammar.

pub mod framing;
pub mod replies;
pub mod requests;
pub mod words;
