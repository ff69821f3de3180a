//! A resilient remote-procedure-call client and what is built on it.
//!
//! The client is modelled as state machines that do no input or output:
//! whoever owns the stream tells them what happened, and they answer what is
//! to be done.
//!
//! - `value`: the dynamically typed values that travel as arguments and
//!   results.
//! - `message`: requests and responses, and their shape on the wire.
//! - `frame`: how messages are delimited in the stream of bytes.
//! - `error`: the failures of a call, and which of them may pass.
//! - `connection`: one connection, its identifiers and its calls in flight.
//! - `history`: what holds of a connection after any sequence of events.
//! - `reconnect`: the slot that holds the connection and is filled again
//!   after a failure.
//! - `retry`: the bounded retry of failed calls.
//! - `rpc`: the client for one peer, and the typed calls on it.
//! - `autotopic`: the wording of the channel topic.
//! - `contact`: the messages of the contact form that wait to be passed on.

pub mod autotopic;
pub mod connection;
pub mod contact;
pub mod error;
pub mod frame;
pub mod history;
pub mod message;
pub mod reconnect;
pub mod retry;
pub mod rpc;
pub mod value;
