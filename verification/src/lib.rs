//! The core of a small chat client for the terminal, and of the list of
//! things to do that comes with it.
//!
//! The heart is the reading of a streamed reply and the session around it:
//!
//! - [`decoder`] cuts the bytes of a response body into records, whatever the
//!   chunks they arrive in, and [`frame`] reads each record: a fragment of the
//!   reply, the announcement of a role, or the end of the stream. A record
//!   that is malformed is passed over.
//! - [`chat`] holds the transcript and says what a send, a revert, a clear, a
//!   save and a load do to it; [`command`] reads a line of input as one of
//!   them.
//! - [`session`] is the chat loop as a state machine: events in, actions out.
//!   It performs nothing itself.
//! - [`store`] is the form in which a transcript is saved, and where.
//!
//! Around it stand the catalogs of [`model`] endpoints and [`prompt`]
//! templates, the menus ([`menu`], [`input`]), the [`todo`] list, and the
//! helpers they share: [`text`], [`lines`], [`json`].
//!
//! Nothing here reads a file or opens a connection; the clock is the one thing
//! read from outside. What is left to other code is taken on trust: JSON is
//! parsed by `serde_json`, times are read and written by `chrono`, and case
//! folding and lossy UTF-8 decoding are the standard library's.

pub mod chat;
pub mod command;
pub mod decoder;
pub mod frame;
pub mod input;
pub mod json;
pub mod lines;
pub mod menu;
pub mod model;
pub mod prompt;
pub mod session;
pub mod store;
pub mod text;
pub mod todo;
