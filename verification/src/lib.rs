//! The client's side of the NubDB protocol, verified with Verus.
//!
//! NubDB is a key-value store that speaks a line protocol: the client sends
//! one command per line and the server answers each command with one line,
//! in order. This crate holds everything about that protocol that can be
//! decided without touching a stream:
//!
//! - [`command`]: how each operation is written as a command line;
//! - [`reply`]: what a reply line means for each operation;
//! - [`frame`]: how lines travel on the stream;
//! - [`client`]: the session, which pairs each reply with its command;
//! - [`text`] and [`number`]: the models of trimming and of decimal numbers
//!   that the contracts are stated over;
//! - [`error`]: the ways in which a call can fail.
//!
//! The caller owns the stream. One round trip looks like this:
//!
//! ```text
//! let wire = client.get("name")?;          // "GET name\n"
//! // write `wire`, flush, read one line into `raw`
//! let reply = client.receive(Exchange::Received(raw))?;
//! ```

pub mod client;
pub mod command;
pub mod error;
pub mod frame;
pub mod number;
pub mod reply;
pub mod text;
