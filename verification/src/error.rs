//! The ways in which a call on the client can fail.

use vstd::prelude::*;
use vstd::string::*;

verus! {

/// Why a call on the client failed.
#[derive(Clone, Copy, Debug, PartialEq, Eq, Structural)]
pub enum Error {
    /// The stream to the server could not be opened, or was already shut
    /// down when the client tried to say goodbye on it.
    Connection,
    /// Writing a command or reading its reply failed, or the client had
    /// said goodbye before.
    Transport,
    /// The framing of one reply line per command was broken: the stream
    /// ended before a full line had arrived, a call came out of turn, or a
    /// reply of one shape was taken for another.
    Protocol,
    /// A reply that had to be an integer was none, or was out of range.
    Decode,
}

impl Error {
    /// A short description of the failure, for messages.
    pub fn message(&self) -> (text: &'static str)
        ensures
            text@ == match *self {
                Error::Connection => "connection failed"@,
                Error::Transport => "transport failed"@,
                Error::Protocol => "reply framing broken"@,
                Error::Decode => "reply is not a valid integer"@,
            },
    {
        match self {
            Error::Connection => "connection failed",
            Error::Transport => "transport failed",
            Error::Protocol => "reply framing broken",
            Error::Decode => "reply is not a valid integer",
        }
    }
}

} // verus!
