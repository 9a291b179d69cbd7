//! The client's side of a session, without the stream.
//!
//! A `NubDB` decides what goes over the stream and what comes of the reply;
//! the caller owns the stream. For each operation the caller asks the client
//! for the text to send, writes it and flushes, reads one line, and hands
//! what happened to `receive`, which gives the result of the operation.
//!
//! The client holds the one-command-one-reply discipline: it gives out no
//! second command while a reply is owed, and reads each reply by the grammar
//! of the command that it answers. It also knows whether it has said
//! goodbye: after that it gives out no command but another goodbye.

use vstd::prelude::*;
use vstd::string::*;
use crate::command::{
    Operation, bare_command, bare_line, keyed_command, keyed_line, quoted, set_command, set_line,
};
use crate::error::Error;
use crate::frame::{
    extract_line, first_line, frame, framed, lemma_first_line_of_framed,
    lemma_framed_line_arrives, reply_line,
};
use crate::number::{integer_text, is_digit, lemma_decimal_denotes};
use crate::reply::{
    Reply, ReplyView, decode, decoded, lemma_counter_reads_back,
    lemma_counter_rejects_other_text, lemma_quoted_value_reads_back,
};
use crate::text::{CharClass, is_stripped, lemma_strip_stripped, one_line, quote_free};

verus! {

/// What the stream did with one command.
#[derive(Debug, PartialEq, Eq)]
pub enum Exchange {
    /// Writing or flushing the command failed.
    SendFailed,
    /// The command went out, and reading the reply failed.
    ReceiveFailed,
    /// The command went out, and one read up to and including the line
    /// terminator returned this text. It ends in the terminator, unless the
    /// stream ended first.
    Received(String),
}

/// An `Exchange` with its text as a sequence of characters.
pub enum ExchangeView {
    SendFailed,
    ReceiveFailed,
    Received(Seq<char>),
}

impl View for Exchange {
    type V = ExchangeView;

    open spec fn view(&self) -> ExchangeView {
        match *self {
            Exchange::SendFailed => ExchangeView::SendFailed,
            Exchange::ReceiveFailed => ExchangeView::ReceiveFailed,
            Exchange::Received(raw) => ExchangeView::Received(raw@),
        }
    }
}

/// The result of `operation`, given what the stream did with its command
/// and whether the client had said goodbye before.
///
/// A failed write or read is a transport error; but a goodbye that cannot
/// be written after an earlier goodbye is a connection error. A stream that
/// ended before the line did is a protocol error, except after a goodbye,
/// which needs no reply. A full line is read by the grammar of the
/// operation.
pub open spec fn outcome(closed: bool, operation: Operation, exchange: ExchangeView) -> Result<
    ReplyView,
    Error,
> {
    match exchange {
        ExchangeView::SendFailed => if closed && operation == Operation::Quit {
            Err(Error::Connection)
        } else {
            Err(Error::Transport)
        },
        ExchangeView::ReceiveFailed => Err(Error::Transport),
        ExchangeView::Received(raw) => match reply_line(raw) {
            Some(line) => decoded(operation, line),
            None => if operation == Operation::Quit {
                Ok(ReplyView::Closed)
            } else {
                Err(Error::Protocol)
            },
        },
    }
}

/// The client's side of one session with a server.
#[derive(Debug)]
pub struct NubDB {
    closed: bool,
    awaiting: Option<Operation>,
}

impl NubDB {
    /// The operation whose reply the client is waiting for, if any.
    pub closed spec fn awaited(&self) -> Option<Operation> {
        self.awaiting
    }

    /// Whether the client has said goodbye and the server has taken it.
    pub closed spec fn has_closed(&self) -> bool {
        self.closed
    }

    /// What a call that starts `operation` with the line `command` does.
    ///
    /// While a reply is owed it fails with a protocol error. After the
    /// goodbye it fails with a transport error, unless it is another
    /// goodbye. Either way nothing changes. Otherwise it gives the framed
    /// command, and the client waits for the reply to `operation`.
    pub open spec fn starts(
        before: NubDB,
        after: NubDB,
        operation: Operation,
        command: Seq<char>,
        wire: Result<String, Error>,
    ) -> bool {
        if before.awaited() is Some {
            &&& wire == Err::<String, Error>(Error::Protocol)
            &&& after == before
        } else if before.has_closed() && operation != Operation::Quit {
            &&& wire == Err::<String, Error>(Error::Transport)
            &&& after == before
        } else {
            &&& wire matches Ok(text)
            &&& text@ == framed(command)
            &&& after.awaited() == Some(operation)
            &&& after.has_closed() == before.has_closed()
        }
    }

    /// The operation whose reply the client is waiting for, if any.
    pub fn awaiting(&self) -> (operation: Option<Operation>)
        ensures
            operation == self.awaited(),
    {
        self.awaiting
    }

    /// Whether the client has said goodbye and the server has taken it.
    pub fn is_closed(&self) -> (closed: bool)
        ensures
            closed == self.has_closed(),
    {
        self.closed
    }

    /// Begins a session on a stream that the caller tried to open:
    /// `established` says whether it did open.
    pub fn connect(established: bool) -> (client: Result<NubDB, Error>)
        ensures
            established ==> client is Ok && client->Ok_0.awaited() is None
                && !client->Ok_0.has_closed(),
            !established ==> client == Err::<NubDB, Error>(Error::Connection),
    {
        if established {
            Ok(NubDB { closed: false, awaiting: None })
        } else {
            Err(Error::Connection)
        }
    }

    /// Frames `command` for the stream and notes that the reply to
    /// `operation` is owed.
    fn send_command(&mut self, operation: Operation, command: String) -> (wire: Result<
        String,
        Error,
    >)
        ensures
            NubDB::starts(*old(self), *final(self), operation, command@, wire),
    {
        let quitting: bool = match operation {
            Operation::Quit => true,
            _ => false,
        };
        if self.awaiting.is_some() {
            Err(Error::Protocol)
        } else if self.closed && !quitting {
            Err(Error::Transport)
        } else {
            self.awaiting = Some(operation);
            Ok(frame(command))
        }
    }

    /// Starts storing `value` under `key`, for `ttl` seconds where given.
    pub fn set(&mut self, key: &str, value: &str, ttl: Option<u32>) -> (wire: Result<String, Error>)
        ensures
            NubDB::starts(
                *old(self),
                *final(self),
                Operation::Store,
                set_line(key@, value@, ttl),
                wire,
            ),
    {
        self.send_command(Operation::Store, set_command(key, value, ttl))
    }

    /// Starts asking for the value under `key`.
    pub fn get(&mut self, key: &str) -> (wire: Result<String, Error>)
        ensures
            NubDB::starts(
                *old(self),
                *final(self),
                Operation::Get,
                keyed_line(Operation::Get, key@),
                wire,
            ),
    {
        self.send_command(Operation::Get, keyed_command(Operation::Get, key))
    }

    /// Starts deleting `key`.
    pub fn delete(&mut self, key: &str) -> (wire: Result<String, Error>)
        ensures
            NubDB::starts(
                *old(self),
                *final(self),
                Operation::Delete,
                keyed_line(Operation::Delete, key@),
                wire,
            ),
    {
        self.send_command(Operation::Delete, keyed_command(Operation::Delete, key))
    }

    /// Starts asking whether `key` exists.
    pub fn exists_key(&mut self, key: &str) -> (wire: Result<String, Error>)
        ensures
            NubDB::starts(
                *old(self),
                *final(self),
                Operation::Exists,
                keyed_line(Operation::Exists, key@),
                wire,
            ),
    {
        self.send_command(Operation::Exists, keyed_command(Operation::Exists, key))
    }

    /// Starts adding one to the counter under `key`.
    pub fn incr(&mut self, key: &str) -> (wire: Result<String, Error>)
        ensures
            NubDB::starts(
                *old(self),
                *final(self),
                Operation::Incr,
                keyed_line(Operation::Incr, key@),
                wire,
            ),
    {
        self.send_command(Operation::Incr, keyed_command(Operation::Incr, key))
    }

    /// Starts taking one from the counter under `key`.
    pub fn decr(&mut self, key: &str) -> (wire: Result<String, Error>)
        ensures
            NubDB::starts(
                *old(self),
                *final(self),
                Operation::Decr,
                keyed_line(Operation::Decr, key@),
                wire,
            ),
    {
        self.send_command(Operation::Decr, keyed_command(Operation::Decr, key))
    }

    /// Starts asking for the number of keys.
    pub fn size(&mut self) -> (wire: Result<String, Error>)
        ensures
            NubDB::starts(
                *old(self),
                *final(self),
                Operation::Size,
                bare_line(Operation::Size),
                wire,
            ),
    {
        self.send_command(Operation::Size, bare_command(Operation::Size))
    }

    /// Starts deleting every key.
    pub fn clear(&mut self) -> (wire: Result<String, Error>)
        ensures
            NubDB::starts(
                *old(self),
                *final(self),
                Operation::Clear,
                bare_line(Operation::Clear),
                wire,
            ),
    {
        self.send_command(Operation::Clear, bare_command(Operation::Clear))
    }

    /// Starts saying goodbye. Once `receive` has answered `Reply::Closed`,
    /// the caller releases the stream.
    pub fn close(&mut self) -> (wire: Result<String, Error>)
        ensures
            NubDB::starts(
                *old(self),
                *final(self),
                Operation::Quit,
                bare_line(Operation::Quit),
                wire,
            ),
    {
        self.send_command(Operation::Quit, bare_command(Operation::Quit))
    }

    /// Ends the operation that was started last: takes what the stream did
    /// with its command and gives the operation's result. Fails with a
    /// protocol error where no operation was started. Either way no reply
    /// is owed afterwards, and the client has closed if it had before or if
    /// this was a goodbye that went well.
    pub fn receive(&mut self, exchange: Exchange) -> (reply: Result<Reply, Error>)
        ensures
            final(self).awaited() is None,
            final(self).has_closed() == (old(self).has_closed() || (old(self).awaited() == Some(
                Operation::Quit,
            ) && reply is Ok)),
            match old(self).awaited() {
                Some(operation) => match reply {
                    Ok(answer) => outcome(old(self).has_closed(), operation, exchange@) == Ok::<
                        ReplyView,
                        Error,
                    >(answer@),
                    Err(error) => outcome(old(self).has_closed(), operation, exchange@) == Err::<
                        ReplyView,
                        Error,
                    >(error),
                },
                None => reply matches Err(error) && error == Error::Protocol,
            },
    {
        let awaiting = self.awaiting;
        self.awaiting = None;
        let operation = match awaiting {
            Some(operation) => operation,
            None => {
                return Err(Error::Protocol);
            },
        };
        let quitting: bool = match operation {
            Operation::Quit => true,
            _ => false,
        };
        let reply = match exchange {
            Exchange::SendFailed => if self.closed && quitting {
                Err(Error::Connection)
            } else {
                Err(Error::Transport)
            },
            Exchange::ReceiveFailed => Err(Error::Transport),
            Exchange::Received(raw) => match extract_line(raw.as_str()) {
                Some(line) => decode(operation, line.as_str()),
                None => if quitting {
                    Ok(Reply::Closed)
                } else {
                    Err(Error::Protocol)
                },
            },
        };
        if quitting && reply.is_ok() {
            self.closed = true;
        }
        reply
    }
}

/// A value without a double quote or a line terminator goes out between
/// double quotes as the last field of its `SET` command, and the same
/// quoted text, sent back as one line in answer to `GET`, is taken whole
/// from the stream and read as that value.
pub proof fn lemma_stored_value_reads_back(
    closed: bool,
    key: Seq<char>,
    value: Seq<char>,
    rest: Seq<char>,
)
    requires
        quote_free(value),
        one_line(value),
    ensures
        set_line(key, value, None) == keyed_line(Operation::Store, key) + seq![' '] + quoted(value),
        first_line(framed(quoted(value)) + rest) == framed(quoted(value)),
        outcome(closed, Operation::Get, ExchangeView::Received(framed(quoted(value)))) == Ok::<
            ReplyView,
            Error,
        >(ReplyView::Value(Some(value))),
{
    let field = quoted(value);
    assert(one_line(field));
    lemma_first_line_of_framed(field, rest);
    lemma_framed_line_arrives(field);
    assert(is_stripped(field, CharClass::Whitespace));
    lemma_strip_stripped(field, CharClass::Whitespace);
    lemma_quoted_value_reads_back(value);
}

/// The line `(nil)`, sent in answer to `GET`, is read as no value.
pub proof fn lemma_nil_reads_as_absent(closed: bool)
    ensures
        outcome(closed, Operation::Get, ExchangeView::Received(framed("(nil)"@))) == Ok::<
            ReplyView,
            Error,
        >(ReplyView::Value(None)),
{
    reveal_strlit("(nil)");
    let line = "(nil)"@;
    lemma_framed_line_arrives(line);
    assert(is_stripped(line, CharClass::Whitespace));
    lemma_strip_stripped(line, CharClass::Whitespace);
}

/// The canonical text of a signed 64-bit integer, sent as one line in answer
/// to `INCR` or `DECR`, is read as that integer: a server that counts by
/// one is seen to count by one.
pub proof fn lemma_counter_line_reads_back(closed: bool, number: i64)
    ensures
        outcome(
            closed,
            Operation::Incr,
            ExchangeView::Received(framed(integer_text(number as int))),
        )
            == Ok::<ReplyView, Error>(ReplyView::Number(number)),
        outcome(
            closed,
            Operation::Decr,
            ExchangeView::Received(framed(integer_text(number as int))),
        )
            == Ok::<ReplyView, Error>(ReplyView::Number(number)),
{
    let line = integer_text(number as int);
    let magnitude = if number < 0 {
        (-number) as nat
    } else {
        number as nat
    };
    lemma_decimal_denotes(magnitude);
    lemma_framed_line_arrives(line);
    // A sign or a digit in front, a digit at the end.
    assert(is_stripped(line, CharClass::Whitespace));
    lemma_strip_stripped(line, CharClass::Whitespace);
    lemma_counter_reads_back(number);
}

/// A full line in answer to `EXISTS` is read as true where it is the line
/// `1`, and as false where it is any other line.
pub proof fn lemma_exists_is_true_for_one_only(closed: bool, raw: Seq<char>)
    requires
        reply_line(raw) is Some,
    ensures
        outcome(closed, Operation::Exists, ExchangeView::Received(raw)) == Ok::<ReplyView, Error>(
            ReplyView::Flag(reply_line(raw) == Some("1"@)),
        ),
{
}

/// A full line in answer to `INCR` or `DECR` that holds a character that is
/// no digit, other than a sign in front, is a decode error and never a
/// number.
pub proof fn lemma_other_text_is_no_counter(closed: bool, raw: Seq<char>, at: int)
    requires
        reply_line(raw) matches Some(line) && 0 <= at < line.len() && !is_digit(line[at]) && (at
            > 0 || (line[0] != '+' && line[0] != '-')),
    ensures
        outcome(closed, Operation::Incr, ExchangeView::Received(raw)) == Err::<ReplyView, Error>(
            Error::Decode,
        ),
        outcome(closed, Operation::Decr, ExchangeView::Received(raw)) == Err::<ReplyView, Error>(
            Error::Decode,
        ),
{
    lemma_counter_rejects_other_text(reply_line(raw)->Some_0, at);
}

} // verus!
