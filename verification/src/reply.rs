//! The reply lines of the protocol.
//!
//! The server answers each command with one line. What the line means
//! depends on the operation that was asked for.

use vstd::prelude::*;
use vstd::string::*;
use crate::command::{Operation, quoted};
use crate::error::Error;
use crate::number::{
    as_i64, as_usize, decimal, integer_text, is_digit, lemma_decimal_denotes,
    lemma_integer_text_denotes, read_i64, read_usize,
};
use crate::text::{
    CharClass, all_in, chars_of, first_token, is_whitespace, lemma_leading_is,
    lemma_strip_padded, quote_free, skip_leading, strip_bounds, strip_start, unquote,
};

verus! {

/// What a reply line told the client.
#[derive(Debug, PartialEq, Eq)]
pub enum Reply {
    /// Whether the server acknowledged the command or found the key.
    Flag(bool),
    /// The value stored under the key, if there is one.
    Value(Option<String>),
    /// The new value of a counter.
    Number(i64),
    /// The number of keys in the store.
    Count(usize),
    /// The goodbye went out; whatever came back was dropped.
    Closed,
}

/// A `Reply` with its text as a sequence of characters.
pub enum ReplyView {
    Flag(bool),
    Value(Option<Seq<char>>),
    Number(i64),
    Count(usize),
    Closed,
}

impl View for Reply {
    type V = ReplyView;

    open spec fn view(&self) -> ReplyView {
        match *self {
            Reply::Flag(flag) => ReplyView::Flag(flag),
            Reply::Value(Some(value)) => ReplyView::Value(Some(value@)),
            Reply::Value(None) => ReplyView::Value(None),
            Reply::Number(number) => ReplyView::Number(number),
            Reply::Count(count) => ReplyView::Count(count),
            Reply::Closed => ReplyView::Closed,
        }
    }
}

impl Reply {
    /// The flag that the reply carries; a protocol error for a reply of
    /// another shape.
    pub fn into_flag(self) -> (flag: Result<bool, Error>)
        ensures
            flag == match self {
                Reply::Flag(is_set) => Ok::<bool, Error>(is_set),
                _ => Err::<bool, Error>(Error::Protocol),
            },
    {
        match self {
            Reply::Flag(is_set) => Ok(is_set),
            _ => Err(Error::Protocol),
        }
    }

    /// The value that the reply carries, if it carries one; a protocol
    /// error for a reply of another shape.
    pub fn into_value(self) -> (value: Result<Option<String>, Error>)
        ensures
            value == match self {
                Reply::Value(stored) => Ok::<Option<String>, Error>(stored),
                _ => Err::<Option<String>, Error>(Error::Protocol),
            },
    {
        match self {
            Reply::Value(stored) => Ok(stored),
            _ => Err(Error::Protocol),
        }
    }

    /// The counter that the reply carries; a protocol error for a reply of
    /// another shape.
    pub fn into_number(self) -> (number: Result<i64, Error>)
        ensures
            number == match self {
                Reply::Number(counter) => Ok::<i64, Error>(counter),
                _ => Err::<i64, Error>(Error::Protocol),
            },
    {
        match self {
            Reply::Number(counter) => Ok(counter),
            _ => Err(Error::Protocol),
        }
    }

    /// The count that the reply carries; a protocol error for a reply of
    /// another shape.
    pub fn into_count(self) -> (count: Result<usize, Error>)
        ensures
            count == match self {
                Reply::Count(keys) => Ok::<usize, Error>(keys),
                _ => Err::<usize, Error>(Error::Protocol),
            },
    {
        match self {
            Reply::Count(keys) => Ok(keys),
            _ => Err(Error::Protocol),
        }
    }
}

/// Whether `line` acknowledges a command.
pub open spec fn acknowledges(line: Seq<char>) -> bool {
    line == "OK"@
}

/// Whether `line` says that a key exists.
pub open spec fn affirms(line: Seq<char>) -> bool {
    line == "1"@
}

/// The value that `line` carries in answer to `GET`: none for the line
/// `(nil)`, else the line without the double quotes at its ends.
pub open spec fn value_of(line: Seq<char>) -> Option<Seq<char>> {
    if line == "(nil)"@ {
        None
    } else {
        Some(unquote(line))
    }
}

/// The counter that `line` carries: the line read as a signed 64-bit
/// integer.
pub open spec fn counter_of(line: Seq<char>) -> Result<i64, Error> {
    match as_i64(line) {
        Some(number) => Ok(number),
        None => Err(Error::Decode),
    }
}

/// The count that `line` carries: 0 for a line without a visible character,
/// else the first run of visible characters read as a `usize`.
pub open spec fn count_of(line: Seq<char>) -> Result<usize, Error> {
    let token = first_token(line);
    if token.len() == 0 {
        Ok(0)
    } else {
        match as_usize(token) {
            Some(count) => Ok(count),
            None => Err(Error::Decode),
        }
    }
}

/// What `line` means in answer to `operation`.
pub open spec fn decoded(operation: Operation, line: Seq<char>) -> Result<ReplyView, Error> {
    match operation {
        Operation::Store | Operation::Delete | Operation::Clear => Ok(
            ReplyView::Flag(acknowledges(line)),
        ),
        Operation::Exists => Ok(ReplyView::Flag(affirms(line))),
        Operation::Get => Ok(ReplyView::Value(value_of(line))),
        Operation::Incr | Operation::Decr => match counter_of(line) {
            Ok(number) => Ok(ReplyView::Number(number)),
            Err(error) => Err(error),
        },
        Operation::Size => match count_of(line) {
            Ok(count) => Ok(ReplyView::Count(count)),
            Err(error) => Err(error),
        },
        Operation::Quit => Ok(ReplyView::Closed),
    }
}

/// Decides whether `chars` spells `literal`.
fn spells(chars: &Vec<char>, literal: &str) -> (same: bool)
    ensures
        same == (chars@ == literal@),
{
    let n: usize = literal.unicode_len();
    if chars.len() != n {
        return false;
    }
    let mut i: usize = 0;
    while i < n
        invariant
            n == literal@.len(),
            chars.len() == n,
            i <= n,
            forall|j: int| 0 <= j < i ==> chars@[j] == literal@[j],
        decreases n - i,
    {
        if chars[i] != literal.get_char(i) {
            return false;
        }
        i += 1;
    }
    assert(chars@ =~= literal@);
    true
}

/// Reads the acknowledgement of `SET`, `DELETE` or `CLEAR`.
pub fn decode_flag(line: &str) -> (done: bool)
    ensures
        done == acknowledges(line@),
{
    let chars = chars_of(line);
    spells(&chars, "OK")
}

/// Reads the answer to `EXISTS`.
pub fn decode_exists(line: &str) -> (found: bool)
    ensures
        found == affirms(line@),
{
    let chars = chars_of(line);
    spells(&chars, "1")
}

/// Reads the answer to `GET`.
pub fn decode_value(line: &str) -> (value: Option<String>)
    ensures
        match value {
            Some(text) => value_of(line@) == Some(text@),
            None => value_of(line@) is None,
        },
{
    let chars = chars_of(line);
    if spells(&chars, "(nil)") {
        None
    } else {
        let n: usize = chars.len();
        let (start, end) = strip_bounds(&chars, 0, n, CharClass::Quote);
        assert(chars@.subrange(0, n as int) =~= line@);
        Some(String::from_str(line.substring_char(start, end)))
    }
}

/// Reads the answer to `INCR` or `DECR`.
pub fn decode_counter(line: &str) -> (number: Result<i64, Error>)
    ensures
        number == counter_of(line@),
{
    let chars = chars_of(line);
    let n: usize = chars.len();
    assert(chars@.subrange(0, n as int) =~= line@);
    match read_i64(&chars, 0, n) {
        Some(number) => Ok(number),
        None => Err(Error::Decode),
    }
}

/// Reads the answer to `SIZE`.
pub fn decode_size(line: &str) -> (count: Result<usize, Error>)
    ensures
        count == count_of(line@),
{
    let chars = chars_of(line);
    let n: usize = chars.len();
    assert(chars@.subrange(0, n as int) =~= line@);
    let start: usize = skip_leading(&chars, 0, n, CharClass::Whitespace);
    let end: usize = skip_leading(&chars, start, n, CharClass::Visible);
    assert(chars@.subrange(start as int, end as int) =~= first_token(line@));
    if start == end {
        Ok(0)
    } else {
        match read_usize(&chars, start, end) {
            Some(count) => Ok(count),
            None => Err(Error::Decode),
        }
    }
}

/// Reads `line` as the answer to `operation`.
pub fn decode(operation: Operation, line: &str) -> (reply: Result<Reply, Error>)
    ensures
        match reply {
            Ok(answer) => decoded(operation, line@) == Ok::<ReplyView, Error>(answer@),
            Err(error) => decoded(operation, line@) == Err::<ReplyView, Error>(error),
        },
{
    match operation {
        Operation::Store | Operation::Delete | Operation::Clear => Ok(
            Reply::Flag(decode_flag(line)),
        ),
        Operation::Exists => Ok(Reply::Flag(decode_exists(line))),
        Operation::Get => Ok(Reply::Value(decode_value(line))),
        Operation::Incr | Operation::Decr => match decode_counter(line) {
            Ok(number) => Ok(Reply::Number(number)),
            Err(error) => Err(error),
        },
        Operation::Size => match decode_size(line) {
            Ok(count) => Ok(Reply::Count(count)),
            Err(error) => Err(error),
        },
        Operation::Quit => Ok(Reply::Closed),
    }
}

/// A value without a double quote, sent between double quotes, is read back
/// as it was.
pub proof fn lemma_quoted_value_reads_back(value: Seq<char>)
    requires
        quote_free(value),
    ensures
        value_of(quoted(value)) == Some(value),
{
    reveal_strlit("(nil)");
    let quote = seq!['"'];
    lemma_strip_padded(quote, value, quote, CharClass::Quote);
}

/// The canonical text of a signed 64-bit integer is read back as that
/// integer.
pub proof fn lemma_counter_reads_back(number: i64)
    ensures
        counter_of(integer_text(number as int)) == Ok::<i64, Error>(number),
{
    lemma_integer_text_denotes(number as int);
}

/// A line with a character that is no digit, other than a sign in front, is
/// never read as a counter.
pub proof fn lemma_counter_rejects_other_text(line: Seq<char>, at: int)
    requires
        0 <= at < line.len(),
        !is_digit(line[at]),
        at > 0 || (line[0] != '+' && line[0] != '-'),
    ensures
        counter_of(line) == Err::<i64, Error>(Error::Decode),
{
    if line.first() == '-' || line.first() == '+' {
        let body = line.drop_first();
        assert(body[at - 1] == line[at]);
    }
}

/// The shortest decimal text of a count is read back as that count, and so
/// is that text followed by whitespace and anything else.
pub proof fn lemma_count_reads_first_token(count: usize, gap: char, rest: Seq<char>)
    requires
        is_whitespace(gap),
    ensures
        count_of(decimal(count as nat)) == Ok::<usize, Error>(count),
        count_of(decimal(count as nat) + seq![gap] + rest) == Ok::<usize, Error>(count),
{
    let digits = decimal(count as nat);
    lemma_decimal_denotes(count as nat);
    assert(all_in(digits, CharClass::Visible));

    // The digits alone: no whitespace in front, and every digit in the token.
    lemma_leading_is(digits, CharClass::Whitespace, 0);
    assert(strip_start(digits, CharClass::Whitespace) =~= digits);
    lemma_leading_is(digits, CharClass::Visible, digits.len());

    // The digits and more: the token ends at the gap.
    let line = digits + seq![gap] + rest;
    lemma_leading_is(line, CharClass::Whitespace, 0);
    assert(strip_start(line, CharClass::Whitespace) =~= line);
    lemma_leading_is(line, CharClass::Visible, digits.len());
    assert(first_token(line) =~= digits);
}

} // verus!
