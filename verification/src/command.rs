//! The command lines of the protocol.
//!
//! A command is one line of text: a verb, then its arguments, separated by
//! single spaces. A value is wrapped in double quotes; nothing is escaped,
//! so a key with whitespace in it, or a value with a double quote or a line
//! terminator in it, gives a line that the server will not read as it was
//! meant.

use vstd::prelude::*;
use vstd::string::*;
use crate::frame::{first_line, framed, lemma_first_line_of_framed};
use crate::number::{all_digits, decimal, lemma_decimal_denotes, push_decimal};
use crate::text::{CharClass, all_in, one_line, quote_free};

verus! {

/// The operations of the protocol.
#[derive(Clone, Copy, Debug, PartialEq, Eq, Structural)]
pub enum Operation {
    /// `SET`: stores a value under a key.
    Store,
    /// `GET`: asks for the value under a key.
    Get,
    /// `DELETE`: deletes a key.
    Delete,
    /// `EXISTS`: asks whether a key exists.
    Exists,
    /// `INCR`: adds one to the counter under a key.
    Incr,
    /// `DECR`: takes one from the counter under a key.
    Decr,
    /// `SIZE`: asks for the number of keys.
    Size,
    /// `CLEAR`: deletes every key.
    Clear,
    /// `QUIT`: says goodbye.
    Quit,
}

impl Operation {
    /// The verb that opens the command line of the operation.
    pub open spec fn verb(self) -> Seq<char> {
        match self {
            Operation::Store => "SET"@,
            Operation::Get => "GET"@,
            Operation::Delete => "DELETE"@,
            Operation::Exists => "EXISTS"@,
            Operation::Incr => "INCR"@,
            Operation::Decr => "DECR"@,
            Operation::Size => "SIZE"@,
            Operation::Clear => "CLEAR"@,
            Operation::Quit => "QUIT"@,
        }
    }

    /// The verb of the operation as text.
    pub fn keyword(self) -> (text: &'static str)
        ensures
            text@ == self.verb(),
    {
        match self {
            Operation::Store => "SET",
            Operation::Get => "GET",
            Operation::Delete => "DELETE",
            Operation::Exists => "EXISTS",
            Operation::Incr => "INCR",
            Operation::Decr => "DECR",
            Operation::Size => "SIZE",
            Operation::Clear => "CLEAR",
            Operation::Quit => "QUIT",
        }
    }
}

/// `value` between two double quotes.
pub open spec fn quoted(value: Seq<char>) -> Seq<char> {
    seq!['"'] + value + seq!['"']
}

/// The command line of an operation without arguments: its verb.
pub open spec fn bare_line(operation: Operation) -> Seq<char> {
    operation.verb()
}

/// The command line of an operation on one key: the verb, a space, the key.
pub open spec fn keyed_line(operation: Operation, key: Seq<char>) -> Seq<char> {
    operation.verb() + seq![' '] + key
}

/// The time to live as it ends the command line that stores a value:
/// nothing, or a space and the seconds in decimal.
pub open spec fn ttl_field(ttl: Option<u32>) -> Seq<char> {
    match ttl {
        Some(seconds) => seq![' '] + decimal(seconds as nat),
        None => Seq::<char>::empty(),
    }
}

/// The command line that stores `value` under `key`: the verb, the key,
/// the quoted value and the time to live, where one is given.
pub open spec fn set_line(key: Seq<char>, value: Seq<char>, ttl: Option<u32>) -> Seq<char> {
    keyed_line(Operation::Store, key) + seq![' '] + quoted(value) + ttl_field(ttl)
}

/// Builds the command line of an operation without arguments.
pub fn bare_command(operation: Operation) -> (line: String)
    ensures
        line@ == bare_line(operation),
{
    String::from_str(operation.keyword())
}

/// Builds the command line of an operation on one key.
pub fn keyed_command(operation: Operation, key: &str) -> (line: String)
    ensures
        line@ == keyed_line(operation, key@),
{
    proof {
        reveal_strlit(" ");
    }
    let mut line = String::from_str(operation.keyword());
    line.append(" ");
    line.append(key);
    line
}

/// Builds the command line that stores `value` under `key`.
pub fn set_command(key: &str, value: &str, ttl: Option<u32>) -> (line: String)
    ensures
        line@ == set_line(key@, value@, ttl),
{
    proof {
        reveal_strlit(" ");
        reveal_strlit("\"");
    }
    let mut line = keyed_command(Operation::Store, key);
    line.append(" ");
    line.append("\"");
    line.append(value);
    line.append("\"");
    match ttl {
        Some(seconds) => {
            line.append(" ");
            push_decimal(&mut line, seconds);
        },
        None => {},
    }
    line
}

/// The command of an operation without arguments is one line: one read
/// takes it whole from the front of a stream, and no more.
pub proof fn lemma_bare_command_is_one_line(operation: Operation, rest: Seq<char>)
    ensures
        one_line(bare_line(operation)),
        first_line(framed(bare_line(operation)) + rest) == framed(bare_line(operation)),
{
    reveal_strlit("SET");
    reveal_strlit("GET");
    reveal_strlit("DELETE");
    reveal_strlit("EXISTS");
    reveal_strlit("INCR");
    reveal_strlit("DECR");
    reveal_strlit("SIZE");
    reveal_strlit("CLEAR");
    reveal_strlit("QUIT");
    lemma_first_line_of_framed(bare_line(operation), rest);
}

/// The command of an operation on a key without a line terminator is one
/// line: one read takes it whole from the front of a stream, and no more.
pub proof fn lemma_keyed_command_is_one_line(operation: Operation, key: Seq<char>, rest: Seq<char>)
    requires
        one_line(key),
    ensures
        one_line(keyed_line(operation, key)),
        first_line(framed(keyed_line(operation, key)) + rest) == framed(
            keyed_line(operation, key),
        ),
{
    lemma_bare_command_is_one_line(operation, rest);
    lemma_first_line_of_framed(keyed_line(operation, key), rest);
}

/// The command that stores a value under a key, neither with a line
/// terminator in it, is one line: one read takes it whole from the front of
/// a stream, and no more.
pub proof fn lemma_set_command_is_one_line(
    key: Seq<char>,
    value: Seq<char>,
    ttl: Option<u32>,
    rest: Seq<char>,
)
    requires
        one_line(key),
        one_line(value),
    ensures
        one_line(set_line(key, value, ttl)),
        first_line(framed(set_line(key, value, ttl)) + rest) == framed(set_line(key, value, ttl)),
{
    lemma_keyed_command_is_one_line(Operation::Store, key, rest);
    if let Some(seconds) = ttl {
        lemma_decimal_denotes(seconds as nat);
        assert(all_digits(decimal(seconds as nat)));
    }
    lemma_first_line_of_framed(set_line(key, value, ttl), rest);
}

/// Different times to live are written differently.
proof fn lemma_ttl_field_is_unambiguous(first: Option<u32>, second: Option<u32>)
    requires
        ttl_field(first) == ttl_field(second),
    ensures
        first == second,
{
    if let (Some(a), Some(b)) = (first, second) {
        lemma_decimal_denotes(a as nat);
        lemma_decimal_denotes(b as nat);
        assert(ttl_field(first).drop_first() =~= decimal(a as nat));
        assert(ttl_field(second).drop_first() =~= decimal(b as nat));
    }
}

/// Two texts that end at the same mark, neither with the mark in it, and
/// go on from there, are the same text where the wholes are the same.
proof fn lemma_same_up_to_mark(
    first: Seq<char>,
    first_rest: Seq<char>,
    second: Seq<char>,
    second_rest: Seq<char>,
    mark: char,
)
    requires
        forall|i: int| 0 <= i < first.len() ==> #[trigger] first[i] != mark,
        forall|i: int| 0 <= i < second.len() ==> #[trigger] second[i] != mark,
        first + seq![mark] + first_rest == second + seq![mark] + second_rest,
    ensures
        first == second,
        first_rest == second_rest,
{
    let whole = first + seq![mark] + first_rest;
    let other = second + seq![mark] + second_rest;
    // The mark stands at the same place in both.
    if first.len() < second.len() {
        assert(whole[first.len() as int] == mark);
        assert(other[first.len() as int] == second[first.len() as int]);
    }
    if second.len() < first.len() {
        assert(other[second.len() as int] == mark);
        assert(whole[second.len() as int] == first[second.len() as int]);
    }
    assert forall|i: int| 0 <= i < first.len() implies first[i] == second[i] by {
        assert(whole[i] == first[i]);
        assert(other[i] == second[i]);
    }
    assert(whole.len() == first.len() + 1 + first_rest.len());
    assert(other.len() == second.len() + 1 + second_rest.len());
    assert forall|i: int| 0 <= i < first_rest.len() implies first_rest[i] == second_rest[i] by {
        assert(whole[first.len() + 1 + i] == first_rest[i]);
        assert(other[second.len() + 1 + i] == second_rest[i]);
    }
}

/// The command line that stores a value says which key, which value and
/// which time to live it is about: with keys without whitespace and values
/// without double quotes, different arguments give different lines.
pub proof fn lemma_set_command_is_unambiguous(
    key: Seq<char>,
    value: Seq<char>,
    ttl: Option<u32>,
    other_key: Seq<char>,
    other_value: Seq<char>,
    other_ttl: Option<u32>,
)
    requires
        all_in(key, CharClass::Visible),
        all_in(other_key, CharClass::Visible),
        quote_free(value),
        quote_free(other_value),
        set_line(key, value, ttl) == set_line(other_key, other_value, other_ttl),
    ensures
        key == other_key,
        value == other_value,
        ttl == other_ttl,
{
    let head = Operation::Store.verb() + seq![' '];
    let tail = seq!['"'] + value + seq!['"'] + ttl_field(ttl);
    let other_tail = seq!['"'] + other_value + seq!['"'] + ttl_field(other_ttl);
    let line = set_line(key, value, ttl);
    let other_line = set_line(other_key, other_value, other_ttl);
    let body = key + seq![' '] + tail;
    let other_body = other_key + seq![' '] + other_tail;
    assert(body =~= line.subrange(head.len() as int, line.len() as int));
    assert(other_body =~= other_line.subrange(head.len() as int, other_line.len() as int));
    lemma_same_up_to_mark(key, tail, other_key, other_tail, ' ');

    let field = value + seq!['"'] + ttl_field(ttl);
    let other_field = other_value + seq!['"'] + ttl_field(other_ttl);
    assert(field =~= tail.drop_first());
    assert(other_field =~= other_tail.drop_first());
    lemma_same_up_to_mark(value, ttl_field(ttl), other_value, ttl_field(other_ttl), '"');
    lemma_ttl_field_is_unambiguous(ttl, other_ttl);
}

/// The command line of an operation on a key says which operation and
/// which key it is about: with keys without whitespace, different arguments
/// give different lines.
pub proof fn lemma_keyed_command_is_unambiguous(
    operation: Operation,
    key: Seq<char>,
    other_operation: Operation,
    other_key: Seq<char>,
)
    requires
        all_in(key, CharClass::Visible),
        all_in(other_key, CharClass::Visible),
        keyed_line(operation, key) == keyed_line(other_operation, other_key),
    ensures
        operation == other_operation,
        key == other_key,
{
    reveal_strlit("SET");
    reveal_strlit("GET");
    reveal_strlit("DELETE");
    reveal_strlit("EXISTS");
    reveal_strlit("INCR");
    reveal_strlit("DECR");
    reveal_strlit("SIZE");
    reveal_strlit("CLEAR");
    reveal_strlit("QUIT");
    let verb = operation.verb();
    let other_verb = other_operation.verb();
    lemma_same_up_to_mark(verb, key, other_verb, other_key, ' ');
    // No two verbs have the same length and the same first letter.
    assert(verb.len() == other_verb.len());
    assert(verb[0] == other_verb[0]);
}

} // verus!
