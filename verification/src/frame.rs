//! Lines on the stream.
//!
//! Each command goes out as one line, and each reply comes back as one line.
//! A line ends in a line terminator; the whitespace at the two ends of a
//! reply line means nothing.

use vstd::prelude::*;
use vstd::string::*;
use crate::text::{
    CharClass, chars_of, lemma_strip_padded, lemma_strip_parts, one_line, strip_bounds, trim,
};

verus! {

/// The text that carries `line` over the stream: the line and a line
/// terminator.
pub open spec fn framed(line: Seq<char>) -> Seq<char> {
    line + seq!['\n']
}

/// What one read up to and including the line terminator takes from the
/// front of `stream`: the characters up to and including the first
/// terminator, or all of them where there is none.
pub open spec fn first_line(stream: Seq<char>) -> Seq<char>
    decreases stream.len(),
{
    if stream.len() == 0 {
        stream
    } else if stream.first() == '\n' {
        seq!['\n']
    } else {
        seq![stream.first()] + first_line(stream.drop_first())
    }
}

/// The line that `raw` carries, where `raw` is what one read up to and
/// including the line terminator returned: `raw` without the whitespace at
/// its ends. `None` where `raw` does not end in a line terminator, which
/// means that the stream ended first.
pub open spec fn reply_line(raw: Seq<char>) -> Option<Seq<char>> {
    if raw.len() > 0 && raw.last() == '\n' {
        Some(trim(raw))
    } else {
        None
    }
}

/// Ends `line` with a line terminator.
pub fn frame(line: String) -> (wire: String)
    ensures
        wire@ == framed(line@),
{
    proof {
        reveal_strlit("\n");
    }
    let mut wire = line;
    wire.append("\n");
    wire
}

/// Takes the reply line out of what one read returned.
pub fn extract_line(raw: &str) -> (line: Option<String>)
    ensures
        match line {
            Some(text) => reply_line(raw@) == Some(text@),
            None => reply_line(raw@) is None,
        },
{
    let chars = chars_of(raw);
    let n: usize = chars.len();
    if n == 0 || chars[n - 1] != '\n' {
        return None;
    }
    let (start, end) = strip_bounds(&chars, 0, n, CharClass::Whitespace);
    assert(chars@.subrange(0, n as int) =~= raw@);
    Some(String::from_str(raw.substring_char(start, end)))
}

/// One read takes exactly one framed line from the front of a stream,
/// whatever follows it, where the line holds no terminator of its own.
pub proof fn lemma_first_line_of_framed(line: Seq<char>, rest: Seq<char>)
    requires
        one_line(line),
    ensures
        first_line(framed(line) + rest) == framed(line),
    decreases line.len(),
{
    if line.len() > 0 {
        let tail = line.drop_first();
        lemma_first_line_of_framed(tail, rest);
        assert((framed(line) + rest).drop_first() =~= framed(tail) + rest);
    }
}

/// A framed line arrives as the line without the whitespace at its ends.
pub proof fn lemma_framed_line_arrives(line: Seq<char>)
    ensures
        reply_line(framed(line)) == Some(trim(line)),
{
    let (before, after) = lemma_strip_parts(line, CharClass::Whitespace);
    let core = trim(line);
    let padding = after + seq!['\n'];
    assert(framed(line) =~= before + core + padding);
    lemma_strip_padded(before, core, padding, CharClass::Whitespace);
}

} // verus!
