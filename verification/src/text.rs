//! Character classes and the stripping of runs of characters from the ends of
//! a text.
//!
//! Texts are modelled as `Seq<char>`, the view of `str` and `String`.

use vstd::prelude::*;

verus! {

/// Whether `c` is whitespace in the sense of Unicode (`White_Space`).
pub open spec fn is_whitespace(c: char) -> bool {
    ||| '\u{9}' <= c <= '\u{D}'
    ||| c == ' '
    ||| c == '\u{85}'
    ||| c == '\u{A0}'
    ||| c == '\u{1680}'
    ||| '\u{2000}' <= c <= '\u{200A}'
    ||| c == '\u{2028}'
    ||| c == '\u{2029}'
    ||| c == '\u{202F}'
    ||| c == '\u{205F}'
    ||| c == '\u{3000}'
}

/// Whether `s` holds no line terminator, so that it fits on one line.
pub open spec fn one_line(s: Seq<char>) -> bool {
    forall|i: int| 0 <= i < s.len() ==> #[trigger] s[i] != '\n'
}

/// Whether `s` holds no double quote.
pub open spec fn quote_free(s: Seq<char>) -> bool {
    forall|i: int| 0 <= i < s.len() ==> #[trigger] s[i] != '"'
}

/// A set of characters that can be counted or stripped at the ends of a text.
#[derive(Clone, Copy, Debug, PartialEq, Eq)]
pub enum CharClass {
    /// The whitespace characters.
    Whitespace,
    /// Every other character.
    Visible,
    /// The double quote alone.
    Quote,
}

impl CharClass {
    /// Membership of `c` in the class.
    pub open spec fn has(self, c: char) -> bool {
        match self {
            CharClass::Whitespace => is_whitespace(c),
            CharClass::Visible => !is_whitespace(c),
            CharClass::Quote => c == '"',
        }
    }

    /// Decides membership of `c` in the class.
    pub fn contains(self, c: char) -> (member: bool)
        ensures
            member == self.has(c),
    {
        match self {
            CharClass::Whitespace => whitespace(c),
            CharClass::Visible => !whitespace(c),
            CharClass::Quote => c == '"',
        }
    }
}

/// Decides whether `c` is whitespace.
pub fn whitespace(c: char) -> (b: bool)
    ensures
        b == is_whitespace(c),
{
    ('\u{9}' <= c && c <= '\u{D}') || c == ' ' || c == '\u{85}' || c == '\u{A0}' || c
        == '\u{1680}' || ('\u{2000}' <= c && c <= '\u{200A}') || c == '\u{2028}' || c
        == '\u{2029}' || c == '\u{202F}' || c == '\u{205F}' || c == '\u{3000}'
}

/// Length of the longest prefix of `s` made of characters of `class`.
pub open spec fn leading(s: Seq<char>, class: CharClass) -> nat
    decreases s.len(),
{
    if s.len() > 0 && class.has(s.first()) {
        1 + leading(s.drop_first(), class)
    } else {
        0
    }
}

/// Length of the longest suffix of `s` made of characters of `class`.
pub open spec fn trailing(s: Seq<char>, class: CharClass) -> nat
    decreases s.len(),
{
    if s.len() > 0 && class.has(s.last()) {
        1 + trailing(s.drop_last(), class)
    } else {
        0
    }
}

/// `s` without its longest prefix of `class`.
pub open spec fn strip_start(s: Seq<char>, class: CharClass) -> Seq<char> {
    s.subrange(leading(s, class) as int, s.len() as int)
}

/// `s` without its longest suffix of `class`.
pub open spec fn strip_end(s: Seq<char>, class: CharClass) -> Seq<char> {
    s.subrange(0, s.len() - trailing(s, class))
}

/// `s` without its longest prefix of `class` and then without the longest
/// suffix of `class` of what is left.
pub open spec fn strip(s: Seq<char>, class: CharClass) -> Seq<char> {
    strip_end(strip_start(s, class), class)
}

/// `s` without the whitespace at its two ends.
pub open spec fn trim(s: Seq<char>) -> Seq<char> {
    strip(s, CharClass::Whitespace)
}

/// `s` without the double quotes at its two ends.
pub open spec fn unquote(s: Seq<char>) -> Seq<char> {
    strip(s, CharClass::Quote)
}

/// The first run of visible characters of `s`, empty where `s` has none.
pub open spec fn first_token(s: Seq<char>) -> Seq<char> {
    let rest = strip_start(s, CharClass::Whitespace);
    rest.subrange(0, leading(rest, CharClass::Visible) as int)
}

/// Whether every character of `s` is in `class`.
pub open spec fn all_in(s: Seq<char>, class: CharClass) -> bool {
    forall|i: int| 0 <= i < s.len() ==> class.has(#[trigger] s[i])
}

/// Whether `s` has nothing to strip: it is empty, or neither begins nor ends
/// with a character of `class`.
pub open spec fn is_stripped(s: Seq<char>, class: CharClass) -> bool {
    s.len() == 0 || (!class.has(s.first()) && !class.has(s.last()))
}

/// The prefix that `leading` counts lies in the text, is made of `class`,
/// and is followed by the end of the text or by a character outside `class`.
pub proof fn lemma_leading_run(s: Seq<char>, class: CharClass)
    ensures
        leading(s, class) <= s.len(),
        forall|i: int| 0 <= i < leading(s, class) ==> class.has(#[trigger] s[i]),
        leading(s, class) < s.len() ==> !class.has(s[leading(s, class) as int]),
    decreases s.len(),
{
    if s.len() > 0 && class.has(s.first()) {
        let rest = s.drop_first();
        lemma_leading_run(rest, class);
        assert forall|i: int| 0 <= i < leading(s, class) implies class.has(#[trigger] s[i]) by {
            if i > 0 {
                assert(s[i] == rest[i - 1]);
            }
        }
    }
}

/// The suffix that `trailing` counts lies in the text, is made of `class`,
/// and is preceded by the start of the text or by a character outside
/// `class`.
pub proof fn lemma_trailing_run(s: Seq<char>, class: CharClass)
    ensures
        trailing(s, class) <= s.len(),
        forall|i: int| s.len() - trailing(s, class) <= i < s.len() ==> class.has(#[trigger] s[i]),
        trailing(s, class) < s.len() ==> !class.has(s[s.len() - trailing(s, class) - 1]),
    decreases s.len(),
{
    if s.len() > 0 && class.has(s.last()) {
        let rest = s.drop_last();
        lemma_trailing_run(rest, class);
        assert forall|i: int| s.len() - trailing(s, class) <= i < s.len() implies class.has(
            #[trigger] s[i],
        ) by {
            if i < s.len() - 1 {
                assert(s[i] == rest[i]);
            }
        }
    }
}

/// A prefix of `class` that ends the text or is followed by a character
/// outside `class` is the longest one.
pub proof fn lemma_leading_is(s: Seq<char>, class: CharClass, n: nat)
    requires
        n <= s.len(),
        forall|i: int| 0 <= i < n ==> class.has(#[trigger] s[i]),
        n < s.len() ==> !class.has(s[n as int]),
    ensures
        leading(s, class) == n,
    decreases n,
{
    if n > 0 {
        lemma_leading_is(s.drop_first(), class, (n - 1) as nat);
    }
}

/// A suffix of `class` that begins the text or is preceded by a character
/// outside `class` is the longest one.
pub proof fn lemma_trailing_is(s: Seq<char>, class: CharClass, n: nat)
    requires
        n <= s.len(),
        forall|i: int| s.len() - n <= i < s.len() ==> class.has(#[trigger] s[i]),
        n < s.len() ==> !class.has(s[s.len() - n - 1]),
    ensures
        trailing(s, class) == n,
    decreases n,
{
    if n > 0 {
        lemma_trailing_is(s.drop_last(), class, (n - 1) as nat);
    }
}

/// Stripping takes exactly the padding away: a text with nothing to strip,
/// between a text of `class` and another, is what `strip` keeps of the
/// whole.
pub proof fn lemma_strip_padded(
    before: Seq<char>,
    core: Seq<char>,
    after: Seq<char>,
    class: CharClass,
)
    requires
        all_in(before, class),
        all_in(after, class),
        is_stripped(core, class),
    ensures
        strip(before + core + after, class) == core,
{
    let whole = before + core + after;
    if core.len() == 0 {
        lemma_leading_is(whole, class, whole.len());
    } else {
        lemma_leading_is(whole, class, before.len());
        lemma_trailing_is(strip_start(whole, class), class, after.len());
    }
}

/// A text is what `strip` keeps of it, between a text of `class` and
/// another; and what `strip` keeps has nothing to strip.
pub proof fn lemma_strip_parts(s: Seq<char>, class: CharClass) -> (parts: (Seq<char>, Seq<char>))
    ensures
        s == parts.0 + strip(s, class) + parts.1,
        all_in(parts.0, class),
        all_in(parts.1, class),
        is_stripped(strip(s, class), class),
{
    lemma_leading_run(s, class);
    let rest = strip_start(s, class);
    lemma_trailing_run(rest, class);
    let before = s.subrange(0, leading(s, class) as int);
    let after = rest.subrange(rest.len() - trailing(rest, class), rest.len() as int);
    (before, after)
}

/// Stripping a text with nothing to strip changes nothing.
pub proof fn lemma_strip_stripped(s: Seq<char>, class: CharClass)
    requires
        is_stripped(s, class),
    ensures
        strip(s, class) == s,
{
    let empty = Seq::<char>::empty();
    lemma_strip_padded(empty, s, empty, class);
}

/// The characters of `s`, in order.
pub(crate) fn chars_of(s: &str) -> (chars: Vec<char>)
    ensures
        chars@ == s@,
{
    let mut chars: Vec<char> = Vec::new();
    for c in it: s.chars()
        invariant
            it.seq() == s@,
            chars@ == it.seq().take(it.index() as int),
    {
        chars.push(c);
    }
    chars
}

/// Finds, within `chars[from..to]`, the part that `strip` keeps.
pub(crate) fn strip_bounds(
    chars: &Vec<char>,
    from: usize,
    to: usize,
    class: CharClass,
) -> (bounds: (usize, usize))
    requires
        from <= to <= chars.len(),
    ensures
        from <= bounds.0 <= bounds.1 <= to,
        chars@.subrange(bounds.0 as int, bounds.1 as int) == strip(
            chars@.subrange(from as int, to as int),
            class,
        ),
{
    let start: usize = skip_leading(chars, from, to, class);
    let mut end: usize = to;
    while end > start && class.contains(chars[end - 1])
        invariant
            start <= end <= to <= chars.len(),
            forall|i: int| end <= i < to ==> class.has(#[trigger] chars@[i]),
        decreases end,
    {
        end -= 1;
    }
    proof {
        let whole = chars@.subrange(from as int, to as int);
        let rest = strip_start(whole, class);
        lemma_trailing_is(rest, class, (to - end) as nat);
    }
    (start, end)
}

/// Finds where the longest prefix of `class` of `chars[from..to]` ends.
pub(crate) fn skip_leading(
    chars: &Vec<char>,
    from: usize,
    to: usize,
    class: CharClass,
) -> (start: usize)
    requires
        from <= to <= chars.len(),
    ensures
        from <= start <= to,
        start - from == leading(chars@.subrange(from as int, to as int), class),
{
    let mut start: usize = from;
    while start < to && class.contains(chars[start])
        invariant
            from <= start <= to <= chars.len(),
            forall|i: int| from <= i < start ==> class.has(#[trigger] chars@[i]),
        decreases to - start,
    {
        start += 1;
    }
    proof {
        lemma_leading_is(chars@.subrange(from as int, to as int), class, (start - from) as nat);
    }
    start
}

} // verus!
