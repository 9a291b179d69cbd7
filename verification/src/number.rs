//! Decimal integers as text: how a number is written on the wire and how a
//! written number is read back.

use vstd::prelude::*;
use vstd::string::*;

verus! {

/// Whether `c` is one of the ten ASCII digits.
pub open spec fn is_digit(c: char) -> bool {
    '0' <= c <= '9'
}

/// The number that the digit `c` stands for; 0 for any other character.
pub open spec fn digit_value(c: char) -> nat {
    if is_digit(c) {
        (c as int - '0' as int) as nat
    } else {
        0
    }
}

/// The digit that stands for `d`, for `d` below ten.
pub open spec fn digit_char(d: nat) -> char {
    ('0' as int + d) as char
}

/// Whether every character of `s` is a digit.
pub open spec fn all_digits(s: Seq<char>) -> bool {
    forall|i: int| 0 <= i < s.len() ==> is_digit(#[trigger] s[i])
}

/// The number that a text of digits denotes in base ten, most significant
/// digit first.
pub open spec fn digits_value(s: Seq<char>) -> nat
    decreases s.len(),
{
    if s.len() == 0 {
        0
    } else {
        digits_value(s.drop_last()) * 10 + digit_value(s.last())
    }
}

/// The shortest text of digits that denotes `n`.
pub open spec fn decimal(n: nat) -> Seq<char>
    decreases n,
{
    if n < 10 {
        seq![digit_char(n)]
    } else {
        decimal(n / 10).push(digit_char(n % 10))
    }
}

/// The canonical text of the integer `n`: a minus sign where `n` is
/// negative, then the shortest text of digits of its magnitude.
pub open spec fn integer_text(n: int) -> Seq<char> {
    if n < 0 {
        seq!['-'] + decimal((-n) as nat)
    } else {
        decimal(n as nat)
    }
}

/// What a non-empty text of digits denotes; `None` for any other text.
pub open spec fn natural_literal(s: Seq<char>) -> Option<nat> {
    if s.len() > 0 && all_digits(s) {
        Some(digits_value(s))
    } else {
        None
    }
}

/// What an unsigned integer literal denotes: an optional plus sign, then one
/// digit or more. `None` for any other text.
pub open spec fn unsigned_literal(s: Seq<char>) -> Option<nat> {
    if s.len() > 0 && s.first() == '+' {
        natural_literal(s.drop_first())
    } else {
        natural_literal(s)
    }
}

/// What a signed integer literal denotes: an optional plus or minus sign,
/// then one digit or more. `None` for any other text.
pub open spec fn signed_literal(s: Seq<char>) -> Option<int> {
    if s.len() > 0 && s.first() == '-' {
        match natural_literal(s.drop_first()) {
            Some(magnitude) => Some(-(magnitude as int)),
            None => None,
        }
    } else {
        match unsigned_literal(s) {
            Some(magnitude) => Some(magnitude as int),
            None => None,
        }
    }
}

/// The signed 64-bit integer that `s` denotes; `None` where `s` is no signed
/// integer literal or denotes a number outside the type.
pub open spec fn as_i64(s: Seq<char>) -> Option<i64> {
    match signed_literal(s) {
        Some(n) => if i64::MIN <= n <= i64::MAX {
            Some(n as i64)
        } else {
            None
        },
        None => None,
    }
}

/// The `usize` that `s` denotes; `None` where `s` is no unsigned integer
/// literal or denotes a number outside the type.
pub open spec fn as_usize(s: Seq<char>) -> Option<usize> {
    match unsigned_literal(s) {
        Some(n) => if n <= usize::MAX {
            Some(n as usize)
        } else {
            None
        },
        None => None,
    }
}

/// The value of a text of digits is at least the value of each of its
/// prefixes.
pub proof fn lemma_digits_value_prefix(s: Seq<char>, k: int)
    requires
        0 <= k <= s.len(),
    ensures
        digits_value(s.take(k)) <= digits_value(s),
    decreases s.len(),
{
    if k == s.len() {
        assert(s.take(k) =~= s);
    } else {
        assert(s.drop_last().take(k) =~= s.take(k));
        lemma_digits_value_prefix(s.drop_last(), k);
    }
}

/// `decimal(n)` is a non-empty text of digits that denotes `n`.
pub proof fn lemma_decimal_denotes(n: nat)
    ensures
        decimal(n).len() > 0,
        all_digits(decimal(n)),
        digits_value(decimal(n)) == n,
        natural_literal(decimal(n)) == Some(n),
    decreases n,
{
    if n < 10 {
        assert(digits_value(decimal(n).drop_last()) == 0);
    } else {
        lemma_decimal_denotes(n / 10);
        assert(decimal(n).drop_last() =~= decimal(n / 10));
    }
}

/// Reading the canonical text of an integer gives that integer back.
pub proof fn lemma_integer_text_denotes(n: int)
    ensures
        signed_literal(integer_text(n)) == Some(n),
{
    if n < 0 {
        let magnitude = (-n) as nat;
        lemma_decimal_denotes(magnitude);
        assert(integer_text(n).drop_first() =~= decimal(magnitude));
    } else {
        lemma_decimal_denotes(n as nat);
    }
}

/// The one-character text of the digit `d`.
fn digit_text(d: u32) -> (text: &'static str)
    requires
        d < 10,
    ensures
        text@ == seq![digit_char(d as nat)],
{
    proof {
        reveal_strlit("0");
        reveal_strlit("1");
        reveal_strlit("2");
        reveal_strlit("3");
        reveal_strlit("4");
        reveal_strlit("5");
        reveal_strlit("6");
        reveal_strlit("7");
        reveal_strlit("8");
        reveal_strlit("9");
    }
    let text = if d == 0 {
        "0"
    } else if d == 1 {
        "1"
    } else if d == 2 {
        "2"
    } else if d == 3 {
        "3"
    } else if d == 4 {
        "4"
    } else if d == 5 {
        "5"
    } else if d == 6 {
        "6"
    } else if d == 7 {
        "7"
    } else if d == 8 {
        "8"
    } else {
        "9"
    };
    text
}

/// Appends the shortest decimal text of `n` to `out`.
pub(crate) fn push_decimal(out: &mut String, n: u32)
    ensures
        final(out)@ == old(out)@ + decimal(n as nat),
    decreases n,
{
    if n >= 10 {
        push_decimal(out, n / 10);
    }
    out.append(digit_text(n % 10));
}

/// Reads `chars[from..to]` as a text of digits whose value is at most
/// `limit`.
pub(crate) fn read_natural(chars: &Vec<char>, from: usize, to: usize, limit: u64) -> (value: Option<
    u64,
>)
    requires
        from <= to <= chars.len(),
    ensures
        value == match natural_literal(chars@.subrange(from as int, to as int)) {
            Some(n) => if n <= limit {
                Some(n as u64)
            } else {
                None
            },
            None => None,
        },
{
    let ghost text = chars@.subrange(from as int, to as int);
    if from == to {
        return None;
    }
    let mut total: u64 = 0;
    let mut at: usize = from;
    while at < to
        invariant
            from <= at <= to <= chars.len(),
            text == chars@.subrange(from as int, to as int),
            all_digits(text.take(at - from)),
            total == digits_value(text.take(at - from)),
            total <= limit,
        decreases to - at,
    {
        let c: char = chars[at];
        let ghost seen = text.take(at + 1 - from);
        proof {
            assert(seen.drop_last() =~= text.take(at - from));
            assert(text[at - from] == c);
        }
        if !('0' <= c && c <= '9') {
            return None;
        }
        let digit: u64 = (c as u64) - ('0' as u64);
        let next: u128 = (total as u128) * 10 + (digit as u128);
        proof {
            lemma_digits_value_prefix(text, at + 1 - from);
        }
        if next > limit as u128 {
            return None;
        }
        total = next as u64;
        at += 1;
    }
    proof {
        assert(text.take(to - from) =~= text);
    }
    Some(total)
}

/// Reads `chars[from..to]` as a signed 64-bit integer.
pub(crate) fn read_i64(chars: &Vec<char>, from: usize, to: usize) -> (value: Option<i64>)
    requires
        from <= to <= chars.len(),
    ensures
        value == as_i64(chars@.subrange(from as int, to as int)),
{
    let ghost text = chars@.subrange(from as int, to as int);
    if from < to && chars[from] == '-' {
        proof {
            assert(text.drop_first() =~= chars@.subrange(from + 1, to as int));
        }
        match read_natural(chars, from + 1, to, 0x8000_0000_0000_0000) {
            Some(magnitude) => {
                if magnitude == 0x8000_0000_0000_0000 {
                    Some(i64::MIN)
                } else {
                    Some(-(magnitude as i64))
                }
            },
            None => None,
        }
    } else if from < to && chars[from] == '+' {
        proof {
            assert(text.drop_first() =~= chars@.subrange(from + 1, to as int));
        }
        match read_natural(chars, from + 1, to, 0x7fff_ffff_ffff_ffff) {
            Some(magnitude) => Some(magnitude as i64),
            None => None,
        }
    } else {
        match read_natural(chars, from, to, 0x7fff_ffff_ffff_ffff) {
            Some(magnitude) => Some(magnitude as i64),
            None => None,
        }
    }
}

/// Reads `chars[from..to]` as a `usize`.
pub(crate) fn read_usize(chars: &Vec<char>, from: usize, to: usize) -> (value: Option<usize>)
    requires
        from <= to <= chars.len(),
    ensures
        value == as_usize(chars@.subrange(from as int, to as int)),
{
    let ghost text = chars@.subrange(from as int, to as int);
    let signed: bool = from < to && chars[from] == '+';
    let begin: usize = if signed {
        from + 1
    } else {
        from
    };
    proof {
        if signed {
            assert(text.drop_first() =~= chars@.subrange(begin as int, to as int));
        }
    }
    match read_natural(chars, begin, to, usize::MAX as u64) {
        Some(n) => Some(n as usize),
        None => None,
    }
}

} // verus!
