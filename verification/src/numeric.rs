//! Which terms read as numbers.
//!
//! A term is numeric when it follows the grammar of decimal floating-point
//! literals:
//!
//! ```text
//! Numeric ::= Sign? ( 'inf' | 'infinity' | 'nan' | Number )
//! Number  ::= ( Digit+ | Digit+ '.' Digit* | Digit* '.' Digit+ ) Exp?
//! Exp     ::= 'e' Sign? Digit+
//! Sign    ::= [+-]
//! Digit   ::= [0-9]
//! ```
//!
//! Letters are matched without regard to case. Nothing may come before or
//! after, white space included.

use vstd::prelude::*;
use crate::text::chars_of;

verus! {

pub open spec fn is_digit(c: char) -> bool {
    '0' <= c && c <= '9'
}

pub open spec fn is_sign(c: char) -> bool {
    c == '+' || c == '-'
}

/// Whether `c` is the letter `lower`, in either case. `lower` is a lower-case
/// ASCII letter.
pub open spec fn is_letter(c: char, lower: char) -> bool {
    c == lower || c as int + 32 == lower as int
}

/// Where the run of digits that starts at `from` ends: the first position at
/// or after `from` that holds no digit.
pub open spec fn digits_end(s: Seq<char>, from: int) -> int
    decreases s.len() - from,
{
    if 0 <= from < s.len() && is_digit(s[from]) {
        digits_end(s, from + 1)
    } else {
        from
    }
}

/// `Exp`, from position `at` to the end of `s`.
pub open spec fn is_exponent_at(s: Seq<char>, at: int) -> bool {
    let digits = if at + 1 < s.len() && is_sign(s[at + 1]) {
        at + 2
    } else {
        at + 1
    };
    &&& 0 <= at < s.len()
    &&& is_letter(s[at], 'e')
    &&& digits < s.len()
    &&& digits_end(s, digits) == s.len()
}

/// `Number`, from position `from` to the end of `s`: digits, then possibly a
/// point and more digits, with at least one digit in all, then possibly an
/// exponent.
pub open spec fn is_number_at(s: Seq<char>, from: int) -> bool {
    let whole_end = digits_end(s, from);
    let fraction = if whole_end < s.len() && s[whole_end] == '.' {
        whole_end + 1
    } else {
        whole_end
    };
    let fraction_end = digits_end(s, fraction);
    &&& 0 <= from <= s.len()
    &&& (whole_end - from) + (fraction_end - fraction) > 0
    &&& (fraction_end == s.len() || is_exponent_at(s, fraction_end))
}

/// Whether `s` from `from` to its end spells `word`, in any mix of cases.
/// `word` is made of lower-case ASCII letters.
pub open spec fn spells_at(s: Seq<char>, from: int, word: Seq<char>) -> bool {
    &&& 0 <= from
    &&& s.len() == from + word.len()
    &&& forall|i: int| 0 <= i < word.len() ==> is_letter(#[trigger] s[from + i], word[i])
}

pub open spec fn word_inf() -> Seq<char> {
    seq!['i', 'n', 'f']
}

pub open spec fn word_infinity() -> Seq<char> {
    seq!['i', 'n', 'f', 'i', 'n', 'i', 't', 'y']
}

pub open spec fn word_nan() -> Seq<char> {
    seq!['n', 'a', 'n']
}

/// Whether the term `s` is numeric.
pub open spec fn is_numeric(s: Seq<char>) -> bool {
    let start: int = if s.len() > 0 && is_sign(s[0]) {
        1
    } else {
        0
    };
    ||| is_number_at(s, start)
    ||| spells_at(s, start, word_inf())
    ||| spells_at(s, start, word_infinity())
    ||| spells_at(s, start, word_nan())
}

fn digit(c: char) -> (out: bool)
    ensures
        out == is_digit(c),
{
    '0' <= c && c <= '9'
}

fn sign(c: char) -> (out: bool)
    ensures
        out == is_sign(c),
{
    c == '+' || c == '-'
}

fn letter(c: char, lower: char) -> (out: bool)
    requires
        'a' <= lower && lower <= 'z',
    ensures
        out == is_letter(c, lower),
{
    c == lower || ('A' <= c && c <= 'Z' && c as u32 + 32 == lower as u32)
}

fn scan_digits(s: &Vec<char>, from: usize) -> (out: usize)
    requires
        from <= s.len(),
    ensures
        out == digits_end(s@, from as int),
        from <= out <= s.len(),
{
    let mut i: usize = from;
    while i < s.len() && digit(s[i])
        invariant
            from <= i <= s.len(),
            digits_end(s@, from as int) == digits_end(s@, i as int),
        decreases s.len() - i,
    {
        i += 1;
    }
    i
}

fn exponent_at(s: &Vec<char>, at: usize) -> (out: bool)
    requires
        at < s.len(),
    ensures
        out == is_exponent_at(s@, at as int),
{
    if !letter(s[at], 'e') {
        return false;
    }
    let digits: usize = if at + 1 < s.len() && sign(s[at + 1]) {
        at + 2
    } else {
        at + 1
    };
    digits < s.len() && scan_digits(s, digits) == s.len()
}

fn number_at(s: &Vec<char>, from: usize) -> (out: bool)
    requires
        from <= s.len(),
    ensures
        out == is_number_at(s@, from as int),
{
    let whole_end = scan_digits(s, from);
    let fraction: usize = if whole_end < s.len() && s[whole_end] == '.' {
        whole_end + 1
    } else {
        whole_end
    };
    let fraction_end = scan_digits(s, fraction);
    if (whole_end - from) + (fraction_end - fraction) == 0 {
        return false;
    }
    fraction_end == s.len() || exponent_at(s, fraction_end)
}

fn spelled_at(s: &Vec<char>, from: usize, word: &Vec<char>) -> (out: bool)
    requires
        from <= s.len(),
        forall|i: int| 0 <= i < word.len() ==> 'a' <= #[trigger] word[i] && word[i] <= 'z',
    ensures
        out == spells_at(s@, from as int, word@),
{
    if s.len() - from != word.len() {
        return false;
    }
    let mut i: usize = 0;
    while i < word.len()
        invariant
            from + word.len() == s.len(),
            i <= word.len(),
            forall|k: int| 0 <= k < word.len() ==> 'a' <= #[trigger] word[k] && word[k] <= 'z',
            forall|k: int| 0 <= k < i ==> is_letter(#[trigger] s@[from + k], word@[k]),
        decreases word.len() - i,
    {
        if !letter(s[from + i], word[i]) {
            return false;
        }
        i += 1;
    }
    true
}

/// Whether `term` is numeric.
pub fn parses_as_number(term: &str) -> (out: bool)
    ensures
        out == is_numeric(term@),
{
    let s = chars_of(term);
    let start: usize = if s.len() > 0 && sign(s[0]) {
        1
    } else {
        0
    };
    if number_at(&s, start) {
        return true;
    }
    let inf: Vec<char> = vec!['i', 'n', 'f'];
    let infinity: Vec<char> = vec!['i', 'n', 'f', 'i', 'n', 'i', 't', 'y'];
    let nan: Vec<char> = vec!['n', 'a', 'n'];
    spelled_at(&s, start, &inf) || spelled_at(&s, start, &infinity) || spelled_at(&s, start, &nan)
}

} // verus!
