//! Document identifiers: a timestamp and a random number, both in decimal,
//! with an underscore between them.

use vstd::prelude::*;
use crate::outside::{micros_since_epoch, random_u64, string_from_chars};

verus! {

/// The character for the digit `d`, for `d` from 0 to 9.
pub open spec fn digit_char(d: int) -> char {
    ('0' as int + d) as char
}

/// `n` written in decimal, without leading zeros.
pub open spec fn decimal(n: nat) -> Seq<char>
    decreases n,
{
    if n < 10 {
        seq![digit_char(n as int)]
    } else {
        decimal(n / 10).push(digit_char((n % 10) as int))
    }
}

/// The identifier made of a timestamp and a random number.
pub open spec fn id_text(timestamp: nat, random: nat) -> Seq<char> {
    decimal(timestamp) + "_"@ + decimal(random)
}

/// Whether `id` has the form of an identifier: some timestamp that a clock can
/// give and some 64-bit number, put together as `id_text` says.
pub open spec fn is_document_id(id: Seq<char>) -> bool {
    exists|timestamp: u128, random: u64| id == #[trigger] id_text(timestamp as nat, random as nat)
}

/// A number in decimal is one digit at least, and digits only.
pub proof fn lemma_decimal_digits(n: nat)
    ensures
        decimal(n).len() >= 1,
        n >= 10 ==> decimal(n).len() >= 2,
        forall|i: int| 0 <= i < decimal(n).len() ==> '0' <= #[trigger] decimal(n)[i] <= '9',
    decreases n,
{
    if n >= 10 {
        lemma_decimal_digits(n / 10);
    }
}

/// Different numbers are written differently.
pub proof fn lemma_decimal_injective(a: nat, b: nat)
    requires
        decimal(a) == decimal(b),
    ensures
        a == b,
    decreases a,
{
    lemma_decimal_digits(a);
    lemma_decimal_digits(b);
    if a < 10 || b < 10 {
        assert(decimal(a)[0] == decimal(b)[0]);
    } else {
        let da = decimal(a / 10);
        let db = decimal(b / 10);
        assert(decimal(a).drop_last() =~= da);
        assert(decimal(b).drop_last() =~= db);
        assert(decimal(a).last() == digit_char((a % 10) as int));
        assert(decimal(b).last() == digit_char((b % 10) as int));
        lemma_decimal_injective(a / 10, b / 10);
    }
}

/// An identifier tells its timestamp and its random number: two identifiers
/// are the same only if both numbers are.
pub proof fn lemma_id_text_injective(t1: nat, r1: nat, t2: nat, r2: nat)
    requires
        id_text(t1, r1) == id_text(t2, r2),
    ensures
        t1 == t2,
        r1 == r2,
{
    reveal_strlit("_");
    let a = decimal(t1);
    let b = decimal(t2);
    let one = id_text(t1, r1);
    let two = id_text(t2, r2);
    lemma_decimal_digits(t1);
    lemma_decimal_digits(t2);
    lemma_decimal_digits(r1);
    lemma_decimal_digits(r2);
    assert("_"@.len() == 1);
    assert("_"@[0] == '_');
    assert(one[a.len() as int] == '_');
    assert(two[b.len() as int] == '_');
    if a.len() < b.len() {
        assert(two[a.len() as int] == b[a.len() as int]);
        assert(false);
    }
    if b.len() < a.len() {
        assert(one[b.len() as int] == a[b.len() as int]);
        assert(false);
    }
    assert(a =~= one.take(a.len() as int));
    assert(b =~= two.take(b.len() as int));
    assert(decimal(r1) =~= one.skip(a.len() as int + 1));
    assert(decimal(r2) =~= two.skip(b.len() as int + 1));
    lemma_decimal_injective(t1, t2);
    lemma_decimal_injective(r1, r2);
}

fn digit_of(d: u8) -> (out: char)
    requires
        d <= 9,
    ensures
        out == digit_char(d as int),
{
    (48u8 + d) as char
}

/// `n` written in decimal.
pub fn to_decimal(n: u128) -> (out: String)
    ensures
        out@ == decimal(n as nat),
{
    // Digits from the lowest up.
    let mut low_first: Vec<char> = Vec::new();
    let mut rest: u128 = n;
    while rest >= 10
        invariant
            decimal(n as nat) == decimal(rest as nat) + low_first@.reverse(),
        decreases rest,
    {
        let d = digit_of((rest % 10) as u8);
        low_first.push(d);
        rest = rest / 10;
    }
    let d = digit_of(rest as u8);
    low_first.push(d);
    let mut digits: Vec<char> = Vec::new();
    let mut i: usize = low_first.len();
    while i > 0
        invariant
            i <= low_first.len(),
            digits@ == low_first@.reverse().take(low_first.len() - i),
        decreases i,
    {
        i -= 1;
        digits.push(low_first[i]);
    }
    string_from_chars(&digits)
}

/// The identifier made of `timestamp` and `random`.
pub fn format_id(timestamp: u128, random: u64) -> (out: String)
    ensures
        out@ == id_text(timestamp as nat, random as nat),
{
    let mut out = to_decimal(timestamp);
    out.append("_");
    let tail = to_decimal(random as u128);
    out.append(tail.as_str());
    out
}

/// A fresh identifier: the clock's microseconds since the Unix epoch and a
/// random 64-bit number. `None` where the clock reads earlier than the epoch.
/// Nothing makes two identifiers differ but the numbers they are made of.
pub fn generate_id() -> (out: Option<String>)
    ensures
        out matches Some(id) ==> is_document_id(id@),
{
    match micros_since_epoch() {
        Some(timestamp) => {
            let random = random_u64();
            let id = format_id(timestamp, random);
            Some(id)
        },
        None => None,
    }
}

} // verus!
