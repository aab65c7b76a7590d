//! Character-level helpers shared by the other modules.

use vstd::prelude::*;

verus! {

/// The characters of `s`, in order.
pub fn chars_of(s: &str) -> (out: Vec<char>)
    ensures
        out@ == s@,
{
    let mut out: Vec<char> = Vec::new();
    for c in it: s.chars()
        invariant
            it.seq() == s@,
            out@ == it.seq().take(it.index()),
    {
        out.push(c);
    }
    out
}

/// Whether `s` ends with `suffix`.
pub fn ends_with(s: &str, suffix: &str) -> (out: bool)
    ensures
        out == suffix@.is_suffix_of(s@),
{
    let text = chars_of(s);
    let tail = chars_of(suffix);
    if tail.len() > text.len() {
        return false;
    }
    let offset: usize = text.len() - tail.len();
    let mut i: usize = 0;
    while i < tail.len()
        invariant
            text@ == s@,
            tail@ == suffix@,
            offset + tail.len() == text.len(),
            i <= tail.len(),
            forall|k: int| 0 <= k < i ==> text@[offset + k] == tail@[k],
        decreases tail.len() - i,
    {
        if text[offset + i] != tail[i] {
            return false;
        }
        i += 1;
    }
    true
}

/// The four pieces joined into one string.
pub fn join4(a: &str, b: &str, c: &str, d: &str) -> (out: String)
    ensures
        out@ == a@ + b@ + c@ + d@,
{
    let mut out = a.to_owned();
    out.append(b);
    out.append(c);
    out.append(d);
    out
}

} // verus!
