//! Character-level helpers shared by the content model and the exporter.

use vstd::prelude::*;
use vstd::string::StringExecFns;

verus! {

/// Relies on `String::push`: the character is appended at the end.
#[verifier::external_body]
pub(crate) fn push_char(s: &mut String, c: char)
    ensures
        final(s)@ == old(s)@.push(c),
{
    s.push(c)
}

/// Appends `t` to `s`.
pub(crate) fn push_str(s: &mut String, t: &str)
    ensures
        final(s)@ == old(s)@ + t@,
{
    s.append(t);
}

/// An owned copy of `t`.
pub(crate) fn owned(t: &str) -> (r: String)
    ensures
        r@ == t@,
{
    broadcast use vstd::string::to_string_from_display_ensures_for_str;

    t.to_string()
}

/// The characters of `s`, one per element.
pub fn chars_of(s: &str) -> (r: Vec<char>)
    ensures
        r@ == s@,
{
    let mut out: Vec<char> = Vec::new();
    for c in it: s.chars()
        invariant
            it.seq() == s@,
            out@ == it.seq().take(it.index() as int),
    {
        proof {
            assert(it.seq().take(it.index() + 1) == it.seq().take(it.index() as int).push(c));
        }
        out.push(c);
    }
    proof {
        assert(s@.take(s@.len() as int) == s@);
    }
    out
}

/// `c` equals the lower-case ASCII letter or symbol `k`, ignoring ASCII case.
pub open spec fn char_matches_ignore_case(c: char, k: char) -> bool {
    c == k || ('A' <= c && c <= 'Z' && c as u32 + 32 == k as u32)
}

/// `s` spells the lower-case keyword `kw`, ignoring ASCII case.
pub open spec fn eq_ignore_ascii_case(s: Seq<char>, kw: Seq<char>) -> bool {
    &&& s.len() == kw.len()
    &&& forall|i: int| 0 <= i < s.len() ==> char_matches_ignore_case(#[trigger] s[i], kw[i])
}

/// Tests whether `s` spells the lower-case keyword `kw`, ignoring ASCII case.
pub fn matches_keyword(s: &str, kw: &str) -> (r: bool)
    ensures
        r == eq_ignore_ascii_case(s@, kw@),
{
    let a = chars_of(s);
    let b = chars_of(kw);
    if a.len() != b.len() {
        return false;
    }
    let mut i: usize = 0;
    while i < a.len()
        invariant
            a@ == s@,
            b@ == kw@,
            a.len() == b.len(),
            i <= a.len(),
            forall|j: int| 0 <= j < i ==> char_matches_ignore_case(#[trigger] a@[j], b@[j]),
        decreases a.len() - i,
    {
        let c = a[i];
        let k = b[i];
        let ok = c == k || ('A' <= c && c <= 'Z' && (c as u32) + 32 == (k as u32));
        if !ok {
            assert(!char_matches_ignore_case(a@[i as int], b@[i as int]));
            return false;
        }
        i = i + 1;
    }
    true
}

/// `s` ends with the lower-case suffix `suffix`, ignoring ASCII case.
pub open spec fn ends_with_ignore_ascii_case(s: Seq<char>, suffix: Seq<char>) -> bool {
    s.len() >= suffix.len() && eq_ignore_ascii_case(s.skip(s.len() - suffix.len()), suffix)
}

/// Tests whether `s` ends with the lower-case suffix `suffix`, ignoring ASCII case.
pub fn ends_with_keyword(s: &str, suffix: &str) -> (r: bool)
    ensures
        r == ends_with_ignore_ascii_case(s@, suffix@),
{
    let a = chars_of(s);
    let b = chars_of(suffix);
    if a.len() < b.len() {
        return false;
    }
    let off: usize = a.len() - b.len();
    let ghost tail = s@.skip(off as int);
    let mut i: usize = 0;
    while i < b.len()
        invariant
            a@ == s@,
            b@ == suffix@,
            off + b.len() == a.len(),
            tail == s@.skip(off as int),
            i <= b.len(),
            forall|j: int| 0 <= j < i ==> char_matches_ignore_case(#[trigger] tail[j], b@[j]),
        decreases b.len() - i,
    {
        let c = a[off + i];
        let k = b[i];
        let ok = c == k || ('A' <= c && c <= 'Z' && (c as u32) + 32 == (k as u32));
        assert(tail[i as int] == c);
        if !ok {
            assert(!char_matches_ignore_case(tail[i as int], b@[i as int]));
            return false;
        }
        i = i + 1;
    }
    true
}

/// The decimal digit for `d < 10`.
pub open spec fn digit(d: nat) -> char {
    if d == 0 {
        '0'
    } else if d == 1 {
        '1'
    } else if d == 2 {
        '2'
    } else if d == 3 {
        '3'
    } else if d == 4 {
        '4'
    } else if d == 5 {
        '5'
    } else if d == 6 {
        '6'
    } else if d == 7 {
        '7'
    } else if d == 8 {
        '8'
    } else {
        '9'
    }
}

/// The decimal spelling of `n`, without leading zeros.
pub open spec fn decimal(n: nat) -> Seq<char>
    decreases n,
{
    if n < 10 {
        seq![digit(n)]
    } else {
        decimal(n / 10).push(digit(n % 10))
    }
}

fn digit_char(d: u64) -> (r: char)
    requires
        d < 10,
    ensures
        r == digit(d as nat),
{
    match d {
        0 => '0',
        1 => '1',
        2 => '2',
        3 => '3',
        4 => '4',
        5 => '5',
        6 => '6',
        7 => '7',
        8 => '8',
        _ => '9',
    }
}

/// Appends the decimal spelling of `n` to `s`.
pub fn push_decimal(s: &mut String, n: u64)
    ensures
        final(s)@ == old(s)@ + decimal(n as nat),
    decreases n,
{
    if n >= 10 {
        push_decimal(s, n / 10);
    }
    push_char(s, digit_char(n % 10));
}

} // verus!
