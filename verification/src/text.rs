//! Character-level text helpers: conversions between `String` and
//! `Vec<char>`, and whitespace trimming with the Unicode `White_Space` set
//! (the set `str::trim` uses).

use vstd::prelude::*;

verus! {

/// A character with the Unicode `White_Space` property.
pub open spec fn is_ws(c: char) -> bool {
    (9 <= c as int <= 13)  // tab, line feed, vertical tab, form feed, carriage return
     || c == ' ' || c as int == 0x85 || c as int == 0xA0 || c as int == 0x1680 || (0x2000 <= c
        as int <= 0x200A) || c as int == 0x2028 || c as int == 0x2029 || c as int == 0x202F || c
        as int == 0x205F || c as int == 0x3000
}

/// The string with leading and trailing whitespace removed.
pub open spec fn spec_trim(s: Seq<char>) -> Seq<char>
    decreases s.len(),
{
    if s.len() == 0 {
        s
    } else if is_ws(s[0]) {
        spec_trim(s.drop_first())
    } else if is_ws(s[s.len() - 1]) {
        spec_trim(s.drop_last())
    } else {
        s
    }
}

/// Exec mirror of `is_ws`.
pub fn is_whitespace_char(c: char) -> (r: bool)
    ensures
        r == is_ws(c),
{
    ('\u{09}' <= c && c <= '\u{0d}') || c == ' ' || c == '\u{85}' || c == '\u{a0}' || c
        == '\u{1680}' || ('\u{2000}' <= c && c <= '\u{200a}') || c == '\u{2028}' || c == '\u{2029}'
        || c == '\u{202f}' || c == '\u{205f}' || c == '\u{3000}'
}

/// Remove leading and trailing whitespace from a character vector.
pub fn trim_chars(v: &Vec<char>) -> (r: Vec<char>)
    ensures
        r@ == spec_trim(v@),
{
    let mut lo: usize = 0;
    let mut hi: usize = v.len();
    proof {
        assert(v@.subrange(0, v@.len() as int) =~= v@);
    }
    while lo < hi && is_whitespace_char(v[lo])
        invariant
            0 <= lo <= hi <= v@.len(),
            spec_trim(v@) == spec_trim(v@.subrange(lo as int, hi as int)),
        decreases hi - lo,
    {
        proof {
            let sub = v@.subrange(lo as int, hi as int);
            assert(sub[0] == v@[lo as int]);
            assert(sub.drop_first() =~= v@.subrange(lo + 1, hi as int));
        }
        lo = lo + 1;
    }
    while hi > lo && is_whitespace_char(v[hi - 1])
        invariant
            0 <= lo <= hi <= v@.len(),
            spec_trim(v@) == spec_trim(v@.subrange(lo as int, hi as int)),
            lo < hi ==> !is_ws(v@[lo as int]),
        decreases hi - lo,
    {
        proof {
            let sub = v@.subrange(lo as int, hi as int);
            assert(sub[0] == v@[lo as int]);
            assert(sub[sub.len() - 1] == v@[hi - 1]);
            assert(sub.drop_last() =~= v@.subrange(lo as int, hi - 1));
        }
        hi = hi - 1;
    }
    let mut r: Vec<char> = Vec::new();
    let mut j: usize = lo;
    proof {
        assert(r@ =~= v@.subrange(lo as int, lo as int));
    }
    while j < hi
        invariant
            lo <= j <= hi <= v@.len(),
            r@ =~= v@.subrange(lo as int, j as int),
        decreases hi - j,
    {
        r.push(v[j]);
        proof {
            assert(r@ =~= v@.subrange(lo as int, j + 1));
        }
        j = j + 1;
    }
    proof {
        let sub = v@.subrange(lo as int, hi as int);
        if lo < hi {
            assert(sub[0] == v@[lo as int]);
            assert(sub[sub.len() - 1] == v@[hi - 1]);
        }
        assert(spec_trim(sub) == sub);
        assert(r@ =~= sub);
    }
    r
}

/// Relies on `String: FromIterator<char>` (via `Iterator::collect`): the
/// resulting string consists of exactly the characters of the vector, in order.
#[verifier::external_body]
pub(crate) fn chars_to_string(v: &Vec<char>) -> (r: String)
    ensures
        r@ == v@,
{
    v.iter().collect()
}

/// Relies on `str::chars` (via `Iterator::collect`): the resulting vector
/// holds exactly the characters of the string, in order.
#[verifier::external_body]
pub(crate) fn string_to_chars(s: &str) -> (r: Vec<char>)
    ensures
        r@ == s@,
{
    s.chars().collect()
}

} // verus!
