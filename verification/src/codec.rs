//! Coordinate codec: the bijection between 1-based (column, row) grid
//! positions and spreadsheet-style cell references such as `"B6"`.
//!
//! Column letters follow base-26 alphabetic numbering: 1 -> "A", 26 -> "Z",
//! 27 -> "AA", 702 -> "ZZ".

use vstd::prelude::*;

use crate::text::chars_to_string;
use crate::text::string_to_chars;

verus! {

/// The letter for one base-26 digit: 0 -> 'A' ... 25 -> 'Z'.
pub open spec fn letter_of(i: int) -> char {
    ((65 + i) as u8) as char
}

/// The character for one decimal digit: 0 -> '0' ... 9 -> '9'.
pub open spec fn digit_of(i: int) -> char {
    ((48 + i) as u8) as char
}

/// Column letters of a 1-based column number, most significant first;
/// empty for `col <= 0`.
pub open spec fn spec_column_letters(col: int) -> Seq<char>
    decreases col,
{
    if col <= 0 {
        Seq::empty()
    } else {
        spec_column_letters((col - 1) / 26).push(letter_of((col - 1) % 26))
    }
}

/// Decimal digit characters of a non-negative number, most significant first.
pub open spec fn spec_decimal_digits(n: int) -> Seq<char>
    decreases n,
{
    if n <= 9 {
        seq![digit_of(n)]
    } else {
        spec_decimal_digits(n / 10).push(digit_of(n % 10))
    }
}

/// The cell reference for a 1-based (column, row) position: column letters
/// followed by the decimal row number.
pub open spec fn spec_cell_ref(col: int, row: int) -> Seq<char> {
    spec_column_letters(col) + spec_decimal_digits(row)
}

/// Every character is an upper-case column letter 'A'..'Z'.
pub open spec fn letters_valid(s: Seq<char>) -> bool {
    forall|i: int| 0 <= i < s.len() ==> 65 <= #[trigger] s[i] as int <= 90
}

/// A well-formed column-letter string: non-empty and all 'A'..'Z'.
pub open spec fn is_column_letters(s: Seq<char>) -> bool {
    s.len() >= 1 && letters_valid(s)
}

/// The 1-based column number encoded by a column-letter string.
pub open spec fn spec_letters_value(s: Seq<char>) -> int
    decreases s.len(),
{
    if s.len() == 0 {
        0
    } else {
        spec_letters_value(s.drop_last()) * 26 + (s.last() as int - 64)
    }
}

/// The largest value a column-letter string of length `k` can encode.
pub open spec fn max_letters_value(k: nat) -> int
    decreases k,
{
    if k == 0 {
        0
    } else {
        max_letters_value((k - 1) as nat) * 26 + 26
    }
}

proof fn lemma_letters_value_bound(s: Seq<char>)
    requires
        letters_valid(s),
    ensures
        0 <= spec_letters_value(s) <= max_letters_value(s.len()),
    decreases s.len(),
{
    if s.len() > 0 {
        assert(letters_valid(s.drop_last()));
        lemma_letters_value_bound(s.drop_last());
    }
}

proof fn lemma_max_letters_nonneg(k: nat)
    ensures
        0 <= max_letters_value(k),
    decreases k,
{
    if k > 0 {
        lemma_max_letters_nonneg((k - 1) as nat);
    }
}

proof fn lemma_max_letters_mono(a: nat, b: nat)
    requires
        a <= b,
    ensures
        max_letters_value(a) <= max_letters_value(b),
    decreases b,
{
    if a < b {
        lemma_max_letters_mono(a, (b - 1) as nat);
        lemma_max_letters_nonneg((b - 1) as nat);
    }
}

/// Exec mirror of `letter_of`.
fn letter_char(i: u64) -> (c: char)
    requires
        i < 26,
    ensures
        c == letter_of(i as int),
{
    (65 + i as u8) as char
}

/// Exec mirror of `digit_of`.
fn digit_char(i: u64) -> (c: char)
    requires
        i < 10,
    ensures
        c == digit_of(i as int),
{
    (48 + i as u8) as char
}

/// Column letters of a 1-based column number, as characters.
fn column_letter_chars(col: usize) -> (r: Vec<char>)
    requires
        col >= 1,
    ensures
        r@ == spec_column_letters(col as int),
{
    let mut v: Vec<char> = Vec::new();
    let mut c: usize = col;
    proof {
        assert(spec_column_letters(col as int) =~= spec_column_letters(c as int) + v@);
    }
    while c > 0
        invariant
            spec_column_letters(col as int) =~= spec_column_letters(c as int) + v@,
        decreases c,
    {
        let rem: usize = (c - 1) % 26;
        v.insert(0, letter_char(rem as u64));
        c = (c - 1) / 26;
        proof {
            assert(spec_column_letters(col as int) =~= spec_column_letters(c as int) + v@);
        }
    }
    proof {
        assert(v@ =~= spec_column_letters(col as int));
    }
    v
}

/// Decimal digit characters of a number, most significant first.
pub(crate) fn decimal_chars(n: u64) -> (r: Vec<char>)
    ensures
        r@ == spec_decimal_digits(n as int),
{
    let mut v: Vec<char> = Vec::new();
    let mut m: u64 = n;
    v.insert(0, digit_char(m % 10));
    m = m / 10;
    while m > 0
        invariant
            m > 0 ==> spec_decimal_digits(n as int) =~= spec_decimal_digits(m as int) + v@,
            m == 0 ==> spec_decimal_digits(n as int) =~= v@,
        decreases m,
    {
        v.insert(0, digit_char(m % 10));
        m = m / 10;
    }
    proof {
        assert(v@ =~= spec_decimal_digits(n as int));
    }
    v
}

/// The column letters of a 1-based column number, e.g. 28 -> "AB".
pub fn column_to_letters(col: usize) -> (r: String)
    requires
        col >= 1,
    ensures
        r@ == spec_column_letters(col as int),
{
    let v = column_letter_chars(col);
    chars_to_string(&v)
}

/// The cell reference of a 1-based (column, row) position, e.g. (2, 6) -> "B6".
pub fn cell_ref(col_1_based: usize, row_1_based: usize) -> (r: String)
    requires
        col_1_based >= 1,
        row_1_based >= 1,
    ensures
        r@ == spec_cell_ref(col_1_based as int, row_1_based as int),
{
    let mut v = column_letter_chars(col_1_based);
    let mut d = decimal_chars(row_1_based as u64);
    v.append(&mut d);
    chars_to_string(&v)
}

/// The inverse direction of the codec: the 1-based column number encoded by
/// a column-letter string. Returns `None` when the string is empty, holds a
/// character outside 'A'..'Z', or is longer than 12 letters (the range kept
/// clear of `u64` overflow).
pub fn letters_to_column(s: &str) -> (r: Option<u64>)
    ensures
        match r {
            Some(v) => is_column_letters(s@) && s@.len() <= 12 && v as int == spec_letters_value(
                s@,
            ),
            None => !(is_column_letters(s@) && s@.len() <= 12),
        },
{
    let cs = string_to_chars(s);
    if cs.len() == 0 || cs.len() > 12 {
        return None;
    }
    let mut acc: u64 = 0;
    let mut i: usize = 0;
    proof {
        assert(s@.take(0) =~= Seq::<char>::empty());
    }
    while i < cs.len()
        invariant
            cs@ == s@,
            0 <= i <= cs@.len(),
            1 <= cs@.len() <= 12,
            letters_valid(s@.take(i as int)),
            acc as int == spec_letters_value(s@.take(i as int)),
        decreases cs@.len() - i,
    {
        let c: char = cs[i];
        if c < 'A' || c > 'Z' {
            return None;
        }
        let cv: u32 = c as u32;
        proof {
            let t0 = s@.take(i as int);
            let t1 = s@.take(i + 1);
            assert(t1.drop_last() =~= t0);
            assert(t1.last() == s@[i as int]);
            assert(c == s@[i as int]);
            assert(cv as int == c as int);
            assert forall|j: int| 0 <= j < t1.len() implies 65 <= #[trigger] t1[j] as int
                <= 90 by {
                if j < i {
                    assert(t1[j] == t0[j]);
                } else {
                    assert(t1[j] == s@[i as int]);
                }
            }
            assert(spec_letters_value(t1) == spec_letters_value(t0) * 26 + (s@[i as int] as int
                - 64));
            lemma_letters_value_bound(t0);
            lemma_max_letters_mono((i as nat), 11);
            reveal_with_fuel(max_letters_value, 13);
            assert(max_letters_value(11) == 3817158266467286);
        }
        acc = acc * 26 + (cv - 64) as u64;
        i = i + 1;
    }
    proof {
        assert(s@.take(cs@.len() as int) =~= s@);
    }
    Some(acc)
}

/// Codec round trip: for every column number `col >= 1`, the column letters
/// produced for `col` are a well-formed column-letter string that decodes
/// back to `col`.
pub proof fn lemma_codec_round_trip(col: int)
    requires
        1 <= col,
    ensures
        is_column_letters(spec_column_letters(col)),
        spec_letters_value(spec_column_letters(col)) == col,
    decreases col,
{
    let q = (col - 1) / 26;
    let rem = (col - 1) % 26;
    let s = spec_column_letters(col);
    assert(s == spec_column_letters(q).push(letter_of(rem)));
    assert(s.drop_last() =~= spec_column_letters(q));
    assert(s.last() == letter_of(rem));
    assert(letter_of(rem) as int == 65 + rem);
    vstd::arithmetic::div_mod::lemma_fundamental_div_mod(col - 1, 26);
    assert(col - 1 == 26 * q + rem);
    if q == 0 {
        assert(spec_column_letters(0) =~= Seq::<char>::empty());
        assert(spec_letters_value(s.drop_last()) == 0);
        assert(spec_letters_value(s) == spec_letters_value(s.drop_last()) * 26 + (s.last() as int
            - 64));
        assert(spec_letters_value(s) == rem + 1);
    } else {
        lemma_codec_round_trip(q);
        assert(spec_letters_value(s) == spec_letters_value(s.drop_last()) * 26 + (s.last() as int
            - 64));
        assert(spec_letters_value(s) == q * 26 + rem + 1);
    }
}

} // verus!
