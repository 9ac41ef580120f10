//! Marker & scan engine: checks the fixed marker cell, and when the rule
//! applies, scans every cell from the sixth spreadsheet row on and collects
//! the 1-based positions of cells whose normalized text contains the clear
//! pattern, in row-major order.

use vstd::prelude::*;

use crate::codec::spec_cell_ref;
use crate::codec::cell_ref;
use crate::text::chars_to_string;
use crate::text::spec_trim;
use crate::text::string_to_chars;
use crate::text::trim_chars;
use crate::value::CellValue;
use crate::value::normalize;
use crate::value::spec_normalize;

verus! {

#[verifier::external_type_specification]
#[verifier::external_body]
pub struct ExRegex(regex::Regex);

/// The text contains the literal substring `(RM)` or `(C)`.
pub open spec fn has_clear_marker(s: Seq<char>) -> bool {
    (exists|i: int| 0 <= i && i + 4 <= s.len() && #[trigger] s.subrange(i, i + 4) == "(RM)"@) || (
    exists|i: int| 0 <= i && i + 3 <= s.len() && #[trigger] s.subrange(i, i + 3) == "(C)"@)
}

/// The precompiled matcher for the clear pattern, built once and passed by
/// reference into the scan.
pub struct PatternMatcher {
    re: regex::Regex,
}

impl PatternMatcher {
    /// Relies on `regex::Regex::new`: the pattern `\((RM|C)\)` is valid, so
    /// compiling it cannot fail. Every `PatternMatcher` holds this pattern.
    #[verifier::external_body]
    pub fn new() -> (r: PatternMatcher) {
        PatternMatcher { re: regex::Regex::new(r"\((RM|C)\)").unwrap() }
    }

    /// Relies on `regex::Regex::is_match`: the unanchored pattern
    /// `\((RM|C)\)` matches a text exactly when the literal substring
    /// `(RM)` or `(C)` occurs somewhere in it.
    #[verifier::external_body]
    pub fn is_match(&self, s: &str) -> (r: bool)
        ensures
            r == has_clear_marker(s@),
    {
        self.re.is_match(s)
    }
}

/// A 1-based (column, row) grid position.
#[derive(Clone, Copy, Debug, PartialEq, Eq, Structural)]
pub struct CellPos {
    pub col: usize,
    pub row: usize,
}

/// The resolved sheet's value grid: `height x width`, 0-based positions,
/// every row of the same width.
pub struct Grid {
    cells: Vec<Vec<CellValue>>,
    width: usize,
}

impl Grid {
    /// Number of rows.
    pub closed spec fn spec_height(self) -> int {
        self.cells@.len() as int
    }

    /// Number of columns.
    pub closed spec fn spec_width(self) -> int {
        self.width as int
    }

    /// The value at 0-based position (row `r`, column `c`).
    pub closed spec fn cell(self, r: int, c: int) -> CellValue {
        self.cells@[r]@[c]
    }

    /// Well-formed: every row has exactly `width` cells.
    pub closed spec fn wf(self) -> bool {
        forall|i: int|
            0 <= i < self.cells@.len() ==> (#[trigger] self.cells@[i])@.len() == self.width
    }

    /// Build a grid from rows of cells; `None` when some row does not have
    /// exactly `width` cells.
    pub fn new(cells: Vec<Vec<CellValue>>, width: usize) -> (r: Option<Grid>)
        ensures
            match r {
                Some(g) => g.wf() && g.spec_height() == cells@.len() && g.spec_width()
                    == width as int && (forall|i: int, j: int|
                    0 <= i < cells@.len() && 0 <= j < width ==> #[trigger] g.cell(i, j)
                        == cells@[i]@[j]),
                None => exists|i: int|
                    0 <= i < cells@.len() && (#[trigger] cells@[i])@.len() != width,
            },
    {
        let mut i: usize = 0;
        while i < cells.len()
            invariant
                0 <= i <= cells@.len(),
                forall|k: int| 0 <= k < i ==> (#[trigger] cells@[k])@.len() == width,
            decreases cells@.len() - i,
        {
            if cells[i].len() != width {
                return None;
            }
            i = i + 1;
        }
        Some(Grid { cells, width })
    }

    /// Number of rows.
    pub fn height(&self) -> (r: usize)
        ensures
            r as int == self.spec_height(),
    {
        self.cells.len()
    }

    /// Number of columns.
    pub fn width(&self) -> (r: usize)
        ensures
            r as int == self.spec_width(),
    {
        self.width
    }

    /// The value at 0-based position (row `r`, column `c`).
    pub fn cell_at(&self, r: usize, c: usize) -> (v: &CellValue)
        requires
            self.wf(),
            r < self.spec_height(),
            c < self.spec_width(),
        ensures
            *v == self.cell(r as int, c as int),
    {
        let row = &self.cells[r];
        &row[c]
    }
}

/// The configured marker literal: the content the marker cell must hold,
/// after normalization and trimming, for the rule to apply.
pub open spec fn marker_text() -> Seq<char> {
    "离子色谱"@
}

/// The value of the marker cell (0-based row 2, column 0; spreadsheet A3);
/// empty when the grid has no such position.
pub open spec fn marker_cell(g: Grid) -> CellValue {
    if g.spec_height() > 2 && g.spec_width() > 0 {
        g.cell(2, 0)
    } else {
        CellValue::Empty
    }
}

/// The marker cell's normalized, trimmed text equals the marker literal.
pub open spec fn spec_marker_matches(g: Grid) -> bool {
    spec_trim(spec_normalize(marker_cell(g))) == marker_text()
}

/// The whole rule applies: marker matched and there is a sixth row to scan.
pub open spec fn spec_applicable(g: Grid) -> bool {
    spec_marker_matches(g) && g.spec_height() >= 6
}

/// The cell at 0-based (row `r`, column `c`) must be cleared: its normalized
/// text is non-empty and contains the clear pattern.
pub open spec fn matches_at(g: Grid, r: int, c: int) -> bool {
    let s = spec_normalize(g.cell(r, c));
    s.len() > 0 && has_clear_marker(s)
}

/// The 1-based position of the 0-based grid position (row `r`, column `c`).
pub open spec fn pos_of(r: int, c: int) -> CellPos {
    CellPos { col: (c + 1) as usize, row: (r + 1) as usize }
}

/// Positions to clear in 0-based row `r`, over columns `0 .. c_end`.
pub open spec fn row_clears(g: Grid, r: int, c_end: int) -> Seq<CellPos>
    decreases c_end,
{
    if c_end <= 0 {
        Seq::empty()
    } else {
        row_clears(g, r, c_end - 1) + if matches_at(g, r, c_end - 1) {
            seq![pos_of(r, c_end - 1)]
        } else {
            Seq::empty()
        }
    }
}

/// Positions to clear over 0-based rows `5 .. r_end`, row-major.
pub open spec fn clears_upto(g: Grid, r_end: int) -> Seq<CellPos>
    decreases r_end,
{
    if r_end <= 5 {
        Seq::empty()
    } else {
        clears_upto(g, r_end - 1) + row_clears(g, r_end - 1, g.spec_width())
    }
}

/// The full clear list of a grid: every position at 0-based row 5 or later
/// whose cell matches the clear pattern, row-major.
pub open spec fn spec_clear_list(g: Grid) -> Seq<CellPos> {
    clears_upto(g, g.spec_height())
}

/// What the marker & scan engine reports for a grid.
pub enum ScanOutcome {
    /// The marker cell does not hold the marker literal: rule not applicable.
    MarkerMismatch,
    /// The marker matched but the grid has fewer than 6 rows: nothing at or
    /// beyond the sixth row to scan, rule not applicable.
    TooFewRows,
    /// The rule applies; the positions to clear, row-major (possibly empty).
    Apply(Vec<CellPos>),
}

/// Scan a grid: check the marker cell, then collect every position at
/// 0-based row 5 or later whose normalized text is non-empty and contains
/// the clear pattern.
pub fn scan(g: &Grid, m: &PatternMatcher) -> (r: ScanOutcome)
    requires
        g.wf(),
    ensures
        match r {
            ScanOutcome::MarkerMismatch => !spec_marker_matches(*g),
            ScanOutcome::TooFewRows => spec_marker_matches(*g) && g.spec_height() < 6,
            ScanOutcome::Apply(list) => spec_applicable(*g) && list@ == spec_clear_list(*g) && (
            forall|k: int|
                0 <= k < list@.len() ==> 1 <= (#[trigger] list@[k]).col <= g.spec_width() && 6 <= (
                list@[k]).row <= g.spec_height()),
        },
{
    let empty_value = CellValue::Empty;
    let marker_val: &CellValue = if g.height() > 2 && g.width() > 0 {
        g.cell_at(2, 0)
    } else {
        &empty_value
    };
    let normalized = normalize(marker_val);
    let nchars = string_to_chars(normalized.as_str());
    let trimmed_chars = trim_chars(&nchars);
    let trimmed = chars_to_string(&trimmed_chars);
    let marker: String = "离子色谱".to_owned();
    if !(trimmed == marker) {
        return ScanOutcome::MarkerMismatch;
    }
    if g.height() < 6 {
        return ScanOutcome::TooFewRows;
    }
    let mut out: Vec<CellPos> = Vec::new();
    let mut r0: usize = 5;
    let h = g.height();
    let w = g.width();
    proof {
        assert(out@ =~= clears_upto(*g, 5));
    }
    while r0 < h
        invariant
            g.wf(),
            h as int == g.spec_height(),
            w as int == g.spec_width(),
            5 <= r0 <= g.spec_height(),
            out@ == clears_upto(*g, r0 as int),
            forall|k: int|
                0 <= k < out@.len() ==> 1 <= (#[trigger] out@[k]).col <= g.spec_width() && 6 <= (
                out@[k]).row <= g.spec_height(),
        decreases g.spec_height() - r0,
    {
        let mut c0: usize = 0;
        proof {
            assert(row_clears(*g, r0 as int, 0) =~= Seq::<CellPos>::empty());
            assert(out@ =~= clears_upto(*g, r0 as int) + row_clears(*g, r0 as int, 0));
        }
        while c0 < w
            invariant
                g.wf(),
                h as int == g.spec_height(),
                w as int == g.spec_width(),
                5 <= r0 < g.spec_height(),
                0 <= c0 <= g.spec_width(),
                out@ == clears_upto(*g, r0 as int) + row_clears(*g, r0 as int, c0 as int),
                forall|k: int|
                    0 <= k < out@.len() ==> 1 <= (#[trigger] out@[k]).col <= g.spec_width() && 6
                        <= (out@[k]).row <= g.spec_height(),
            decreases g.spec_width() - c0,
        {
            let value = normalize(g.cell_at(r0, c0));
            if !value.as_str().is_empty() && m.is_match(value.as_str()) {
                out.push(CellPos { col: c0 + 1, row: r0 + 1 });
                proof {
                    assert(matches_at(*g, r0 as int, c0 as int));
                    assert(row_clears(*g, r0 as int, c0 + 1) =~= row_clears(*g, r0 as int, c0 as int)
                        + seq![pos_of(r0 as int, c0 as int)]);
                    assert(out@ =~= clears_upto(*g, r0 as int) + row_clears(*g, r0 as int, c0 + 1));
                }
            } else {
                proof {
                    assert(!matches_at(*g, r0 as int, c0 as int));
                    assert(row_clears(*g, r0 as int, c0 + 1) =~= row_clears(*g, r0 as int, c0 as int));
                }
            }
            c0 = c0 + 1;
        }
        proof {
            assert(clears_upto(*g, r0 + 1) =~= clears_upto(*g, r0 as int) + row_clears(
                *g,
                r0 as int,
                g.spec_width(),
            ));
        }
        r0 = r0 + 1;
    }
    ScanOutcome::Apply(out)
}

proof fn lemma_row_clears_elems(g: Grid, r: int, c_end: int)
    requires
        0 <= r,
        r + 1 <= usize::MAX as int,
        c_end <= usize::MAX as int,
    ensures
        forall|p: CellPos|
            #[trigger] row_clears(g, r, c_end).contains(p) <==> (p.row as int == r + 1 && 1
                <= p.col as int <= c_end && matches_at(g, r, p.col as int - 1)),
        forall|i: int, j: int|
            0 <= i < j < row_clears(g, r, c_end).len() ==> (#[trigger] row_clears(g, r, c_end)[i]).col
                < (#[trigger] row_clears(g, r, c_end)[j]).col,
    decreases c_end,
{
    if c_end <= 0 {
        assert(row_clears(g, r, c_end) =~= Seq::<CellPos>::empty());
    } else {
        lemma_row_clears_elems(g, r, c_end - 1);
        let prev = row_clears(g, r, c_end - 1);
        let s = row_clears(g, r, c_end);
        if matches_at(g, r, c_end - 1) {
            let q = pos_of(r, c_end - 1);
            assert(q.col as int == c_end);
            assert(q.row as int == r + 1);
            assert(s == prev + seq![q]);
            assert(s[prev.len() as int] == q);
            assert forall|p: CellPos| #[trigger] s.contains(p) implies (p.row as int == r + 1 && 1
                <= p.col as int <= c_end && matches_at(g, r, p.col as int - 1)) by {
                let i = choose|i: int| 0 <= i < s.len() && s[i] == p;
                if i < prev.len() {
                    assert(prev[i] == p);
                    assert(prev.contains(p));
                } else {
                    assert(p == q);
                }
            }
            assert forall|p: CellPos|
                (p.row as int == r + 1 && 1 <= p.col as int <= c_end && matches_at(
                    g,
                    r,
                    p.col as int - 1,
                )) implies #[trigger] s.contains(p) by {
                if p.col as int <= c_end - 1 {
                    assert(prev.contains(p));
                    let i = choose|i: int| 0 <= i < prev.len() && prev[i] == p;
                    assert(s[i] == p);
                } else {
                    assert(p.col as int == c_end);
                    assert(p.col == q.col && p.row == q.row);
                    assert(s[prev.len() as int] == p);
                }
            }
            assert forall|i: int, j: int| 0 <= i < j < s.len() implies (#[trigger] s[i]).col < (
            #[trigger] s[j]).col by {
                if j < prev.len() {
                    assert(s[i] == prev[i] && s[j] == prev[j]);
                } else {
                    assert(s[j] == q);
                    assert(s[i] == prev[i]);
                    assert(prev.contains(prev[i]));
                    assert(prev[i].col as int <= c_end - 1);
                }
            }
        } else {
            assert(s =~= prev);
            assert forall|p: CellPos|
                (p.row as int == r + 1 && 1 <= p.col as int <= c_end && matches_at(
                    g,
                    r,
                    p.col as int - 1,
                )) implies #[trigger] s.contains(p) by {
                if p.col as int == c_end {
                    assert(matches_at(g, r, c_end - 1));
                } else {
                    assert(prev.contains(p));
                }
            }
        }
    }
}

proof fn lemma_clears_upto_elems(g: Grid, r_end: int)
    requires
        r_end <= usize::MAX as int,
    ensures
        forall|p: CellPos|
            #[trigger] clears_upto(g, r_end).contains(p) <==> (6 <= p.row as int <= r_end && 1
                <= p.col as int <= g.spec_width() && matches_at(
                g,
                p.row as int - 1,
                p.col as int - 1,
            )),
        forall|i: int, j: int|
            0 <= i < j < clears_upto(g, r_end).len() ==> (#[trigger] clears_upto(g, r_end)[i]).row
                < (#[trigger] clears_upto(g, r_end)[j]).row || ((clears_upto(g, r_end)[i]).row == (
            clears_upto(g, r_end)[j]).row && (clears_upto(g, r_end)[i]).col < (clears_upto(
                g,
                r_end,
            )[j]).col),
    decreases r_end,
{
    if r_end <= 5 {
        assert(clears_upto(g, r_end) =~= Seq::<CellPos>::empty());
    } else {
        lemma_clears_upto_elems(g, r_end - 1);
        lemma_row_clears_elems(g, r_end - 1, g.spec_width());
        let prev = clears_upto(g, r_end - 1);
        let row = row_clears(g, r_end - 1, g.spec_width());
        let s = clears_upto(g, r_end);
        assert(s == prev + row);
        assert forall|p: CellPos| #[trigger] s.contains(p) implies (6 <= p.row as int <= r_end && 1
            <= p.col as int <= g.spec_width() && matches_at(g, p.row as int - 1, p.col as int - 1))
            by {
            let i = choose|i: int| 0 <= i < s.len() && s[i] == p;
            if i < prev.len() {
                assert(prev[i] == p);
                assert(prev.contains(p));
            } else {
                assert(row[i - prev.len()] == p);
                assert(row.contains(p));
            }
        }
        assert forall|p: CellPos|
            (6 <= p.row as int <= r_end && 1 <= p.col as int <= g.spec_width() && matches_at(
                g,
                p.row as int - 1,
                p.col as int - 1,
            )) implies #[trigger] s.contains(p) by {
            if p.row as int <= r_end - 1 {
                assert(prev.contains(p));
                let i = choose|i: int| 0 <= i < prev.len() && prev[i] == p;
                assert(s[i] == p);
            } else {
                assert(p.row as int == r_end);
                assert(row.contains(p));
                let i = choose|i: int| 0 <= i < row.len() && row[i] == p;
                assert(s[prev.len() + i] == p);
            }
        }
        assert forall|i: int, j: int| 0 <= i < j < s.len() implies (#[trigger] s[i]).row < (
        #[trigger] s[j]).row || ((s[i]).row == (s[j]).row && (s[i]).col < (s[j]).col) by {
            if j < prev.len() {
                assert(s[i] == prev[i] && s[j] == prev[j]);
            } else if i >= prev.len() {
                assert(s[i] == row[i - prev.len()] && s[j] == row[j - prev.len()]);
                assert(row.contains(row[i - prev.len()]));
                assert(row.contains(row[j - prev.len()]));
            } else {
                assert(s[i] == prev[i]);
                assert(s[j] == row[j - prev.len()]);
                assert(prev.contains(prev[i]));
                assert(row.contains(row[j - prev.len()]));
                assert(s[i].row as int <= r_end - 1);
                assert(s[j].row as int == r_end);
            }
        }
    }
}

/// Scan correctness: a 1-based position stands in a grid's clear list
/// exactly when its 0-based cell lies at row 5 or later and its normalized
/// text is non-empty and contains the clear pattern; positions at earlier
/// rows, or whose cells do not match, never stand in it; and the list holds
/// no position twice.
pub proof fn lemma_scan_correct(g: Grid)
    ensures
        forall|r: int, c: int|
            5 <= r < g.spec_height() && 0 <= c < g.spec_width() ==> (matches_at(g, r, c)
                <==> spec_clear_list(g).contains(#[trigger] pos_of(r, c))),
        forall|p: CellPos|
            #[trigger] spec_clear_list(g).contains(p) ==> 6 <= p.row as int <= g.spec_height() && 1
                <= p.col as int <= g.spec_width() && matches_at(
                g,
                p.row as int - 1,
                p.col as int - 1,
            ),
        spec_clear_list(g).no_duplicates(),
{
    vstd::std_specs::vec::axiom_spec_len(&g.cells);
    lemma_clears_upto_elems(g, g.spec_height());
    let s = spec_clear_list(g);
    assert forall|i: int, j: int| 0 <= i < j < s.len() implies s[i] != s[j] by {
        assert(s[i].row < s[j].row || (s[i].row == s[j].row && s[i].col < s[j].col));
    }
    assert(s.no_duplicates());
    assert forall|r: int, c: int|
        5 <= r < g.spec_height() && 0 <= c < g.spec_width() implies (matches_at(g, r, c)
        <==> s.contains(#[trigger] pos_of(r, c))) by {
        let p = pos_of(r, c);
        assert(p.row as int == r + 1);
        assert(p.col as int == c + 1);
    }
}

/// The cell references of a list of 1-based positions, in order.
pub fn clear_addresses(list: &Vec<CellPos>) -> (r: Vec<String>)
    requires
        forall|k: int|
            0 <= k < list@.len() ==> 1 <= (#[trigger] list@[k]).col && 1 <= (list@[k]).row,
    ensures
        r@.len() == list@.len(),
        forall|k: int|
            0 <= k < list@.len() ==> (#[trigger] r@[k])@ == spec_cell_ref(
                list@[k].col as int,
                list@[k].row as int,
            ),
{
    let mut r: Vec<String> = Vec::new();
    let mut i: usize = 0;
    while i < list.len()
        invariant
            0 <= i <= list@.len(),
            r@.len() == i,
            forall|k: int|
                0 <= k < list@.len() ==> 1 <= (#[trigger] list@[k]).col && 1 <= (list@[k]).row,
            forall|k: int|
                0 <= k < i ==> (#[trigger] r@[k])@ == spec_cell_ref(
                    list@[k].col as int,
                    list@[k].row as int,
                ),
        decreases list@.len() - i,
    {
        let p = list[i];
        r.push(cell_ref(p.col, p.row));
        i = i + 1;
    }
    r
}

} // verus!
