//! Transform & persist: applies the clear operations to the write-oriented
//! in-memory workbook, and derives the output path. Serialization itself is
//! file I/O and stays outside the library.
//!
//! The workbook is modelled by three names: its 0-based active tab index,
//! its sheet count, and the cell contents of its active sheet, as a map from
//! 1-based (column, row) positions to value strings (an unset cell reads as
//! the empty string).

use vstd::prelude::*;
use vstd::string::StringExecFns;

use crate::scan::CellPos;
use crate::scan::Grid;
use crate::scan::PatternMatcher;
use crate::scan::ScanOutcome;
use crate::scan::scan;
use crate::scan::spec_applicable;
use crate::scan::spec_clear_list;
use crate::scan::spec_marker_matches;

verus! {

#[verifier::external_type_specification]
#[verifier::external_body]
pub struct ExWorkbook(umya_spreadsheet::Workbook);

/// The 0-based active tab index stored in the workbook's view settings.
pub uninterp spec fn active_tab_of(book: umya_spreadsheet::Workbook) -> u32;

/// The number of worksheets in the workbook.
pub uninterp spec fn sheet_count_of(book: umya_spreadsheet::Workbook) -> int;

/// The cell values of the workbook's active sheet: 1-based (column, row)
/// positions to value strings; an unset cell carries the empty string.
pub uninterp spec fn active_cells(book: umya_spreadsheet::Workbook) -> Map<
    (usize, usize),
    Seq<char>,
>;

/// The workbook has a sheet at its active tab index.
pub open spec fn has_active_sheet(book: umya_spreadsheet::Workbook) -> bool {
    (active_tab_of(book) as int) < sheet_count_of(book)
}

/// Relies on `Workbook::workbook_view` and `WorkbookView::active_tab`:
/// reads the 0-based active tab index, an attribute of the workbook value.
#[verifier::external_body]
pub(crate) fn active_tab_index(book: &umya_spreadsheet::Workbook) -> (r: u32)
    ensures
        r == active_tab_of(*book),
{
    book.workbook_view().active_tab()
}

/// Relies on `Workbook::sheet_mut`, `Worksheet::cell_mut` and
/// `Cell::set_value`: when the active tab index is in range, `sheet_mut`
/// returns that sheet, `cell_mut` addresses (creating it if absent) the cell
/// at the given 1-based (column, row) position of it, and `set_value("")`
/// replaces that cell's value with the empty string, leaving every other
/// cell's value, the active tab and the sheet count unchanged; when the
/// index is out of range, `sheet_mut` errs and nothing changes.
#[verifier::external_body]
fn clear_cell(book: &mut umya_spreadsheet::Workbook, col: usize, row: usize) -> (r: bool)
    requires
        1 <= col <= 0xFFFF_FFFFusize,
        1 <= row <= 0xFFFF_FFFFusize,
    ensures
        r == has_active_sheet(*old(book)),
        active_tab_of(*final(book)) == active_tab_of(*old(book)),
        sheet_count_of(*final(book)) == sheet_count_of(*old(book)),
        r ==> active_cells(*final(book)) == active_cells(*old(book)).insert(
            (col, row),
            Seq::<char>::empty(),
        ),
        !r ==> active_cells(*final(book)) == active_cells(*old(book)),
{
    let tab = book.workbook_view().active_tab() as usize;
    match book.sheet_mut(tab) {
        Ok(ws) => {
            ws.cell_mut((col as u32, row as u32)).set_value("");
            true
        },
        Err(_) => false,
    }
}

/// The active sheet's cells after clearing every listed position, in order.
pub open spec fn spec_cleared(
    m: Map<(usize, usize), Seq<char>>,
    list: Seq<CellPos>,
) -> Map<(usize, usize), Seq<char>>
    decreases list.len(),
{
    if list.len() == 0 {
        m
    } else {
        spec_cleared(m, list.drop_last()).insert(
            (list.last().col, list.last().row),
            Seq::<char>::empty(),
        )
    }
}

/// Set every listed cell of the workbook's active sheet to the empty string.
/// When the workbook has no sheet at its active tab index, nothing changes.
pub fn apply_clears(book: &mut umya_spreadsheet::Workbook, list: &Vec<CellPos>)
    requires
        forall|k: int|
            0 <= k < list@.len() ==> 1 <= (#[trigger] list@[k]).col <= 0xFFFF_FFFFusize && 1 <= (
            list@[k]).row <= 0xFFFF_FFFFusize,
    ensures
        active_tab_of(*final(book)) == active_tab_of(*old(book)),
        sheet_count_of(*final(book)) == sheet_count_of(*old(book)),
        has_active_sheet(*old(book)) ==> active_cells(*final(book)) == spec_cleared(
            active_cells(*old(book)),
            list@,
        ),
        !has_active_sheet(*old(book)) ==> active_cells(*final(book)) == active_cells(*old(book)),
{
    let mut i: usize = 0;
    proof {
        assert(list@.take(0) =~= Seq::<CellPos>::empty());
    }
    while i < list.len()
        invariant
            0 <= i <= list@.len(),
            forall|k: int|
                0 <= k < list@.len() ==> 1 <= (#[trigger] list@[k]).col <= 0xFFFF_FFFFusize && 1
                    <= (list@[k]).row <= 0xFFFF_FFFFusize,
            active_tab_of(*book) == active_tab_of(*old(book)),
            sheet_count_of(*book) == sheet_count_of(*old(book)),
            has_active_sheet(*old(book)) ==> active_cells(*book) == spec_cleared(
                active_cells(*old(book)),
                list@.take(i as int),
            ),
            !has_active_sheet(*old(book)) ==> active_cells(*book) == active_cells(*old(book)),
        decreases list@.len() - i,
    {
        let p = list[i];
        proof {
            assert(list@.take(i + 1).drop_last() =~= list@.take(i as int));
            assert(list@.take(i + 1).last() == list@[i as int]);
        }
        let _ = clear_cell(book, p.col, p.row);
        i = i + 1;
    }
    proof {
        assert(list@.take(list@.len() as int) =~= list@);
    }
}

/// Clearing already-cleared cells changes nothing: when every listed
/// position already holds the empty string, the cleared sheet equals the
/// sheet as it stood.
pub proof fn lemma_clearing_idempotent(m: Map<(usize, usize), Seq<char>>, list: Seq<CellPos>)
    requires
        forall|k: int|
            0 <= k < list.len() ==> m.dom().contains(
                ((#[trigger] list[k]).col, list[k].row),
            ) && m[(list[k].col, list[k].row)] == Seq::<char>::empty(),
    ensures
        spec_cleared(m, list) == m,
    decreases list.len(),
{
    if list.len() > 0 {
        assert(forall|k: int|
            0 <= k < list.drop_last().len() ==> (#[trigger] list.drop_last()[k]) == list[k]);
        lemma_clearing_idempotent(m, list.drop_last());
        let key = (list.last().col, list.last().row);
        assert(m.dom().contains(key) && m[key] == Seq::<char>::empty());
        assert(m.insert(key, Seq::<char>::empty()) =~= m);
    }
}

/// Run the scan on a grid and, when the rule applies, clear every matched
/// cell of the workbook's active sheet. The workbook changes only in the
/// `Apply` case, and then exactly by the grid's clear list.
pub fn scan_and_clear(
    book: &mut umya_spreadsheet::Workbook,
    g: &Grid,
    m: &PatternMatcher,
) -> (r: ScanOutcome)
    requires
        g.wf(),
        g.spec_height() <= 0xFFFF_FFFFusize,
        g.spec_width() <= 0xFFFF_FFFFusize,
    ensures
        match r {
            ScanOutcome::MarkerMismatch => !spec_marker_matches(*g) && *final(book) == *old(book),
            ScanOutcome::TooFewRows => spec_marker_matches(*g) && g.spec_height() < 6
                && *final(book) == *old(book),
            ScanOutcome::Apply(list) => spec_applicable(*g) && list@ == spec_clear_list(*g)
                && active_tab_of(*final(book)) == active_tab_of(*old(book))
                && sheet_count_of(*final(book)) == sheet_count_of(*old(book))
                && (has_active_sheet(*old(book)) ==> active_cells(*final(book)) == spec_cleared(
                active_cells(*old(book)),
                spec_clear_list(*g),
            )) && (!has_active_sheet(*old(book)) ==> active_cells(*final(book)) == active_cells(
                *old(book),
            )),
        },
{
    let outcome = scan(g, m);
    match outcome {
        ScanOutcome::Apply(list) => {
            apply_clears(book, &list);
            ScanOutcome::Apply(list)
        },
        other => other,
    }
}

/// The output path for an input file name: the fixed prefix `processed_`
/// followed by the input's file name, or by `output.xlsx` when the input
/// has no extractable file name.
pub fn processed_output_path(file_name: Option<&str>) -> (r: String)
    ensures
        r@ == "processed_"@ + (match file_name {
            Some(n) => n@,
            None => "output.xlsx"@,
        }),
{
    let base: String = match file_name {
        Some(n) => n.to_owned(),
        None => "output.xlsx".to_owned(),
    };
    let prefix: String = "processed_".to_owned();
    prefix.concat(base.as_str())
}

} // verus!
