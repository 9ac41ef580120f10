//! Sheet resolver: reconciles the two workbook representations. The
//! write-oriented parse is the source of truth for which sheet is active
//! (its view settings hold the active tab index); the read-oriented parse is
//! the source of truth for the sheet names and their data. The resolver
//! picks the name at the active tab index, falls back to the first name when
//! the index is out of range, and reports no name when there are no sheets.

use vstd::prelude::*;

use crate::workbook::active_tab_of;
use crate::workbook::active_tab_index;

verus! {

/// The sheet name resolved for an active tab index: the name at that index,
/// the first name when the index is out of range, none when the list is
/// empty.
pub open spec fn spec_resolved_sheet(active_tab: int, names: Seq<Seq<char>>) -> Option<Seq<char>> {
    if names.len() == 0 {
        Option::None
    } else if 0 <= active_tab < names.len() {
        Option::Some(names[active_tab])
    } else {
        Option::Some(names[0])
    }
}

/// Resolve the active sheet name from an active tab index and the stored
/// sheet names. `None` exactly when there are no sheets (the fatal
/// "no worksheets" case).
pub fn resolve_active_sheet(active_tab: usize, sheet_names: &Vec<String>) -> (r: Option<String>)
    ensures
        match r {
            Some(name) => Some(name@) == spec_resolved_sheet(
                active_tab as int,
                sheet_names@.map_values(|s: String| s@),
            ),
            None => sheet_names@.len() == 0,
        },
{
    if sheet_names.len() == 0 {
        None
    } else if active_tab < sheet_names.len() {
        Some(sheet_names[active_tab].clone())
    } else {
        Some(sheet_names[0].clone())
    }
}

/// Resolve the active sheet name for a write-oriented workbook: its view
/// settings give the active tab index, the read-oriented sheet names give
/// the name.
pub fn resolve_for_workbook(book: &umya_spreadsheet::Workbook, sheet_names: &Vec<String>) -> (r:
    Option<String>)
    ensures
        match r {
            Some(name) => Some(name@) == spec_resolved_sheet(
                active_tab_of(*book) as int,
                sheet_names@.map_values(|s: String| s@),
            ),
            None => sheet_names@.len() == 0,
        },
{
    let tab = active_tab_index(book);
    resolve_active_sheet(tab as usize, sheet_names)
}

} // verus!
