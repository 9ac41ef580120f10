use sheet_cleaner::processed_output_path;
use sheet_cleaner::resolve::resolve_active_sheet;
use sheet_cleaner::resolve::resolve_for_workbook;
use sheet_cleaner::scan::CellPos;
use sheet_cleaner::scan::Grid;
use sheet_cleaner::scan::PatternMatcher;
use sheet_cleaner::scan::ScanOutcome;
use sheet_cleaner::scan::clear_addresses;
use sheet_cleaner::value::CellValue;
use sheet_cleaner::workbook::apply_clears;
use sheet_cleaner::workbook::scan_and_clear;

fn names(list: &[&str]) -> Vec<String> {
    list.iter().map(|s| s.to_string()).collect()
}

#[test]
fn resolve_picks_active_tab() {
    let sheets = names(&["first", "second", "third"]);
    assert_eq!(resolve_active_sheet(0, &sheets), Some("first".to_string()));
    assert_eq!(resolve_active_sheet(1, &sheets), Some("second".to_string()));
    assert_eq!(resolve_active_sheet(2, &sheets), Some("third".to_string()));
}

#[test]
fn resolve_falls_back_to_first_sheet() {
    let sheets = names(&["only", "other"]);
    assert_eq!(resolve_active_sheet(7, &sheets), Some("only".to_string()));
}

#[test]
fn resolve_fails_without_sheets() {
    let sheets: Vec<String> = Vec::new();
    assert_eq!(resolve_active_sheet(0, &sheets), None);
}

#[test]
fn resolve_reads_workbook_active_tab() {
    // A fresh workbook's view settings hold active tab 0.
    let book = umya_spreadsheet::new_file();
    let sheets = names(&["data", "notes"]);
    assert_eq!(resolve_for_workbook(&book, &sheets), Some("data".to_string()));
    assert_eq!(resolve_for_workbook(&book, &Vec::new()), None);
}

#[test]
fn apply_clears_empties_listed_cells_only() {
    let mut book = umya_spreadsheet::new_file();
    {
        let ws = book.active_sheet_mut();
        ws.cell_mut("B6").set_value("Cl(RM)");
        ws.cell_mut("C7").set_value("SO4(C)");
        ws.cell_mut("A1").set_value("keep");
    }
    let list = vec![CellPos { col: 2, row: 6 }, CellPos { col: 3, row: 7 }];
    apply_clears(&mut book, &list);
    let ws = book.active_sheet();
    assert_eq!(ws.value("B6"), "");
    assert_eq!(ws.value("C7"), "");
    assert_eq!(ws.value("A1"), "keep");
}

#[test]
fn clearing_already_cleared_cells_is_a_no_op() {
    let mut book = umya_spreadsheet::new_file();
    {
        let ws = book.active_sheet_mut();
        ws.cell_mut("B6").set_value("x(RM)");
        ws.cell_mut("D2").set_value("stay");
    }
    let list = vec![CellPos { col: 2, row: 6 }];
    apply_clears(&mut book, &list);
    assert_eq!(book.active_sheet().value("B6"), "");
    // Clearing again, and clearing a cell that was never set, changes nothing.
    let list2 = vec![CellPos { col: 2, row: 6 }, CellPos { col: 5, row: 9 }];
    apply_clears(&mut book, &list2);
    let ws = book.active_sheet();
    assert_eq!(ws.value("B6"), "");
    assert_eq!(ws.value("E9"), "");
    assert_eq!(ws.value("D2"), "stay");
}

#[test]
fn scan_and_clear_end_to_end() {
    // The grid the read-oriented parse would yield: height 7, width 3.
    let mut rows: Vec<Vec<CellValue>> = Vec::new();
    for r in 0..7usize {
        let mut row = Vec::new();
        for _ in 0..3usize {
            row.push(CellValue::Empty);
        }
        if r == 2 {
            row[0] = CellValue::Text("离子色谱 ".to_string());
        }
        if r == 5 {
            row[1] = CellValue::Text("Cl(RM)".to_string());
        }
        if r == 6 {
            row[2] = CellValue::Text("SO4(C)".to_string());
        }
        rows.push(row);
    }
    let grid = Grid::new(rows, 3).unwrap();

    // The write-oriented workbook holding the same content.
    let mut book = umya_spreadsheet::new_file();
    {
        let ws = book.active_sheet_mut();
        ws.cell_mut("A3").set_value("离子色谱 ");
        ws.cell_mut("B6").set_value("Cl(RM)");
        ws.cell_mut("C7").set_value("SO4(C)");
    }
    let matcher = PatternMatcher::new();
    match scan_and_clear(&mut book, &grid, &matcher) {
        ScanOutcome::Apply(list) => {
            let addrs = clear_addresses(&list);
            assert_eq!(addrs, vec!["B6".to_string(), "C7".to_string()]);
        }
        _ => panic!("rule should apply"),
    }
    let ws = book.active_sheet();
    assert_eq!(ws.value("B6"), "");
    assert_eq!(ws.value("C7"), "");
    assert_eq!(ws.value("A3"), "离子色谱 ");
}

#[test]
fn scan_and_clear_leaves_workbook_alone_on_mismatch() {
    let mut rows: Vec<Vec<CellValue>> = Vec::new();
    for r in 0..7usize {
        let mut row = Vec::new();
        for _ in 0..3usize {
            row.push(CellValue::Empty);
        }
        if r == 2 {
            row[0] = CellValue::Text("其他".to_string());
        }
        if r == 5 {
            row[1] = CellValue::Text("Cl(RM)".to_string());
        }
        rows.push(row);
    }
    let grid = Grid::new(rows, 3).unwrap();

    let mut book = umya_spreadsheet::new_file();
    book.active_sheet_mut().cell_mut("B6").set_value("Cl(RM)");
    let matcher = PatternMatcher::new();
    match scan_and_clear(&mut book, &grid, &matcher) {
        ScanOutcome::MarkerMismatch => {}
        _ => panic!("marker should not match"),
    }
    assert_eq!(book.active_sheet().value("B6"), "Cl(RM)");
}

#[test]
fn output_path_prefixes_file_name() {
    assert_eq!(
        processed_output_path(Some("book.xlsx")),
        "processed_book.xlsx"
    );
    assert_eq!(processed_output_path(Some("数据.xlsx")), "processed_数据.xlsx");
    assert_eq!(processed_output_path(None), "processed_output.xlsx");
}
