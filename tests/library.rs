use tinacalamine::cell::{int_to_text, cell_to_text, Cell, CellErrorKind};
use tinacalamine::facade::{read_all_sheets, SheetRead};
use tinacalamine::marshal::{marshal, release, MarshaledSheet, MarshaledSpreadsheet};
use tinacalamine::registry::{Registry, SENTINEL};
use tinacalamine::sheet::{flatten, FlatSheet};
use tinacalamine::RustImpl;

fn text(s: &str) -> Cell {
    Cell::Text(s.to_string())
}

fn texts_of(sheet: &MarshaledSheet) -> Vec<String> {
    match sheet.buffer() {
        None => Vec::new(),
        Some(v) => v.clone(),
    }
}

#[test]
fn scenario_two_sheets() {
    let reads = vec![
        SheetRead {
            name: "A".to_string(),
            rows: Some(vec![vec![text("a"), text("1")], vec![text("b"), text("2")]]),
        },
        SheetRead { name: "B".to_string(), rows: Some(Vec::new()) },
    ];
    let payload = read_all_sheets(Some(reads));
    assert_eq!(payload.sheets.len(), 2);
    let a = &payload.sheets[0];
    assert_eq!(a.name(), "A");
    assert_eq!(a.len(), 4);
    assert_eq!(texts_of(a), vec!["a", "1", "b", "2"]);
    let b = &payload.sheets[1];
    assert_eq!(b.name(), "B");
    assert!(b.buffer().is_none());
    assert_eq!(b.len(), 0);
    assert_eq!(release(payload), 1);
}

#[test]
fn scenario_nonexistent_path() {
    let mut reg = Registry::new();
    let opened = calamine::open_workbook::<calamine::Xlsx<_>, _>("/nonexistent/book.xlsx").ok();
    let h = reg.open(opened);
    assert_eq!(h, 0);
    assert!(reg.get(h).is_none());
    let reads: Option<Vec<SheetRead>> = reg.get(h).map(|_| Vec::new());
    let payload = read_all_sheets(reads);
    assert_eq!(payload.sheets.len(), 0);
    assert_eq!(release(payload), 0);
}

#[test]
fn scenario_cell_texts() {
    assert_eq!(cell_to_text(&Cell::Float(3.5f64.to_string())), "3.5");
    assert_eq!(cell_to_text(&Cell::Int(-7)), "-7");
    assert_eq!(cell_to_text(&Cell::Bool(true)), "true");
    assert_eq!(cell_to_text(&Cell::Empty), "");
}

#[test]
fn cell_texts_other_variants() {
    assert_eq!(cell_to_text(&text("x, \"y\"")), "x, \"y\"");
    assert_eq!(cell_to_text(&Cell::Bool(false)), "false");
    assert_eq!(cell_to_text(&Cell::Int(0)), "0");
    assert_eq!(cell_to_text(&Cell::Int(1200)), "1200");
    assert_eq!(cell_to_text(&Cell::Error(CellErrorKind::Div0)), "Div0");
    assert_eq!(cell_to_text(&Cell::Error(CellErrorKind::NA)), "NA");
    assert_eq!(cell_to_text(&Cell::Error(CellErrorKind::GettingData)), "GettingData");
    assert_eq!(cell_to_text(&Cell::Error(CellErrorKind::Value)), "Value");
}

#[test]
fn integer_text_extremes() {
    assert_eq!(int_to_text(i64::MIN), i64::MIN.to_string());
    assert_eq!(int_to_text(i64::MAX), i64::MAX.to_string());
    assert_eq!(int_to_text(-1), "-1");
    assert_eq!(int_to_text(9), "9");
    assert_eq!(int_to_text(10), "10");
}

#[test]
fn cell_text_is_deterministic() {
    let cells = vec![text("q"), Cell::Int(42), Cell::Error(CellErrorKind::Ref), Cell::Empty];
    for c in &cells {
        assert_eq!(cell_to_text(c), cell_to_text(c));
    }
}

#[test]
fn flatten_keeps_row_major_order_and_empty_slots() {
    let rows = vec![
        vec![Cell::Int(1), Cell::Empty, Cell::Bool(true)],
        vec![text("x")],
        vec![],
        vec![Cell::Empty, Cell::Int(-3)],
    ];
    let name = "S".to_string();
    let f = flatten(&name, &rows);
    assert_eq!(f.name, "S");
    assert_eq!(f.cells, vec!["1", "", "true", "x", "", "-3"]);
}

#[test]
fn flatten_twice_is_equal() {
    let rows = vec![vec![text("a"), Cell::Int(5)], vec![Cell::Empty]];
    let name = "T".to_string();
    let f1 = flatten(&name, &rows);
    let f2 = flatten(&name, &rows);
    assert_eq!(f1.name, f2.name);
    assert_eq!(f1.cells, f2.cells);
}

#[test]
fn marshal_null_iff_empty() {
    let sheets = vec![
        FlatSheet { name: "full".to_string(), cells: vec!["p".to_string(), "q".to_string()] },
        FlatSheet { name: "empty".to_string(), cells: Vec::new() },
        FlatSheet { name: "one".to_string(), cells: vec!["".to_string()] },
    ];
    let payload = marshal(sheets);
    assert_eq!(payload.sheets.len(), 3);
    for s in &payload.sheets {
        assert_eq!(s.buffer().is_none(), s.len() == 0);
    }
    assert_eq!(payload.sheets[0].len(), 2);
    assert_eq!(payload.sheets[1].len(), 0);
    assert_eq!(texts_of(&payload.sheets[2]), vec![""]);
    assert_eq!(release(payload), 2);
}

#[test]
fn release_empty_payload_is_noop() {
    assert_eq!(release(MarshaledSpreadsheet::empty()), 0);
    assert_eq!(release(marshal(Vec::new())), 0);
}

#[test]
fn unreadable_sheets_are_omitted() {
    let reads = vec![
        SheetRead { name: "one".to_string(), rows: Some(vec![vec![Cell::Int(1)]]) },
        SheetRead { name: "broken".to_string(), rows: None },
        SheetRead { name: "three".to_string(), rows: Some(vec![vec![text("z")]]) },
    ];
    let payload = read_all_sheets(Some(reads));
    assert_eq!(payload.sheets.len(), 2);
    assert_eq!(payload.sheets[0].name(), "one");
    assert_eq!(payload.sheets[1].name(), "three");
    assert_eq!(texts_of(&payload.sheets[1]), vec!["z"]);
}

#[test]
fn unknown_handle_reads_nothing() {
    assert_eq!(read_all_sheets(None).sheets.len(), 0);
}

#[test]
fn handles_are_distinct_and_nonzero() {
    let mut reg: Registry<u32> = Registry::new();
    let mut seen: Vec<u64> = Vec::new();
    for k in 0..20u32 {
        let h = reg.open(Some(k));
        assert_ne!(h, SENTINEL);
        assert!(!seen.contains(&h));
        seen.push(h);
    }
    assert_eq!(reg.get(seen[3]), Some(&3));
    assert!(reg.release(seen[3]));
    let h = reg.open(Some(99));
    assert!(!seen.contains(&h));
    assert_eq!(reg.get(h), Some(&99));
}

#[test]
fn release_unknown_or_twice_is_noop() {
    let mut reg: Registry<u32> = Registry::new();
    assert!(!reg.release(0));
    assert!(!reg.release(77));
    let h = reg.open(Some(5));
    assert!(reg.release(h));
    assert!(reg.get(h).is_none());
    assert!(!reg.release(h));
    let h2 = reg.open(Some(6));
    assert_ne!(h2, h);
    assert_eq!(reg.get(h2), Some(&6));
}

#[test]
fn failed_open_stores_nothing() {
    let mut reg: Registry<u32> = Registry::new();
    assert!(reg.can_issue());
    assert_eq!(reg.open(None), 0);
    let h = reg.open(Some(1));
    assert_eq!(h, 1);
}

#[test]
fn rust_impl_constructs() {
    let _r = RustImpl::new();
}
