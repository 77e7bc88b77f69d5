use persistence::import_catalog::{ImportLimits, ImportMode};
use persistence::import_cross::validate_cross_rows;
use persistence::import_parse::parse_csv;
use persistence::import_support::tally_programmes;
use persistence::import_workbook::{parse_workbook, FormulaGrid, WorkbookSheet};

fn error_code(row: &persistence::import_rows::SourceRow) -> Option<&str> {
    row.error.as_ref().map(|value| value.code.as_str())
}

#[test]
fn csv_parser_accepts_valid_students_and_rejects_duplicate_keys() {
    let bytes = b"reg_no,name,email,programme_code\nS1,One,one@example.edu,CSE\nS1,Again,again@example.edu,CSE\n";
    let mut rows = parse_csv(
        "students.csv",
        None,
        bytes,
        &ImportLimits::default(),
        ImportMode::AddOnly,
        0,
    )
    .expect("CSV parses");
    validate_cross_rows(&mut rows);
    assert!(rows[0].error.is_none());
    assert_eq!(error_code(&rows[1]), Some("DUPLICATE_KEY"));
}

#[test]
fn csv_parser_rejects_missing_columns_and_malformed_uuid() {
    assert!(parse_csv(
        "departments.csv",
        None,
        b"wrong\nvalue\n",
        &ImportLimits::default(),
        ImportMode::AddOnly,
        0,
    )
    .is_err());
    let rows = parse_csv(
        "departments.csv",
        None,
        b"department_id\nnot-a-uuid\n",
        &ImportLimits::default(),
        ImportMode::AddOnly,
        0,
    )
    .expect("shape parses");
    assert_eq!(error_code(&rows[0]), Some("MALFORMED_UUID"));
}

#[test]
fn tie_break_is_defined_by_writer_order_data_structures() {
    let programmes = vec![Some("ECE".to_owned()), Some("CSE".to_owned())];
    let tally = tally_programmes(&programmes);
    assert_eq!(tally.dominant.as_deref(), Some("ECE"));
    assert!(tally.tie);
}

fn text(value: &str) -> Result<String, String> {
    Ok(value.to_owned())
}

fn students_sheet(key: &str, formulas: FormulaGrid) -> WorkbookSheet {
    WorkbookSheet {
        name: "students".to_owned(),
        cells: Ok(vec![
            vec![text("reg_no"), text("name"), text("email"), text("programme_code")],
            vec![text(key), text("Student"), text("student@example.edu"), text("CSE")],
        ]),
        width: 4,
        formulas: Ok(formulas),
    }
}

#[test]
fn xlsx_parser_accepts_known_sheet_and_rejects_formula_key() {
    let valid = Ok(vec![students_sheet(
        "S1",
        FormulaGrid { start_row: 0, start_column: 0, cells: vec![] },
    )]);
    let rows = parse_workbook(&valid, &ImportLimits::default(), ImportMode::AddOnly, 0)
        .expect("valid XLSX parses");
    assert_eq!(rows.len(), 1);
    assert!(rows[0].error.is_none());

    // The key cell A2 holds CONCAT("S","1"), whose cached value reads as 1.
    let formula = Ok(vec![students_sheet(
        "1",
        FormulaGrid {
            start_row: 1,
            start_column: 0,
            cells: vec![vec!["CONCAT(\"S\",\"1\")".to_owned()]],
        },
    )]);
    let rows = parse_workbook(&formula, &ImportLimits::default(), ImportMode::AddOnly, 0)
        .expect("XLSX shape parses");
    assert_eq!(error_code(&rows[0]), Some("FORMULA_IN_KEY"));
}

#[test]
fn workbook_with_unknown_non_empty_sheet_is_refused() {
    let mut sheet = students_sheet("S1", FormulaGrid { start_row: 0, start_column: 0, cells: vec![] });
    sheet.name = "people".to_owned();
    assert!(parse_workbook(&Ok(vec![sheet]), &ImportLimits::default(), ImportMode::AddOnly, 0).is_err());
}

#[test]
fn workbook_without_data_rows_is_refused() {
    let empty = WorkbookSheet {
        name: "students".to_owned(),
        cells: Ok(vec![]),
        width: 0,
        formulas: Ok(FormulaGrid { start_row: 0, start_column: 0, cells: vec![] }),
    };
    assert!(parse_workbook(&Ok(vec![empty]), &ImportLimits::default(), ImportMode::AddOnly, 0).is_err());
}

#[test]
fn unresolved_writers_do_not_decide_the_programme() {
    let programmes = vec![None, Some("CSE".to_owned()), Some("ECE".to_owned()), Some("ECE".to_owned())];
    let tally = tally_programmes(&programmes);
    assert_eq!(tally.dominant.as_deref(), Some("ECE"));
    assert!(!tally.tie);
    assert_eq!(tally.unresolved, vec![0]);
}
