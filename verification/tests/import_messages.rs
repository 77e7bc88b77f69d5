use persistence::compile_queue::{finalize_build, PendingBuild};
use persistence::import_catalog::{ImportLimits, ImportMode, InstitutionError};
use persistence::import_parse::{parse_csv, validate_headers};
use persistence::import_workbook::{parse_workbook, FormulaGrid, WorkbookSheet};
use persistence::QueueError;

fn headers(names: &[&str]) -> Vec<String> {
    names.iter().map(|n| n.to_string()).collect()
}

fn invalid(message: &str) -> Result<(), InstitutionError> {
    Err(InstitutionError::InvalidInput(message.to_owned()))
}

#[test]
fn header_problems_name_the_column() {
    let limits = ImportLimits::default();
    assert_eq!(validate_headers("students", &headers(&["reg_no", "name"]), &limits, ImportMode::AddOnly), Ok(()));
    assert_eq!(
        validate_headers("students", &headers(&[]), &limits, ImportMode::AddOnly),
        invalid("students: invalid column count")
    );
    assert_eq!(
        validate_headers("students", &headers(&["reg_no", " reg_no "]), &limits, ImportMode::AddOnly),
        invalid("students: empty or duplicate column reg_no")
    );
    assert_eq!(
        validate_headers("students", &headers(&["reg_no", "colour"]), &limits, ImportMode::AddOnly),
        invalid("students: unknown column colour")
    );
    assert_eq!(
        validate_headers("students", &headers(&["name"]), &limits, ImportMode::AddOnly),
        invalid("students: missing required column reg_no")
    );
}

#[test]
fn malformed_csv_rows_report_the_reader_error() {
    let result = parse_csv(
        "students.csv",
        None,
        b"reg_no,name\nS1,One,extra\n",
        &ImportLimits::default(),
        ImportMode::AddOnly,
        0,
    );
    match result {
        Err(InstitutionError::InvalidInput(message)) => assert!(message.starts_with("malformed CSV row: ")),
        other => panic!("unexpected {other:?}"),
    }
}

#[test]
fn workbook_problems_name_the_worksheet() {
    let sheet = |name: &str, cells: Result<Vec<Vec<Result<String, String>>>, String>| WorkbookSheet {
        name: name.to_owned(),
        cells,
        width: 1,
        formulas: Ok(FormulaGrid { start_row: 0, start_column: 0, cells: vec![] }),
    };
    let limits = ImportLimits::default();
    assert_eq!(
        parse_workbook(&Err("zip error".to_owned()), &limits, ImportMode::AddOnly, 0).err(),
        Some(InstitutionError::InvalidInput("malformed XLSX workbook: zip error".to_owned()))
    );
    assert_eq!(
        parse_workbook(&Ok(vec![sheet("students", Err("bad range".to_owned()))]), &limits, ImportMode::AddOnly, 0).err(),
        Some(InstitutionError::InvalidInput("malformed worksheet students: bad range".to_owned()))
    );
    assert_eq!(
        parse_workbook(&Ok(vec![sheet("people", Ok(vec![vec![Ok("x".to_owned())]]))]), &limits, ImportMode::AddOnly, 0)
            .err(),
        Some(InstitutionError::InvalidInput("unknown non-empty worksheet: people".to_owned()))
    );
    assert_eq!(
        parse_workbook(
            &Ok(vec![sheet("schools", Ok(vec![vec![Ok("school_id".to_owned())], vec![Err("Div0".to_owned())]]))]),
            &limits,
            ImportMode::AddOnly,
            0
        )
        .err(),
        Some(InstitutionError::InvalidInput("XLSX cell error: Div0".to_owned()))
    );
}

#[test]
fn incomplete_pending_builds_name_the_missing_column() {
    let pending = PendingBuild {
        state_hash: Some("h".to_owned()),
        snapshot_id: Some("s".to_owned()),
        has_manifest: true,
        source_sequence: Some(1),
        document_epoch: Some(1),
        tenant_id: Some(1),
        user_id: Some(2),
        trigger_type: Some("manual".to_owned()),
        compile_key: None,
        engine: Some("pdflatex".to_owned()),
        tex_environment_id: Some("tex".to_owned()),
        latexmk_profile: Some("default".to_owned()),
        shell_policy: Some("safe".to_owned()),
        synctex: Some(true),
    };
    match finalize_build(true, "h", &Some("h".to_owned()), &pending) {
        Err(e) => assert_eq!(
            e,
            QueueError::Integrity { message: "incomplete pending V2 build: pending_compile_key".to_owned() }
        ),
        Ok(_) => panic!("incomplete pending build accepted"),
    }
    let mut complete = pending.clone();
    complete.compile_key = Some("k".to_owned());
    let f = finalize_build(true, "h", &Some("h".to_owned()), &complete).expect("complete");
    assert_eq!(f.status, "succeeded");
    assert!(f.promote);
    let next = f.next.expect("queued");
    assert_eq!(next.priority, 10);
    assert_eq!(next.compile_key, "k");
}
