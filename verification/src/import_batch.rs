//! A batch of institutional uploads: the checks before any upload is parsed, the
//! parsing of each upload in order, the checks across all rows, and the counts a
//! validated batch records.
use crate::import_catalog::{
    invalid_input, operation_mode, ImportFileType, ImportLimits, ImportMode,
    InstitutionError, InstitutionOperation,
};
use crate::import_cross::{cross_checked, validate_cross_rows};
use crate::import_parse::{
    csv_header, csv_outcome_ok, csv_records, file_type, file_type_of, parse_csv,
};
use crate::import_rows::{expected_row, row_view, rows_view, RowView, SourceRow};
use crate::import_values::text_of;
use crate::import_workbook::{parse_workbook, workbook_rows, WorkbookSheet};
use crate::text::{
    ascii_lower_seq, ascii_lowercase, chars_eq, chars_of, str_eq, string_from_chars, trim_chars,
    trim_spec,
};
use vstd::prelude::*;

verus! {

/// One file of a batch.
#[derive(Clone, Debug)]
pub struct InstitutionBatchUpload {
    pub filename: String,
    pub target_table: Option<String>,
    pub bytes: Vec<u8>,
}

/// Lower-case hexadecimal digit of a nibble.
pub open spec fn hex_digit(n: int) -> char {
    if n < 10 {
        (('0' as int) + n) as char
    } else {
        (('a' as int) + n - 10) as char
    }
}

/// Lower-case hexadecimal text of bytes, two digits per byte.
pub open spec fn hex_text(bytes: Seq<u8>) -> Seq<char>
    decreases bytes.len(),
{
    if bytes.len() == 0 {
        seq![]
    } else {
        hex_text(bytes.drop_last()) + seq![hex_digit(bytes.last() as int / 16), hex_digit(bytes.last() as int % 16)]
    }
}

fn hex_digit_of(n: u8) -> (c: char)
    requires
        n < 16,
    ensures
        c == hex_digit(n as int),
{
    match n {
        0 => '0',
        1 => '1',
        2 => '2',
        3 => '3',
        4 => '4',
        5 => '5',
        6 => '6',
        7 => '7',
        8 => '8',
        9 => '9',
        10 => 'a',
        11 => 'b',
        12 => 'c',
        13 => 'd',
        14 => 'e',
        _ => 'f',
    }
}

/// Encodes bytes as lower-case hexadecimal text, two digits per byte.
pub fn hex_encode(bytes: &[u8]) -> (s: String)
    ensures
        s@ == hex_text(bytes@),
{
    let mut v: Vec<char> = Vec::new();
    let mut i: usize = 0;
    while i < bytes.len()
        invariant
            i <= bytes@.len(),
            v@ == hex_text(bytes@.take(i as int)),
        decreases bytes@.len() - i,
    {
        let b = bytes[i];
        let hi = hex_digit_of(b / 16);
        let lo = hex_digit_of(b % 16);
        proof {
            let t = bytes@.take(i + 1);
            assert(t.drop_last() =~= bytes@.take(i as int));
            assert(t.last() == b);
        }
        v.push(hi);
        v.push(lo);
        proof {
            assert(v@ =~= hex_text(bytes@.take(i + 1)));
        }
        i = i + 1;
    }
    proof {
        assert(bytes@.take(i as int) =~= bytes@);
    }
    string_from_chars(&v)
}

/// The SHA-256 digest of bytes, as `sha2::Sha256` computes it.
pub uninterp spec fn sha256_digest(bytes: Seq<u8>) -> Seq<u8>;

/// Computes the SHA-256 digest of bytes with `sha2::Sha256::digest`; the contract names
/// the digest and states its documented 32-byte length.
#[verifier::external_body]
fn sha256(bytes: &[u8]) -> (d: Vec<u8>)
    ensures
        d@ == sha256_digest(bytes@),
        d@.len() == 32,
{
    <sha2::Sha256 as sha2::Digest>::digest(bytes).to_vec()
}

/// The lower-case hexadecimal SHA-256 digest of an upload's bytes.
pub fn content_digest(bytes: &[u8]) -> (s: String)
    ensures
        s@ == hex_text(sha256_digest(bytes@)),
{
    let d = sha256(bytes);
    hex_encode(d.as_slice())
}

/// The identity of an upload within a batch: its ASCII-lower-cased file name and digest.
pub open spec fn upload_key(u: InstitutionBatchUpload) -> (Seq<char>, Seq<char>) {
    (ascii_lower_seq(u.filename@), hex_text(sha256_digest(u.bytes@)))
}

/// What a batch records of one file.
#[derive(Clone, Debug)]
pub struct UploadFile {
    pub file_type: ImportFileType,
    pub digest: String,
    pub import_kind: String,
}

/// The mathematical value of a file record.
pub ghost struct UploadFileView {
    pub file_type: ImportFileType,
    pub digest: Seq<char>,
    pub import_kind: Seq<char>,
}

/// Views of file records.
pub open spec fn files_view(v: Seq<UploadFile>) -> Seq<UploadFileView> {
    v.map_values(|f: UploadFile| UploadFileView { file_type: f.file_type, digest: f.digest@, import_kind: f.import_kind@ })
}

/// The rows a CSV upload yields, or `None` when it is refused.
pub open spec fn csv_upload_rows(
    filename: Seq<char>,
    target: Option<Seq<char>>,
    bytes: Seq<u8>,
    limits: ImportLimits,
    mode: ImportMode,
    upload_index: usize,
) -> Option<Seq<RowView>> {
    match csv_outcome_ok(filename, target, csv_header(bytes), csv_records(bytes), limits, mode) {
        None => None,
        Some(t) => Some(Seq::new(
            csv_records(bytes).len(),
            |i: int| expected_row(
                t,
                (i + 2) as i64,
                csv_header(bytes).unwrap(),
                csv_records(bytes)[i].unwrap(),
                None,
                mode,
                upload_index,
            ),
        )),
    }
}

/// The view of an optional target dataset.
pub open spec fn target_view(t: Option<String>) -> Option<Seq<char>> {
    match t {
        Some(s) => Some(s@),
        None => None,
    }
}

/// The rows and file record of upload `i`, or `None` when it is refused: a blank or
/// overlong file name, an empty or oversized file, an unsupported extension, a worksheet
/// target for a workbook, or a refused parse.
pub open spec fn upload_outcome(
    u: InstitutionBatchUpload,
    workbook: Option<Result<Vec<WorkbookSheet>, String>>,
    limits: ImportLimits,
    mode: ImportMode,
    i: usize,
) -> Option<(Seq<RowView>, UploadFileView)> {
    let digest = hex_text(sha256_digest(u.bytes@));
    if trim_spec(u.filename@).len() == 0 || u.filename@.len() > 255 {
        None
    } else if u.bytes@.len() == 0 || u.bytes@.len() > limits.max_upload_bytes {
        None
    } else {
        match file_type_of(u.filename@) {
            None => None,
            Some(ImportFileType::Csv) => match csv_upload_rows(u.filename@, target_view(u.target_table), u.bytes@, limits, mode, i) {
                None => None,
                Some(rs) => Some((
                    rs,
                    UploadFileView {
                        file_type: ImportFileType::Csv,
                        digest,
                        import_kind: if rs.len() > 0 { rs[0].table } else { "empty"@ },
                    },
                )),
            },
            Some(ImportFileType::Xlsx) => if u.target_table is Some {
                None
            } else {
                match workbook {
                    None => None,
                    Some(w) => match workbook_rows(w, limits, mode, i) {
                        Err(()) => None,
                        Ok(rs) => Some((rs, UploadFileView { file_type: ImportFileType::Xlsx, digest, import_kind: "workbook"@ })),
                    },
                }
            },
        }
    }
}

/// The rows and file records of the first `k` uploads, in order; `None` when one is
/// refused or repeats an earlier upload's name and content.
pub open spec fn uploads_outcome(
    uploads: Seq<InstitutionBatchUpload>,
    workbooks: Seq<Result<Vec<WorkbookSheet>, String>>,
    limits: ImportLimits,
    mode: ImportMode,
    k: int,
) -> Option<(Seq<RowView>, Seq<UploadFileView>)>
    decreases k,
{
    if k <= 0 {
        Some((seq![], seq![]))
    } else {
        match uploads_outcome(uploads, workbooks, limits, mode, k - 1) {
            None => None,
            Some((rows, files)) => {
                let u = uploads[k - 1];
                let wb = if k - 1 < workbooks.len() { Some(workbooks[k - 1]) } else { None };
                if (exists|j: int| 0 <= j < k - 1 && #[trigger] upload_key(uploads[j]) == upload_key(u))
                    && trim_spec(u.filename@).len() > 0 && u.filename@.len() <= 255 && u.bytes@.len() > 0
                    && u.bytes@.len() <= limits.max_upload_bytes {
                    None
                } else {
                    match upload_outcome(u, wb, limits, mode, (k - 1) as usize) {
                        None => None,
                        Some((r, f)) => Some((rows + r, files.push(f))),
                    }
                }
            },
        }
    }
}

/// Total bytes of the first `k` uploads.
pub open spec fn total_bytes(uploads: Seq<InstitutionBatchUpload>, k: int) -> int
    decreases k,
{
    if k <= 0 {
        0
    } else {
        total_bytes(uploads, k - 1) + uploads[k - 1].bytes@.len()
    }
}

/// A batch ready for the database checks: its cross-checked rows and one record per file.
#[derive(Debug)]
pub struct PreparedBatch {
    pub rows: Vec<SourceRow>,
    pub files: Vec<UploadFile>,
}

fn parse_csv_upload(
    filename: &str,
    target: Option<&str>,
    bytes: &[u8],
    limits: &ImportLimits,
    mode: ImportMode,
    upload_index: usize,
) -> (r: Result<Vec<SourceRow>, InstitutionError>)
    ensures
        match csv_upload_rows(
            filename@,
            match target {
                Some(t) => Some(t@),
                None => None,
            },
            bytes@,
            *limits,
            mode,
            upload_index,
        ) {
            Some(rs) => r matches Ok(rows) && rows_view(rows@) == rs,
            None => r is Err && r->Err_0 is InvalidInput,
        },
{
    let r = parse_csv(filename, target, bytes, limits, mode, upload_index);
    proof {
        let t = match target {
            Some(t) => Some(t@),
            None => None,
        };
        if let Some(rs) = csv_upload_rows(filename@, t, bytes@, *limits, mode, upload_index) {
            let rows = r->Ok_0;
            assert(rows_view(rows@) =~= rs) by {
                assert forall|i: int| 0 <= i < rs.len() implies #[trigger] rows_view(rows@)[i] == rs[i] by {
                    assert(crate::import_rows::row_matches(
                        rows@[i],
                        csv_outcome_ok(filename@, t, csv_header(bytes@), csv_records(bytes@), *limits, mode).unwrap(),
                        (i + 2) as i64,
                        csv_header(bytes@).unwrap(),
                        csv_records(bytes@)[i].unwrap(),
                        None,
                        mode,
                        upload_index,
                    ));
                }
            }
        }
    }
    r
}

fn same_key(a: &(Vec<char>, String), name: &Vec<char>, digest: &String) -> (b: bool)
    ensures
        b == (a.0@ == name@ && a.1@ == digest@),
{
    chars_eq(&a.0, name) && str_eq(a.1.as_str(), digest.as_str())
}

/// Prepares a batch of 1 to 20 uploads of at most 64 MiB together for the database
/// checks. Each upload, in order, must have a usable name and size, differ in name or
/// content from the uploads before it, have a supported extension and parse; a workbook
/// upload is validated from the worksheets read for it (`workbooks` at its index). The
/// rows of all uploads, at most 250,000, are then checked across each other.
pub fn prepare_batch(
    operation: InstitutionOperation,
    uploads: &Vec<InstitutionBatchUpload>,
    workbooks: &Vec<Result<Vec<WorkbookSheet>, String>>,
    limits: &ImportLimits,
) -> (r: Result<PreparedBatch, InstitutionError>)
    ensures
        uploads@.len() == 0 || uploads@.len() > 20 ==> (r matches Err(e) && invalid_input(
            e,
            "select between 1 and 20 CSV/XLSX files"@,
        )),
        1 <= uploads@.len() <= 20 && total_bytes(uploads@, uploads@.len() as int) > 64 * 1024 * 1024
            ==> (r matches Err(e) && invalid_input(
            e,
            if total_bytes(uploads@, uploads@.len() as int) > usize::MAX {
                "batch upload size overflow"@
            } else {
                "the combined batch exceeds the 64 MiB limit"@
            },
        )),
        1 <= uploads@.len() <= 20 && total_bytes(uploads@, uploads@.len() as int) <= 64 * 1024 * 1024
            ==> match uploads_outcome(uploads@, workbooks@, *limits, operation_mode(operation), uploads@.len() as int) {
            None => r is Err && r->Err_0 is InvalidInput,
            Some((rows, files)) => if rows.len() > 250_000 {
                r matches Err(e) && invalid_input(e, "the combined batch exceeds the 250,000-row limit"@)
            } else {
                r matches Ok(b) && rows_view(b.rows@) == cross_checked(rows) && files_view(b.files@) == files
            },
        },
{
    if uploads.len() == 0 || uploads.len() > 20 {
        return Err(InstitutionError::InvalidInput("select between 1 and 20 CSV/XLSX files".to_owned()));
    }
    let mut total: usize = 0;
    let mut k: usize = 0;
    while k < uploads.len()
        invariant
            1 <= uploads@.len() <= 20,
            k <= uploads@.len(),
            total == total_bytes(uploads@, k as int),
        decreases uploads@.len() - k,
    {
        let size = uploads[k].bytes.len();
        if total > usize::MAX - size {
            proof {
                lemma_total_bytes_grows(uploads@, k as int + 1, uploads@.len() as int);
            }
            return Err(InstitutionError::InvalidInput("batch upload size overflow".to_owned()));
        }
        total = total + size;
        k = k + 1;
    }
    if total > 64 * 1024 * 1024 {
        return Err(InstitutionError::InvalidInput("the combined batch exceeds the 64 MiB limit".to_owned()));
    }
    let mode = operation.mode();
    let mut seen: Vec<(Vec<char>, String)> = Vec::new();
    let mut rows: Vec<SourceRow> = Vec::new();
    let mut files: Vec<UploadFile> = Vec::new();
    let mut i: usize = 0;
    assert(rows_view(rows@) =~= seq![]);
    assert(files_view(files@) =~= seq![]);
    while i < uploads.len()
        invariant
            1 <= uploads@.len() <= 20,
            total_bytes(uploads@, uploads@.len() as int) <= 64 * 1024 * 1024,
            mode == operation_mode(operation),
            i <= uploads@.len(),
            seen@.len() == i,
            forall|j: int| 0 <= j < i ==> (#[trigger] seen@[j]).0@ == upload_key(uploads@[j]).0 && seen@[j].1@ == upload_key(uploads@[j]).1,
            uploads_outcome(uploads@, workbooks@, *limits, mode, i as int) matches Some((rv, fv))
                && rows_view(rows@) == rv && files_view(files@) == fv,
        decreases uploads@.len() - i,
    {
        let u = &uploads[i];
        let ghost wb = if i < workbooks@.len() { Some(workbooks@[i as int]) } else { None };
        let name = chars_of(u.filename.as_str());
        if trim_chars(&name).len() == 0 || name.len() > 255 {
            proof { lemma_uploads_none_extends(uploads@, workbooks@, *limits, mode, i as int + 1, uploads@.len() as int); }
            return Err(InstitutionError::InvalidInput("invalid filename".to_owned()));
        }
        if u.bytes.len() == 0 || u.bytes.len() > limits.max_upload_bytes {
            proof { lemma_uploads_none_extends(uploads@, workbooks@, *limits, mode, i as int + 1, uploads@.len() as int); }
            return Err(InstitutionError::InvalidInput(crate::text::concat_str(u.filename.as_str(), " is empty or exceeds the per-file limit")));
        }
        let digest = content_digest(u.bytes.as_slice());
        let lower = ascii_lowercase(&name);
        let mut duplicate = false;
        let mut j: usize = 0;
        while j < seen.len()
            invariant
                1 <= uploads@.len() <= 20,
                total_bytes(uploads@, uploads@.len() as int) <= 64 * 1024 * 1024,
                j <= seen@.len(),
                seen@.len() == i,
                i < uploads@.len(),
                forall|x: int| 0 <= x < i ==> (#[trigger] seen@[x]).0@ == upload_key(uploads@[x]).0 && seen@[x].1@ == upload_key(uploads@[x]).1,
                lower@ == upload_key(uploads@[i as int]).0,
                digest@ == upload_key(uploads@[i as int]).1,
                duplicate == exists|x: int| 0 <= x < j && #[trigger] upload_key(uploads@[x]) == upload_key(uploads@[i as int]),
            decreases seen@.len() - j,
        {
            assert(seen@[j as int].0@ == upload_key(uploads@[j as int]).0);
            if same_key(&seen[j], &lower, &digest) {
                duplicate = true;
            }
            j = j + 1;
        }
        if duplicate {
            proof { lemma_uploads_none_extends(uploads@, workbooks@, *limits, mode, i as int + 1, uploads@.len() as int); }
            return Err(InstitutionError::InvalidInput(crate::text::concat_str(u.filename.as_str(), " was selected more than once; remove the duplicate file")));
        }
        let kind = match file_type(u.filename.as_str()) {
            Ok(t) => t,
            Err(e) => {
                proof { lemma_uploads_none_extends(uploads@, workbooks@, *limits, mode, i as int + 1, uploads@.len() as int); }
                return Err(e);
            },
        };
        let mut parsed: Vec<SourceRow> = match kind {
            ImportFileType::Csv => {
                let target: Option<&str> = match &u.target_table {
                    Some(t) => Some(t.as_str()),
                    None => None,
                };
                match parse_csv_upload(u.filename.as_str(), target, u.bytes.as_slice(), limits, mode, i) {
                    Ok(p) => p,
                    Err(e) => {
                        proof { lemma_uploads_none_extends(uploads@, workbooks@, *limits, mode, i as int + 1, uploads@.len() as int); }
                        return Err(e);
                    },
                }
            },
            ImportFileType::Xlsx => {
                if u.target_table.is_some() || i >= workbooks.len() {
                    proof { lemma_uploads_none_extends(uploads@, workbooks@, *limits, mode, i as int + 1, uploads@.len() as int); }
                    return Err(InstitutionError::InvalidInput("XLSX datasets are detected from worksheet names".to_owned()));
                }
                match parse_workbook(&workbooks[i], limits, mode, i) {
                    Ok(p) => p,
                    Err(e) => {
                        proof { lemma_uploads_none_extends(uploads@, workbooks@, *limits, mode, i as int + 1, uploads@.len() as int); }
                        return Err(e);
                    },
                }
            },
        };
        let import_kind = match kind {
            ImportFileType::Csv => if parsed.len() > 0 {
                assert(rows_view(parsed@)[0] == row_view(parsed@[0]));
                parsed[0].table.clone()
            } else {
                "empty".to_owned()
            },
            ImportFileType::Xlsx => "workbook".to_owned(),
        };
        let ghost before_rows = rows_view(rows@);
        let ghost before_files = files_view(files@);
        let ghost parsed_view = rows_view(parsed@);
        let file = UploadFile { file_type: kind, digest: digest.clone(), import_kind };
        files.push(file);
        rows.append(&mut parsed);
        seen.push((lower, digest));
        proof {
            assert(rows_view(rows@) =~= before_rows + parsed_view);
            assert(files_view(files@) =~= before_files.push(UploadFileView { file_type: kind, digest: upload_key(uploads@[i as int]).1, import_kind: file.import_kind@ }));
        }
        i = i + 1;
    }
    if rows.len() > 250_000 {
        return Err(InstitutionError::InvalidInput("the combined batch exceeds the 250,000-row limit".to_owned()));
    }
    validate_cross_rows(&mut rows);
    Ok(PreparedBatch { rows, files })
}

proof fn lemma_total_bytes_grows(uploads: Seq<InstitutionBatchUpload>, k: int, m: int)
    requires
        0 <= k <= m <= uploads.len(),
    ensures
        total_bytes(uploads, k) <= total_bytes(uploads, m),
    decreases m - k,
{
    if k < m {
        lemma_total_bytes_grows(uploads, k, m - 1);
    }
}

proof fn lemma_uploads_none_extends(
    uploads: Seq<InstitutionBatchUpload>,
    workbooks: Seq<Result<Vec<WorkbookSheet>, String>>,
    limits: ImportLimits,
    mode: ImportMode,
    k: int,
    m: int,
)
    requires
        k <= m,
        uploads_outcome(uploads, workbooks, limits, mode, k) is None,
    ensures
        uploads_outcome(uploads, workbooks, limits, mode, m) is None,
    decreases m - k,
{
    if k < m {
        lemma_uploads_none_extends(uploads, workbooks, limits, mode, k, m - 1);
    }
}

/// Prepares a single upload for the database checks: the same checks as one upload of a
/// batch, then the checks across its rows.
pub fn prepare_upload(
    upload: &InstitutionBatchUpload,
    workbook: &Option<Result<Vec<WorkbookSheet>, String>>,
    mode: ImportMode,
    limits: &ImportLimits,
) -> (r: Result<PreparedBatch, InstitutionError>)
    ensures
        match upload_outcome(*upload, *workbook, *limits, mode, 0) {
            None => r is Err && r->Err_0 is InvalidInput,
            Some((rows, file)) => r matches Ok(b) && rows_view(b.rows@) == cross_checked(rows) && files_view(b.files@) == seq![file],
        },
{
    let uploads = vec![InstitutionBatchUpload {
        filename: upload.filename.clone(),
        target_table: match &upload.target_table {
            Some(t) => Some(t.clone()),
            None => None,
        },
        bytes: upload.bytes.clone(),
    }];
    let ghost single = uploads@;
    assert(single[0].filename@ == upload.filename@ && target_view(single[0].target_table) == target_view(upload.target_table));
    let name = chars_of(upload.filename.as_str());
    if trim_chars(&name).len() == 0 || name.len() > 255 {
        return Err(InstitutionError::InvalidInput("invalid filename".to_owned()));
    }
    if upload.bytes.len() == 0 || upload.bytes.len() > limits.max_upload_bytes {
        return Err(InstitutionError::InvalidInput("upload is empty or exceeds the configured byte limit".to_owned()));
    }
    let digest = content_digest(upload.bytes.as_slice());
    let kind = match file_type(upload.filename.as_str()) {
        Ok(t) => t,
        Err(e) => { return Err(e); },
    };
    let mut rows: Vec<SourceRow> = match kind {
        ImportFileType::Csv => {
            let target: Option<&str> = match &upload.target_table {
                Some(t) => Some(t.as_str()),
                None => None,
            };
            match parse_csv_upload(upload.filename.as_str(), target, upload.bytes.as_slice(), limits, mode, 0) {
                Ok(p) => p,
                Err(e) => { return Err(e); },
            }
        },
        ImportFileType::Xlsx => {
            if upload.target_table.is_some() {
                return Err(InstitutionError::InvalidInput("XLSX target table comes from worksheet names".to_owned()));
            }
            match workbook {
                None => { return Err(InstitutionError::InvalidInput("malformed XLSX workbook".to_owned())); },
                Some(w) => match parse_workbook(w, limits, mode, 0) {
                    Ok(p) => p,
                    Err(e) => { return Err(e); },
                },
            }
        },
    };
    let import_kind = match kind {
        ImportFileType::Csv => if rows.len() > 0 {
            assert(rows_view(rows@)[0] == row_view(rows@[0]));
            rows[0].table.clone()
        } else {
            "empty".to_owned()
        },
        ImportFileType::Xlsx => "workbook".to_owned(),
    };
    let files = vec![UploadFile { file_type: kind, digest, import_kind }];
    assert(files_view(files@) =~= seq![UploadFileView { file_type: kind, digest: files@[0].digest@, import_kind: files@[0].import_kind@ }]);
    validate_cross_rows(&mut rows);
    Ok(PreparedBatch { rows, files })
}

/// What a row asks for, once the database checks have classified it: its `__action`
/// field, or an insertion.
pub open spec fn row_action(r: RowView) -> Seq<char> {
    match text_of(r.payload, "__action"@) {
        Some(a) => a,
        None => "INSERT"@,
    }
}

/// What a row asks for.
pub fn action_for(row: &SourceRow) -> (a: String)
    ensures
        a@ == row_action(row_view(*row)),
{
    match crate::import_values::field_text(&row.payload, "__action") {
        Some(a) => a,
        None => "INSERT".to_owned(),
    }
}

/// Number of the first `n` rows that `kind` selects: 0 all, 1 rows with an error, 2 to 5
/// valid rows asking for an insertion, an update, a deletion or nothing.
pub open spec fn row_count(rows: Seq<RowView>, kind: int, n: int) -> nat
    decreases n,
{
    if n <= 0 {
        0
    } else {
        row_count(rows, kind, n - 1) + if selects(kind, rows[n - 1]) { 1nat } else { 0nat }
    }
}

/// Whether `kind` selects a row.
pub open spec fn selects(kind: int, r: RowView) -> bool {
    if kind == 0 {
        true
    } else if kind == 1 {
        r.error is Some
    } else {
        r.error is None && row_action(r) == if kind == 2 {
            "INSERT"@
        } else if kind == 3 {
            "UPDATE"@
        } else if kind == 4 {
            "DELETE"@
        } else {
            "SKIP"@
        }
    }
}

/// The counts a validated batch records, and its status.
#[derive(Clone, Debug)]
pub struct BatchCounts {
    pub total_rows: i64,
    pub error_rows: i64,
    pub added_rows: i64,
    pub edited_rows: i64,
    pub deleted_rows: i64,
    pub skipped_rows: i64,
    pub status: String,
}

fn count_selected(rows: &Vec<SourceRow>, kind: u8) -> (c: usize)
    ensures
        c == row_count(rows_view(rows@), kind as int, rows@.len() as int),
        c <= rows@.len(),
{
    let mut c: usize = 0;
    let mut i: usize = 0;
    while i < rows.len()
        invariant
            i <= rows@.len(),
            c <= i,
            c == row_count(rows_view(rows@), kind as int, i as int),
        decreases rows@.len() - i,
    {
        let r = &rows[i];
        assert(rows_view(rows@)[i as int] == row_view(*r));
        let selected = if kind == 0 {
            true
        } else if kind == 1 {
            r.error.is_some()
        } else if r.error.is_some() {
            false
        } else {
            let a = action_for(r);
            let wanted = if kind == 2 {
                "INSERT"
            } else if kind == 3 {
                "UPDATE"
            } else if kind == 4 {
                "DELETE"
            } else {
                "SKIP"
            };
            str_eq(a.as_str(), wanted)
        };
        if selected {
            c = c + 1;
        }
        i = i + 1;
    }
    c
}

fn to_i64(n: usize) -> (r: Result<i64, InstitutionError>)
    ensures
        n <= i64::MAX ==> r == Ok::<i64, InstitutionError>(n as i64),
        n > i64::MAX ==> (r is Err && r->Err_0 is InvalidInput),
{
    if (n as u64) <= 0x7fff_ffff_ffff_ffffu64 {
        Ok(n as i64)
    } else {
        Err(InstitutionError::InvalidInput("too many rows".to_owned()))
    }
}

/// The status a job or batch records: validated without errors, failed otherwise.
pub open spec fn status_for(errors: int) -> Seq<char> {
    if errors == 0 {
        "VALIDATED"@
    } else {
        "FAILED"@
    }
}

/// Counts the rows of a validated batch by outcome and derives its status.
pub fn count_batch(rows: &Vec<SourceRow>) -> (r: Result<BatchCounts, InstitutionError>)
    ensures
        rows@.len() <= i64::MAX ==> (r matches Ok(c) && {
            let v = rows_view(rows@);
            let n = rows@.len() as int;
            &&& c.total_rows == n
            &&& c.error_rows == row_count(v, 1, n)
            &&& c.added_rows == row_count(v, 2, n)
            &&& c.edited_rows == row_count(v, 3, n)
            &&& c.deleted_rows == row_count(v, 4, n)
            &&& c.skipped_rows == row_count(v, 5, n)
            &&& c.status@ == status_for(row_count(v, 1, n) as int)
        }),
        rows@.len() > i64::MAX ==> (r is Err && r->Err_0 is InvalidInput),
{
    let total = match to_i64(rows.len()) {
        Ok(v) => v,
        Err(e) => { return Err(e); },
    };
    let errors = to_i64(count_selected(rows, 1))?;
    let added = to_i64(count_selected(rows, 2))?;
    let edited = to_i64(count_selected(rows, 3))?;
    let deleted = to_i64(count_selected(rows, 4))?;
    let skipped = to_i64(count_selected(rows, 5))?;
    let status = if errors == 0 { "VALIDATED".to_owned() } else { "FAILED".to_owned() };
    Ok(BatchCounts {
        total_rows: total,
        error_rows: errors,
        added_rows: added,
        edited_rows: edited,
        deleted_rows: deleted,
        skipped_rows: skipped,
        status,
    })
}

/// Number of the first `n` rows from upload `index`, with an error when `errors` holds.
pub open spec fn upload_row_count(rows: Seq<RowView>, index: usize, errors: bool, n: int) -> nat
    decreases n,
{
    if n <= 0 {
        0
    } else {
        upload_row_count(rows, index, errors, n - 1) + if rows[n - 1].upload_index == index && (!errors
            || rows[n - 1].error is Some) {
            1nat
        } else {
            0nat
        }
    }
}

/// The rows of one upload of a batch and how many of them have an error.
pub fn count_upload(rows: &Vec<SourceRow>, index: usize) -> (r: (i64, i64))
    requires
        rows@.len() <= i64::MAX,
    ensures
        r.0 == upload_row_count(rows_view(rows@), index, false, rows@.len() as int),
        r.1 == upload_row_count(rows_view(rows@), index, true, rows@.len() as int),
{
    let mut total: usize = 0;
    let mut errors: usize = 0;
    let mut i: usize = 0;
    while i < rows.len()
        invariant
            rows@.len() <= i64::MAX,
            i <= rows@.len(),
            errors <= total <= i,
            total == upload_row_count(rows_view(rows@), index, false, i as int),
            errors == upload_row_count(rows_view(rows@), index, true, i as int),
        decreases rows@.len() - i,
    {
        assert(rows_view(rows@)[i as int] == row_view(rows@[i as int]));
        if rows[i].upload_index == index {
            total = total + 1;
            if rows[i].error.is_some() {
                errors = errors + 1;
            }
        }
        i = i + 1;
    }
    (total as i64, errors as i64)
}

} // verus!
