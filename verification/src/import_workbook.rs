//! Validation of an XLSX workbook upload, from the worksheets a spreadsheet reader read:
//! each non-empty worksheet must be a known dataset within the limits, its first row is
//! the header row, and a formula in a key cell marks its row.
use crate::import_catalog::{
    institution_table_names, institution_tables, strs_view, table_spec, table_spec_of,
    ImportLimits, ImportMode, InstitutionError,
};
use crate::import_parse::{headers_valid, validate_headers};
use crate::import_rows::{
    cell_overflow, expected_row, rows_view, source_row, strings_view, RowView, SourceRow,
};
use crate::text::{chars_of, concat_str, str_eq};
use vstd::prelude::*;

verus! {

/// The formulas of a worksheet: a grid of formula texts (empty where a cell has none)
/// whose top-left cell is at `start_row`, `start_column`.
#[derive(Clone, Debug)]
pub struct FormulaGrid {
    pub start_row: u32,
    pub start_column: u32,
    pub cells: Vec<Vec<String>>,
}

/// One worksheet as a spreadsheet reader read it: its name, its cells row by row (each
/// the cell's text, or an error text for an error cell), the width of its cell range, and
/// its formulas; an unreadable range or formula grid is an error text.
#[derive(Debug)]
pub struct WorkbookSheet {
    pub name: String,
    pub cells: Result<Vec<Vec<Result<String, String>>>, String>,
    pub width: usize,
    pub formulas: Result<FormulaGrid, String>,
}

/// Whether the formula grid has a non-empty formula at absolute position (`r`, `c`).
pub open spec fn formula_at(g: FormulaGrid, r: int, c: int) -> bool {
    let i = r - g.start_row;
    let j = c - g.start_column;
    &&& 0 <= i < g.cells@.len()
    &&& 0 <= j < g.cells@[i].len()
    &&& g.cells@[i]@[j]@.len() > 0
}

/// The texts of a row of cells, or `None` when a cell is an error.
pub open spec fn cell_texts(row: Seq<Result<String, String>>) -> Option<Seq<Seq<char>>> {
    if forall|k: int| 0 <= k < row.len() ==> #[trigger] row[k] is Ok {
        Some(row.map_values(|c: Result<String, String>| c->Ok_0@))
    } else {
        None
    }
}

/// Positions of the dataset's key columns among the headers: for each key, in catalog
/// order, the first header equal to it.
pub open spec fn key_columns(headers: Seq<Seq<char>>, keys: Seq<Seq<char>>) -> Set<int> {
    Set::new(|c: int| 0 <= c < headers.len() && keys.contains(headers[c]) && forall|d: int| 0 <= d < c ==> headers[d] != headers[c])
}

/// A position clamped to `u32`.
pub open spec fn clamp_u32(x: int) -> int {
    if x <= u32::MAX {
        x
    } else {
        u32::MAX as int
    }
}

/// The text that marks a row whose key cell holds a formula.
pub open spec fn formula_message() -> Seq<char> {
    "formula in identity/key cell"@
}

/// The rows of the first `k` data rows of a worksheet, or `Err` when one of them cannot
/// become a row.
pub open spec fn data_rows(
    name: Seq<char>,
    headers: Seq<Seq<char>>,
    cells: Seq<Vec<Result<String, String>>>,
    grid: FormulaGrid,
    keys: Set<int>,
    limits: ImportLimits,
    mode: ImportMode,
    upload_index: usize,
    k: int,
) -> Result<Seq<RowView>, ()>
    decreases k,
{
    if k <= 0 {
        Ok(seq![])
    } else {
        match data_rows(name, headers, cells, grid, keys, limits, mode, upload_index, k - 1) {
            Err(()) => Err(()),
            Ok(done) => {
                let index = k - 1;
                match cell_texts(cells[index + 1]@) {
                    None => Err(()),
                    Some(values) => if cell_overflow(headers, values, limits.max_cell_characters as nat)
                        || index + 2 > i64::MAX {
                        Err(())
                    } else {
                        let formula = exists|c: int| #[trigger] keys.contains(c) && formula_at(grid, clamp_u32(index + 1), clamp_u32(c));
                        Ok(done.push(expected_row(
                            name,
                            (index + 2) as i64,
                            headers,
                            values,
                            if formula { Some(formula_message()) } else { None },
                            mode,
                            upload_index,
                        )))
                    },
                }
            },
        }
    }
}

/// The rows of one worksheet: none for an empty one; `Err` for an unreadable range or
/// formula grid, an unknown dataset, a size beyond the limits, an error or invalid header
/// row, or a data row that cannot become a row.
pub open spec fn sheet_rows(sheet: WorkbookSheet, limits: ImportLimits, mode: ImportMode, upload_index: usize) -> Result<Seq<RowView>, ()> {
    match sheet.cells {
        Err(_) => Err(()),
        Ok(cells) => if cells@.len() == 0 {
            Ok(seq![])
        } else if !institution_table_names().contains(sheet.name@) {
            Err(())
        } else if cells@.len() - 1 > limits.max_rows_per_sheet || sheet.width > limits.max_columns {
            Err(())
        } else {
            match sheet.formulas {
                Err(_) => Err(()),
                Ok(grid) => match cell_texts(cells@[0]@) {
                    None => Err(()),
                    Some(h) => if !headers_valid(sheet.name@, h, limits.max_columns as nat, mode) {
                        Err(())
                    } else {
                        data_rows(
                            sheet.name@,
                            h,
                            cells@,
                            grid,
                            key_columns(h, table_spec_of(sheet.name@).keys),
                            limits,
                            mode,
                            upload_index,
                            cells@.len() - 1,
                        )
                    },
                },
            }
        },
    }
}

/// The rows of the first `k` worksheets.
pub open spec fn sheets_rows(sheets: Seq<WorkbookSheet>, limits: ImportLimits, mode: ImportMode, upload_index: usize, k: int) -> Result<Seq<RowView>, ()>
    decreases k,
{
    if k <= 0 {
        Ok(seq![])
    } else {
        match (sheets_rows(sheets, limits, mode, upload_index, k - 1), sheet_rows(sheets[k - 1], limits, mode, upload_index)) {
            (Ok(a), Ok(b)) => Ok(a + b),
            _ => Err(()),
        }
    }
}

/// The rows of a workbook: `Err` for an unreadable workbook, too many worksheets, a
/// worksheet that fails, or no data row at all.
pub open spec fn workbook_rows(
    workbook: Result<Vec<WorkbookSheet>, String>,
    limits: ImportLimits,
    mode: ImportMode,
    upload_index: usize,
) -> Result<Seq<RowView>, ()> {
    match workbook {
        Err(_) => Err(()),
        Ok(sheets) => if sheets@.len() > limits.max_worksheets {
            Err(())
        } else {
            match sheets_rows(sheets@, limits, mode, upload_index, sheets@.len() as int) {
                Err(()) => Err(()),
                Ok(rows) => if rows.len() == 0 {
                    Err(())
                } else {
                    Ok(rows)
                },
            }
        },
    }
}

fn texts_of(row: &Vec<Result<String, String>>) -> (r: Result<Vec<String>, String>)
    ensures
        match cell_texts(row@) {
            Some(t) => r matches Ok(v) && strings_view(v@) == t,
            None => r is Err,
        },
{
    let mut out: Vec<String> = Vec::new();
    let mut i: usize = 0;
    while i < row.len()
        invariant
            i <= row@.len(),
            forall|k: int| 0 <= k < i ==> #[trigger] row@[k] is Ok,
            strings_view(out@) == row@.take(i as int).map_values(|c: Result<String, String>| c->Ok_0@),
        decreases row@.len() - i,
    {
        match &row[i] {
            Ok(t) => {
                let ghost before = strings_view(out@);
                out.push(t.clone());
                assert(strings_view(out@) =~= before.push(t@));
                assert(row@.take(i + 1).map_values(|c: Result<String, String>| c->Ok_0@) =~= row@.take(
                    i as int,
                ).map_values(|c: Result<String, String>| c->Ok_0@).push(t@));
            },
            Err(e) => {
                assert(!(row@[i as int] is Ok));
                return Err(e.clone());
            },
        }
        i = i + 1;
    }
    assert(row@.take(row@.len() as int) =~= row@);
    Ok(out)
}

fn formula_present(g: &FormulaGrid, r: u64, c: u64) -> (b: bool)
    ensures
        b == formula_at(*g, r as int, c as int),
{
    let sr = g.start_row as u64;
    let sc = g.start_column as u64;
    if r < sr || c < sc {
        return false;
    }
    let i = r - sr;
    let j = c - sc;
    if i >= g.cells.len() as u64 {
        return false;
    }
    let row = &g.cells[i as usize];
    if j >= row.len() as u64 {
        return false;
    }
    chars_of(row[j as usize].as_str()).len() > 0
}

fn key_column_flags(headers: &Vec<String>, keys: &Vec<&'static str>) -> (cols: Vec<bool>)
    ensures
        cols@.len() == headers@.len(),
        forall|c: int| 0 <= c < headers@.len() ==> #[trigger] cols@[c] == key_columns(strings_view(headers@), strs_view(keys@)).contains(c),
{
    let ghost hv = strings_view(headers@);
    let ghost kv = strs_view(keys@);
    let mut cols: Vec<bool> = Vec::new();
    let mut c: usize = 0;
    while c < headers.len()
        invariant
            hv == strings_view(headers@),
            kv == strs_view(keys@),
            c <= headers@.len(),
            cols@.len() == c,
            forall|x: int| 0 <= x < c ==> #[trigger] cols@[x] == key_columns(hv, kv).contains(x),
        decreases headers@.len() - c,
    {
        let mut is_key = false;
        let mut k: usize = 0;
        while k < keys.len()
            invariant
                hv == strings_view(headers@),
                kv == strs_view(keys@),
                c < headers@.len(),
                k <= keys@.len(),
                is_key == exists|y: int| 0 <= y < k && kv[y] == hv[c as int],
            decreases keys@.len() - k,
        {
            assert(kv[k as int] == keys@[k as int]@);
            assert(hv[c as int] == headers@[c as int]@);
            if str_eq(keys[k], headers[c].as_str()) {
                is_key = true;
            }
            k = k + 1;
        }
        let mut first = true;
        let mut d: usize = 0;
        while d < c
            invariant
                hv == strings_view(headers@),
                c < headers@.len(),
                d <= c,
                first == forall|y: int| 0 <= y < d ==> hv[y] != hv[c as int],
            decreases c - d,
        {
            assert(hv[d as int] == headers@[d as int]@);
            assert(hv[c as int] == headers@[c as int]@);
            if str_eq(headers[d].as_str(), headers[c].as_str()) {
                first = false;
            }
            d = d + 1;
        }
        proof {
            if is_key {
                let y = choose|y: int| 0 <= y < k && kv[y] == hv[c as int];
                assert(kv.contains(hv[c as int]));
            } else {
                assert(!kv.contains(hv[c as int]));
            }
        }
        cols.push(is_key && first);
        c = c + 1;
    }
    cols
}

fn is_table_name(name: &str) -> (b: bool)
    ensures
        b == institution_table_names().contains(name@),
{
    let tables = institution_tables();
    let mut i: usize = 0;
    while i < tables.len()
        invariant
            strs_view(tables@) == institution_table_names(),
            i <= tables@.len(),
            forall|k: int| 0 <= k < i ==> institution_table_names()[k] != name@,
        decreases tables@.len() - i,
    {
        assert(institution_table_names()[i as int] == tables@[i as int]@);
        if str_eq(tables[i], name) {
            return true;
        }
        i = i + 1;
    }
    false
}

fn clamp_position(x: u64) -> (r: u64)
    ensures
        r == clamp_u32(x as int),
{
    if x <= 0xffff_ffffu64 {
        x
    } else {
        0xffff_ffffu64
    }
}

fn key_formula(g: &FormulaGrid, cols: &Vec<bool>, headers_len: usize, index: usize, keys: Ghost<Set<int>>) -> (b: bool)
    requires
        index < usize::MAX,
        cols@.len() == headers_len,
        forall|c: int| 0 <= c < headers_len ==> #[trigger] cols@[c] == keys@.contains(c),
        forall|c: int| keys@.contains(c) ==> 0 <= c < headers_len,
    ensures
        b == exists|c: int| #[trigger] keys@.contains(c) && formula_at(*g, clamp_u32(index + 1), clamp_u32(c)),
{
    let row = clamp_position(index as u64 + 1);
    let mut c: usize = 0;
    while c < cols.len()
        invariant
            cols@.len() == headers_len,
            forall|x: int| 0 <= x < headers_len ==> #[trigger] cols@[x] == keys@.contains(x),
            row == clamp_u32(index + 1),
            c <= cols@.len(),
            forall|x: int| 0 <= x < c ==> !(#[trigger] keys@.contains(x) && formula_at(*g, clamp_u32(index + 1), clamp_u32(x))),
        decreases cols@.len() - c,
    {
        assert(cols@[c as int] == keys@.contains(c as int));
        if cols[c] && formula_present(g, row, clamp_position(c as u64)) {
            return true;
        }
        c = c + 1;
    }
    false
}

proof fn lemma_data_rows_err_extends(
    name: Seq<char>,
    headers: Seq<Seq<char>>,
    cells: Seq<Vec<Result<String, String>>>,
    grid: FormulaGrid,
    keys: Set<int>,
    limits: ImportLimits,
    mode: ImportMode,
    upload_index: usize,
    k: int,
    m: int,
)
    requires
        k <= m,
        data_rows(name, headers, cells, grid, keys, limits, mode, upload_index, k) is Err,
    ensures
        data_rows(name, headers, cells, grid, keys, limits, mode, upload_index, m) is Err,
    decreases m - k,
{
    if k < m {
        lemma_data_rows_err_extends(name, headers, cells, grid, keys, limits, mode, upload_index, k, m - 1);
    }
}

proof fn lemma_sheets_rows_err_extends(
    sheets: Seq<WorkbookSheet>,
    limits: ImportLimits,
    mode: ImportMode,
    upload_index: usize,
    k: int,
    m: int,
)
    requires
        k <= m,
        sheets_rows(sheets, limits, mode, upload_index, k) is Err,
    ensures
        sheets_rows(sheets, limits, mode, upload_index, m) is Err,
    decreases m - k,
{
    if k < m {
        lemma_sheets_rows_err_extends(sheets, limits, mode, upload_index, k, m - 1);
    }
}

fn parse_sheet(
    sheet: &WorkbookSheet,
    limits: &ImportLimits,
    mode: ImportMode,
    upload_index: usize,
    out: &mut Vec<SourceRow>,
) -> (r: Result<(), InstitutionError>)
    ensures
        match sheet_rows(*sheet, *limits, mode, upload_index) {
            Ok(rs) => r is Ok && rows_view(final(out)@) == rows_view(old(out)@) + rs,
            Err(()) => r is Err && r->Err_0 is InvalidInput,
        },
{
    let ghost base = rows_view(out@);
    let cells = match &sheet.cells {
        Err(e) => {
            let a = concat_str("malformed worksheet ", sheet.name.as_str());
            let b = concat_str(a.as_str(), ": ");
            return Err(InstitutionError::InvalidInput(concat_str(b.as_str(), e.as_str())));
        },
        Ok(c) => c,
    };
    if cells.len() == 0 {
        assert(rows_view(out@) =~= base + seq![]);
        return Ok(());
    }
    if !is_table_name(sheet.name.as_str()) {
        return Err(
            InstitutionError::InvalidInput(concat_str("unknown non-empty worksheet: ", sheet.name.as_str())),
        );
    }
    if cells.len() - 1 > limits.max_rows_per_sheet || sheet.width > limits.max_columns {
        let a = concat_str("worksheet ", sheet.name.as_str());
        return Err(
            InstitutionError::InvalidInput(concat_str(a.as_str(), " dimensions exceed configured limits")),
        );
    }
    let grid = match &sheet.formulas {
        Err(e) => {
            let a = concat_str("invalid formulas in worksheet ", sheet.name.as_str());
            let b = concat_str(a.as_str(), ": ");
            return Err(InstitutionError::InvalidInput(concat_str(b.as_str(), e.as_str())));
        },
        Ok(g) => g,
    };
    let header = match texts_of(&cells[0]) {
        Err(e) => {
            return Err(InstitutionError::InvalidInput(concat_str("XLSX cell error: ", e.as_str())));
        },
        Ok(h) => h,
    };
    match validate_headers(sheet.name.as_str(), &header, limits, mode) {
        Err(e) => { return Err(e); },
        Ok(()) => {},
    }
    let spec = table_spec(sheet.name.as_str());
    let cols = key_column_flags(&header, &spec.keys);
    let ghost keys = key_columns(strings_view(header@), table_spec_of(sheet.name@).keys);
    let ghost hv = strings_view(header@);
    let n = cells.len() - 1;
    let mut index: usize = 0;
    assert(rows_view(out@) =~= base + seq![]);
    while index < n
        invariant
            n + 1 == cells@.len(),
            sheet.cells == Ok::<Vec<Vec<Result<String, String>>>, String>(*cells),
            sheet.formulas == Ok::<FormulaGrid, String>(*grid),
            hv == strings_view(header@),
            cell_texts(cells@[0]@) == Some(hv),
            keys == key_columns(hv, table_spec_of(sheet.name@).keys),
            spec@ == table_spec_of(sheet.name@),
            institution_table_names().contains(sheet.name@),
            cells@.len() - 1 <= limits.max_rows_per_sheet,
            sheet.width <= limits.max_columns,
            headers_valid(sheet.name@, hv, limits.max_columns as nat, mode),
            cols@.len() == header@.len(),
            forall|c: int| 0 <= c < header@.len() ==> #[trigger] cols@[c] == keys.contains(c),
            index <= n,
            data_rows(sheet.name@, hv, cells@, *grid, keys, *limits, mode, upload_index, index as int) matches Ok(done)
                && rows_view(out@) == base + done,
        decreases n - index,
    {
        proof {
            assert forall|c: int| keys.contains(c) implies 0 <= c < header@.len() by {}
        }
        let values = match texts_of(&cells[index + 1]) {
            Err(e) => {
                proof {
                    lemma_data_rows_err_extends(sheet.name@, hv, cells@, *grid, keys, *limits, mode, upload_index, index + 1, n as int);
                }
                return Err(InstitutionError::InvalidInput(concat_str("XLSX cell error: ", e.as_str())));
            },
            Ok(v) => v,
        };
        let formula = key_formula(grid, &cols, header.len(), index, Ghost(keys));
        let wide = index as u64;
        if wide > 0x7fff_ffff_ffff_fffdu64 {
            proof {
                lemma_data_rows_err_extends(sheet.name@, hv, cells@, *grid, keys, *limits, mode, upload_index, index + 1, n as int);
            }
            return Err(InstitutionError::InvalidInput("row number overflow".to_owned()));
        }
        let row_number = (wide + 2) as i64;
        let message: Option<&str> = if formula { Some("formula in identity/key cell") } else { None };
        match source_row(sheet.name.as_str(), row_number, &header, &values, message, limits, mode, upload_index) {
            Err(e) => {
                proof {
                    lemma_data_rows_err_extends(sheet.name@, hv, cells@, *grid, keys, *limits, mode, upload_index, index + 1, n as int);
                }
                return Err(e);
            },
            Ok(row) => {
                let ghost before = rows_view(out@);
                out.push(row);
                assert(rows_view(out@) =~= before.push(crate::import_rows::row_view(row)));
            },
        }
        index = index + 1;
    }
    Ok(())
}

/// Validates the rows of an XLSX upload from the worksheets a spreadsheet reader read.
pub fn parse_workbook(
    workbook: &Result<Vec<WorkbookSheet>, String>,
    limits: &ImportLimits,
    mode: ImportMode,
    upload_index: usize,
) -> (r: Result<Vec<SourceRow>, InstitutionError>)
    ensures
        match workbook_rows(*workbook, *limits, mode, upload_index) {
            Ok(rs) => r matches Ok(rows) && rows_view(rows@) == rs,
            Err(()) => r is Err && r->Err_0 is InvalidInput,
        },
{
    let sheets = match workbook {
        Err(e) => {
            return Err(InstitutionError::InvalidInput(concat_str("malformed XLSX workbook: ", e.as_str())));
        },
        Ok(s) => s,
    };
    if sheets.len() > limits.max_worksheets {
        return Err(InstitutionError::InvalidInput("worksheet limit exceeded".to_owned()));
    }
    let mut out: Vec<SourceRow> = Vec::new();
    let mut i: usize = 0;
    assert(rows_view(out@) =~= seq![]);
    while i < sheets.len()
        invariant
            workbook matches Ok(w) && w@ == sheets@,
            sheets@.len() <= limits.max_worksheets,
            i <= sheets@.len(),
            sheets_rows(sheets@, *limits, mode, upload_index, i as int) matches Ok(done) && rows_view(out@) == done,
        decreases sheets@.len() - i,
    {
        match parse_sheet(&sheets[i], limits, mode, upload_index, &mut out) {
            Err(e) => {
                proof {
                    lemma_sheets_rows_err_extends(sheets@, *limits, mode, upload_index, i + 1, sheets@.len() as int);
                }
                return Err(e);
            },
            Ok(()) => {},
        }
        i = i + 1;
    }
    if out.len() == 0 {
        return Err(InstitutionError::InvalidInput("workbook has no recognized data rows".to_owned()));
    }
    Ok(out)
}

} // verus!
