//! Validation of one institutional source row: its cells become a field map, and the
//! first failed check becomes the row's error.
use crate::import_catalog::{
    institution_table_names, table_spec, table_spec_of, ImportLimits, ImportMode,
    InstitutionError, TableSpecView,
};
use crate::import_values::{
    field_text, field_value, i32_text, is_uuid_text, parse_i32, payload_get,
    payload_set, payload_view, set_field, text_of, uuid_text, valid_email, valid_email_spec,
    FieldValue, FieldView, PayloadField,
};
use crate::text::{
    ascii_lower_seq, ascii_lowercase, chars_of, concat_str, str_eq, string_from_chars, trim_chars,
    trim_spec,
};
use vstd::prelude::*;

verus! {

/// Why a row is invalid: a stable code and a message naming the field.
#[derive(Clone, Debug, PartialEq, Eq)]
pub struct RowError {
    pub code: String,
    pub message: String,
}

/// One row of an upload after validation.
#[derive(Clone, Debug)]
pub struct SourceRow {
    /// Which upload of a batch the row came from.
    pub upload_index: usize,
    /// The dataset of the row.
    pub table: String,
    /// The row's line or worksheet row, counting the header as 1.
    pub row_number: i64,
    /// The values of the dataset's key columns, in catalog order.
    pub natural_key: Vec<FieldValue>,
    /// The row's fields.
    pub payload: Vec<PayloadField>,
    /// The stored record the row would change, once known.
    pub existing_payload: Option<Vec<PayloadField>>,
    /// The first failed check, if any.
    pub error: Option<RowError>,
}

/// The stored value of a cell: its trimmed text, or `Null` when that is empty.
pub open spec fn cell_value(raw: Seq<char>) -> FieldView {
    let t = trim_spec(raw);
    if t.len() == 0 {
        FieldView::Null
    } else {
        FieldView::Text(t)
    }
}

/// The field map of the first `n` header/cell pairs, set in order.
pub open spec fn initial_payload(headers: Seq<Seq<char>>, record: Seq<Seq<char>>, n: nat) -> Seq<
    (Seq<char>, FieldView),
>
    decreases n,
{
    if n == 0 {
        seq![]
    } else {
        payload_set(
            initial_payload(headers, record, (n - 1) as nat),
            headers[n - 1],
            cell_value(record[n - 1]),
        )
    }
}

/// Number of header/cell pairs: the shorter of the two.
pub open spec fn pair_count(headers: Seq<Seq<char>>, record: Seq<Seq<char>>) -> nat {
    if headers.len() <= record.len() {
        headers.len()
    } else {
        record.len()
    }
}

/// Whether some trimmed cell exceeds the character limit.
pub open spec fn cell_overflow(headers: Seq<Seq<char>>, record: Seq<Seq<char>>, limit: nat) -> bool {
    exists|i: int| 0 <= i < pair_count(headers, record) && #[trigger] trim_spec(record[i]).len() > limit
}

/// The columns that must hold a value: the key columns when editing or deleting, the
/// required columns otherwise.
pub open spec fn required_fields(spec: TableSpecView, mode: ImportMode) -> Seq<Seq<char>> {
    if mode == ImportMode::UpdateOnly || mode == ImportMode::DeleteOnly {
        spec.keys
    } else {
        spec.required
    }
}

/// Whether field `f` holds no non-empty text.
pub open spec fn lacks_value(p: Seq<(Seq<char>, FieldView)>, f: Seq<char>) -> bool {
    match text_of(p, f) {
        Some(t) => t.len() == 0,
        None => true,
    }
}

/// The non-empty text of field `f`, if any.
pub open spec fn nonempty_text(p: Seq<(Seq<char>, FieldView)>, f: Seq<char>) -> Option<Seq<char>> {
    match text_of(p, f) {
        Some(t) => if t.len() > 0 {
            Some(t)
        } else {
            None
        },
        None => None,
    }
}

/// Whether an integer column's text is a valid value: a non-negative `i32`, and not zero
/// for `writer_order` or `id`.
pub open spec fn integer_in_range(field: Seq<char>, t: Seq<char>) -> bool {
    match i32_text(t) {
        Some(n) => n >= 0 && !(field == "writer_order"@ && n == 0) && !(field == "id"@ && n == 0),
        None => false,
    }
}

/// Whether field `f` fails check `kind` (0 missing value, 1 UUID, 2 integer).
pub open spec fn field_fails(kind: int, p: Seq<(Seq<char>, FieldView)>, f: Seq<char>) -> bool {
    if kind == 0 {
        lacks_value(p, f)
    } else if kind == 1 {
        nonempty_text(p, f) matches Some(t) && !uuid_text(t)
    } else {
        nonempty_text(p, f) matches Some(t) && !integer_in_range(f, t)
    }
}

/// The first of `fields`, from `i`, that fails check `kind`.
pub open spec fn first_failing(
    kind: int,
    p: Seq<(Seq<char>, FieldView)>,
    fields: Seq<Seq<char>>,
    i: int,
) -> Option<Seq<char>>
    decreases fields.len() - i,
{
    if i < 0 || i >= fields.len() {
        None
    } else if field_fails(kind, p, fields[i]) {
        Some(fields[i])
    } else {
        first_failing(kind, p, fields, i + 1)
    }
}

/// The email pass from field `i`: valid addresses are lower-cased in place; the first
/// invalid one stops the pass.
pub open spec fn email_pass(p: Seq<(Seq<char>, FieldView)>, fields: Seq<Seq<char>>, i: int) -> (
    Option<Seq<char>>,
    Seq<(Seq<char>, FieldView)>,
)
    decreases fields.len() - i,
{
    if i < 0 || i >= fields.len() {
        (None, p)
    } else {
        match nonempty_text(p, fields[i]) {
            Some(t) => if !valid_email_spec(t) {
                (Some(fields[i]), p)
            } else {
                email_pass(
                    payload_set(p, fields[i], FieldView::Text(ascii_lower_seq(t))),
                    fields,
                    i + 1,
                )
            },
            None => email_pass(p, fields, i + 1),
        }
    }
}

/// The lower-cased leader text of a writer row (empty when absent).
pub open spec fn leader_text(p: Seq<(Seq<char>, FieldView)>) -> Seq<char> {
    match text_of(p, "is_leader"@) {
        Some(t) => ascii_lower_seq(t),
        None => seq![],
    }
}

/// Whether a leader text is one of the accepted boolean spellings.
pub open spec fn leader_recognized(l: Seq<char>) -> bool {
    l == "true"@ || l == "false"@ || l == "1"@ || l == "0"@ || l == "yes"@ || l == "no"@
}

/// Whether a leader text means yes.
pub open spec fn leader_flag(l: Seq<char>) -> bool {
    l == "true"@ || l == "1"@ || l == "yes"@
}

/// A row error value.
pub open spec fn row_error(code: Seq<char>, message: Seq<char>) -> (Seq<char>, Seq<char>) {
    (code, message)
}

/// The error of the value checks that precede the email pass, in order: a formula in a
/// key cell, a missing required value, a malformed UUID, an integer out of range.
pub open spec fn early_error(
    p: Seq<(Seq<char>, FieldView)>,
    formula: Option<Seq<char>>,
    mode: ImportMode,
    spec: TableSpecView,
) -> Option<(Seq<char>, Seq<char>)> {
    match formula {
        Some(m) => Some(row_error("FORMULA_IN_KEY"@, m)),
        None => match first_failing(0, p, required_fields(spec, mode), 0) {
            Some(f) => Some(row_error("MISSING_VALUE"@, "required value "@ + f + " is empty"@)),
            None => match first_failing(1, p, spec.uuids, 0) {
                Some(f) => Some(row_error("MALFORMED_UUID"@, f + " is not a UUID"@)),
                None => match first_failing(2, p, spec.integers, 0) {
                    Some(f) => Some(
                        row_error("INVALID_INTEGER"@, f + " is outside its valid range"@),
                    ),
                    None => None,
                },
            },
        },
    }
}

/// The row's error and final field map after every check.
pub open spec fn checked_row(
    table: Seq<char>,
    p: Seq<(Seq<char>, FieldView)>,
    formula: Option<Seq<char>>,
    mode: ImportMode,
    spec: TableSpecView,
) -> (Option<(Seq<char>, Seq<char>)>, Seq<(Seq<char>, FieldView)>) {
    let early = early_error(p, formula, mode, spec);
    if early is Some {
        (early, p)
    } else {
        let (bad, p1) = email_pass(p, spec.emails, 0);
        match bad {
            Some(f) => (
                Some(row_error("INVALID_EMAIL"@, f + " is not a normalized email address"@)),
                p1,
            ),
            None => if table == "paper_team_writers"@ {
                let l = leader_text(p1);
                (
                    if leader_recognized(l) {
                        None
                    } else {
                        Some(row_error("INVALID_BOOLEAN"@, "is_leader must be true or false"@))
                    },
                    payload_set(p1, "is_leader"@, FieldView::Flag(leader_flag(l))),
                )
            } else {
                (None, p1)
            },
        }
    }
}

/// The natural key of a row: the value of each key column, `Null` when absent.
pub open spec fn natural_key_of(p: Seq<(Seq<char>, FieldView)>, keys: Seq<Seq<char>>) -> Seq<FieldView> {
    keys.map_values(|k: Seq<char>| match payload_get(p, k) {
        Some(v) => v,
        None => FieldView::Null,
    })
}

/// Views of field values.
pub open spec fn values_view(v: Seq<FieldValue>) -> Seq<FieldView> {
    v.map_values(|x: FieldValue| x@)
}

/// The view of an optional row error.
pub open spec fn error_view(e: Option<RowError>) -> Option<(Seq<char>, Seq<char>)> {
    match e {
        Some(r) => Some((r.code@, r.message@)),
        None => None,
    }
}

/// Views of strings.
pub open spec fn strings_view(v: Seq<String>) -> Seq<Seq<char>> {
    v.map_values(|s: String| s@)
}

/// The mathematical value of a row.
pub ghost struct RowView {
    pub upload_index: usize,
    pub table: Seq<char>,
    pub row_number: i64,
    pub natural_key: Seq<FieldView>,
    pub payload: Seq<(Seq<char>, FieldView)>,
    pub existing_payload: Option<Seq<(Seq<char>, FieldView)>>,
    pub error: Option<(Seq<char>, Seq<char>)>,
}

/// The value of a row.
pub open spec fn row_view(r: SourceRow) -> RowView {
    RowView {
        upload_index: r.upload_index,
        table: r.table@,
        row_number: r.row_number,
        natural_key: values_view(r.natural_key@),
        payload: payload_view(r.payload@),
        existing_payload: match r.existing_payload {
            Some(p) => Some(payload_view(p@)),
            None => None,
        },
        error: error_view(r.error),
    }
}

/// The validated row of a record: its dataset, position and origin, its checked field
/// map and error, and its natural key.
pub open spec fn expected_row(
    table: Seq<char>,
    row_number: i64,
    headers: Seq<Seq<char>>,
    record: Seq<Seq<char>>,
    formula: Option<Seq<char>>,
    mode: ImportMode,
    upload_index: usize,
) -> RowView {
    let p0 = initial_payload(headers, record, pair_count(headers, record));
    let (err, p) = checked_row(table, p0, formula, mode, table_spec_of(table));
    RowView {
        upload_index,
        table,
        row_number,
        natural_key: natural_key_of(p, table_spec_of(table).keys),
        payload: p,
        existing_payload: None,
        error: err,
    }
}

/// Whether `row` is the validated row of a record.
pub open spec fn row_matches(
    row: SourceRow,
    table: Seq<char>,
    row_number: i64,
    headers: Seq<Seq<char>>,
    record: Seq<Seq<char>>,
    formula: Option<Seq<char>>,
    mode: ImportMode,
    upload_index: usize,
) -> bool {
    row_view(row) == expected_row(table, row_number, headers, record, formula, mode, upload_index)
}

/// Views of rows.
pub open spec fn rows_view(rows: Seq<SourceRow>) -> Seq<RowView> {
    rows.map_values(|r: SourceRow| row_view(r))
}

fn build_payload(headers: &Vec<String>, record: &Vec<String>, limits: &ImportLimits) -> (r: Option<
    Vec<PayloadField>,
>)
    ensures
        cell_overflow(strings_view(headers@), strings_view(record@), limits.max_cell_characters as nat)
            ==> r is None,
        !cell_overflow(strings_view(headers@), strings_view(record@), limits.max_cell_characters as nat)
            ==> (r matches Some(p) && payload_view(p@) == initial_payload(
            strings_view(headers@),
            strings_view(record@),
            pair_count(strings_view(headers@), strings_view(record@)),
        )),
{
    let ghost hv = strings_view(headers@);
    let ghost rv = strings_view(record@);
    let n = if headers.len() <= record.len() { headers.len() } else { record.len() };
    let mut p: Vec<PayloadField> = Vec::new();
    let mut i: usize = 0;
    assert(payload_view(p@) =~= initial_payload(hv, rv, 0));
    while i < n
        invariant
            hv == strings_view(headers@),
            rv == strings_view(record@),
            n == pair_count(hv, rv),
            n <= headers@.len() && n <= record@.len(),
            i <= n,
            forall|k: int| 0 <= k < i ==> #[trigger] trim_spec(rv[k]).len() <= limits.max_cell_characters,
            payload_view(p@) == initial_payload(hv, rv, i as nat),
        decreases n - i,
    {
        let t = trim_chars(&chars_of(record[i].as_str()));
        assert(rv[i as int] == record@[i as int]@);
        assert(hv[i as int] == headers@[i as int]@);
        if t.len() > limits.max_cell_characters {
            return None;
        }
        let value = if t.len() == 0 {
            FieldValue::Null
        } else {
            FieldValue::Text(string_from_chars(&t))
        };
        set_field(&mut p, headers[i].as_str(), value);
        i = i + 1;
    }
    Some(p)
}

fn first_failing_field(kind: u8, p: &Vec<PayloadField>, fields: &Vec<&'static str>) -> (r: Option<
    &'static str,
>)
    requires
        kind <= 2,
    ensures
        match r {
            Some(f) => first_failing(kind as int, payload_view(p@), crate::import_catalog::strs_view(fields@), 0) == Some(f@),
            None => first_failing(kind as int, payload_view(p@), crate::import_catalog::strs_view(fields@), 0) is None,
        },
{
    let ghost fv = crate::import_catalog::strs_view(fields@);
    let ghost pv = payload_view(p@);
    let mut i: usize = 0;
    while i < fields.len()
        invariant
            kind <= 2,
            fv == crate::import_catalog::strs_view(fields@),
            pv == payload_view(p@),
            i <= fields@.len(),
            first_failing(kind as int, pv, fv, 0) == first_failing(kind as int, pv, fv, i as int),
        decreases fields@.len() - i,
    {
        let f = fields[i];
        assert(fv[i as int] == f@);
        let text = field_text(p, f);
        let fails = if kind == 0 {
            match &text {
                Some(t) => chars_of(t.as_str()).len() == 0,
                None => true,
            }
        } else {
            match &text {
                Some(t) => {
                    let nonempty = chars_of(t.as_str()).len() > 0;
                    if !nonempty {
                        false
                    } else if kind == 1 {
                        !is_uuid_text(t.as_str())
                    } else {
                        match parse_i32(t.as_str()) {
                            Some(n) => n < 0 || (str_eq(f, "writer_order") && n == 0) || (str_eq(f, "id") && n == 0),
                            None => true,
                        }
                    }
                },
                None => false,
            }
        };
        if fails {
            return Some(f);
        }
        i = i + 1;
    }
    None
}

fn run_email_pass(p: &mut Vec<PayloadField>, fields: &Vec<&'static str>) -> (r: Option<&'static str>)
    ensures
        ({
            let (bad, q) = email_pass(payload_view(old(p)@), crate::import_catalog::strs_view(fields@), 0);
            &&& match r {
                Some(f) => bad == Some(f@),
                None => bad is None,
            }
            &&& payload_view(final(p)@) == q
        }),
{
    let ghost fv = crate::import_catalog::strs_view(fields@);
    let ghost start = payload_view(p@);
    let mut i: usize = 0;
    while i < fields.len()
        invariant
            fv == crate::import_catalog::strs_view(fields@),
            start == payload_view(old(p)@),
            i <= fields@.len(),
            email_pass(start, fv, 0) == email_pass(payload_view(p@), fv, i as int),
        decreases fields@.len() - i,
    {
        let f = fields[i];
        assert(fv[i as int] == f@);
        match field_text(p, f) {
            Some(t) => {
                let c = chars_of(t.as_str());
                if c.len() > 0 {
                    if !valid_email(t.as_str()) {
                        assert(crate::import_rows::nonempty_text(payload_view(p@), f@) == Some(t@));
                        assert(email_pass(payload_view(p@), fv, i as int) == (Some(fv[i as int]), payload_view(p@)));
                        return Some(f);
                    }
                    let lower = ascii_lowercase(&c);
                    set_field(p, f, FieldValue::Text(string_from_chars(&lower)));
                }
            },
            None => {},
        }
        i = i + 1;
    }
    None
}

fn one_of(s: &Vec<char>, names: &[&str]) -> (b: bool)
    ensures
        b == exists|k: int| 0 <= k < names@.len() && #[trigger] names@[k]@ == s@,
{
    let mut i: usize = 0;
    while i < names.len()
        invariant
            i <= names@.len(),
            forall|k: int| 0 <= k < i ==> #[trigger] names@[k]@ != s@,
        decreases names@.len() - i,
    {
        if crate::text::chars_eq(s, &chars_of(names[i])) {
            return true;
        }
        i = i + 1;
    }
    false
}

fn check_leader(p: &mut Vec<PayloadField>) -> (r: bool)
    ensures
        r == leader_recognized(leader_text(payload_view(old(p)@))),
        payload_view(final(p)@) == payload_set(
            payload_view(old(p)@),
            "is_leader"@,
            FieldView::Flag(leader_flag(leader_text(payload_view(old(p)@)))),
        ),
{
    let leader = match field_text(p, "is_leader") {
        Some(t) => ascii_lowercase(&chars_of(t.as_str())),
        None => Vec::new(),
    };
    assert(leader@ == leader_text(payload_view(p@)));
    let recognized = one_of(&leader, &["true", "false", "1", "0", "yes", "no"]);
    let flag = one_of(&leader, &["true", "1", "yes"]);
    proof {
        let names: Seq<&str> = seq!["true", "false", "1", "0", "yes", "no"];
        if leader_recognized(leader@) {
            if leader@ == "true"@ { assert(names[0]@ == leader@); }
            if leader@ == "false"@ { assert(names[1]@ == leader@); }
            if leader@ == "1"@ { assert(names[2]@ == leader@); }
            if leader@ == "0"@ { assert(names[3]@ == leader@); }
            if leader@ == "yes"@ { assert(names[4]@ == leader@); }
            if leader@ == "no"@ { assert(names[5]@ == leader@); }
        }
        let yes: Seq<&str> = seq!["true", "1", "yes"];
        if leader_flag(leader@) {
            if leader@ == "true"@ { assert(yes[0]@ == leader@); }
            if leader@ == "1"@ { assert(yes[1]@ == leader@); }
            if leader@ == "yes"@ { assert(yes[2]@ == leader@); }
        }
    }
    set_field(p, "is_leader", FieldValue::Flag(flag));
    recognized
}

fn natural_key(p: &Vec<PayloadField>, keys: &Vec<&'static str>) -> (r: Vec<FieldValue>)
    ensures
        values_view(r@) == natural_key_of(payload_view(p@), crate::import_catalog::strs_view(keys@)),
{
    let ghost kv = crate::import_catalog::strs_view(keys@);
    let mut out: Vec<FieldValue> = Vec::new();
    let mut i: usize = 0;
    while i < keys.len()
        invariant
            kv == crate::import_catalog::strs_view(keys@),
            i <= keys@.len(),
            values_view(out@) == natural_key_of(payload_view(p@), kv.take(i as int)),
        decreases keys@.len() - i,
    {
        let v = field_value(p, keys[i]);
        let ghost before = values_view(out@);
        out.push(v);
        proof {
            assert(kv[i as int] == keys@[i as int]@);
            assert(values_view(out@) =~= before.push(v@));
            assert(natural_key_of(payload_view(p@), kv.take(i + 1)) =~= natural_key_of(
                payload_view(p@),
                kv.take(i as int),
            ).push(v@));
        }
        i = i + 1;
    }
    assert(kv.take(keys@.len() as int) =~= kv);
    out
}

fn new_error(code: &str, message: String) -> (e: RowError)
    ensures
        e.code@ == code@,
        e.message@ == message@,
{
    RowError { code: code.to_owned(), message }
}

/// Validates one source row of a known dataset. A trimmed cell beyond the character
/// limit rejects the upload; otherwise the row carries its field map, its natural key and
/// the first failed check as its error: a formula in a key cell, a missing required
/// value, a malformed UUID, an integer out of range, an invalid email address, an invalid
/// leader flag. Valid email addresses are lower-cased and a writer's leader text becomes
/// a flag.
pub fn source_row(
    table: &str,
    row_number: i64,
    headers: &Vec<String>,
    record: &Vec<String>,
    formula_error: Option<&str>,
    limits: &ImportLimits,
    mode: ImportMode,
    upload_index: usize,
) -> (r: Result<SourceRow, InstitutionError>)
    requires
        institution_table_names().contains(table@),
    ensures
        cell_overflow(strings_view(headers@), strings_view(record@), limits.max_cell_characters as nat)
            ==> (r is Err && r->Err_0 is InvalidInput),
        !cell_overflow(strings_view(headers@), strings_view(record@), limits.max_cell_characters as nat)
            ==> (r matches Ok(row) && row_matches(
            row,
            table@,
            row_number,
            strings_view(headers@),
            strings_view(record@),
            match formula_error {
                Some(m) => Some(m@),
                None => None,
            },
            mode,
            upload_index,
        )),
{
    let spec = table_spec(table);
    let mut payload = match build_payload(headers, record, limits) {
        Some(p) => p,
        None => {
            return Err(
                InstitutionError::InvalidInput(
                    concat_str(table, " row: cell character limit exceeded"),
                ),
            );
        },
    };
    let ghost p0 = payload_view(payload@);
    let required = if mode == ImportMode::UpdateOnly || mode == ImportMode::DeleteOnly {
        &spec.keys
    } else {
        &spec.required
    };
    let mut error: Option<RowError> = match formula_error {
        Some(m) => Some(new_error("FORMULA_IN_KEY", m.to_owned())),
        None => match first_failing_field(0, &payload, required) {
            Some(f) => Some(
                new_error("MISSING_VALUE", concat_str(concat_str("required value ", f).as_str(), " is empty")),
            ),
            None => match first_failing_field(1, &payload, &spec.uuids) {
                Some(f) => Some(new_error("MALFORMED_UUID", concat_str(f, " is not a UUID"))),
                None => match first_failing_field(2, &payload, &spec.integers) {
                    Some(f) => Some(
                        new_error("INVALID_INTEGER", concat_str(f, " is outside its valid range")),
                    ),
                    None => None,
                },
            },
        },
    };
    proof {
        let formula = match formula_error {
            Some(m) => Some(m@),
            None => None,
        };
        assert(error_view(error) == early_error(p0, formula, mode, table_spec_of(table@)));
    }
    if error.is_none() {
        match run_email_pass(&mut payload, &spec.emails) {
            Some(f) => {
                error = Some(
                    new_error("INVALID_EMAIL", concat_str(f, " is not a normalized email address")),
                );
            },
            None => {
                if str_eq(table, "paper_team_writers") {
                    if !check_leader(&mut payload) {
                        error = Some(
                            new_error("INVALID_BOOLEAN", "is_leader must be true or false".to_owned()),
                        );
                    }
                }
            },
        }
    }
    let natural_key = natural_key(&payload, &spec.keys);
    Ok(SourceRow {
        upload_index,
        table: table.to_owned(),
        row_number,
        natural_key,
        payload,
        existing_payload: None,
        error,
    })
}

} // verus!
