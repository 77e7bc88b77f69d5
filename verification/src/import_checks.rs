//! Checks of uploaded rows against what is stored: the action each row takes, references
//! to records that exist nowhere, and deletions that stored records still depend on.
use crate::import_batch::{action_for, row_action};
use crate::import_catalog::ImportMode;
use crate::import_cross::{clone_payload, clone_values, values_equal, with_error};
use crate::import_review::{dataset_title, friendly_dataset, joined};
use crate::import_rows::{error_view, row_view, rows_view, values_view, RowError, RowView, SourceRow};
use crate::import_values::{
    field_index, field_text, payload_get, payload_set, payload_view, set_field, text_of,
    FieldValue, FieldView,
    PayloadField,
};
use crate::team_import::join_reasons;
use crate::text::{concat_str, str_eq, string_views};
use crate::working_tree::clone_string;
use vstd::prelude::*;

verus! {

/// A stored record of a dataset: its key values in catalog order and its fields.
pub struct ExistingRecord {
    pub table: String,
    pub key: Vec<FieldValue>,
    pub payload: Vec<PayloadField>,
}

/// Stored records as (dataset, key, fields).
pub open spec fn existing_view(ex: Seq<ExistingRecord>) -> Seq<(Seq<char>, Seq<FieldView>, Seq<(Seq<char>, FieldView)>)> {
    ex.map_values(|e: ExistingRecord| (e.table@, values_view(e.key@), payload_view(e.payload@)))
}

/// The stored record of `table` with key `key`; a later record overrides an earlier one.
pub open spec fn stored_record(
    ex: Seq<(Seq<char>, Seq<FieldView>, Seq<(Seq<char>, FieldView)>)>,
    table: Seq<char>,
    key: Seq<FieldView>,
) -> Option<Seq<(Seq<char>, FieldView)>>
    decreases ex.len(),
{
    if ex.len() == 0 {
        None
    } else if ex.last().0 == table && ex.last().1 == key {
        Some(ex.last().2)
    } else {
        stored_record(ex.drop_last(), table, key)
    }
}

/// The action an uploaded row takes, given whether its record is stored.
pub open spec fn action_name(present: bool, mode: ImportMode) -> Seq<char> {
    if !present {
        match mode {
            ImportMode::UpdateOnly | ImportMode::DeleteOnly => "INVALID"@,
            _ => "INSERT"@,
        }
    } else {
        match mode {
            ImportMode::Merge | ImportMode::UpdateOnly => "UPDATE"@,
            ImportMode::DeleteOnly => "DELETE"@,
            _ => "SKIP"@,
        }
    }
}

/// The message for a row whose record is not stored.
pub open spec fn not_found_message(table: Seq<char>) -> Seq<char> {
    dataset_title(table) + " was not found; check the canonical key and try again"@
}

/// A row after its action is assigned: a row with an error or that skips or deletes stays
/// as it is; otherwise it learns its stored record, and either fails (an edit or deletion
/// of a record that is not stored) or records its action.
pub open spec fn assigned(
    r: RowView,
    mode: ImportMode,
    ex: Seq<(Seq<char>, Seq<FieldView>, Seq<(Seq<char>, FieldView)>)>,
) -> RowView {
    if r.error is Some || row_action(r) == "SKIP"@ || row_action(r) == "DELETE"@ {
        r
    } else {
        let stored = stored_record(ex, r.table, r.natural_key);
        let present = stored is Some;
        if !present && (mode == ImportMode::UpdateOnly || mode == ImportMode::DeleteOnly) {
            RowView {
                existing_payload: stored,
                error: Some(("NOT_FOUND"@, not_found_message(r.table))),
                ..r
            }
        } else {
            RowView {
                existing_payload: stored,
                payload: payload_set(r.payload, "__action"@, FieldView::Text(action_name(present, mode))),
                ..r
            }
        }
    }
}

fn find_stored(ex: &Vec<ExistingRecord>, table: &str, key: &Vec<FieldValue>) -> (r: Option<Vec<PayloadField>>)
    ensures
        match r {
            Some(p) => stored_record(existing_view(ex@), table@, values_view(key@)) == Some(payload_view(p@)),
            None => stored_record(existing_view(ex@), table@, values_view(key@)) is None,
        },
{
    let ghost ev = existing_view(ex@);
    let mut k: usize = ex.len();
    assert(ev.take(k as int) =~= ev);
    while k > 0
        invariant
            ev == existing_view(ex@),
            k <= ex@.len(),
            stored_record(ev, table@, values_view(key@)) == stored_record(ev.take(k as int), table@, values_view(key@)),
        decreases k,
    {
        proof {
            assert(ev.take(k as int).drop_last() =~= ev.take(k - 1));
            assert(ev.take(k as int).last() == ev[k - 1]);
        }
        let e = &ex[k - 1];
        if str_eq(e.table.as_str(), table) && values_equal(&e.key, key) {
            return Some(clone_payload(&e.payload));
        }
        k = k - 1;
    }
    None
}

fn assign_row(r: &SourceRow, mode: ImportMode, ex: &Vec<ExistingRecord>) -> (s: SourceRow)
    ensures
        row_view(s) == assigned(row_view(*r), mode, existing_view(ex@)),
{
    let action = action_for(r);
    if r.error.is_some() || str_eq(action.as_str(), "SKIP") || str_eq(action.as_str(), "DELETE") {
        return with_error(
            r,
            match &r.error {
                Some(e) => Some(RowError { code: clone_string(&e.code), message: clone_string(&e.message) }),
                None => None,
            },
        );
    }
    let stored = find_stored(ex, r.table.as_str(), &r.natural_key);
    let present = stored.is_some();
    if !present && matches!(mode, ImportMode::UpdateOnly | ImportMode::DeleteOnly) {
        let message = concat_str(
            friendly_dataset(r.table.as_str()).as_str(),
            " was not found; check the canonical key and try again",
        );
        return SourceRow {
            upload_index: r.upload_index,
            table: clone_string(&r.table),
            row_number: r.row_number,
            natural_key: clone_values(&r.natural_key),
            payload: clone_payload(&r.payload),
            existing_payload: stored,
            error: Some(RowError { code: "NOT_FOUND".to_owned(), message }),
        };
    }
    let name = if !present {
        "INSERT"
    } else {
        match mode {
            ImportMode::Merge | ImportMode::UpdateOnly => "UPDATE",
            ImportMode::DeleteOnly => "DELETE",
            _ => "SKIP",
        }
    };
    let mut payload = clone_payload(&r.payload);
    set_field(&mut payload, "__action", FieldValue::Text(name.to_owned()));
    SourceRow {
        upload_index: r.upload_index,
        table: clone_string(&r.table),
        row_number: r.row_number,
        natural_key: clone_values(&r.natural_key),
        payload,
        existing_payload: stored,
        error: None,
    }
}

/// Assigns each uploaded row its action in `mode` against the stored records `existing`.
pub fn assign_actions(rows: &mut Vec<SourceRow>, mode: ImportMode, existing: &Vec<ExistingRecord>)
    ensures
        rows_view(final(rows)@) == rows_view(old(rows)@).map_values(
            |r: RowView| assigned(r, mode, existing_view(existing@)),
        ),
{
    let ghost orig = rows_view(rows@);
    let mut out: Vec<SourceRow> = Vec::new();
    let mut i: usize = 0;
    while i < rows.len()
        invariant
            orig == rows_view(rows@),
            i <= rows@.len(),
            out@.len() == i,
            forall|j: int| 0 <= j < i ==> #[trigger] row_view(out@[j]) == assigned(orig[j], mode, existing_view(existing@)),
        decreases rows@.len() - i,
    {
        let s = assign_row(&rows[i], mode, existing);
        out.push(s);
        i = i + 1;
    }
    assert(rows_view(out@) =~= orig.map_values(|r: RowView| assigned(r, mode, existing_view(existing@))));
    *rows = out;
}

/// The keys of the records stored in the referenced datasets.
pub struct ReferenceSets {
    pub departments: Vec<String>,
    pub programmes: Vec<String>,
    pub schools: Vec<String>,
    pub faculty: Vec<String>,
    pub students: Vec<String>,
    pub teams: Vec<String>,
}

/// Whether an uploaded row without an error of dataset `source` has `value` among its key
/// texts.
pub open spec fn uploaded_key(rows: Seq<RowView>, source: Seq<char>, value: Seq<char>) -> bool {
    exists|i: int, k: int|
        0 <= i < rows.len() && rows[i].error is None && rows[i].table == source && 0 <= k
            < rows[i].natural_key.len() && #[trigger] rows[i].natural_key[k] == FieldView::Text(value)
}

/// The problem with field `field` of a row when its value names no record of `source`,
/// neither stored (`db`) nor uploaded.
pub open spec fn missing_reference(
    r: RowView,
    field: Seq<char>,
    db: Seq<Seq<char>>,
    source: Seq<char>,
    rows: Seq<RowView>,
) -> Option<Seq<char>> {
    match text_of(r.payload, field) {
        Some(v) => if v.len() > 0 && !db.contains(v) && !uploaded_key(rows, source, v) {
            Some(field + " references missing "@ + source + " value "@ + v)
        } else {
            None
        },
        None => None,
    }
}

/// The first problem found.
pub open spec fn either(a: Option<Seq<char>>, b: Option<Seq<char>>) -> Option<Seq<char>> {
    if a is Some {
        a
    } else {
        b
    }
}

/// The stored keys of the referenced datasets.
pub ghost struct ReferenceView {
    pub departments: Seq<Seq<char>>,
    pub programmes: Seq<Seq<char>>,
    pub schools: Seq<Seq<char>>,
    pub faculty: Seq<Seq<char>>,
    pub students: Seq<Seq<char>>,
    pub teams: Seq<Seq<char>>,
}

/// The stored keys of the referenced datasets.
pub open spec fn reference_view(s: ReferenceSets) -> ReferenceView {
    ReferenceView {
        departments: string_views(s.departments@),
        programmes: string_views(s.programmes@),
        schools: string_views(s.schools@),
        faculty: string_views(s.faculty@),
        students: string_views(s.students@),
        teams: string_views(s.teams@),
    }
}

/// The first missing reference of a row, by dataset.
pub open spec fn reference_problem(r: RowView, s: ReferenceView, rows: Seq<RowView>) -> Option<Seq<char>> {
    let t = r.table;
    if t == "faculty"@ {
        missing_reference(r, "dept_id"@, s.departments, "departments"@, rows)
    } else if t == "programmes"@ {
        missing_reference(r, "hod_id"@, s.faculty, "faculty"@, rows)
    } else if t == "students"@ {
        missing_reference(r, "programme_code"@, s.programmes, "programmes"@, rows)
    } else if t == "student_course_registrations"@ {
        missing_reference(r, "student_reg_no"@, s.students, "students"@, rows)
    } else if t == "faculty_guide_capacity"@ {
        missing_reference(r, "faculty_id"@, s.faculty, "faculty"@, rows)
    } else if t == "department_roles"@ {
        either(
            missing_reference(r, "dept_id"@, s.departments, "departments"@, rows),
            missing_reference(r, "faculty_id"@, s.faculty, "faculty"@, rows),
        )
    } else if t == "faculty_roles"@ {
        either(
            missing_reference(r, "faculty_id"@, s.faculty, "faculty"@, rows),
            either(
                missing_reference(r, "school_id"@, s.schools, "schools"@, rows),
                either(
                    missing_reference(r, "department_id"@, s.departments, "departments"@, rows),
                    missing_reference(r, "programme_code"@, s.programmes, "programmes"@, rows),
                ),
            ),
        )
    } else if t == "paper_team_writers"@ {
        either(
            missing_reference(r, "external_team_key"@, s.teams, "paper_teams"@, rows),
            missing_reference(r, "student_reg_no"@, s.students, "students"@, rows),
        )
    } else if t == "paper_team_mentors"@ {
        either(
            missing_reference(r, "external_team_key"@, s.teams, "paper_teams"@, rows),
            missing_reference(r, "faculty_id"@, s.faculty, "faculty"@, rows),
        )
    } else {
        None
    }
}

/// A row after the reference check against the uploaded rows `rows`.
pub open spec fn reference_checked(r: RowView, s: ReferenceView, rows: Seq<RowView>) -> RowView {
    if r.error is Some {
        r
    } else {
        match reference_problem(r, s, rows) {
            Some(m) => RowView { error: Some(("INVALID_FK"@, m)), ..r },
            None => r,
        }
    }
}

/// Some entry of `up` from position `lo` on is (`source`, `value`).
pub open spec fn listed(up: Seq<(String, String)>, lo: int, source: Seq<char>, value: Seq<char>) -> bool {
    exists|j: int| lo <= j < up.len() && (#[trigger] up[j]).0@ == source && up[j].1@ == value
}

/// One of the first `k` key values is the text `value`.
pub open spec fn key_text_among(key: Seq<FieldView>, k: int, value: Seq<char>) -> bool {
    exists|m: int| 0 <= m < k && #[trigger] key[m] == FieldView::Text(value)
}

/// The uploaded key texts, as (dataset, value), of the rows without an error.
fn uploaded_keys(rows: &Vec<SourceRow>) -> (r: Vec<(String, String)>)
    ensures
        forall|source: Seq<char>, value: Seq<char>|
            #![trigger uploaded_key(rows_view(rows@), source, value)]
            uploaded_key(rows_view(rows@), source, value) <==> listed(r@, 0, source, value),
{
    let ghost rv = rows_view(rows@);
    let mut out: Vec<(String, String)> = Vec::new();
    let mut i: usize = 0;
    while i < rows.len()
        invariant
            rv == rows_view(rows@),
            i <= rows@.len(),
            forall|source: Seq<char>, value: Seq<char>|
                #![trigger uploaded_key(rv.take(i as int), source, value)]
                uploaded_key(rv.take(i as int), source, value) <==> listed(out@, 0, source, value),
        decreases rows@.len() - i,
    {
        let r = &rows[i];
        let ghost before = out@;
        assert(rv[i as int] == row_view(*r));
        if r.error.is_none() {
            let mut k: usize = 0;
            while k < r.natural_key.len()
                invariant
                    rv == rows_view(rows@),
                    i < rows@.len(),
                    r == &rows@[i as int],
                    rv[i as int] == row_view(*r),
                    r.error is None,
                    k <= r.natural_key@.len(),
                    out@.len() >= before.len(),
                    forall|j: int| 0 <= j < before.len() ==> out@[j] == before[j],
                    forall|source: Seq<char>, value: Seq<char>|
                        #![trigger listed(out@, before.len() as int, source, value)]
                        listed(out@, before.len() as int, source, value) <==> (source == r.table@
                            && key_text_among(values_view(r.natural_key@), k as int, value)),
                decreases r.natural_key@.len() - k,
            {
                let ghost old_out = out@;
                match &r.natural_key[k] {
                    FieldValue::Text(v) => {
                        out.push((clone_string(&r.table), clone_string(v)));
                    },
                    _ => {},
                }
                proof {
                    let vk = values_view(r.natural_key@);
                    let lo = before.len() as int;
                    assert(vk[k as int] == r.natural_key@[k as int]@);
                    assert forall|source: Seq<char>, value: Seq<char>|
                        listed(out@, lo, source, value) <==> (source == r.table@ && key_text_among(vk, k + 1, value)) by {
                        if listed(out@, lo, source, value) {
                            let j = choose|j: int| lo <= j < out@.len() && (#[trigger] out@[j]).0@ == source && out@[j].1@ == value;
                            if j < old_out.len() {
                                assert(old_out[j] == out@[j]);
                                assert(listed(old_out, lo, source, value));
                                let m = choose|m: int| 0 <= m < k && #[trigger] vk[m] == FieldView::Text(value);
                                assert(0 <= m < k + 1 && vk[m] == FieldView::Text(value));
                            } else {
                                assert(vk[k as int] == FieldView::Text(value));
                            }
                        }
                        if source == r.table@ && key_text_among(vk, k + 1, value) {
                            let m = choose|m: int| 0 <= m < k + 1 && #[trigger] vk[m] == FieldView::Text(value);
                            if m < k {
                                assert(key_text_among(vk, k as int, value));
                                assert(listed(old_out, lo, source, value));
                                let j = choose|j: int| lo <= j < old_out.len() && (#[trigger] old_out[j]).0@ == source && old_out[j].1@ == value;
                                assert(out@[j] == old_out[j]);
                            } else {
                                assert(out@[old_out.len() as int].0@ == source);
                            }
                        }
                    }
                }
                k = k + 1;
            }
        }
        proof {
            let t1 = rv.take(i + 1);
            let t0 = rv.take(i as int);
            assert forall|source: Seq<char>, value: Seq<char>|
                uploaded_key(t1, source, value) <==> listed(out@, 0, source, value) by {
                if uploaded_key(t1, source, value) {
                    let (a, b) = choose|a: int, b: int|
                        0 <= a < t1.len() && t1[a].error is None && t1[a].table == source && 0 <= b
                            < t1[a].natural_key.len() && #[trigger] t1[a].natural_key[b] == FieldView::Text(value);
                    if a < i {
                        assert(t0[a].natural_key[b] == FieldView::Text(value));
                        assert(uploaded_key(t0, source, value));
                        assert(listed(before, 0, source, value));
                        let k = choose|k: int| 0 <= k < before.len() && (#[trigger] before[k]).0@ == source && before[k].1@ == value;
                        assert(out@[k] == before[k]);
                    } else {
                        assert(values_view(r.natural_key@)[b] == FieldView::Text(value));
                        assert(key_text_among(values_view(r.natural_key@), r.natural_key@.len() as int, value));
                        assert(listed(out@, before.len() as int, source, value));
                        let j = choose|j: int| before.len() <= j < out@.len() && (#[trigger] out@[j]).0@ == source && out@[j].1@ == value;
                    }
                }
                if listed(out@, 0, source, value) {
                    let k = choose|k: int| 0 <= k < out@.len() && (#[trigger] out@[k]).0@ == source && out@[k].1@ == value;
                    if k < before.len() {
                        assert(before[k] == out@[k]);
                        assert(listed(before, 0, source, value));
                        assert(uploaded_key(t0, source, value));
                        let (a, b) = choose|a: int, b: int|
                            0 <= a < t0.len() && t0[a].error is None && t0[a].table == source && 0 <= b
                                < t0[a].natural_key.len() && #[trigger] t0[a].natural_key[b] == FieldView::Text(value);
                        assert(t1[a].natural_key[b] == FieldView::Text(value));
                    } else {
                        assert(listed(out@, before.len() as int, source, value));
                        let m = choose|m: int| 0 <= m < r.natural_key@.len() && #[trigger] values_view(r.natural_key@)[m] == FieldView::Text(value);
                        assert(t1[i as int].natural_key[m] == FieldView::Text(value));
                    }
                }
            }
        }
        i = i + 1;
    }
    assert(rv.take(rows@.len() as int) =~= rv);
    out
}

fn in_list(list: &Vec<String>, value: &str) -> (b: bool)
    ensures
        b == string_views(list@).contains(value@),
{
    let ghost lv = string_views(list@);
    let mut i: usize = 0;
    while i < list.len()
        invariant
            lv == string_views(list@),
            i <= list@.len(),
            forall|j: int| 0 <= j < i ==> lv[j] != value@,
        decreases list@.len() - i,
    {
        assert(lv[i as int] == list@[i as int]@);
        if str_eq(list[i].as_str(), value) {
            return true;
        }
        i = i + 1;
    }
    false
}

fn in_uploaded(up: &Vec<(String, String)>, source: &str, value: &str) -> (b: bool)
    ensures
        b == listed(up@, 0, source@, value@),
{
    let mut i: usize = 0;
    while i < up.len()
        invariant
            i <= up@.len(),
            forall|j: int| 0 <= j < i ==> !((#[trigger] up@[j]).0@ == source@ && up@[j].1@ == value@),
        decreases up@.len() - i,
    {
        if str_eq(up[i].0.as_str(), source) && str_eq(up[i].1.as_str(), value) {
            return true;
        }
        i = i + 1;
    }
    false
}

fn check_reference(
    r: &SourceRow,
    field: &str,
    db: &Vec<String>,
    source: &str,
    up: &Vec<(String, String)>,
    Ghost(rows): Ghost<Seq<RowView>>,
) -> (m: Option<String>)
    requires
        forall|s: Seq<char>, v: Seq<char>|
            #![trigger uploaded_key(rows, s, v)]
            uploaded_key(rows, s, v) <==> listed(up@, 0, s, v),
    ensures
        match m {
            Some(x) => missing_reference(row_view(*r), field@, string_views(db@), source@, rows) == Some(x@),
            None => missing_reference(row_view(*r), field@, string_views(db@), source@, rows) is None,
        },
{
    match field_text(&r.payload, field) {
        Some(v) => {
            let known = in_list(db, v.as_str());
            let uploaded = in_uploaded(up, source, v.as_str());
            proof {
                assert(uploaded == uploaded_key(rows, source@, v@));
            }
            if crate::text::chars_of(v.as_str()).len() > 0 && !known && !uploaded {
                let a = concat_str(field, " references missing ");
                let b = concat_str(a.as_str(), source);
                let c = concat_str(b.as_str(), " value ");
                Some(concat_str(c.as_str(), v.as_str()))
            } else {
                None
            }
        },
        None => None,
    }
}

fn first_problem(a: Option<String>, b: Option<String>) -> (r: Option<String>)
    ensures
        crate::governance::opt_string(r) == either(crate::governance::opt_string(a), crate::governance::opt_string(b)),
{
    match a {
        Some(x) => Some(x),
        None => b,
    }
}

/// Marks the rows whose references name records that are neither stored (`known`) nor
/// uploaded in the same batch, with `INVALID_FK`.
pub fn validate_references(rows: &mut Vec<SourceRow>, known: &ReferenceSets)
    ensures
        rows_view(final(rows)@) == rows_view(old(rows)@).map_values(
            |r: RowView| reference_checked(r, reference_view(*known), rows_view(old(rows)@)),
        ),
{
    let ghost orig = rows_view(rows@);
    let ghost s = reference_view(*known);
    let up = uploaded_keys(rows);
    let mut out: Vec<SourceRow> = Vec::new();
    let mut i: usize = 0;
    while i < rows.len()
        invariant
            orig == rows_view(rows@),
            s == reference_view(*known),
            forall|src: Seq<char>, v: Seq<char>|
                #![trigger uploaded_key(orig, src, v)]
                uploaded_key(orig, src, v) <==> listed(up@, 0, src, v),
            i <= rows@.len(),
            out@.len() == i,
            forall|j: int| 0 <= j < i ==> #[trigger] row_view(out@[j]) == reference_checked(orig[j], s, orig),
        decreases rows@.len() - i,
    {
        let r = &rows[i];
        assert(orig[i as int] == row_view(*r));
        if r.error.is_some() {
            let e = match &r.error {
                Some(e) => Some(RowError { code: clone_string(&e.code), message: clone_string(&e.message) }),
                None => None,
            };
            out.push(with_error(r, e));
        } else {
            let g = Ghost(orig);
            let t = r.table.as_str();
            let problem: Option<String> = if str_eq(t, "faculty") {
                check_reference(r, "dept_id", &known.departments, "departments", &up, g)
            } else if str_eq(t, "programmes") {
                check_reference(r, "hod_id", &known.faculty, "faculty", &up, g)
            } else if str_eq(t, "students") {
                check_reference(r, "programme_code", &known.programmes, "programmes", &up, g)
            } else if str_eq(t, "student_course_registrations") {
                check_reference(r, "student_reg_no", &known.students, "students", &up, g)
            } else if str_eq(t, "faculty_guide_capacity") {
                check_reference(r, "faculty_id", &known.faculty, "faculty", &up, g)
            } else if str_eq(t, "department_roles") {
                first_problem(
                    check_reference(r, "dept_id", &known.departments, "departments", &up, g),
                    check_reference(r, "faculty_id", &known.faculty, "faculty", &up, g),
                )
            } else if str_eq(t, "faculty_roles") {
                first_problem(
                    check_reference(r, "faculty_id", &known.faculty, "faculty", &up, g),
                    first_problem(
                        check_reference(r, "school_id", &known.schools, "schools", &up, g),
                        first_problem(
                            check_reference(r, "department_id", &known.departments, "departments", &up, g),
                            check_reference(r, "programme_code", &known.programmes, "programmes", &up, g),
                        ),
                    ),
                )
            } else if str_eq(t, "paper_team_writers") {
                first_problem(
                    check_reference(r, "external_team_key", &known.teams, "paper_teams", &up, g),
                    check_reference(r, "student_reg_no", &known.students, "students", &up, g),
                )
            } else if str_eq(t, "paper_team_mentors") {
                first_problem(
                    check_reference(r, "external_team_key", &known.teams, "paper_teams", &up, g),
                    check_reference(r, "faculty_id", &known.faculty, "faculty", &up, g),
                )
            } else {
                None
            };
            let error = match problem {
                Some(m) => Some(RowError { code: "INVALID_FK".to_owned(), message: m }),
                None => None,
            };
            out.push(with_error(r, error));
        }
        i = i + 1;
    }
    assert(rows_view(out@) =~= orig.map_values(|r: RowView| reference_checked(r, s, orig)));
    *rows = out;
}

/// The query listing what depends on the record a deletion of `table` would remove, and
/// the field holding the record's key.
pub open spec fn dependency_source(table: Seq<char>) -> Option<(Seq<char>, Seq<char>)> {
    if table == "students"@ {
        Some((
            "SELECT 'Course registration ' || course_id FROM vcap.student_course_registrations WHERE student_reg_no=$1 UNION ALL SELECT 'Paper Team ' || external_team_key || ' — Writer' FROM vcap.paper_assignment_students WHERE student_reg_no=$1"@,
            "reg_no"@,
        ))
    } else if table == "faculty"@ {
        Some((
            "SELECT 'Guide capacity ' || capacity_id::text FROM vcap.faculty_guide_capacity WHERE faculty_id=$1 UNION ALL SELECT 'Department role ' || id::text FROM vcap.department_roles WHERE faculty_id=$1 UNION ALL SELECT 'Faculty role ' || role_id::text FROM vcap.faculty_roles WHERE faculty_id=$1 UNION ALL SELECT 'Paper Team ' || external_team_key || ' — Mentor' FROM vcap.paper_assignment_mentors WHERE faculty_id=$1 UNION ALL SELECT 'Programme ' || programme_code || ' — HOD' FROM vcap.programmes WHERE hod_id=$1"@,
            "faculty_id"@,
        ))
    } else if table == "programmes"@ {
        Some((
            "SELECT 'Student ' || reg_no FROM vcap.students WHERE programme_code=$1 UNION ALL SELECT 'Faculty role ' || role_id::text FROM vcap.faculty_roles WHERE programme_code=$1 UNION ALL SELECT 'Programme template default' FROM latex_core.programme_template_defaults WHERE programme_code=$1 UNION ALL SELECT 'Existing Team template resolution' FROM latex_core.paper_template_resolutions WHERE dominant_programme_code=$1"@,
            "programme_code"@,
        ))
    } else if table == "departments"@ {
        Some((
            "SELECT 'Faculty ' || faculty_id FROM vcap.faculty WHERE dept_id::text=$1 UNION ALL SELECT 'Department role ' || id::text FROM vcap.department_roles WHERE dept_id=$1 UNION ALL SELECT 'Faculty role ' || role_id::text FROM vcap.faculty_roles WHERE department_id::text=$1"@,
            "department_id"@,
        ))
    } else if table == "schools"@ {
        Some((
            "SELECT 'Faculty role ' || role_id::text FROM vcap.faculty_roles WHERE school_id=$1"@,
            "school_id"@,
        ))
    } else if table == "paper_teams"@ {
        Some((
            "SELECT 'Writer ' || student_reg_no FROM vcap.paper_assignment_students WHERE external_team_key=$1 UNION ALL SELECT 'Mentor ' || faculty_id FROM vcap.paper_assignment_mentors WHERE external_team_key=$1 UNION ALL SELECT 'Materialized LaTeX Core Paper Team ' || paper_team_id::text FROM latex_core.external_paper_team_links WHERE external_team_key=$1"@,
            "external_team_key"@,
        ))
    } else if table == "paper_team_writers"@ || table == "paper_team_mentors"@ {
        Some((
            "SELECT 'Materialized LaTeX Core Paper Team ' || paper_team_id::text FROM latex_core.external_paper_team_links WHERE external_team_key=$1"@,
            "external_team_key"@,
        ))
    } else {
        None
    }
}

/// What to look up before deleting the record of an uploaded row: the query and the key
/// to bind, for a valid deletion of a dataset others depend on.
pub fn dependency_lookup(row: &SourceRow) -> (r: Option<(&'static str, String)>)
    ensures
        ({
            let v = row_view(*row);
            let wanted = v.error is None && row_action(v) == "DELETE"@;
            match r {
                Some((q, k)) => wanted && (dependency_source(v.table) matches Some((query, field))
                    && q@ == query && text_of(v.payload, field) == Some(k@)),
                None => !wanted || dependency_source(v.table) is None || text_of(
                    v.payload,
                    dependency_source(v.table)->Some_0.1,
                ) is None,
            }
        }),
{
    if row.error.is_some() {
        return None;
    }
    let action = action_for(row);
    if !str_eq(action.as_str(), "DELETE") {
        return None;
    }
    let t = row.table.as_str();
    let (query, field): (&'static str, &'static str) = if str_eq(t, "students") {
        (
            "SELECT 'Course registration ' || course_id FROM vcap.student_course_registrations WHERE student_reg_no=$1 UNION ALL SELECT 'Paper Team ' || external_team_key || ' — Writer' FROM vcap.paper_assignment_students WHERE student_reg_no=$1",
            "reg_no",
        )
    } else if str_eq(t, "faculty") {
        (
            "SELECT 'Guide capacity ' || capacity_id::text FROM vcap.faculty_guide_capacity WHERE faculty_id=$1 UNION ALL SELECT 'Department role ' || id::text FROM vcap.department_roles WHERE faculty_id=$1 UNION ALL SELECT 'Faculty role ' || role_id::text FROM vcap.faculty_roles WHERE faculty_id=$1 UNION ALL SELECT 'Paper Team ' || external_team_key || ' — Mentor' FROM vcap.paper_assignment_mentors WHERE faculty_id=$1 UNION ALL SELECT 'Programme ' || programme_code || ' — HOD' FROM vcap.programmes WHERE hod_id=$1",
            "faculty_id",
        )
    } else if str_eq(t, "programmes") {
        (
            "SELECT 'Student ' || reg_no FROM vcap.students WHERE programme_code=$1 UNION ALL SELECT 'Faculty role ' || role_id::text FROM vcap.faculty_roles WHERE programme_code=$1 UNION ALL SELECT 'Programme template default' FROM latex_core.programme_template_defaults WHERE programme_code=$1 UNION ALL SELECT 'Existing Team template resolution' FROM latex_core.paper_template_resolutions WHERE dominant_programme_code=$1",
            "programme_code",
        )
    } else if str_eq(t, "departments") {
        (
            "SELECT 'Faculty ' || faculty_id FROM vcap.faculty WHERE dept_id::text=$1 UNION ALL SELECT 'Department role ' || id::text FROM vcap.department_roles WHERE dept_id=$1 UNION ALL SELECT 'Faculty role ' || role_id::text FROM vcap.faculty_roles WHERE department_id::text=$1",
            "department_id",
        )
    } else if str_eq(t, "schools") {
        ("SELECT 'Faculty role ' || role_id::text FROM vcap.faculty_roles WHERE school_id=$1", "school_id")
    } else if str_eq(t, "paper_teams") {
        (
            "SELECT 'Writer ' || student_reg_no FROM vcap.paper_assignment_students WHERE external_team_key=$1 UNION ALL SELECT 'Mentor ' || faculty_id FROM vcap.paper_assignment_mentors WHERE external_team_key=$1 UNION ALL SELECT 'Materialized LaTeX Core Paper Team ' || paper_team_id::text FROM latex_core.external_paper_team_links WHERE external_team_key=$1",
            "external_team_key",
        )
    } else if str_eq(t, "paper_team_writers") || str_eq(t, "paper_team_mentors") {
        (
            "SELECT 'Materialized LaTeX Core Paper Team ' || paper_team_id::text FROM latex_core.external_paper_team_links WHERE external_team_key=$1",
            "external_team_key",
        )
    } else {
        return None;
    };
    match field_text(&row.payload, field) {
        Some(k) => Some((query, k)),
        None => None,
    }
}

/// The message for a deletion that stored records still depend on.
pub open spec fn blocked_message(table: Seq<char>, dependencies: Seq<Seq<char>>) -> Seq<char> {
    "Cannot delete this "@ + dataset_title(table) + ". Used by: "@ + joined(dependencies, "; "@)
        + ". Remove or archive those relationships explicitly first."@
}

/// Marks a deletion as blocked when records depend on what it removes.
pub fn block_deletion(row: &SourceRow, dependencies: &Vec<String>) -> (s: SourceRow)
    ensures
        dependencies@.len() == 0 ==> row_view(s) == row_view(*row),
        dependencies@.len() > 0 ==> row_view(s) == (RowView {
            error: Some(("DELETE_BLOCKED_DEPENDENCY"@, blocked_message(row.table@, string_views(dependencies@)))),
            ..row_view(*row)
        }),
{
    if dependencies.len() == 0 {
        let e = match &row.error {
            Some(e) => Some(RowError { code: clone_string(&e.code), message: clone_string(&e.message) }),
            None => None,
        };
        return with_error(row, e);
    }
    let a = concat_str("Cannot delete this ", friendly_dataset(row.table.as_str()).as_str());
    let b = concat_str(a.as_str(), ". Used by: ");
    let c = concat_str(b.as_str(), join_reasons(dependencies).as_str());
    let message = concat_str(c.as_str(), ". Remove or archive those relationships explicitly first.");
    with_error(row, Some(RowError { code: "DELETE_BLOCKED_DEPENDENCY".to_owned(), message }))
}

proof fn lemma_field_index_before(p: Seq<(Seq<char>, FieldView)>, name: Seq<char>, i: int)
    requires
        0 <= i,
    ensures
        field_index(p, name, i) >= -1,
        field_index(p, name, i) == -1 ==> forall|j: int| i <= j < p.len() ==> #[trigger] p[j].0 != name,
        field_index(p, name, i) >= 0 ==> i <= field_index(p, name, i) < p.len() && p[field_index(p, name, i)].0
            == name && forall|j: int| i <= j < field_index(p, name, i) ==> #[trigger] p[j].0 != name,
    decreases p.len() - i,
{
    if i < p.len() {
        lemma_field_index_before(p, name, i + 1);
    }
}

proof fn lemma_field_index_at(q: Seq<(Seq<char>, FieldView)>, name: Seq<char>, i: int, k: int)
    requires
        0 <= i <= k < q.len(),
        q[k].0 == name,
        forall|j: int| i <= j < k ==> #[trigger] q[j].0 != name,
    ensures
        field_index(q, name, i) == k,
    decreases k - i,
{
    if i < k {
        lemma_field_index_at(q, name, i + 1, k);
    }
}

proof fn lemma_payload_set_get(p: Seq<(Seq<char>, FieldView)>, name: Seq<char>, v: FieldView)
    ensures
        payload_get(payload_set(p, name, v), name) == Some(v),
{
    lemma_field_index_before(p, name, 0);
    let k = field_index(p, name, 0);
    let q = payload_set(p, name, v);
    if k >= 0 {
        assert forall|j: int| 0 <= j < k implies #[trigger] q[j].0 != name by {
            assert(q[j] == p[j]);
        }
        lemma_field_index_at(q, name, 0, k);
    } else {
        assert forall|j: int| 0 <= j < p.len() implies #[trigger] q[j].0 != name by {
            assert(q[j] == p[j]);
        }
        lemma_field_index_at(q, name, 0, p.len() as int);
    }
}

/// The action a row is assigned, by whether its record is stored and the import mode:
/// a stored record is updated in merge and update-only imports, deleted in delete-only
/// imports and skipped otherwise; a record not stored is inserted, except in update-only
/// and delete-only imports, where the row fails as not found.
pub proof fn law_assigned_action(
    r: RowView,
    mode: ImportMode,
    ex: Seq<(Seq<char>, Seq<FieldView>, Seq<(Seq<char>, FieldView)>)>,
)
    requires
        r.error is None,
        row_action(r) != "SKIP"@,
        row_action(r) != "DELETE"@,
    ensures
        ({
            let s = assigned(r, mode, ex);
            let present = stored_record(ex, r.table, r.natural_key) is Some;
            &&& s.existing_payload == stored_record(ex, r.table, r.natural_key)
            &&& present && (mode == ImportMode::Merge || mode == ImportMode::UpdateOnly) ==> (
            s.error is None && row_action(s) == "UPDATE"@)
            &&& present && mode == ImportMode::DeleteOnly ==> (s.error is None && row_action(s)
                == "DELETE"@)
            &&& present && (mode == ImportMode::ValidateOnly || mode == ImportMode::AddOnly) ==> (
            s.error is None && row_action(s) == "SKIP"@)
            &&& !present && (mode == ImportMode::ValidateOnly || mode == ImportMode::Merge || mode
                == ImportMode::AddOnly) ==> (s.error is None && row_action(s) == "INSERT"@)
            &&& !present && (mode == ImportMode::UpdateOnly || mode == ImportMode::DeleteOnly)
                ==> s.error == Some(("NOT_FOUND"@, not_found_message(r.table)))
        }),
{
    let present = stored_record(ex, r.table, r.natural_key) is Some;
    if !(!present && (mode == ImportMode::UpdateOnly || mode == ImportMode::DeleteOnly)) {
        lemma_payload_set_get(r.payload, "__action"@, FieldView::Text(action_name(present, mode)));
    }
}

} // verus!
