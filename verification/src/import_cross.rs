//! Checks across the rows of one upload or batch: duplicate keys, writer order, and the
//! writers and leaders of each imported paper team.
use crate::import_rows::{error_view, row_view, rows_view, values_view, RowError, RowView, SourceRow};
use crate::import_values::{
    clone_value, field_text, field_value, payload_get, payload_view, text_of, FieldValue,
    FieldView, PayloadField,
};
use crate::text::str_eq;
use vstd::prelude::*;

verus! {

/// The dataset and natural key of a row.
pub open spec fn key_of(r: RowView) -> (Seq<char>, Seq<FieldView>) {
    (r.table, r.natural_key)
}

/// Whether row `i` repeats the key of an earlier row that had no error.
pub open spec fn duplicate_key_at(rows: Seq<RowView>, i: int) -> bool {
    &&& rows[i].error is None
    &&& exists|j: int| 0 <= j < i && rows[j].error is None && #[trigger] key_of(rows[j]) == key_of(rows[i])
}

/// The error of row `i` after the duplicate-key check.
pub open spec fn key_checked_error(rows: Seq<RowView>, i: int) -> Option<(Seq<char>, Seq<char>)> {
    if duplicate_key_at(rows, i) {
        Some(("DUPLICATE_KEY"@, "duplicate primary key within import source"@))
    } else {
        rows[i].error
    }
}

/// The text of a field, or empty.
pub open spec fn text_or_empty(r: RowView, field: Seq<char>) -> Seq<char> {
    match text_of(r.payload, field) {
        Some(t) => t,
        None => seq![],
    }
}

/// A writer row still valid after the duplicate-key check.
pub open spec fn live_writer(rows: Seq<RowView>, i: int) -> bool {
    rows[i].table == "paper_team_writers"@ && key_checked_error(rows, i) is None
}

/// Whether writer row `i` repeats the Team and writer order of an earlier live writer.
pub open spec fn duplicate_order_at(rows: Seq<RowView>, i: int) -> bool {
    &&& live_writer(rows, i)
    &&& exists|j: int|
        0 <= j < i && #[trigger] live_writer(rows, j) && text_or_empty(rows[j], "external_team_key"@)
            == text_or_empty(rows[i], "external_team_key"@) && text_or_empty(rows[j], "writer_order"@)
            == text_or_empty(rows[i], "writer_order"@)
}

/// A writer row counted for its Team.
pub open spec fn counted_writer(rows: Seq<RowView>, i: int) -> bool {
    live_writer(rows, i) && !duplicate_order_at(rows, i)
}

/// A counted writer row that names its writer the leader.
pub open spec fn counted_leader(rows: Seq<RowView>, i: int) -> bool {
    counted_writer(rows, i) && payload_get(rows[i].payload, "is_leader"@) == Some(
        FieldView::Flag(true),
    )
}

/// Number of rows below `n` of Team `team` satisfying `leaders` (leaders) or counted as
/// writers.
pub open spec fn team_count(rows: Seq<RowView>, team: Seq<char>, leaders: bool, n: int) -> nat
    decreases n,
{
    if n <= 0 {
        0
    } else {
        team_count(rows, team, leaders, n - 1) + if (if leaders {
            counted_leader(rows, n - 1)
        } else {
            counted_writer(rows, n - 1)
        }) && text_or_empty(rows[n - 1], "external_team_key"@) == team {
            1nat
        } else {
            0nat
        }
    }
}

/// Whether the rows include the writer dataset at all.
pub open spec fn has_writer_rows(rows: Seq<RowView>) -> bool {
    exists|i: int| 0 <= i < rows.len() && #[trigger] rows[i].table == "paper_team_writers"@
}

/// The final error of row `i`: a Team row still valid gets `MULTIPLE_LEADERS` when more
/// than one counted writer leads it, else `TEAM_HAS_NO_WRITER` when the rows include
/// writers but none for it; a writer row repeating an earlier Team and order gets
/// `DUPLICATE_WRITER_ORDER`; a row repeating an earlier key gets `DUPLICATE_KEY`.
pub open spec fn cross_checked_error(rows: Seq<RowView>, i: int) -> Option<(Seq<char>, Seq<char>)> {
    if duplicate_order_at(rows, i) {
        Some(("DUPLICATE_WRITER_ORDER"@, "writer_order must be unique per Team"@))
    } else if rows[i].table == "paper_teams"@ && key_checked_error(rows, i) is None {
        let team = text_or_empty(rows[i], "external_team_key"@);
        if team_count(rows, team, true, rows.len() as int) > 1 {
            Some(("MULTIPLE_LEADERS"@, "Team has more than one imported Leader"@))
        } else if has_writer_rows(rows) && team_count(rows, team, false, rows.len() as int) == 0 {
            Some(("TEAM_HAS_NO_WRITER"@, "Team has no Writer row"@))
        } else {
            None
        }
    } else {
        key_checked_error(rows, i)
    }
}

/// The rows after the checks across rows: each row with its cross-checked error.
pub open spec fn cross_checked(rows: Seq<RowView>) -> Seq<RowView> {
    Seq::new(rows.len(), |i: int| RowView { error: cross_checked_error(rows, i), ..rows[i] })
}

pub(crate) fn clone_payload(p: &Vec<PayloadField>) -> (r: Vec<PayloadField>)
    ensures
        payload_view(r@) == payload_view(p@),
{
    let mut out: Vec<PayloadField> = Vec::new();
    let mut i: usize = 0;
    while i < p.len()
        invariant
            i <= p@.len(),
            payload_view(out@) == payload_view(p@).take(i as int),
        decreases p@.len() - i,
    {
        let f = PayloadField { name: p[i].name.clone(), value: clone_value(&p[i].value) };
        let ghost before = payload_view(out@);
        assert((f.name@, f.value@) == payload_view(p@)[i as int]);
        out.push(f);
        assert(payload_view(out@) =~= before.push((f.name@, f.value@)));
        assert(payload_view(out@) =~= payload_view(p@).take(i + 1));
        i = i + 1;
    }
    assert(payload_view(p@).take(p@.len() as int) =~= payload_view(p@));
    out
}

pub(crate) fn clone_values(v: &Vec<FieldValue>) -> (r: Vec<FieldValue>)
    ensures
        values_view(r@) == values_view(v@),
{
    let mut out: Vec<FieldValue> = Vec::new();
    let mut i: usize = 0;
    while i < v.len()
        invariant
            i <= v@.len(),
            values_view(out@) == values_view(v@).take(i as int),
        decreases v@.len() - i,
    {
        let x = clone_value(&v[i]);
        let ghost before = values_view(out@);
        assert(x@ == values_view(v@)[i as int]);
        out.push(x);
        assert(values_view(out@) =~= before.push(x@));
        assert(values_view(out@) =~= values_view(v@).take(i + 1));
        i = i + 1;
    }
    assert(values_view(v@).take(v@.len() as int) =~= values_view(v@));
    out
}

pub(crate) fn with_error(r: &SourceRow, error: Option<RowError>) -> (s: SourceRow)
    ensures
        row_view(s) == (RowView { error: error_view(error), ..row_view(*r) }),
{
    SourceRow {
        upload_index: r.upload_index,
        table: r.table.clone(),
        row_number: r.row_number,
        natural_key: clone_values(&r.natural_key),
        payload: clone_payload(&r.payload),
        existing_payload: match &r.existing_payload {
            Some(p) => Some(clone_payload(p)),
            None => None,
        },
        error,
    }
}

pub(crate) fn values_equal(a: &Vec<FieldValue>, b: &Vec<FieldValue>) -> (r: bool)
    ensures
        r == (values_view(a@) == values_view(b@)),
{
    if a.len() != b.len() {
        assert(values_view(a@).len() != values_view(b@).len());
        return false;
    }
    let mut i: usize = 0;
    while i < a.len()
        invariant
            a@.len() == b@.len(),
            i <= a@.len(),
            forall|k: int| 0 <= k < i ==> a@[k]@ == b@[k]@,
        decreases a@.len() - i,
    {
        let same = match (&a[i], &b[i]) {
            (FieldValue::Null, FieldValue::Null) => true,
            (FieldValue::Text(x), FieldValue::Text(y)) => str_eq(x.as_str(), y.as_str()),
            (FieldValue::Flag(x), FieldValue::Flag(y)) => *x == *y,
            _ => false,
        };
        if !same {
            assert(values_view(a@)[i as int] != values_view(b@)[i as int]);
            return false;
        }
        i = i + 1;
    }
    assert(values_view(a@) =~= values_view(b@));
    true
}

fn text_or_empty_of(r: &SourceRow, field: &str) -> (t: String)
    ensures
        t@ == text_or_empty(row_view(*r), field@),
{
    match field_text(&r.payload, field) {
        Some(t) => t,
        None => String::new(),
    }
}

fn key_duplicates(rows: &Vec<SourceRow>) -> (d: Vec<bool>)
    ensures
        d@.len() == rows@.len(),
        forall|i: int| 0 <= i < rows@.len() ==> #[trigger] d@[i] == duplicate_key_at(rows_view(rows@), i),
{
    let mut d: Vec<bool> = Vec::new();
    let mut i: usize = 0;
    while i < rows.len()
        invariant
            i <= rows@.len(),
            d@.len() == i,
            forall|k: int| 0 <= k < i ==> #[trigger] d@[k] == duplicate_key_at(rows_view(rows@), k),
        decreases rows@.len() - i,
    {
        let mut dup = false;
        if rows[i].error.is_none() {
            let mut j: usize = 0;
            while j < i
                invariant
                    i < rows@.len(),
                    j <= i,
                    rows@[i as int].error is None,
                    !dup ==> forall|k: int|
                        0 <= k < j ==> !(rows@[k].error is None && #[trigger] key_of(row_view(rows@[k])) == key_of(row_view(rows@[i as int]))),
                    dup ==> duplicate_key_at(rows_view(rows@), i as int),
                decreases i - j,
            {
                assert(rows_view(rows@)[j as int] == row_view(rows@[j as int]));
                assert(rows_view(rows@)[i as int] == row_view(rows@[i as int]));
                if rows[j].error.is_none() && str_eq(rows[j].table.as_str(), rows[i].table.as_str())
                    && values_equal(&rows[j].natural_key, &rows[i].natural_key) {
                    assert(key_of(row_view(rows@[j as int])) == key_of(row_view(rows@[i as int])));
                    dup = true;
                }
                j = j + 1;
            }
        }
        d.push(dup);
        i = i + 1;
    }
    d
}

fn live_writers(rows: &Vec<SourceRow>, dups: &Vec<bool>) -> (live: Vec<bool>)
    requires
        dups@.len() == rows@.len(),
        forall|i: int| 0 <= i < rows@.len() ==> #[trigger] dups@[i] == duplicate_key_at(rows_view(rows@), i),
    ensures
        live@.len() == rows@.len(),
        forall|i: int| 0 <= i < rows@.len() ==> #[trigger] live@[i] == live_writer(rows_view(rows@), i),
{
    let mut live: Vec<bool> = Vec::new();
    let mut i: usize = 0;
    while i < rows.len()
        invariant
            dups@.len() == rows@.len(),
            forall|k: int| 0 <= k < rows@.len() ==> #[trigger] dups@[k] == duplicate_key_at(rows_view(rows@), k),
            i <= rows@.len(),
            live@.len() == i,
            forall|k: int| 0 <= k < i ==> #[trigger] live@[k] == live_writer(rows_view(rows@), k),
        decreases rows@.len() - i,
    {
        let w = str_eq(rows[i].table.as_str(), "paper_team_writers") && !dups[i] && rows[i].error.is_none();
        assert(dups@[i as int] == duplicate_key_at(rows_view(rows@), i as int));
        assert(rows_view(rows@)[i as int] == row_view(rows@[i as int]));
        live.push(w);
        i = i + 1;
    }
    live
}

fn order_duplicates(rows: &Vec<SourceRow>, live: &Vec<bool>) -> (o: Vec<bool>)
    requires
        live@.len() == rows@.len(),
        forall|i: int| 0 <= i < rows@.len() ==> #[trigger] live@[i] == live_writer(rows_view(rows@), i),
    ensures
        o@.len() == rows@.len(),
        forall|i: int| 0 <= i < rows@.len() ==> #[trigger] o@[i] == duplicate_order_at(rows_view(rows@), i),
{
    let mut o: Vec<bool> = Vec::new();
    let mut i: usize = 0;
    while i < rows.len()
        invariant
            live@.len() == rows@.len(),
            forall|k: int| 0 <= k < rows@.len() ==> #[trigger] live@[k] == live_writer(rows_view(rows@), k),
            i <= rows@.len(),
            o@.len() == i,
            forall|k: int| 0 <= k < i ==> #[trigger] o@[k] == duplicate_order_at(rows_view(rows@), k),
        decreases rows@.len() - i,
    {
        let mut dup = false;
        assert(live@[i as int] == live_writer(rows_view(rows@), i as int));
        if live[i] {
            let team = text_or_empty_of(&rows[i], "external_team_key");
            let order = text_or_empty_of(&rows[i], "writer_order");
            let mut j: usize = 0;
            while j < i
                invariant
                    live@.len() == rows@.len(),
                    forall|k: int| 0 <= k < rows@.len() ==> #[trigger] live@[k] == live_writer(rows_view(rows@), k),
                    i < rows@.len(),
                    j <= i,
                    live_writer(rows_view(rows@), i as int),
                    team@ == text_or_empty(row_view(rows@[i as int]), "external_team_key"@),
                    order@ == text_or_empty(row_view(rows@[i as int]), "writer_order"@),
                    !dup ==> forall|k: int|
                        0 <= k < j ==> !(#[trigger] live_writer(rows_view(rows@), k) && text_or_empty(row_view(rows@[k]), "external_team_key"@)
                            == team@ && text_or_empty(row_view(rows@[k]), "writer_order"@) == order@),
                    dup ==> duplicate_order_at(rows_view(rows@), i as int),
                decreases i - j,
            {
                assert(live@[j as int] == live_writer(rows_view(rows@), j as int));
                if live[j] {
                    let t = text_or_empty_of(&rows[j], "external_team_key");
                    let w = text_or_empty_of(&rows[j], "writer_order");
                    if str_eq(t.as_str(), team.as_str()) && str_eq(w.as_str(), order.as_str()) {
                        dup = true;
                    }
                }
                j = j + 1;
            }
        }
        o.push(dup);
        i = i + 1;
    }
    o
}

fn leader_flag_set(r: &SourceRow) -> (b: bool)
    ensures
        b == (payload_get(payload_view(r.payload@), "is_leader"@) == Some(FieldView::Flag(true))),
{
    match field_value(&r.payload, "is_leader") {
        FieldValue::Flag(b) => b,
        _ => false,
    }
}

fn count_for_team(
    rows: &Vec<SourceRow>,
    live: &Vec<bool>,
    dup_order: &Vec<bool>,
    team: &str,
    leaders: bool,
) -> (c: u64)
    requires
        live@.len() == rows@.len(),
        dup_order@.len() == rows@.len(),
        forall|i: int| 0 <= i < rows@.len() ==> #[trigger] live@[i] == live_writer(rows_view(rows@), i),
        forall|i: int| 0 <= i < rows@.len() ==> #[trigger] dup_order@[i] == duplicate_order_at(rows_view(rows@), i),
    ensures
        c == team_count(rows_view(rows@), team@, leaders, rows@.len() as int),
{
    let mut c: u64 = 0;
    let mut i: usize = 0;
    while i < rows.len()
        invariant
            live@.len() == rows@.len(),
            dup_order@.len() == rows@.len(),
            forall|k: int| 0 <= k < rows@.len() ==> #[trigger] live@[k] == live_writer(rows_view(rows@), k),
            forall|k: int| 0 <= k < rows@.len() ==> #[trigger] dup_order@[k] == duplicate_order_at(rows_view(rows@), k),
            i <= rows@.len(),
            c <= i,
            c == team_count(rows_view(rows@), team@, leaders, i as int),
        decreases rows@.len() - i,
    {
        assert(live@[i as int] == live_writer(rows_view(rows@), i as int));
        assert(dup_order@[i as int] == duplicate_order_at(rows_view(rows@), i as int));
        let counted = live[i] && !dup_order[i] && (!leaders || leader_flag_set(&rows[i]));
        if counted {
            let t = text_or_empty_of(&rows[i], "external_team_key");
            if str_eq(t.as_str(), team) {
                c = c + 1;
            }
        }
        i = i + 1;
    }
    c
}

/// Marks rows that conflict with other rows of the same upload or batch: a repeated key,
/// a repeated writer order within a Team, a Team with several leaders, and, when writers
/// are part of the upload, a Team without writers. Everything else about the rows stays.
pub fn validate_cross_rows(rows: &mut Vec<SourceRow>)
    ensures
        rows_view(final(rows)@) == cross_checked(rows_view(old(rows)@)),
{
    let ghost orig = rows@;
    let dups = key_duplicates(rows);
    let live = live_writers(rows, &dups);
    let dup_order = order_duplicates(rows, &live);
    let mut writer_rows = false;
    let mut k: usize = 0;
    while k < rows.len()
        invariant
            k <= rows@.len(),
            writer_rows == exists|j: int| 0 <= j < k && #[trigger] rows_view(rows@)[j].table == "paper_team_writers"@,
        decreases rows@.len() - k,
    {
        assert(rows_view(rows@)[k as int] == row_view(rows@[k as int]));
        let is_writer = str_eq(rows[k].table.as_str(), "paper_team_writers");
        assert(is_writer == (rows_view(rows@)[k as int].table == "paper_team_writers"@));
        if is_writer {
            writer_rows = true;
        }
        k = k + 1;
    }
    let mut out: Vec<SourceRow> = Vec::new();
    let mut i: usize = 0;
    while i < rows.len()
        invariant
            rows@ == orig,
            dups@.len() == rows@.len(),
            live@.len() == rows@.len(),
            dup_order@.len() == rows@.len(),
            forall|j: int| 0 <= j < rows@.len() ==> #[trigger] dups@[j] == duplicate_key_at(rows_view(rows@), j),
            forall|j: int| 0 <= j < rows@.len() ==> #[trigger] live@[j] == live_writer(rows_view(rows@), j),
            forall|j: int| 0 <= j < rows@.len() ==> #[trigger] dup_order@[j] == duplicate_order_at(rows_view(rows@), j),
            writer_rows == has_writer_rows(rows_view(rows@)),
            i <= rows@.len(),
            out@.len() == i,
            forall|j: int| 0 <= j < i ==> #[trigger] row_view(out@[j]) == cross_checked(rows_view(rows@))[j],
        decreases rows@.len() - i,
    {
        let r = &rows[i];
        assert(dups@[i as int] == duplicate_key_at(rows_view(rows@), i as int));
        assert(dup_order@[i as int] == duplicate_order_at(rows_view(rows@), i as int));
        let key_error: Option<RowError> = if dups[i] {
            Some(RowError {
                code: "DUPLICATE_KEY".to_owned(),
                message: "duplicate primary key within import source".to_owned(),
            })
        } else {
            match &r.error {
                Some(e) => Some(RowError { code: e.code.clone(), message: e.message.clone() }),
                None => None,
            }
        };
        assert(rows_view(rows@)[i as int] == row_view(*r));
        assert(error_view(key_error) == key_checked_error(rows_view(rows@), i as int));
        let error: Option<RowError> = if dup_order[i] {
            Some(RowError {
                code: "DUPLICATE_WRITER_ORDER".to_owned(),
                message: "writer_order must be unique per Team".to_owned(),
            })
        } else if str_eq(r.table.as_str(), "paper_teams") && key_error.is_none() {
            let team = text_or_empty_of(r, "external_team_key");
            let leaders = count_for_team(rows, &live, &dup_order, team.as_str(), true);
            if leaders > 1 {
                Some(RowError {
                    code: "MULTIPLE_LEADERS".to_owned(),
                    message: "Team has more than one imported Leader".to_owned(),
                })
            } else if writer_rows && count_for_team(rows, &live, &dup_order, team.as_str(), false) == 0 {
                Some(RowError { code: "TEAM_HAS_NO_WRITER".to_owned(), message: "Team has no Writer row".to_owned() })
            } else {
                None
            }
        } else {
            key_error
        };
        out.push(with_error(r, error));
        i = i + 1;
    }
    assert(rows_view(out@) =~= cross_checked(rows_view(orig)));
    *rows = out;
}

} // verus!
