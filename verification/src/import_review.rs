//! Applying and reviewing institutional imports: when a job or batch may be applied and
//! in which table order, and how a batch's pending edits are shown to the administrator who reviews it.
use crate::import_catalog::{
    apply_order, apply_order_names, import_mode_from_upper, institution_table_names, invalid_input,
    operation_from_upper, operation_mode, strs_view, table_spec, table_spec_of, ImportMode,
    InstitutionError, InstitutionOperation,
};
use crate::import_values::{
    clone_value, field_value, payload_get, payload_view, FieldValue, FieldView, PayloadField,
};
use crate::text::{
    ascii_upper_seq, chars_of, concat_str, insert_sorted_unique, is_white_space, is_whitespace_char,
    lemma_ascending_unique, str_eq, strictly_ascending, string_from_chars, string_views, trim_spec,
};
use crate::working_tree::clone_string;
use vstd::prelude::*;

verus! {

/// What applying a validated import does.
#[derive(Copy, Clone, Debug, PartialEq, Eq, Structural)]
pub enum ApplyGate {
    /// It was applied before; the stored result stands.
    AlreadyApplied,
    /// Its rows are applied in this mode.
    Apply(ImportMode),
}

/// A conflict whose message is `m`.
pub open spec fn is_conflict_text(e: InstitutionError, m: Seq<char>) -> bool {
    e matches InstitutionError::Conflict(x) && x@ == m
}

/// The job or batch was applied before, completely or in part.
pub open spec fn already_applied(status: Seq<char>) -> bool {
    status == "APPLIED"@ || status == "PARTIAL"@
}

/// Decides whether an import job with stored `mode`, `status` and count of erroneous
/// rows may be applied: a validate-only job never; an applied one stands as it is; only
/// an error-free validated job is applied, in its mode.
pub fn check_job_apply(mode: &str, status: &str, error_rows: i64) -> (r: Result<ApplyGate, InstitutionError>)
    ensures
        mode@ == "VALIDATE_ONLY"@ ==> (r matches Err(e) && is_conflict_text(
            e,
            "VALIDATE_ONLY jobs cannot be applied"@,
        )),
        mode@ != "VALIDATE_ONLY"@ && already_applied(status@) ==> r == Ok::<
            ApplyGate,
            InstitutionError,
        >(ApplyGate::AlreadyApplied),
        mode@ != "VALIDATE_ONLY"@ && !already_applied(status@) && (status@ != "VALIDATED"@
            || error_rows != 0) ==> (r matches Err(e) && is_conflict_text(
            e,
            "only error-free VALIDATED jobs can be applied"@,
        )),
        mode@ != "VALIDATE_ONLY"@ && status@ == "VALIDATED"@ && error_rows == 0 ==> match import_mode_from_upper(
            ascii_upper_seq(mode@),
        ) {
            Some(m) => r == Ok::<ApplyGate, InstitutionError>(ApplyGate::Apply(m)),
            None => r matches Err(e) && invalid_input(e, "unknown import mode"@),
        },
{
    proof {
        reveal_strlit("VALIDATED");
        reveal_strlit("APPLIED");
        reveal_strlit("PARTIAL");
        assert("VALIDATED"@[0] != "APPLIED"@[0]);
        assert("VALIDATED"@[0] != "PARTIAL"@[0]);
    }
    if str_eq(mode, "VALIDATE_ONLY") {
        return Err(InstitutionError::Conflict("VALIDATE_ONLY jobs cannot be applied".to_owned()));
    }
    if str_eq(status, "APPLIED") || str_eq(status, "PARTIAL") {
        return Ok(ApplyGate::AlreadyApplied);
    }
    if !str_eq(status, "VALIDATED") || error_rows != 0 {
        return Err(
            InstitutionError::Conflict("only error-free VALIDATED jobs can be applied".to_owned()),
        );
    }
    match ImportMode::parse(mode) {
        Ok(m) => Ok(ApplyGate::Apply(m)),
        Err(e) => Err(e),
    }
}

/// Decides whether an import batch with stored `operation`, `status` and count of
/// erroneous rows may be applied: an applied one stands as it is; only an error-free
/// validated batch is applied, in the mode of its operation.
pub fn check_batch_apply(operation: &str, status: &str, error_rows: i64) -> (r: Result<
    ApplyGate,
    InstitutionError,
>)
    ensures
        already_applied(status@) ==> r == Ok::<ApplyGate, InstitutionError>(ApplyGate::AlreadyApplied),
        !already_applied(status@) && (status@ != "VALIDATED"@ || error_rows != 0) ==> (r matches Err(
            e,
        ) && is_conflict_text(e, "only an error-free reviewed batch can be applied"@)),
        status@ == "VALIDATED"@ && error_rows == 0 ==> match operation_from_upper(
            ascii_upper_seq(trim_spec(operation@)),
        ) {
            Some(o) => r == Ok::<ApplyGate, InstitutionError>(ApplyGate::Apply(operation_mode(o))),
            None => r matches Err(e) && invalid_input(e, "operation must be ADD, EDIT, or DELETE"@),
        },
{
    proof {
        reveal_strlit("VALIDATED");
        reveal_strlit("APPLIED");
        reveal_strlit("PARTIAL");
        assert("VALIDATED"@[0] != "APPLIED"@[0]);
        assert("VALIDATED"@[0] != "PARTIAL"@[0]);
    }
    if str_eq(status, "APPLIED") || str_eq(status, "PARTIAL") {
        return Ok(ApplyGate::AlreadyApplied);
    }
    if !str_eq(status, "VALIDATED") || error_rows != 0 {
        return Err(
            InstitutionError::Conflict("only an error-free reviewed batch can be applied".to_owned()),
        );
    }
    match InstitutionOperation::parse(operation) {
        Ok(o) => Ok(ApplyGate::Apply(o.mode())),
        Err(e) => Err(e),
    }
}

/// The order in which tables are applied: referenced tables first, and the reverse for
/// deletions, so that dependents go before what they depend on.
pub open spec fn table_order(mode: ImportMode) -> Seq<Seq<char>> {
    if mode == ImportMode::DeleteOnly {
        apply_order_names().reverse()
    } else {
        apply_order_names()
    }
}

/// The order in which tables are applied in `mode`.
pub fn apply_order_for(mode: ImportMode) -> (v: Vec<&'static str>)
    ensures
        strs_view(v@) == table_order(mode),
{
    let order = apply_order();
    if !matches!(mode, ImportMode::DeleteOnly) {
        return order;
    }
    let mut out: Vec<&'static str> = Vec::new();
    let mut k: usize = order.len();
    let ghost ov = strs_view(order@);
    while k > 0
        invariant
            ov == strs_view(order@),
            ov == apply_order_names(),
            k <= order@.len(),
            strs_view(out@) == ov.subrange(k as int, ov.len() as int).reverse(),
        decreases k,
    {
        let ghost before = strs_view(out@);
        out.push(order[k - 1]);
        proof {
            assert(strs_view(out@) =~= before.push(ov[k - 1]));
            assert(ov.subrange(k - 1, ov.len() as int).reverse() =~= ov.subrange(
                k as int,
                ov.len() as int,
            ).reverse().push(ov[k - 1]));
        }
        k = k - 1;
    }
    assert(ov.subrange(0, ov.len() as int) =~= ov);
    out
}

/// Applying a deletion visits the tables in exactly the reverse order of an addition.
pub proof fn law_deletion_order_reverses(m: ImportMode)
    requires
        m != ImportMode::DeleteOnly,
    ensures
        table_order(ImportMode::DeleteOnly) == table_order(m).reverse(),
{
}

/// How many problem or change rows a batch review shows: 1 to 200.
pub fn review_row_limit(limit: i64) -> (r: i64)
    ensures
        r == (if limit < 1 {
            1
        } else if limit > 200 {
            200
        } else {
            limit
        }),
{
    if limit < 1 {
        1
    } else if limit > 200 {
        200
    } else {
        limit
    }
}

/// A field that an edit changes: its stored value and the uploaded one.
pub struct FieldChange {
    pub field: String,
    pub old: FieldValue,
    pub new: FieldValue,
}

/// The value of a field change.
pub open spec fn change_view(c: FieldChange) -> (Seq<char>, FieldView, FieldView) {
    (c.field@, c.old@, c.new@)
}

/// The values of field changes.
pub open spec fn changes_view(cs: Seq<FieldChange>) -> Seq<(Seq<char>, FieldView, FieldView)> {
    cs.map_values(|c: FieldChange| change_view(c))
}

/// The stored value of field `name`: null when the record lacks it.
pub open spec fn old_value(existing: Option<Seq<(Seq<char>, FieldView)>>, name: Seq<char>) -> FieldView {
    match existing {
        Some(e) => match payload_get(e, name) {
            Some(v) => v,
            None => FieldView::Null,
        },
        None => FieldView::Null,
    }
}

/// The fields of an uploaded row that differ from the stored record, in the row's order;
/// the action marker and the key fields are not shown.
pub open spec fn changed_fields(
    keys: Seq<Seq<char>>,
    payload: Seq<(Seq<char>, FieldView)>,
    existing: Option<Seq<(Seq<char>, FieldView)>>,
) -> Seq<(Seq<char>, FieldView, FieldView)>
    decreases payload.len(),
{
    if payload.len() == 0 {
        Seq::empty()
    } else {
        let rest = changed_fields(keys, payload.drop_last(), existing);
        let (name, new) = payload.last();
        let old = old_value(existing, name);
        if name != "__action"@ && !keys.contains(name) && old != new {
            rest.push((name, old, new))
        } else {
            rest
        }
    }
}

/// The view of an optional stored record.
pub open spec fn opt_payload(p: Option<Vec<PayloadField>>) -> Option<Seq<(Seq<char>, FieldView)>> {
    match p {
        Some(v) => Some(payload_view(v@)),
        None => None,
    }
}

fn same_value(a: &FieldValue, b: &FieldValue) -> (r: bool)
    ensures
        r == (a@ == b@),
{
    match (a, b) {
        (FieldValue::Null, FieldValue::Null) => true,
        (FieldValue::Text(x), FieldValue::Text(y)) => str_eq(x.as_str(), y.as_str()),
        (FieldValue::Flag(x), FieldValue::Flag(y)) => *x == *y,
        _ => false,
    }
}

fn is_key(keys: &Vec<&'static str>, name: &str) -> (b: bool)
    ensures
        b == strs_view(keys@).contains(name@),
{
    let ghost kv = strs_view(keys@);
    let mut i: usize = 0;
    while i < keys.len()
        invariant
            kv == strs_view(keys@),
            i <= keys@.len(),
            forall|j: int| 0 <= j < i ==> kv[j] != name@,
        decreases keys@.len() - i,
    {
        assert(kv[i as int] == keys@[i as int]@);
        if str_eq(keys[i], name) {
            return true;
        }
        i = i + 1;
    }
    false
}

/// The fields an uploaded row of `source` changes against the stored record.
pub fn field_changes(source: &str, payload: &Vec<PayloadField>, existing: &Option<Vec<PayloadField>>) -> (r: Vec<FieldChange>)
    requires
        institution_table_names().contains(source@),
    ensures
        changes_view(r@) == changed_fields(
            table_spec_of(source@).keys,
            payload_view(payload@),
            opt_payload(*existing),
        ),
{
    let spec = table_spec(source);
    let ghost keys = table_spec_of(source@).keys;
    let ghost pv = payload_view(payload@);
    let ghost ev = opt_payload(*existing);
    let mut out: Vec<FieldChange> = Vec::new();
    let mut i: usize = 0;
    assert(changes_view(out@) =~= Seq::<(Seq<char>, FieldView, FieldView)>::empty());
    while i < payload.len()
        invariant
            strs_view(spec.keys@) == keys,
            keys == table_spec_of(source@).keys,
            pv == payload_view(payload@),
            ev == opt_payload(*existing),
            i <= payload@.len(),
            changes_view(out@) == changed_fields(keys, pv.take(i as int), ev),
        decreases payload@.len() - i,
    {
        let f = &payload[i];
        proof {
            assert(pv.take(i + 1).drop_last() =~= pv.take(i as int));
            assert(pv.take(i + 1).last() == (f.name@, f.value@));
        }
        let old = match existing {
            Some(e) => match crate::import_values::find_field(e, f.name.as_str()) {
                Some(k) => clone_value(&e[k].value),
                None => FieldValue::Null,
            },
            None => FieldValue::Null,
        };
        proof {
            match existing {
                Some(e) => {
                    let k = crate::import_values::field_index(payload_view(e@), f.name@, 0);
                    if k >= 0 {
                        assert(payload_view(e@)[k] == (e@[k].name@, e@[k].value@));
                    }
                },
                None => {},
            }
        }
        if !str_eq(f.name.as_str(), "__action") && !is_key(&spec.keys, f.name.as_str()) && !same_value(&old, &f.value) {
            let ghost before = changes_view(out@);
            out.push(FieldChange { field: clone_string(&f.name), old, new: clone_value(&f.value) });
            assert(changes_view(out@) =~= before.push((f.name@, old_value(ev, f.name@), f.value@)));
        }
        i = i + 1;
    }
    assert(pv.take(payload@.len() as int) =~= pv);
    out
}

/// The note shown when an edit moves a student to another programme.
pub open spec fn programme_note() -> Seq<char> {
    "Programme changed. Existing Team template remains pinned."@
}

/// The note shown for the changes of a row of `source`.
pub fn template_effect(source: &str, changes: &Vec<FieldChange>) -> (r: Option<&'static str>)
    ensures
        (source@ == "students"@ && exists|i: int| 0 <= i < changes@.len() && #[trigger] changes@[i].field@ == "programme_code"@) ==> (r matches Some(s) && s@ == programme_note()),
        !(source@ == "students"@ && exists|i: int| 0 <= i < changes@.len() && #[trigger] changes@[i].field@ == "programme_code"@) ==> r is None,
{
    if !str_eq(source, "students") {
        return None;
    }
    let mut i: usize = 0;
    while i < changes.len()
        invariant
            source@ == "students"@,
            i <= changes@.len(),
            forall|j: int| 0 <= j < i ==> #[trigger] changes@[j].field@ != "programme_code"@,
        decreases changes@.len() - i,
    {
        if str_eq(changes[i].field.as_str(), "programme_code") {
            return Some("Programme changed. Existing Team template remains pinned.");
        }
        i = i + 1;
    }
    None
}

/// How a key value reads: its text, or its JSON form.
pub open spec fn key_text(v: FieldView) -> Seq<char> {
    match v {
        FieldView::Text(s) => s,
        FieldView::Null => "null"@,
        FieldView::Flag(b) => if b {
            "true"@
        } else {
            "false"@
        },
    }
}

/// Texts joined by `sep`.
pub open spec fn joined(parts: Seq<Seq<char>>, sep: Seq<char>) -> Seq<char>
    decreases parts.len(),
{
    if parts.len() == 0 {
        Seq::empty()
    } else if parts.len() == 1 {
        parts[0]
    } else {
        joined(parts.drop_last(), sep) + sep + parts.last()
    }
}

/// The names of a row's fields in ascending order, each once (the key order of a JSON
/// object).
pub open spec fn sorted_names(p: Seq<(Seq<char>, FieldView)>) -> Seq<Seq<char>> {
    choose|s: Seq<Seq<char>>|
        strictly_ascending(s) && forall|x: Seq<char>| #[trigger] s.contains(x) <==> names_of(p).contains(x)
}

/// The names of a row's fields, in order.
pub open spec fn names_of(p: Seq<(Seq<char>, FieldView)>) -> Seq<Seq<char>> {
    p.map_values(|f: (Seq<char>, FieldView)| f.0)
}

/// The value of field `name` as shown: its first value's text.
pub open spec fn shown_value(p: Seq<(Seq<char>, FieldView)>, name: Seq<char>) -> Seq<char> {
    key_text(
        match payload_get(p, name) {
            Some(v) => v,
            None => FieldView::Null,
        },
    )
}

/// The key of a row as shown: its values, in ascending key-name order, joined by a middle
/// dot.
pub open spec fn shown_key(natural_key: Seq<(Seq<char>, FieldView)>) -> Seq<char> {
    joined(sorted_names(natural_key).map_values(|n: Seq<char>| shown_value(natural_key, n)), " · "@)
}

/// The key of a row as shown in a batch review.
pub fn display_key(natural_key: &Vec<PayloadField>) -> (s: String)
    ensures
        s@ == shown_key(payload_view(natural_key@)),
{
    let ghost kv = payload_view(natural_key@);
    let mut names: Vec<String> = Vec::new();
    let mut i: usize = 0;
    while i < natural_key.len()
        invariant
            kv == payload_view(natural_key@),
            i <= natural_key@.len(),
            strictly_ascending(string_views(names@)),
            forall|x: Seq<char>| string_views(names@).contains(x) <==> names_of(kv).take(i as int).contains(x),
        decreases natural_key@.len() - i,
    {
        let ghost before = string_views(names@);
        let name = clone_string(&natural_key[i].name);
        assert(names_of(kv)[i as int] == name@);
        insert_sorted_unique(&mut names, name);
        proof {
            let t0 = names_of(kv).take(i as int);
            let t1 = names_of(kv).take(i + 1);
            assert(t1 =~= t0.push(names_of(kv)[i as int]));
            assert forall|x: Seq<char>| string_views(names@).contains(x) <==> t1.contains(x) by {
                if t1.contains(x) {
                    let k = choose|k: int| 0 <= k < t1.len() && #[trigger] t1[k] == x;
                    if k < i {
                        assert(t0[k] == x);
                    }
                }
                if t0.contains(x) {
                    let k = choose|k: int| 0 <= k < t0.len() && #[trigger] t0[k] == x;
                    assert(t1[k] == x);
                }
                if x == names_of(kv)[i as int] {
                    assert(t1[i as int] == x);
                }
            }
        }
        i = i + 1;
    }
    let ghost nv = string_views(names@);
    proof {
        assert(names_of(kv).take(kv.len() as int) =~= names_of(kv));
        let c = sorted_names(kv);
        assert(strictly_ascending(nv) && forall|x: Seq<char>| #[trigger] nv.contains(x) <==> names_of(kv).contains(x));
        lemma_ascending_unique(nv, c);
    }
    let ghost parts = nv.map_values(|n: Seq<char>| shown_value(kv, n));
    let mut out = String::new();
    let mut j: usize = 0;
    assert(parts.take(0) =~= Seq::<Seq<char>>::empty());
    while j < names.len()
        invariant
            kv == payload_view(natural_key@),
            nv == string_views(names@),
            parts == nv.map_values(|n: Seq<char>| shown_value(kv, n)),
            j <= names@.len(),
            out@ == joined(parts.take(j as int), " · "@),
        decreases names@.len() - j,
    {
        let value = field_value(natural_key, names[j].as_str());
        let text = match &value {
            FieldValue::Text(t) => clone_string(t),
            FieldValue::Null => "null".to_owned(),
            FieldValue::Flag(b) => if *b {
                "true".to_owned()
            } else {
                "false".to_owned()
            },
        };
        proof {
            assert(nv[j as int] == names@[j as int]@);
            assert(parts[j as int] == shown_value(kv, nv[j as int]));
            assert(text@ == parts[j as int]);
            assert(parts.take(j + 1).drop_last() =~= parts.take(j as int));
        }
        if j == 0 {
            out = text;
            assert(parts.take(1) =~= seq![parts[0]]);
        } else {
            let with_sep = concat_str(out.as_str(), " · ");
            out = concat_str(with_sep.as_str(), text.as_str());
        }
        j = j + 1;
    }
    assert(parts.take(names@.len() as int) =~= parts);
    out
}

/// What `char::to_uppercase` gives for `c`.
pub uninterp spec fn char_uppercase(c: char) -> Seq<char>;

/// `c.to_uppercase().collect::<String>()`: the upper-case form of a character; for an
/// ASCII lower-case letter, the matching capital.
#[verifier::external_body]
fn uppercase_char(c: char) -> (s: String)
    ensures
        s@ == char_uppercase(c),
        'a' <= c <= 'z' ==> s@ == seq![((c as u32) - 32) as char],
{
    c.to_uppercase().collect::<String>()
}

/// `s` without its trailing `s` characters.
pub open spec fn strip_trailing_s(s: Seq<char>) -> Seq<char>
    decreases s.len(),
{
    if s.len() > 0 && s.last() == 's' {
        strip_trailing_s(s.drop_last())
    } else {
        s
    }
}

/// `s` with underscores read as spaces.
pub open spec fn spaced(s: Seq<char>) -> Seq<char> {
    s.map_values(|c: char| if c == '_' {
        ' '
    } else {
        c
    })
}

/// The white-space separated words of `s`.
pub open spec fn words(s: Seq<char>) -> Seq<Seq<char>>
    decreases s.len(),
{
    if s.len() == 0 {
        Seq::empty()
    } else if is_white_space(s.last()) {
        words(s.drop_last())
    } else if s.len() >= 2 && !is_white_space(s[s.len() - 2]) && words(s.drop_last()).len() > 0 {
        let w = words(s.drop_last());
        w.update(w.len() - 1, w.last().push(s.last()))
    } else {
        words(s.drop_last()).push(seq![s.last()])
    }
}

/// A word with its first character in upper case.
pub open spec fn capitalized(w: Seq<char>) -> Seq<char> {
    if w.len() == 0 {
        w
    } else {
        char_uppercase(w[0]) + w.drop_first()
    }
}

/// A dataset's name as shown: the three team tables by name, any other in title case from
/// its table name, singular.
pub open spec fn dataset_title(table: Seq<char>) -> Seq<char> {
    if table == "paper_teams"@ {
        "Paper assignment"@
    } else if table == "paper_team_writers"@ {
        "Paper assignment Writer"@
    } else if table == "paper_team_mentors"@ {
        "Paper assignment Mentor"@
    } else {
        joined(words(spaced(strip_trailing_s(table))).map_values(|w: Seq<char>| capitalized(w)), " "@)
    }
}

fn capitalize(w: &Vec<char>) -> (s: String)
    requires
        w@.len() > 0,
    ensures
        s@ == capitalized(w@),
{
    let head = uppercase_char(w[0]);
    let mut rest: Vec<char> = Vec::new();
    let mut i: usize = 1;
    while i < w.len()
        invariant
            1 <= i <= w@.len(),
            rest@ == w@.subrange(1, i as int),
        decreases w@.len() - i,
    {
        rest.push(w[i]);
        assert(w@.subrange(1, i + 1) =~= w@.subrange(1, i as int).push(w@[i as int]));
        i = i + 1;
    }
    assert(w@.subrange(1, w@.len() as int) =~= w@.drop_first());
    let tail = string_from_chars(&rest);
    concat_str(head.as_str(), tail.as_str())
}

/// A dataset's name as shown in a batch review.
pub fn friendly_dataset(table: &str) -> (s: String)
    ensures
        s@ == dataset_title(table@),
{
    if str_eq(table, "paper_teams") {
        return "Paper assignment".to_owned();
    }
    if str_eq(table, "paper_team_writers") {
        return "Paper assignment Writer".to_owned();
    }
    if str_eq(table, "paper_team_mentors") {
        return "Paper assignment Mentor".to_owned();
    }
    let c = chars_of(table);
    let mut end: usize = c.len();
    proof {
        assert(c@.take(end as int) =~= c@);
    }
    while end > 0 && c[end - 1] == 's'
        invariant
            end <= c@.len(),
            strip_trailing_s(c@) == strip_trailing_s(c@.take(end as int)),
        decreases end,
    {
        assert(c@.take(end as int).drop_last() =~= c@.take(end - 1));
        end = end - 1;
    }
    let ghost stripped = c@.take(end as int);
    assert(strip_trailing_s(c@) == stripped);
    let ghost sp = spaced(stripped);
    let mut ws: Vec<Vec<char>> = Vec::new();
    let mut i: usize = 0;
    assert(sp.take(0) =~= Seq::<char>::empty());
    assert(ws@.map_values(|w: Vec<char>| w@) =~= words(sp.take(0)));
    while i < end
        invariant
            end <= c@.len(),
            stripped == c@.take(end as int),
            sp == spaced(stripped),
            i <= end,
            ws@.map_values(|w: Vec<char>| w@) == words(sp.take(i as int)),
            forall|k: int| 0 <= k < ws@.len() ==> #[trigger] ws@[k]@.len() > 0,
        decreases end - i,
    {
        let ch = if c[i] == '_' {
            ' '
        } else {
            c[i]
        };
        let ghost t1 = sp.take(i + 1);
        proof {
            assert(t1.drop_last() =~= sp.take(i as int));
            assert(t1.last() == ch);
            if i >= 1 {
                assert(t1[i - 1] == sp[i - 1]);
            }
        }
        let ghost before = ws@.map_values(|w: Vec<char>| w@);
        if is_whitespace_char(ch) {
        } else if i >= 1 && !is_whitespace_char(if c[i - 1] == '_' {
            ' '
        } else {
            c[i - 1]
        }) && ws.len() > 0 {
            let last = ws.len() - 1;
            let mut w = ws.pop().unwrap();
            w.push(ch);
            ws.push(w);
            proof {
                assert(ws@.map_values(|w: Vec<char>| w@) =~= before.update(
                    before.len() - 1,
                    before.last().push(ch),
                ));
            }
        } else {
            let mut w: Vec<char> = Vec::new();
            w.push(ch);
            ws.push(w);
            assert(ws@.map_values(|w: Vec<char>| w@) =~= before.push(seq![ch]));
        }
        i = i + 1;
    }
    assert(sp.take(end as int) =~= sp);
    let ghost wv = ws@.map_values(|w: Vec<char>| w@);
    let ghost caps = wv.map_values(|w: Seq<char>| capitalized(w));
    let mut out = String::new();
    let mut k: usize = 0;
    assert(caps.take(0) =~= Seq::<Seq<char>>::empty());
    while k < ws.len()
        invariant
            wv == ws@.map_values(|w: Vec<char>| w@),
            caps == wv.map_values(|w: Seq<char>| capitalized(w)),
            forall|j: int| 0 <= j < ws@.len() ==> #[trigger] ws@[j]@.len() > 0,
            k <= ws@.len(),
            out@ == joined(caps.take(k as int), " "@),
        decreases ws@.len() - k,
    {
        assert(ws@[k as int]@.len() > 0);
        let word = capitalize(&ws[k]);
        proof {
            assert(caps[k as int] == capitalized(ws@[k as int]@));
            assert(caps.take(k + 1).drop_last() =~= caps.take(k as int));
        }
        if k == 0 {
            out = word;
            assert(caps.take(1) =~= seq![caps[0]]);
        } else {
            let with_sep = concat_str(out.as_str(), " ");
            out = concat_str(with_sep.as_str(), word.as_str());
        }
        k = k + 1;
    }
    assert(caps.take(ws@.len() as int) =~= caps);
    out
}

} // verus!
