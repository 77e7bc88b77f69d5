//! Reading back the Front Matter state recorded with a paper version: the pin, the field
//! values and the section switches that restoring the version writes again.
use crate::error::V2Error;
use crate::governance::is_integrity;
use crate::import_values::{parse_uuid, uuid_text, uuid_value};
use crate::working_tree::{clone_opt_string, clone_string, opt_view};
use vstd::prelude::*;

verus! {

/// The pin recorded in a version's Front Matter state. Each field is absent when the
/// recorded pin lacks it or, for the text fields, holds something other than text.
pub struct PinRecord {
    pub front_matter_pack_id: Option<String>,
    pub dominant_programme_code: Option<String>,
    pub resolution_method: Option<String>,
    pub status: Option<String>,
    /// The recorded list of missing required fields, as JSON text.
    pub missing_required_fields: Option<String>,
    pub last_error: Option<String>,
}

/// A recorded field value; `value_json` is the recorded value as JSON text.
pub struct ValueRecord {
    pub field_key: Option<String>,
    pub value_json: Option<String>,
    pub value_source: Option<String>,
}

/// A recorded section switch.
pub struct SectionRecord {
    pub section_key: Option<String>,
    pub enabled: Option<bool>,
}

/// The Front Matter state recorded with a version.
pub struct FrontMatterState {
    pub schema_version: Option<u64>,
    pub pin: Option<PinRecord>,
    pub values: Vec<ValueRecord>,
    pub sections: Vec<SectionRecord>,
}

/// The pin a restore writes.
pub struct PinRow {
    pub front_matter_pack_id: u128,
    pub dominant_programme_code: Option<String>,
    pub resolution_method: String,
    pub status: String,
    pub missing_required_fields: String,
    pub last_error: Option<String>,
}

/// A field value a restore writes.
pub struct ValueRow {
    pub field_key: String,
    pub value_json: String,
    pub value_source: String,
}

/// A section switch a restore writes.
pub struct SectionRow {
    pub section_key: String,
    pub enabled: bool,
}

/// What a restore writes after clearing the paper's Front Matter: a pin, its values and
/// its sections.
pub struct FrontMatterRestore {
    pub pin: PinRow,
    pub values: Vec<ValueRow>,
    pub sections: Vec<SectionRow>,
}

/// What is wrong with a recorded value: its key, its value, then its source is missing.
pub open spec fn value_problem(v: ValueRecord) -> Option<Seq<char>> {
    if v.field_key is None {
        Some("Front Matter version value has no key"@)
    } else if v.value_json is None {
        Some("Front Matter version value has no value"@)
    } else if v.value_source is None {
        Some("Front Matter version value has no source"@)
    } else {
        None
    }
}

/// The problem of the first recorded value that has one.
pub open spec fn first_value_problem(vs: Seq<ValueRecord>) -> Option<Seq<char>>
    decreases vs.len(),
{
    if vs.len() == 0 {
        None
    } else if value_problem(vs[0]) is Some {
        value_problem(vs[0])
    } else {
        first_value_problem(vs.drop_first())
    }
}

/// What is wrong with a recorded section: its key, then its switch is missing.
pub open spec fn section_problem(s: SectionRecord) -> Option<Seq<char>> {
    if s.section_key is None {
        Some("Front Matter version section has no key"@)
    } else if s.enabled is None {
        Some("Front Matter version section has no enabled state"@)
    } else {
        None
    }
}

/// The problem of the first recorded section that has one.
pub open spec fn first_section_problem(ss: Seq<SectionRecord>) -> Option<Seq<char>>
    decreases ss.len(),
{
    if ss.len() == 0 {
        None
    } else if section_problem(ss[0]) is Some {
        section_problem(ss[0])
    } else {
        first_section_problem(ss.drop_first())
    }
}

/// The recorded pin names its pack by a UUID.
pub open spec fn pack_id_valid(p: PinRecord) -> bool {
    p.front_matter_pack_id matches Some(t) && uuid_text(t@)
}

/// Why a recorded state cannot be restored, checked in order: its schema version, its
/// pin, the pin's pack and resolution method, its values, then its sections.
pub open spec fn state_problem(s: FrontMatterState) -> Option<Seq<char>> {
    if s.schema_version != Some(1u64) {
        Some("invalid Front Matter version state"@)
    } else if s.pin is None {
        Some("Front Matter version state has no pin"@)
    } else if !pack_id_valid(s.pin->Some_0) {
        Some("Front Matter version state has invalid front_matter_pack_id"@)
    } else if s.pin->Some_0.resolution_method is None {
        Some("Front Matter version state has no resolution method"@)
    } else if first_value_problem(s.values@) is Some {
        first_value_problem(s.values@)
    } else {
        first_section_problem(s.sections@)
    }
}

/// The pin row written for a recorded pin: an absent status is `READY` and an absent list
/// of missing fields is empty.
pub open spec fn pin_restored(row: PinRow, p: PinRecord) -> bool {
    &&& row.front_matter_pack_id == uuid_value(p.front_matter_pack_id->Some_0@)
    &&& opt_view(row.dominant_programme_code) == opt_view(p.dominant_programme_code)
    &&& row.resolution_method@ == p.resolution_method->Some_0@
    &&& row.status@ == (match p.status {
        Some(x) => x@,
        None => "READY"@,
    })
    &&& row.missing_required_fields@ == (match p.missing_required_fields {
        Some(x) => x@,
        None => "[]"@,
    })
    &&& opt_view(row.last_error) == opt_view(p.last_error)
}

/// The value row written for a recorded value.
pub open spec fn value_restored(row: ValueRow, v: ValueRecord) -> bool {
    &&& row.field_key@ == v.field_key->Some_0@
    &&& row.value_json@ == v.value_json->Some_0@
    &&& row.value_source@ == v.value_source->Some_0@
}

/// The section row written for a recorded section.
pub open spec fn section_restored(row: SectionRow, s: SectionRecord) -> bool {
    &&& row.section_key@ == s.section_key->Some_0@
    &&& row.enabled == s.enabled->Some_0
}

/// The rows written for a recorded state: its pin, and its values and sections in order.
pub open spec fn state_restored(r: FrontMatterRestore, s: FrontMatterState) -> bool {
    &&& pin_restored(r.pin, s.pin->Some_0)
    &&& r.values@.len() == s.values@.len()
    &&& (forall|i: int| 0 <= i < s.values@.len() ==> value_restored(#[trigger] r.values@[i], s.values@[i]))
    &&& r.sections@.len() == s.sections@.len()
    &&& (forall|i: int|
        0 <= i < s.sections@.len() ==> section_restored(#[trigger] r.sections@[i], s.sections@[i]))
}

proof fn lemma_value_problem_step(vs: Seq<ValueRecord>, i: int)
    requires
        0 <= i < vs.len(),
        value_problem(vs[i]) is None,
    ensures
        first_value_problem(vs.subrange(i, vs.len() as int)) == first_value_problem(
            vs.subrange(i + 1, vs.len() as int),
        ),
{
    assert(vs.subrange(i, vs.len() as int).drop_first() =~= vs.subrange(i + 1, vs.len() as int));
}

proof fn lemma_section_problem_step(ss: Seq<SectionRecord>, i: int)
    requires
        0 <= i < ss.len(),
        section_problem(ss[i]) is None,
    ensures
        first_section_problem(ss.subrange(i, ss.len() as int)) == first_section_problem(
            ss.subrange(i + 1, ss.len() as int),
        ),
{
    assert(ss.subrange(i, ss.len() as int).drop_first() =~= ss.subrange(i + 1, ss.len() as int));
}

/// The value rows of the recorded values, or the problem of the first faulty one.
fn restore_values(vs: &Vec<ValueRecord>) -> (r: Result<Vec<ValueRow>, V2Error>)
    ensures
        match first_value_problem(vs@) {
            Some(m) => r matches Err(e) && is_integrity(e, m),
            None => r matches Ok(rows) && rows@.len() == vs@.len() && forall|i: int|
                0 <= i < vs@.len() ==> value_restored(#[trigger] rows@[i], vs@[i]),
        },
{
    let mut rows: Vec<ValueRow> = Vec::new();
    let mut i: usize = 0;
    assert(vs@.subrange(0, vs@.len() as int) =~= vs@);
    while i < vs.len()
        invariant
            i <= vs@.len(),
            first_value_problem(vs@) == first_value_problem(vs@.subrange(i as int, vs@.len() as int)),
            rows@.len() == i,
            forall|k: int| 0 <= k < i ==> value_restored(#[trigger] rows@[k], vs@[k]),
        decreases vs@.len() - i,
    {
        let v = &vs[i];
        let ghost rest = vs@.subrange(i as int, vs@.len() as int);
        assert(rest[0] == vs@[i as int]);
        let key = match &v.field_key {
            Some(k) => clone_string(k),
            None => {
                return Err(V2Error::Integrity { message: "Front Matter version value has no key".to_owned() });
            },
        };
        let value = match &v.value_json {
            Some(x) => clone_string(x),
            None => {
                return Err(V2Error::Integrity { message: "Front Matter version value has no value".to_owned() });
            },
        };
        let source = match &v.value_source {
            Some(x) => clone_string(x),
            None => {
                return Err(V2Error::Integrity { message: "Front Matter version value has no source".to_owned() });
            },
        };
        proof {
            lemma_value_problem_step(vs@, i as int);
        }
        rows.push(ValueRow { field_key: key, value_json: value, value_source: source });
        i = i + 1;
    }
    assert(vs@.subrange(vs@.len() as int, vs@.len() as int).len() == 0);
    Ok(rows)
}

/// The section rows of the recorded sections, or the problem of the first faulty one.
fn restore_sections(ss: &Vec<SectionRecord>) -> (r: Result<Vec<SectionRow>, V2Error>)
    ensures
        match first_section_problem(ss@) {
            Some(m) => r matches Err(e) && is_integrity(e, m),
            None => r matches Ok(rows) && rows@.len() == ss@.len() && forall|i: int|
                0 <= i < ss@.len() ==> section_restored(#[trigger] rows@[i], ss@[i]),
        },
{
    let mut rows: Vec<SectionRow> = Vec::new();
    let mut i: usize = 0;
    assert(ss@.subrange(0, ss@.len() as int) =~= ss@);
    while i < ss.len()
        invariant
            i <= ss@.len(),
            first_section_problem(ss@) == first_section_problem(ss@.subrange(i as int, ss@.len() as int)),
            rows@.len() == i,
            forall|k: int| 0 <= k < i ==> section_restored(#[trigger] rows@[k], ss@[k]),
        decreases ss@.len() - i,
    {
        let s = &ss[i];
        let ghost rest = ss@.subrange(i as int, ss@.len() as int);
        assert(rest[0] == ss@[i as int]);
        let key = match &s.section_key {
            Some(k) => clone_string(k),
            None => {
                return Err(V2Error::Integrity { message: "Front Matter version section has no key".to_owned() });
            },
        };
        let enabled = match s.enabled {
            Some(b) => b,
            None => {
                return Err(
                    V2Error::Integrity { message: "Front Matter version section has no enabled state".to_owned() },
                );
            },
        };
        proof {
            lemma_section_problem_step(ss@, i as int);
        }
        rows.push(SectionRow { section_key: key, enabled });
        i = i + 1;
    }
    assert(ss@.subrange(ss@.len() as int, ss@.len() as int).len() == 0);
    Ok(rows)
}

/// Plans the restore of the Front Matter state recorded with a version. Without a
/// recorded state the paper's Front Matter is only cleared; a recorded state is checked
/// and turned into the rows written back.
pub fn plan_front_matter_restore(state: &Option<FrontMatterState>) -> (r: Result<
    Option<FrontMatterRestore>,
    V2Error,
>)
    ensures
        match state {
            None => r matches Ok(None),
            Some(s) => match state_problem(*s) {
                Some(m) => r matches Err(e) && is_integrity(e, m),
                None => r matches Ok(Some(p)) && state_restored(p, *s),
            },
        },
{
    let s = match state {
        None => { return Ok(None); },
        Some(s) => s,
    };
    if s.schema_version != Some(1u64) {
        return Err(V2Error::Integrity { message: "invalid Front Matter version state".to_owned() });
    }
    let pin = match &s.pin {
        Some(p) => p,
        None => {
            return Err(V2Error::Integrity { message: "Front Matter version state has no pin".to_owned() });
        },
    };
    let pack_id = match &pin.front_matter_pack_id {
        Some(t) => parse_uuid(t.as_str()),
        None => None,
    };
    let pack_id = match pack_id {
        Some(id) => id,
        None => {
            return Err(
                V2Error::Integrity {
                    message: "Front Matter version state has invalid front_matter_pack_id".to_owned(),
                },
            );
        },
    };
    let method = match &pin.resolution_method {
        Some(m) => clone_string(m),
        None => {
            return Err(
                V2Error::Integrity { message: "Front Matter version state has no resolution method".to_owned() },
            );
        },
    };
    let status = match &pin.status {
        Some(x) => clone_string(x),
        None => "READY".to_owned(),
    };
    let missing = match &pin.missing_required_fields {
        Some(x) => clone_string(x),
        None => "[]".to_owned(),
    };
    let values = match restore_values(&s.values) {
        Ok(v) => v,
        Err(e) => { return Err(e); },
    };
    let sections = match restore_sections(&s.sections) {
        Ok(v) => v,
        Err(e) => { return Err(e); },
    };
    let row = PinRow {
        front_matter_pack_id: pack_id,
        dominant_programme_code: clone_opt_string(&pin.dominant_programme_code),
        resolution_method: method,
        status,
        missing_required_fields: missing,
        last_error: clone_opt_string(&pin.last_error),
    };
    Ok(Some(FrontMatterRestore { pin: row, values, sections }))
}

} // verus!
