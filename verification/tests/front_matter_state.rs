use persistence::front_matter_state::{
    plan_front_matter_restore, FrontMatterState, PinRecord, SectionRecord, ValueRecord,
};
use persistence::V2Error;

fn some(text: &str) -> Option<String> {
    Some(text.to_owned())
}

fn pin() -> PinRecord {
    PinRecord {
        front_matter_pack_id: some("6f9619ff-8b86-d011-b42d-00cf4fc964ff"),
        dominant_programme_code: some("CSE"),
        resolution_method: some("MODE"),
        status: None,
        missing_required_fields: None,
        last_error: None,
    }
}

fn state() -> FrontMatterState {
    FrontMatterState {
        schema_version: Some(1),
        pin: Some(pin()),
        values: vec![ValueRecord {
            field_key: some("title"),
            value_json: some("\"A study\""),
            value_source: some("MANUAL"),
        }],
        sections: vec![SectionRecord { section_key: some("abstract"), enabled: Some(true) }],
    }
}

fn integrity(message: &str) -> V2Error {
    V2Error::Integrity { message: message.to_owned() }
}

#[test]
fn recorded_state_is_written_back() {
    let plan = plan_front_matter_restore(&Some(state())).expect("valid").expect("a state");
    assert_eq!(plan.pin.front_matter_pack_id, 0x6f9619ff_8b86_d011_b42d_00cf4fc964ff);
    assert_eq!(plan.pin.dominant_programme_code.as_deref(), Some("CSE"));
    assert_eq!(plan.pin.resolution_method, "MODE");
    assert_eq!(plan.pin.status, "READY");
    assert_eq!(plan.pin.missing_required_fields, "[]");
    assert_eq!(plan.values.len(), 1);
    assert_eq!(plan.values[0].field_key, "title");
    assert_eq!(plan.values[0].value_json, "\"A study\"");
    assert_eq!(plan.sections[0].section_key, "abstract");
    assert!(plan.sections[0].enabled);
}

#[test]
fn absent_state_only_clears() {
    assert!(matches!(plan_front_matter_restore(&None), Ok(None)));
}

#[test]
fn faulty_states_are_refused_in_order() {
    let mut s = state();
    s.schema_version = Some(2);
    assert_eq!(plan_front_matter_restore(&Some(s)).err(), Some(integrity("invalid Front Matter version state")));

    let mut s = state();
    s.pin = None;
    assert_eq!(plan_front_matter_restore(&Some(s)).err(), Some(integrity("Front Matter version state has no pin")));

    let mut s = state();
    s.pin.as_mut().unwrap().front_matter_pack_id = some("not-a-uuid");
    assert_eq!(
        plan_front_matter_restore(&Some(s)).err(),
        Some(integrity("Front Matter version state has invalid front_matter_pack_id"))
    );

    let mut s = state();
    s.pin.as_mut().unwrap().resolution_method = None;
    assert_eq!(
        plan_front_matter_restore(&Some(s)).err(),
        Some(integrity("Front Matter version state has no resolution method"))
    );

    let mut s = state();
    s.values.push(ValueRecord { field_key: some("x"), value_json: None, value_source: None });
    s.sections.push(SectionRecord { section_key: None, enabled: None });
    assert_eq!(
        plan_front_matter_restore(&Some(s)).err(),
        Some(integrity("Front Matter version value has no value"))
    );

    let mut s = state();
    s.sections.push(SectionRecord { section_key: some("ack"), enabled: None });
    assert_eq!(
        plan_front_matter_restore(&Some(s)).err(),
        Some(integrity("Front Matter version section has no enabled state"))
    );
}
