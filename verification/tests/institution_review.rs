use persistence::identity_links::{
    check_identity_link, check_identity_unlink, identity_kind, link_statement, manual_upload,
    person_query, unlink_statement,
};
use persistence::import_catalog::{ImportLimits, ImportMode, InstitutionError};
use persistence::import_checks::{
    assign_actions, block_deletion, dependency_lookup, validate_references, ExistingRecord,
    ReferenceSets,
};
use persistence::import_parse::parse_csv;
use persistence::import_review::{
    apply_order_for, check_batch_apply, check_job_apply, display_key, field_changes,
    friendly_dataset, review_row_limit, template_effect, ApplyGate,
};
use persistence::import_rows::SourceRow;
use persistence::import_sql::{
    apply_query, apply_statements, delete_query, link_delete_query, update_query,
};
use persistence::import_values::{FieldValue, PayloadField};
use persistence::team_import::{
    check_team_merge, join_reasons, merge_writer_orders, plan_imported_team, resolve_template,
    ImportedTeamPlan, MentorLink, WriterLink,
};

fn field(name: &str, value: &str) -> PayloadField {
    PayloadField { name: name.to_owned(), value: FieldValue::Text(value.to_owned()) }
}

fn students(csv: &[u8], mode: ImportMode) -> Vec<SourceRow> {
    parse_csv("students.csv", None, csv, &ImportLimits::default(), mode, 0).expect("CSV parses")
}

fn action(row: &SourceRow) -> Option<String> {
    row.payload.iter().find(|f| f.name == "__action").and_then(|f| match &f.value {
        FieldValue::Text(t) => Some(t.clone()),
        _ => None,
    })
}

fn no_references() -> ReferenceSets {
    ReferenceSets {
        departments: vec![],
        programmes: vec![],
        schools: vec![],
        faculty: vec![],
        students: vec![],
        teams: vec![],
    }
}

#[test]
fn job_apply_gate_follows_mode_and_status() {
    assert_eq!(
        check_job_apply("VALIDATE_ONLY", "VALIDATED", 0),
        Err(InstitutionError::Conflict("VALIDATE_ONLY jobs cannot be applied".to_owned()))
    );
    assert_eq!(check_job_apply("MERGE", "APPLIED", 3), Ok(ApplyGate::AlreadyApplied));
    assert_eq!(check_job_apply("MERGE", "PARTIAL", 0), Ok(ApplyGate::AlreadyApplied));
    assert_eq!(
        check_job_apply("MERGE", "VALIDATED", 1),
        Err(InstitutionError::Conflict("only error-free VALIDATED jobs can be applied".to_owned()))
    );
    assert_eq!(check_job_apply("merge", "VALIDATED", 0), Ok(ApplyGate::Apply(ImportMode::Merge)));
    assert!(matches!(check_job_apply("SIDEWAYS", "VALIDATED", 0), Err(InstitutionError::InvalidInput(_))));
}

#[test]
fn batch_apply_gate_follows_operation_and_status() {
    assert_eq!(check_batch_apply("ADD", "APPLIED", 0), Ok(ApplyGate::AlreadyApplied));
    assert_eq!(
        check_batch_apply("ADD", "DRAFT", 0),
        Err(InstitutionError::Conflict("only an error-free reviewed batch can be applied".to_owned()))
    );
    assert_eq!(check_batch_apply(" delete ", "VALIDATED", 0), Ok(ApplyGate::Apply(ImportMode::DeleteOnly)));
}

#[test]
fn deletions_apply_children_before_parents() {
    let forward = apply_order_for(ImportMode::AddOnly);
    let mut backward = apply_order_for(ImportMode::DeleteOnly);
    assert_eq!(forward.first(), Some(&"departments"));
    assert_eq!(forward.last(), Some(&"paper_team_mentors"));
    backward.reverse();
    assert_eq!(forward, backward);
}

#[test]
fn review_limit_is_clamped() {
    assert_eq!(review_row_limit(0), 1);
    assert_eq!(review_row_limit(-5), 1);
    assert_eq!(review_row_limit(50), 50);
    assert_eq!(review_row_limit(1000), 200);
}

#[test]
fn field_changes_skip_keys_action_and_equal_values() {
    let payload = vec![
        field("reg_no", "S1"),
        field("name", "New"),
        field("email", "same@example.edu"),
        field("__action", "UPDATE"),
    ];
    let existing = Some(vec![field("reg_no", "S1"), field("name", "Old"), field("email", "same@example.edu")]);
    let changes = field_changes("students", &payload, &existing);
    assert_eq!(changes.len(), 1);
    assert_eq!(changes[0].field, "name");
    assert_eq!(changes[0].old, FieldValue::Text("Old".to_owned()));
    assert_eq!(changes[0].new, FieldValue::Text("New".to_owned()));
    let fresh = field_changes("students", &vec![field("name", "N")], &None);
    assert_eq!(fresh[0].old, FieldValue::Null);
}

#[test]
fn programme_change_notes_pinned_template() {
    let changes = field_changes(
        "students",
        &vec![field("programme_code", "ECE")],
        &Some(vec![field("programme_code", "CSE")]),
    );
    assert_eq!(
        template_effect("students", &changes),
        Some("Programme changed. Existing Team template remains pinned.")
    );
    assert_eq!(template_effect("faculty", &changes), None);
}

#[test]
fn keys_and_dataset_names_are_shown_readably() {
    assert_eq!(display_key(&vec![field("reg_no", "S1"), field("course_id", "C9")]), "C9 · S1");
    assert_eq!(friendly_dataset("student_course_registrations"), "Student Course Registration");
    assert_eq!(friendly_dataset("faculty"), "Faculty");
    assert_eq!(friendly_dataset("paper_team_writers"), "Paper assignment Writer");
}

#[test]
fn template_resolution_prefers_mapping_then_fallback() {
    let writers = vec![1u128, 2, 3];
    let programmes = vec![Some("CSE".to_owned()), Some("ECE".to_owned()), Some("CSE".to_owned())];
    let mapped = resolve_template(&writers, &programmes, Some(10), Some(20)).expect("resolves");
    assert_eq!(mapped.selected_template_id, 10);
    assert_eq!(mapped.dominant_programme_code.as_deref(), Some("CSE"));
    assert_eq!(mapped.resolution_method, "MODE");
    assert_eq!(mapped.counts, vec![("CSE".to_owned(), 2), ("ECE".to_owned(), 1)]);
    assert!(mapped.tie_break.is_none());

    let fallback = resolve_template(&writers, &programmes, None, Some(20)).expect("falls back");
    assert_eq!(fallback.selected_template_id, 20);
    assert_eq!(fallback.resolution_method, "GLOBAL_FALLBACK");
    assert_eq!(
        fallback.warnings,
        vec!["dominant programme has no template mapping; using global fallback".to_owned()]
    );

    let unlinked = resolve_template(&vec![7u128], &vec![None], Some(10), Some(20)).expect("falls back");
    assert_eq!(unlinked.selected_template_id, 20);
    assert_eq!(unlinked.warnings.len(), 2);
    assert_eq!(
        unlinked.warnings[0],
        "writer 00000000-0000-0000-0000-000000000007 has no linked institutional programme"
    );

    assert_eq!(
        resolve_template(&writers, &programmes, None, None).err(),
        Some(InstitutionError::Conflict("global fallback template is not configured".to_owned()))
    );
}

#[test]
fn tied_programmes_pick_the_earliest_writer() {
    let programmes = vec![Some("ECE".to_owned()), Some("CSE".to_owned())];
    let r = resolve_template(&vec![1u128, 2], &programmes, Some(5), None).expect("resolves");
    assert_eq!(r.dominant_programme_code.as_deref(), Some("ECE"));
    assert_eq!(r.resolution_method, "TIE_FIRST_WRITER");
    assert_eq!(r.tie_break.as_deref(), Some("earliest ordered Writer programme"));
    assert_eq!(r.counts, vec![("CSE".to_owned(), 1), ("ECE".to_owned(), 1)]);
}

#[test]
fn imported_team_plan_lists_unresolved_assignments() {
    let writers = vec![
        WriterLink { reg_no: "S1".to_owned(), user_id: Some(11), role: Some("writer".to_owned()), is_leader: false },
        WriterLink { reg_no: "S2".to_owned(), user_id: None, role: None, is_leader: true },
    ];
    let mentors = vec![MentorLink { faculty_id: "F1".to_owned(), user_id: Some(21), role: Some("writer".to_owned()) }];
    let plan = plan_imported_team("K1".to_owned(), "Team".to_owned(), Some(99), &writers, &mentors);
    assert_eq!(plan.writer_user_ids, vec![11]);
    assert_eq!(plan.leader_user_id, None);
    assert!(plan.mentor_user_ids.is_empty());
    assert_eq!(
        plan.unresolved,
        vec!["UNRESOLVED_WRITER:S2".to_owned(), "MISSING_LEADER".to_owned(), "UNRESOLVED_MENTOR:F1".to_owned()]
    );
    assert_eq!(check_team_merge(&plan, Some("admin")), Err(InstitutionError::Conflict("MISSING_LEADER".to_owned())));
}

#[test]
fn team_merge_needs_link_resolution_and_admin() {
    let mut plan = ImportedTeamPlan {
        external_team_key: "K".to_owned(),
        team_name: "T".to_owned(),
        existing_paper_team_id: None,
        writer_user_ids: vec![1],
        leader_user_id: Some(1),
        mentor_user_ids: vec![],
        unresolved: vec![],
    };
    assert_eq!(
        check_team_merge(&plan, Some("admin")),
        Err(InstitutionError::InvalidInput("existing Paper Team link is missing".to_owned()))
    );
    plan.existing_paper_team_id = Some(5);
    assert_eq!(check_team_merge(&plan, Some("mentor")), Err(InstitutionError::Conflict("V2 Admin required".to_owned())));
    assert_eq!(check_team_merge(&plan, Some("admin")), Ok((5, 1)));
    plan.unresolved = vec!["A".to_owned(), "B".to_owned()];
    assert_eq!(check_team_merge(&plan, Some("admin")), Err(InstitutionError::Conflict("A; B".to_owned())));
    assert_eq!(join_reasons(&vec!["x".to_owned()]), "x");
}

#[test]
fn merged_writers_keep_imported_order_then_retained() {
    let (placed, kept) = merge_writer_orders(&vec![3u128, 4], 4, &vec![9u128]).expect("fits");
    assert_eq!(placed.len(), 2);
    assert_eq!((placed[0].user, placed[0].is_leader, placed[0].writer_order), (3, false, 1));
    assert_eq!((placed[1].user, placed[1].is_leader, placed[1].writer_order), (4, true, 2));
    assert_eq!(kept, vec![(9, 3)]);
}

#[test]
fn identity_links_check_role_link_and_existence() {
    assert_eq!(identity_kind("  student "), "STUDENT");
    assert_eq!(
        check_identity_link("STUDENT", Some("writer"), Some("mentor"), false, true),
        Err(InstitutionError::Conflict("STUDENT identity requires a V2 writer account".to_owned()))
    );
    assert_eq!(
        check_identity_link("STUDENT", Some("writer"), Some("writer"), true, true),
        Err(InstitutionError::Conflict("V2 user is already linked to an institutional identity".to_owned()))
    );
    assert_eq!(check_identity_link("ADMIN", None, None, false, false), Err(InstitutionError::NotFound));
    assert_eq!(check_identity_link("ADMIN", None, None, false, true), Ok(()));
    assert_eq!(check_identity_unlink(false, 0), Err(InstitutionError::NotFound));
    assert_eq!(check_identity_unlink(false, 1), Ok(()));
    assert!(matches!(check_identity_unlink(true, 1), Err(InstitutionError::Conflict(_))));
}

#[test]
fn identity_statements_name_table_and_column() {
    assert_eq!(person_query("students", "reg_no"), "SELECT EXISTS(SELECT 1 FROM vcap.students WHERE reg_no=$1)");
    assert_eq!(
        unlink_statement("student_user_links", "reg_no"),
        "UPDATE vcap.student_user_links SET user_id=NULL,match_method='MANUAL',status='UNLINKED',linked_at=NULL WHERE reg_no=$1"
    );
    assert!(link_statement("faculty_user_links", "faculty_id")
        .starts_with("INSERT INTO vcap.faculty_user_links (faculty_id,user_id"));
}

#[test]
fn manual_records_become_csv_uploads() {
    let upload = manual_upload("students", &vec![field("reg_no", "S1"), field("name", "A, B")]).expect("encodes");
    assert_eq!(upload.filename, "Manual students.csv");
    assert_eq!(upload.target_table.as_deref(), Some("students"));
    assert_eq!(upload.bytes, b"reg_no,name\nS1,\"A, B\"\n".to_vec());
    assert_eq!(
        manual_upload("nowhere", &vec![field("x", "1")]).err(),
        Some(InstitutionError::InvalidInput("unknown institution dataset".to_owned()))
    );
    assert_eq!(
        manual_upload("students", &vec![]).err(),
        Some(InstitutionError::InvalidInput("manual record has no fields".to_owned()))
    );
    assert_eq!(
        manual_upload("students", &vec![field("colour", "red")]).err(),
        Some(InstitutionError::InvalidInput("students: unknown field colour".to_owned()))
    );
}

#[test]
fn apply_statements_follow_mode() {
    let delete = apply_statements("students", ImportMode::DeleteOnly);
    assert_eq!(delete.len(), 2);
    assert_eq!(Some(delete[0]), link_delete_query("students"));
    assert_eq!(delete[1], delete_query("students"));
    assert_eq!(apply_statements("students", ImportMode::Merge), vec![apply_query("students", true)]);
    assert_eq!(apply_statements("schools", ImportMode::AddOnly), vec![apply_query("schools", false)]);
    assert_eq!(apply_statements("schools", ImportMode::ValidateOnly), vec![apply_query("schools", false)]);
    let roles = apply_statements("department_roles", ImportMode::UpdateOnly);
    assert_eq!(roles.len(), 2);
    assert_eq!(roles[0], update_query("department_roles"));
    assert!(roles[1].starts_with("SELECT setval("));
    assert_eq!(apply_statements("department_roles", ImportMode::DeleteOnly).len(), 1);
    assert_eq!(link_delete_query("schools"), None);
    assert!(apply_query("students", true).contains("ON CONFLICT(reg_no) DO UPDATE"));
    assert!(apply_query("students", false).ends_with("ON CONFLICT DO NOTHING"));
}

#[test]
fn actions_follow_mode_and_stored_records() {
    let csv = b"reg_no,name,email,programme_code\nS1,One,one@example.edu,CSE\nS2,Two,two@example.edu,CSE\n";
    let stored = vec![ExistingRecord {
        table: "students".to_owned(),
        key: vec![FieldValue::Text("S1".to_owned())],
        payload: vec![field("reg_no", "S1"), field("name", "Old")],
    }];
    let mut merge = students(csv, ImportMode::Merge);
    assign_actions(&mut merge, ImportMode::Merge, &stored);
    assert_eq!(action(&merge[0]).as_deref(), Some("UPDATE"));
    assert_eq!(action(&merge[1]).as_deref(), Some("INSERT"));
    assert!(merge[0].existing_payload.is_some());

    let mut add = students(csv, ImportMode::AddOnly);
    assign_actions(&mut add, ImportMode::AddOnly, &stored);
    assert_eq!(action(&add[0]).as_deref(), Some("SKIP"));

    let mut update = students(csv, ImportMode::UpdateOnly);
    assign_actions(&mut update, ImportMode::UpdateOnly, &stored);
    assert!(update[0].error.is_none());
    let error = update[1].error.as_ref().expect("missing record");
    assert_eq!(error.code, "NOT_FOUND");
    assert_eq!(error.message, "Student was not found; check the canonical key and try again");
}

#[test]
fn references_must_be_stored_or_uploaded() {
    let csv = b"reg_no,name,email,programme_code\nS1,One,one@example.edu,CSE\n";
    let mut rows = students(csv, ImportMode::AddOnly);
    validate_references(&mut rows, &no_references());
    let error = rows[0].error.as_ref().expect("missing programme");
    assert_eq!(error.code, "INVALID_FK");
    assert_eq!(error.message, "programme_code references missing programmes value CSE");

    let mut known = students(csv, ImportMode::AddOnly);
    let mut sets = no_references();
    sets.programmes = vec!["CSE".to_owned()];
    validate_references(&mut known, &sets);
    assert!(known[0].error.is_none());
}

#[test]
fn deletions_with_dependents_are_blocked() {
    let csv = b"reg_no,name,email,programme_code\nS1,One,one@example.edu,CSE\n";
    let mut rows = students(csv, ImportMode::DeleteOnly);
    assign_actions(&mut rows, ImportMode::DeleteOnly, &vec![ExistingRecord {
        table: "students".to_owned(),
        key: vec![FieldValue::Text("S1".to_owned())],
        payload: vec![field("reg_no", "S1")],
    }]);
    let (query, key) = dependency_lookup(&rows[0]).expect("a deletion of a student is checked");
    assert!(query.contains("vcap.student_course_registrations"));
    assert_eq!(key, "S1");
    let blocked = block_deletion(&rows[0], &vec!["Course registration C1".to_owned()]);
    let error = blocked.error.expect("blocked");
    assert_eq!(error.code, "DELETE_BLOCKED_DEPENDENCY");
    assert_eq!(
        error.message,
        "Cannot delete this Student. Used by: Course registration C1. Remove or archive those relationships explicitly first."
    );
    assert!(block_deletion(&rows[0], &vec![]).error.is_none());
}
