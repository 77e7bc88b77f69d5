use persistence::front_matter::{
    automatic_values, can_edit_front_matter, front_matter_status, plan_remove_render, plan_render,
    ExactStateRecord, FrontMatterRepositoryError, ManagedFrontMatterFile, ManagedRow, MemberFacts,
    TeamFacts,
};
use persistence::restoration::WorkspaceOperation;

fn managed(id: u128, path: &str, policy: &str) -> ManagedRow {
    ManagedRow { file_id: id, path: path.to_owned(), policy: policy.to_owned() }
}

fn rendered(path: &str, size: u64) -> ManagedFrontMatterFile {
    ManagedFrontMatterFile { path: path.to_owned(), blob_hash: "b".to_owned(), size_bytes: size }
}

fn describe(op: &WorkspaceOperation) -> String {
    match op {
        WorkspaceOperation::DeleteFile { path } => format!("delete {path}"),
        WorkspaceOperation::PutFile { path, blob_hash, size_bytes } => {
            format!("put {path} {blob_hash} {size_bytes}")
        }
        WorkspaceOperation::SetMainFile { path } => format!("main {path}"),
    }
}

const ENTRY: &str = ".latex-core/frontmatter/frontmatter.tex";
const LOGO: &str = ".latex-core/frontmatter/logo.png";
const OLD: &str = ".latex-core/frontmatter/old.tex";

#[test]
fn a_render_rewrites_the_managed_subtree() {
    let rows = vec![managed(1, ENTRY, "HIDDEN_SYSTEM"), managed(2, OLD, "HIDDEN_SYSTEM")];
    let files = vec![rendered(ENTRY, 5), rendered(LOGO, 7)];
    let safety = Some(ExactStateRecord { document_epoch: 2, workspace_version: 4, snapshot_id: "s".to_owned(), state_hash: "h".to_owned() });
    let plan = plan_render(9, 9, true, 4, 4, &safety, &rows, &files).expect("plans");
    assert_eq!(plan.safety, Some((2, 4)));
    assert_eq!(plan.deletes, vec![OLD.to_owned()]);
    assert_eq!(plan.delete_ids, vec![2]);
    assert_eq!(plan.reuse, vec![Some(1), None]);
    assert_eq!(plan.next_version, 5);
    let ops: Vec<String> = plan.operations.iter().map(describe).collect();
    assert_eq!(ops, vec![format!("delete {OLD}"), format!("put {ENTRY} b 5"), format!("put {LOGO} b 7")]);
}

#[test]
fn render_refusals_come_in_order() {
    let rows = vec![managed(1, ENTRY, "EDITABLE")];
    let files = vec![rendered("main.tex", 1)];
    assert_eq!(
        plan_render(1, 2, false, 4, 3, &None, &rows, &files).err(),
        Some(FrontMatterRepositoryError::Integrity("paper workspace mismatch".to_owned()))
    );
    assert_eq!(
        plan_render(1, 1, false, 4, 3, &None, &rows, &files).err(),
        Some(FrontMatterRepositoryError::IncompatibleTemplate)
    );
    assert_eq!(
        plan_render(1, 1, true, 4, 3, &None, &rows, &files).err(),
        Some(FrontMatterRepositoryError::VersionConflict)
    );
    assert_eq!(
        plan_render(1, 1, true, 4, 4, &None, &rows, &files).err(),
        Some(FrontMatterRepositoryError::Integrity("managed Front Matter subtree contains a non-system file".to_owned()))
    );
    let hidden = vec![managed(1, ENTRY, "HIDDEN_SYSTEM")];
    assert_eq!(
        plan_render(1, 1, true, 4, 4, &None, &hidden, &files).err(),
        Some(FrontMatterRepositoryError::Integrity("render escaped managed subtree".to_owned()))
    );
    assert_eq!(
        plan_render(1, 1, true, 4, 4, &None, &hidden, &vec![rendered(ENTRY, u64::MAX)]).err(),
        Some(FrontMatterRepositoryError::Integrity("value exceeds PostgreSQL BIGINT".to_owned()))
    );
}

#[test]
fn removal_keeps_an_empty_entry_file() {
    let rows = vec![managed(1, LOGO, "HIDDEN_SYSTEM"), managed(2, ENTRY, "HIDDEN_SYSTEM")];
    let plan = plan_remove_render(3, 3, 7, 7, &None, &rows, "empty").expect("plans");
    assert_eq!(plan.entry, Some(2));
    assert_eq!(plan.delete_ids, vec![1]);
    assert_eq!(plan.next_version, 8);
    let ops: Vec<String> = plan.operations.iter().map(describe).collect();
    assert_eq!(ops, vec![format!("delete {LOGO}"), format!("put {ENTRY} empty 0")]);
    let fresh = plan_remove_render(3, 3, 7, 7, &None, &vec![], "empty").expect("plans");
    assert_eq!(fresh.entry, None);
}

#[test]
fn status_and_editing_rights() {
    assert_eq!(front_matter_status(Some("FRONT_MATTER_RENDER_FAILED"), Some("READY")), "RENDER_FAILED");
    assert_eq!(front_matter_status(Some("FRONT_MATTER_TEMPLATE_INCOMPATIBLE"), None), "INCOMPATIBLE_TEMPLATE");
    assert_eq!(front_matter_status(Some("OTHER"), Some("READY")), "READY");
    assert_eq!(front_matter_status(None, None), "NONE");
    assert!(can_edit_front_matter(Some("admin"), None));
    assert!(can_edit_front_matter(Some("writer"), Some(true)));
    assert!(!can_edit_front_matter(Some("writer"), Some(false)));
    assert!(!can_edit_front_matter(Some("mentor"), Some(true)));
    assert!(!can_edit_front_matter(None, Some(true)));
}

fn person(role: &str, name: Option<&str>, reg: Option<&str>, leader: bool) -> MemberFacts {
    MemberFacts {
        role: role.to_owned(),
        email: format!("{role}@example.edu"),
        student_name: name.map(str::to_owned),
        reg_no: reg.map(str::to_owned),
        is_leader: leader,
        faculty_name: Some("Dr. Rao".to_owned()),
        honorific: Some("  ".to_owned()),
        designation: Some("Professor".to_owned()),
        faculty_id: Some("F1".to_owned()),
        dept_id: Some(1),
        school_id: None,
    }
}

#[test]
fn automatic_values_describe_writers_leader_and_first_mentor() {
    let team = TeamFacts {
        name: "Team A".to_owned(),
        academic_year: Some("2024-25".to_owned()),
        semester: Some(" ".to_owned()),
        dominant_programme_code: None,
    };
    let members = vec![
        person("writer", Some("Asha"), Some("R1"), true),
        person("writer", None, None, false),
        person("mentor", None, None, false),
        person("mentor", None, None, false),
    ];
    let v = automatic_values(&team, &members);
    assert_eq!(v.team_name, "Team A");
    assert_eq!(v.academic_year.as_deref(), Some("2024-25"));
    assert_eq!(v.semester, None);
    assert_eq!(v.writer_names, vec!["Asha".to_owned(), "writer@example.edu".to_owned()]);
    assert_eq!(v.registration_numbers, vec!["R1".to_owned()]);
    assert_eq!(v.names_and_registration_numbers, vec!["Asha (R1)".to_owned(), "writer@example.edu".to_owned()]);
    assert_eq!(v.leader_name.as_deref(), Some("Asha"));
    assert_eq!(v.leader_registration_number.as_deref(), Some("R1"));
    assert_eq!(v.mentor_name.as_deref(), Some("Dr. Rao"));
    assert_eq!(v.mentor_honorific, None);
    assert_eq!(v.department_id.as_deref(), Some("00000000-0000-0000-0000-000000000001"));
    assert_eq!(v.school_id, None);
}
