use persistence::governance::V2FilePolicy;
use persistence::restoration::{ExactRestoreState, WorkspaceOperation};
use persistence::templates::{
    check_template_change_request, check_template_finalization, is_manual_override,
    plan_template_change, plan_template_team, PaperFileWrite, TeamMember, TemplateChangeFile,
    TemplateChangeRequest, TemplateSeedFile,
};
use persistence::V2Error;

fn digest() -> String {
    "f".repeat(64)
}

fn seed(path: &str, policy: V2FilePolicy) -> TemplateSeedFile {
    TemplateSeedFile { path: path.to_owned(), blob_hash: format!("h-{path}"), size_bytes: 10, policy }
}

fn describe(op: &WorkspaceOperation) -> String {
    match op {
        WorkspaceOperation::DeleteFile { path } => format!("delete {path}"),
        WorkspaceOperation::PutFile { path, blob_hash, size_bytes } => {
            format!("put {path} {blob_hash} {size_bytes}")
        }
        WorkspaceOperation::SetMainFile { path } => format!("main {path}"),
    }
}

#[test]
fn a_team_is_seeded_with_locks_members_and_files() {
    let files = vec![seed("main.tex", V2FilePolicy::Editable), seed("cls.cls", V2FilePolicy::TemplateManaged)];
    let plan = plan_template_team(50, "  Team A ", 30, &vec![30, 10], &vec![40], &digest(), "main.tex", &files)
        .expect("plans");
    assert_eq!(plan.name, "Team A");
    assert_eq!(plan.lock_order, vec![10, 30, 40, 50]);
    assert_eq!(
        plan.members,
        vec![
            TeamMember { user: 30, is_leader: true, writer_order: Some(1) },
            TeamMember { user: 10, is_leader: false, writer_order: Some(2) },
            TeamMember { user: 40, is_leader: false, writer_order: None },
        ]
    );
    let ops: Vec<String> = plan.operations.iter().map(describe).collect();
    assert_eq!(ops, vec!["put main.tex h-main.tex 10", "put cls.cls h-cls.cls 10", "main main.tex"]);
}

#[test]
fn malformed_seed_requests_are_refused() {
    let files = vec![seed("main.tex", V2FilePolicy::Editable)];
    let refuse = |name: &str, main: &str, identity: &str, files: &Vec<TemplateSeedFile>| {
        plan_template_team(1, name, 2, &vec![2], &vec![], identity, main, files).err()
    };
    assert_eq!(refuse("   ", "main.tex", &digest(), &files), Some(V2Error::InvalidName));
    assert_eq!(refuse(&"n".repeat(201), "main.tex", &digest(), &files), Some(V2Error::InvalidName));
    assert_eq!(refuse("Team", "other.tex", &digest(), &files), Some(V2Error::InvalidName));
    assert_eq!(refuse("Team", "main.tex", "abc", &files), Some(V2Error::InvalidName));
    assert_eq!(refuse("Team", "main.tex", &digest(), &vec![]), Some(V2Error::InvalidName));
    assert!(refuse(&"n".repeat(200), "main.tex", &digest(), &files).is_none());
}

#[test]
fn leader_must_write_and_nobody_is_assigned_twice() {
    let files = vec![seed("main.tex", V2FilePolicy::Editable)];
    assert_eq!(
        plan_template_team(1, "Team", 9, &vec![2], &vec![3], &digest(), "main.tex", &files).err(),
        Some(V2Error::Conflict { entity: "Paper Team Leader must be an assigned Writer".to_owned() })
    );
    assert_eq!(
        plan_template_team(1, "Team", 2, &vec![2], &vec![2], &digest(), "main.tex", &files).err(),
        Some(V2Error::Conflict { entity: "duplicate Paper Team assignment".to_owned() })
    );
}

fn change_request(files: Vec<TemplateChangeFile>, main: Option<&str>) -> TemplateChangeRequest {
    TemplateChangeRequest {
        paper_id: 1,
        workspace_id: 2,
        expected_workspace_version: 5,
        expected_template_id: 7,
        new_template_id: 8,
        new_source_identity: digest(),
        new_main_file: main.map(str::to_owned),
        files,
        safety: ExactRestoreState {
            document_epoch: 3,
            workspace_version: 5,
            snapshot_id: "s".to_owned(),
            state_hash: digest(),
        },
    }
}

fn change_file(path: &str) -> TemplateChangeFile {
    TemplateChangeFile {
        path: path.to_owned(),
        blob_hash: format!("h-{path}"),
        size_bytes: 4,
        policy: V2FilePolicy::TemplateManaged,
        existing_file_id: None,
    }
}

#[test]
fn template_change_checks_come_in_order() {
    let request = change_request(vec![change_file("cls.cls")], Some("main.tex"));
    assert!(check_template_change_request(&request).is_ok());
    assert!(check_template_change_request(&change_request(vec![], None)).is_err());
    assert_eq!(
        plan_template_change(&request, "archived", 4, 9).err(),
        Some(V2Error::Conflict { entity: "archived Paper Team template".to_owned() })
    );
    assert_eq!(
        plan_template_change(&request, "active", 4, 9).err(),
        Some(V2Error::VersionConflict { expected: 5, actual: 4 })
    );
    assert_eq!(
        plan_template_change(&request, "active", 5, 9).err(),
        Some(V2Error::Conflict { entity: "Paper Team template pin changed after preview".to_owned() })
    );
    let plan = plan_template_change(&request, "active", 5, 7).expect("plans");
    assert_eq!(plan.next_version, 6);
    assert_eq!(plan.safety_epoch, 3);
    let ops: Vec<String> = plan.operations.iter().map(describe).collect();
    assert_eq!(ops, vec!["put cls.cls h-cls.cls 4", "main main.tex"]);
}

#[test]
fn finalization_requires_the_new_pin() {
    let exact = change_request(vec![], None).safety;
    assert_eq!(check_template_finalization(Some(8), 8, &exact), Ok((3, 5)));
    assert_eq!(
        check_template_finalization(None, 8, &exact),
        Err(V2Error::Conflict { entity: "Paper Team template finalization".to_owned() })
    );
    assert!(is_manual_override("MANUAL_OVERRIDE"));
    assert!(!is_manual_override("PROGRAMME_DEFAULT"));
}

fn describe_write(write: &PaperFileWrite) -> String {
    match write {
        PaperFileWrite::Revise { file_id, policy } => format!("revise {file_id} {}", policy.as_str()),
        PaperFileWrite::Create { path, policy } => format!("create {path} {}", policy.as_str()),
    }
}

#[test]
fn seeded_files_get_policy_rows_unless_editable() {
    let files = vec![seed("main.tex", V2FilePolicy::Editable), seed("cls.cls", V2FilePolicy::TemplateManaged)];
    let plan = plan_template_team(50, "Team A", 30, &vec![30], &vec![], &digest(), "main.tex", &files)
        .expect("plans");
    let rows: Vec<(String, Option<V2FilePolicy>)> =
        plan.files.iter().map(|row| (row.path.clone(), row.policy_row)).collect();
    assert_eq!(
        rows,
        vec![
            ("main.tex".to_owned(), None),
            ("cls.cls".to_owned(), Some(V2FilePolicy::TemplateManaged)),
        ]
    );
}

#[test]
fn changed_files_revise_what_they_replace_and_create_the_rest() {
    let mut replacing = change_file("main.tex");
    replacing.existing_file_id = Some(77);
    replacing.policy = V2FilePolicy::Editable;
    let request = change_request(vec![replacing, change_file("cls.cls")], None);
    let plan = plan_template_change(&request, "active", 5, 7).expect("plans");
    let writes: Vec<String> = plan.writes.iter().map(describe_write).collect();
    let expected = vec![
        format!("revise 77 {}", V2FilePolicy::Editable.as_str()),
        format!("create cls.cls {}", V2FilePolicy::TemplateManaged.as_str()),
    ];
    assert_eq!(writes, expected);
}
