use persistence::access::{roles_for_access, total_pending_changes, ProjectAccess};
use persistence::collaboration::{
    change_conflict, check_policy_change, check_template_audiences, stored_unsigned, db_revision, i64_revision, i64_size, ChangeConflictReason,
    FilePolicy, GroupType,
};
use persistence::compile_queue::{
    artifact_kind_text, check_idempotent_replay, check_lease, map_permission_error, parse_shell,
    validate_cancellation_reason, ArtifactKind, CompileRequestKey, LeaseStatus, ShellPolicy,
};
use persistence::permissions::{GroupRoles, PermissionResolver, ProjectRoles};
use persistence::policy::{replay_main, select_policy, select_template_policy, MainOperation, PolicyRule};
use persistence::staging::{check_mutable, decide_draft_publication, DraftPublication};
use persistence::{AccountType, AppError, Duration, InfrastructureOutcome, QueueError, QueueLimits};

fn rule(pattern: &str, policy: &str) -> PolicyRule {
    PolicyRule { pattern: pattern.to_owned(), policy: policy.to_owned() }
}

fn op(name: &str, path: Option<&str>, from: Option<&str>, to: Option<&str>) -> MainOperation {
    MainOperation {
        op: Some(name.to_owned()),
        path: path.map(str::to_owned),
        from: from.map(str::to_owned),
        to: to.map(str::to_owned),
    }
}

fn team(can_write: bool, can_manage: bool) -> ProjectAccess {
    ProjectAccess::Team {
        project_id: 1,
        team_id: 2,
        account_type: AccountType::Student,
        can_write,
        can_mentor: false,
        can_manage,
    }
}

#[test]
fn stored_names_round_trip() {
    for a in [AccountType::Student, AccountType::Professor, AccountType::Admin] {
        assert_eq!(AccountType::parse(a.as_str()), Ok(a));
    }
    for g in [GroupType::ResearchTeam, GroupType::MentorGroup] {
        assert_eq!(GroupType::parse(g.as_str()), Ok(g));
    }
    for p in [FilePolicy::Editable, FilePolicy::ReadOnly, FilePolicy::Managed] {
        assert_eq!(FilePolicy::parse(p.as_str()), Ok(p));
    }
    assert!(matches!(AccountType::parse("teacher"), Err(AppError::Integrity { .. })));
    assert_eq!(ChangeConflictReason::MainLocked.as_str(), "main_locked");
}

#[test]
fn template_policy_may_be_tightened_not_loosened() {
    assert_eq!(check_policy_change(false, Some(FilePolicy::ReadOnly), FilePolicy::Managed), Ok(()));
    assert_eq!(check_policy_change(false, Some(FilePolicy::ReadOnly), FilePolicy::Editable), Err(AppError::Forbidden));
    assert_eq!(check_policy_change(true, Some(FilePolicy::Managed), FilePolicy::Editable), Ok(()));
    assert_eq!(check_policy_change(false, None, FilePolicy::Editable), Ok(()));
}

#[test]
fn database_integers_are_range_checked() {
    assert_eq!(i64_size(5), Ok(5));
    assert!(matches!(i64_size(u64::MAX), Err(AppError::Integrity { .. })));
    assert_eq!(i64_revision(i64::MAX as u64), Ok(i64::MAX));
    assert_eq!(db_revision(7), Ok(7));
    assert!(matches!(db_revision(-1), Err(AppError::Integrity { .. })));
    let c = change_conflict("a.tex", Some("b.tex"), ChangeConflictReason::DestinationExists);
    assert_eq!(c.path, "a.tex");
    assert_eq!(c.destination.as_deref(), Some("b.tex"));
}

#[test]
fn exact_rule_beats_longest_prefix_which_beats_default() {
    let rules = vec![rule("chapters/*", "read_only"), rule("chapters/intro/*", "managed"), rule("chapters/intro/a.tex", "editable")];
    assert_eq!(select_policy(&rules, "chapters/intro/a.tex", "read_only"), Ok(FilePolicy::Editable));
    assert_eq!(select_policy(&rules, "chapters/intro/b.tex", "editable"), Ok(FilePolicy::Managed));
    assert_eq!(select_policy(&rules, "chapters/c.tex", "editable"), Ok(FilePolicy::ReadOnly));
    assert_eq!(select_policy(&rules, "main.tex", "editable"), Ok(FilePolicy::Editable));
    assert!(matches!(select_policy(&vec![rule("x.tex", "secret")], "x.tex", "editable"), Err(AppError::Integrity { .. })));
    assert_eq!(select_template_policy(&rules, "other.tex"), Ok(None));
    assert_eq!(select_template_policy(&rules, "chapters/d.tex"), Ok(Some(FilePolicy::ReadOnly)));
}

#[test]
fn main_pointer_follows_operations() {
    let ops = vec![
        op("set_main_file", Some("main.tex"), None, None),
        op("rename_file", None, Some("main.tex"), Some("paper.tex")),
        op("put_file", Some("other.tex"), None, None),
    ];
    assert_eq!(replay_main(&ops).as_deref(), Some("paper.tex"));
    let mut deleted = ops.clone();
    deleted.push(op("delete_file", Some("paper.tex"), None, None));
    assert_eq!(replay_main(&deleted), None);
    let mut elsewhere = ops.clone();
    elsewhere.push(op("delete_file", Some("other.tex"), None, None));
    assert_eq!(replay_main(&elsewhere).as_deref(), Some("paper.tex"));
    assert_eq!(replay_main(&vec![]), None);
}

#[test]
fn content_writes_need_team_access_permission_and_policy() {
    let writer = PermissionResolver::new(
        AccountType::Student,
        GroupRoles::default(),
        ProjectRoles { writer: true, ..ProjectRoles::default() },
        &[],
    );
    let rules = vec![rule("locked.tex", "managed")];
    assert_eq!(check_mutable(&team(true, false), &writer, &rules, "a.tex", "editable"), Ok(()));
    assert_eq!(check_mutable(&team(true, false), &writer, &rules, "locked.tex", "editable"), Err(AppError::Forbidden));
    assert_eq!(
        check_mutable(&ProjectAccess::Personal { account_type: AccountType::Student }, &writer, &rules, "a.tex", "editable"),
        Err(AppError::NotFound)
    );
    let reader = PermissionResolver::new(AccountType::Student, GroupRoles::default(), ProjectRoles::default(), &[]);
    assert_eq!(check_mutable(&team(false, false), &reader, &rules, "a.tex", "editable"), Err(AppError::Forbidden));
}

#[test]
fn draft_publication_conflicts_on_stale_base() {
    assert_eq!(
        decide_draft_publication(1, 10, Some(2)),
        Ok(DraftPublication::Conflict { current_file_revision: 2 })
    );
    assert_eq!(
        decide_draft_publication(0, 10, None),
        Ok(DraftPublication::Write { file_revision: 1, stored_size: 10, stored_revision: 1 })
    );
    assert!(matches!(decide_draft_publication(0, 1, Some(-3)), Err(AppError::Integrity { .. })));
    assert!(matches!(decide_draft_publication(2, u64::MAX, Some(2)), Err(AppError::Integrity { .. })));
}

#[test]
fn access_confers_roles() {
    let (account, group, project) = roles_for_access(&team(true, true), true);
    assert_eq!(account, AccountType::Student);
    assert!(group.group_manager);
    assert_eq!(project, ProjectRoles { writer: true, mentor: false, project_manager: true });
    let (_, group, project) = roles_for_access(&ProjectAccess::Personal { account_type: AccountType::Admin }, true);
    assert!(!group.group_manager);
    assert!(project.project_manager && project.writer);
    let (_, _, project) = roles_for_access(
        &ProjectAccess::ResearchGroup { group_id: 3, account_type: AccountType::Professor },
        false,
    );
    assert!(project.writer && !project.project_manager);
}

#[test]
fn pending_totals_are_summed_without_overflow() {
    assert_eq!(total_pending_changes(&vec![1, 2, 3]), Ok(6));
    assert_eq!(total_pending_changes(&vec![]), Ok(0));
    assert!(matches!(total_pending_changes(&vec![u64::MAX, 1]), Err(AppError::Integrity { .. })));
}

#[test]
fn queue_limits_admit_and_retry_within_bounds() {
    let limits = QueueLimits::new(4, 1, 2, Duration::from_secs(30), 3).expect("valid limits");
    assert_eq!(limits.check_admission(1), Ok(()));
    assert_eq!(
        limits.check_admission(2),
        Err(QueueError::AdmissionRejected { scope: "per-user outstanding", limit: 2 })
    );
    assert!(limits.has_capacity(3));
    assert!(!limits.has_capacity(4));
    assert_eq!(limits.lease_millis(), Ok(30_000));
    assert_eq!(limits.infrastructure_outcome(2), Ok(InfrastructureOutcome::Requeued));
    assert_eq!(limits.infrastructure_outcome(3), Ok(InfrastructureOutcome::Failed));
    assert!(matches!(limits.infrastructure_outcome(-1), Err(QueueError::Integrity { .. })));
    assert!(matches!(
        QueueLimits::new(0, 1, 1, Duration::from_secs(1), 1),
        Err(QueueError::InvalidConfiguration { .. })
    ));
    assert!(matches!(
        QueueLimits::new(1, 1, 1, Duration::zero(), 1),
        Err(QueueError::InvalidConfiguration { .. })
    ));
}

#[test]
fn cancellation_reasons_and_permission_errors() {
    assert_eq!(validate_cancellation_reason(None), Ok(()));
    assert_eq!(validate_cancellation_reason(Some("stop")), Ok(()));
    assert!(validate_cancellation_reason(Some("")).is_err());
    assert!(validate_cancellation_reason(Some(&"x".repeat(513))).is_err());
    assert_eq!(map_permission_error(AppError::Forbidden), QueueError::NotFound);
    assert_eq!(
        map_permission_error(AppError::Integrity { message: "m".to_owned() }),
        QueueError::Integrity { message: "m".to_owned() }
    );
}

#[test]
fn stored_counts_and_template_audiences() {
    assert_eq!(stored_unsigned(4, "negative queue position"), Ok(4));
    assert_eq!(
        stored_unsigned(-1, "negative queue position"),
        Err(AppError::Integrity { message: "negative queue position".to_owned() })
    );
    assert_eq!(check_template_audiences(&vec!["student", "admin"]), Ok(()));
    let refused = Err(AppError::Integrity {
        message: "template audiences must be institutional account types".to_owned(),
    });
    assert_eq!(check_template_audiences(&vec![]), refused);
    assert_eq!(check_template_audiences(&vec!["student", "guest"]), refused);
}

#[test]
fn leases_and_replays_are_checked() {
    assert_eq!(
        check_lease("queued", Some(1), 1, true, false),
        Err(QueueError::InvalidState { state: "queued".to_owned() })
    );
    assert_eq!(check_lease("running", Some(2), 1, true, false), Err(QueueError::LeaseLost));
    assert_eq!(check_lease("running", Some(1), 1, false, false), Err(QueueError::LeaseLost));
    assert_eq!(check_lease("running", None, 1, true, false), Err(QueueError::LeaseLost));
    assert_eq!(check_lease("running", Some(1), 1, true, true), Ok(LeaseStatus::Cancelled));
    assert_eq!(check_lease("running", Some(1), 1, true, false), Ok(LeaseStatus::Live));

    let key = |engine: &str| CompileRequestKey {
        snapshot_id: "s".to_owned(),
        compile_key: "k".to_owned(),
        engine: engine.to_owned(),
        tex_environment_id: "tex".to_owned(),
        latexmk_profile: "default".to_owned(),
        shell_policy: "safe".to_owned(),
        synctex: true,
    };
    assert_eq!(check_idempotent_replay(&key("pdflatex"), &key("pdflatex")), Ok(()));
    assert_eq!(check_idempotent_replay(&key("pdflatex"), &key("xelatex")), Err(QueueError::IdempotencyConflict));

    assert_eq!(parse_shell("restricted"), Ok(ShellPolicy::Restricted));
    assert_eq!(
        parse_shell("open"),
        Err(QueueError::Integrity { message: "invalid persisted shell policy".to_owned() })
    );
    assert_eq!(artifact_kind_text(ArtifactKind::Synctex), "synctex");
    assert_eq!(artifact_kind_text(ArtifactKind::Other), "other");
}
