use persistence::governance::to_i64;
use persistence::restoration::{
    check_restore_state, plan_restore, recorded_identities, restored_counts, ExactRestoreState,
    FileMaterialization, IdentityEntry, ManifestFile, RestoreKind, StoredFileRow,
    WorkspaceOperation,
};

fn safety(epoch: u64, version: u64, hash_len: usize) -> ExactRestoreState {
    ExactRestoreState {
        document_epoch: epoch,
        workspace_version: version,
        snapshot_id: "snap".to_owned(),
        state_hash: "a".repeat(hash_len),
    }
}

fn row(id: u128, path: &str, tombstoned: bool) -> StoredFileRow {
    StoredFileRow { file_id: id, path: path.to_owned(), tombstoned }
}

fn file(path: &str) -> ManifestFile {
    ManifestFile { path: path.to_owned(), blob_hash: format!("hash-{path}"), size_bytes: 3 }
}

fn describe(op: &WorkspaceOperation) -> String {
    match op {
        WorkspaceOperation::DeleteFile { path } => format!("delete {path}"),
        WorkspaceOperation::PutFile { path, blob_hash, size_bytes } => {
            format!("put {path} {blob_hash} {size_bytes}")
        }
        WorkspaceOperation::SetMainFile { path } => format!("main {path}"),
    }
}

#[test]
fn safety_state_needs_a_head_and_a_digest() {
    assert!(check_restore_state(&safety(1, 4, 64)).is_ok());
    assert!(check_restore_state(&safety(1, 0, 64)).is_err());
    assert!(check_restore_state(&safety(1, 4, 63)).is_err());
}

#[test]
fn restoration_replaces_every_live_file_and_reuses_identities() {
    let rows = vec![
        row(1, "a.tex", false),
        row(2, "b.tex", true),
        row(3, "c.tex", false),
        row(4, "a.tex", false),
    ];
    let entries = vec![
        IdentityEntry { path: "b.tex".to_owned(), file_id: "00000000-0000-0000-0000-000000000002".to_owned() },
        IdentityEntry { path: "e.tex".to_owned(), file_id: "00000000000000000000000000000009".to_owned() },
        IdentityEntry { path: "z.tex".to_owned(), file_id: "not-a-uuid".to_owned() },
    ];
    let files = vec![file("a.tex"), file("b.tex"), file("d.tex"), file("e.tex")];
    let plan = plan_restore(&safety(6, 8, 64), 8, &rows, &entries, &files, "a.tex").expect("plans");
    assert_eq!(plan.safety_epoch, 6);
    assert_eq!(plan.next_version, 9);
    assert_eq!(plan.deletes, vec!["a.tex".to_owned(), "c.tex".to_owned()]);
    assert_eq!(
        plan.files,
        vec![
            FileMaterialization::Revive(4),
            FileMaterialization::Revive(2),
            FileMaterialization::InsertFresh,
            FileMaterialization::Insert(9),
        ]
    );
    let ops: Vec<String> = plan.operations.iter().map(describe).collect();
    assert_eq!(
        ops,
        vec![
            "delete a.tex",
            "delete c.tex",
            "put a.tex hash-a.tex 3",
            "put b.tex hash-b.tex 3",
            "put d.tex hash-d.tex 3",
            "put e.tex hash-e.tex 3",
            "main a.tex",
        ]
    );
}

#[test]
fn later_identity_entries_override_earlier_ones() {
    let entries = vec![
        IdentityEntry { path: "a.tex".to_owned(), file_id: "00000000-0000-0000-0000-000000000001".to_owned() },
        IdentityEntry { path: "a.tex".to_owned(), file_id: "00000000-0000-0000-0000-000000000005".to_owned() },
    ];
    assert_eq!(recorded_identities(&entries).len(), 2);
    let plan = plan_restore(&safety(1, 1, 64), 1, &vec![row(1, "a.tex", false)], &entries, &vec![file("a.tex")], "a.tex")
        .expect("plans");
    assert_eq!(plan.files, vec![FileMaterialization::Insert(5)]);
}

#[test]
fn restoration_counts_must_fit() {
    assert!(plan_restore(&safety(u64::MAX, 1, 64), 1, &vec![], &vec![], &vec![], "m.tex").is_err());
    assert!(plan_restore(&safety(1, 1, 64), i64::MAX, &vec![], &vec![], &vec![], "m.tex").is_err());
    assert_eq!(restored_counts(3, 9), Ok((3, 9)));
    assert!(restored_counts(-1, 9).is_err());
    assert_eq!(to_i64(9), Ok(9));
}

#[test]
fn restoration_kinds_name_their_versions() {
    assert_eq!(RestoreKind::Team.version_type(), "team_revert");
    assert_eq!(RestoreKind::Team.version_name(), "Team revert");
    assert_eq!(RestoreKind::Personal.version_type(), "admin_restoration");
    assert_eq!(RestoreKind::Personal.version_name(), "Personal restoration");
}
