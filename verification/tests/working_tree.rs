use persistence::publication::plan_publication;
use persistence::working_tree::{
    project_working_tree, CanonicalFile, MemberDraftRecord, ProjectedChangeState,
    StagedOperation,
};

fn canonical(path: &str, revision: u64) -> CanonicalFile {
    CanonicalFile {
        path: path.to_owned(),
        blob_hash: format!("hash-{path}"),
        size_bytes: 10,
        revision,
    }
}

fn draft(path: &str, base_revision: u64) -> MemberDraftRecord {
    MemberDraftRecord {
        path: path.to_owned(),
        base_revision,
        draft_revision: 1,
        blob_hash: format!("draft-{path}"),
        size_bytes: 20,
    }
}

fn operation(kind: &str, source: Option<&str>, destination: Option<&str>, base: Option<i64>) -> StagedOperation {
    StagedOperation {
        operation_type: kind.to_owned(),
        source_path: source.map(str::to_owned),
        destination_path: destination.map(str::to_owned),
        base_file_revision: base,
    }
}

#[test]
fn projection_is_sorted_consistent_and_summarized() {
    let canonical_files = vec![canonical("b.tex", 1), canonical("a.tex", 1), canonical("c.tex", 2)];
    let drafts = vec![draft("d.tex", 0), draft("a.tex", 1)];
    let operations = vec![
        operation("rename", Some("b.tex"), Some("e.tex"), Some(1)),
        operation("delete", Some("c.tex"), None, Some(2)),
        operation("set_main", None, Some("e.tex"), None),
    ];
    let tree = project_working_tree(&canonical_files, &drafts, &operations).expect("projects");
    let paths: Vec<&str> = tree.files.iter().map(|f| f.path.as_str()).collect();
    assert_eq!(paths, vec!["a.tex", "c.tex", "d.tex", "e.tex"]);
    let states: Vec<ProjectedChangeState> = tree.files.iter().map(|f| f.change_state()).collect();
    assert_eq!(
        states,
        vec![
            ProjectedChangeState::Modified,
            ProjectedChangeState::PendingDelete,
            ProjectedChangeState::Added,
            ProjectedChangeState::Renamed,
        ]
    );
    for file in &tree.files {
        assert_eq!(file.added, file.canonical_path.is_none());
        if file.added {
            assert!(!file.modified && !file.renamed && !file.pending_delete);
        }
    }
    assert_eq!(tree.pending_main.as_deref(), Some("e.tex"));
    assert!(tree.files.iter().any(|f| f.path == "e.tex" && !f.pending_delete));
    assert_eq!(tree.summary.modified, 1);
    assert_eq!(tree.summary.added, 1);
    assert_eq!(tree.summary.renamed, 1);
    assert_eq!(tree.summary.deleted, 1);
    assert!(tree.summary.main_changed);
    assert_eq!(tree.summary.total, 5);

    let plan = plan_publication(&tree.files, &tree.pending_main).expect("plans");
    assert_eq!(
        plan.change_count,
        tree.summary.modified + tree.summary.added + tree.summary.renamed + tree.summary.deleted
    );
}

#[test]
fn renamed_paths_stay_distinct_and_a_taken_destination_conflicts() {
    let canonical_files = vec![canonical("a.tex", 1), canonical("b.tex", 1)];
    let operations = vec![operation("rename", Some("a.tex"), Some("b.tex"), Some(1))];
    assert!(project_working_tree(&canonical_files, &vec![], &operations).is_err());

    let operations = vec![
        operation("delete", Some("b.tex"), None, Some(1)),
        operation("rename", Some("a.tex"), Some("b.tex"), Some(1)),
    ];
    let tree = project_working_tree(&canonical_files, &vec![], &operations).expect("projects");
    let live: Vec<&str> = tree
        .files
        .iter()
        .filter(|f| !f.pending_delete)
        .map(|f| f.path.as_str())
        .collect();
    assert_eq!(live, vec!["b.tex"]);
    assert_eq!(tree.files.len(), 2);
}

#[test]
fn files_with_equal_paths_keep_their_order() {
    let canonical_files = vec![canonical("z.tex", 1), canonical("a.tex", 1)];
    let operations = vec![
        operation("delete", Some("a.tex"), None, Some(1)),
        operation("rename", Some("z.tex"), Some("a.tex"), Some(1)),
    ];
    let tree = project_working_tree(&canonical_files, &vec![], &operations).expect("projects");
    let order: Vec<(&str, bool)> = tree
        .files
        .iter()
        .map(|f| (f.path.as_str(), f.pending_delete))
        .collect();
    assert_eq!(order, vec![("a.tex", false), ("a.tex", true)]);
}
