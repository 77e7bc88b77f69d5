//! Restoring a workspace to an earlier version: which live files are deleted, which file
//! identities come back, and the mutation that records it as a new head.
use crate::error::V2Error;
use crate::governance::{digest_length_ok, is_digest_len, is_integrity, next_workspace_version, to_i64};
use crate::import_values::{parse_uuid, uuid_text, uuid_value};
use crate::text::{insert_sorted_unique, str_eq, string_views, strictly_ascending};
use crate::working_tree::clone_string;
use vstd::prelude::*;

verus! {

/// The exact state of a workspace head, kept as a safety version before it is replaced.
pub struct ExactRestoreState {
    pub document_epoch: u64,
    pub workspace_version: u64,
    pub snapshot_id: String,
    pub state_hash: String,
}

/// Refuses a safety state without a head version or without a hex SHA-256 state hash.
pub fn check_restore_state(safety: &ExactRestoreState) -> (r: Result<(), V2Error>)
    ensures
        r is Err <==> (safety.workspace_version == 0 || !is_digest_len(safety.state_hash@)),
        r matches Err(e) ==> is_integrity(e, "invalid pre-restore exact state"@),
{
    if safety.workspace_version == 0 || !digest_length_ok(safety.state_hash.as_str()) {
        Err(V2Error::Integrity { message: "invalid pre-restore exact state".to_owned() })
    } else {
        Ok(())
    }
}

/// Who restores: a Team Leader reverting the team paper, or a writer their own paper.
#[derive(Copy, Clone, Debug, PartialEq, Eq, Structural)]
pub enum RestoreKind {
    Team,
    Personal,
}

/// The version type recorded for a restoration.
pub open spec fn restore_version_type(k: RestoreKind) -> Seq<char> {
    match k {
        RestoreKind::Team => "team_revert"@,
        RestoreKind::Personal => "admin_restoration"@,
    }
}

/// The version name recorded for a restoration.
pub open spec fn restore_version_name(k: RestoreKind) -> Seq<char> {
    match k {
        RestoreKind::Team => "Team revert"@,
        RestoreKind::Personal => "Personal restoration"@,
    }
}

impl RestoreKind {
    /// The version type recorded for this kind of restoration.
    pub fn version_type(self) -> (s: &'static str)
        ensures
            s@ == restore_version_type(self),
    {
        match self {
            RestoreKind::Team => "team_revert",
            RestoreKind::Personal => "admin_restoration",
        }
    }

    /// The version name recorded for this kind of restoration.
    pub fn version_name(self) -> (s: &'static str)
        ensures
            s@ == restore_version_name(self),
    {
        match self {
            RestoreKind::Team => "Team revert",
            RestoreKind::Personal => "Personal restoration",
        }
    }
}

/// A file row of the workspace, live or tombstoned.
pub struct StoredFileRow {
    pub file_id: u128,
    pub path: String,
    pub tombstoned: bool,
}

/// Rows as (identity, path, tombstoned).
pub open spec fn rows_view(rows: Seq<StoredFileRow>) -> Seq<(u128, Seq<char>, bool)> {
    rows.map_values(|r: StoredFileRow| (r.file_id, r.path@, r.tombstoned))
}

/// A file of the target version's manifest.
pub struct ManifestFile {
    pub path: String,
    pub blob_hash: String,
    pub size_bytes: u64,
}

/// Manifest files as (path, blob hash, size).
pub open spec fn manifest_view(files: Seq<ManifestFile>) -> Seq<(Seq<char>, Seq<char>, u64)> {
    files.map_values(|f: ManifestFile| (f.path@, f.blob_hash@, f.size_bytes))
}

/// A (path, file identity) entry recorded in a version, the identity still as text.
pub struct IdentityEntry {
    pub path: String,
    pub file_id: String,
}

/// Identity entries as (path, identity text).
pub open spec fn entries_view(entries: Seq<IdentityEntry>) -> Seq<(Seq<char>, Seq<char>)> {
    entries.map_values(|e: IdentityEntry| (e.path@, e.file_id@))
}

/// The entries whose identity is a UUID, with the UUID read, in their order.
pub open spec fn identities_of(entries: Seq<(Seq<char>, Seq<char>)>) -> Seq<(Seq<char>, u128)>
    decreases entries.len(),
{
    if entries.len() == 0 {
        Seq::empty()
    } else {
        let rest = identities_of(entries.drop_last());
        let e = entries.last();
        if uuid_text(e.1) {
            rest.push((e.0, uuid_value(e.1)))
        } else {
            rest
        }
    }
}

/// The identity recorded for `path`; a later entry overrides an earlier one.
pub open spec fn last_identity(ids: Seq<(Seq<char>, u128)>, path: Seq<char>) -> Option<u128>
    decreases ids.len(),
{
    if ids.len() == 0 {
        None
    } else if ids.last().0 == path {
        Some(ids.last().1)
    } else {
        last_identity(ids.drop_last(), path)
    }
}

/// The identity of the live row at `path`; a later row overrides an earlier one.
pub open spec fn last_live_id(rows: Seq<(u128, Seq<char>, bool)>, path: Seq<char>) -> Option<u128>
    decreases rows.len(),
{
    if rows.len() == 0 {
        None
    } else if !rows.last().2 && rows.last().1 == path {
        Some(rows.last().0)
    } else {
        last_live_id(rows.drop_last(), path)
    }
}

/// Some row of the workspace, live or not, has identity `id`.
pub open spec fn has_file_id(rows: Seq<(u128, Seq<char>, bool)>, id: u128) -> bool {
    exists|i: int| 0 <= i < rows.len() && #[trigger] rows[i].0 == id
}

/// Some live row of the workspace is at `path`.
pub open spec fn is_live_path(rows: Seq<(u128, Seq<char>, bool)>, path: Seq<char>) -> bool {
    exists|i: int| 0 <= i < rows.len() && !rows[i].2 && #[trigger] rows[i].1 == path
}

/// How a restored file gets its row.
#[derive(Copy, Clone, Debug, PartialEq, Eq, Structural)]
pub enum FileMaterialization {
    /// The row with this identity exists: it is moved to the path and made live again.
    Revive(u128),
    /// No row has this recorded identity: a row with it is inserted.
    Insert(u128),
    /// Nothing identifies the file: a row with a new identity is inserted.
    InsertFresh,
}

/// The identity a restored path takes: the one the version recorded, else that of the
/// live file now at the path.
pub open spec fn chosen_identity(
    rows: Seq<(u128, Seq<char>, bool)>,
    ids: Seq<(Seq<char>, u128)>,
    path: Seq<char>,
) -> Option<u128> {
    match last_identity(ids, path) {
        Some(id) => Some(id),
        None => last_live_id(rows, path),
    }
}

/// How the file restored at `path` gets its row.
pub open spec fn materialization(
    rows: Seq<(u128, Seq<char>, bool)>,
    ids: Seq<(Seq<char>, u128)>,
    path: Seq<char>,
) -> FileMaterialization {
    match chosen_identity(rows, ids, path) {
        Some(id) => if has_file_id(rows, id) {
            FileMaterialization::Revive(id)
        } else {
            FileMaterialization::Insert(id)
        },
        None => FileMaterialization::InsertFresh,
    }
}

/// One operation of a recorded workspace mutation.
pub enum WorkspaceOperation {
    DeleteFile { path: String },
    PutFile { path: String, blob_hash: String, size_bytes: u64 },
    SetMainFile { path: String },
}

/// The value of a workspace operation.
pub enum OperationView {
    DeleteFile(Seq<char>),
    PutFile(Seq<char>, Seq<char>, u64),
    SetMainFile(Seq<char>),
}

impl View for WorkspaceOperation {
    type V = OperationView;

    open spec fn view(&self) -> OperationView {
        match self {
            WorkspaceOperation::DeleteFile { path } => OperationView::DeleteFile(path@),
            WorkspaceOperation::PutFile { path, blob_hash, size_bytes } => OperationView::PutFile(
                path@,
                blob_hash@,
                *size_bytes,
            ),
            WorkspaceOperation::SetMainFile { path } => OperationView::SetMainFile(path@),
        }
    }
}

/// The values of a list of operations.
pub open spec fn ops_view(ops: Seq<WorkspaceOperation>) -> Seq<OperationView> {
    ops.map_values(|o: WorkspaceOperation| o@)
}

/// Delete operations for `paths`, in order.
pub open spec fn delete_ops(paths: Seq<Seq<char>>) -> Seq<OperationView> {
    paths.map_values(|p: Seq<char>| OperationView::DeleteFile(p))
}

/// Put operations for `files`, in order.
pub open spec fn put_ops(files: Seq<(Seq<char>, Seq<char>, u64)>) -> Seq<OperationView> {
    files.map_values(|f: (Seq<char>, Seq<char>, u64)| OperationView::PutFile(f.0, f.1, f.2))
}

/// The mutation that restores `files` with main file `main` over a workspace whose
/// live paths are `deletes`.
pub open spec fn restore_operations(
    deletes: Seq<Seq<char>>,
    files: Seq<(Seq<char>, Seq<char>, u64)>,
    main: Seq<char>,
) -> Seq<OperationView> {
    delete_ops(deletes) + put_ops(files) + seq![OperationView::SetMainFile(main)]
}

/// What a restoration writes.
pub struct RestorePlan {
    /// Epoch of the safety version, as stored.
    pub safety_epoch: i64,
    /// Every live path, ascending: all live files are tombstoned first.
    pub deletes: Vec<String>,
    /// For each manifest file, in order, how its row is materialized.
    pub files: Vec<FileMaterialization>,
    /// The recorded mutation.
    pub operations: Vec<WorkspaceOperation>,
    /// The new head version.
    pub next_version: i64,
}

/// `plan` is the restoration of `files` (main file `main`, identities `entries`) over a
/// workspace with rows `rows` and head `actual`, with safety epoch `epoch`.
pub open spec fn restore_plan_matches(
    plan: RestorePlan,
    epoch: u64,
    actual: i64,
    rows: Seq<(u128, Seq<char>, bool)>,
    entries: Seq<(Seq<char>, Seq<char>)>,
    files: Seq<(Seq<char>, Seq<char>, u64)>,
    main: Seq<char>,
) -> bool {
    let ids = identities_of(entries);
    let deletes = string_views(plan.deletes@);
    &&& plan.safety_epoch == epoch
    &&& plan.next_version == actual + 1
    &&& strictly_ascending(deletes)
    &&& (forall|p: Seq<char>| deletes.contains(p) <==> is_live_path(rows, p))
    &&& plan.files@.len() == files.len()
    &&& (forall|k: int|
        0 <= k < files.len() ==> #[trigger] plan.files@[k] == materialization(rows, ids, files[k].0))
    &&& ops_view(plan.operations@) == restore_operations(deletes, files, main)
}

/// Identity entries as (path, identity) pairs.
pub open spec fn pairs_view(ids: Seq<(String, u128)>) -> Seq<(Seq<char>, u128)> {
    ids.map_values(|e: (String, u128)| (e.0@, e.1))
}

/// Reads the identities recorded in a version, skipping entries whose identity is not a
/// UUID.
pub fn recorded_identities(entries: &Vec<IdentityEntry>) -> (r: Vec<(String, u128)>)
    ensures
        pairs_view(r@) == identities_of(entries_view(entries@)),
{
    let ghost ev = entries_view(entries@);
    let mut out: Vec<(String, u128)> = Vec::new();
    let mut i: usize = 0;
    proof {
        assert(ev.take(0) =~= Seq::<(Seq<char>, Seq<char>)>::empty());
        assert(pairs_view(out@) =~= Seq::<(Seq<char>, u128)>::empty());
    }
    while i < entries.len()
        invariant
            ev == entries_view(entries@),
            i <= entries@.len(),
            pairs_view(out@) == identities_of(ev.take(i as int)),
        decreases entries@.len() - i,
    {
        let e = &entries[i];
        proof {
            assert(ev.take(i + 1).drop_last() =~= ev.take(i as int));
            assert(ev.take(i + 1).last() == (e.path@, e.file_id@));
        }
        match parse_uuid(e.file_id.as_str()) {
            Some(id) => {
                let p = clone_string(&e.path);
                let ghost before = out@;
                out.push((p, id));
                assert(pairs_view(out@) =~= pairs_view(before).push((e.path@, id)));
            },
            None => {},
        }
        i = i + 1;
    }
    assert(ev.take(entries@.len() as int) =~= ev);
    out
}

fn find_identity(ids: &Vec<(String, u128)>, path: &str) -> (r: Option<u128>)
    ensures
        r == last_identity(pairs_view(ids@), path@),
{
    let ghost pv = pairs_view(ids@);
    let mut k: usize = ids.len();
    assert(pv.take(k as int) =~= pv);
    while k > 0
        invariant
            pv == pairs_view(ids@),
            k <= ids@.len(),
            last_identity(pv, path@) == last_identity(pv.take(k as int), path@),
        decreases k,
    {
        proof {
            assert(pv.take(k as int).drop_last() =~= pv.take(k - 1));
            assert(pv.take(k as int).last() == pv[k - 1]);
        }
        if str_eq(ids[k - 1].0.as_str(), path) {
            return Some(ids[k - 1].1);
        }
        k = k - 1;
    }
    None
}

fn find_live_id(rows: &Vec<StoredFileRow>, path: &str) -> (r: Option<u128>)
    ensures
        r == last_live_id(rows_view(rows@), path@),
{
    let ghost rv = rows_view(rows@);
    let mut k: usize = rows.len();
    assert(rv.take(k as int) =~= rv);
    while k > 0
        invariant
            rv == rows_view(rows@),
            k <= rows@.len(),
            last_live_id(rv, path@) == last_live_id(rv.take(k as int), path@),
        decreases k,
    {
        proof {
            assert(rv.take(k as int).drop_last() =~= rv.take(k - 1));
            assert(rv.take(k as int).last() == rv[k - 1]);
        }
        if !rows[k - 1].tombstoned && str_eq(rows[k - 1].path.as_str(), path) {
            return Some(rows[k - 1].file_id);
        }
        k = k - 1;
    }
    None
}

fn contains_file_id(rows: &Vec<StoredFileRow>, id: u128) -> (b: bool)
    ensures
        b == has_file_id(rows_view(rows@), id),
{
    let ghost rv = rows_view(rows@);
    let mut i: usize = 0;
    while i < rows.len()
        invariant
            rv == rows_view(rows@),
            i <= rows@.len(),
            forall|j: int| 0 <= j < i ==> rv[j].0 != id,
        decreases rows@.len() - i,
    {
        if rows[i].file_id == id {
            assert(rv[i as int].0 == id);
            return true;
        }
        i = i + 1;
    }
    false
}

/// The live paths of the workspace, ascending and without repeats.
fn live_paths(rows: &Vec<StoredFileRow>) -> (r: Vec<String>)
    ensures
        strictly_ascending(string_views(r@)),
        forall|p: Seq<char>| string_views(r@).contains(p) <==> is_live_path(rows_view(rows@), p),
{
    let ghost rv = rows_view(rows@);
    let mut out: Vec<String> = Vec::new();
    let mut i: usize = 0;
    assert(string_views(out@) =~= Seq::<Seq<char>>::empty());
    while i < rows.len()
        invariant
            rv == rows_view(rows@),
            i <= rows@.len(),
            strictly_ascending(string_views(out@)),
            forall|p: Seq<char>|
                string_views(out@).contains(p) <==> is_live_path(rv.take(i as int), p),
        decreases rows@.len() - i,
    {
        let ghost before = string_views(out@);
        if !rows[i].tombstoned {
            let p = clone_string(&rows[i].path);
            insert_sorted_unique(&mut out, p);
        }
        proof {
            let t1 = rv.take(i + 1);
            let t0 = rv.take(i as int);
            assert forall|p: Seq<char>| string_views(out@).contains(p) <==> is_live_path(t1, p) by {
                if is_live_path(t1, p) {
                    let j = choose|j: int| 0 <= j < t1.len() && !t1[j].2 && #[trigger] t1[j].1 == p;
                    if j < i {
                        assert(t0[j].1 == p);
                        assert(is_live_path(t0, p));
                    }
                }
                if is_live_path(t0, p) {
                    let j = choose|j: int| 0 <= j < t0.len() && !t0[j].2 && #[trigger] t0[j].1 == p;
                    assert(t1[j].1 == p);
                }
                if !rows@[i as int].tombstoned && p == rows@[i as int].path@ {
                    assert(t1[i as int].1 == p);
                }
            }
        }
        i = i + 1;
    }
    assert(rv.take(rows@.len() as int) =~= rv);
    out
}

fn materialize(rows: &Vec<StoredFileRow>, ids: &Vec<(String, u128)>, path: &str) -> (m: FileMaterialization)
    ensures
        m == materialization(rows_view(rows@), pairs_view(ids@), path@),
{
    let chosen = match find_identity(ids, path) {
        Some(id) => Some(id),
        None => find_live_id(rows, path),
    };
    match chosen {
        Some(id) => if contains_file_id(rows, id) {
            FileMaterialization::Revive(id)
        } else {
            FileMaterialization::Insert(id)
        },
        None => FileMaterialization::InsertFresh,
    }
}

/// Plans the restoration of a version with manifest `files` (main file `main_file`) and
/// recorded identities `entries` over a workspace with rows `rows` and head `actual`.
/// Refused when the safety epoch does not fit a BIGINT or the head cannot advance.
pub fn plan_restore(
    safety: &ExactRestoreState,
    actual: i64,
    rows: &Vec<StoredFileRow>,
    entries: &Vec<IdentityEntry>,
    files: &Vec<ManifestFile>,
    main_file: &str,
) -> (r: Result<RestorePlan, V2Error>)
    ensures
        safety.document_epoch > i64::MAX ==> (r matches Err(e) && is_integrity(
            e,
            "governance number exceeds PostgreSQL BIGINT"@,
        )),
        safety.document_epoch <= i64::MAX && actual == i64::MAX ==> (r matches Err(e)
            && is_integrity(e, "workspace version overflow"@)),
        safety.document_epoch <= i64::MAX && actual < i64::MAX ==> (r matches Ok(plan)
            && restore_plan_matches(
            plan,
            safety.document_epoch,
            actual,
            rows_view(rows@),
            entries_view(entries@),
            manifest_view(files@),
            main_file@,
        )),
{
    let safety_epoch = match to_i64(safety.document_epoch) {
        Ok(v) => v,
        Err(e) => return Err(e),
    };
    let deletes = live_paths(rows);
    let ids = recorded_identities(entries);
    let ghost rv = rows_view(rows@);
    let ghost iv = pairs_view(ids@);
    let ghost mv = manifest_view(files@);
    let mut plans: Vec<FileMaterialization> = Vec::new();
    let mut operations: Vec<WorkspaceOperation> = Vec::new();
    let mut d: usize = 0;
    while d < deletes.len()
        invariant
            d <= deletes@.len(),
            ops_view(operations@) == delete_ops(string_views(deletes@).take(d as int)),
        decreases deletes@.len() - d,
    {
        let p = clone_string(&deletes[d]);
        let ghost before = ops_view(operations@);
        operations.push(WorkspaceOperation::DeleteFile { path: p });
        assert(ops_view(operations@) =~= before.push(OperationView::DeleteFile(deletes@[d as int]@)));
        assert(string_views(deletes@).take(d + 1) =~= string_views(deletes@).take(d as int).push(
            deletes@[d as int]@,
        ));
        assert(delete_ops(string_views(deletes@).take(d + 1)) =~= delete_ops(
            string_views(deletes@).take(d as int),
        ).push(OperationView::DeleteFile(deletes@[d as int]@)));
        d = d + 1;
    }
    assert(string_views(deletes@).take(deletes@.len() as int) =~= string_views(deletes@));
    let ghost del_ops = ops_view(operations@);
    let mut k: usize = 0;
    while k < files.len()
        invariant
            rv == rows_view(rows@),
            iv == pairs_view(ids@),
            iv == identities_of(entries_view(entries@)),
            mv == manifest_view(files@),
            k <= files@.len(),
            plans@.len() == k,
            forall|j: int| 0 <= j < k ==> #[trigger] plans@[j] == materialization(rv, iv, mv[j].0),
            ops_view(operations@) == del_ops + put_ops(mv.take(k as int)),
        decreases files@.len() - k,
    {
        let f = &files[k];
        let m = materialize(rows, &ids, f.path.as_str());
        plans.push(m);
        let op = WorkspaceOperation::PutFile {
            path: clone_string(&f.path),
            blob_hash: clone_string(&f.blob_hash),
            size_bytes: f.size_bytes,
        };
        let ghost before = ops_view(operations@);
        operations.push(op);
        proof {
            assert(ops_view(operations@) =~= before.push(OperationView::PutFile(f.path@, f.blob_hash@, f.size_bytes)));
            assert(mv.take(k + 1) =~= mv.take(k as int).push(mv[k as int]));
            assert(put_ops(mv.take(k + 1)) =~= put_ops(mv.take(k as int)).push(
                OperationView::PutFile(f.path@, f.blob_hash@, f.size_bytes),
            ));
        }
        k = k + 1;
    }
    assert(mv.take(files@.len() as int) =~= mv);
    let ghost before_main = ops_view(operations@);
    operations.push(WorkspaceOperation::SetMainFile { path: main_file.to_owned() });
    assert(ops_view(operations@) =~= before_main.push(OperationView::SetMainFile(main_file@)));
    let next_version = match next_workspace_version(actual) {
        Ok(v) => v,
        Err(e) => return Err(e),
    };
    let plan = RestorePlan { safety_epoch, deletes, files: plans, operations, next_version };
    proof {
        assert(ops_view(plan.operations@) =~= restore_operations(
            string_views(plan.deletes@),
            mv,
            main_file@,
        ));
    }
    Ok(plan)
}

/// The applied epoch and head of a restoration, as counts.
pub fn restored_counts(epoch: i64, next_version: i64) -> (r: Result<(u64, u64), V2Error>)
    ensures
        epoch < 0 ==> (r matches Err(e) && is_integrity(e, "negative restored epoch"@)),
        epoch >= 0 && next_version < 0 ==> (r matches Err(e) && is_integrity(
            e,
            "negative restored workspace version"@,
        )),
        epoch >= 0 && next_version >= 0 ==> r == Ok::<(u64, u64), V2Error>(
            (epoch as u64, next_version as u64),
        ),
{
    if epoch < 0 {
        return Err(V2Error::Integrity { message: "negative restored epoch".to_owned() });
    }
    if next_version < 0 {
        return Err(V2Error::Integrity { message: "negative restored workspace version".to_owned() });
    }
    Ok((epoch as u64, next_version as u64))
}

} // verus!
