//! Front Matter renders: the managed subtree of generated files, how a render or its
//! removal rewrites it, and the values and status shown for a team.
use crate::governance::managed_front_matter_prefix;
use crate::restoration::{delete_ops, ops_view, put_ops, OperationView, WorkspaceOperation};
use crate::text::{
    chars_ends_with, chars_of, chars_starts_with, concat_str, has_prefix, has_suffix,
    insert_sorted_unique, lemma_seq_lt_irreflexive, seq_lt, str_eq, string_views, strictly_ascending,
    trim_spec,
};
use crate::working_tree::clone_string;
use vstd::prelude::*;

verus! {

/// Why a Front Matter operation failed.
#[derive(Debug, Clone, PartialEq, Eq)]
pub enum FrontMatterRepositoryError {
    NotFound,
    Forbidden,
    InUse,
    IncompatibleTemplate,
    VersionConflict,
    Integrity(String),
}

/// The message shown for a Front Matter error.
pub open spec fn fm_error_message(e: FrontMatterRepositoryError) -> Seq<char> {
    match e {
        FrontMatterRepositoryError::NotFound => "record not found"@,
        FrontMatterRepositoryError::Forbidden => "operation is not authorized"@,
        FrontMatterRepositoryError::InUse => "Front Matter Pack is in use"@,
        FrontMatterRepositoryError::IncompatibleTemplate => "This template is not configured for Front Matter."@,
        FrontMatterRepositoryError::VersionConflict => "workspace changed during Front Matter rendering"@,
        FrontMatterRepositoryError::Integrity(m) => "persistent Front Matter data is invalid: "@ + m@,
    }
}

impl FrontMatterRepositoryError {
    /// The message shown for the error.
    pub fn message(&self) -> (s: String)
        ensures
            s@ == fm_error_message(*self),
    {
        match self {
            FrontMatterRepositoryError::NotFound => "record not found".to_owned(),
            FrontMatterRepositoryError::Forbidden => "operation is not authorized".to_owned(),
            FrontMatterRepositoryError::InUse => "Front Matter Pack is in use".to_owned(),
            FrontMatterRepositoryError::IncompatibleTemplate => "This template is not configured for Front Matter.".to_owned(),
            FrontMatterRepositoryError::VersionConflict => "workspace changed during Front Matter rendering".to_owned(),
            FrontMatterRepositoryError::Integrity(m) => concat_str("persistent Front Matter data is invalid: ", m.as_str()),
        }
    }
}

/// An integrity error whose message is `m`.
pub open spec fn is_fm_integrity(e: FrontMatterRepositoryError, m: Seq<char>) -> bool {
    e matches FrontMatterRepositoryError::Integrity(x) && x@ == m
}

/// The exact state of a workspace head, kept as a version before a render replaces it.
pub struct ExactStateRecord {
    pub document_epoch: u64,
    pub workspace_version: u64,
    pub snapshot_id: String,
    pub state_hash: String,
}

/// A rendered file of the managed subtree.
pub struct ManagedFrontMatterFile {
    pub path: String,
    pub blob_hash: String,
    pub size_bytes: u64,
}

/// Rendered files as (path, blob hash, size).
pub open spec fn rendered_view(files: Seq<ManagedFrontMatterFile>) -> Seq<(Seq<char>, Seq<char>, u64)> {
    files.map_values(|f: ManagedFrontMatterFile| (f.path@, f.blob_hash@, f.size_bytes))
}

/// A live file of the managed subtree, with its stored policy.
pub struct ManagedRow {
    pub file_id: u128,
    pub path: String,
    pub policy: String,
}

/// Managed rows as (identity, path, policy).
pub open spec fn managed_view(rows: Seq<ManagedRow>) -> Seq<(u128, Seq<char>, Seq<char>)> {
    rows.map_values(|r: ManagedRow| (r.file_id, r.path@, r.policy@))
}

/// Every managed file is hidden from participants.
pub open spec fn all_hidden(rows: Seq<(u128, Seq<char>, Seq<char>)>) -> bool {
    forall|i: int| 0 <= i < rows.len() ==> #[trigger] rows[i].2 == "HIDDEN_SYSTEM"@
}

/// A managed file is at `path`.
pub open spec fn has_managed_path(rows: Seq<(u128, Seq<char>, Seq<char>)>, path: Seq<char>) -> bool {
    exists|i: int| 0 <= i < rows.len() && #[trigger] rows[i].1 == path
}

/// The identity of the managed file at `path`; a later row overrides an earlier one.
pub open spec fn managed_id(rows: Seq<(u128, Seq<char>, Seq<char>)>, path: Seq<char>) -> Option<u128>
    decreases rows.len(),
{
    if rows.len() == 0 {
        None
    } else if rows.last().1 == path {
        Some(rows.last().0)
    } else {
        managed_id(rows.drop_last(), path)
    }
}

/// The render writes a file at `path`.
pub open spec fn is_requested(files: Seq<(Seq<char>, Seq<char>, u64)>, path: Seq<char>) -> bool {
    exists|k: int| 0 <= k < files.len() && #[trigger] files[k].0 == path
}

/// No earlier rendered file has the path of file `k`.
pub open spec fn first_of_path(files: Seq<(Seq<char>, Seq<char>, u64)>, k: int) -> bool {
    forall|j: int| 0 <= j < k ==> #[trigger] files[j].0 != files[k].0
}

/// A rendered file is refused: it escapes the managed subtree or its size does not fit
/// a BIGINT.
pub open spec fn file_refused(f: (Seq<char>, Seq<char>, u64)) -> bool {
    !has_prefix(f.0, managed_front_matter_prefix()) || f.2 > i64::MAX
}

/// The error for a refused rendered file.
pub open spec fn file_error_message(f: (Seq<char>, Seq<char>, u64)) -> Seq<char> {
    if !has_prefix(f.0, managed_front_matter_prefix()) {
        "render escaped managed subtree"@
    } else {
        "value exceeds PostgreSQL BIGINT"@
    }
}

/// The first refused rendered file, if any.
pub open spec fn first_refused(files: Seq<(Seq<char>, Seq<char>, u64)>) -> Option<int> {
    if exists|k: int| 0 <= k < files.len() && #[trigger] file_refused(files[k]) {
        Some(choose|k: int| 0 <= k < files.len() && #[trigger] file_refused(files[k]) && forall|j: int| 0 <= j < k ==> !file_refused(files[j]))
    } else {
        None
    }
}

/// What a render writes.
pub struct RenderPlan {
    /// Epoch and head of the safety version, when one is kept.
    pub safety: Option<(i64, i64)>,
    /// Managed paths the render no longer has, ascending.
    pub deletes: Vec<String>,
    /// The identities of those files, in the same order.
    pub delete_ids: Vec<u128>,
    /// For each rendered file, the managed file it rewrites, or none for a new file.
    pub reuse: Vec<Option<u128>>,
    pub operations: Vec<WorkspaceOperation>,
    pub next_version: i64,
}

/// The safety version's counts as stored, if they fit a BIGINT.
pub open spec fn safety_counts(safety: Option<ExactStateRecord>) -> Option<Option<(i64, i64)>> {
    match safety {
        None => Some(None),
        Some(s) => if s.document_epoch <= i64::MAX && s.workspace_version <= i64::MAX {
            Some(Some((s.document_epoch as i64, s.workspace_version as i64)))
        } else {
            None
        },
    }
}

fn safety_fits(safety: &Option<ExactStateRecord>) -> (r: Result<Option<(i64, i64)>, FrontMatterRepositoryError>)
    ensures
        safety_counts(*safety) matches Some(c) ==> r == Ok::<Option<(i64, i64)>, FrontMatterRepositoryError>(c),
        safety_counts(*safety) is None ==> (r matches Err(e) && is_fm_integrity(
            e,
            "value exceeds PostgreSQL BIGINT"@,
        )),
{
    match safety {
        None => Ok(None),
        Some(s) => if s.document_epoch <= 0x7fff_ffff_ffff_ffffu64 && s.workspace_version
            <= 0x7fff_ffff_ffff_ffffu64 {
            Ok(Some((s.document_epoch as i64, s.workspace_version as i64)))
        } else {
            Err(FrontMatterRepositoryError::Integrity("value exceeds PostgreSQL BIGINT".to_owned()))
        },
    }
}

fn rows_hidden(rows: &Vec<ManagedRow>) -> (b: bool)
    ensures
        b == all_hidden(managed_view(rows@)),
{
    let ghost mv = managed_view(rows@);
    let mut i: usize = 0;
    while i < rows.len()
        invariant
            mv == managed_view(rows@),
            i <= rows@.len(),
            forall|j: int| 0 <= j < i ==> #[trigger] mv[j].2 == "HIDDEN_SYSTEM"@,
        decreases rows@.len() - i,
    {
        if !str_eq(rows[i].policy.as_str(), "HIDDEN_SYSTEM") {
            assert(mv[i as int].2 == rows@[i as int].policy@);
            return false;
        }
        i = i + 1;
    }
    true
}

fn find_managed_id(rows: &Vec<ManagedRow>, path: &str) -> (r: Option<u128>)
    ensures
        r == managed_id(managed_view(rows@), path@),
{
    let ghost mv = managed_view(rows@);
    let mut k: usize = rows.len();
    assert(mv.take(k as int) =~= mv);
    while k > 0
        invariant
            mv == managed_view(rows@),
            k <= rows@.len(),
            managed_id(mv, path@) == managed_id(mv.take(k as int), path@),
        decreases k,
    {
        proof {
            assert(mv.take(k as int).drop_last() =~= mv.take(k - 1));
            assert(mv.take(k as int).last() == mv[k - 1]);
        }
        if str_eq(rows[k - 1].path.as_str(), path) {
            return Some(rows[k - 1].file_id);
        }
        k = k - 1;
    }
    None
}

proof fn lemma_managed_id_some(rows: Seq<(u128, Seq<char>, Seq<char>)>, path: Seq<char>)
    ensures
        has_managed_path(rows, path) <==> managed_id(rows, path) is Some,
    decreases rows.len(),
{
    if rows.len() > 0 {
        let r = rows.drop_last();
        lemma_managed_id_some(r, path);
        if has_managed_path(rows, path) && rows.last().1 != path {
            let i = choose|i: int| 0 <= i < rows.len() && #[trigger] rows[i].1 == path;
            assert(r[i].1 == path);
        }
        if has_managed_path(r, path) {
            let i = choose|i: int| 0 <= i < r.len() && #[trigger] r[i].1 == path;
            assert(rows[i].1 == path);
        }
        if rows.last().1 == path {
            assert(rows[rows.len() - 1].1 == path);
        }
    }
}

fn path_requested(files: &Vec<ManagedFrontMatterFile>, path: &str) -> (b: bool)
    ensures
        b == is_requested(rendered_view(files@), path@),
{
    let ghost fv = rendered_view(files@);
    let mut k: usize = 0;
    while k < files.len()
        invariant
            fv == rendered_view(files@),
            k <= files@.len(),
            forall|j: int| 0 <= j < k ==> #[trigger] fv[j].0 != path@,
        decreases files@.len() - k,
    {
        assert(fv[k as int].0 == files@[k as int].path@);
        if str_eq(files[k].path.as_str(), path) {
            return true;
        }
        k = k + 1;
    }
    false
}

fn earlier_same_path(files: &Vec<ManagedFrontMatterFile>, k: usize) -> (b: bool)
    requires
        k < files@.len(),
    ensures
        b == !first_of_path(rendered_view(files@), k as int),
{
    let ghost fv = rendered_view(files@);
    let mut j: usize = 0;
    while j < k
        invariant
            fv == rendered_view(files@),
            j <= k < files@.len(),
            forall|i: int| 0 <= i < j ==> #[trigger] fv[i].0 != fv[k as int].0,
        decreases k - j,
    {
        assert(fv[j as int].0 == files@[j as int].path@);
        assert(fv[k as int].0 == files@[k as int].path@);
        if str_eq(files[j].path.as_str(), files[k].path.as_str()) {
            return true;
        }
        j = j + 1;
    }
    false
}

/// The managed paths, ascending, without repeats.
fn managed_paths(rows: &Vec<ManagedRow>) -> (r: Vec<String>)
    ensures
        strictly_ascending(string_views(r@)),
        forall|p: Seq<char>| string_views(r@).contains(p) <==> has_managed_path(managed_view(rows@), p),
{
    let ghost mv = managed_view(rows@);
    let mut out: Vec<String> = Vec::new();
    let mut i: usize = 0;
    assert(string_views(out@) =~= Seq::<Seq<char>>::empty());
    while i < rows.len()
        invariant
            mv == managed_view(rows@),
            i <= rows@.len(),
            strictly_ascending(string_views(out@)),
            forall|p: Seq<char>| string_views(out@).contains(p) <==> has_managed_path(mv.take(i as int), p),
        decreases rows@.len() - i,
    {
        let p = clone_string(&rows[i].path);
        insert_sorted_unique(&mut out, p);
        proof {
            let t1 = mv.take(i + 1);
            let t0 = mv.take(i as int);
            assert forall|q: Seq<char>| string_views(out@).contains(q) <==> has_managed_path(t1, q) by {
                if has_managed_path(t1, q) {
                    let j = choose|j: int| 0 <= j < t1.len() && #[trigger] t1[j].1 == q;
                    if j < i {
                        assert(t0[j].1 == q);
                    }
                }
                if has_managed_path(t0, q) {
                    let j = choose|j: int| 0 <= j < t0.len() && #[trigger] t0[j].1 == q;
                    assert(t1[j].1 == q);
                }
                if q == rows@[i as int].path@ {
                    assert(t1[i as int].1 == q);
                }
            }
        }
        i = i + 1;
    }
    assert(mv.take(rows@.len() as int) =~= mv);
    out
}

/// `plan` is the render of `files` over the managed rows `rows` at head `head`.
pub open spec fn render_plan_matches(
    plan: RenderPlan,
    safety: Option<(i64, i64)>,
    rows: Seq<(u128, Seq<char>, Seq<char>)>,
    files: Seq<(Seq<char>, Seq<char>, u64)>,
    head: i64,
) -> bool {
    let deletes = string_views(plan.deletes@);
    &&& plan.safety == safety
    &&& strictly_ascending(deletes)
    &&& (forall|p: Seq<char>|
        deletes.contains(p) <==> (has_managed_path(rows, p) && !is_requested(files, p)))
    &&& plan.delete_ids@.len() == deletes.len()
    &&& (forall|i: int|
        0 <= i < deletes.len() ==> Some(#[trigger] plan.delete_ids@[i]) == managed_id(rows, deletes[i]))
    &&& plan.reuse@.len() == files.len()
    &&& (forall|k: int|
        0 <= k < files.len() ==> #[trigger] plan.reuse@[k] == (if first_of_path(files, k) {
            managed_id(rows, files[k].0)
        } else {
            None
        }))
    &&& ops_view(plan.operations@) == delete_ops(deletes) + put_ops(files)
    &&& plan.next_version == head + 1
}

/// Plans a render of `files` into the paper whose workspace is `paper_workspace` and
/// whose template is `compatible` or not, over the managed rows `rows` at head `head`.
/// The checks come in this order: the workspace named by the request, the template, the
/// head, the safety counts, the policies of the managed files, each rendered file in
/// order, and the next head.
pub fn plan_render(
    request_workspace: u128,
    paper_workspace: u128,
    compatible: bool,
    expected: u64,
    head: i64,
    safety: &Option<ExactStateRecord>,
    rows: &Vec<ManagedRow>,
    files: &Vec<ManagedFrontMatterFile>,
) -> (r: Result<RenderPlan, FrontMatterRepositoryError>)
    ensures
        request_workspace != paper_workspace ==> (r matches Err(e) && is_fm_integrity(
            e,
            "paper workspace mismatch"@,
        )),
        request_workspace == paper_workspace && !compatible ==> r == Err::<
            RenderPlan,
            FrontMatterRepositoryError,
        >(FrontMatterRepositoryError::IncompatibleTemplate),
        request_workspace == paper_workspace && compatible && !(head >= 0 && head == expected)
            ==> r == Err::<RenderPlan, FrontMatterRepositoryError>(
            FrontMatterRepositoryError::VersionConflict,
        ),
        request_workspace == paper_workspace && compatible && head >= 0 && head == expected ==> {
            let rv = managed_view(rows@);
            let fv = rendered_view(files@);
            &&& safety_counts(*safety) is None ==> (r matches Err(e) && is_fm_integrity(
                e,
                "value exceeds PostgreSQL BIGINT"@,
            ))
            &&& (safety_counts(*safety) is Some && !all_hidden(rv)) ==> (r matches Err(e)
                && is_fm_integrity(e, "managed Front Matter subtree contains a non-system file"@))
            &&& (safety_counts(*safety) is Some && all_hidden(rv) && first_refused(fv) is Some)
                ==> (r matches Err(e) && is_fm_integrity(
                e,
                file_error_message(fv[first_refused(fv)->Some_0]),
            ))
            &&& (safety_counts(*safety) is Some && all_hidden(rv) && first_refused(fv) is None
                && head == i64::MAX) ==> (r matches Err(e) && is_fm_integrity(
                e,
                "workspace version overflow"@,
            ))
            &&& (safety_counts(*safety) is Some && all_hidden(rv) && first_refused(fv) is None
                && head < i64::MAX) ==> (r matches Ok(plan) && render_plan_matches(
                plan,
                safety_counts(*safety)->Some_0,
                rv,
                fv,
                head,
            ))
        },
{
    if request_workspace != paper_workspace {
        return Err(FrontMatterRepositoryError::Integrity("paper workspace mismatch".to_owned()));
    }
    if !compatible {
        return Err(FrontMatterRepositoryError::IncompatibleTemplate);
    }
    if !(head >= 0 && head as u64 == expected) {
        return Err(FrontMatterRepositoryError::VersionConflict);
    }
    let safety_plan = match safety_fits(safety) {
        Ok(c) => c,
        Err(e) => return Err(e),
    };
    if !rows_hidden(rows) {
        return Err(
            FrontMatterRepositoryError::Integrity(
                "managed Front Matter subtree contains a non-system file".to_owned(),
            ),
        );
    }
    let ghost rv = managed_view(rows@);
    let ghost fv = rendered_view(files@);
    let sorted = managed_paths(rows);
    let ghost sv = string_views(sorted@);
    let mut deletes: Vec<String> = Vec::new();
    let mut delete_ids: Vec<u128> = Vec::new();
    let mut operations: Vec<WorkspaceOperation> = Vec::new();
    let mut i: usize = 0;
    assert(string_views(deletes@) =~= Seq::<Seq<char>>::empty());
    while i < sorted.len()
        invariant
            request_workspace == paper_workspace,
            compatible,
            head >= 0 && head == expected,
            safety_counts(*safety) == Some(safety_plan),
            all_hidden(rv),
            rv == managed_view(rows@),
            fv == rendered_view(files@),
            sv == string_views(sorted@),
            strictly_ascending(sv),
            forall|p: Seq<char>| sv.contains(p) <==> has_managed_path(rv, p),
            i <= sorted@.len(),
            strictly_ascending(string_views(deletes@)),
            forall|p: Seq<char>| #[trigger]
                string_views(deletes@).contains(p) ==> exists|j: int| 0 <= j < i && sv[j] == p,
            forall|p: Seq<char>|
                #![trigger string_views(deletes@).contains(p)]
                #![trigger sv.take(i as int).contains(p)]
                string_views(deletes@).contains(p) <==> (sv.take(i as int).contains(p)
                    && !is_requested(fv, p)),
            delete_ids@.len() == deletes@.len(),
            forall|d: int|
                0 <= d < deletes@.len() ==> Some(#[trigger] delete_ids@[d]) == managed_id(
                    rv,
                    string_views(deletes@)[d],
                ),
            ops_view(operations@) == delete_ops(string_views(deletes@)),
        decreases sorted@.len() - i,
    {
        let p = &sorted[i];
        let requested = path_requested(files, p.as_str());
        let ghost before = string_views(deletes@);
        let ghost before_ops = ops_view(operations@);
        if !requested {
            let id = find_managed_id(rows, p.as_str());
            proof {
                assert(sv[i as int] == p@);
                assert(sv.contains(p@));
                lemma_managed_id_some(rv, p@);
            }
            let id = match id {
                Some(v) => v,
                None => {
                    proof {
                        assert(false);
                    }
                    0
                },
            };
            deletes.push(clone_string(p));
            delete_ids.push(id);
            operations.push(WorkspaceOperation::DeleteFile { path: clone_string(p) });
            proof {
                let nv = string_views(deletes@);
                assert(nv =~= before.push(p@));
                assert forall|a: int, b: int| 0 <= a < b < nv.len() implies seq_lt(#[trigger] nv[a], #[trigger] nv[b]) by {
                    if b == nv.len() - 1 {
                        assert(before.contains(nv[a]));
                        let j = choose|j: int| 0 <= j < i && sv[j] == nv[a];
                        assert(seq_lt(sv[j], sv[i as int]));
                    } else {
                        assert(nv[a] == before[a] && nv[b] == before[b]);
                    }
                }
                assert(ops_view(operations@) =~= before_ops.push(OperationView::DeleteFile(p@)));
                assert(delete_ops(nv) =~= delete_ops(before).push(OperationView::DeleteFile(p@)));
            }
        }
        proof {
            let nv = string_views(deletes@);
            let t1 = sv.take(i + 1);
            let t0 = sv.take(i as int);
            assert(t1 =~= t0.push(sv[i as int]));
            assert(sv[i as int] == p@);
            assert(requested == is_requested(fv, p@));
            if before.contains(p@) {
                let j = choose|j: int| 0 <= j < i && sv[j] == p@;
                assert(seq_lt(sv[j], sv[i as int]));
                lemma_seq_lt_irreflexive(p@);
            }
            if requested {
                assert(nv =~= before);
            } else {
                assert(nv =~= before.push(p@));
            }
            assert forall|q: Seq<char>| #[trigger] nv.contains(q) implies exists|j: int| 0 <= j < i + 1 && sv[j] == q by {
                if before.contains(q) {
                    let j = choose|j: int| 0 <= j < i && sv[j] == q;
                    assert(0 <= j < i + 1 && sv[j] == q);
                } else {
                    let a = choose|a: int| 0 <= a < nv.len() && nv[a] == q;
                    if a < before.len() {
                        assert(before[a] == q);
                    }
                    assert(q == p@);
                    assert(0 <= i < i + 1 && sv[i as int] == q);
                }
            }
            assert forall|q: Seq<char>| nv.contains(q) <==> (t1.contains(q) && !is_requested(fv, q)) by {
                if q == p@ {
                    assert(t1[i as int] == q);
                    if !requested {
                        assert(nv[nv.len() - 1] == q);
                    }
                } else {
                    if nv.contains(q) {
                        let a = choose|a: int| 0 <= a < nv.len() && nv[a] == q;
                        if a < before.len() {
                            assert(before[a] == q);
                        }
                    }
                    if before.contains(q) {
                        let a = choose|a: int| 0 <= a < before.len() && before[a] == q;
                        assert(nv[a] == q);
                    }
                    if t1.contains(q) {
                        let j = choose|j: int| 0 <= j < t1.len() && t1[j] == q;
                        assert(j < i);
                        assert(t0[j] == q);
                    }
                    if t0.contains(q) {
                        let j = choose|j: int| 0 <= j < t0.len() && t0[j] == q;
                        assert(t1[j] == q);
                    }
                }
            }
        }
        i = i + 1;
    }
    assert(sv.take(sorted@.len() as int) =~= sv);
    let ghost deleted_ops = ops_view(operations@);
    let mut reuse: Vec<Option<u128>> = Vec::new();
    let mut k: usize = 0;
    while k < files.len()
        invariant
            request_workspace == paper_workspace,
            compatible,
            head >= 0 && head == expected,
            safety_counts(*safety) == Some(safety_plan),
            all_hidden(rv),
            strictly_ascending(string_views(deletes@)),
            forall|p: Seq<char>|
                string_views(deletes@).contains(p) <==> (has_managed_path(rv, p) && !is_requested(fv, p)),
            delete_ids@.len() == deletes@.len(),
            forall|d: int|
                0 <= d < deletes@.len() ==> Some(#[trigger] delete_ids@[d]) == managed_id(
                    rv,
                    string_views(deletes@)[d],
                ),
            deleted_ops == delete_ops(string_views(deletes@)),
            rv == managed_view(rows@),
            fv == rendered_view(files@),
            k <= files@.len(),
            forall|j: int| 0 <= j < k ==> !#[trigger] file_refused(fv[j]),
            reuse@.len() == k,
            forall|j: int|
                0 <= j < k ==> #[trigger] reuse@[j] == (if first_of_path(fv, j) {
                    managed_id(rv, fv[j].0)
                } else {
                    None
                }),
            ops_view(operations@) == deleted_ops + put_ops(fv.take(k as int)),
        decreases files@.len() - k,
    {
        let f = &files[k];
        assert(fv[k as int] == (f.path@, f.blob_hash@, f.size_bytes));
        let pc = chars_of(f.path.as_str());
        let prefix = chars_of(".latex-core/frontmatter/");
        if !chars_starts_with(&pc, &prefix) {
            proof {
                assert(file_refused(fv[k as int]));
                lemma_first_refused_is(fv, k as int);
            }
            return Err(FrontMatterRepositoryError::Integrity("render escaped managed subtree".to_owned()));
        }
        if f.size_bytes > 0x7fff_ffff_ffff_ffffu64 {
            proof {
                assert(file_refused(fv[k as int]));
                lemma_first_refused_is(fv, k as int);
            }
            return Err(FrontMatterRepositoryError::Integrity("value exceeds PostgreSQL BIGINT".to_owned()));
        }
        let m = if earlier_same_path(files, k) {
            None
        } else {
            find_managed_id(rows, f.path.as_str())
        };
        reuse.push(m);
        let ghost before = ops_view(operations@);
        operations.push(
            WorkspaceOperation::PutFile {
                path: clone_string(&f.path),
                blob_hash: clone_string(&f.blob_hash),
                size_bytes: f.size_bytes,
            },
        );
        proof {
            assert(ops_view(operations@) =~= before.push(OperationView::PutFile(f.path@, f.blob_hash@, f.size_bytes)));
            assert(fv.take(k + 1) =~= fv.take(k as int).push(fv[k as int]));
            assert(put_ops(fv.take(k + 1)) =~= put_ops(fv.take(k as int)).push(
                OperationView::PutFile(f.path@, f.blob_hash@, f.size_bytes),
            ));
        }
        k = k + 1;
    }
    assert(fv.take(files@.len() as int) =~= fv);
    proof {
        if first_refused(fv) is Some {
            let j = choose|j: int| 0 <= j < fv.len() && #[trigger] file_refused(fv[j]);
            assert(!file_refused(fv[j]));
        }
    }
    if head == 0x7fff_ffff_ffff_ffffi64 {
        return Err(FrontMatterRepositoryError::Integrity("workspace version overflow".to_owned()));
    }
    Ok(
        RenderPlan {
            safety: safety_plan,
            deletes,
            delete_ids,
            reuse,
            operations,
            next_version: head + 1,
        },
    )
}

proof fn lemma_first_refused_is(fv: Seq<(Seq<char>, Seq<char>, u64)>, k: int)
    requires
        0 <= k < fv.len(),
        file_refused(fv[k]),
        forall|j: int| 0 <= j < k ==> !#[trigger] file_refused(fv[j]),
    ensures
        first_refused(fv) == Some(k),
{
    let c = choose|c: int| 0 <= c < fv.len() && #[trigger] file_refused(fv[c]) && forall|j: int| 0 <= j < c ==> !file_refused(fv[j]);
    assert(0 <= k < fv.len() && file_refused(fv[k]) && forall|j: int| 0 <= j < k ==> !file_refused(fv[j]));
    if c < k {
        assert(!file_refused(fv[c]));
    }
    if k < c {
        assert(!file_refused(fv[k]));
    }
}


/// The suffix of the generated entry file.
pub open spec fn entry_suffix() -> Seq<char> {
    "/frontmatter.tex"@
}

/// The path of the generated entry file.
pub open spec fn entry_path() -> Seq<char> {
    managed_front_matter_prefix() + "frontmatter.tex"@
}

/// The identity of the managed entry file; a later row overrides an earlier one.
pub open spec fn last_entry_id(rows: Seq<(u128, Seq<char>, Seq<char>)>) -> Option<u128>
    decreases rows.len(),
{
    if rows.len() == 0 {
        None
    } else if has_suffix(rows.last().1, entry_suffix()) {
        Some(rows.last().0)
    } else {
        last_entry_id(rows.drop_last())
    }
}

/// The managed files other than entry files, as (identity, path), in order.
pub open spec fn non_entry_rows(rows: Seq<(u128, Seq<char>, Seq<char>)>) -> Seq<(u128, Seq<char>)>
    decreases rows.len(),
{
    if rows.len() == 0 {
        Seq::empty()
    } else {
        let rest = non_entry_rows(rows.drop_last());
        if has_suffix(rows.last().1, entry_suffix()) {
            rest
        } else {
            rest.push((rows.last().0, rows.last().1))
        }
    }
}

/// What removing a render writes.
pub struct RemovalPlan {
    pub safety: Option<(i64, i64)>,
    /// The entry file kept and emptied, or none when a new one is inserted.
    pub entry: Option<u128>,
    /// The other managed files, tombstoned, in order.
    pub delete_ids: Vec<u128>,
    pub operations: Vec<WorkspaceOperation>,
    pub next_version: i64,
}

/// Plans the removal of a render: every managed file but the entry file is deleted, and
/// the entry file is emptied (blob `empty_blob`, size 0). The checks come in this order:
/// the workspace named by the request, the head, the safety counts, the policies of the
/// managed files.
pub fn plan_remove_render(
    request_workspace: u128,
    paper_workspace: u128,
    expected: u64,
    head: i64,
    safety: &Option<ExactStateRecord>,
    rows: &Vec<ManagedRow>,
    empty_blob: &str,
) -> (r: Result<RemovalPlan, FrontMatterRepositoryError>)
    requires
        !(head >= 0 && head == expected && head == i64::MAX),
    ensures
        request_workspace != paper_workspace ==> (r matches Err(e) && is_fm_integrity(
            e,
            "paper workspace mismatch"@,
        )),
        request_workspace == paper_workspace && !(head >= 0 && head == expected) ==> r == Err::<
            RemovalPlan,
            FrontMatterRepositoryError,
        >(FrontMatterRepositoryError::VersionConflict),
        request_workspace == paper_workspace && head >= 0 && head == expected ==> {
            let rv = managed_view(rows@);
            &&& safety_counts(*safety) is None ==> (r matches Err(e) && is_fm_integrity(
                e,
                "value exceeds PostgreSQL BIGINT"@,
            ))
            &&& (safety_counts(*safety) is Some && !all_hidden(rv)) ==> (r matches Err(e)
                && is_fm_integrity(e, "managed Front Matter subtree contains a non-system file"@))
            &&& (safety_counts(*safety) is Some && all_hidden(rv)) ==> (r matches Ok(plan) && {
                let others = non_entry_rows(rv);
                &&& plan.safety == safety_counts(*safety)->Some_0
                &&& plan.entry == last_entry_id(rv)
                &&& plan.delete_ids@ == others.map_values(|x: (u128, Seq<char>)| x.0)
                &&& ops_view(plan.operations@) == delete_ops(
                    others.map_values(|x: (u128, Seq<char>)| x.1),
                ) + seq![OperationView::PutFile(entry_path(), empty_blob@, 0)]
                &&& plan.next_version == head + 1
            })
        },
{
    if request_workspace != paper_workspace {
        return Err(FrontMatterRepositoryError::Integrity("paper workspace mismatch".to_owned()));
    }
    if !(head >= 0 && head as u64 == expected) {
        return Err(FrontMatterRepositoryError::VersionConflict);
    }
    let safety_plan = match safety_fits(safety) {
        Ok(c) => c,
        Err(e) => return Err(e),
    };
    if !rows_hidden(rows) {
        return Err(
            FrontMatterRepositoryError::Integrity(
                "managed Front Matter subtree contains a non-system file".to_owned(),
            ),
        );
    }
    let ghost rv = managed_view(rows@);
    let suffix = chars_of("/frontmatter.tex");
    let mut entry: Option<u128> = None;
    let mut delete_ids: Vec<u128> = Vec::new();
    let mut operations: Vec<WorkspaceOperation> = Vec::new();
    let mut i: usize = 0;
    assert(rv.take(0) =~= Seq::<(u128, Seq<char>, Seq<char>)>::empty());
    while i < rows.len()
        invariant
            rv == managed_view(rows@),
            suffix@ == entry_suffix(),
            i <= rows@.len(),
            entry == last_entry_id(rv.take(i as int)),
            delete_ids@ == non_entry_rows(rv.take(i as int)).map_values(|x: (u128, Seq<char>)| x.0),
            ops_view(operations@) == delete_ops(
                non_entry_rows(rv.take(i as int)).map_values(|x: (u128, Seq<char>)| x.1),
            ),
        decreases rows@.len() - i,
    {
        let row = &rows[i];
        let pc = chars_of(row.path.as_str());
        let ghost t1 = rv.take(i + 1);
        proof {
            assert(t1.drop_last() =~= rv.take(i as int));
            assert(t1.last() == (row.file_id, row.path@, row.policy@));
        }
        let ghost before_ids = delete_ids@;
        let ghost before_ops = ops_view(operations@);
        if chars_ends_with(&pc, &suffix) {
            entry = Some(row.file_id);
        } else {
            delete_ids.push(row.file_id);
            operations.push(WorkspaceOperation::DeleteFile { path: clone_string(&row.path) });
            proof {
                let rest = non_entry_rows(rv.take(i as int));
                assert(non_entry_rows(t1) == rest.push((row.file_id, row.path@)));
                assert(delete_ids@ =~= rest.push((row.file_id, row.path@)).map_values(|x: (u128, Seq<char>)| x.0));
                assert(ops_view(operations@) =~= before_ops.push(OperationView::DeleteFile(row.path@)));
                assert(rest.push((row.file_id, row.path@)).map_values(|x: (u128, Seq<char>)| x.1) =~= rest.map_values(|x: (u128, Seq<char>)| x.1).push(row.path@));
                assert(delete_ops(rest.map_values(|x: (u128, Seq<char>)| x.1).push(row.path@)) =~= delete_ops(rest.map_values(|x: (u128, Seq<char>)| x.1)).push(OperationView::DeleteFile(row.path@)));
            }
        }
        i = i + 1;
    }
    assert(rv.take(rows@.len() as int) =~= rv);
    let path = concat_str(".latex-core/frontmatter/", "frontmatter.tex");
    let ghost before_put = ops_view(operations@);
    operations.push(WorkspaceOperation::PutFile { path, blob_hash: empty_blob.to_owned(), size_bytes: 0 });
    assert(ops_view(operations@) =~= before_put.push(OperationView::PutFile(entry_path(), empty_blob@, 0)));
    Ok(RemovalPlan { safety: safety_plan, entry, delete_ids, operations, next_version: head + 1 })
}

/// The Front Matter status shown for a team: an open materialization warning wins over
/// the pin's status; without a pin it is `NONE`.
pub open spec fn shown_status(warning: Option<Seq<char>>, pin_status: Option<Seq<char>>) -> Seq<char> {
    if warning == Some("FRONT_MATTER_TEMPLATE_INCOMPATIBLE"@) {
        "INCOMPATIBLE_TEMPLATE"@
    } else if warning == Some("FRONT_MATTER_RENDER_FAILED"@) {
        "RENDER_FAILED"@
    } else {
        match pin_status {
            Some(s) => s,
            None => "NONE"@,
        }
    }
}

/// The Front Matter status shown for a team.
pub fn front_matter_status(warning: Option<&str>, pin_status: Option<&str>) -> (s: String)
    ensures
        s@ == shown_status(crate::governance::opt_text(warning), crate::governance::opt_text(pin_status)),
{
    let w = match warning {
        Some(w) => if str_eq(w, "FRONT_MATTER_TEMPLATE_INCOMPATIBLE") {
            1u8
        } else if str_eq(w, "FRONT_MATTER_RENDER_FAILED") {
            2u8
        } else {
            0u8
        },
        None => 0u8,
    };
    if w == 1 {
        "INCOMPATIBLE_TEMPLATE".to_owned()
    } else if w == 2 {
        "RENDER_FAILED".to_owned()
    } else {
        match pin_status {
            Some(p) => p.to_owned(),
            None => "NONE".to_owned(),
        }
    }
}

/// Who may edit a team's Front Matter: an administrator, or the writer who leads it.
pub fn can_edit_front_matter(role: Option<&str>, leader: Option<bool>) -> (b: bool)
    ensures
        b == (crate::governance::opt_text(role) == Some("admin"@) || (crate::governance::opt_text(role)
            == Some("writer"@) && leader == Some(true))),
{
    match role {
        Some(r) => str_eq(r, "admin") || (str_eq(r, "writer") && match leader {
            Some(l) => l,
            None => false,
        }),
        None => false,
    }
}


/// What automatic Front Matter values are drawn from about the team itself.
pub struct TeamFacts {
    pub name: String,
    pub academic_year: Option<String>,
    pub semester: Option<String>,
    pub dominant_programme_code: Option<String>,
}

/// One member of a team as the institution knows them, writers first in writer order.
pub struct MemberFacts {
    pub role: String,
    pub email: String,
    pub student_name: Option<String>,
    pub reg_no: Option<String>,
    pub is_leader: bool,
    pub faculty_name: Option<String>,
    pub honorific: Option<String>,
    pub designation: Option<String>,
    pub faculty_id: Option<String>,
    pub dept_id: Option<u128>,
    pub school_id: Option<String>,
}

/// The automatic Front Matter values of a team; an absent value is not set.
pub struct AutomaticValues {
    pub team_name: String,
    pub academic_year: Option<String>,
    pub semester: Option<String>,
    pub dominant_programme_code: Option<String>,
    pub leader_name: Option<String>,
    pub leader_registration_number: Option<String>,
    pub mentor_name: Option<String>,
    pub mentor_honorific: Option<String>,
    pub mentor_designation: Option<String>,
    pub mentor_faculty_id: Option<String>,
    pub department_id: Option<String>,
    pub school_id: Option<String>,
    pub writer_names: Vec<String>,
    pub registration_numbers: Vec<String>,
    pub names_and_registration_numbers: Vec<String>,
}

/// An optional text that is kept only when it is not blank.
pub open spec fn kept(v: Option<String>) -> Option<Seq<char>> {
    match v {
        Some(s) => if trim_spec(s@).len() > 0 {
            Some(s@)
        } else {
            None
        },
        None => None,
    }
}

/// The member writes the paper.
pub open spec fn is_writer(m: MemberFacts) -> bool {
    m.role@ == "writer"@
}

/// The member mentors the paper.
pub open spec fn is_mentor(m: MemberFacts) -> bool {
    m.role@ == "mentor"@
}

/// A writer's name: the student's name, else the account's email.
pub open spec fn writer_name(m: MemberFacts) -> Seq<char> {
    match m.student_name {
        Some(n) => n@,
        None => m.email@,
    }
}

/// A writer's name with the registration number in brackets, when there is one.
pub open spec fn writer_pair(m: MemberFacts) -> Seq<char> {
    match m.reg_no {
        Some(r) => writer_name(m) + " ("@ + r@ + ")"@,
        None => writer_name(m),
    }
}

/// The writers' names, in order.
pub open spec fn names_of(ms: Seq<MemberFacts>) -> Seq<Seq<char>>
    decreases ms.len(),
{
    if ms.len() == 0 {
        Seq::empty()
    } else if is_writer(ms.last()) {
        names_of(ms.drop_last()).push(writer_name(ms.last()))
    } else {
        names_of(ms.drop_last())
    }
}

/// The writers' registration numbers, in order, for those who have one.
pub open spec fn regs_of(ms: Seq<MemberFacts>) -> Seq<Seq<char>>
    decreases ms.len(),
{
    if ms.len() == 0 {
        Seq::empty()
    } else if is_writer(ms.last()) && ms.last().reg_no is Some {
        regs_of(ms.drop_last()).push(ms.last().reg_no->Some_0@)
    } else {
        regs_of(ms.drop_last())
    }
}

/// The writers' names with registration numbers, in order.
pub open spec fn pairs_of(ms: Seq<MemberFacts>) -> Seq<Seq<char>>
    decreases ms.len(),
{
    if ms.len() == 0 {
        Seq::empty()
    } else if is_writer(ms.last()) {
        pairs_of(ms.drop_last()).push(writer_pair(ms.last()))
    } else {
        pairs_of(ms.drop_last())
    }
}

/// The name of the last writer marked leader.
pub open spec fn leader_name_of(ms: Seq<MemberFacts>) -> Option<Seq<char>>
    decreases ms.len(),
{
    if ms.len() == 0 {
        None
    } else if is_writer(ms.last()) && ms.last().is_leader {
        Some(writer_name(ms.last()))
    } else {
        leader_name_of(ms.drop_last())
    }
}

/// The registration number of the last writer marked leader who has one.
pub open spec fn leader_reg_of(ms: Seq<MemberFacts>) -> Option<Seq<char>>
    decreases ms.len(),
{
    if ms.len() == 0 {
        None
    } else if is_writer(ms.last()) && ms.last().is_leader && ms.last().reg_no is Some {
        Some(ms.last().reg_no->Some_0@)
    } else {
        leader_reg_of(ms.drop_last())
    }
}

/// The position of the first mentor.
pub open spec fn first_mentor(ms: Seq<MemberFacts>) -> Option<int>
    decreases ms.len(),
{
    if ms.len() == 0 {
        None
    } else {
        match first_mentor(ms.drop_last()) {
            Some(i) => Some(i),
            None => if is_mentor(ms.last()) {
                Some(ms.len() - 1)
            } else {
                None
            },
        }
    }
}

/// The view of a department identity as displayed.
pub open spec fn shown_department(d: Option<u128>) -> Option<Seq<char>> {
    match d {
        Some(id) => Some(crate::import_values::uuid_display(id)),
        None => None,
    }
}

/// The values are those of team `team` with members `ms`.
pub open spec fn automatic_values_match(v: AutomaticValues, team: TeamFacts, ms: Seq<MemberFacts>) -> bool {
    let o = |x: Option<String>| crate::governance::opt_string(x);
    &&& v.team_name@ == team.name@
    &&& o(v.academic_year) == kept(team.academic_year)
    &&& o(v.semester) == kept(team.semester)
    &&& o(v.dominant_programme_code) == kept(team.dominant_programme_code)
    &&& o(v.leader_name) == leader_name_of(ms)
    &&& o(v.leader_registration_number) == leader_reg_of(ms)
    &&& string_views(v.writer_names@) == names_of(ms)
    &&& string_views(v.registration_numbers@) == regs_of(ms)
    &&& string_views(v.names_and_registration_numbers@) == pairs_of(ms)
    &&& match first_mentor(ms) {
        Some(i) => {
            &&& o(v.mentor_name) == kept(ms[i].faculty_name)
            &&& o(v.mentor_honorific) == kept(ms[i].honorific)
            &&& o(v.mentor_designation) == kept(ms[i].designation)
            &&& o(v.mentor_faculty_id) == kept(ms[i].faculty_id)
            &&& o(v.department_id) == shown_department(ms[i].dept_id)
            &&& o(v.school_id) == kept(ms[i].school_id)
        },
        None => {
            &&& v.mentor_name is None
            &&& v.mentor_honorific is None
            &&& v.mentor_designation is None
            &&& v.mentor_faculty_id is None
            &&& v.department_id is None
            &&& v.school_id is None
        },
    }
}

fn keep_text(v: &Option<String>) -> (r: Option<String>)
    ensures
        crate::governance::opt_string(r) == kept(*v),
{
    match v {
        Some(s) => {
            let t = crate::text::trim_str(s.as_str());
            let c = chars_of(t.as_str());
            if c.len() > 0 {
                Some(clone_string(s))
            } else {
                None
            }
        },
        None => None,
    }
}

/// The automatic Front Matter values of a team with members `members`.
pub fn automatic_values(team: &TeamFacts, members: &Vec<MemberFacts>) -> (v: AutomaticValues)
    ensures
        automatic_values_match(v, *team, members@),
{
    let ghost ms = members@;
    let mut writer_names: Vec<String> = Vec::new();
    let mut regs: Vec<String> = Vec::new();
    let mut pairs: Vec<String> = Vec::new();
    let mut leader_name: Option<String> = None;
    let mut leader_reg: Option<String> = None;
    let mut mentor: Option<usize> = None;
    let mut i: usize = 0;
    assert(string_views(writer_names@) =~= Seq::<Seq<char>>::empty());
    assert(string_views(regs@) =~= Seq::<Seq<char>>::empty());
    assert(string_views(pairs@) =~= Seq::<Seq<char>>::empty());
    while i < members.len()
        invariant
            ms == members@,
            i <= ms.len(),
            string_views(writer_names@) == names_of(ms.take(i as int)),
            string_views(regs@) == regs_of(ms.take(i as int)),
            string_views(pairs@) == pairs_of(ms.take(i as int)),
            crate::governance::opt_string(leader_name) == leader_name_of(ms.take(i as int)),
            crate::governance::opt_string(leader_reg) == leader_reg_of(ms.take(i as int)),
            match mentor {
                Some(k) => first_mentor(ms.take(i as int)) == Some(k as int) && k < i,
                None => first_mentor(ms.take(i as int)) is None,
            },
        decreases ms.len() - i,
    {
        let m = &members[i];
        let ghost t1 = ms.take(i + 1);
        proof {
            assert(t1.drop_last() =~= ms.take(i as int));
            assert(t1.last() == *m);
            reveal_strlit("writer");
            reveal_strlit("mentor");
            assert("writer"@[0] != "mentor"@[0]);
        }
        if str_eq(m.role.as_str(), "writer") {
            let name = match &m.student_name {
                Some(n) => clone_string(n),
                None => clone_string(&m.email),
            };
            let ghost wb = string_views(writer_names@);
            writer_names.push(clone_string(&name));
            assert(string_views(writer_names@) =~= wb.push(name@));
            let ghost pb = string_views(pairs@);
            let ghost rb = string_views(regs@);
            match &m.reg_no {
                Some(reg) => {
                    regs.push(clone_string(reg));
                    assert(string_views(regs@) =~= rb.push(reg@));
                    let a = concat_str(name.as_str(), " (");
                    let b = concat_str(a.as_str(), reg.as_str());
                    let pair = concat_str(b.as_str(), ")");
                    pairs.push(pair);
                    assert(string_views(pairs@) =~= pb.push(writer_pair(*m)));
                },
                None => {
                    pairs.push(clone_string(&name));
                    assert(string_views(pairs@) =~= pb.push(writer_pair(*m)));
                    assert(string_views(regs@) =~= rb);
                },
            }
            if m.is_leader {
                leader_name = Some(clone_string(&name));
                match &m.reg_no {
                    Some(reg) => {
                        leader_reg = Some(clone_string(reg));
                    },
                    None => {},
                }
            }
        } else if str_eq(m.role.as_str(), "mentor") && mentor.is_none() {
            mentor = Some(i);
        }
        i = i + 1;
    }
    assert(ms.take(ms.len() as int) =~= ms);
    let (mentor_name, mentor_honorific, mentor_designation, mentor_faculty_id, department_id, school_id) =
        match mentor {
        Some(k) => {
            let m = &members[k];
            let department = match m.dept_id {
                Some(d) => Some(crate::import_values::uuid_string(d)),
                None => None,
            };
            (
                keep_text(&m.faculty_name),
                keep_text(&m.honorific),
                keep_text(&m.designation),
                keep_text(&m.faculty_id),
                department,
                keep_text(&m.school_id),
            )
        },
        None => (None, None, None, None, None, None),
    };
    AutomaticValues {
        team_name: clone_string(&team.name),
        academic_year: keep_text(&team.academic_year),
        semester: keep_text(&team.semester),
        dominant_programme_code: keep_text(&team.dominant_programme_code),
        leader_name,
        leader_registration_number: leader_reg,
        mentor_name,
        mentor_honorific,
        mentor_designation,
        mentor_faculty_id,
        department_id,
        school_id,
        writer_names,
        registration_numbers: regs,
        names_and_registration_numbers: pairs,
    }
}

} // verus!
