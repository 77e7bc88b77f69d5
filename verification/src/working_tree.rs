//! The private working-tree projection of a team project: canonical files, a
//! member's drafts and the member's ordered staged structural operations are
//! combined into one normalized view, without changing canonical state.
use crate::error::AppError;
use crate::text::{seq_lt, str_eq, str_lt, lemma_seq_lt_irreflexive, lemma_seq_lt_transitive};
use vstd::prelude::*;

verus! {

/// One canonical file row of a team project.
#[derive(Clone, Debug)]
pub struct CanonicalFile {
    pub path: String,
    pub blob_hash: String,
    pub size_bytes: u64,
    pub revision: u64,
}

/// A member's private draft of one path.
#[derive(Clone, Debug)]
pub struct MemberDraftRecord {
    pub path: String,
    pub base_revision: u64,
    pub draft_revision: u64,
    pub blob_hash: String,
    pub size_bytes: u64,
}

/// One staged structural operation, in the order it was staged.
#[derive(Clone, Debug)]
pub struct StagedOperation {
    pub operation_type: String,
    pub source_path: Option<String>,
    pub destination_path: Option<String>,
    pub base_file_revision: Option<i64>,
}

/// A file as the member currently sees it. The flags keep the composable internal
/// state (for example renamed and modified); `change_state` collapses them.
#[derive(Clone, Debug)]
pub struct ProjectedTeamFile {
    pub path: String,
    pub canonical_path: Option<String>,
    pub canonical_revision: Option<u64>,
    pub blob_hash: String,
    pub size_bytes: u64,
    pub draft_revision: Option<u64>,
    pub added: bool,
    pub modified: bool,
    pub renamed: bool,
    pub pending_delete: bool,
}

/// The primary user-visible state of a projected file.
#[derive(Clone, Copy, Debug, PartialEq, Eq, Structural)]
pub enum ProjectedChangeState {
    Canonical,
    Modified,
    Added,
    Renamed,
    PendingDelete,
}

/// Counts of pending changes by kind.
#[derive(Clone, Copy, Debug, PartialEq, Eq, Structural)]
pub struct PendingChangeSummary {
    pub modified: u64,
    pub added: u64,
    pub renamed: u64,
    pub deleted: u64,
    pub main_changed: bool,
    pub total: u64,
}

/// The normalized private view of one member.
#[derive(Clone, Debug)]
pub struct PrivateWorkingTree {
    pub files: Vec<ProjectedTeamFile>,
    pub pending_main: Option<String>,
    pub summary: PendingChangeSummary,
}

/// The mathematical value of a projected file.
#[verifier::ext_equal]
pub ghost struct FileView {
    pub path: Seq<char>,
    pub canonical_path: Option<Seq<char>>,
    pub canonical_revision: Option<u64>,
    pub blob_hash: Seq<char>,
    pub size_bytes: u64,
    pub draft_revision: Option<u64>,
    pub added: bool,
    pub modified: bool,
    pub renamed: bool,
    pub pending_delete: bool,
}

/// The mathematical value of a draft.
pub ghost struct DraftView {
    pub path: Seq<char>,
    pub base_revision: u64,
    pub draft_revision: u64,
    pub blob_hash: Seq<char>,
    pub size_bytes: u64,
}

/// The mathematical value of a staged operation.
pub ghost struct OperationView {
    pub kind: Seq<char>,
    pub source: Option<Seq<char>>,
    pub destination: Option<Seq<char>>,
    pub base: Option<i64>,
}

/// The view of an optional string.
pub open spec fn opt_view(o: Option<String>) -> Option<Seq<char>> {
    match o {
        Some(s) => Some(s@),
        None => None,
    }
}

impl View for ProjectedTeamFile {
    type V = FileView;

    open spec fn view(&self) -> FileView {
        FileView {
            path: self.path@,
            canonical_path: opt_view(self.canonical_path),
            canonical_revision: self.canonical_revision,
            blob_hash: self.blob_hash@,
            size_bytes: self.size_bytes,
            draft_revision: self.draft_revision,
            added: self.added,
            modified: self.modified,
            renamed: self.renamed,
            pending_delete: self.pending_delete,
        }
    }
}

impl View for MemberDraftRecord {
    type V = DraftView;

    open spec fn view(&self) -> DraftView {
        DraftView {
            path: self.path@,
            base_revision: self.base_revision,
            draft_revision: self.draft_revision,
            blob_hash: self.blob_hash@,
            size_bytes: self.size_bytes,
        }
    }
}

impl View for StagedOperation {
    type V = OperationView;

    open spec fn view(&self) -> OperationView {
        OperationView {
            kind: self.operation_type@,
            source: opt_view(self.source_path),
            destination: opt_view(self.destination_path),
            base: self.base_file_revision,
        }
    }
}

/// Views of a sequence of projected files.
pub open spec fn files_view(s: Seq<ProjectedTeamFile>) -> Seq<FileView> {
    s.map_values(|f: ProjectedTeamFile| f@)
}

/// Views of a sequence of drafts.
pub open spec fn drafts_view(s: Seq<MemberDraftRecord>) -> Seq<DraftView> {
    s.map_values(|d: MemberDraftRecord| d@)
}

/// Views of a sequence of staged operations.
pub open spec fn operations_view(s: Seq<StagedOperation>) -> Seq<OperationView> {
    s.map_values(|o: StagedOperation| o@)
}

/// The projection of a canonical row before any private change.
pub open spec fn canonical_file_view(c: CanonicalFile) -> FileView {
    FileView {
        path: c.path@,
        canonical_path: Some(c.path@),
        canonical_revision: Some(c.revision),
        blob_hash: c.blob_hash@,
        size_bytes: c.size_bytes,
        draft_revision: None,
        added: false,
        modified: false,
        renamed: false,
        pending_delete: false,
    }
}

/// The projection of a draft for a path that has no canonical file.
pub open spec fn added_file_view(d: DraftView) -> FileView {
    FileView {
        path: d.path,
        canonical_path: None,
        canonical_revision: None,
        blob_hash: d.blob_hash,
        size_bytes: d.size_bytes,
        draft_revision: Some(d.draft_revision),
        added: true,
        modified: false,
        renamed: false,
        pending_delete: false,
    }
}

/// Kinds of failure of the projection.
#[derive(Clone, Copy, Debug, PartialEq, Eq, Structural)]
pub enum FailureKind {
    NotFound,
    Conflict,
    Integrity,
}

/// The kind of an application error.
pub open spec fn failure_kind(e: AppError) -> FailureKind {
    match e {
        AppError::NotFound => FailureKind::NotFound,
        AppError::Conflict => FailureKind::Conflict,
        _ => FailureKind::Integrity,
    }
}

/// Index of the first live (not pending-delete) file at `path`, searching from `i`; -1 if none.
pub open spec fn live_index_from(files: Seq<FileView>, path: Seq<char>, i: int) -> int
    decreases files.len() - i,
{
    if i < 0 || i >= files.len() {
        -1
    } else if !files[i].pending_delete && files[i].path == path {
        i
    } else {
        live_index_from(files, path, i + 1)
    }
}

/// Index of the first live file at `path`; -1 if none.
pub open spec fn live_index(files: Seq<FileView>, path: Seq<char>) -> int {
    live_index_from(files, path, 0)
}

/// Index of the first draft-only draft (base revision 0) at `path`, from `i`; -1 if none.
pub open spec fn fresh_draft_from(drafts: Seq<DraftView>, path: Seq<char>, i: int) -> int
    decreases drafts.len() - i,
{
    if i < 0 || i >= drafts.len() {
        -1
    } else if drafts[i].path == path && drafts[i].base_revision == 0 {
        i
    } else {
        fresh_draft_from(drafts, path, i + 1)
    }
}

/// Whether a draft overlays a file: same current path, or the file was renamed from the
/// draft's path at the canonical revision the draft was based on.
pub open spec fn overlays(f: FileView, d: DraftView) -> bool {
    &&& !f.pending_delete
    &&& (f.path == d.path || (f.canonical_path == Some(d.path) && f.canonical_revision == Some(
        d.base_revision,
    )))
}

/// Index of the first file that a draft overlays, from `i`; -1 if none.
pub open spec fn overlay_index_from(files: Seq<FileView>, d: DraftView, i: int) -> int
    decreases files.len() - i,
{
    if i < 0 || i >= files.len() {
        -1
    } else if overlays(files[i], d) {
        i
    } else {
        overlay_index_from(files, d, i + 1)
    }
}

/// Whether some file, live or not, is at `path`.
pub open spec fn has_any_at(files: Seq<FileView>, path: Seq<char>) -> bool {
    exists|k: int| 0 <= k < files.len() && #[trigger] files[k].path == path
}

/// Whether some pending-delete file is at `path`.
pub open spec fn has_deleted_at(files: Seq<FileView>, path: Seq<char>) -> bool {
    exists|k: int| 0 <= k < files.len() && #[trigger] files[k].pending_delete && files[k].path == path
}


/// The projection state while staged operations are replayed.
#[verifier::ext_equal]
pub ghost struct ProjectionState {
    pub files: Seq<FileView>,
    pub consumed: Set<Seq<char>>,
    pub main: Option<Seq<char>>,
}

/// Canonical rows as unchanged projected files.
pub open spec fn canonical_files_view(c: Seq<CanonicalFile>) -> Seq<FileView> {
    c.map_values(|x: CanonicalFile| canonical_file_view(x))
}

/// Draft-only drafts (base revision 0, no file at the path yet) join the projection
/// before operations replay; the first `n` drafts are considered in order.
pub open spec fn seed_drafts(
    files: Seq<FileView>,
    consumed: Set<Seq<char>>,
    drafts: Seq<DraftView>,
    n: nat,
) -> (Seq<FileView>, Set<Seq<char>>)
    decreases n,
{
    if n == 0 {
        (files, consumed)
    } else {
        let prev = seed_drafts(files, consumed, drafts, (n - 1) as nat);
        let d = drafts[n - 1];
        if d.base_revision == 0 && !has_any_at(prev.0, d.path) {
            (prev.0.push(added_file_view(d)), prev.1.insert(d.path))
        } else {
            prev
        }
    }
}

/// A structural operation may consume a draft-only source with no live file yet.
pub open spec fn pull_source(
    st: ProjectionState,
    drafts: Seq<DraftView>,
    source: Seq<char>,
) -> Result<ProjectionState, FailureKind> {
    if live_index(st.files, source) >= 0 {
        Ok(st)
    } else {
        let k = fresh_draft_from(drafts, source, 0);
        if k < 0 {
            Err(FailureKind::NotFound)
        } else {
            Ok(
                ProjectionState {
                    files: st.files.push(added_file_view(drafts[k])),
                    consumed: st.consumed.insert(source),
                    main: st.main,
                },
            )
        }
    }
}

/// A file of canonical origin takes the base revision recorded with the operation.
pub open spec fn with_base(f: FileView, base: Option<u64>) -> FileView {
    if f.canonical_path is Some && base is Some {
        FileView { canonical_revision: base, ..f }
    } else {
        f
    }
}

/// The base revision of an operation; a negative stored value is corrupt.
pub open spec fn operation_base(op: OperationView) -> Result<Option<u64>, FailureKind> {
    match op.base {
        None => Ok(None),
        Some(b) => if b >= 0 {
            Ok(Some(b as u64))
        } else {
            Err(FailureKind::Integrity)
        },
    }
}

/// Replays a private rename.
pub open spec fn apply_rename(
    st: ProjectionState,
    drafts: Seq<DraftView>,
    source: Seq<char>,
    destination: Seq<char>,
    base: Option<u64>,
) -> Result<ProjectionState, FailureKind> {
    match pull_source(st, drafts, source) {
        Err(e) => Err(e),
        Ok(s1) => if live_index(s1.files, destination) >= 0 {
            Err(FailureKind::Conflict)
        } else {
            let i = live_index(s1.files, source);
            let f = with_base(s1.files[i], base);
            let g = FileView { path: destination, renamed: f.canonical_path is Some, ..f };
            Ok(
                ProjectionState {
                    files: s1.files.update(i, g),
                    consumed: s1.consumed,
                    main: if s1.main == Some(source) {
                        Some(destination)
                    } else {
                        s1.main
                    },
                },
            )
        },
    }
}

/// Replays a private delete: a draft-only file disappears, a canonical one is marked.
pub open spec fn apply_delete(
    st: ProjectionState,
    drafts: Seq<DraftView>,
    source: Seq<char>,
    base: Option<u64>,
) -> Result<ProjectionState, FailureKind> {
    match pull_source(st, drafts, source) {
        Err(e) => Err(e),
        Ok(s1) => {
            let i = live_index(s1.files, source);
            let f = with_base(s1.files[i], base);
            if s1.main == Some(source) {
                Err(FailureKind::Conflict)
            } else if f.added {
                Ok(ProjectionState { files: s1.files.remove(i), ..s1 })
            } else {
                Ok(
                    ProjectionState {
                        files: s1.files.update(i, FileView { pending_delete: true, ..f }),
                        ..s1
                    },
                )
            }
        },
    }
}

/// Replays one staged operation.
pub open spec fn apply_operation(
    st: ProjectionState,
    op: OperationView,
    drafts: Seq<DraftView>,
) -> Result<ProjectionState, FailureKind> {
    match operation_base(op) {
        Err(e) => Err(e),
        Ok(base) => if op.kind == "rename"@ {
            match op.source {
                None => Err(FailureKind::NotFound),
                Some(src) => match op.destination {
                    None => Err(FailureKind::NotFound),
                    Some(dst) => apply_rename(st, drafts, src, dst, base),
                },
            }
        } else if op.kind == "delete"@ {
            match op.source {
                None => Err(FailureKind::NotFound),
                Some(src) => apply_delete(st, drafts, src, base),
            }
        } else if op.kind == "set_main"@ {
            Ok(ProjectionState { main: op.destination, ..st })
        } else {
            Err(FailureKind::Integrity)
        },
    }
}

/// Replays the first `n` staged operations in order.
pub open spec fn apply_operations(
    st: ProjectionState,
    ops: Seq<OperationView>,
    drafts: Seq<DraftView>,
    n: nat,
) -> Result<ProjectionState, FailureKind>
    decreases n,
{
    if n == 0 {
        Ok(st)
    } else {
        match apply_operations(st, ops, drafts, (n - 1) as nat) {
            Err(e) => Err(e),
            Ok(s) => apply_operation(s, ops[n - 1], drafts),
        }
    }
}

/// Overlays one draft that no operation consumed: it updates the file it overlays, or
/// joins as an addition; a draft for a path pending deletion is a conflict.
pub open spec fn overlay_draft(
    files: Seq<FileView>,
    consumed: Set<Seq<char>>,
    d: DraftView,
) -> Result<Seq<FileView>, FailureKind> {
    if consumed.contains(d.path) {
        Ok(files)
    } else {
        let k = overlay_index_from(files, d, 0);
        if k >= 0 {
            let f = files[k];
            let g = if f.added {
                FileView {
                    blob_hash: d.blob_hash,
                    size_bytes: d.size_bytes,
                    draft_revision: Some(d.draft_revision),
                    ..f
                }
            } else {
                FileView {
                    blob_hash: d.blob_hash,
                    size_bytes: d.size_bytes,
                    draft_revision: Some(d.draft_revision),
                    modified: true,
                    canonical_revision: Some(d.base_revision),
                    ..f
                }
            };
            Ok(files.update(k, g))
        } else if has_deleted_at(files, d.path) {
            Err(FailureKind::Conflict)
        } else {
            Ok(files.push(added_file_view(d)))
        }
    }
}

/// Overlays the first `n` drafts in order.
pub open spec fn overlay_drafts(
    files: Seq<FileView>,
    consumed: Set<Seq<char>>,
    drafts: Seq<DraftView>,
    n: nat,
) -> Result<Seq<FileView>, FailureKind>
    decreases n,
{
    if n == 0 {
        Ok(files)
    } else {
        match overlay_drafts(files, consumed, drafts, (n - 1) as nat) {
            Err(e) => Err(e),
            Ok(fs) => overlay_draft(fs, consumed, drafts[n - 1]),
        }
    }
}

/// The projected files (before ordering) and pending Main path.
pub open spec fn project_files(
    canonical: Seq<CanonicalFile>,
    drafts: Seq<DraftView>,
    ops: Seq<OperationView>,
) -> Result<(Seq<FileView>, Option<Seq<char>>), FailureKind> {
    let seeded = seed_drafts(canonical_files_view(canonical), Set::empty(), drafts, drafts.len());
    let st0 = ProjectionState { files: seeded.0, consumed: seeded.1, main: None };
    match apply_operations(st0, ops, drafts, ops.len()) {
        Err(e) => Err(e),
        Ok(st) => match overlay_drafts(st.files, st.consumed, drafts, drafts.len()) {
            Err(e) => Err(e),
            Ok(files) => match st.main {
                Some(m) => if live_index(files, m) >= 0 {
                    Ok((files, st.main))
                } else {
                    Err(FailureKind::Conflict)
                },
                None => Ok((files, None)),
            },
        },
    }
}

/// Number of files satisfying `pred`.
pub open spec fn count_where(files: Seq<FileView>, pred: spec_fn(FileView) -> bool) -> nat
    decreases files.len(),
{
    if files.len() == 0 {
        0
    } else {
        count_where(files.drop_last(), pred) + if pred(files.last()) {
            1nat
        } else {
            0nat
        }
    }
}

/// A content change to a file that keeps its path.
pub open spec fn is_modified_change(f: FileView) -> bool {
    f.modified && !f.renamed && !f.pending_delete
}

/// A new file.
pub open spec fn is_added_change(f: FileView) -> bool {
    f.added && !f.pending_delete
}

/// A moved canonical file.
pub open spec fn is_renamed_change(f: FileView) -> bool {
    f.renamed && !f.pending_delete
}

/// A removed canonical file.
pub open spec fn is_deleted_change(f: FileView) -> bool {
    f.pending_delete && f.canonical_path is Some
}

/// Whether files are ordered by path.
pub open spec fn sorted_by_path(files: Seq<FileView>) -> bool {
    forall|i: int, j: int| 0 <= i < j < files.len() ==> !seq_lt(#[trigger] files[j].path, #[trigger] files[i].path)
}

/// The flags of a projected file agree with its origin: a file is an addition exactly
/// when it has no canonical path, and an addition is never also renamed, modified or
/// pending deletion.
pub open spec fn flags_consistent(f: FileView) -> bool {
    &&& f.added == (f.canonical_path is None)
    &&& f.added ==> !f.modified && !f.renamed && !f.pending_delete
}

/// Whether every file of a sequence has consistent flags.
pub open spec fn all_flags_consistent(files: Seq<FileView>) -> bool {
    forall|i: int| 0 <= i < files.len() ==> flags_consistent(#[trigger] files[i])
}

/// Whether some live (not pending-delete) file is at `path`.
pub open spec fn has_live_at(files: Seq<FileView>, path: Seq<char>) -> bool {
    exists|k: int| 0 <= k < files.len() && #[trigger] files[k].path == path && !files[k].pending_delete
}

/// No two live (not pending-delete) files share a path.
pub open spec fn live_paths_distinct(files: Seq<FileView>) -> bool {
    forall|i: int, j: int|
        0 <= i < files.len() && 0 <= j < files.len() && i != j && !files[i].pending_delete
            && !files[j].pending_delete ==> #[trigger] files[i].path != #[trigger] files[j].path
}

/// No two canonical rows share a path.
pub open spec fn canonical_paths_distinct(c: Seq<CanonicalFile>) -> bool {
    forall|i: int, j: int| 0 <= i < j < c.len() ==> #[trigger] c[i].path@ != #[trigger] c[j].path@
}

/// Index of the first file of `s`, from `k` on, whose path sorts after the path of `x`;
/// the length of `s` if there is none.
pub open spec fn first_after_from(s: Seq<FileView>, x: FileView, k: int) -> int
    decreases s.len() - k,
{
    if k < 0 || k >= s.len() {
        s.len() as int
    } else if seq_lt(x.path, s[k].path) {
        k
    } else {
        first_after_from(s, x, k + 1)
    }
}

/// Inserts `x` before the first file whose path sorts after its own.
pub open spec fn insert_by_path(s: Seq<FileView>, x: FileView) -> Seq<FileView> {
    s.insert(first_after_from(s, x, 0), x)
}

/// Files ordered by path by insertion, so that files with equal paths keep their order.
pub open spec fn stable_sort_by_path(s: Seq<FileView>) -> Seq<FileView>
    decreases s.len(),
{
    if s.len() == 0 {
        s
    } else {
        insert_by_path(stable_sort_by_path(s.drop_last()), s.last())
    }
}

/// The summary the projection reports for its files and Main change.
pub open spec fn summary_matches(
    s: PendingChangeSummary,
    files: Seq<FileView>,
    main: Option<Seq<char>>,
) -> bool {
    &&& s.modified == count_where(files, |f: FileView| is_modified_change(f))
    &&& s.added == count_where(files, |f: FileView| is_added_change(f))
    &&& s.renamed == count_where(files, |f: FileView| is_renamed_change(f))
    &&& s.deleted == count_where(files, |f: FileView| is_deleted_change(f))
    &&& s.main_changed == main is Some
    &&& s.total == s.modified + s.added + s.renamed + s.deleted + if main is Some {
        1int
    } else {
        0int
    }
}


/// The set of strings held by a sequence.
pub open spec fn strings_set(v: Seq<String>) -> Set<Seq<char>> {
    Set::new(|s: Seq<char>| exists|k: int| 0 <= k < v.len() && #[trigger] v[k]@ == s)
}

pub(crate) fn clone_string(s: &String) -> (r: String)
    ensures
        r@ == s@,
{
    s.clone()
}

pub(crate) fn clone_opt_string(s: &Option<String>) -> (r: Option<String>)
    ensures
        opt_view(r) == opt_view(*s),
{
    match s {
        Some(x) => Some(x.clone()),
        None => None,
    }
}

fn added_from_draft(d: &MemberDraftRecord) -> (f: ProjectedTeamFile)
    ensures
        f@ == added_file_view(d@),
{
    ProjectedTeamFile {
        path: clone_string(&d.path),
        canonical_path: None,
        canonical_revision: None,
        blob_hash: clone_string(&d.blob_hash),
        size_bytes: d.size_bytes,
        draft_revision: Some(d.draft_revision),
        added: true,
        modified: false,
        renamed: false,
        pending_delete: false,
    }
}

fn file_from_canonical(c: &CanonicalFile) -> (f: ProjectedTeamFile)
    ensures
        f@ == canonical_file_view(*c),
{
    ProjectedTeamFile {
        path: clone_string(&c.path),
        canonical_path: Some(clone_string(&c.path)),
        canonical_revision: Some(c.revision),
        blob_hash: clone_string(&c.blob_hash),
        size_bytes: c.size_bytes,
        draft_revision: None,
        added: false,
        modified: false,
        renamed: false,
        pending_delete: false,
    }
}

fn contains_string(v: &Vec<String>, s: &str) -> (r: bool)
    ensures
        r == strings_set(v@).contains(s@),
{
    let mut i: usize = 0;
    while i < v.len()
        invariant
            i <= v@.len(),
            forall|k: int| 0 <= k < i ==> #[trigger] v@[k]@ != s@,
        decreases v@.len() - i,
    {
        if str_eq(v[i].as_str(), s) {
            assert(v@[i as int]@ == s@);
            return true;
        }
        i = i + 1;
    }
    false
}

/// First live file at `path`.
pub(crate) fn find_live(files: &Vec<ProjectedTeamFile>, path: &str) -> (r: Option<usize>)
    ensures
        match r {
            Some(i) => i < files@.len() && i as int == live_index(files_view(files@), path@),
            None => live_index(files_view(files@), path@) == -1,
        },
{
    let ghost fv = files_view(files@);
    let mut i: usize = 0;
    while i < files.len()
        invariant
            i <= files@.len(),
            fv == files_view(files@),
            live_index_from(fv, path@, 0) == live_index_from(fv, path@, i as int),
        decreases files@.len() - i,
    {
        let f = &files[i];
        assert(fv[i as int] == f@);
        if !f.pending_delete && str_eq(f.path.as_str(), path) {
            return Some(i);
        }
        i = i + 1;
    }
    None
}

/// First draft-only draft at `path`.
fn find_fresh_draft(drafts: &Vec<MemberDraftRecord>, path: &str) -> (r: Option<usize>)
    ensures
        match r {
            Some(i) => i < drafts@.len() && i as int == fresh_draft_from(drafts_view(drafts@), path@, 0),
            None => fresh_draft_from(drafts_view(drafts@), path@, 0) == -1,
        },
{
    let ghost dv = drafts_view(drafts@);
    let mut i: usize = 0;
    while i < drafts.len()
        invariant
            i <= drafts@.len(),
            dv == drafts_view(drafts@),
            fresh_draft_from(dv, path@, 0) == fresh_draft_from(dv, path@, i as int),
        decreases drafts@.len() - i,
    {
        let d = &drafts[i];
        assert(dv[i as int] == d@);
        if d.base_revision == 0 && str_eq(d.path.as_str(), path) {
            return Some(i);
        }
        i = i + 1;
    }
    None
}

/// First file that draft `d` overlays.
fn find_overlay(files: &Vec<ProjectedTeamFile>, d: &MemberDraftRecord) -> (r: Option<usize>)
    ensures
        match r {
            Some(i) => i < files@.len() && i as int == overlay_index_from(files_view(files@), d@, 0),
            None => overlay_index_from(files_view(files@), d@, 0) == -1,
        },
{
    let ghost fv = files_view(files@);
    let mut i: usize = 0;
    while i < files.len()
        invariant
            i <= files@.len(),
            fv == files_view(files@),
            overlay_index_from(fv, d@, 0) == overlay_index_from(fv, d@, i as int),
        decreases files@.len() - i,
    {
        let f = &files[i];
        assert(fv[i as int] == f@);
        if !f.pending_delete {
            let same_path = str_eq(f.path.as_str(), d.path.as_str());
            let renamed_origin = match &f.canonical_path {
                Some(c) => str_eq(c.as_str(), d.path.as_str()) && f.canonical_revision == Some(d.base_revision),
                None => false,
            };
            if same_path || renamed_origin {
                return Some(i);
            }
        }
        i = i + 1;
    }
    None
}

/// Whether any file, live or not, is at `path`.
fn any_at(files: &Vec<ProjectedTeamFile>, path: &str) -> (r: bool)
    ensures
        r == has_any_at(files_view(files@), path@),
{
    let ghost fv = files_view(files@);
    let mut i: usize = 0;
    while i < files.len()
        invariant
            i <= files@.len(),
            fv == files_view(files@),
            forall|k: int| 0 <= k < i ==> #[trigger] fv[k].path != path@,
        decreases files@.len() - i,
    {
        assert(fv[i as int] == files@[i as int]@);
        if str_eq(files[i].path.as_str(), path) {
            assert(fv[i as int].path == path@);
            return true;
        }
        i = i + 1;
    }
    false
}

/// Whether a pending-delete file is at `path`.
fn deleted_at(files: &Vec<ProjectedTeamFile>, path: &str) -> (r: bool)
    ensures
        r == has_deleted_at(files_view(files@), path@),
{
    let ghost fv = files_view(files@);
    let mut i: usize = 0;
    while i < files.len()
        invariant
            i <= files@.len(),
            fv == files_view(files@),
            forall|k: int| 0 <= k < i ==> !(#[trigger] fv[k].pending_delete && fv[k].path == path@),
        decreases files@.len() - i,
    {
        assert(fv[i as int] == files@[i as int]@);
        if files[i].pending_delete && str_eq(files[i].path.as_str(), path) {
            assert(fv[i as int].pending_delete && fv[i as int].path == path@);
            return true;
        }
        i = i + 1;
    }
    false
}


proof fn lemma_files_view_push(s: Seq<ProjectedTeamFile>, f: ProjectedTeamFile)
    ensures
        files_view(s.push(f)) == files_view(s).push(f@),
{
    assert(files_view(s.push(f)) =~= files_view(s).push(f@));
}

proof fn lemma_files_view_update(s: Seq<ProjectedTeamFile>, i: int, f: ProjectedTeamFile)
    requires
        0 <= i < s.len(),
    ensures
        files_view(s.update(i, f)) == files_view(s).update(i, f@),
{
    assert(files_view(s.update(i, f)) =~= files_view(s).update(i, f@));
}

proof fn lemma_files_view_remove(s: Seq<ProjectedTeamFile>, i: int)
    requires
        0 <= i < s.len(),
    ensures
        files_view(s.remove(i)) == files_view(s).remove(i),
{
    assert(files_view(s.remove(i)) =~= files_view(s).remove(i));
}

proof fn lemma_remove_insert(s: Seq<ProjectedTeamFile>, i: int, f: ProjectedTeamFile)
    requires
        0 <= i < s.len(),
    ensures
        s.remove(i).insert(i, f) == s.update(i, f),
{
    assert(s.remove(i).insert(i, f) =~= s.update(i, f));
}

proof fn lemma_strings_set_push(v: Seq<String>, x: String)
    ensures
        strings_set(v.push(x)) == strings_set(v).insert(x@),
{
    let w = v.push(x);
    assert forall|s: Seq<char>| strings_set(w).contains(s) == strings_set(v).insert(x@).contains(s) by {
        if strings_set(v).contains(s) {
            let k = choose|k: int| 0 <= k < v.len() && #[trigger] v[k]@ == s;
            assert(w[k]@ == s);
        }
        if s == x@ {
            assert(w[v.len() as int]@ == s);
        }
        if strings_set(w).contains(s) {
            let k = choose|k: int| 0 <= k < w.len() && #[trigger] w[k]@ == s;
            if k < v.len() {
                assert(v[k]@ == s);
            }
        }
    }
    assert(strings_set(w) =~= strings_set(v).insert(x@));
}

proof fn lemma_live_index_props(files: Seq<FileView>, p: Seq<char>, i: int)
    requires
        0 <= i,
    ensures
        live_index_from(files, p, i) == -1 || (i <= live_index_from(files, p, i) < files.len()
            && !files[live_index_from(files, p, i)].pending_delete
            && files[live_index_from(files, p, i)].path == p),
    decreases files.len() - i,
{
    if i < files.len() {
        lemma_live_index_props(files, p, i + 1);
    }
}

proof fn lemma_fresh_draft_props(drafts: Seq<DraftView>, p: Seq<char>, i: int)
    requires
        0 <= i,
    ensures
        fresh_draft_from(drafts, p, i) == -1 || (i <= fresh_draft_from(drafts, p, i) < drafts.len()
            && drafts[fresh_draft_from(drafts, p, i)].path == p
            && drafts[fresh_draft_from(drafts, p, i)].base_revision == 0),
    decreases drafts.len() - i,
{
    if i < drafts.len() {
        lemma_fresh_draft_props(drafts, p, i + 1);
    }
}

proof fn lemma_overlay_props(files: Seq<FileView>, d: DraftView, i: int)
    requires
        0 <= i,
    ensures
        overlay_index_from(files, d, i) == -1 || (i <= overlay_index_from(files, d, i) < files.len()
            && overlays(files[overlay_index_from(files, d, i)], d)),
    decreases files.len() - i,
{
    if i < files.len() {
        lemma_overlay_props(files, d, i + 1);
    }
}

proof fn lemma_live_index_push(files: Seq<FileView>, f: FileView, p: Seq<char>, i: int)
    requires
        !f.pending_delete,
        f.path == p,
        0 <= i <= files.len(),
    ensures
        live_index_from(files.push(f), p, i) >= 0,
    decreases files.len() - i,
{
    if i < files.len() {
        lemma_live_index_push(files, f, p, i + 1);
    }
}

/// The projection state held by the exec variables.
pub open spec fn state_of(
    files: Seq<ProjectedTeamFile>,
    consumed: Seq<String>,
    main: Option<String>,
) -> ProjectionState {
    ProjectionState { files: files_view(files), consumed: strings_set(consumed), main: opt_view(main) }
}

fn seed_drafts_exec(
    files: &mut Vec<ProjectedTeamFile>,
    consumed: &mut Vec<String>,
    drafts: &Vec<MemberDraftRecord>,
)
    ensures
        files_view(final(files)@) == seed_drafts(
            files_view(old(files)@),
            strings_set(old(consumed)@),
            drafts_view(drafts@),
            drafts@.len(),
        ).0,
        strings_set(final(consumed)@) == seed_drafts(
            files_view(old(files)@),
            strings_set(old(consumed)@),
            drafts_view(drafts@),
            drafts@.len(),
        ).1,
        final(files)@.len() <= old(files)@.len() + drafts@.len(),
{
    let ghost f0 = files_view(files@);
    let ghost len0 = files@.len();
    let ghost c0 = strings_set(consumed@);
    let ghost dv = drafts_view(drafts@);
    let mut i: usize = 0;
    while i < drafts.len()
        invariant
            i <= drafts@.len(),
            dv == drafts_view(drafts@),
            files_view(files@) == seed_drafts(f0, c0, dv, i as nat).0,
            strings_set(consumed@) == seed_drafts(f0, c0, dv, i as nat).1,
            len0 == old(files)@.len(),
            files@.len() <= len0 + i,
        decreases drafts@.len() - i,
    {
        let d = &drafts[i];
        assert(dv[i as int] == d@);
        if d.base_revision == 0 && !any_at(files, d.path.as_str()) {
            let f = added_from_draft(d);
            proof {
                lemma_files_view_push(files@, f);
            }
            files.push(f);
            let c = clone_string(&d.path);
            proof {
                lemma_strings_set_push(consumed@, c);
            }
            consumed.push(c);
        }
        i = i + 1;
    }
}

fn pull_source_exec(
    files: &mut Vec<ProjectedTeamFile>,
    consumed: &mut Vec<String>,
    main: &Option<String>,
    drafts: &Vec<MemberDraftRecord>,
    source: &str,
) -> (r: Result<(), AppError>)
    ensures
        match pull_source(state_of(old(files)@, old(consumed)@, *main), drafts_view(drafts@), source@) {
            Ok(st) => r is Ok && state_of(final(files)@, final(consumed)@, *main) == st
                && live_index(st.files, source@) >= 0,
            Err(k) => r matches Err(e) && failure_kind(e) == k,
        },
        final(files)@.len() <= old(files)@.len() + 1,
{
    if find_live(files, source).is_some() {
        return Ok(());
    }
    match find_fresh_draft(drafts, source) {
        None => Err(AppError::NotFound),
        Some(k) => {
            let f = added_from_draft(&drafts[k]);
            assert(drafts_view(drafts@)[k as int] == drafts@[k as int]@);
            proof {
                lemma_files_view_push(files@, f);
                lemma_fresh_draft_props(drafts_view(drafts@), source@, 0);
                lemma_live_index_push(files_view(files@), f@, source@, 0);
            }
            files.push(f);
            let c = source.to_owned();
            proof {
                lemma_strings_set_push(consumed@, c);
            }
            consumed.push(c);
            Ok(())
        },
    }
}

fn rename_exec(
    files: &mut Vec<ProjectedTeamFile>,
    consumed: &mut Vec<String>,
    main: &mut Option<String>,
    drafts: &Vec<MemberDraftRecord>,
    source: &str,
    destination: &str,
    base: Option<u64>,
) -> (r: Result<(), AppError>)
    ensures
        match apply_rename(state_of(old(files)@, old(consumed)@, *old(main)), drafts_view(drafts@), source@, destination@, base) {
            Ok(st) => r is Ok && state_of(final(files)@, final(consumed)@, *final(main)) == st,
            Err(k) => r matches Err(e) && failure_kind(e) == k,
        },
        final(files)@.len() <= old(files)@.len() + 1,
{
    pull_source_exec(files, consumed, main, drafts, source)?;
    if find_live(files, destination).is_some() {
        return Err(AppError::Conflict);
    }
    let i = match find_live(files, source) {
        Some(i) => i,
        None => {
            return Err(AppError::NotFound);
        },
    };
    let ghost before = files@;
    let mut f = files.remove(i);
    if f.canonical_path.is_some() && base.is_some() {
        f.canonical_revision = base;
    }
    f.path = destination.to_owned();
    f.renamed = f.canonical_path.is_some();
    proof {
        lemma_remove_insert(before, i as int, f);
        lemma_files_view_update(before, i as int, f);
    }
    files.insert(i, f);
    let moves_main = match &*main {
        Some(m) => str_eq(m.as_str(), source),
        None => false,
    };
    if moves_main {
        *main = Some(destination.to_owned());
    }
    Ok(())
}

fn delete_exec(
    files: &mut Vec<ProjectedTeamFile>,
    consumed: &mut Vec<String>,
    main: &Option<String>,
    drafts: &Vec<MemberDraftRecord>,
    source: &str,
    base: Option<u64>,
) -> (r: Result<(), AppError>)
    ensures
        match apply_delete(state_of(old(files)@, old(consumed)@, *main), drafts_view(drafts@), source@, base) {
            Ok(st) => r is Ok && state_of(final(files)@, final(consumed)@, *main) == st,
            Err(k) => r matches Err(e) && failure_kind(e) == k,
        },
        final(files)@.len() <= old(files)@.len() + 1,
{
    pull_source_exec(files, consumed, main, drafts, source)?;
    let i = match find_live(files, source) {
        Some(i) => i,
        None => {
            return Err(AppError::NotFound);
        },
    };
    let is_main = match main {
        Some(m) => str_eq(m.as_str(), source),
        None => false,
    };
    if is_main {
        return Err(AppError::Conflict);
    }
    let ghost before = files@;
    let mut f = files.remove(i);
    proof {
        lemma_files_view_remove(before, i as int);
    }
    if f.canonical_path.is_some() && base.is_some() {
        f.canonical_revision = base;
    }
    if !f.added {
        f.pending_delete = true;
        proof {
            lemma_remove_insert(before, i as int, f);
            lemma_files_view_update(before, i as int, f);
        }
        files.insert(i, f);
    }
    Ok(())
}

fn apply_operation_exec(
    files: &mut Vec<ProjectedTeamFile>,
    consumed: &mut Vec<String>,
    main: &mut Option<String>,
    drafts: &Vec<MemberDraftRecord>,
    op: &StagedOperation,
) -> (r: Result<(), AppError>)
    ensures
        match apply_operation(state_of(old(files)@, old(consumed)@, *old(main)), op@, drafts_view(drafts@)) {
            Ok(st) => r is Ok && state_of(final(files)@, final(consumed)@, *final(main)) == st,
            Err(k) => r matches Err(e) && failure_kind(e) == k,
        },
        final(files)@.len() <= old(files)@.len() + 1,
{
    let base: Option<u64> = match op.base_file_revision {
        None => None,
        Some(b) => if b >= 0 {
            Some(b as u64)
        } else {
            return Err(AppError::Integrity { message: "negative persisted revision".to_owned() });
        },
    };
    if str_eq(op.operation_type.as_str(), "rename") {
        let source = match &op.source_path {
            Some(s) => s,
            None => {
                return Err(AppError::NotFound);
            },
        };
        let destination = match &op.destination_path {
            Some(d) => d,
            None => {
                return Err(AppError::NotFound);
            },
        };
        rename_exec(files, consumed, main, drafts, source.as_str(), destination.as_str(), base)
    } else if str_eq(op.operation_type.as_str(), "delete") {
        let source = match &op.source_path {
            Some(s) => s,
            None => {
                return Err(AppError::NotFound);
            },
        };
        delete_exec(files, consumed, main, drafts, source.as_str(), base)
    } else if str_eq(op.operation_type.as_str(), "set_main") {
        *main = clone_opt_string(&op.destination_path);
        Ok(())
    } else {
        Err(AppError::Integrity { message: "invalid private operation".to_owned() })
    }
}


fn overlay_draft_exec(
    files: &mut Vec<ProjectedTeamFile>,
    consumed: &Vec<String>,
    d: &MemberDraftRecord,
) -> (r: Result<(), AppError>)
    ensures
        match overlay_draft(files_view(old(files)@), strings_set(consumed@), d@) {
            Ok(fs) => r is Ok && files_view(final(files)@) == fs,
            Err(k) => r matches Err(e) && failure_kind(e) == k,
        },
        final(files)@.len() <= old(files)@.len() + 1,
{
    if contains_string(consumed, d.path.as_str()) {
        return Ok(());
    }
    match find_overlay(files, d) {
        Some(k) => {
            let ghost before = files@;
            let mut f = files.remove(k);
            f.blob_hash = clone_string(&d.blob_hash);
            f.size_bytes = d.size_bytes;
            f.draft_revision = Some(d.draft_revision);
            if !f.added {
                f.modified = true;
                f.canonical_revision = Some(d.base_revision);
            }
            proof {
                lemma_remove_insert(before, k as int, f);
                lemma_files_view_update(before, k as int, f);
            }
            files.insert(k, f);
            Ok(())
        },
        None => {
            if deleted_at(files, d.path.as_str()) {
                return Err(AppError::Conflict);
            }
            let f = added_from_draft(d);
            proof {
                lemma_files_view_push(files@, f);
            }
            files.push(f);
            Ok(())
        },
    }
}

proof fn lemma_operations_error_sticks(
    st: ProjectionState,
    ops: Seq<OperationView>,
    drafts: Seq<DraftView>,
    n: nat,
    m: nat,
)
    requires
        n <= m,
        apply_operations(st, ops, drafts, n) is Err,
    ensures
        apply_operations(st, ops, drafts, m) == apply_operations(st, ops, drafts, n),
    decreases m - n,
{
    if n < m {
        lemma_operations_error_sticks(st, ops, drafts, n, (m - 1) as nat);
    }
}

proof fn lemma_overlay_error_sticks(
    files: Seq<FileView>,
    consumed: Set<Seq<char>>,
    drafts: Seq<DraftView>,
    n: nat,
    m: nat,
)
    requires
        n <= m,
        overlay_drafts(files, consumed, drafts, n) is Err,
    ensures
        overlay_drafts(files, consumed, drafts, m) == overlay_drafts(files, consumed, drafts, n),
    decreases m - n,
{
    if n < m {
        lemma_overlay_error_sticks(files, consumed, drafts, n, (m - 1) as nat);
    }
}

fn apply_operations_exec(
    files: &mut Vec<ProjectedTeamFile>,
    consumed: &mut Vec<String>,
    main: &mut Option<String>,
    drafts: &Vec<MemberDraftRecord>,
    ops: &Vec<StagedOperation>,
) -> (r: Result<(), AppError>)
    ensures
        match apply_operations(
            state_of(old(files)@, old(consumed)@, *old(main)),
            operations_view(ops@),
            drafts_view(drafts@),
            ops@.len(),
        ) {
            Ok(st) => r is Ok && state_of(final(files)@, final(consumed)@, *final(main)) == st,
            Err(k) => r matches Err(e) && failure_kind(e) == k,
        },
        r is Ok ==> final(files)@.len() <= old(files)@.len() + ops@.len(),
{
    let ghost s0 = state_of(files@, consumed@, *main);
    let ghost ov = operations_view(ops@);
    let ghost dv = drafts_view(drafts@);
    let ghost len0 = files@.len();
    let mut i: usize = 0;
    while i < ops.len()
        invariant
            i <= ops@.len(),
            ov == operations_view(ops@),
            dv == drafts_view(drafts@),
            s0 == state_of(old(files)@, old(consumed)@, *old(main)),
            apply_operations(s0, ov, dv, i as nat) == Ok::<ProjectionState, FailureKind>(state_of(files@, consumed@, *main)),
            files@.len() <= len0 + i,
        decreases ops@.len() - i,
    {
        assert(ov[i as int] == ops@[i as int]@);
        let ghost prev = files@.len();
        let step = apply_operation_exec(files, consumed, main, drafts, &ops[i]);
        proof {
            assert(apply_operations(s0, ov, dv, (i + 1) as nat) == apply_operation(
                apply_operations(s0, ov, dv, i as nat)->Ok_0,
                ov[i as int],
                dv,
            ));
        }
        match step {
            Ok(()) => {},
            Err(e) => {
                proof {
                    lemma_operations_error_sticks(s0, ov, dv, (i + 1) as nat, ops@.len());
                }
                return Err(e);
            },
        }
        i = i + 1;
    }
    Ok(())
}


fn overlay_drafts_exec(
    files: &mut Vec<ProjectedTeamFile>,
    consumed: &Vec<String>,
    drafts: &Vec<MemberDraftRecord>,
) -> (r: Result<(), AppError>)
    ensures
        match overlay_drafts(files_view(old(files)@), strings_set(consumed@), drafts_view(drafts@), drafts@.len()) {
            Ok(fs) => r is Ok && files_view(final(files)@) == fs,
            Err(k) => r matches Err(e) && failure_kind(e) == k,
        },
        r is Ok ==> final(files)@.len() <= old(files)@.len() + drafts@.len(),
{
    let ghost f0 = files_view(files@);
    let ghost dv = drafts_view(drafts@);
    let ghost cs = strings_set(consumed@);
    let ghost len0 = files@.len();
    let mut i: usize = 0;
    while i < drafts.len()
        invariant
            i <= drafts@.len(),
            dv == drafts_view(drafts@),
            cs == strings_set(consumed@),
            f0 == files_view(old(files)@),
            len0 == old(files)@.len(),
            overlay_drafts(f0, cs, dv, i as nat) == Ok::<Seq<FileView>, FailureKind>(files_view(files@)),
            files@.len() <= len0 + i,
        decreases drafts@.len() - i,
    {
        assert(dv[i as int] == drafts@[i as int]@);
        let step = overlay_draft_exec(files, consumed, &drafts[i]);
        match step {
            Ok(()) => {},
            Err(e) => {
                proof {
                    lemma_overlay_error_sticks(f0, cs, dv, (i + 1) as nat, drafts@.len());
                }
                return Err(e);
            },
        }
        i = i + 1;
    }
    Ok(())
}

fn canonical_projection(canonical: &Vec<CanonicalFile>) -> (files: Vec<ProjectedTeamFile>)
    ensures
        files_view(files@) == canonical_files_view(canonical@),
        files@.len() == canonical@.len(),
{
    let mut files: Vec<ProjectedTeamFile> = Vec::new();
    let mut i: usize = 0;
    while i < canonical.len()
        invariant
            i <= canonical@.len(),
            files@.len() == i,
            forall|k: int| 0 <= k < i ==> #[trigger] files@[k]@ == canonical_file_view(canonical@[k]),
        decreases canonical@.len() - i,
    {
        files.push(file_from_canonical(&canonical[i]));
        i = i + 1;
    }
    assert(files_view(files@) =~= canonical_files_view(canonical@));
    files
}

proof fn lemma_count_le(files: Seq<FileView>, pred: spec_fn(FileView) -> bool)
    ensures
        count_where(files, pred) <= files.len(),
    decreases files.len(),
{
    if files.len() > 0 {
        lemma_count_le(files.drop_last(), pred);
    }
}

fn summarize(files: &Vec<ProjectedTeamFile>, main_changed: bool) -> (s: PendingChangeSummary)
    requires
        files@.len() < 0x2000_0000_0000_0000,
    ensures
        s.modified == count_where(files_view(files@), |f: FileView| is_modified_change(f)),
        s.added == count_where(files_view(files@), |f: FileView| is_added_change(f)),
        s.renamed == count_where(files_view(files@), |f: FileView| is_renamed_change(f)),
        s.deleted == count_where(files_view(files@), |f: FileView| is_deleted_change(f)),
        s.main_changed == main_changed,
        s.total == s.modified + s.added + s.renamed + s.deleted + if main_changed {
            1int
        } else {
            0int
        },
{
    let ghost fv = files_view(files@);
    let ghost pm = |f: FileView| is_modified_change(f);
    let ghost pa = |f: FileView| is_added_change(f);
    let ghost pr = |f: FileView| is_renamed_change(f);
    let ghost pd = |f: FileView| is_deleted_change(f);
    let mut modified: u64 = 0;
    let mut added: u64 = 0;
    let mut renamed: u64 = 0;
    let mut deleted: u64 = 0;
    let mut i: usize = 0;
    while i < files.len()
        invariant
            i <= files@.len(),
            files@.len() < 0x2000_0000_0000_0000,
            fv == files_view(files@),
            pm == (|f: FileView| is_modified_change(f)),
            pa == (|f: FileView| is_added_change(f)),
            pr == (|f: FileView| is_renamed_change(f)),
            pd == (|f: FileView| is_deleted_change(f)),
            modified == count_where(fv.take(i as int), pm),
            added == count_where(fv.take(i as int), pa),
            renamed == count_where(fv.take(i as int), pr),
            deleted == count_where(fv.take(i as int), pd),
        decreases files@.len() - i,
    {
        let f = &files[i];
        proof {
            assert(fv.take(i + 1).drop_last() =~= fv.take(i as int));
            assert(fv.take(i + 1).last() == f@);
            assert(pm(f@) == is_modified_change(f@));
            assert(pa(f@) == is_added_change(f@));
            assert(pr(f@) == is_renamed_change(f@));
            assert(pd(f@) == is_deleted_change(f@));
            lemma_count_le(fv.take(i as int), pm);
            lemma_count_le(fv.take(i as int), pa);
            lemma_count_le(fv.take(i as int), pr);
            lemma_count_le(fv.take(i as int), pd);
        }
        if f.modified && !f.renamed && !f.pending_delete {
            modified = modified + 1;
        }
        if f.added && !f.pending_delete {
            added = added + 1;
        }
        if f.renamed && !f.pending_delete {
            renamed = renamed + 1;
        }
        if f.pending_delete && f.canonical_path.is_some() {
            deleted = deleted + 1;
        }
        i = i + 1;
    }
    proof {
        assert(fv.take(files@.len() as int) =~= fv);
        lemma_count_le(fv, pm);
        lemma_count_le(fv, pa);
        lemma_count_le(fv, pr);
        lemma_count_le(fv, pd);
    }
    let main_count: u64 = if main_changed {
        1
    } else {
        0
    };
    PendingChangeSummary {
        modified,
        added,
        renamed,
        deleted,
        main_changed,
        total: modified + added + renamed + deleted + main_count,
    }
}

proof fn lemma_files_view_insert(s: Seq<ProjectedTeamFile>, i: int, f: ProjectedTeamFile)
    requires
        0 <= i <= s.len(),
    ensures
        files_view(s.insert(i, f)) == files_view(s).insert(i, f@),
{
    assert(files_view(s.insert(i, f)) =~= files_view(s).insert(i, f@));
}

proof fn lemma_multiset_insert(s: Seq<FileView>, i: int, a: FileView)
    requires
        0 <= i <= s.len(),
    ensures
        s.insert(i, a).to_multiset() == s.to_multiset().insert(a),
{
    broadcast use vstd::seq_lib::group_to_multiset_ensures;
    let t = s.insert(i, a);
    assert(t.remove(i) =~= s);
    assert(t[i] == a);
    assert(t.remove(i).to_multiset() =~= t.to_multiset().remove(a));
    assert(t.to_multiset().count(a) > 0);
    assert(t.to_multiset() =~= s.to_multiset().insert(a));
}

proof fn lemma_multiset_remove(s: Seq<FileView>, i: int)
    requires
        0 <= i < s.len(),
    ensures
        s.remove(i).to_multiset() == s.to_multiset().remove(s[i]),
{
    broadcast use vstd::seq_lib::group_to_multiset_ensures;
}

proof fn lemma_multiset_contains(s: Seq<FileView>, i: int)
    requires
        0 <= i < s.len(),
    ensures
        s.to_multiset().count(s[i]) > 0,
{
    broadcast use vstd::seq_lib::group_to_multiset_ensures;
    assert(s.contains(s[i]));
}

proof fn lemma_first_after_range(s: Seq<FileView>, x: FileView, k: int)
    requires
        0 <= k <= s.len(),
    ensures
        k <= first_after_from(s, x, k) <= s.len(),
    decreases s.len() - k,
{
    if k < s.len() {
        lemma_first_after_range(s, x, k + 1);
    }
}

proof fn lemma_first_after_skip(s: Seq<FileView>, x: FileView, m: int, j: int)
    requires
        0 <= m <= j <= s.len(),
        forall|k: int| m <= k < j ==> !seq_lt(x.path, #[trigger] s[k].path),
    ensures
        first_after_from(s, x, m) == first_after_from(s, x, j),
    decreases j - m,
{
    if m < j {
        lemma_first_after_skip(s, x, m + 1, j);
    }
}

proof fn lemma_stable_sort_len(s: Seq<FileView>)
    ensures
        stable_sort_by_path(s).len() == s.len(),
    decreases s.len(),
{
    if s.len() > 0 {
        lemma_stable_sort_len(s.drop_last());
        lemma_first_after_range(stable_sort_by_path(s.drop_last()), s.last(), 0);
    }
}

/// Orders files by path with a stable insertion sort.
fn sort_by_path(files: &mut Vec<ProjectedTeamFile>)
    ensures
        files_view(final(files)@) == stable_sort_by_path(files_view(old(files)@)),
        files_view(final(files)@).to_multiset() == files_view(old(files)@).to_multiset(),
        sorted_by_path(files_view(final(files)@)),
{
    let ghost fv0 = files_view(files@);
    let ghost m0 = files_view(files@).to_multiset();
    let mut i: usize = 1;
    if files.len() == 0 {
        proof {
            assert(stable_sort_by_path(fv0) == fv0);
        }
        return;
    }
    proof {
        let t1 = fv0.take(1);
        assert(t1.drop_last() =~= Seq::<FileView>::empty());
        assert(stable_sort_by_path(t1.drop_last()) == t1.drop_last());
        assert(first_after_from(t1.drop_last(), t1.last(), 0) == 0);
        assert(stable_sort_by_path(t1) =~= seq![fv0[0]]);
        assert(files_view(files@) =~= stable_sort_by_path(fv0.take(1)) + fv0.skip(1));
    }
    while i < files.len()
        invariant
            1 <= i <= files@.len(),
            files@.len() == fv0.len(),
            files_view(files@) == stable_sort_by_path(fv0.take(i as int)) + fv0.skip(i as int),
            files_view(files@).to_multiset() == m0,
            forall|a: int, b: int|
                0 <= a < b < i ==> !seq_lt(
                    #[trigger] files_view(files@)[b].path,
                    #[trigger] files_view(files@)[a].path,
                ),
        decreases files@.len() - i,
    {
        let ghost before = files@;
        let ghost sorted_part = stable_sort_by_path(fv0.take(i as int));
        proof {
            lemma_stable_sort_len(fv0.take(i as int));
        }
        let x = files.remove(i);
        let ghost mid = files@;
        proof {
            assert(files_view(before)[i as int] == fv0[i as int]);
            assert(files_view(before).remove(i as int) =~= sorted_part + fv0.skip(i + 1));
            lemma_files_view_remove(before, i as int);
            lemma_multiset_remove(files_view(before), i as int);
            assert(files_view(before)[i as int] == x@);
            lemma_multiset_contains(files_view(before), i as int);
        }
        let mut j: usize = 0;
        while j < i && !str_lt(x.path.as_str(), files[j].path.as_str())
            invariant
                j <= i,
                i <= files@.len(),
                files@ == mid,
                forall|k: int| 0 <= k < j ==> !seq_lt(x.path@, #[trigger] files_view(files@)[k].path),
            decreases i - j,
        {
            assert(files_view(files@)[j as int] == files@[j as int]@);
            j = j + 1;
        }
        let ghost found = j < i;
        proof {
            lemma_files_view_insert(mid, j as int, x);
            lemma_multiset_insert(files_view(mid), j as int, x@);
            if j < i {
                assert(files_view(mid)[j as int] == mid[j as int]@);
            }
        }
        files.insert(j, x);
        proof {
            assert forall|k: int| 0 <= k < j implies !seq_lt(x@.path, #[trigger] sorted_part[k].path) by {
                assert(sorted_part[k] == files_view(mid)[k]);
            }
            lemma_first_after_skip(sorted_part, x@, 0, j as int);
            if j < i {
                assert(files_view(mid)[j as int] == sorted_part[j as int]);
            }
            assert(first_after_from(sorted_part, x@, 0) == j);
            let t = fv0.take(i + 1);
            assert(t.drop_last() =~= fv0.take(i as int));
            assert(t.last() == x@);
            assert(stable_sort_by_path(t) == sorted_part.insert(j as int, x@));
            assert(files_view(files@) =~= stable_sort_by_path(t) + fv0.skip(i + 1));
            assert(m0.remove(x@).insert(x@) =~= m0);
            let fv = files_view(files@);
            let mv = files_view(mid);
            assert forall|a: int, b: int|
                0 <= a < b < i + 1 implies !seq_lt(#[trigger] fv[b].path, #[trigger] fv[a].path) by {
                if b < j {
                    assert(fv[a] == mv[a] && fv[b] == mv[b]);
                } else if b == j {
                    assert(fv[a] == mv[a]);
                    assert(fv[b] == x@);
                } else if a < j {
                    assert(fv[a] == mv[a] && fv[b] == mv[b - 1]);
                } else if a == j {
                    assert(fv[a] == x@ && fv[b] == mv[b - 1]);
                    assert(seq_lt(x@.path, mv[j as int].path));
                    if seq_lt(mv[b - 1].path, x@.path) {
                        lemma_seq_lt_transitive(mv[b - 1].path, x@.path, mv[j as int].path);
                        if b - 1 == j {
                            lemma_seq_lt_irreflexive(mv[j as int].path);
                        }
                    }
                } else {
                    assert(fv[a] == mv[a - 1] && fv[b] == mv[b - 1]);
                }
            }
        }
        i = i + 1;
    }
    proof {
        assert(fv0.take(i as int) =~= fv0);
        assert(stable_sort_by_path(fv0) + fv0.skip(i as int) =~= stable_sort_by_path(fv0));
    }
}

/// Builds a member's private working tree from the canonical files of the project,
/// the member's drafts and the member's staged operations (each in stored order).
pub fn project_working_tree(
    canonical: &Vec<CanonicalFile>,
    drafts: &Vec<MemberDraftRecord>,
    operations: &Vec<StagedOperation>,
) -> (r: Result<PrivateWorkingTree, AppError>)
    requires
        canonical@.len() + 2 * drafts@.len() + operations@.len() < 0x2000_0000_0000_0000,
    ensures
        match project_files(canonical@, drafts_view(drafts@), operations_view(operations@)) {
            Ok((files, main)) => r matches Ok(t) && files_view(t.files@) == stable_sort_by_path(
                files,
            ) && files_view(t.files@).to_multiset() == files.to_multiset() && sorted_by_path(
                files_view(t.files@),
            ) && opt_view(
                t.pending_main,
            ) == main && summary_matches(t.summary, files_view(t.files@), main)
                && all_flags_consistent(
                files_view(t.files@),
            ) && (main matches Some(m) ==> has_live_at(files_view(t.files@), m)) && (
            canonical_paths_distinct(canonical@) ==> live_paths_distinct(files_view(t.files@))),
            Err(k) => r matches Err(e) && failure_kind(e) == k,
        },
{
    let mut files = canonical_projection(canonical);
    let mut consumed: Vec<String> = Vec::new();
    proof {
        assert(strings_set(consumed@) =~= Set::<Seq<char>>::empty());
    }
    seed_drafts_exec(&mut files, &mut consumed, drafts);
    let mut main: Option<String> = None;
    apply_operations_exec(&mut files, &mut consumed, &mut main, drafts, operations)?;
    overlay_drafts_exec(&mut files, &consumed, drafts)?;
    if let Some(m) = &main {
        if find_live(&files, m.as_str()).is_none() {
            return Err(AppError::Conflict);
        }
    }
    let ghost unsorted = files_view(files@);
    sort_by_path(&mut files);
    proof {
        lemma_stable_sort_len(unsorted);
    }
    let summary = summarize(&files, main.is_some());
    proof {
        law_projection_flags_consistent(
            canonical@,
            drafts_view(drafts@),
            operations_view(operations@),
        );
        if let Ok((pf, pm)) = project_files(
            canonical@,
            drafts_view(drafts@),
            operations_view(operations@),
        ) {
            lemma_flags_follow_multiset(files_view(files@), pf, pm);
            if canonical_paths_distinct(canonical@) {
                law_projection_live_paths_distinct(
                    canonical@,
                    drafts_view(drafts@),
                    operations_view(operations@),
                );
                lemma_stable_sort_distinct(pf);
            }
        }
    }
    Ok(PrivateWorkingTree { files, pending_main: main, summary })
}

/// The collapsed state of a projected file: pending deletion wins, then addition, then
/// rename, then modification.
pub open spec fn spec_change_state(f: FileView) -> ProjectedChangeState {
    if f.pending_delete {
        ProjectedChangeState::PendingDelete
    } else if f.added {
        ProjectedChangeState::Added
    } else if f.renamed {
        ProjectedChangeState::Renamed
    } else if f.modified {
        ProjectedChangeState::Modified
    } else {
        ProjectedChangeState::Canonical
    }
}

impl ProjectedTeamFile {
    /// The primary user-visible state of the file.
    pub fn change_state(&self) -> (s: ProjectedChangeState)
        ensures
            s == spec_change_state(self@),
    {
        if self.pending_delete {
            ProjectedChangeState::PendingDelete
        } else if self.added {
            ProjectedChangeState::Added
        } else if self.renamed {
            ProjectedChangeState::Renamed
        } else if self.modified {
            ProjectedChangeState::Modified
        } else {
            ProjectedChangeState::Canonical
        }
    }
}

proof fn lemma_canonical_counts_zero(c: Seq<CanonicalFile>, pred: spec_fn(FileView) -> bool)
    requires
        forall|f: FileView|
            !f.added && !f.modified && !f.renamed && !f.pending_delete ==> !#[trigger] pred(f),
    ensures
        count_where(canonical_files_view(c), pred) == 0,
    decreases c.len(),
{
    if c.len() > 0 {
        assert(canonical_files_view(c).drop_last() =~= canonical_files_view(c.drop_last()));
        lemma_canonical_counts_zero(c.drop_last(), pred);
    }
}

/// Without drafts or staged operations the private view is exactly the canonical files,
/// each in the canonical state, with nothing pending.
pub proof fn law_no_private_changes_shows_canonical(canonical: Seq<CanonicalFile>)
    ensures
        project_files(canonical, seq![], seq![]) == Ok::<
            (Seq<FileView>, Option<Seq<char>>),
            FailureKind,
        >((canonical_files_view(canonical), None)),
        forall|i: int|
            0 <= i < canonical.len() ==> spec_change_state(#[trigger] canonical_files_view(canonical)[i])
                == ProjectedChangeState::Canonical,
        forall|s: PendingChangeSummary|
            summary_matches(s, canonical_files_view(canonical), None) ==> s.total == 0,
{
    let fv = canonical_files_view(canonical);
    let seeded = seed_drafts(fv, Set::empty(), seq![], 0);
    assert(seeded == (fv, Set::<Seq<char>>::empty()));
    lemma_canonical_counts_zero(canonical, |f: FileView| is_modified_change(f));
    lemma_canonical_counts_zero(canonical, |f: FileView| is_added_change(f));
    lemma_canonical_counts_zero(canonical, |f: FileView| is_renamed_change(f));
    lemma_canonical_counts_zero(canonical, |f: FileView| is_deleted_change(f));
}

proof fn lemma_seed_consistent(
    files: Seq<FileView>,
    consumed: Set<Seq<char>>,
    drafts: Seq<DraftView>,
    n: nat,
)
    requires
        all_flags_consistent(files),
        n <= drafts.len(),
    ensures
        all_flags_consistent(seed_drafts(files, consumed, drafts, n).0),
    decreases n,
{
    if n > 0 {
        lemma_seed_consistent(files, consumed, drafts, (n - 1) as nat);
        let prev = seed_drafts(files, consumed, drafts, (n - 1) as nat);
        let d = drafts[n - 1];
        if d.base_revision == 0 && !has_any_at(prev.0, d.path) {
            let s = prev.0.push(added_file_view(d));
            assert forall|i: int| 0 <= i < s.len() implies flags_consistent(#[trigger] s[i]) by {
                if i < prev.0.len() {
                    assert(s[i] == prev.0[i]);
                }
            }
        }
    }
}

proof fn lemma_pull_consistent(st: ProjectionState, drafts: Seq<DraftView>, source: Seq<char>)
    requires
        all_flags_consistent(st.files),
    ensures
        pull_source(st, drafts, source) matches Ok(s1) ==> {
            &&& all_flags_consistent(s1.files)
            &&& s1.main == st.main
            &&& s1.consumed == st.consumed || s1.consumed == st.consumed.insert(source)
            &&& 0 <= live_index(s1.files, source) < s1.files.len()
            &&& s1.files[live_index(s1.files, source)].path == source
            &&& !s1.files[live_index(s1.files, source)].pending_delete
        },
{
    lemma_live_index_props(st.files, source, 0);
    if live_index(st.files, source) < 0 {
        let k = fresh_draft_from(drafts, source, 0);
        lemma_fresh_draft_props(drafts, source, 0);
        if k >= 0 {
            let a = added_file_view(drafts[k]);
            let s = st.files.push(a);
            assert forall|i: int| 0 <= i < s.len() implies flags_consistent(#[trigger] s[i]) by {
                if i < st.files.len() {
                    assert(s[i] == st.files[i]);
                }
            }
            lemma_live_index_push(st.files, a, source, 0);
            lemma_live_index_props(s, source, 0);
        }
    }
}

proof fn lemma_operation_consistent(st: ProjectionState, op: OperationView, drafts: Seq<DraftView>)
    requires
        all_flags_consistent(st.files),
    ensures
        apply_operation(st, op, drafts) matches Ok(s) ==> all_flags_consistent(s.files),
{
    if let Ok(base) = operation_base(op) {
        if op.kind == "rename"@ {
            if let (Some(src), Some(dst)) = (op.source, op.destination) {
                lemma_pull_consistent(st, drafts, src);
                if let Ok(s1) = pull_source(st, drafts, src) {
                    let i = live_index(s1.files, src);
                    let f = with_base(s1.files[i], base);
                    let g = FileView { path: dst, renamed: f.canonical_path is Some, ..f };
                    assert(flags_consistent(s1.files[i]));
                    let t = s1.files.update(i, g);
                    assert forall|j: int| 0 <= j < t.len() implies flags_consistent(#[trigger] t[j]) by {
                        if j != i {
                            assert(t[j] == s1.files[j]);
                        }
                    }
                }
            }
        } else if op.kind == "delete"@ {
            if let Some(src) = op.source {
                lemma_pull_consistent(st, drafts, src);
                if let Ok(s1) = pull_source(st, drafts, src) {
                    let i = live_index(s1.files, src);
                    let f = with_base(s1.files[i], base);
                    assert(flags_consistent(s1.files[i]));
                    if f.added {
                        let t = s1.files.remove(i);
                        assert forall|j: int| 0 <= j < t.len() implies flags_consistent(#[trigger] t[j]) by {
                            if j < i {
                                assert(t[j] == s1.files[j]);
                            } else {
                                assert(t[j] == s1.files[j + 1]);
                            }
                        }
                    } else {
                        let t = s1.files.update(i, FileView { pending_delete: true, ..f });
                        assert forall|j: int| 0 <= j < t.len() implies flags_consistent(#[trigger] t[j]) by {
                            if j != i {
                                assert(t[j] == s1.files[j]);
                            }
                        }
                    }
                }
            }
        }
    }
}

proof fn lemma_operations_consistent(
    st: ProjectionState,
    ops: Seq<OperationView>,
    drafts: Seq<DraftView>,
    n: nat,
)
    requires
        all_flags_consistent(st.files),
        n <= ops.len(),
    ensures
        apply_operations(st, ops, drafts, n) matches Ok(s) ==> all_flags_consistent(s.files),
    decreases n,
{
    if n > 0 {
        lemma_operations_consistent(st, ops, drafts, (n - 1) as nat);
        if let Ok(s) = apply_operations(st, ops, drafts, (n - 1) as nat) {
            lemma_operation_consistent(s, ops[n - 1], drafts);
        }
    }
}

proof fn lemma_overlay_consistent(
    files: Seq<FileView>,
    consumed: Set<Seq<char>>,
    drafts: Seq<DraftView>,
    n: nat,
)
    requires
        all_flags_consistent(files),
        n <= drafts.len(),
    ensures
        overlay_drafts(files, consumed, drafts, n) matches Ok(fs) ==> all_flags_consistent(fs),
    decreases n,
{
    if n > 0 {
        lemma_overlay_consistent(files, consumed, drafts, (n - 1) as nat);
        if let Ok(fs) = overlay_drafts(files, consumed, drafts, (n - 1) as nat) {
            let d = drafts[n - 1];
            if !consumed.contains(d.path) {
                let k = overlay_index_from(fs, d, 0);
                lemma_overlay_props(fs, d, 0);
                if k >= 0 {
                    let f = fs[k];
                    assert(flags_consistent(f));
                    let g = if f.added {
                        FileView {
                            blob_hash: d.blob_hash,
                            size_bytes: d.size_bytes,
                            draft_revision: Some(d.draft_revision),
                            ..f
                        }
                    } else {
                        FileView {
                            blob_hash: d.blob_hash,
                            size_bytes: d.size_bytes,
                            draft_revision: Some(d.draft_revision),
                            modified: true,
                            canonical_revision: Some(d.base_revision),
                            ..f
                        }
                    };
                    let t = fs.update(k, g);
                    assert forall|j: int| 0 <= j < t.len() implies flags_consistent(#[trigger] t[j]) by {
                        if j != k {
                            assert(t[j] == fs[j]);
                        }
                    }
                } else {
                    let t = fs.push(added_file_view(d));
                    assert forall|j: int| 0 <= j < t.len() implies flags_consistent(#[trigger] t[j]) by {
                        if j < fs.len() {
                            assert(t[j] == fs[j]);
                        }
                    }
                }
            }
        }
    }
}

/// Every file of a successful projection has consistent flags (an addition exactly when
/// it has no canonical path, and an addition is never renamed, modified or pending
/// deletion), and a pending Main names a live file of the projection.
pub proof fn law_projection_flags_consistent(
    canonical: Seq<CanonicalFile>,
    drafts: Seq<DraftView>,
    ops: Seq<OperationView>,
)
    ensures
        project_files(canonical, drafts, ops) matches Ok((files, main)) ==> {
            &&& all_flags_consistent(files)
            &&& main matches Some(m) ==> has_live_at(files, m)
        },
{
    let cv = canonical_files_view(canonical);
    assert forall|i: int| 0 <= i < cv.len() implies flags_consistent(#[trigger] cv[i]) by {
        assert(cv[i] == canonical_file_view(canonical[i]));
    }
    lemma_seed_consistent(cv, Set::empty(), drafts, drafts.len());
    let seeded = seed_drafts(cv, Set::empty(), drafts, drafts.len());
    let st0 = ProjectionState { files: seeded.0, consumed: seeded.1, main: None };
    lemma_operations_consistent(st0, ops, drafts, ops.len());
    if let Ok(st) = apply_operations(st0, ops, drafts, ops.len()) {
        lemma_overlay_consistent(st.files, st.consumed, drafts, drafts.len());
        if let Ok(files) = overlay_drafts(st.files, st.consumed, drafts, drafts.len()) {
            if let Some(m) = st.main {
                lemma_live_index_props(files, m, 0);
                if live_index(files, m) >= 0 {
                    let k = live_index(files, m);
                    assert(files[k].path == m);
                }
            }
        }
    }
}

proof fn lemma_flags_follow_multiset(a: Seq<FileView>, b: Seq<FileView>, main: Option<Seq<char>>)
    requires
        a.to_multiset() == b.to_multiset(),
        all_flags_consistent(b),
        main matches Some(m) ==> has_live_at(b, m),
    ensures
        all_flags_consistent(a),
        main matches Some(m) ==> has_live_at(a, m),
{
    broadcast use vstd::seq_lib::group_to_multiset_ensures;

    assert forall|i: int| 0 <= i < a.len() implies flags_consistent(#[trigger] a[i]) by {
        assert(a.contains(a[i]));
        assert(b.to_multiset().count(a[i]) > 0);
        assert(b.contains(a[i]));
        let j = choose|j: int| 0 <= j < b.len() && b[j] == a[i];
        assert(flags_consistent(b[j]));
    }
    if let Some(m) = main {
        let k = choose|k: int| 0 <= k < b.len() && #[trigger] b[k].path == m && !b[k].pending_delete;
        assert(b.contains(b[k]));
        assert(a.to_multiset().count(b[k]) > 0);
        assert(a.contains(b[k]));
        let j = choose|j: int| 0 <= j < a.len() && a[j] == b[k];
        assert(a[j].path == m);
    }
}

proof fn lemma_live_index_none(files: Seq<FileView>, p: Seq<char>, i: int)
    requires
        0 <= i,
        live_index_from(files, p, i) == -1,
    ensures
        forall|k: int|
            i <= k < files.len() && !files[k].pending_delete ==> #[trigger] files[k].path != p,
    decreases files.len() - i,
{
    if i < files.len() {
        lemma_live_index_none(files, p, i + 1);
    }
}

proof fn lemma_overlay_none(files: Seq<FileView>, d: DraftView, i: int)
    requires
        0 <= i,
        overlay_index_from(files, d, i) == -1,
    ensures
        forall|k: int|
            i <= k < files.len() && !files[k].pending_delete ==> #[trigger] files[k].path != d.path,
    decreases files.len() - i,
{
    if i < files.len() {
        lemma_overlay_none(files, d, i + 1);
    }
}

proof fn lemma_push_distinct(files: Seq<FileView>, a: FileView)
    requires
        live_paths_distinct(files),
        forall|k: int|
            0 <= k < files.len() && !files[k].pending_delete ==> #[trigger] files[k].path != a.path,
    ensures
        live_paths_distinct(files.push(a)),
{
    let t = files.push(a);
    assert forall|i: int, j: int|
        0 <= i < t.len() && 0 <= j < t.len() && i != j && !t[i].pending_delete
            && !t[j].pending_delete implies #[trigger] t[i].path != #[trigger] t[j].path by {
        if i < files.len() && j < files.len() {
            assert(t[i] == files[i] && t[j] == files[j]);
        } else if i < files.len() {
            assert(t[i] == files[i]);
        } else {
            assert(t[j] == files[j]);
        }
    }
}

proof fn lemma_seed_distinct(
    files: Seq<FileView>,
    consumed: Set<Seq<char>>,
    drafts: Seq<DraftView>,
    n: nat,
)
    requires
        live_paths_distinct(files),
        n <= drafts.len(),
    ensures
        live_paths_distinct(seed_drafts(files, consumed, drafts, n).0),
    decreases n,
{
    if n > 0 {
        lemma_seed_distinct(files, consumed, drafts, (n - 1) as nat);
        let prev = seed_drafts(files, consumed, drafts, (n - 1) as nat);
        let d = drafts[n - 1];
        if d.base_revision == 0 && !has_any_at(prev.0, d.path) {
            lemma_push_distinct(prev.0, added_file_view(d));
        }
    }
}

proof fn lemma_pull_distinct(st: ProjectionState, drafts: Seq<DraftView>, source: Seq<char>)
    requires
        live_paths_distinct(st.files),
    ensures
        pull_source(st, drafts, source) matches Ok(s1) ==> live_paths_distinct(s1.files),
{
    if live_index(st.files, source) < 0 {
        lemma_live_index_props(st.files, source, 0);
        lemma_live_index_none(st.files, source, 0);
        let k = fresh_draft_from(drafts, source, 0);
        lemma_fresh_draft_props(drafts, source, 0);
        if k >= 0 {
            lemma_push_distinct(st.files, added_file_view(drafts[k]));
        }
    }
}

proof fn lemma_operation_distinct(st: ProjectionState, op: OperationView, drafts: Seq<DraftView>)
    requires
        live_paths_distinct(st.files),
    ensures
        apply_operation(st, op, drafts) matches Ok(s) ==> live_paths_distinct(s.files),
{
    if let Ok(base) = operation_base(op) {
        if op.kind == "rename"@ {
            if let (Some(src), Some(dst)) = (op.source, op.destination) {
                lemma_pull_distinct(st, drafts, src);
                lemma_pull_consistent_index(st, drafts, src);
                if let Ok(s1) = pull_source(st, drafts, src) {
                    if live_index(s1.files, dst) < 0 {
                        lemma_live_index_props(s1.files, dst, 0);
                        lemma_live_index_none(s1.files, dst, 0);
                        let i = live_index(s1.files, src);
                        let f = with_base(s1.files[i], base);
                        let g = FileView { path: dst, renamed: f.canonical_path is Some, ..f };
                        let t = s1.files.update(i, g);
                        assert forall|a: int, b: int|
                            0 <= a < t.len() && 0 <= b < t.len() && a != b && !t[a].pending_delete
                                && !t[b].pending_delete implies #[trigger] t[a].path
                            != #[trigger] t[b].path by {
                            if a != i && b != i {
                                assert(t[a] == s1.files[a] && t[b] == s1.files[b]);
                            } else if a == i {
                                assert(t[b] == s1.files[b]);
                            } else {
                                assert(t[a] == s1.files[a]);
                            }
                        }
                    }
                }
            }
        } else if op.kind == "delete"@ {
            if let Some(src) = op.source {
                lemma_pull_distinct(st, drafts, src);
                lemma_pull_consistent_index(st, drafts, src);
                if let Ok(s1) = pull_source(st, drafts, src) {
                    let i = live_index(s1.files, src);
                    let f = with_base(s1.files[i], base);
                    if f.added {
                        let t = s1.files.remove(i);
                        assert forall|a: int, b: int|
                            0 <= a < t.len() && 0 <= b < t.len() && a != b && !t[a].pending_delete
                                && !t[b].pending_delete implies #[trigger] t[a].path
                            != #[trigger] t[b].path by {
                            let a1 = if a < i { a } else { a + 1 };
                            let b1 = if b < i { b } else { b + 1 };
                            assert(t[a] == s1.files[a1] && t[b] == s1.files[b1]);
                        }
                    } else {
                        let t = s1.files.update(i, FileView { pending_delete: true, ..f });
                        assert forall|a: int, b: int|
                            0 <= a < t.len() && 0 <= b < t.len() && a != b && !t[a].pending_delete
                                && !t[b].pending_delete implies #[trigger] t[a].path
                            != #[trigger] t[b].path by {
                            assert(t[a] == s1.files[a] && t[b] == s1.files[b]);
                        }
                    }
                }
            }
        }
    }
}

proof fn lemma_pull_consistent_index(st: ProjectionState, drafts: Seq<DraftView>, source: Seq<char>)
    ensures
        pull_source(st, drafts, source) matches Ok(s1) ==> {
            &&& 0 <= live_index(s1.files, source) < s1.files.len()
            &&& !s1.files[live_index(s1.files, source)].pending_delete
        },
{
    lemma_live_index_props(st.files, source, 0);
    if live_index(st.files, source) < 0 {
        let k = fresh_draft_from(drafts, source, 0);
        lemma_fresh_draft_props(drafts, source, 0);
        if k >= 0 {
            let a = added_file_view(drafts[k]);
            lemma_live_index_push(st.files, a, source, 0);
            lemma_live_index_props(st.files.push(a), source, 0);
        }
    }
}

proof fn lemma_operations_distinct(
    st: ProjectionState,
    ops: Seq<OperationView>,
    drafts: Seq<DraftView>,
    n: nat,
)
    requires
        live_paths_distinct(st.files),
        n <= ops.len(),
    ensures
        apply_operations(st, ops, drafts, n) matches Ok(s) ==> live_paths_distinct(s.files),
    decreases n,
{
    if n > 0 {
        lemma_operations_distinct(st, ops, drafts, (n - 1) as nat);
        if let Ok(s) = apply_operations(st, ops, drafts, (n - 1) as nat) {
            lemma_operation_distinct(s, ops[n - 1], drafts);
        }
    }
}

proof fn lemma_overlay_distinct(
    files: Seq<FileView>,
    consumed: Set<Seq<char>>,
    drafts: Seq<DraftView>,
    n: nat,
)
    requires
        live_paths_distinct(files),
        n <= drafts.len(),
    ensures
        overlay_drafts(files, consumed, drafts, n) matches Ok(fs) ==> live_paths_distinct(fs),
    decreases n,
{
    if n > 0 {
        lemma_overlay_distinct(files, consumed, drafts, (n - 1) as nat);
        if let Ok(fs) = overlay_drafts(files, consumed, drafts, (n - 1) as nat) {
            let d = drafts[n - 1];
            if !consumed.contains(d.path) {
                let k = overlay_index_from(fs, d, 0);
                lemma_overlay_props(fs, d, 0);
                if k >= 0 {
                    let f = fs[k];
                    let g = if f.added {
                        FileView {
                            blob_hash: d.blob_hash,
                            size_bytes: d.size_bytes,
                            draft_revision: Some(d.draft_revision),
                            ..f
                        }
                    } else {
                        FileView {
                            blob_hash: d.blob_hash,
                            size_bytes: d.size_bytes,
                            draft_revision: Some(d.draft_revision),
                            modified: true,
                            canonical_revision: Some(d.base_revision),
                            ..f
                        }
                    };
                    let t = fs.update(k, g);
                    assert forall|a: int, b: int|
                        0 <= a < t.len() && 0 <= b < t.len() && a != b && !t[a].pending_delete
                            && !t[b].pending_delete implies #[trigger] t[a].path
                        != #[trigger] t[b].path by {
                        assert(fs[a].path == t[a].path && fs[a].pending_delete == t[a].pending_delete);
                        assert(fs[b].path == t[b].path && fs[b].pending_delete == t[b].pending_delete);
                    }
                } else {
                    lemma_overlay_none(fs, d, 0);
                    lemma_push_distinct(fs, added_file_view(d));
                }
            }
        }
    }
}

/// When the canonical rows have distinct paths, no two live files of a successful
/// projection share a path.
pub proof fn law_projection_live_paths_distinct(
    canonical: Seq<CanonicalFile>,
    drafts: Seq<DraftView>,
    ops: Seq<OperationView>,
)
    requires
        canonical_paths_distinct(canonical),
    ensures
        project_files(canonical, drafts, ops) matches Ok((files, _)) ==> live_paths_distinct(files),
{
    let cv = canonical_files_view(canonical);
    assert forall|i: int, j: int|
        0 <= i < cv.len() && 0 <= j < cv.len() && i != j && !cv[i].pending_delete
            && !cv[j].pending_delete implies #[trigger] cv[i].path != #[trigger] cv[j].path by {
        assert(cv[i] == canonical_file_view(canonical[i]));
        assert(cv[j] == canonical_file_view(canonical[j]));
        if i < j {
            assert(canonical[i].path@ != canonical[j].path@);
        } else {
            assert(canonical[j].path@ != canonical[i].path@);
        }
    }
    lemma_seed_distinct(cv, Set::empty(), drafts, drafts.len());
    let seeded = seed_drafts(cv, Set::empty(), drafts, drafts.len());
    let st0 = ProjectionState { files: seeded.0, consumed: seeded.1, main: None };
    lemma_operations_distinct(st0, ops, drafts, ops.len());
    if let Ok(st) = apply_operations(st0, ops, drafts, ops.len()) {
        lemma_overlay_distinct(st.files, st.consumed, drafts, drafts.len());
    }
}

proof fn lemma_stable_sort_elements(s: Seq<FileView>)
    ensures
        stable_sort_by_path(s).len() == s.len(),
        forall|k: int|
            0 <= k < s.len() ==> exists|j: int| 0 <= j < s.len() && #[trigger] stable_sort_by_path(s)[k] == s[j],
    decreases s.len(),
{
    lemma_stable_sort_len(s);
    if s.len() > 0 {
        let rest = s.drop_last();
        lemma_stable_sort_elements(rest);
        let sr = stable_sort_by_path(rest);
        let x = s.last();
        let p = first_after_from(sr, x, 0);
        lemma_first_after_range(sr, x, 0);
        let t = stable_sort_by_path(s);
        assert(t == sr.insert(p, x));
        assert forall|k: int| 0 <= k < s.len() implies exists|j: int| 0 <= j < s.len() && #[trigger] t[k] == s[j] by {
            if k < p {
                assert(t[k] == sr[k]);
                let j = choose|j: int| 0 <= j < rest.len() && sr[k] == rest[j];
                assert(rest[j] == s[j]);
            } else if k == p {
                assert(t[k] == s[s.len() - 1]);
            } else {
                assert(t[k] == sr[k - 1]);
                let j = choose|j: int| 0 <= j < rest.len() && sr[k - 1] == rest[j];
                assert(rest[j] == s[j]);
            }
        }
    }
}

proof fn lemma_stable_sort_distinct(s: Seq<FileView>)
    requires
        live_paths_distinct(s),
    ensures
        live_paths_distinct(stable_sort_by_path(s)),
    decreases s.len(),
{
    if s.len() > 0 {
        let rest = s.drop_last();
        assert forall|i: int, j: int|
            0 <= i < rest.len() && 0 <= j < rest.len() && i != j && !rest[i].pending_delete
                && !rest[j].pending_delete implies #[trigger] rest[i].path != #[trigger] rest[j].path by {
            assert(rest[i] == s[i] && rest[j] == s[j]);
        }
        lemma_stable_sort_distinct(rest);
        lemma_stable_sort_elements(rest);
        let sr = stable_sort_by_path(rest);
        let x = s.last();
        let p = first_after_from(sr, x, 0);
        lemma_first_after_range(sr, x, 0);
        let t = stable_sort_by_path(s);
        assert(t == sr.insert(p, x));
        assert forall|a: int, b: int|
            0 <= a < t.len() && 0 <= b < t.len() && a != b && !t[a].pending_delete
                && !t[b].pending_delete implies #[trigger] t[a].path != #[trigger] t[b].path by {
            if a != p && b != p {
                let a1 = if a < p { a } else { a - 1 };
                let b1 = if b < p { b } else { b - 1 };
                assert(t[a] == sr[a1] && t[b] == sr[b1]);
            } else if a == p {
                let b1 = if b < p { b } else { b - 1 };
                assert(t[b] == sr[b1]);
                let j = choose|j: int| 0 <= j < rest.len() && sr[b1] == rest[j];
                assert(rest[j] == s[j]);
                assert(t[a] == s[s.len() - 1]);
            } else {
                let a1 = if a < p { a } else { a - 1 };
                assert(t[a] == sr[a1]);
                let j = choose|j: int| 0 <= j < rest.len() && sr[a1] == rest[j];
                assert(rest[j] == s[j]);
                assert(t[b] == s[s.len() - 1]);
            }
        }
    }
}

/// The collapsed state follows the precedence pending deletion, addition, rename,
/// modification: a renamed file shows as renamed also when it was modified, and a file
/// with no flag shows as canonical.
pub proof fn law_change_state_precedence(f: FileView)
    ensures
        (spec_change_state(f) == ProjectedChangeState::PendingDelete) <==> f.pending_delete,
        (spec_change_state(f) == ProjectedChangeState::Added) <==> (!f.pending_delete && f.added),
        (spec_change_state(f) == ProjectedChangeState::Renamed) <==> (!f.pending_delete && !f.added
            && f.renamed),
        (spec_change_state(f) == ProjectedChangeState::Modified) <==> (!f.pending_delete
            && !f.added && !f.renamed && f.modified),
        (spec_change_state(f) == ProjectedChangeState::Canonical) <==> (!f.pending_delete
            && !f.added && !f.renamed && !f.modified),
{
}

} // verus!
