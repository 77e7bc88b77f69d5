//! Atomic publication of a member's private change set.
//!
//! Validation precedes every mutation: the whole normalized private tree is checked
//! against the locked canonical rows, the member's permissions and the path policies,
//! and any conflict rejects the change set untouched. Only an accepted change set is
//! turned into one plan of row changes and one canonical workspace event, computed from
//! the final projection state, so rename chains collapse to one rename and a
//! rename-and-modify advances the revision once.
use crate::collaboration::{
    change_conflict, conflict_reason_name, is_integrity_error, ChangeConflict,
    ChangeConflictReason, FilePolicy,
};
use crate::error::AppError;
use crate::permissions::{Permission, PermissionResolver};
use crate::policy::{effective_policy, rules_view, select_policy, RuleView, PolicyRule};
use crate::text::{
    lemma_seq_lt_irreflexive, lemma_seq_lt_total, lemma_seq_lt_transitive, seq_lt, str_eq, str_lt,
};
use crate::working_tree::{
    all_flags_consistent, clone_opt_string, clone_string, count_where, files_view, find_live,
    flags_consistent, is_added_change, is_deleted_change, is_modified_change, is_renamed_change,
    live_index, opt_view, summary_matches, FileView, PendingChangeSummary, PrivateWorkingTree,
    ProjectedTeamFile,
};
use vstd::prelude::*;

verus! {

/// The revision of one canonical row, read under the publication lock.
#[derive(Clone, Debug)]
pub struct CanonicalRevision {
    pub path: String,
    pub revision: u64,
}

/// Path and revision of each locked canonical row.
pub open spec fn canonical_view(c: Seq<CanonicalRevision>) -> Seq<(Seq<char>, u64)> {
    c.map_values(|r: CanonicalRevision| (r.path@, r.revision))
}

/// The revision recorded for `path`; the last row for a path wins, as in a map built in
/// row order.
pub open spec fn revision_of(canon: Seq<(Seq<char>, u64)>, path: Seq<char>) -> Option<u64>
    decreases canon.len(),
{
    if canon.len() == 0 {
        None
    } else if canon.last().0 == path {
        Some(canon.last().1)
    } else {
        revision_of(canon.drop_last(), path)
    }
}

/// The mathematical value of a conflict.
pub ghost struct ConflictView {
    pub path: Seq<char>,
    pub destination: Option<Seq<char>>,
    pub reason: ChangeConflictReason,
}

impl View for ChangeConflict {
    type V = ConflictView;

    open spec fn view(&self) -> ConflictView {
        ConflictView {
            path: self.path@,
            destination: opt_view(self.destination),
            reason: self.reason,
        }
    }
}

/// Views of a sequence of conflicts.
pub open spec fn conflicts_view(s: Seq<ChangeConflict>) -> Seq<ConflictView> {
    s.map_values(|c: ChangeConflict| c@)
}

/// A conflict value.
pub open spec fn conflict(
    path: Seq<char>,
    destination: Option<Seq<char>>,
    reason: ChangeConflictReason,
) -> ConflictView {
    ConflictView { path, destination, reason }
}

/// The canonical origin of a file, or its own path when it has none.
pub open spec fn source_or_path(f: FileView) -> Seq<char> {
    match f.canonical_path {
        Some(p) => p,
        None => f.path,
    }
}

/// A file whose canonical origin vanished or moved on since the member's edit.
pub open spec fn revision_conflicts(f: FileView, canon: Seq<(Seq<char>, u64)>) -> Seq<
    ConflictView,
> {
    match (f.canonical_path, f.canonical_revision) {
        (Some(p), Some(expected)) => match revision_of(canon, p) {
            None => seq![conflict(p, Some(f.path), ChangeConflictReason::MissingSource)],
            Some(actual) => if actual != expected {
                seq![conflict(p, Some(f.path), ChangeConflictReason::ChangedSinceEdit)]
            } else {
                seq![]
            },
        },
        _ => seq![],
    }
}

/// A rename or creation whose destination is already a locked canonical row.
pub open spec fn destination_conflicts(f: FileView, canon: Seq<(Seq<char>, u64)>) -> Seq<
    ConflictView,
> {
    let renamed = if f.renamed && !f.pending_delete && f.canonical_path != Some(f.path)
        && revision_of(canon, f.path) is Some {
        seq![conflict(source_or_path(f), Some(f.path), ChangeConflictReason::DestinationExists)]
    } else {
        seq![]
    };
    let added = if f.added && !f.pending_delete && revision_of(canon, f.path) is Some {
        seq![conflict(f.path, None, ChangeConflictReason::DestinationExists)]
    } else {
        seq![]
    };
    renamed + added
}

/// The permissions a file's change needs: deletion; creation and content write for new
/// content; rename, with content write when also modified; content write.
pub open spec fn required_permissions(f: FileView) -> Seq<Permission> {
    if f.pending_delete {
        seq![Permission::FileDelete]
    } else if f.added {
        seq![Permission::FileCreate, Permission::FileWrite]
    } else if f.renamed && f.modified {
        seq![Permission::FileRename, Permission::FileWrite]
    } else if f.renamed {
        seq![Permission::FileRename]
    } else if f.modified {
        seq![Permission::FileWrite]
    } else {
        seq![]
    }
}

/// Whether the file carries a change.
pub open spec fn is_changed(f: FileView) -> bool {
    required_permissions(f).len() > 0
}

/// One permission conflict per needed permission that is not held.
pub open spec fn permission_conflicts(f: FileView, r: PermissionResolver) -> Seq<ConflictView> {
    let req = required_permissions(f);
    let c = conflict(source_or_path(f), Some(f.path), ChangeConflictReason::PermissionChanged);
    (if req.len() > 0 && !r.spec_allows(req[0]) {
        seq![c]
    } else {
        seq![]
    }) + (if req.len() > 1 && !r.spec_allows(req[1]) {
        seq![c]
    } else {
        seq![]
    })
}

/// The paths whose policy governs a file's change: its canonical origin, and its own path
/// when it is created or renamed.
pub open spec fn policy_paths(f: FileView) -> Seq<Seq<char>> {
    let origin = match f.canonical_path {
        Some(p) => seq![p],
        None => seq![],
    };
    if (f.added || f.renamed) && !f.pending_delete {
        origin.push(f.path)
    } else {
        origin
    }
}

/// A protected path that the member may not write.
pub open spec fn policy_conflict(
    path: Seq<char>,
    f: FileView,
    r: PermissionResolver,
    rules: Seq<RuleView>,
    default_policy: Seq<char>,
) -> Seq<ConflictView> {
    if effective_policy(rules, path, default_policy) != Some(FilePolicy::Editable)
        && !r.spec_allows(Permission::FileProtectedWrite) {
        seq![conflict(path, Some(f.path), ChangeConflictReason::PolicyChanged)]
    } else {
        seq![]
    }
}

/// The policy conflicts of a file, one per governing path.
pub open spec fn policy_conflicts(
    f: FileView,
    r: PermissionResolver,
    rules: Seq<RuleView>,
    default_policy: Seq<char>,
) -> Seq<ConflictView> {
    let ps = policy_paths(f);
    (if ps.len() > 0 {
        policy_conflict(ps[0], f, r, rules, default_policy)
    } else {
        seq![]
    }) + (if ps.len() > 1 {
        policy_conflict(ps[1], f, r, rules, default_policy)
    } else {
        seq![]
    })
}

/// Every conflict that one projected file raises.
pub open spec fn file_conflicts(
    f: FileView,
    canon: Seq<(Seq<char>, u64)>,
    r: PermissionResolver,
    rules: Seq<RuleView>,
    default_policy: Seq<char>,
) -> Seq<ConflictView> {
    revision_conflicts(f, canon) + destination_conflicts(f, canon) + if is_changed(f) {
        permission_conflicts(f, r) + policy_conflicts(f, r, rules, default_policy)
    } else {
        seq![]
    }
}

/// Whether a changed file's governing path has a stored policy that is not a policy.
pub open spec fn file_policy_failure(
    f: FileView,
    rules: Seq<RuleView>,
    default_policy: Seq<char>,
) -> bool {
    is_changed(f) && exists|j: int|
        0 <= j < policy_paths(f).len() && #[trigger] effective_policy(
            rules,
            policy_paths(f)[j],
            default_policy,
        ) is None
}

/// The conflicts of all files, in file order.
pub open spec fn tree_conflicts(
    files: Seq<FileView>,
    canon: Seq<(Seq<char>, u64)>,
    r: PermissionResolver,
    rules: Seq<RuleView>,
    default_policy: Seq<char>,
) -> Seq<ConflictView>
    decreases files.len(),
{
    if files.len() == 0 {
        seq![]
    } else {
        tree_conflicts(files.drop_last(), canon, r, rules, default_policy) + file_conflicts(
            files.last(),
            canon,
            r,
            rules,
            default_policy,
        )
    }
}

/// Whether some file's policy lookup fails.
pub open spec fn tree_policy_failure(
    files: Seq<FileView>,
    rules: Seq<RuleView>,
    default_policy: Seq<char>,
) -> bool {
    exists|i: int|
        0 <= i < files.len() && #[trigger] file_policy_failure(files[i], rules, default_policy)
}

/// Index of the first live file renamed from canonical path `origin`, from `i`; -1 if none.
pub open spec fn renamed_from_index(files: Seq<FileView>, origin: Seq<char>, i: int) -> int
    decreases files.len() - i,
{
    if i < 0 || i >= files.len() {
        -1
    } else if !files[i].pending_delete && files[i].renamed && files[i].canonical_path == Some(
        origin,
    ) {
        i
    } else {
        renamed_from_index(files, origin, i + 1)
    }
}

/// Where the current Main moves when the member staged no Main change: the destination of
/// a live rename of the current Main file, if any.
pub open spec fn automatic_main(
    files: Seq<FileView>,
    pending_main: Option<Seq<char>>,
    current_main: Option<Seq<char>>,
) -> Option<Seq<char>> {
    match (pending_main, current_main) {
        (None, Some(cur)) => {
            let k = renamed_from_index(files, cur, 0);
            if k >= 0 {
                Some(files[k].path)
            } else {
                None
            }
        },
        _ => None,
    }
}

/// The Main pointer that the publication sets, if any.
pub open spec fn publication_main(
    files: Seq<FileView>,
    pending_main: Option<Seq<char>>,
    current_main: Option<Seq<char>>,
) -> Option<Seq<char>> {
    match pending_main {
        Some(m) => Some(m),
        None => automatic_main(files, pending_main, current_main),
    }
}

/// Conflicts of the Main pointer: a locked Main, a staged Main change without the
/// permission, or a Main target that is not a live file.
pub open spec fn main_conflicts(
    files: Seq<FileView>,
    pending_main: Option<Seq<char>>,
    current_main: Option<Seq<char>>,
    main_locked: bool,
    r: PermissionResolver,
) -> Seq<ConflictView> {
    match publication_main(files, pending_main, current_main) {
        None => seq![],
        Some(m) => (if main_locked {
            seq![conflict(m, None, ChangeConflictReason::MainLocked)]
        } else {
            seq![]
        }) + (if pending_main is Some && !r.spec_allows(Permission::FileSetMain) {
            seq![conflict(m, None, ChangeConflictReason::PermissionChanged)]
        } else {
            seq![]
        }) + (if live_index(files, m) < 0 {
            seq![conflict(m, None, ChangeConflictReason::MainTargetMissing)]
        } else {
            seq![]
        }),
    }
}

/// Order on optional paths: absent first, then by path.
pub open spec fn opt_seq_lt(a: Option<Seq<char>>, b: Option<Seq<char>>) -> bool {
    match (a, b) {
        (None, Some(_)) => true,
        (Some(x), Some(y)) => seq_lt(x, y),
        _ => false,
    }
}

/// Order of reported conflicts: by path, then destination, then reason name.
pub open spec fn conflict_lt(a: ConflictView, b: ConflictView) -> bool {
    ||| seq_lt(a.path, b.path)
    ||| a.path == b.path && opt_seq_lt(a.destination, b.destination)
    ||| a.path == b.path && a.destination == b.destination && seq_lt(
        conflict_reason_name(a.reason),
        conflict_reason_name(b.reason),
    )
}

/// Strictly increasing, hence free of duplicates.
pub open spec fn strictly_sorted(s: Seq<ConflictView>) -> bool {
    forall|i: int, j: int| 0 <= i < j < s.len() ==> conflict_lt(#[trigger] s[i], #[trigger] s[j])
}

proof fn lemma_reason_names_distinct(a: ChangeConflictReason, b: ChangeConflictReason)
    requires
        a != b,
    ensures
        conflict_reason_name(a) != conflict_reason_name(b),
{
    reveal_strlit("changed_since_edit");
    reveal_strlit("destination_exists");
    reveal_strlit("missing_source");
    reveal_strlit("main_target_missing");
    reveal_strlit("main_locked");
    reveal_strlit("policy_changed");
    reveal_strlit("permission_changed");
    let na = conflict_reason_name(a);
    let nb = conflict_reason_name(b);
    if na == nb {
        assert(na.len() == nb.len());
        assert(na[0] == nb[0]);
        assert(na[1] == nb[1]);
    }
}

proof fn lemma_opt_seq_lt_transitive(a: Option<Seq<char>>, b: Option<Seq<char>>, c: Option<Seq<char>>)
    requires
        opt_seq_lt(a, b),
        opt_seq_lt(b, c),
    ensures
        opt_seq_lt(a, c),
{
    if let (Some(x), Some(y), Some(z)) = (a, b, c) {
        lemma_seq_lt_transitive(x, y, z);
    }
}

proof fn lemma_conflict_lt_transitive(a: ConflictView, b: ConflictView, c: ConflictView)
    requires
        conflict_lt(a, b),
        conflict_lt(b, c),
    ensures
        conflict_lt(a, c),
{
    if seq_lt(a.path, b.path) && seq_lt(b.path, c.path) {
        lemma_seq_lt_transitive(a.path, b.path, c.path);
    } else if a.path == b.path && b.path == c.path {
        if opt_seq_lt(a.destination, b.destination) && opt_seq_lt(b.destination, c.destination) {
            lemma_opt_seq_lt_transitive(a.destination, b.destination, c.destination);
        } else if a.destination == b.destination && b.destination == c.destination {
            lemma_seq_lt_transitive(
                conflict_reason_name(a.reason),
                conflict_reason_name(b.reason),
                conflict_reason_name(c.reason),
            );
        }
    }
}

proof fn lemma_conflict_lt_total(a: ConflictView, b: ConflictView)
    ensures
        conflict_lt(a, b) || conflict_lt(b, a) || a == b,
{
    lemma_seq_lt_total(a.path, b.path);
    match (a.destination, b.destination) {
        (Some(x), Some(y)) => lemma_seq_lt_total(x, y),
        _ => {},
    }
    lemma_seq_lt_total(conflict_reason_name(a.reason), conflict_reason_name(b.reason));
    if a.reason != b.reason {
        lemma_reason_names_distinct(a.reason, b.reason);
    }
}

/// Whether conflict `a` sorts strictly before `b`.
fn conflict_less(a: &ChangeConflict, b: &ChangeConflict) -> (r: bool)
    ensures
        r == conflict_lt(a@, b@),
{
    proof {
        lemma_seq_lt_irreflexive(a.path@);
    }
    if str_lt(a.path.as_str(), b.path.as_str()) {
        return true;
    }
    if !str_eq(a.path.as_str(), b.path.as_str()) {
        return false;
    }
    let reasons = str_lt(a.reason.as_str(), b.reason.as_str());
    match (&a.destination, &b.destination) {
        (None, Some(_)) => true,
        (Some(_), None) => false,
        (None, None) => reasons,
        (Some(x), Some(y)) => {
            proof {
                lemma_seq_lt_irreflexive(x@);
            }
            if str_lt(x.as_str(), y.as_str()) {
                true
            } else if !str_eq(x.as_str(), y.as_str()) {
                false
            } else {
                reasons
            }
        },
    }
}

/// Whether two conflicts are the same.
fn conflict_same(a: &ChangeConflict, b: &ChangeConflict) -> (r: bool)
    ensures
        r == (a@ == b@),
{
    if !str_eq(a.path.as_str(), b.path.as_str()) || a.reason != b.reason {
        return false;
    }
    match (&a.destination, &b.destination) {
        (None, None) => true,
        (Some(x), Some(y)) => str_eq(x.as_str(), y.as_str()),
        _ => false,
    }
}

/// Inserts a conflict into a strictly sorted list unless it is already there.
fn insert_conflict(v: &mut Vec<ChangeConflict>, c: ChangeConflict)
    requires
        strictly_sorted(conflicts_view(old(v)@)),
    ensures
        strictly_sorted(conflicts_view(final(v)@)),
        forall|x: ConflictView|
            conflicts_view(final(v)@).contains(x) <==> (conflicts_view(old(v)@).contains(x) || x
                == c@),
{
    let ghost old_view = conflicts_view(v@);
    let mut k: usize = 0;
    while k < v.len()
        invariant
            old_view == conflicts_view(v@),
            strictly_sorted(old_view),
            k <= v@.len(),
            forall|i: int| 0 <= i < k ==> conflict_lt(#[trigger] old_view[i], c@),
        ensures
            old_view == conflicts_view(v@),
            k <= v@.len(),
            forall|i: int| 0 <= i < k ==> conflict_lt(#[trigger] old_view[i], c@),
            k < v@.len() ==> !conflict_lt(old_view[k as int], c@),
        decreases v@.len() - k,
    {
        if !conflict_less(&v[k], &c) {
            break;
        }
        k = k + 1;
    }
    if k < v.len() && conflict_same(&v[k], &c) {
        assert(old_view[k as int] == c@);
        return;
    }
    proof {
        if k < old_view.len() {
            assert(old_view[k as int] == v@[k as int]@);
            lemma_conflict_lt_total(old_view[k as int], c@);
            assert(conflict_lt(c@, old_view[k as int]));
            assert forall|j: int| k < j < old_view.len() implies conflict_lt(c@, #[trigger] old_view[j]) by {
                assert(conflict_lt(old_view[k as int], old_view[j]));
                lemma_conflict_lt_transitive(c@, old_view[k as int], old_view[j]);
            }
        }
    }
    let ghost cv = c@;
    v.insert(k, c);
    proof {
        let nv = conflicts_view(v@);
        assert(nv =~= old_view.insert(k as int, cv));
        assert forall|i: int, j: int| 0 <= i < j < nv.len() implies conflict_lt(#[trigger] nv[i], #[trigger] nv[j]) by {
            if j < k {
                assert(nv[i] == old_view[i] && nv[j] == old_view[j]);
            } else if j == k {
                assert(nv[i] == old_view[i]);
            } else if i < k {
                assert(nv[i] == old_view[i] && nv[j] == old_view[j - 1]);
                lemma_conflict_lt_transitive(old_view[i], cv, old_view[j - 1]);
            } else if i == k {
                assert(nv[j] == old_view[j - 1]);
            } else {
                assert(nv[i] == old_view[i - 1] && nv[j] == old_view[j - 1]);
            }
        }
        assert forall|x: ConflictView| nv.contains(x) <==> (old_view.contains(x) || x == cv) by {
            if nv.contains(x) {
                let i = choose|i: int| 0 <= i < nv.len() && nv[i] == x;
                if i < k {
                    assert(old_view[i] == x);
                } else if i > k {
                    assert(old_view[i - 1] == x);
                }
            }
            if old_view.contains(x) {
                let i = choose|i: int| 0 <= i < old_view.len() && old_view[i] == x;
                if i < k {
                    assert(nv[i] == x);
                } else {
                    assert(nv[i + 1] == x);
                }
            }
            if x == cv {
                assert(nv[k as int] == x);
            }
        }
    }
}

fn clone_conflict(c: &ChangeConflict) -> (r: ChangeConflict)
    ensures
        r@ == c@,
{
    ChangeConflict {
        path: clone_string(&c.path),
        destination: clone_opt_string(&c.destination),
        reason: c.reason,
    }
}

/// The conflicts sorted by path, destination and reason name, without duplicates.
fn sort_conflicts(raw: &Vec<ChangeConflict>) -> (r: Vec<ChangeConflict>)
    ensures
        strictly_sorted(conflicts_view(r@)),
        forall|x: ConflictView| conflicts_view(r@).contains(x) <==> conflicts_view(raw@).contains(x),
{
    let ghost rv = conflicts_view(raw@);
    let mut out: Vec<ChangeConflict> = Vec::new();
    let mut i: usize = 0;
    proof {
        assert(conflicts_view(out@) =~= Seq::<ConflictView>::empty());
    }
    while i < raw.len()
        invariant
            rv == conflicts_view(raw@),
            i <= raw@.len(),
            strictly_sorted(conflicts_view(out@)),
            forall|x: ConflictView| conflicts_view(out@).contains(x) <==> rv.take(i as int).contains(x),
        decreases raw@.len() - i,
    {
        let c = clone_conflict(&raw[i]);
        let ghost before = conflicts_view(out@);
        insert_conflict(&mut out, c);
        proof {
            assert(c@ == rv[i as int]);
            let t1 = rv.take(i + 1);
            let t0 = rv.take(i as int);
            assert forall|x: ConflictView| t1.contains(x) <==> (t0.contains(x) || x == rv[i as int]) by {
                if t1.contains(x) {
                    let j = choose|j: int| 0 <= j < t1.len() && t1[j] == x;
                    if j < i {
                        assert(t0[j] == x);
                    }
                }
                if t0.contains(x) {
                    let j = choose|j: int| 0 <= j < t0.len() && t0[j] == x;
                    assert(t1[j] == x);
                }
                if x == rv[i as int] {
                    assert(t1[i as int] == x);
                }
            }
        }
        i = i + 1;
    }
    assert(rv.take(raw@.len() as int) =~= rv);
    out
}

/// Every conflict of a publication: those of the files, in file order, then those of Main.
pub open spec fn publication_conflicts(
    files: Seq<FileView>,
    pending_main: Option<Seq<char>>,
    current_main: Option<Seq<char>>,
    main_locked: bool,
    canon: Seq<(Seq<char>, u64)>,
    r: PermissionResolver,
    rules: Seq<RuleView>,
    default_policy: Seq<char>,
) -> Seq<ConflictView> {
    tree_conflicts(files, canon, r, rules, default_policy) + main_conflicts(
        files,
        pending_main,
        current_main,
        main_locked,
        r,
    )
}

/// The revision recorded for `path` among the locked canonical rows.
fn revision_lookup(canon: &Vec<CanonicalRevision>, path: &str) -> (r: Option<u64>)
    ensures
        r == revision_of(canonical_view(canon@), path@),
{
    let ghost cv = canonical_view(canon@);
    let mut found: Option<u64> = None;
    let mut i: usize = 0;
    while i < canon.len()
        invariant
            cv == canonical_view(canon@),
            i <= canon@.len(),
            found == revision_of(cv.take(i as int), path@),
        decreases canon@.len() - i,
    {
        proof {
            assert(cv.take(i + 1).drop_last() =~= cv.take(i as int));
            assert(cv.take(i + 1).last() == (canon@[i as int].path@, canon@[i as int].revision));
        }
        if str_eq(canon[i].path.as_str(), path) {
            found = Some(canon[i].revision);
        }
        i = i + 1;
    }
    assert(cv.take(canon@.len() as int) =~= cv);
    found
}

fn push_conflict(out: &mut Vec<ChangeConflict>, c: ChangeConflict)
    ensures
        conflicts_view(final(out)@) == conflicts_view(old(out)@).push(c@),
{
    out.push(c);
    assert(conflicts_view(out@) =~= conflicts_view(old(out)@).push(c@));
}

fn new_conflict(path: &str, destination: Option<&str>, reason: ChangeConflictReason) -> (c: ChangeConflict)
    ensures
        c@ == conflict(
            path@,
            match destination {
                Some(d) => Some(d@),
                None => None,
            },
            reason,
        ),
{
    change_conflict(path, destination, reason)
}

fn required_permissions_of(f: &ProjectedTeamFile) -> (r: Vec<Permission>)
    ensures
        r@ == required_permissions(f@),
{
    if f.pending_delete {
        vec![Permission::FileDelete]
    } else if f.added {
        vec![Permission::FileCreate, Permission::FileWrite]
    } else if f.renamed && f.modified {
        vec![Permission::FileRename, Permission::FileWrite]
    } else if f.renamed {
        vec![Permission::FileRename]
    } else if f.modified {
        vec![Permission::FileWrite]
    } else {
        Vec::new()
    }
}

fn check_path_policy(
    path: &str,
    f: &ProjectedTeamFile,
    resolver: &PermissionResolver,
    rules: &Vec<PolicyRule>,
    default_policy: &str,
    out: &mut Vec<ChangeConflict>,
) -> (r: Result<(), AppError>)
    ensures
        r is Ok ==> effective_policy(rules_view(rules@), path@, default_policy@) is Some
            && conflicts_view(final(out)@) == conflicts_view(old(out)@) + policy_conflict(
            path@,
            f@,
            *resolver,
            rules_view(rules@),
            default_policy@,
        ),
        r matches Err(e) ==> effective_policy(rules_view(rules@), path@, default_policy@) is None
            && is_integrity_error(e),
{
    match select_policy(rules, path, default_policy) {
        Err(e) => Err(e),
        Ok(p) => {
            let ghost before = conflicts_view(out@);
            if p != FilePolicy::Editable && !resolver.allows(Permission::FileProtectedWrite) {
                push_conflict(
                    out,
                    new_conflict(path, Some(f.path.as_str()), ChangeConflictReason::PolicyChanged),
                );
            }
            assert(conflicts_view(out@) =~= before + policy_conflict(
                path@,
                f@,
                *resolver,
                rules_view(rules@),
                default_policy@,
            ));
            Ok(())
        },
    }
}

fn collect_revision_conflicts(
    f: &ProjectedTeamFile,
    canon: &Vec<CanonicalRevision>,
    out: &mut Vec<ChangeConflict>,
)
    ensures
        conflicts_view(final(out)@) == conflicts_view(old(out)@) + revision_conflicts(
            f@,
            canonical_view(canon@),
        ),
{
    let ghost base = conflicts_view(out@);
    match (&f.canonical_path, f.canonical_revision) {
        (Some(p), Some(expected)) => match revision_lookup(canon, p.as_str()) {
            None => push_conflict(
                out,
                new_conflict(p.as_str(), Some(f.path.as_str()), ChangeConflictReason::MissingSource),
            ),
            Some(actual) => if actual != expected {
                push_conflict(
                    out,
                    new_conflict(
                        p.as_str(),
                        Some(f.path.as_str()),
                        ChangeConflictReason::ChangedSinceEdit,
                    ),
                );
            },
        },
        _ => {},
    }
    assert(conflicts_view(out@) =~= base + revision_conflicts(f@, canonical_view(canon@)));
}

fn source_of(f: &ProjectedTeamFile) -> (s: &str)
    ensures
        s@ == source_or_path(f@),
{
    match &f.canonical_path {
        Some(p) => p.as_str(),
        None => f.path.as_str(),
    }
}

fn collect_destination_conflicts(
    f: &ProjectedTeamFile,
    canon: &Vec<CanonicalRevision>,
    out: &mut Vec<ChangeConflict>,
)
    ensures
        conflicts_view(final(out)@) == conflicts_view(old(out)@) + destination_conflicts(
            f@,
            canonical_view(canon@),
        ),
{
    let ghost base = conflicts_view(out@);
    let at_destination = revision_lookup(canon, f.path.as_str()).is_some();
    let same_origin = match &f.canonical_path {
        Some(p) => str_eq(p.as_str(), f.path.as_str()),
        None => false,
    };
    if f.renamed && !f.pending_delete && !same_origin && at_destination {
        push_conflict(
            out,
            new_conflict(source_of(f), Some(f.path.as_str()), ChangeConflictReason::DestinationExists),
        );
    }
    if f.added && !f.pending_delete && at_destination {
        push_conflict(
            out,
            new_conflict(f.path.as_str(), None, ChangeConflictReason::DestinationExists),
        );
    }
    assert(conflicts_view(out@) =~= base + destination_conflicts(f@, canonical_view(canon@)));
}

fn collect_permission_conflicts(
    f: &ProjectedTeamFile,
    required: &Vec<Permission>,
    resolver: &PermissionResolver,
    out: &mut Vec<ChangeConflict>,
)
    requires
        required@ == required_permissions(f@),
    ensures
        conflicts_view(final(out)@) == conflicts_view(old(out)@) + permission_conflicts(
            f@,
            *resolver,
        ),
{
    let ghost base = conflicts_view(out@);
    if required.len() > 0 && !resolver.allows(required[0]) {
        push_conflict(
            out,
            new_conflict(source_of(f), Some(f.path.as_str()), ChangeConflictReason::PermissionChanged),
        );
    }
    if required.len() > 1 && !resolver.allows(required[1]) {
        push_conflict(
            out,
            new_conflict(source_of(f), Some(f.path.as_str()), ChangeConflictReason::PermissionChanged),
        );
    }
    assert(conflicts_view(out@) =~= base + permission_conflicts(f@, *resolver));
}

fn collect_policy_conflicts(
    f: &ProjectedTeamFile,
    resolver: &PermissionResolver,
    rules: &Vec<PolicyRule>,
    default_policy: &str,
    out: &mut Vec<ChangeConflict>,
) -> (r: Result<(), AppError>)
    ensures
        r is Ok ==> (forall|j: int|
            0 <= j < policy_paths(f@).len() ==> #[trigger] effective_policy(
                rules_view(rules@),
                policy_paths(f@)[j],
                default_policy@,
            ) is Some) && conflicts_view(final(out)@) == conflicts_view(old(out)@)
            + policy_conflicts(f@, *resolver, rules_view(rules@), default_policy@),
        r matches Err(e) ==> (exists|j: int|
            0 <= j < policy_paths(f@).len() && #[trigger] effective_policy(
                rules_view(rules@),
                policy_paths(f@)[j],
                default_policy@,
            ) is None) && is_integrity_error(e),
{
    let ghost fv = f@;
    let ghost rv = rules_view(rules@);
    let ghost base = conflicts_view(out@);
    let ghost ps = policy_paths(fv);
    let second = (f.added || f.renamed) && !f.pending_delete;
    match &f.canonical_path {
        Some(p) => {
            assert(ps[0] == p@);
            match check_path_policy(p.as_str(), f, resolver, rules, default_policy, out) {
                Err(e) => {
                    assert(effective_policy(rv, ps[0], default_policy@) is None);
                    return Err(e);
                },
                Ok(()) => {},
            }
        },
        None => {},
    }
    if second {
        assert(ps[ps.len() - 1] == fv.path);
        match check_path_policy(f.path.as_str(), f, resolver, rules, default_policy, out) {
            Err(e) => {
                assert(effective_policy(rv, ps[ps.len() - 1], default_policy@) is None);
                return Err(e);
            },
            Ok(()) => {},
        }
    }
    proof {
        assert(conflicts_view(out@) =~= base + policy_conflicts(fv, *resolver, rv, default_policy@));
        assert forall|j: int| 0 <= j < ps.len() implies #[trigger] effective_policy(
            rv,
            ps[j],
            default_policy@,
        ) is Some by {
            if j == ps.len() - 1 && second {
                assert(ps[j] == fv.path);
            } else {
                assert(fv.canonical_path is Some && ps[j] == fv.canonical_path.unwrap());
            }
        }
    }
    Ok(())
}

fn collect_file_conflicts(
    f: &ProjectedTeamFile,
    canon: &Vec<CanonicalRevision>,
    resolver: &PermissionResolver,
    rules: &Vec<PolicyRule>,
    default_policy: &str,
    out: &mut Vec<ChangeConflict>,
) -> (r: Result<(), AppError>)
    ensures
        r is Ok ==> !file_policy_failure(f@, rules_view(rules@), default_policy@)
            && conflicts_view(final(out)@) == conflicts_view(old(out)@) + file_conflicts(
            f@,
            canonical_view(canon@),
            *resolver,
            rules_view(rules@),
            default_policy@,
        ),
        r matches Err(e) ==> file_policy_failure(f@, rules_view(rules@), default_policy@)
            && is_integrity_error(e),
{
    let ghost fv = f@;
    let ghost cv = canonical_view(canon@);
    let ghost rv = rules_view(rules@);
    let ghost base = conflicts_view(out@);
    collect_revision_conflicts(f, canon, out);
    collect_destination_conflicts(f, canon, out);
    let ghost b2 = conflicts_view(out@);
    let required = required_permissions_of(f);
    if required.len() == 0 {
        assert(conflicts_view(out@) =~= base + file_conflicts(fv, cv, *resolver, rv, default_policy@));
        return Ok(());
    }
    collect_permission_conflicts(f, &required, resolver, out);
    match collect_policy_conflicts(f, resolver, rules, default_policy, out) {
        Err(e) => return Err(e),
        Ok(()) => {},
    }
    assert(conflicts_view(out@) =~= base + file_conflicts(fv, cv, *resolver, rv, default_policy@));
    Ok(())
}

/// First live file renamed from canonical path `origin`.
fn find_renamed_from(files: &Vec<ProjectedTeamFile>, origin: &str) -> (r: Option<usize>)
    ensures
        match r {
            Some(i) => i < files@.len() && i as int == renamed_from_index(
                files_view(files@),
                origin@,
                0,
            ),
            None => renamed_from_index(files_view(files@), origin@, 0) == -1,
        },
{
    let ghost fv = files_view(files@);
    let mut i: usize = 0;
    while i < files.len()
        invariant
            i <= files@.len(),
            fv == files_view(files@),
            renamed_from_index(fv, origin@, 0) == renamed_from_index(fv, origin@, i as int),
        decreases files@.len() - i,
    {
        let f = &files[i];
        assert(fv[i as int] == f@);
        let from_origin = match &f.canonical_path {
            Some(c) => str_eq(c.as_str(), origin),
            None => false,
        };
        if !f.pending_delete && f.renamed && from_origin {
            return Some(i);
        }
        i = i + 1;
    }
    None
}

/// The Main pointer that publishing `tree` sets: the staged Main change, else the
/// destination of a live rename of the current Main file.
pub fn publication_main_of(tree: &PrivateWorkingTree, current_main: &Option<String>) -> (r: Option<
    String,
>)
    ensures
        opt_view(r) == publication_main(
            files_view(tree.files@),
            opt_view(tree.pending_main),
            opt_view(*current_main),
        ),
{
    match &tree.pending_main {
        Some(m) => Some(clone_string(m)),
        None => match current_main {
            Some(cur) => match find_renamed_from(&tree.files, cur.as_str()) {
                Some(k) => {
                    assert(files_view(tree.files@)[k as int] == tree.files@[k as int]@);
                    Some(clone_string(&tree.files[k].path))
                },
                None => None,
            },
            None => None,
        },
    }
}

/// Reviews a private change set before any mutation. A governing path whose stored policy
/// is not a policy is an integrity failure; otherwise the result lists every conflict, once
/// each, sorted by path, destination and reason name (empty when the change set may be
/// published).
pub fn review_change_set(
    tree: &PrivateWorkingTree,
    canonical: &Vec<CanonicalRevision>,
    resolver: &PermissionResolver,
    rules: &Vec<PolicyRule>,
    default_policy: &str,
    current_main: &Option<String>,
    main_locked: bool,
) -> (r: Result<Vec<ChangeConflict>, AppError>)
    ensures
        tree_policy_failure(files_view(tree.files@), rules_view(rules@), default_policy@) ==> (
        r matches Err(e) && is_integrity_error(e)),
        !tree_policy_failure(files_view(tree.files@), rules_view(rules@), default_policy@) ==> (
        r matches Ok(cs) && strictly_sorted(conflicts_view(cs@)) && forall|x: ConflictView|
            conflicts_view(cs@).contains(x) <==> publication_conflicts(
                files_view(tree.files@),
                opt_view(tree.pending_main),
                opt_view(*current_main),
                main_locked,
                canonical_view(canonical@),
                *resolver,
                rules_view(rules@),
                default_policy@,
            ).contains(x)),
{
    let ghost fv = files_view(tree.files@);
    let ghost cv = canonical_view(canonical@);
    let ghost rv = rules_view(rules@);
    let mut raw: Vec<ChangeConflict> = Vec::new();
    let mut i: usize = 0;
    assert(conflicts_view(raw@) =~= tree_conflicts(fv.take(0), cv, *resolver, rv, default_policy@));
    while i < tree.files.len()
        invariant
            fv == files_view(tree.files@),
            cv == canonical_view(canonical@),
            rv == rules_view(rules@),
            i <= tree.files@.len(),
            conflicts_view(raw@) == tree_conflicts(fv.take(i as int), cv, *resolver, rv, default_policy@),
            forall|k: int| 0 <= k < i ==> !#[trigger] file_policy_failure(fv[k], rv, default_policy@),
        decreases tree.files@.len() - i,
    {
        assert(fv[i as int] == tree.files@[i as int]@);
        match collect_file_conflicts(&tree.files[i], canonical, resolver, rules, default_policy, &mut raw) {
            Err(e) => {
                assert(file_policy_failure(fv[i as int], rv, default_policy@));
                return Err(e);
            },
            Ok(()) => {},
        }
        proof {
            assert(fv.take(i + 1).drop_last() =~= fv.take(i as int));
            assert(fv.take(i + 1).last() == fv[i as int]);
        }
        i = i + 1;
    }
    assert(fv.take(tree.files@.len() as int) =~= fv);
    let ghost b = conflicts_view(raw@);
    let main = publication_main_of(tree, current_main);
    match &main {
        Some(m) => {
            if main_locked {
                push_conflict(&mut raw, new_conflict(m.as_str(), None, ChangeConflictReason::MainLocked));
            }
            if tree.pending_main.is_some() && !resolver.allows(Permission::FileSetMain) {
                push_conflict(
                    &mut raw,
                    new_conflict(m.as_str(), None, ChangeConflictReason::PermissionChanged),
                );
            }
            if find_live(&tree.files, m.as_str()).is_none() {
                push_conflict(
                    &mut raw,
                    new_conflict(m.as_str(), None, ChangeConflictReason::MainTargetMissing),
                );
            }
        },
        None => {},
    }
    assert(conflicts_view(raw@) =~= publication_conflicts(
        fv,
        opt_view(tree.pending_main),
        opt_view(*current_main),
        main_locked,
        cv,
        *resolver,
        rv,
        default_policy@,
    ));
    Ok(sort_conflicts(&raw))
}

/// One change of the canonical file rows.
#[derive(Clone, Debug)]
pub enum FileRowChange {
    /// Removes the row at `path`.
    Delete { path: String },
    /// Inserts a row at `path`.
    Insert { path: String, blob_hash: String, size_bytes: i64, revision: i64 },
    /// Inserts or replaces the row at `path`.
    Upsert { path: String, blob_hash: String, size_bytes: i64, revision: i64 },
}

/// The mathematical value of a row change.
pub ghost enum RowChangeView {
    Delete { path: Seq<char> },
    Insert { path: Seq<char>, blob_hash: Seq<char>, size_bytes: i64, revision: i64 },
    Upsert { path: Seq<char>, blob_hash: Seq<char>, size_bytes: i64, revision: i64 },
}

impl View for FileRowChange {
    type V = RowChangeView;

    open spec fn view(&self) -> RowChangeView {
        match self {
            FileRowChange::Delete { path } => RowChangeView::Delete { path: path@ },
            FileRowChange::Insert { path, blob_hash, size_bytes, revision } => RowChangeView::Insert {
                path: path@,
                blob_hash: blob_hash@,
                size_bytes: *size_bytes,
                revision: *revision,
            },
            FileRowChange::Upsert { path, blob_hash, size_bytes, revision } => RowChangeView::Upsert {
                path: path@,
                blob_hash: blob_hash@,
                size_bytes: *size_bytes,
                revision: *revision,
            },
        }
    }
}

/// One operation of the canonical workspace event.
#[derive(Clone, Debug)]
pub enum WorkspaceChange {
    DeleteFile { path: String },
    RenameFile { from: String, to: String },
    PutFile { path: String, blob_hash: String, size_bytes: u64 },
    SetMainFile { path: String },
}

/// The mathematical value of a workspace operation.
pub ghost enum WorkspaceChangeView {
    DeleteFile { path: Seq<char> },
    RenameFile { from: Seq<char>, to: Seq<char> },
    PutFile { path: Seq<char>, blob_hash: Seq<char>, size_bytes: u64 },
    SetMainFile { path: Seq<char> },
}

impl View for WorkspaceChange {
    type V = WorkspaceChangeView;

    open spec fn view(&self) -> WorkspaceChangeView {
        match self {
            WorkspaceChange::DeleteFile { path } => WorkspaceChangeView::DeleteFile { path: path@ },
            WorkspaceChange::RenameFile { from, to } => WorkspaceChangeView::RenameFile {
                from: from@,
                to: to@,
            },
            WorkspaceChange::PutFile { path, blob_hash, size_bytes } => WorkspaceChangeView::PutFile {
                path: path@,
                blob_hash: blob_hash@,
                size_bytes: *size_bytes,
            },
            WorkspaceChange::SetMainFile { path } => WorkspaceChangeView::SetMainFile {
                path: path@,
            },
        }
    }
}

/// Views of row changes.
pub open spec fn rows_view(s: Seq<FileRowChange>) -> Seq<RowChangeView> {
    s.map_values(|c: FileRowChange| c@)
}

/// Views of workspace operations.
pub open spec fn changes_view(s: Seq<WorkspaceChange>) -> Seq<WorkspaceChangeView> {
    s.map_values(|c: WorkspaceChange| c@)
}

/// What an accepted publication writes: the row changes, the operations of the one
/// canonical workspace event, and the number of changed files.
#[derive(Clone, Debug)]
pub struct PublicationPlan {
    pub rows: Vec<FileRowChange>,
    pub operations: Vec<WorkspaceChange>,
    pub change_count: u64,
}

/// A file whose canonical row is deleted.
pub open spec fn in_delete_phase(f: FileView) -> bool {
    f.pending_delete && f.canonical_path is Some
}

/// A live renamed file.
pub open spec fn in_rename_phase(f: FileView) -> bool {
    !f.pending_delete && f.renamed
}

/// A live file written in place: modified or new.
pub open spec fn in_put_phase(f: FileView) -> bool {
    !f.pending_delete && !f.renamed && (f.modified || f.added)
}

/// Whether file `f` takes part in phase `k` (0 deletions, 1 renames, 2 writes).
pub open spec fn in_phase(k: int, f: FileView) -> bool {
    if k == 0 {
        in_delete_phase(f)
    } else if k == 1 {
        in_rename_phase(f)
    } else {
        in_put_phase(f)
    }
}

/// A revision that fits the database's signed 64-bit integers.
pub open spec fn fits_i64(v: int) -> bool {
    0 <= v <= i64::MAX
}

/// What one file of a phase writes, or `None` for an integrity failure: a rename without a
/// canonical origin or revision, a revision or size beyond the database integers.
pub open spec fn phase_step(k: int, f: FileView) -> Option<(Seq<RowChangeView>, Seq<WorkspaceChangeView>)> {
    if !in_phase(k, f) {
        Some((seq![], seq![]))
    } else if k == 0 {
        let p = f.canonical_path.unwrap();
        Some((seq![RowChangeView::Delete { path: p }], seq![WorkspaceChangeView::DeleteFile { path: p }]))
    } else if k == 1 {
        match (f.canonical_path, f.canonical_revision) {
            (Some(src), Some(rev)) => if fits_i64(rev + 1) && fits_i64(f.size_bytes as int) {
                let put = if f.modified {
                    seq![WorkspaceChangeView::PutFile { path: f.path, blob_hash: f.blob_hash, size_bytes: f.size_bytes }]
                } else {
                    seq![]
                };
                Some((
                    seq![RowChangeView::Delete { path: src }, RowChangeView::Insert {
                        path: f.path,
                        blob_hash: f.blob_hash,
                        size_bytes: f.size_bytes as i64,
                        revision: (rev + 1) as i64,
                    }],
                    seq![WorkspaceChangeView::RenameFile { from: src, to: f.path }] + put,
                ))
            } else {
                None
            },
            _ => None,
        }
    } else {
        let revision: Option<int> = if f.added {
            Some(1)
        } else {
            match f.canonical_revision {
                Some(rev) => Some(rev + 1),
                None => None,
            }
        };
        match revision {
            Some(v) => if fits_i64(v) && fits_i64(f.size_bytes as int) {
                Some((
                    seq![RowChangeView::Upsert {
                        path: f.path,
                        blob_hash: f.blob_hash,
                        size_bytes: f.size_bytes as i64,
                        revision: v as i64,
                    }],
                    seq![WorkspaceChangeView::PutFile { path: f.path, blob_hash: f.blob_hash, size_bytes: f.size_bytes }],
                ))
            } else {
                None
            },
            None => None,
        }
    }
}

/// The writes of phase `k` over all files in order, with the number of files it changes.
pub open spec fn run_phase(k: int, files: Seq<FileView>) -> Option<(Seq<RowChangeView>, Seq<WorkspaceChangeView>, nat)>
    decreases files.len(),
{
    if files.len() == 0 {
        Some((seq![], seq![], 0))
    } else {
        match (run_phase(k, files.drop_last()), phase_step(k, files.last())) {
            (Some((rows, changes, n)), Some((r, c))) => Some(
                (rows + r, changes + c, n + if in_phase(k, files.last()) { 1nat } else { 0nat }),
            ),
            _ => None,
        }
    }
}

/// The publication plan: deletions, then renames, then in-place writes, then the Main
/// pointer; `None` when some file cannot be written.
pub open spec fn publication_plan(files: Seq<FileView>, main: Option<Seq<char>>) -> Option<(Seq<RowChangeView>, Seq<WorkspaceChangeView>, nat)> {
    match (run_phase(0, files), run_phase(1, files), run_phase(2, files)) {
        (Some((r0, c0, n0)), Some((r1, c1, n1)), Some((r2, c2, n2))) => Some(
            (
                r0 + r1 + r2,
                c0 + c1 + c2 + match main {
                    Some(m) => seq![WorkspaceChangeView::SetMainFile { path: m }],
                    None => seq![],
                },
                n0 + n1 + n2,
            ),
        ),
        _ => None,
    }
}

/// The number of files that take part in phase `k`.
pub open spec fn phase_count(k: int, files: Seq<FileView>) -> nat
    decreases files.len(),
{
    if files.len() == 0 {
        0
    } else {
        phase_count(k, files.drop_last()) + if in_phase(k, files.last()) { 1nat } else { 0nat }
    }
}

proof fn lemma_run_phase_count(k: int, files: Seq<FileView>)
    ensures
        run_phase(k, files) matches Some((_, _, n)) ==> n == phase_count(k, files),
    decreases files.len(),
{
    if files.len() > 0 {
        lemma_run_phase_count(k, files.drop_last());
    }
}

proof fn lemma_phase_counts_bounded(files: Seq<FileView>)
    ensures
        phase_count(0, files) + phase_count(1, files) + phase_count(2, files) <= files.len(),
    decreases files.len(),
{
    if files.len() > 0 {
        lemma_phase_counts_bounded(files.drop_last());
    }
}

fn push_row(rows: &mut Vec<FileRowChange>, c: FileRowChange)
    ensures
        rows_view(final(rows)@) == rows_view(old(rows)@).push(c@),
{
    rows.push(c);
    assert(rows_view(rows@) =~= rows_view(old(rows)@).push(c@));
}

fn push_change(ops: &mut Vec<WorkspaceChange>, c: WorkspaceChange)
    ensures
        changes_view(final(ops)@) == changes_view(old(ops)@).push(c@),
{
    ops.push(c);
    assert(changes_view(ops@) =~= changes_view(old(ops)@).push(c@));
}

fn integrity(message: &str) -> (e: AppError)
    ensures
        is_integrity_error(e),
{
    AppError::Integrity { message: message.to_owned() }
}

/// Appends what file `f` writes in phase `k`; reports whether it took part.
fn apply_phase_step(
    k: u8,
    f: &ProjectedTeamFile,
    rows: &mut Vec<FileRowChange>,
    ops: &mut Vec<WorkspaceChange>,
) -> (r: Result<bool, AppError>)
    requires
        k <= 2,
    ensures
        match phase_step(k as int, f@) {
            Some((rs, cs)) => r == Ok::<bool, AppError>(in_phase(k as int, f@)) && rows_view(final(rows)@)
                == rows_view(old(rows)@) + rs && changes_view(final(ops)@) == changes_view(old(ops)@)
                + cs,
            None => r matches Err(e) && is_integrity_error(e),
        },
{
    let ghost r0 = rows_view(rows@);
    let ghost c0 = changes_view(ops@);
    let ghost fv = f@;
    if k == 0 {
        if !(f.pending_delete && f.canonical_path.is_some()) {
            assert(rows_view(rows@) =~= r0 + seq![]);
            assert(changes_view(ops@) =~= c0 + seq![]);
            return Ok(false);
        }
        let p = match &f.canonical_path {
            Some(p) => p,
            None => { return Ok(false); },
        };
        push_row(rows, FileRowChange::Delete { path: clone_string(p) });
        push_change(ops, WorkspaceChange::DeleteFile { path: clone_string(p) });
        assert(rows_view(rows@) =~= r0 + phase_step(0, fv).unwrap().0);
        assert(changes_view(ops@) =~= c0 + phase_step(0, fv).unwrap().1);
        return Ok(true);
    }
    if k == 1 {
        if !(!f.pending_delete && f.renamed) {
            assert(rows_view(rows@) =~= r0 + seq![]);
            assert(changes_view(ops@) =~= c0 + seq![]);
            return Ok(false);
        }
        let source = match &f.canonical_path {
            Some(p) => p,
            None => { return Err(integrity("renamed file has no canonical origin")); },
        };
        let revision = match f.canonical_revision {
            Some(v) => v,
            None => { return Err(integrity("renamed file has no canonical revision")); },
        };
        if revision == u64::MAX {
            return Err(integrity("file revision overflow"));
        }
        let revision = revision + 1;
        let size = match crate::collaboration::i64_size(f.size_bytes) {
            Ok(v) => v,
            Err(e) => { return Err(e); },
        };
        let revision = match crate::collaboration::i64_revision(revision) {
            Ok(v) => v,
            Err(e) => { return Err(e); },
        };
        push_row(rows, FileRowChange::Delete { path: clone_string(source) });
        push_row(
            rows,
            FileRowChange::Insert {
                path: clone_string(&f.path),
                blob_hash: clone_string(&f.blob_hash),
                size_bytes: size,
                revision,
            },
        );
        push_change(ops, WorkspaceChange::RenameFile { from: clone_string(source), to: clone_string(&f.path) });
        if f.modified {
            push_change(
                ops,
                WorkspaceChange::PutFile {
                    path: clone_string(&f.path),
                    blob_hash: clone_string(&f.blob_hash),
                    size_bytes: f.size_bytes,
                },
            );
        }
        assert(rows_view(rows@) =~= r0 + phase_step(1, fv).unwrap().0);
        assert(changes_view(ops@) =~= c0 + phase_step(1, fv).unwrap().1);
        return Ok(true);
    }
    if !(!f.pending_delete && !f.renamed && (f.modified || f.added)) {
        assert(rows_view(rows@) =~= r0 + seq![]);
        assert(changes_view(ops@) =~= c0 + seq![]);
        return Ok(false);
    }
    let revision: u64 = if f.added {
        1
    } else {
        match f.canonical_revision {
            Some(v) => {
                if v == u64::MAX {
                    return Err(integrity("file revision overflow"));
                }
                v + 1
            },
            None => { return Err(integrity("modified file has no canonical revision")); },
        }
    };
    let size = match crate::collaboration::i64_size(f.size_bytes) {
        Ok(v) => v,
        Err(e) => { return Err(e); },
    };
    let stored = match crate::collaboration::i64_revision(revision) {
        Ok(v) => v,
        Err(e) => { return Err(e); },
    };
    push_row(
        rows,
        FileRowChange::Upsert {
            path: clone_string(&f.path),
            blob_hash: clone_string(&f.blob_hash),
            size_bytes: size,
            revision: stored,
        },
    );
    push_change(
        ops,
        WorkspaceChange::PutFile {
            path: clone_string(&f.path),
            blob_hash: clone_string(&f.blob_hash),
            size_bytes: f.size_bytes,
        },
    );
    assert(rows_view(rows@) =~= r0 + phase_step(2, fv).unwrap().0);
    assert(changes_view(ops@) =~= c0 + phase_step(2, fv).unwrap().1);
    Ok(true)
}

/// Appends the writes of phase `k` over all files.
fn apply_phase(
    k: u8,
    files: &Vec<ProjectedTeamFile>,
    rows: &mut Vec<FileRowChange>,
    ops: &mut Vec<WorkspaceChange>,
) -> (r: Result<u64, AppError>)
    requires
        k <= 2,
    ensures
        match run_phase(k as int, files_view(files@)) {
            Some((rs, cs, n)) => r == Ok::<u64, AppError>(n as u64) && n <= files@.len() && rows_view(final(rows)@)
                == rows_view(old(rows)@) + rs && changes_view(final(ops)@) == changes_view(old(ops)@)
                + cs,
            None => r matches Err(e) && is_integrity_error(e),
        },
{
    let ghost fv = files_view(files@);
    let ghost r0 = rows_view(rows@);
    let ghost c0 = changes_view(ops@);
    let mut count: u64 = 0;
    let mut i: usize = 0;
    assert(rows_view(rows@) =~= r0 + seq![]);
    assert(changes_view(ops@) =~= c0 + seq![]);
    while i < files.len()
        invariant
            k <= 2,
            fv == files_view(files@),
            i <= files@.len(),
            count <= i,
            run_phase(k as int, fv.take(i as int)) matches Some((rs, cs, n)) && n == count
                && rows_view(rows@) == r0 + rs && changes_view(ops@) == c0 + cs,
        decreases files@.len() - i,
    {
        assert(fv[i as int] == files@[i as int]@);
        proof {
            assert(fv.take(i + 1).drop_last() =~= fv.take(i as int));
            assert(fv.take(i + 1).last() == fv[i as int]);
        }
        let ghost before = run_phase(k as int, fv.take(i as int)).unwrap();
        match apply_phase_step(k, &files[i], rows, ops) {
            Err(e) => {
                proof {
                    let t = fv.take(i as int);
                    assert(run_phase(k as int, fv.take(i + 1)) is None);
                    lemma_run_phase_none_extends(k as int, fv, i as int + 1);
                }
                return Err(e);
            },
            Ok(took_part) => {
                if took_part {
                    count = count + 1;
                }
                proof {
                    assert(rows_view(rows@) =~= r0 + run_phase(k as int, fv.take(i + 1)).unwrap().0);
                    assert(changes_view(ops@) =~= c0 + run_phase(k as int, fv.take(i + 1)).unwrap().1);
                }
            },
        }
        i = i + 1;
    }
    assert(fv.take(files@.len() as int) =~= fv);
    Ok(count)
}

proof fn lemma_run_phase_none_extends(k: int, files: Seq<FileView>, i: int)
    requires
        0 <= i <= files.len(),
        run_phase(k, files.take(i)) is None,
    ensures
        run_phase(k, files) is None,
    decreases files.len() - i,
{
    if i < files.len() {
        assert(files.take(i + 1).drop_last() =~= files.take(i));
        lemma_run_phase_none_extends(k, files, i + 1);
    } else {
        assert(files.take(i) =~= files);
    }
}

/// Plans an accepted publication from the final projection state and the Main pointer it
/// sets. A renamed file without canonical origin or revision, a modified file without
/// canonical revision, and a revision or size beyond the database integers are integrity
/// failures.
pub fn plan_publication(files: &Vec<ProjectedTeamFile>, main: &Option<String>) -> (r: Result<
    PublicationPlan,
    AppError,
>)
    ensures
        match publication_plan(files_view(files@), opt_view(*main)) {
            Some((rows, changes, n)) => r matches Ok(p) && rows_view(p.rows@) == rows
                && changes_view(p.operations@) == changes && p.change_count == n,
            None => r matches Err(e) && is_integrity_error(e),
        },
{
    let ghost fv = files_view(files@);
    let mut rows: Vec<FileRowChange> = Vec::new();
    let mut ops: Vec<WorkspaceChange> = Vec::new();
    assert(rows_view(rows@) =~= Seq::<RowChangeView>::empty());
    assert(changes_view(ops@) =~= Seq::<WorkspaceChangeView>::empty());
    proof {
        lemma_run_phase_count(0, fv);
        lemma_run_phase_count(1, fv);
        lemma_run_phase_count(2, fv);
        lemma_phase_counts_bounded(fv);
    }
    let n0 = match apply_phase(0, files, &mut rows, &mut ops) {
        Ok(n) => n,
        Err(e) => { return Err(e); },
    };
    let n1 = match apply_phase(1, files, &mut rows, &mut ops) {
        Ok(n) => n,
        Err(e) => { return Err(e); },
    };
    let n2 = match apply_phase(2, files, &mut rows, &mut ops) {
        Ok(n) => n,
        Err(e) => { return Err(e); },
    };
    let total = files.len();
    assert(n0 == phase_count(0, fv) && n1 == phase_count(1, fv) && n2 == phase_count(2, fv));
    match main {
        Some(m) => push_change(&mut ops, WorkspaceChange::SetMainFile { path: clone_string(m) }),
        None => {},
    }
    proof {
        let (r0, c0, k0) = run_phase(0, fv).unwrap();
        let (r1, c1, k1) = run_phase(1, fv).unwrap();
        let (r2, c2, k2) = run_phase(2, fv).unwrap();
        assert(rows_view(rows@) =~= r0 + r1 + r2);
        assert(changes_view(ops@) =~= publication_plan(fv, opt_view(*main)).unwrap().1);
    }
    Ok(PublicationPlan { rows, operations: ops, change_count: n0 + n1 + n2 })
}

/// The outcome of reviewing a change set: every conflict, or the plan to apply.
#[derive(Clone, Debug)]
pub enum PublicationDecision {
    Rejected { conflicts: Vec<ChangeConflict> },
    Accepted { plan: PublicationPlan },
}

/// `cs` lists exactly the conflicts of `raw`, once each, in reporting order.
pub open spec fn reports(cs: Seq<ConflictView>, raw: Seq<ConflictView>) -> bool {
    strictly_sorted(cs) && forall|x: ConflictView| cs.contains(x) <==> raw.contains(x)
}

/// Decides the publication of a member's private change set, before any mutation.
///
/// An empty change set is not found. A governing path with a stored name that is not a
/// policy is an integrity failure. Otherwise any conflict rejects the whole change set
/// and lists every conflict once, sorted; with none, the plan is computed from the final
/// projection state and the Main pointer the publication sets.
pub fn decide_publication(
    tree: &PrivateWorkingTree,
    canonical: &Vec<CanonicalRevision>,
    resolver: &PermissionResolver,
    rules: &Vec<PolicyRule>,
    default_policy: &str,
    current_main: &Option<String>,
    main_locked: bool,
) -> (r: Result<PublicationDecision, AppError>)
    ensures
        tree.summary.total == 0 ==> r matches Err(AppError::NotFound),
        tree.summary.total != 0 && tree_policy_failure(
            files_view(tree.files@),
            rules_view(rules@),
            default_policy@,
        ) ==> (r matches Err(e) && is_integrity_error(e)),
        ({
            let fv = files_view(tree.files@);
            let raw = publication_conflicts(
                fv,
                opt_view(tree.pending_main),
                opt_view(*current_main),
                main_locked,
                canonical_view(canonical@),
                *resolver,
                rules_view(rules@),
                default_policy@,
            );
            tree.summary.total != 0 && !tree_policy_failure(fv, rules_view(rules@), default_policy@)
                ==> if raw.len() > 0 {
                (r matches Ok(PublicationDecision::Rejected { conflicts }) && reports(
                    conflicts_view(conflicts@),
                    raw,
                ))
            } else {
                match publication_plan(
                    fv,
                    publication_main(fv, opt_view(tree.pending_main), opt_view(*current_main)),
                ) {
                    Some((rows, changes, n)) => (r matches Ok(PublicationDecision::Accepted { plan })
                        && rows_view(plan.rows@) == rows && changes_view(plan.operations@) == changes
                        && plan.change_count == n),
                    None => (r matches Err(e) && is_integrity_error(e)),
                }
            }
        }),
        all_flags_consistent(files_view(tree.files@)) && summary_matches(
            tree.summary,
            files_view(tree.files@),
            opt_view(tree.pending_main),
        ) ==> (r matches Ok(PublicationDecision::Accepted { plan }) ==> plan.change_count
            == tree.summary.modified + tree.summary.added + tree.summary.renamed
            + tree.summary.deleted),
{
    if tree.summary.total == 0 {
        return Err(AppError::NotFound);
    }
    let conflicts = match review_change_set(
        tree,
        canonical,
        resolver,
        rules,
        default_policy,
        current_main,
        main_locked,
    ) {
        Ok(cs) => cs,
        Err(e) => { return Err(e); },
    };
    let ghost raw = publication_conflicts(
        files_view(tree.files@),
        opt_view(tree.pending_main),
        opt_view(*current_main),
        main_locked,
        canonical_view(canonical@),
        *resolver,
        rules_view(rules@),
        default_policy@,
    );
    if conflicts.len() > 0 {
        proof {
            let cv = conflicts_view(conflicts@);
            assert(cv.contains(cv[0]));
            assert(raw.contains(cv[0]));
        }
        return Ok(PublicationDecision::Rejected { conflicts });
    }
    proof {
        if raw.len() > 0 {
            assert(raw.contains(raw[0]));
            assert(conflicts_view(conflicts@).contains(raw[0]));
        }
    }
    let main = publication_main_of(tree, current_main);
    proof {
        let fv = files_view(tree.files@);
        if all_flags_consistent(fv) && summary_matches(tree.summary, fv, opt_view(tree.pending_main))
            && publication_plan(fv, opt_view(main)) is Some {
            law_published_change_count(fv, opt_view(tree.pending_main), opt_view(main), tree.summary);
        }
    }
    match plan_publication(&tree.files, &main) {
        Ok(plan) => Ok(PublicationDecision::Accepted { plan }),
        Err(e) => Err(e),
    }
}

/// Each projected file takes part in at most one phase of the plan, so a file is written
/// once however many staged operations produced it.
pub proof fn law_each_file_written_once(f: FileView)
    ensures
        !(in_phase(0, f) && in_phase(1, f)),
        !(in_phase(0, f) && in_phase(2, f)),
        !(in_phase(1, f) && in_phase(2, f)),
{
}

/// The change count of a plan is the number of files it writes, never more than the
/// projected files.
pub proof fn law_change_count_is_files_written(files: Seq<FileView>, main: Option<Seq<char>>)
    requires
        publication_plan(files, main) is Some,
    ensures
        publication_plan(files, main).unwrap().2 == phase_count(0, files) + phase_count(1, files)
            + phase_count(2, files),
        publication_plan(files, main).unwrap().2 <= files.len(),
{
    lemma_run_phase_count(0, files);
    lemma_run_phase_count(1, files);
    lemma_run_phase_count(2, files);
    lemma_phase_counts_bounded(files);
}

/// A renamed file, however long the chain of staged renames that produced it, is one
/// rename from its canonical origin to its final path, and its revision advances once,
/// also when it was modified too.
pub proof fn law_rename_collapses(f: FileView)
    requires
        in_rename_phase(f),
        phase_step(1, f) is Some,
    ensures
        f.canonical_path is Some && f.canonical_revision is Some,
        ({
            let (rows, changes) = phase_step(1, f).unwrap();
            let src = f.canonical_path.unwrap();
            &&& rows == seq![RowChangeView::Delete { path: src }, RowChangeView::Insert {
                path: f.path,
                blob_hash: f.blob_hash,
                size_bytes: f.size_bytes as i64,
                revision: (f.canonical_revision.unwrap() + 1) as i64,
            }]
            &&& changes[0] == WorkspaceChangeView::RenameFile { from: src, to: f.path }
            &&& changes.len() == if f.modified { 2int } else { 1int }
        }),
{
}

/// A conflict-free change set that stages no Main change keeps Main on the file it names:
/// when the current Main file is renamed, the plan moves Main to the new path.
pub proof fn law_main_follows_published_rename(
    files: Seq<FileView>,
    current: Seq<char>,
    k: int,
)
    requires
        0 <= k < files.len(),
        !files[k].pending_delete,
        files[k].renamed,
        files[k].canonical_path == Some(current),
        forall|j: int|
            0 <= j < k ==> !(!files[j].pending_delete && files[j].renamed
                && #[trigger] files[j].canonical_path == Some(current)),
    ensures
        publication_main(files, None, Some(current)) == Some(files[k].path),
{
    lemma_renamed_from_index_finds(files, current, 0, k);
}

proof fn lemma_renamed_from_index_finds(files: Seq<FileView>, origin: Seq<char>, i: int, k: int)
    requires
        0 <= i <= k < files.len(),
        !files[k].pending_delete && files[k].renamed && files[k].canonical_path == Some(origin),
        forall|j: int|
            i <= j < k ==> !(!files[j].pending_delete && files[j].renamed
                && #[trigger] files[j].canonical_path == Some(origin)),
    ensures
        renamed_from_index(files, origin, i) == k,
    decreases k - i,
{
    if i < k {
        lemma_renamed_from_index_finds(files, origin, i + 1, k);
    }
}

proof fn lemma_phase_counts_match_summary(files: Seq<FileView>)
    requires
        all_flags_consistent(files),
    ensures
        phase_count(0, files) == count_where(files, |f: FileView| is_deleted_change(f)),
        phase_count(1, files) == count_where(files, |f: FileView| is_renamed_change(f)),
        phase_count(2, files) == count_where(files, |f: FileView| is_modified_change(f))
            + count_where(files, |f: FileView| is_added_change(f)),
    decreases files.len(),
{
    if files.len() > 0 {
        let rest = files.drop_last();
        assert forall|i: int| 0 <= i < rest.len() implies flags_consistent(#[trigger] rest[i]) by {
            assert(rest[i] == files[i]);
        }
        lemma_phase_counts_match_summary(rest);
        assert(flags_consistent(files[files.len() - 1]));
    }
}

/// For a working tree whose flags are consistent, the change count of its publication
/// plan equals the pending changes its summary reports: modified + added + renamed +
/// deleted (a Main change alone writes no file).
pub proof fn law_published_change_count(
    files: Seq<FileView>,
    pending_main: Option<Seq<char>>,
    main: Option<Seq<char>>,
    s: PendingChangeSummary,
)
    requires
        all_flags_consistent(files),
        summary_matches(s, files, pending_main),
        publication_plan(files, main) is Some,
    ensures
        publication_plan(files, main).unwrap().2 == s.modified + s.added + s.renamed + s.deleted,
{
    law_change_count_is_files_written(files, main);
    lemma_phase_counts_match_summary(files);
}

/// What a file's change needs: deletion alone for a pending deletion; otherwise creation
/// for an addition, renaming for a renamed canonical file, and content write whenever
/// new content is written (an addition or a modification). Each needed permission the
/// member does not hold is a permission conflict; holding them all leaves none.
pub proof fn law_required_permissions(f: FileView, r: PermissionResolver)
    ensures
        required_permissions(f).contains(Permission::FileDelete) <==> f.pending_delete,
        required_permissions(f).contains(Permission::FileCreate) <==> (!f.pending_delete
            && f.added),
        required_permissions(f).contains(Permission::FileRename) <==> (!f.pending_delete
            && !f.added && f.renamed),
        required_permissions(f).contains(Permission::FileWrite) <==> (!f.pending_delete && (
        f.added || f.modified)),
        forall|p: Permission| #[trigger]
            required_permissions(f).contains(p) ==> (p == Permission::FileDelete || p
                == Permission::FileCreate || p == Permission::FileRename || p
                == Permission::FileWrite),
        forall|p: Permission| #[trigger]
            required_permissions(f).contains(p) && !r.spec_allows(p) ==> permission_conflicts(
                f,
                r,
            ).contains(
                conflict(source_or_path(f), Some(f.path), ChangeConflictReason::PermissionChanged),
            ),
        (forall|p: Permission| #[trigger]
            required_permissions(f).contains(p) ==> r.spec_allows(p)) ==> permission_conflicts(
            f,
            r,
        ).len() == 0,
{
    let req = required_permissions(f);
    let c = conflict(source_or_path(f), Some(f.path), ChangeConflictReason::PermissionChanged);
    let pc = permission_conflicts(f, r);
    if req.len() > 0 {
        assert(req.contains(req[0]));
    }
    if req.len() > 1 {
        assert(req.contains(req[1]));
    }
    assert(req.len() <= 2);
    assert forall|p: Permission| #[trigger] req.contains(p) implies (p == req[0] || (req.len() > 1
        && p == req[1])) by {
        let j = choose|j: int| 0 <= j < req.len() && req[j] == p;
        assert(j == 0 || j == 1);
    }
    assert forall|p: Permission| #[trigger] req.contains(p) && !r.spec_allows(p) implies pc.contains(c) by {
        if p == req[0] {
            assert(pc[0] == c);
        } else {
            let first = if !r.spec_allows(req[0]) { seq![c] } else { Seq::<ConflictView>::empty() };
            assert(pc == first + seq![c]);
            assert(pc[first.len() as int] == c);
        }
    }
    if forall|p: Permission| #[trigger] req.contains(p) ==> r.spec_allows(p) {
        if req.len() > 0 {
            assert(r.spec_allows(req[0]));
        }
        if req.len() > 1 {
            assert(r.spec_allows(req[1]));
        }
    }
}

} // verus!
