//! Decisions on a member's private edits: whether a path may be written, staging of a
//! structural operation, saving a draft and publishing one draft.
use crate::access::ProjectAccess;
use crate::collaboration::{i64_revision, i64_size, FilePolicy};
use crate::error::{error_kind, AppError, ErrorKind};
use crate::permissions::{Permission, PermissionResolver};
use crate::policy::{effective_policy, rules_view, select_policy, PolicyRule, RuleView};
use crate::text::str_eq;
use crate::working_tree::{files_view, find_live, live_index, opt_view, FileView, PrivateWorkingTree};
use vstd::prelude::*;

verus! {

/// Whether a path under policy `policy` may be written with these permissions: a content
/// writer may write an editable path, and a protected path only with protected-write.
pub open spec fn policy_permits(r: PermissionResolver, policy: FilePolicy) -> bool {
    policy == FilePolicy::Editable || r.spec_allows(Permission::FileProtectedWrite)
}

/// The outcome of the write guard of a path.
pub open spec fn mutable_outcome(
    access: ProjectAccess,
    r: PermissionResolver,
    rules: Seq<RuleView>,
    path: Seq<char>,
    default_policy: Seq<char>,
) -> Result<(), ErrorKind> {
    if !(access is Team) {
        Err(ErrorKind::NotFound)
    } else if !r.spec_allows(Permission::FileWrite) {
        Err(ErrorKind::Forbidden)
    } else {
        match effective_policy(rules, path, default_policy) {
            None => Err(ErrorKind::Integrity),
            Some(p) => if policy_permits(r, p) {
                Ok(())
            } else {
                Err(ErrorKind::Forbidden)
            },
        }
    }
}

/// Whether `r` matches an outcome given by error kind.
pub open spec fn outcome_matches<T>(r: Result<T, AppError>, o: Result<(), ErrorKind>) -> bool {
    match o {
        Ok(()) => r is Ok,
        Err(k) => r matches Err(e) && error_kind(e) == k,
    }
}

/// Guards a content write of `path` in a team project.
pub fn check_mutable(
    access: &ProjectAccess,
    resolver: &PermissionResolver,
    rules: &Vec<PolicyRule>,
    path: &str,
    default_policy: &str,
) -> (r: Result<(), AppError>)
    ensures
        outcome_matches(r, mutable_outcome(*access, *resolver, rules_view(rules@), path@, default_policy@)),
{
    if !access.is_team() {
        return Err(AppError::NotFound);
    }
    if !resolver.allows(Permission::FileWrite) {
        return Err(AppError::Forbidden);
    }
    match select_policy(rules, path, default_policy) {
        Err(e) => Err(e),
        Ok(p) => if p == FilePolicy::Editable || resolver.allows(Permission::FileProtectedWrite) {
            Ok(())
        } else {
            Err(AppError::Forbidden)
        },
    }
}

/// The kinds of structural operation a member can stage.
#[derive(Copy, Clone, Debug, PartialEq, Eq, Structural)]
pub enum StructuralKind {
    Delete,
    Rename,
    SetMain,
}

/// The structural kind whose stored name is `s`, if any.
pub open spec fn structural_kind_from_name(s: Seq<char>) -> Option<StructuralKind> {
    if s == "delete"@ {
        Some(StructuralKind::Delete)
    } else if s == "rename"@ {
        Some(StructuralKind::Rename)
    } else if s == "set_main"@ {
        Some(StructuralKind::SetMain)
    } else {
        None
    }
}

/// The permission a structural operation needs.
pub open spec fn structural_permission(kind: StructuralKind) -> Permission {
    match kind {
        StructuralKind::Delete => Permission::FileDelete,
        StructuralKind::Rename => Permission::FileRename,
        StructuralKind::SetMain => Permission::FileSetMain,
    }
}

/// The outcome of the policy guard of one path touched by a delete or rename.
pub open spec fn path_guard(
    r: PermissionResolver,
    rules: Seq<RuleView>,
    path: Option<Seq<char>>,
    default_policy: Seq<char>,
) -> Result<(), ErrorKind> {
    match path {
        None => Ok(()),
        Some(p) => match effective_policy(rules, p, default_policy) {
            None => Err(ErrorKind::Integrity),
            Some(policy) => if policy_permits(r, policy) {
                Ok(())
            } else {
                Err(ErrorKind::Forbidden)
            },
        },
    }
}

/// What staging records besides the operation itself.
#[derive(Copy, Clone, Debug, PartialEq, Eq, Structural)]
pub struct StagingPlan {
    /// The structural kind of the staged operation.
    pub kind: StructuralKind,
    /// A previously staged Main change is replaced.
    pub replaces_main: bool,
    /// The canonical revision the operation is based on, as stored.
    pub base_file_revision: Option<i64>,
}

/// The outcome of staging a structural operation, before any write: the kind must be
/// known and permitted; Main must not be locked for a Main change; delete and rename paths
/// must be writable under their policies; a Main target must be a live file; the staged
/// Main file cannot be deleted; a source must be a live file; a rename destination must be
/// free.
pub open spec fn staging_outcome(
    kind_name: Seq<char>,
    source: Option<Seq<char>>,
    destination: Option<Seq<char>>,
    r: PermissionResolver,
    main_locked: bool,
    rules: Seq<RuleView>,
    default_policy: Seq<char>,
    files: Seq<FileView>,
    pending_main: Option<Seq<char>>,
) -> Result<StagingPlan, ErrorKind> {
    match structural_kind_from_name(kind_name) {
        None => Err(ErrorKind::Integrity),
        Some(kind) => if !r.spec_allows(structural_permission(kind)) {
            Err(ErrorKind::Forbidden)
        } else if kind == StructuralKind::SetMain && main_locked {
            Err(ErrorKind::Forbidden)
        } else if kind != StructuralKind::SetMain && path_guard(r, rules, source, default_policy) is Err {
            Err(path_guard(r, rules, source, default_policy)->Err_0)
        } else if kind != StructuralKind::SetMain && path_guard(r, rules, destination, default_policy) is Err {
            Err(path_guard(r, rules, destination, default_policy)->Err_0)
        } else if kind == StructuralKind::SetMain && !(destination matches Some(d) && live_index(files, d) >= 0) {
            Err(ErrorKind::NotFound)
        } else if kind == StructuralKind::Delete && pending_main == source {
            Err(ErrorKind::Conflict)
        } else {
            let base: Result<Option<i64>, ErrorKind> = match source {
                None => Ok(None),
                Some(s) => {
                    let k = live_index(files, s);
                    if k < 0 {
                        Err(ErrorKind::NotFound)
                    } else {
                        match files[k].canonical_revision {
                            None => Ok(None),
                            Some(v) => if v <= i64::MAX {
                                Ok(Some(v as i64))
                            } else {
                                Err(ErrorKind::Integrity)
                            },
                        }
                    }
                },
            };
            match base {
                Err(k) => Err(k),
                Ok(b) => if kind == StructuralKind::Rename && (destination matches Some(d) && live_index(files, d) >= 0) {
                    Err(ErrorKind::Conflict)
                } else {
                    Ok(StagingPlan { kind, replaces_main: kind == StructuralKind::SetMain, base_file_revision: b })
                },
            }
        },
    }
}

fn parse_structural_kind(value: &str) -> (r: Option<StructuralKind>)
    ensures
        r == structural_kind_from_name(value@),
{
    if str_eq(value, "delete") {
        Some(StructuralKind::Delete)
    } else if str_eq(value, "rename") {
        Some(StructuralKind::Rename)
    } else if str_eq(value, "set_main") {
        Some(StructuralKind::SetMain)
    } else {
        None
    }
}

fn guard_path(
    resolver: &PermissionResolver,
    rules: &Vec<PolicyRule>,
    path: Option<&str>,
    default_policy: &str,
) -> (r: Result<(), AppError>)
    ensures
        outcome_matches(
            r,
            path_guard(
                *resolver,
                rules_view(rules@),
                match path {
                    Some(p) => Some(p@),
                    None => None,
                },
                default_policy@,
            ),
        ),
{
    match path {
        None => Ok(()),
        Some(p) => match select_policy(rules, p, default_policy) {
            Err(e) => Err(e),
            Ok(policy) => if policy == FilePolicy::Editable || resolver.allows(Permission::FileProtectedWrite) {
                Ok(())
            } else {
                Err(AppError::Forbidden)
            },
        },
    }
}

/// The view of an optional string slice.
pub open spec fn opt_str_view(o: Option<&str>) -> Option<Seq<char>> {
    match o {
        Some(s) => Some(s@),
        None => None,
    }
}

/// Decides the staging of a structural operation (`delete`, `rename` or `set_main`) on the
/// member's projected tree.
pub fn decide_staging(
    kind_name: &str,
    source: Option<&str>,
    destination: Option<&str>,
    resolver: &PermissionResolver,
    main_locked: bool,
    rules: &Vec<PolicyRule>,
    default_policy: &str,
    tree: &PrivateWorkingTree,
) -> (r: Result<StagingPlan, AppError>)
    ensures
        match staging_outcome(
            kind_name@,
            opt_str_view(source),
            opt_str_view(destination),
            *resolver,
            main_locked,
            rules_view(rules@),
            default_policy@,
            files_view(tree.files@),
            opt_view(tree.pending_main),
        ) {
            Ok(plan) => r == Ok::<StagingPlan, AppError>(plan),
            Err(k) => r matches Err(e) && error_kind(e) == k,
        },
{
    let ghost fv = files_view(tree.files@);
    let kind = match parse_structural_kind(kind_name) {
        Some(k) => k,
        None => { return Err(AppError::Integrity { message: "invalid structural operation".to_owned() }); },
    };
    let needed = match kind {
        StructuralKind::Delete => Permission::FileDelete,
        StructuralKind::Rename => Permission::FileRename,
        StructuralKind::SetMain => Permission::FileSetMain,
    };
    if !resolver.allows(needed) {
        return Err(AppError::Forbidden);
    }
    if kind == StructuralKind::SetMain {
        if main_locked {
            return Err(AppError::Forbidden);
        }
    } else {
        match guard_path(resolver, rules, source, default_policy) {
            Err(e) => { return Err(e); },
            Ok(()) => {},
        }
        match guard_path(resolver, rules, destination, default_policy) {
            Err(e) => { return Err(e); },
            Ok(()) => {},
        }
    }
    let destination_live = match destination {
        Some(d) => find_live(&tree.files, d).is_some(),
        None => false,
    };
    if kind == StructuralKind::SetMain && !destination_live {
        return Err(AppError::NotFound);
    }
    if kind == StructuralKind::Delete {
        let same = match (&tree.pending_main, source) {
            (Some(m), Some(s)) => str_eq(m.as_str(), s),
            (None, None) => true,
            _ => false,
        };
        if same {
            return Err(AppError::Conflict);
        }
    }
    let base: Option<i64> = match source {
        None => None,
        Some(s) => match find_live(&tree.files, s) {
            None => { return Err(AppError::NotFound); },
            Some(k) => {
                assert(fv[k as int] == tree.files@[k as int]@);
                match tree.files[k].canonical_revision {
                    None => None,
                    Some(v) => match i64_revision(v) {
                        Ok(stored) => Some(stored),
                        Err(e) => { return Err(e); },
                    },
                }
            },
        },
    };
    if kind == StructuralKind::Rename && destination_live {
        return Err(AppError::Conflict);
    }
    Ok(StagingPlan { kind, replaces_main: kind == StructuralKind::SetMain, base_file_revision: base })
}

/// Whether a projected file stands at `path` or was moved from canonical `path`.
pub open spec fn touches(f: FileView, path: Seq<char>) -> bool {
    f.path == path || f.canonical_path == Some(path)
}

/// Whether a live file stands at, or was moved from, `path`.
pub open spec fn draft_target_exists(files: Seq<FileView>, path: Seq<char>) -> bool {
    exists|k: int| 0 <= k < files.len() && !files[k].pending_delete && #[trigger] touches(files[k], path)
}

/// Whether a draft of `path` would collide with a staged change: the path is pending
/// deletion, or its canonical file was moved away.
pub open spec fn draft_target_blocked(files: Seq<FileView>, path: Seq<char>) -> bool {
    exists|k: int| 0 <= k < files.len() && #[trigger] blocks_draft(files[k], path)
}

/// Whether a projected file makes a draft of `path` collide.
pub open spec fn blocks_draft(f: FileView, path: Seq<char>) -> bool {
    (f.pending_delete && touches(f, path)) || (!f.pending_delete && f.canonical_path == Some(path)
        && f.path != path)
}

/// What saving a draft writes.
#[derive(Copy, Clone, Debug, PartialEq, Eq, Structural)]
pub struct DraftWrite {
    /// The canonical revision the draft is based on, as stored.
    pub base_revision: i64,
    /// The draft size, as stored.
    pub size_bytes: i64,
    /// The new draft revision.
    pub draft_revision: u64,
    /// The new draft revision, as stored.
    pub stored_revision: i64,
}

/// The outcome of saving a draft of a writable path: creating a path needs file-create;
/// a path pending deletion or moved away collides; a stale expected draft revision is a
/// draft conflict; revisions and sizes must fit the database integers.
pub open spec fn draft_save_outcome(
    path: Seq<char>,
    files: Seq<FileView>,
    may_create: bool,
    stored: Option<i64>,
    expected: Option<u64>,
    base_revision: u64,
    size_bytes: u64,
) -> Result<DraftWrite, ErrorKind> {
    if !draft_target_exists(files, path) && !may_create {
        Err(ErrorKind::Forbidden)
    } else if draft_target_blocked(files, path) {
        Err(ErrorKind::Conflict)
    } else if stored matches Some(v) && v < 0 {
        Err(ErrorKind::Integrity)
    } else {
        let current: int = match stored {
            Some(v) => v as int,
            None => 0,
        };
        if expected matches Some(e) && e != current {
            Err(ErrorKind::DraftConflict)
        } else if current + 1 > u64::MAX || base_revision > i64::MAX || size_bytes > i64::MAX
            || current + 1 > i64::MAX {
            Err(ErrorKind::Integrity)
        } else {
            Ok(DraftWrite {
                base_revision: base_revision as i64,
                size_bytes: size_bytes as i64,
                draft_revision: (current + 1) as u64,
                stored_revision: (current + 1) as i64,
            })
        }
    }
}

/// Decides saving a member's draft of a path that passed the write guard. `stored` is the
/// member's current draft revision of the path, if any; `expected` the revision the
/// client last saw, if it sent one.
pub fn decide_draft_save(
    path: &str,
    tree: &PrivateWorkingTree,
    resolver: &PermissionResolver,
    stored: Option<i64>,
    expected: Option<u64>,
    base_revision: u64,
    size_bytes: u64,
) -> (r: Result<DraftWrite, AppError>)
    ensures
        match draft_save_outcome(
            path@,
            files_view(tree.files@),
            resolver.spec_allows(Permission::FileCreate),
            stored,
            expected,
            base_revision,
            size_bytes,
        ) {
            Ok(w) => r == Ok::<DraftWrite, AppError>(w),
            Err(k) => r matches Err(e) && error_kind(e) == k,
        },
{
    let ghost fv = files_view(tree.files@);
    let mut exists = false;
    let mut blocked = false;
    let mut i: usize = 0;
    while i < tree.files.len()
        invariant
            fv == files_view(tree.files@),
            i <= tree.files@.len(),
            exists == exists|k: int| 0 <= k < i && !fv[k].pending_delete && #[trigger] touches(fv[k], path@),
            blocked == exists|k: int| 0 <= k < i && #[trigger] blocks_draft(fv[k], path@),
        decreases tree.files@.len() - i,
    {
        let f = &tree.files[i];
        assert(fv[i as int] == f@);
        let at_path = str_eq(f.path.as_str(), path);
        let from_path = match &f.canonical_path {
            Some(c) => str_eq(c.as_str(), path),
            None => false,
        };
        assert((at_path || from_path) == touches(fv[i as int], path@));
        assert(((f.pending_delete && (at_path || from_path)) || (!f.pending_delete && from_path && !at_path)) == blocks_draft(fv[i as int], path@));
        if !f.pending_delete && (at_path || from_path) {
            exists = true;
        }
        if (f.pending_delete && (at_path || from_path)) || (!f.pending_delete && from_path && !at_path) {
            blocked = true;
        }
        i = i + 1;
    }
    if !exists && !resolver.allows(Permission::FileCreate) {
        return Err(AppError::Forbidden);
    }
    if blocked {
        return Err(AppError::Conflict);
    }
    let current: u64 = match stored {
        Some(v) => if v < 0 {
            return Err(AppError::Integrity { message: "negative persisted revision".to_owned() });
        } else {
            v as u64
        },
        None => 0,
    };
    if let Some(e) = expected {
        if e != current {
            return Err(AppError::DraftConflict);
        }
    }
    if current == u64::MAX {
        return Err(AppError::Integrity { message: "draft revision overflow".to_owned() });
    }
    let next = current + 1;
    let base = match i64_revision(base_revision) {
        Ok(v) => v,
        Err(e) => { return Err(e); },
    };
    let size = match i64_size(size_bytes) {
        Ok(v) => v,
        Err(e) => { return Err(e); },
    };
    let stored_next = match i64_revision(next) {
        Ok(v) => v,
        Err(e) => { return Err(e); },
    };
    Ok(DraftWrite { base_revision: base, size_bytes: size, draft_revision: next, stored_revision: stored_next })
}

/// The outcome of publishing one draft against the canonical revision of its path.
#[derive(Copy, Clone, Debug, PartialEq, Eq, Structural)]
pub enum DraftPublication {
    /// The draft is based on another revision than the current one.
    Conflict { current_file_revision: u64 },
    /// The draft becomes the canonical file at the next revision.
    Write { file_revision: u64, stored_size: i64, stored_revision: i64 },
}

/// The outcome of publishing a draft: a draft based on another revision than the current
/// canonical one (0 when the path has no canonical file) conflicts; otherwise the file
/// advances one revision.
pub open spec fn draft_publication_outcome(
    draft_base: u64,
    draft_size: u64,
    canonical: Option<i64>,
) -> Result<DraftPublication, ErrorKind> {
    if canonical matches Some(v) && v < 0 {
        Err(ErrorKind::Integrity)
    } else {
        let current: int = match canonical {
            Some(v) => v as int,
            None => 0,
        };
        if draft_base != current {
            Ok(DraftPublication::Conflict { current_file_revision: current as u64 })
        } else if current + 1 > i64::MAX || draft_size > i64::MAX {
            Err(ErrorKind::Integrity)
        } else {
            Ok(DraftPublication::Write {
                file_revision: (current + 1) as u64,
                stored_size: draft_size as i64,
                stored_revision: (current + 1) as i64,
            })
        }
    }
}

/// Decides the publication of one draft; `canonical` is the stored revision of the path's
/// canonical file, if any.
pub fn decide_draft_publication(draft_base: u64, draft_size: u64, canonical: Option<i64>) -> (r: Result<
    DraftPublication,
    AppError,
>)
    ensures
        match draft_publication_outcome(draft_base, draft_size, canonical) {
            Ok(d) => r == Ok::<DraftPublication, AppError>(d),
            Err(k) => r matches Err(e) && error_kind(e) == k,
        },
{
    let current: u64 = match canonical {
        Some(v) => if v < 0 {
            return Err(AppError::Integrity { message: "negative persisted revision".to_owned() });
        } else {
            v as u64
        },
        None => 0,
    };
    if draft_base != current {
        return Ok(DraftPublication::Conflict { current_file_revision: current });
    }
    if current == u64::MAX {
        return Err(AppError::Integrity { message: "file revision overflow".to_owned() });
    }
    let next = current + 1;
    let size = match i64_size(draft_size) {
        Ok(v) => v,
        Err(e) => { return Err(e); },
    };
    let stored = match i64_revision(next) {
        Ok(v) => v,
        Err(e) => { return Err(e); },
    };
    Ok(DraftPublication::Write { file_revision: next, stored_size: size, stored_revision: stored })
}

} // verus!
