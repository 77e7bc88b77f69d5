//! Central, validated authorization vocabulary and deterministic resolver.
//!
//! Route handlers ask this module for a capability; they never interpret role
//! booleans themselves. Loading roles and overrides from storage is separate,
//! so the resolver stays a pure function of its inputs.
use crate::collaboration::AccountType;
use crate::text::{chars_eq, chars_of};
use vstd::prelude::*;

verus! {

/// Number of distinct permissions.
pub const PERMISSION_COUNT: usize = 34;

/// A single capability that a user may hold in a context.
#[derive(Copy, Clone, Debug, PartialEq, Eq, Structural, PartialOrd, Ord, Hash)]
pub enum Permission {
    ProjectRead,
    ProjectCreate,
    ProjectManage,
    ProjectDelete,
    FileRead,
    FileWrite,
    FileCreate,
    FileUpload,
    FileRename,
    FileDelete,
    FileSetMain,
    FileProtectedWrite,
    CompileSubmit,
    ArtifactRead,
    TeamCreate,
    TeamMembersManage,
    TeamProjectManage,
    MentorGroupCreate,
    ReviewRead,
    ReviewComment,
    ReviewResolve,
    ReviewManage,
    TemplateUse,
    TemplateManage,
    AdminUsers,
    AdminTeams,
    AdminProjects,
    AdminTemplates,
    AdminJobs,
    AdminStorage,
    AdminBackups,
    AdminAudit,
    AdminSecurity,
    AdminSystem,
}

/// Position of a permission in the canonical ordering.
pub open spec fn perm_index(p: Permission) -> nat {
    match p {
        Permission::ProjectRead => 0,
        Permission::ProjectCreate => 1,
        Permission::ProjectManage => 2,
        Permission::ProjectDelete => 3,
        Permission::FileRead => 4,
        Permission::FileWrite => 5,
        Permission::FileCreate => 6,
        Permission::FileUpload => 7,
        Permission::FileRename => 8,
        Permission::FileDelete => 9,
        Permission::FileSetMain => 10,
        Permission::FileProtectedWrite => 11,
        Permission::CompileSubmit => 12,
        Permission::ArtifactRead => 13,
        Permission::TeamCreate => 14,
        Permission::TeamMembersManage => 15,
        Permission::TeamProjectManage => 16,
        Permission::MentorGroupCreate => 17,
        Permission::ReviewRead => 18,
        Permission::ReviewComment => 19,
        Permission::ReviewResolve => 20,
        Permission::ReviewManage => 21,
        Permission::TemplateUse => 22,
        Permission::TemplateManage => 23,
        Permission::AdminUsers => 24,
        Permission::AdminTeams => 25,
        Permission::AdminProjects => 26,
        Permission::AdminTemplates => 27,
        Permission::AdminJobs => 28,
        Permission::AdminStorage => 29,
        Permission::AdminBackups => 30,
        Permission::AdminAudit => 31,
        Permission::AdminSecurity => 32,
        Permission::AdminSystem => 33,
    }
}

/// The permission at a position of the canonical ordering.
pub open spec fn perm_at(i: int) -> Permission {
    if i == 0 {
        Permission::ProjectRead
    } else if i == 1 {
        Permission::ProjectCreate
    } else if i == 2 {
        Permission::ProjectManage
    } else if i == 3 {
        Permission::ProjectDelete
    } else if i == 4 {
        Permission::FileRead
    } else if i == 5 {
        Permission::FileWrite
    } else if i == 6 {
        Permission::FileCreate
    } else if i == 7 {
        Permission::FileUpload
    } else if i == 8 {
        Permission::FileRename
    } else if i == 9 {
        Permission::FileDelete
    } else if i == 10 {
        Permission::FileSetMain
    } else if i == 11 {
        Permission::FileProtectedWrite
    } else if i == 12 {
        Permission::CompileSubmit
    } else if i == 13 {
        Permission::ArtifactRead
    } else if i == 14 {
        Permission::TeamCreate
    } else if i == 15 {
        Permission::TeamMembersManage
    } else if i == 16 {
        Permission::TeamProjectManage
    } else if i == 17 {
        Permission::MentorGroupCreate
    } else if i == 18 {
        Permission::ReviewRead
    } else if i == 19 {
        Permission::ReviewComment
    } else if i == 20 {
        Permission::ReviewResolve
    } else if i == 21 {
        Permission::ReviewManage
    } else if i == 22 {
        Permission::TemplateUse
    } else if i == 23 {
        Permission::TemplateManage
    } else if i == 24 {
        Permission::AdminUsers
    } else if i == 25 {
        Permission::AdminTeams
    } else if i == 26 {
        Permission::AdminProjects
    } else if i == 27 {
        Permission::AdminTemplates
    } else if i == 28 {
        Permission::AdminJobs
    } else if i == 29 {
        Permission::AdminStorage
    } else if i == 30 {
        Permission::AdminBackups
    } else if i == 31 {
        Permission::AdminAudit
    } else if i == 32 {
        Permission::AdminSecurity
    } else {
        Permission::AdminSystem
    }
}

/// The stable wire name of a permission.
pub open spec fn permission_name(p: Permission) -> Seq<char> {
    match p {
        Permission::ProjectRead => "project.read"@,
        Permission::ProjectCreate => "project.create"@,
        Permission::ProjectManage => "project.manage"@,
        Permission::ProjectDelete => "project.delete"@,
        Permission::FileRead => "file.read"@,
        Permission::FileWrite => "file.write"@,
        Permission::FileCreate => "file.create"@,
        Permission::FileUpload => "file.upload"@,
        Permission::FileRename => "file.rename"@,
        Permission::FileDelete => "file.delete"@,
        Permission::FileSetMain => "file.set_main"@,
        Permission::FileProtectedWrite => "file.protected.write"@,
        Permission::CompileSubmit => "compile.submit"@,
        Permission::ArtifactRead => "artifact.read"@,
        Permission::TeamCreate => "team.create"@,
        Permission::TeamMembersManage => "team.members.manage"@,
        Permission::TeamProjectManage => "team.project.manage"@,
        Permission::MentorGroupCreate => "mentor_group.create"@,
        Permission::ReviewRead => "review.read"@,
        Permission::ReviewComment => "review.comment"@,
        Permission::ReviewResolve => "review.resolve"@,
        Permission::ReviewManage => "review.manage"@,
        Permission::TemplateUse => "template.use"@,
        Permission::TemplateManage => "template.manage"@,
        Permission::AdminUsers => "admin.users"@,
        Permission::AdminTeams => "admin.teams"@,
        Permission::AdminProjects => "admin.projects"@,
        Permission::AdminTemplates => "admin.templates"@,
        Permission::AdminJobs => "admin.jobs"@,
        Permission::AdminStorage => "admin.storage"@,
        Permission::AdminBackups => "admin.backups"@,
        Permission::AdminAudit => "admin.audit"@,
        Permission::AdminSecurity => "admin.security"@,
        Permission::AdminSystem => "admin.system"@,
    }
}

/// Permissions that the Writer project role grants.
pub open spec fn writer_grant(p: Permission) -> bool {
    p == Permission::ProjectRead || p == Permission::FileRead || p == Permission::FileWrite || p == Permission::FileCreate || p == Permission::FileUpload || p == Permission::FileRename || p == Permission::FileDelete || p == Permission::FileSetMain || p == Permission::CompileSubmit || p == Permission::ArtifactRead
}

/// Permissions that the Mentor project role grants.
pub open spec fn mentor_grant(p: Permission) -> bool {
    p == Permission::ProjectRead || p == Permission::FileRead || p == Permission::CompileSubmit || p == Permission::ArtifactRead || p == Permission::ReviewRead || p == Permission::ReviewComment || p == Permission::ReviewManage
}

/// Permissions that the Project Manager role grants.
pub open spec fn manager_grant(p: Permission) -> bool {
    p == Permission::ProjectRead || p == Permission::ProjectManage || p == Permission::TeamProjectManage
}

/// Permissions that the group-manager role grants.
pub open spec fn group_manager_grant(p: Permission) -> bool {
    p == Permission::TeamMembersManage || p == Permission::TeamProjectManage || p == Permission::ProjectCreate
}

/// Permissions that every institutional account holds.
pub open spec fn base_account_grant(p: Permission) -> bool {
    p == Permission::ProjectCreate || p == Permission::TemplateUse || p == Permission::TeamCreate
}

/// Index of the permission whose name has the given key; distinct names have distinct keys.
pub open spec fn index_of_name_key(k: int) -> int {
    if k == 27013618 {
        0
    } else if k == 31207907 {
        1
    } else if k == 31207917 {
        2
    } else if k == 31207908 {
        3
    } else if k == 20560228 {
        4
    } else if k == 22658036 {
        5
    } else if k == 24752609 {
        6
    } else if k == 24754927 {
        7
    } else if k == 24754529 {
        8
    } else if k == 24752741 {
        9
    } else if k == 28948959 {
        10
    } else if k == 43628660 {
        11
    } else if k == 30996083 {
        12
    } else if k == 28864686 {
        13
    } else if k == 24981985 {
        14
    } else if k == 41760482 {
        15
    } else if k == 41760874 {
        16
    } else if k == 41646450 {
        17
    } else if k == 24951781 {
        18
    } else if k == 31243247 {
        19
    } else if k == 31243237 {
        20
    } else if k == 29146081 {
        21
    } else if k == 27078830 {
        22
    } else if k == 33370286 {
        23
    } else if k == 24663909 {
        24
    } else if k == 24663905 {
        25
    } else if k == 30955375 {
        26
    } else if k == 33052525 {
        27
    } else if k == 22566754 {
        28
    } else if k == 28858223 {
        29
    } else if k == 28858211 {
        30
    } else if k == 24663908 {
        31
    } else if k == 30955363 {
        32
    } else if k == 26761075 {
        33
    } else {
        -1
    }
}

/// Length and three characters of a permission name, packed into one integer.
pub open spec fn name_key(s: Seq<char>) -> int {
    ((s.len() * 128 + (s[0] as int)) * 128 + (s[5] as int)) * 128 + (s[8] as int)
}

proof fn lemma_name_key(p: Permission)
    ensures
        index_of_name_key(name_key(permission_name(p))) == perm_index(p),
{
    match p {
        Permission::ProjectRead => {
            reveal_strlit("project.read");
        },
        Permission::ProjectCreate => {
            reveal_strlit("project.create");
        },
        Permission::ProjectManage => {
            reveal_strlit("project.manage");
        },
        Permission::ProjectDelete => {
            reveal_strlit("project.delete");
        },
        Permission::FileRead => {
            reveal_strlit("file.read");
        },
        Permission::FileWrite => {
            reveal_strlit("file.write");
        },
        Permission::FileCreate => {
            reveal_strlit("file.create");
        },
        Permission::FileUpload => {
            reveal_strlit("file.upload");
        },
        Permission::FileRename => {
            reveal_strlit("file.rename");
        },
        Permission::FileDelete => {
            reveal_strlit("file.delete");
        },
        Permission::FileSetMain => {
            reveal_strlit("file.set_main");
        },
        Permission::FileProtectedWrite => {
            reveal_strlit("file.protected.write");
        },
        Permission::CompileSubmit => {
            reveal_strlit("compile.submit");
        },
        Permission::ArtifactRead => {
            reveal_strlit("artifact.read");
        },
        Permission::TeamCreate => {
            reveal_strlit("team.create");
        },
        Permission::TeamMembersManage => {
            reveal_strlit("team.members.manage");
        },
        Permission::TeamProjectManage => {
            reveal_strlit("team.project.manage");
        },
        Permission::MentorGroupCreate => {
            reveal_strlit("mentor_group.create");
        },
        Permission::ReviewRead => {
            reveal_strlit("review.read");
        },
        Permission::ReviewComment => {
            reveal_strlit("review.comment");
        },
        Permission::ReviewResolve => {
            reveal_strlit("review.resolve");
        },
        Permission::ReviewManage => {
            reveal_strlit("review.manage");
        },
        Permission::TemplateUse => {
            reveal_strlit("template.use");
        },
        Permission::TemplateManage => {
            reveal_strlit("template.manage");
        },
        Permission::AdminUsers => {
            reveal_strlit("admin.users");
        },
        Permission::AdminTeams => {
            reveal_strlit("admin.teams");
        },
        Permission::AdminProjects => {
            reveal_strlit("admin.projects");
        },
        Permission::AdminTemplates => {
            reveal_strlit("admin.templates");
        },
        Permission::AdminJobs => {
            reveal_strlit("admin.jobs");
        },
        Permission::AdminStorage => {
            reveal_strlit("admin.storage");
        },
        Permission::AdminBackups => {
            reveal_strlit("admin.backups");
        },
        Permission::AdminAudit => {
            reveal_strlit("admin.audit");
        },
        Permission::AdminSecurity => {
            reveal_strlit("admin.security");
        },
        Permission::AdminSystem => {
            reveal_strlit("admin.system");
        },
    }
}

/// Position bounds and the inverse of `perm_index`.
pub proof fn lemma_perm_index(p: Permission)
    ensures
        perm_index(p) < PERMISSION_COUNT,
        perm_at(perm_index(p) as int) == p,
{
}

/// `perm_at` enumerates every permission once.
pub proof fn lemma_perm_at(i: int)
    requires
        0 <= i < PERMISSION_COUNT,
    ensures
        perm_index(perm_at(i)) == i,
{
}

/// Distinct permissions have distinct wire names.
pub proof fn lemma_permission_names_distinct(p: Permission, q: Permission)
    requires
        permission_name(p) == permission_name(q),
    ensures
        p == q,
{
    lemma_name_key(p);
    lemma_name_key(q);
    lemma_perm_index(p);
    lemma_perm_index(q);
}

/// The permission whose wire name is `s`, if any.
pub open spec fn permission_from_name(s: Seq<char>) -> Option<Permission> {
    if exists|p: Permission| permission_name(p) == s {
        Some(choose|p: Permission| permission_name(p) == s)
    } else {
        None
    }
}

/// Parsing the wire name of a permission gives back that permission.
pub proof fn law_permission_name_round_trip(p: Permission)
    ensures
        permission_from_name(permission_name(p)) == Some(p),
{
    let q = choose|q: Permission| permission_name(q) == permission_name(p);
    lemma_permission_names_distinct(p, q);
}

impl Permission {
    /// Position of the permission in the canonical ordering.
    pub fn index(self) -> (i: usize)
        ensures
            i == perm_index(self),
    {
        match self {
            Permission::ProjectRead => 0,
            Permission::ProjectCreate => 1,
            Permission::ProjectManage => 2,
            Permission::ProjectDelete => 3,
            Permission::FileRead => 4,
            Permission::FileWrite => 5,
            Permission::FileCreate => 6,
            Permission::FileUpload => 7,
            Permission::FileRename => 8,
            Permission::FileDelete => 9,
            Permission::FileSetMain => 10,
            Permission::FileProtectedWrite => 11,
            Permission::CompileSubmit => 12,
            Permission::ArtifactRead => 13,
            Permission::TeamCreate => 14,
            Permission::TeamMembersManage => 15,
            Permission::TeamProjectManage => 16,
            Permission::MentorGroupCreate => 17,
            Permission::ReviewRead => 18,
            Permission::ReviewComment => 19,
            Permission::ReviewResolve => 20,
            Permission::ReviewManage => 21,
            Permission::TemplateUse => 22,
            Permission::TemplateManage => 23,
            Permission::AdminUsers => 24,
            Permission::AdminTeams => 25,
            Permission::AdminProjects => 26,
            Permission::AdminTemplates => 27,
            Permission::AdminJobs => 28,
            Permission::AdminStorage => 29,
            Permission::AdminBackups => 30,
            Permission::AdminAudit => 31,
            Permission::AdminSecurity => 32,
            Permission::AdminSystem => 33,
        }
    }

    /// The permission at a position of the canonical ordering.
    pub fn from_index(i: usize) -> (p: Permission)
        requires
            i < PERMISSION_COUNT,
        ensures
            p == perm_at(i as int),
            perm_index(p) == i,
    {
        proof {
            lemma_perm_at(i as int);
        }
        if i == 0 {
            Permission::ProjectRead
        } else if i == 1 {
            Permission::ProjectCreate
        } else if i == 2 {
            Permission::ProjectManage
        } else if i == 3 {
            Permission::ProjectDelete
        } else if i == 4 {
            Permission::FileRead
        } else if i == 5 {
            Permission::FileWrite
        } else if i == 6 {
            Permission::FileCreate
        } else if i == 7 {
            Permission::FileUpload
        } else if i == 8 {
            Permission::FileRename
        } else if i == 9 {
            Permission::FileDelete
        } else if i == 10 {
            Permission::FileSetMain
        } else if i == 11 {
            Permission::FileProtectedWrite
        } else if i == 12 {
            Permission::CompileSubmit
        } else if i == 13 {
            Permission::ArtifactRead
        } else if i == 14 {
            Permission::TeamCreate
        } else if i == 15 {
            Permission::TeamMembersManage
        } else if i == 16 {
            Permission::TeamProjectManage
        } else if i == 17 {
            Permission::MentorGroupCreate
        } else if i == 18 {
            Permission::ReviewRead
        } else if i == 19 {
            Permission::ReviewComment
        } else if i == 20 {
            Permission::ReviewResolve
        } else if i == 21 {
            Permission::ReviewManage
        } else if i == 22 {
            Permission::TemplateUse
        } else if i == 23 {
            Permission::TemplateManage
        } else if i == 24 {
            Permission::AdminUsers
        } else if i == 25 {
            Permission::AdminTeams
        } else if i == 26 {
            Permission::AdminProjects
        } else if i == 27 {
            Permission::AdminTemplates
        } else if i == 28 {
            Permission::AdminJobs
        } else if i == 29 {
            Permission::AdminStorage
        } else if i == 30 {
            Permission::AdminBackups
        } else if i == 31 {
            Permission::AdminAudit
        } else if i == 32 {
            Permission::AdminSecurity
        } else {
            Permission::AdminSystem
        }
    }

    /// Every permission, in canonical order.
    pub fn all() -> (v: Vec<Permission>)
        ensures
            v@.len() == PERMISSION_COUNT,
            forall|i: int| 0 <= i < PERMISSION_COUNT ==> #[trigger] v@[i] == perm_at(i),
    {
        let mut v: Vec<Permission> = Vec::new();
        let mut i: usize = 0;
        while i < PERMISSION_COUNT
            invariant
                i <= PERMISSION_COUNT,
                v@.len() == i,
                forall|j: int| 0 <= j < i ==> #[trigger] v@[j] == perm_at(j),
            decreases PERMISSION_COUNT - i,
        {
            v.push(Permission::from_index(i));
            i = i + 1;
        }
        v
    }

    /// The stable wire name of the permission.
    pub fn as_str(self) -> (s: &'static str)
        ensures
            s@ == permission_name(self),
    {
    match self {
        Permission::ProjectRead => "project.read",
        Permission::ProjectCreate => "project.create",
        Permission::ProjectManage => "project.manage",
        Permission::ProjectDelete => "project.delete",
        Permission::FileRead => "file.read",
        Permission::FileWrite => "file.write",
        Permission::FileCreate => "file.create",
        Permission::FileUpload => "file.upload",
        Permission::FileRename => "file.rename",
        Permission::FileDelete => "file.delete",
        Permission::FileSetMain => "file.set_main",
        Permission::FileProtectedWrite => "file.protected.write",
        Permission::CompileSubmit => "compile.submit",
        Permission::ArtifactRead => "artifact.read",
        Permission::TeamCreate => "team.create",
        Permission::TeamMembersManage => "team.members.manage",
        Permission::TeamProjectManage => "team.project.manage",
        Permission::MentorGroupCreate => "mentor_group.create",
        Permission::ReviewRead => "review.read",
        Permission::ReviewComment => "review.comment",
        Permission::ReviewResolve => "review.resolve",
        Permission::ReviewManage => "review.manage",
        Permission::TemplateUse => "template.use",
        Permission::TemplateManage => "template.manage",
        Permission::AdminUsers => "admin.users",
        Permission::AdminTeams => "admin.teams",
        Permission::AdminProjects => "admin.projects",
        Permission::AdminTemplates => "admin.templates",
        Permission::AdminJobs => "admin.jobs",
        Permission::AdminStorage => "admin.storage",
        Permission::AdminBackups => "admin.backups",
        Permission::AdminAudit => "admin.audit",
        Permission::AdminSecurity => "admin.security",
        Permission::AdminSystem => "admin.system",
    }
    }

    /// Parses a wire name.
    pub fn parse(value: &str) -> (r: Option<Permission>)
        ensures
            r == permission_from_name(value@),
    {
        let wanted = chars_of(value);
        let mut i: usize = 0;
        while i < PERMISSION_COUNT
            invariant
                i <= PERMISSION_COUNT,
                wanted@ == value@,
                forall|j: int| 0 <= j < i ==> permission_name(#[trigger] perm_at(j)) != value@,
            decreases PERMISSION_COUNT - i,
        {
            let p = Permission::from_index(i);
            let name = chars_of(p.as_str());
            if chars_eq(&name, &wanted) {
                proof {
                    let q = choose|q: Permission| permission_name(q) == value@;
                    lemma_permission_names_distinct(p, q);
                }
                return Some(p);
            }
            i = i + 1;
        }
        proof {
            assert forall|p: Permission| permission_name(p) != value@ by {
                lemma_perm_index(p);
                assert(permission_name(perm_at(perm_index(p) as int)) != value@);
            }
        }
        None
    }
}

/// Whether an override allows or denies its permission.
#[derive(Copy, Clone, Debug, PartialEq, Eq, Structural)]
pub enum OverrideEffect {
    Allow,
    Deny,
}

/// Roles a user holds on one project.
#[derive(Copy, Clone, Debug, PartialEq, Eq, Structural)]
pub struct ProjectRoles {
    pub writer: bool,
    pub mentor: bool,
    pub project_manager: bool,
}

/// Roles a user holds in a team or mentor group.
#[derive(Copy, Clone, Debug, PartialEq, Eq, Structural)]
pub struct GroupRoles {
    pub group_manager: bool,
}

impl Default for ProjectRoles {
    fn default() -> (r: ProjectRoles)
        ensures
            !r.writer && !r.mentor && !r.project_manager,
    {
        ProjectRoles { writer: false, mentor: false, project_manager: false }
    }
}

impl Default for GroupRoles {
    fn default() -> (r: GroupRoles)
        ensures
            !r.group_manager,
    {
        GroupRoles { group_manager: false }
    }
}

/// Permissions that an account type grants by itself.
pub open spec fn account_grant(account: AccountType, p: Permission) -> bool {
    ||| base_account_grant(p)
    ||| ((account == AccountType::Professor || account == AccountType::Admin)
        && p == Permission::MentorGroupCreate)
    ||| account == AccountType::Admin
}

/// Permissions that group roles grant.
pub open spec fn group_grant(group: GroupRoles, p: Permission) -> bool {
    group.group_manager && group_manager_grant(p)
}

/// Permissions that project roles grant; roles compose by union.
pub open spec fn project_grant(project: ProjectRoles, p: Permission) -> bool {
    ||| (project.writer && writer_grant(p))
    ||| (project.mentor && mentor_grant(p))
    ||| (project.project_manager && manager_grant(p))
}

/// Permissions granted by account type, group roles and project roles together.
pub open spec fn role_grant(
    account: AccountType,
    group: GroupRoles,
    project: ProjectRoles,
    p: Permission,
) -> bool {
    account_grant(account, p) || group_grant(group, p) || project_grant(project, p)
}

/// Whether the override list holds `(p, effect)`.
pub open spec fn has_override(
    overrides: Seq<(Permission, OverrideEffect)>,
    p: Permission,
    effect: OverrideEffect,
) -> bool {
    exists|i: int| 0 <= i < overrides.len() && #[trigger] overrides[i] == (p, effect)
}

/// The effective decision: some grant or allow override, and no deny override.
pub open spec fn resolved_allows(
    account: AccountType,
    group: GroupRoles,
    project: ProjectRoles,
    overrides: Seq<(Permission, OverrideEffect)>,
    p: Permission,
) -> bool {
    &&& (role_grant(account, group, project, p) || has_override(overrides, p, OverrideEffect::Allow))
    &&& !has_override(overrides, p, OverrideEffect::Deny)
}


/// The permission lists used for delegation checks list exactly each role's grants.
proof fn lemma_role_list(list: Seq<Permission>, role: ProjectRoles, which: int)
    requires
        which == 0 ==> list =~= seq![Permission::ProjectRead, Permission::FileRead, Permission::FileWrite, Permission::FileCreate, Permission::FileUpload, Permission::FileRename, Permission::FileDelete, Permission::FileSetMain, Permission::CompileSubmit, Permission::ArtifactRead],
        which == 1 ==> list =~= seq![Permission::ProjectRead, Permission::FileRead, Permission::CompileSubmit, Permission::ArtifactRead, Permission::ReviewRead, Permission::ReviewComment, Permission::ReviewManage],
        which == 2 ==> list =~= seq![Permission::ProjectRead, Permission::ProjectManage, Permission::TeamProjectManage],
        0 <= which <= 2,
    ensures
        which == 0 ==> forall|p: Permission| writer_grant(p) <==> list.contains(p),
        which == 1 ==> forall|p: Permission| mentor_grant(p) <==> list.contains(p),
        which == 2 ==> forall|p: Permission| manager_grant(p) <==> list.contains(p),
{
    assert forall|p: Permission| #![auto] list.contains(p) ==> (
        (which == 0 ==> writer_grant(p)) && (which == 1 ==> mentor_grant(p)) && (which == 2 ==> manager_grant(p))) by {
        if list.contains(p) {
            let k = choose|k: int| 0 <= k < list.len() && list[k] == p;
        }
    }
    if which == 0 {
        assert forall|p: Permission| #![auto] writer_grant(p) implies list.contains(p) by {
            if p == Permission::ProjectRead {
                assert(list[0] == p);
            } else if p == Permission::FileRead {
                assert(list[1] == p);
            } else if p == Permission::FileWrite {
                assert(list[2] == p);
            } else if p == Permission::FileCreate {
                assert(list[3] == p);
            } else if p == Permission::FileUpload {
                assert(list[4] == p);
            } else if p == Permission::FileRename {
                assert(list[5] == p);
            } else if p == Permission::FileDelete {
                assert(list[6] == p);
            } else if p == Permission::FileSetMain {
                assert(list[7] == p);
            } else if p == Permission::CompileSubmit {
                assert(list[8] == p);
            } else if p == Permission::ArtifactRead {
                assert(list[9] == p);
            }
        }
    }
    if which == 1 {
        assert forall|p: Permission| #![auto] mentor_grant(p) implies list.contains(p) by {
            if p == Permission::ProjectRead {
                assert(list[0] == p);
            } else if p == Permission::FileRead {
                assert(list[1] == p);
            } else if p == Permission::CompileSubmit {
                assert(list[2] == p);
            } else if p == Permission::ArtifactRead {
                assert(list[3] == p);
            } else if p == Permission::ReviewRead {
                assert(list[4] == p);
            } else if p == Permission::ReviewComment {
                assert(list[5] == p);
            } else if p == Permission::ReviewManage {
                assert(list[6] == p);
            }
        }
    }
    if which == 2 {
        assert forall|p: Permission| #![auto] manager_grant(p) implies list.contains(p) by {
            if p == Permission::ProjectRead {
                assert(list[0] == p);
            } else if p == Permission::ProjectManage {
                assert(list[1] == p);
            } else if p == Permission::TeamProjectManage {
                assert(list[2] == p);
            }
        }
    }
}

/// Granted and denied permission sets, resolved once per request context.
#[derive(Clone, Debug)]
pub struct PermissionResolver {
    granted: [bool; 34],
    denied: [bool; 34],
}

impl PermissionResolver {
    /// Whether some role or allow override granted `p`.
    pub closed spec fn is_granted(self, p: Permission) -> bool {
        self.granted@[perm_index(p) as int]
    }

    /// Whether a deny override names `p`.
    pub closed spec fn is_denied(self, p: Permission) -> bool {
        self.denied@[perm_index(p) as int]
    }

    /// Whether `p` is effectively held.
    pub open spec fn spec_allows(self, p: Permission) -> bool {
        self.is_granted(p) && !self.is_denied(p)
    }

    /// Whether every permission of the given roles is effectively held.
    pub open spec fn spec_may_delegate_role(self, role: ProjectRoles) -> bool {
        forall|p: Permission| #[trigger] project_grant(role, p) ==> self.spec_allows(p)
    }

    /// Wire names of the held permissions among the first `n`, in canonical order.
    pub open spec fn allowed_names(self, n: nat) -> Seq<Seq<char>>
        decreases n,
    {
        if n == 0 {
            Seq::empty()
        } else {
            let rest = self.allowed_names((n - 1) as nat);
            if self.spec_allows(perm_at(n - 1)) {
                rest.push(permission_name(perm_at(n - 1)))
            } else {
                rest
            }
        }
    }

    fn empty() -> (r: PermissionResolver)
        ensures
            forall|p: Permission| #![auto] !r.is_granted(p) && !r.is_denied(p),
    {
        let r = PermissionResolver { granted: [false; 34], denied: [false; 34] };
        proof {
            assert forall|p: Permission| #![auto] !r.is_granted(p) && !r.is_denied(p) by {
                lemma_perm_index(p);
            }
        }
        r
    }

    fn set_granted(&mut self, permission: Permission)
        ensures
            forall|p: Permission|
                #![trigger final(self).is_granted(p)]
                final(self).is_granted(p) == (old(self).is_granted(p) || p == permission),
            forall|p: Permission|
                #![trigger final(self).is_denied(p)]
                final(self).is_denied(p) == old(self).is_denied(p),
    {
        let i = permission.index();
        proof {
            lemma_perm_index(permission);
        }
        self.granted[i] = true;
        proof {
            assert forall|p: Permission| #[trigger] self.is_granted(p) == (old(self).is_granted(p) || p == permission) by {
                lemma_perm_index(p);
                if perm_index(p) == perm_index(permission) {
                    assert(perm_at(perm_index(p) as int) == perm_at(perm_index(permission) as int));
                }
            }
        }
    }

    fn set_denied(&mut self, permission: Permission)
        ensures
            forall|p: Permission|
                #![trigger final(self).is_denied(p)]
                final(self).is_denied(p) == (old(self).is_denied(p) || p == permission),
            forall|p: Permission|
                #![trigger final(self).is_granted(p)]
                final(self).is_granted(p) == old(self).is_granted(p),
    {
        let i = permission.index();
        proof {
            lemma_perm_index(permission);
        }
        self.denied[i] = true;
        proof {
            assert forall|p: Permission| #[trigger] self.is_denied(p) == (old(self).is_denied(p) || p == permission) by {
                lemma_perm_index(p);
                if perm_index(p) == perm_index(permission) {
                    assert(perm_at(perm_index(p) as int) == perm_at(perm_index(permission) as int));
                }
            }
        }
    }

    /// Grants every permission of the list.
    fn grant(&mut self, permissions: &[Permission])
        ensures
            forall|p: Permission|
                #![trigger final(self).is_granted(p)]
                final(self).is_granted(p) == (old(self).is_granted(p) || permissions@.contains(p)),
            forall|p: Permission|
                #![trigger final(self).is_denied(p)]
                final(self).is_denied(p) == old(self).is_denied(p),
    {
        let mut i: usize = 0;
        while i < permissions.len()
            invariant
                i <= permissions@.len(),
                forall|p: Permission|
                    #![trigger self.is_granted(p)]
                    self.is_granted(p) == (old(self).is_granted(p) || permissions@.take(i as int).contains(p)),
                forall|p: Permission|
                    #![trigger self.is_denied(p)]
                    self.is_denied(p) == old(self).is_denied(p),
            decreases permissions@.len() - i,
        {
            let permission = permissions[i];
            self.set_granted(permission);
            proof {
                let prev = permissions@.take(i as int);
                let next = permissions@.take(i + 1);
                assert(next =~= prev.push(permission));
                assert forall|p: Permission| #[trigger] next.contains(p) == (prev.contains(p) || p == permission) by {
                    if prev.contains(p) {
                        let k = choose|k: int| 0 <= k < prev.len() && prev[k] == p;
                        assert(next[k] == p);
                    }
                    if p == permission {
                        assert(next[i as int] == p);
                    }
                    if next.contains(p) {
                        let k = choose|k: int| 0 <= k < next.len() && next[k] == p;
                        if k < i {
                            assert(prev[k] == p);
                        }
                    }
                }
            }
            i = i + 1;
        }
        proof {
            assert(permissions@.take(permissions@.len() as int) =~= permissions@);
        }
    }

    fn add_account(&mut self, account: AccountType)
        ensures
            forall|p: Permission|
                #![trigger final(self).is_granted(p)]
                final(self).is_granted(p) == (old(self).is_granted(p) || account_grant(account, p)),
            forall|p: Permission|
                #![trigger final(self).is_denied(p)]
                final(self).is_denied(p) == old(self).is_denied(p),
    {
        let base = [Permission::ProjectCreate, Permission::TemplateUse, Permission::TeamCreate];
        self.grant(&base);
        if matches!(account, AccountType::Professor | AccountType::Admin) {
            let mentor_group = [Permission::MentorGroupCreate];
            self.grant(&mentor_group);
        }
        if account.is_admin() {
            let everything = Permission::all();
            self.grant(everything.as_slice());
            proof {
                assert forall|p: Permission| everything@.contains(p) by {
                    lemma_perm_index(p);
                    assert(everything@[perm_index(p) as int] == p);
                }
            }
        }
    }

    fn add_group(&mut self, group: GroupRoles)
        ensures
            forall|p: Permission|
                #![trigger final(self).is_granted(p)]
                final(self).is_granted(p) == (old(self).is_granted(p) || group_grant(group, p)),
            forall|p: Permission|
                #![trigger final(self).is_denied(p)]
                final(self).is_denied(p) == old(self).is_denied(p),
    {
        if group.group_manager {
            let granted = [Permission::TeamMembersManage, Permission::TeamProjectManage, Permission::ProjectCreate];
            self.grant(&granted);
        }
    }

    fn add_project(&mut self, project: ProjectRoles)
        ensures
            forall|p: Permission|
                #![trigger final(self).is_granted(p)]
                final(self).is_granted(p) == (old(self).is_granted(p) || project_grant(project, p)),
            forall|p: Permission|
                #![trigger final(self).is_denied(p)]
                final(self).is_denied(p) == old(self).is_denied(p),
    {
        if project.writer {
            let granted = [Permission::ProjectRead, Permission::FileRead, Permission::FileWrite, Permission::FileCreate, Permission::FileUpload, Permission::FileRename, Permission::FileDelete, Permission::FileSetMain, Permission::CompileSubmit, Permission::ArtifactRead];
            self.grant(&granted);
        }
        if project.mentor {
            let granted = [Permission::ProjectRead, Permission::FileRead, Permission::CompileSubmit, Permission::ArtifactRead, Permission::ReviewRead, Permission::ReviewComment, Permission::ReviewManage];
            self.grant(&granted);
        }
        if project.project_manager {
            let granted = [Permission::ProjectRead, Permission::ProjectManage, Permission::TeamProjectManage];
            self.grant(&granted);
        }
    }

    /// Resolves the effective permissions of one request context.
    pub fn new(
        account: AccountType,
        group: GroupRoles,
        project: ProjectRoles,
        overrides: &[(Permission, OverrideEffect)],
    ) -> (r: PermissionResolver)
        ensures
            forall|p: Permission|
                #![trigger r.is_granted(p)]
                r.is_granted(p) == (role_grant(account, group, project, p) || has_override(
                    overrides@,
                    p,
                    OverrideEffect::Allow,
                )),
            forall|p: Permission|
                #![trigger r.is_denied(p)]
                r.is_denied(p) == has_override(overrides@, p, OverrideEffect::Deny),
            forall|p: Permission|
                #![trigger r.spec_allows(p)]
                r.spec_allows(p) == resolved_allows(account, group, project, overrides@, p),
    {
        let mut resolver = PermissionResolver::empty();
        resolver.add_account(account);
        resolver.add_group(group);
        resolver.add_project(project);
        let mut i: usize = 0;
        while i < overrides.len()
            invariant
                i <= overrides@.len(),
                forall|p: Permission|
                    #![trigger resolver.is_granted(p)]
                    resolver.is_granted(p) == (role_grant(account, group, project, p)
                        || has_override(overrides@.take(i as int), p, OverrideEffect::Allow)),
                forall|p: Permission|
                    #![trigger resolver.is_denied(p)]
                    resolver.is_denied(p) == has_override(overrides@.take(i as int), p, OverrideEffect::Deny),
            decreases overrides@.len() - i,
        {
            let (permission, effect) = overrides[i];
            proof {
                let prev = overrides@.take(i as int);
                let next = overrides@.take(i + 1);
                assert(next =~= prev.push((permission, effect)));
                assert forall|p: Permission, e: OverrideEffect|
                    #[trigger] has_override(next, p, e) == (has_override(prev, p, e) || (p == permission && e == effect)) by {
                    if has_override(prev, p, e) {
                        let j = choose|j: int| 0 <= j < prev.len() && #[trigger] prev[j] == (p, e);
                        assert(next[j] == (p, e));
                    }
                    if p == permission && e == effect {
                        assert(next[i as int] == (p, e));
                    }
                    if has_override(next, p, e) {
                        let j = choose|j: int| 0 <= j < next.len() && #[trigger] next[j] == (p, e);
                        if j < i {
                            assert(prev[j] == (p, e));
                        }
                    }
                }
            }
            match effect {
                OverrideEffect::Allow => {
                    resolver.set_granted(permission);
                },
                OverrideEffect::Deny => {
                    resolver.set_denied(permission);
                },
            }
            i = i + 1;
        }
        proof {
            assert(overrides@.take(overrides@.len() as int) =~= overrides@);
        }
        resolver
    }

    /// Whether `permission` is effectively held: granted and not denied.
    pub fn allows(&self, permission: Permission) -> (b: bool)
        ensures
            b == self.spec_allows(permission),
    {
        proof {
            lemma_perm_index(permission);
        }
        let i = permission.index();
        !self.denied[i] && self.granted[i]
    }

    /// Wire names of every held permission, in canonical order.
    pub fn capabilities(&self) -> (names: Vec<&'static str>)
        ensures
            names@.len() == self.allowed_names(PERMISSION_COUNT as nat).len(),
            forall|i: int|
                0 <= i < names@.len() ==> #[trigger] names@[i]@ == self.allowed_names(
                    PERMISSION_COUNT as nat,
                )[i],
    {
        let mut names: Vec<&'static str> = Vec::new();
        let mut i: usize = 0;
        while i < PERMISSION_COUNT
            invariant
                i <= PERMISSION_COUNT,
                names@.len() == self.allowed_names(i as nat).len(),
                forall|j: int|
                    0 <= j < names@.len() ==> #[trigger] names@[j]@ == self.allowed_names(i as nat)[j],
            decreases PERMISSION_COUNT - i,
        {
            let p = Permission::from_index(i);
            if self.allows(p) {
                names.push(p.as_str());
            }
            i = i + 1;
        }
        names
    }

    /// Whether `permission` may be handed on: exactly when it is held.
    pub fn may_delegate(&self, permission: Permission) -> (b: bool)
        ensures
            b == self.spec_allows(permission),
    {
        self.allows(permission)
    }

    fn may_delegate_all(&self, permissions: &[Permission]) -> (b: bool)
        ensures
            b == forall|k: int| 0 <= k < permissions@.len() ==> self.spec_allows(#[trigger] permissions@[k]),
    {
        let mut i: usize = 0;
        while i < permissions.len()
            invariant
                i <= permissions@.len(),
                forall|k: int| 0 <= k < i ==> self.spec_allows(#[trigger] permissions@[k]),
            decreases permissions@.len() - i,
        {
            if !self.may_delegate(permissions[i]) {
                return false;
            }
            i = i + 1;
        }
        true
    }

    /// Whether a project role set may be assigned: every permission it grants is held.
    pub fn may_delegate_role(&self, role: ProjectRoles) -> (b: bool)
        ensures
            b == self.spec_may_delegate_role(role),
    {
        let writer = [Permission::ProjectRead, Permission::FileRead, Permission::FileWrite, Permission::FileCreate, Permission::FileUpload, Permission::FileRename, Permission::FileDelete, Permission::FileSetMain, Permission::CompileSubmit, Permission::ArtifactRead];
        let mentor = [Permission::ProjectRead, Permission::FileRead, Permission::CompileSubmit, Permission::ArtifactRead, Permission::ReviewRead, Permission::ReviewComment, Permission::ReviewManage];
        let manager = [Permission::ProjectRead, Permission::ProjectManage, Permission::TeamProjectManage];
        let w = !role.writer || self.may_delegate_all(&writer);
        let m = !role.mentor || self.may_delegate_all(&mentor);
        let g = !role.project_manager || self.may_delegate_all(&manager);
        proof {
            assert(writer@ =~= seq![Permission::ProjectRead, Permission::FileRead, Permission::FileWrite, Permission::FileCreate, Permission::FileUpload, Permission::FileRename, Permission::FileDelete, Permission::FileSetMain, Permission::CompileSubmit, Permission::ArtifactRead]);
            assert(mentor@ =~= seq![Permission::ProjectRead, Permission::FileRead, Permission::CompileSubmit, Permission::ArtifactRead, Permission::ReviewRead, Permission::ReviewComment, Permission::ReviewManage]);
            assert(manager@ =~= seq![Permission::ProjectRead, Permission::ProjectManage, Permission::TeamProjectManage]);
            lemma_role_list(writer@, role, 0);
            lemma_role_list(mentor@, role, 1);
            lemma_role_list(manager@, role, 2);
            if w && m && g {
                assert forall|p: Permission| #[trigger] project_grant(role, p) implies self.spec_allows(p) by {
                    if role.writer && writer_grant(p) {
                        let k = choose|k: int| 0 <= k < writer@.len() && writer@[k] == p;
                        assert(self.spec_allows(writer@[k]));
                    } else if role.mentor && mentor_grant(p) {
                        let k = choose|k: int| 0 <= k < mentor@.len() && mentor@[k] == p;
                        assert(self.spec_allows(mentor@[k]));
                    } else {
                        let k = choose|k: int| 0 <= k < manager@.len() && manager@[k] == p;
                        assert(self.spec_allows(manager@[k]));
                    }
                }
            } else if !w {
                let k = choose|k: int| 0 <= k < writer@.len() && !self.spec_allows(#[trigger] writer@[k]);
                assert(project_grant(role, writer@[k]));
            } else if !m {
                let k = choose|k: int| 0 <= k < mentor@.len() && !self.spec_allows(#[trigger] mentor@[k]);
                assert(project_grant(role, mentor@[k]));
            } else {
                let k = choose|k: int| 0 <= k < manager@.len() && !self.spec_allows(#[trigger] manager@[k]);
                assert(project_grant(role, manager@[k]));
            }
        }
        w && m && g
    }
}

impl Default for PermissionResolver {
    fn default() -> (r: PermissionResolver)
        ensures
            forall|p: Permission| #![auto] !r.is_granted(p) && !r.is_denied(p),
    {
        PermissionResolver::empty()
    }
}

/// Deny wins: a deny override removes a permission whatever the roles and allow overrides.
pub proof fn law_deny_wins(
    account: AccountType,
    group: GroupRoles,
    project: ProjectRoles,
    overrides: Seq<(Permission, OverrideEffect)>,
    p: Permission,
)
    requires
        has_override(overrides, p, OverrideEffect::Deny),
    ensures
        !resolved_allows(account, group, project, overrides, p),
{
}

/// An administrator holds every permission that no deny override removes.
pub proof fn law_admin_holds_every_undenied_permission(
    group: GroupRoles,
    project: ProjectRoles,
    overrides: Seq<(Permission, OverrideEffect)>,
    p: Permission,
)
    requires
        !has_override(overrides, p, OverrideEffect::Deny),
    ensures
        resolved_allows(AccountType::Admin, group, project, overrides, p),
{
}

/// Project roles compose: holding two role sets grants the union of their permissions.
pub proof fn law_project_roles_compose(a: ProjectRoles, b: ProjectRoles, p: Permission)
    ensures
        project_grant(
            ProjectRoles {
                writer: a.writer || b.writer,
                mentor: a.mentor || b.mentor,
                project_manager: a.project_manager || b.project_manager,
            },
            p,
        ) == (project_grant(a, p) || project_grant(b, p)),
{
}

/// Adding roles never removes a permission.
pub proof fn law_roles_are_monotone(
    account: AccountType,
    group: GroupRoles,
    small: ProjectRoles,
    large: ProjectRoles,
    overrides: Seq<(Permission, OverrideEffect)>,
    p: Permission,
)
    requires
        small.writer ==> large.writer,
        small.mentor ==> large.mentor,
        small.project_manager ==> large.project_manager,
        resolved_allows(account, group, small, overrides, p),
    ensures
        resolved_allows(account, group, large, overrides, p),
{
}

/// Project capability comes from project roles, not from the institutional account type:
/// without project roles, group roles or allow overrides, no non-administrator may write files.
pub proof fn law_account_type_grants_no_file_writes(
    account: AccountType,
    overrides: Seq<(Permission, OverrideEffect)>,
)
    requires
        account != AccountType::Admin,
        !has_override(overrides, Permission::FileWrite, OverrideEffect::Allow),
    ensures
        !resolved_allows(
            account,
            GroupRoles { group_manager: false },
            ProjectRoles { writer: false, mentor: false, project_manager: false },
            overrides,
            Permission::FileWrite,
        ),
{
}

/// Delegation never exceeds effective capability: a role set may be assigned only when
/// the delegator holds each permission it grants.
pub proof fn law_delegation_never_exceeds_capability(
    resolver: PermissionResolver,
    role: ProjectRoles,
    p: Permission,
)
    requires
        resolver.spec_may_delegate_role(role),
        project_grant(role, p),
    ensures
        resolver.spec_allows(p),
{
}

proof fn lemma_allowed_names(resolver: PermissionResolver, n: nat)
    requires
        n <= PERMISSION_COUNT,
    ensures
        forall|p: Permission|
            #![trigger resolver.allowed_names(n).contains(permission_name(p))]
            resolver.allowed_names(n).contains(permission_name(p)) <==> (perm_index(p) < n
                && resolver.spec_allows(p)),
    decreases n,
{
    if n > 0 {
        lemma_allowed_names(resolver, (n - 1) as nat);
        let rest = resolver.allowed_names((n - 1) as nat);
        let last = perm_at(n - 1);
        lemma_perm_at(n - 1);
        assert forall|p: Permission|
            #![trigger resolver.allowed_names(n).contains(permission_name(p))]
            resolver.allowed_names(n).contains(permission_name(p)) <==> (perm_index(p) < n
                && resolver.spec_allows(p)) by {
            lemma_perm_index(p);
            assert(rest.contains(permission_name(p)) <==> (perm_index(p) < n - 1 && resolver.spec_allows(p)));
            if resolver.spec_allows(last) {
                let all = rest.push(permission_name(last));
                if all.contains(permission_name(p)) {
                    let k = choose|k: int| 0 <= k < all.len() && all[k] == permission_name(p);
                    if k == rest.len() {
                        lemma_permission_names_distinct(p, last);
                    } else {
                        assert(rest[k] == permission_name(p));
                    }
                }
                if perm_index(p) < n && resolver.spec_allows(p) {
                    if p == last {
                        assert(all[rest.len() as int] == permission_name(p));
                    } else {
                        assert(perm_index(p) < n - 1);
                        assert(rest.contains(permission_name(p)));
                        let k = choose|k: int| 0 <= k < rest.len() && rest[k] == permission_name(p);
                        assert(all[k] == permission_name(p));
                    }
                }
            } else {
                if perm_index(p) == n - 1 {
                    assert(p == last);
                }
            }
        }
    }
}

/// The capability list names exactly the permissions the resolver allows.
pub proof fn law_capabilities_are_exactly_allowed(resolver: PermissionResolver, p: Permission)
    ensures
        resolver.allowed_names(PERMISSION_COUNT as nat).contains(permission_name(p))
            <==> resolver.spec_allows(p),
{
    lemma_allowed_names(resolver, PERMISSION_COUNT as nat);
    lemma_perm_index(p);
}

} // verus!
