//! Who may do what on a team project: the roles behind each way of reaching a project,
//! stored permission overrides, and the guards of membership and management changes.
use crate::collaboration::{integrity_message, AccountType, GroupType};
use crate::error::AppError;
use crate::permissions::{
    permission_from_name, resolved_allows, GroupRoles, OverrideEffect, Permission,
    PermissionResolver, ProjectRoles,
};
use crate::text::str_eq;
use vstd::prelude::*;

verus! {

/// How a user reaches a project: as its owner, as a team-project member with the roles
/// the member holds, or as a research-group member.
#[derive(Copy, Clone, Debug, PartialEq, Eq, Structural)]
pub enum ProjectAccess {
    Personal { account_type: AccountType },
    Team {
        project_id: u128,
        team_id: u128,
        account_type: AccountType,
        can_write: bool,
        can_mentor: bool,
        can_manage: bool,
    },
    ResearchGroup { group_id: u128, account_type: AccountType },
}

/// The institutional account type behind an access.
pub open spec fn access_account(access: ProjectAccess) -> AccountType {
    match access {
        ProjectAccess::Personal { account_type } => account_type,
        ProjectAccess::Team { account_type, .. } => account_type,
        ProjectAccess::ResearchGroup { account_type, .. } => account_type,
    }
}

impl ProjectAccess {
    /// The institutional account type of the user.
    pub fn account_type(&self) -> (a: AccountType)
        ensures
            a == access_account(*self),
    {
        match self {
            ProjectAccess::Personal { account_type } => *account_type,
            ProjectAccess::Team { account_type, .. } => *account_type,
            ProjectAccess::ResearchGroup { account_type, .. } => *account_type,
        }
    }

    /// Whether the access is through a team project.
    pub fn is_team(&self) -> (b: bool)
        ensures
            b == (*self is Team),
    {
        matches!(self, ProjectAccess::Team { .. })
    }
}

/// The roles an access confers: an owner writes and manages a personal project; a
/// research-group member writes; a team-project member has the project roles stored for
/// the member and, in the team, the group-manager role when `group_manager` holds.
pub open spec fn access_roles(access: ProjectAccess, group_manager: bool) -> (
    AccountType,
    GroupRoles,
    ProjectRoles,
) {
    match access {
        ProjectAccess::Personal { account_type } => (
            account_type,
            GroupRoles { group_manager: false },
            ProjectRoles { writer: true, mentor: false, project_manager: true },
        ),
        ProjectAccess::Team { account_type, can_write, can_mentor, can_manage, .. } => (
            account_type,
            GroupRoles { group_manager },
            ProjectRoles { writer: can_write, mentor: can_mentor, project_manager: can_manage },
        ),
        ProjectAccess::ResearchGroup { account_type, .. } => (
            account_type,
            GroupRoles { group_manager: false },
            ProjectRoles { writer: true, mentor: false, project_manager: false },
        ),
    }
}

/// The roles an access confers; `group_manager` is read only for team access.
pub fn roles_for_access(access: &ProjectAccess, group_manager: bool) -> (r: (
    AccountType,
    GroupRoles,
    ProjectRoles,
))
    ensures
        r == access_roles(*access, group_manager),
{
    match access {
        ProjectAccess::Personal { account_type } => (
            *account_type,
            GroupRoles { group_manager: false },
            ProjectRoles { writer: true, mentor: false, project_manager: true },
        ),
        ProjectAccess::Team { account_type, can_write, can_mentor, can_manage, .. } => (
            *account_type,
            GroupRoles { group_manager },
            ProjectRoles { writer: *can_write, mentor: *can_mentor, project_manager: *can_manage },
        ),
        ProjectAccess::ResearchGroup { account_type, .. } => (
            *account_type,
            GroupRoles { group_manager: false },
            ProjectRoles { writer: true, mentor: false, project_manager: false },
        ),
    }
}

/// One stored permission override: a permission wire name and an effect name.
#[derive(Clone, Debug)]
pub struct StoredOverride {
    pub permission: String,
    pub effect: String,
}

/// The effect whose stored name is `s`, if any.
pub open spec fn override_effect_from_name(s: Seq<char>) -> Option<OverrideEffect> {
    if s == "allow"@ {
        Some(OverrideEffect::Allow)
    } else if s == "deny"@ {
        Some(OverrideEffect::Deny)
    } else {
        None
    }
}

/// The override a stored row names, if both names are valid.
pub open spec fn parsed_override(o: StoredOverride) -> Option<(Permission, OverrideEffect)> {
    match (permission_from_name(o.permission@), override_effect_from_name(o.effect@)) {
        (Some(p), Some(e)) => Some((p, e)),
        _ => None,
    }
}

/// Whether every stored override row is valid.
pub open spec fn overrides_valid(rows: Seq<StoredOverride>) -> bool {
    forall|i: int| 0 <= i < rows.len() ==> #[trigger] parsed_override(rows[i]) is Some
}

/// The overrides the stored rows name, in order.
pub open spec fn parsed_overrides(rows: Seq<StoredOverride>) -> Seq<(Permission, OverrideEffect)> {
    rows.map_values(|o: StoredOverride| parsed_override(o).unwrap())
}

/// The problem of the first stored override row from position `i` on with an unknown
/// permission (checked first) or effect.
pub open spec fn override_problem(rows: Seq<StoredOverride>, i: int) -> Option<Seq<char>>
    decreases rows.len() - i,
{
    if i < 0 || i >= rows.len() {
        None
    } else if permission_from_name(rows[i].permission@) is None {
        Some("invalid permission override"@)
    } else if override_effect_from_name(rows[i].effect@) is None {
        Some("invalid permission override effect"@)
    } else {
        override_problem(rows, i + 1)
    }
}

/// Parses stored override rows; any row with an unknown permission or effect is an
/// integrity failure.
pub fn parse_overrides(rows: &Vec<StoredOverride>) -> (r: Result<
    Vec<(Permission, OverrideEffect)>,
    AppError,
>)
    ensures
        overrides_valid(rows@) ==> (r matches Ok(v) && v@ == parsed_overrides(rows@)),
        !overrides_valid(rows@) ==> (r matches Err(e) && override_problem(rows@, 0) matches Some(m)
            && integrity_message(e, m)),
{
    let mut out: Vec<(Permission, OverrideEffect)> = Vec::new();
    let mut i: usize = 0;
    while i < rows.len()
        invariant
            i <= rows@.len(),
            forall|k: int| 0 <= k < i ==> #[trigger] parsed_override(rows@[k]) is Some,
            out@ == parsed_overrides(rows@.take(i as int)),
            override_problem(rows@, 0) == override_problem(rows@, i as int),
        decreases rows@.len() - i,
    {
        let permission = match Permission::parse(rows[i].permission.as_str()) {
            Some(p) => p,
            None => {
                assert(parsed_override(rows@[i as int]) is None);
                return Err(AppError::Integrity { message: "invalid permission override".to_owned() });
            },
        };
        let effect = if str_eq(rows[i].effect.as_str(), "allow") {
            OverrideEffect::Allow
        } else if str_eq(rows[i].effect.as_str(), "deny") {
            OverrideEffect::Deny
        } else {
            assert(parsed_override(rows@[i as int]) is None);
            return Err(
                AppError::Integrity { message: "invalid permission override effect".to_owned() },
            );
        };
        out.push((permission, effect));
        proof {
            assert(parsed_overrides(rows@.take(i + 1)) =~= parsed_overrides(rows@.take(i as int)).push(
                (permission, effect),
            ));
            assert(override_problem(rows@, i as int) == override_problem(rows@, i + 1));
        }
        i = i + 1;
    }
    assert(rows@.take(rows@.len() as int) =~= rows@);
    Ok(out)
}

/// Resolves the effective permissions of a user reaching a project through `access`, with
/// the stored overrides that apply in that context.
pub fn resolver_for_access(
    access: &ProjectAccess,
    group_manager: bool,
    overrides: &Vec<StoredOverride>,
) -> (r: Result<PermissionResolver, AppError>)
    ensures
        !overrides_valid(overrides@) ==> (r matches Err(e) && override_problem(overrides@, 0) matches Some(
            m,
        ) && integrity_message(e, m)),
        overrides_valid(overrides@) ==> (r matches Ok(res) && forall|p: Permission|
            #[trigger] res.spec_allows(p) == {
                let (a, g, pr) = access_roles(*access, group_manager);
                resolved_allows(a, g, pr, parsed_overrides(overrides@), p)
            }),
{
    let (account, group, project) = roles_for_access(access, group_manager);
    let parsed = match parse_overrides(overrides) {
        Ok(v) => v,
        Err(e) => { return Err(e); },
    };
    Ok(PermissionResolver::new(account, group, project, parsed.as_slice()))
}

/// The permission that creating a group of the given type needs.
pub open spec fn group_creation_permission(group_type: GroupType) -> Permission {
    if group_type == GroupType::MentorGroup {
        Permission::MentorGroupCreate
    } else {
        Permission::TeamCreate
    }
}

/// Whether an account with these effective permissions may create a group of this type:
/// it holds the creation permission, and a mentor group is led by a professor or an
/// administrator.
pub open spec fn may_create_group(
    account: AccountType,
    resolver: PermissionResolver,
    group_type: GroupType,
) -> bool {
    &&& resolver.spec_allows(group_creation_permission(group_type))
    &&& (group_type == GroupType::MentorGroup ==> account == AccountType::Professor || account
        == AccountType::Admin)
}

/// Guards the creation of a team or mentor group.
pub fn check_group_creation(
    account: AccountType,
    resolver: &PermissionResolver,
    group_type: GroupType,
) -> (r: Result<(), AppError>)
    ensures
        r is Ok <==> may_create_group(account, *resolver, group_type),
        r matches Err(e) ==> e == AppError::Forbidden,
{
    let required = if group_type == GroupType::MentorGroup {
        Permission::MentorGroupCreate
    } else {
        Permission::TeamCreate
    };
    if !resolver.allows(required) {
        return Err(AppError::Forbidden);
    }
    if group_type == GroupType::MentorGroup && !matches!(account, AccountType::Professor | AccountType::Admin) {
        return Err(AppError::Forbidden);
    }
    Ok(())
}

/// One current manager of a group, with the stored account type of the manager.
#[derive(Clone, Debug)]
pub struct GroupManager {
    pub user_id: u128,
    pub account_type: String,
}

/// Whether a stored account type may lead a mentor group.
pub open spec fn leads_mentor_group(account_type: Seq<char>) -> bool {
    account_type == "professor"@ || account_type == "admin"@
}

/// The number of managers that may lead a mentor group.
pub open spec fn qualified_managers(managers: Seq<GroupManager>) -> nat
    decreases managers.len(),
{
    if managers.len() == 0 {
        0
    } else {
        qualified_managers(managers.drop_last()) + if leads_mentor_group(managers.last().account_type@) {
            1nat
        } else {
            0nat
        }
    }
}

/// Whether the target is among the managers that may lead a mentor group.
pub open spec fn target_qualifies(managers: Seq<GroupManager>, target: u128) -> bool {
    exists|k: int|
        0 <= k < managers.len() && #[trigger] managers[k].user_id == target && leads_mentor_group(
            managers[k].account_type@,
        )
}

/// Whether a group may change the target's manager role: a change that keeps or grants the
/// role is always allowed; removing a manager leaves at least one manager, and in a mentor
/// group a professor or administrator manager.
pub open spec fn group_manager_change_allowed(
    target: u128,
    target_is_manager: bool,
    stays_manager: bool,
    managers: Seq<GroupManager>,
    mentor_group: bool,
) -> bool {
    ||| !target_is_manager
    ||| stays_manager
    ||| (managers.len() > 1 && !(mentor_group && target_qualifies(managers, target)
        && qualified_managers(managers) <= 1))
}

/// Guards a change of a group member's manager role, or a member's removal
/// (`stays_manager` false), against leaving the group without a manager.
pub fn check_group_manager_change(
    target: u128,
    target_is_manager: bool,
    stays_manager: bool,
    managers: &Vec<GroupManager>,
    mentor_group: bool,
) -> (r: Result<(), AppError>)
    ensures
        r is Ok <==> group_manager_change_allowed(
            target,
            target_is_manager,
            stays_manager,
            managers@,
            mentor_group,
        ),
        r matches Err(e) ==> if managers@.len() <= 1 {
            integrity_message(e, "a group must retain at least one manager"@)
        } else {
            integrity_message(e, "a mentor group must retain a professor or administrator manager"@)
        },
{
    if !target_is_manager || stays_manager {
        return Ok(());
    }
    if managers.len() <= 1 {
        return Err(AppError::Integrity { message: "a group must retain at least one manager".to_owned() });
    }
    if mentor_group {
        let mut qualifies = false;
        let mut qualifying: u64 = 0;
        let mut i: usize = 0;
        while i < managers.len()
            invariant
                i <= managers@.len(),
                qualifying == qualified_managers(managers@.take(i as int)),
                qualifying <= i,
                qualifies == exists|k: int|
                    0 <= k < i && #[trigger] managers@[k].user_id == target && leads_mentor_group(
                        managers@[k].account_type@,
                    ),
            decreases managers@.len() - i,
        {
            let m = &managers[i];
            let leads = str_eq(m.account_type.as_str(), "professor") || str_eq(
                m.account_type.as_str(),
                "admin",
            );
            proof {
                assert(managers@.take(i + 1).drop_last() =~= managers@.take(i as int));
                assert(managers@.take(i + 1).last() == managers@[i as int]);
            }
            if leads {
                qualifying = qualifying + 1;
                if m.user_id == target {
                    qualifies = true;
                }
            }
            i = i + 1;
        }
        assert(managers@.take(managers@.len() as int) =~= managers@);
        if qualifies && qualifying <= 1 {
            return Err(
                AppError::Integrity {
                    message: "a mentor group must retain a professor or administrator manager".to_owned(),
                },
            );
        }
    }
    Ok(())
}

/// Whether a project may change the target's manager role: keeping or granting it is
/// always allowed; removing a manager leaves at least one.
pub open spec fn project_manager_change_allowed(
    target_is_manager: bool,
    stays_manager: bool,
    manager_count: nat,
) -> bool {
    !target_is_manager || stays_manager || manager_count > 1
}

/// Guards a change of a project member's manager role, or a member's removal, against
/// leaving the project without a manager.
pub fn check_project_manager_change(
    target_is_manager: bool,
    stays_manager: bool,
    manager_count: usize,
) -> (r: Result<(), AppError>)
    ensures
        r is Ok <==> project_manager_change_allowed(target_is_manager, stays_manager, manager_count as nat),
        r matches Err(e) ==> integrity_message(e, "a project must retain at least one project manager"@),
{
    if !target_is_manager || stays_manager {
        return Ok(());
    }
    if manager_count <= 1 {
        return Err(
            AppError::Integrity { message: "a project must retain at least one project manager".to_owned() },
        );
    }
    Ok(())
}

/// Guards setting a project member's roles: the member gets at least one role, the actor
/// may delegate every permission of those roles, the project is a team project, and the
/// target belongs to its team. Returns the team of the project.
pub fn check_project_member_change(
    roles: ProjectRoles,
    resolver: &PermissionResolver,
    access: &ProjectAccess,
    target_in_team: bool,
) -> (r: Result<u128, AppError>)
    ensures
        !roles.writer && !roles.mentor && !roles.project_manager ==> (r matches Err(e)
            && integrity_message(e, "a project member must have at least one project role"@)),
        (roles.writer || roles.mentor || roles.project_manager) && !resolver.spec_may_delegate_role(
            roles,
        ) ==> r matches Err(AppError::Forbidden),
        (roles.writer || roles.mentor || roles.project_manager) && resolver.spec_may_delegate_role(
            roles,
        ) ==> match *access {
            ProjectAccess::Team { team_id, .. } => if target_in_team {
                r == Ok::<u128, AppError>(team_id)
            } else {
                r matches Err(e) && integrity_message(e, "a project member must belong to the team"@)
            },
            _ => r matches Err(AppError::NotFound),
        },
{
    if !roles.writer && !roles.mentor && !roles.project_manager {
        return Err(
            AppError::Integrity { message: "a project member must have at least one project role".to_owned() },
        );
    }
    if !resolver.may_delegate_role(roles) {
        return Err(AppError::Forbidden);
    }
    let team_id = match access {
        ProjectAccess::Team { team_id, .. } => *team_id,
        _ => { return Err(AppError::NotFound); },
    };
    if !target_in_team {
        return Err(AppError::Integrity { message: "a project member must belong to the team".to_owned() });
    }
    Ok(team_id)
}

/// Whether the user may list a project's members: a team-project manager or an
/// administrator.
pub fn may_list_project_members(access: &ProjectAccess) -> (b: bool)
    ensures
        b == ((*access matches ProjectAccess::Team { can_manage, .. } && can_manage)
            || access_account(*access) == AccountType::Admin),
{
    let manages = match access {
        ProjectAccess::Team { can_manage, .. } => *can_manage,
        _ => false,
    };
    manages || access.account_type().is_admin()
}

/// Whether a team-project member may read the member's own draft-only files: a writer or
/// an administrator.
pub fn may_read_own_drafts(access: &ProjectAccess) -> (b: bool)
    ensures
        b == (*access matches ProjectAccess::Team { account_type, can_write, .. } && (account_type
            == AccountType::Admin || can_write)),
{
    match access {
        ProjectAccess::Team { account_type, can_write, .. } => *can_write || account_type.is_admin(),
        _ => false,
    }
}

/// The total of a member's unpublished changes over the team's projects; a total beyond
/// `u64` is an integrity failure.
pub open spec fn sum_of(v: Seq<u64>) -> int
    decreases v.len(),
{
    if v.len() == 0 {
        0
    } else {
        sum_of(v.drop_last()) + v.last()
    }
}

proof fn lemma_sum_of_monotone(v: Seq<u64>, i: int)
    requires
        0 <= i <= v.len(),
    ensures
        sum_of(v.take(i)) <= sum_of(v),
    decreases v.len() - i,
{
    if i < v.len() {
        lemma_sum_of_monotone(v, i + 1);
        assert(v.take(i + 1).drop_last() =~= v.take(i));
    } else {
        assert(v.take(i) =~= v);
    }
}

/// Adds up the pending-change totals of several projects.
pub fn total_pending_changes(totals: &Vec<u64>) -> (r: Result<u64, AppError>)
    ensures
        sum_of(totals@) <= u64::MAX ==> r == Ok::<u64, AppError>(sum_of(totals@) as u64),
        sum_of(totals@) > u64::MAX ==> (r matches Err(e) && integrity_message(e, "unpublished change count overflow"@)),
{
    let mut total: u64 = 0;
    let mut i: usize = 0;
    while i < totals.len()
        invariant
            i <= totals@.len(),
            total == sum_of(totals@.take(i as int)),
        decreases totals@.len() - i,
    {
        proof {
            assert(totals@.take(i + 1).drop_last() =~= totals@.take(i as int));
        }
        match total.checked_add(totals[i]) {
            Some(t) => total = t,
            None => {
                proof {
                    lemma_sum_of_monotone(totals@, i + 1);
                }
                return Err(AppError::Integrity { message: "unpublished change count overflow".to_owned() });
            },
        }
        i = i + 1;
    }
    assert(totals@.take(totals@.len() as int) =~= totals@);
    Ok(total)
}

/// The roles an access confers are exactly what the access holds: a team-project member
/// holds the project roles stored for the member (writer, mentor and project manager as
/// flagged) and the group-manager role exactly when `group_manager`; a personal project's
/// owner writes and manages; a research-group member only writes.
pub proof fn law_access_confers_stored_roles(access: ProjectAccess, group_manager: bool)
    ensures
        access matches ProjectAccess::Team { account_type, can_write, can_mentor, can_manage, .. }
            ==> access_roles(access, group_manager) == (
            account_type,
            GroupRoles { group_manager: group_manager },
            ProjectRoles { writer: can_write, mentor: can_mentor, project_manager: can_manage },
        ),
        access matches ProjectAccess::Personal { account_type } ==> access_roles(access, group_manager)
            == (
            account_type,
            GroupRoles { group_manager: false },
            ProjectRoles { writer: true, mentor: false, project_manager: true },
        ),
        access matches ProjectAccess::ResearchGroup { account_type, .. } ==> access_roles(
            access,
            group_manager,
        ) == (
            account_type,
            GroupRoles { group_manager: false },
            ProjectRoles { writer: true, mentor: false, project_manager: false },
        ),
{
}

/// A team project's mentor may read and comment on reviews unless an override denies it.
pub proof fn law_team_mentor_reviews(
    access: ProjectAccess,
    group_manager: bool,
    overrides: Seq<(Permission, OverrideEffect)>,
    p: Permission,
)
    requires
        access matches ProjectAccess::Team { can_mentor, .. } && can_mentor,
        p == Permission::ReviewRead || p == Permission::ReviewComment,
        !crate::permissions::has_override(overrides, p, OverrideEffect::Deny),
    ensures
        ({
            let (a, g, pr) = access_roles(access, group_manager);
            resolved_allows(a, g, pr, overrides, p)
        }),
{
}

} // verus!
