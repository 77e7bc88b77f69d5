//! Durable authorization vocabulary and canonical team-project collaboration
//! rules: the private working-tree projection, publish validation and the
//! policy lookups that guard every structural change.
use crate::error::AppError;
use crate::text::str_eq;
use vstd::prelude::*;

verus! {

/// The institutional type of an account.
#[derive(Copy, Clone, Debug, PartialEq, Eq, Structural)]
pub enum AccountType {
    Student,
    Professor,
    Admin,
}

/// Stored name of an account type.
pub open spec fn account_type_name(a: AccountType) -> Seq<char> {
    match a {
        AccountType::Student => "student"@,
        AccountType::Professor => "professor"@,
        AccountType::Admin => "admin"@,
    }
}

/// The account type whose stored name is `s`, if any.
pub open spec fn account_type_from_name(s: Seq<char>) -> Option<AccountType> {
    if s == "student"@ {
        Some(AccountType::Student)
    } else if s == "professor"@ {
        Some(AccountType::Professor)
    } else if s == "admin"@ {
        Some(AccountType::Admin)
    } else {
        None
    }
}

/// The error returned for a stored value outside a closed vocabulary.
pub open spec fn is_integrity_error(e: AppError) -> bool {
    e is Integrity
}

/// An integrity error whose message is `m`.
pub open spec fn integrity_message(e: AppError, m: Seq<char>) -> bool {
    e matches AppError::Integrity { message } && message@ == m
}

impl AccountType {
    /// Parses a stored account type.
    pub fn parse(value: &str) -> (r: Result<AccountType, AppError>)
        ensures
            account_type_from_name(value@) matches Some(a) ==> r == Ok::<AccountType, AppError>(a),
            account_type_from_name(value@) is None ==> (r matches Err(e) && integrity_message(
                e,
                "invalid institutional account type"@,
            )),
    {
        if str_eq(value, "student") {
            Ok(AccountType::Student)
        } else if str_eq(value, "professor") {
            Ok(AccountType::Professor)
        } else if str_eq(value, "admin") {
            Ok(AccountType::Admin)
        } else {
            Err(AppError::Integrity { message: "invalid institutional account type".to_owned() })
        }
    }

    /// The stored name of the account type.
    pub fn as_str(self) -> (s: &'static str)
        ensures
            s@ == account_type_name(self),
    {
        match self {
            AccountType::Student => "student",
            AccountType::Professor => "professor",
            AccountType::Admin => "admin",
        }
    }

    /// Whether the account is an administrator.
    pub fn is_admin(self) -> (b: bool)
        ensures
            b == (self == AccountType::Admin),
    {
        matches!(self, AccountType::Admin)
    }
}

/// Stored names of account types identify them: parsing a stored name gives back the type.
pub proof fn law_account_type_round_trip(a: AccountType)
    ensures
        account_type_from_name(account_type_name(a)) == Some(a),
{
    reveal_strlit("student");
    reveal_strlit("professor");
    reveal_strlit("admin");
    assert("student"@.len() == 7);
    assert("professor"@.len() == 9);
    assert("admin"@.len() == 5);
}


/// Whether a group is a research team or a mentor group.
#[derive(Copy, Clone, Debug, PartialEq, Eq, Structural)]
pub enum GroupType {
    ResearchTeam,
    MentorGroup,
}

/// Stored name of a group type.
pub open spec fn group_type_name(g: GroupType) -> Seq<char> {
    match g {
        GroupType::ResearchTeam => "research_team"@,
        GroupType::MentorGroup => "mentor_group"@,
    }
}

/// The group type whose stored name is `s`, if any.
pub open spec fn group_type_from_name(s: Seq<char>) -> Option<GroupType> {
    if s == "research_team"@ {
        Some(GroupType::ResearchTeam)
    } else if s == "mentor_group"@ {
        Some(GroupType::MentorGroup)
    } else {
        None
    }
}

impl GroupType {
    /// Parses a stored group type.
    pub fn parse(value: &str) -> (r: Result<GroupType, AppError>)
        ensures
            group_type_from_name(value@) matches Some(g) ==> r == Ok::<GroupType, AppError>(g),
            group_type_from_name(value@) is None ==> (r matches Err(e) && integrity_message(e, "invalid group type"@)),
    {
        if str_eq(value, "research_team") {
            Ok(GroupType::ResearchTeam)
        } else if str_eq(value, "mentor_group") {
            Ok(GroupType::MentorGroup)
        } else {
            Err(AppError::Integrity { message: "invalid group type".to_owned() })
        }
    }

    /// The stored name of the group type.
    pub fn as_str(self) -> (s: &'static str)
        ensures
            s@ == group_type_name(self),
    {
        match self {
            GroupType::ResearchTeam => "research_team",
            GroupType::MentorGroup => "mentor_group",
        }
    }
}

/// Stored names of group types identify them.
pub proof fn law_group_type_round_trip(g: GroupType)
    ensures
        group_type_from_name(group_type_name(g)) == Some(g),
{
    reveal_strlit("research_team");
    reveal_strlit("mentor_group");
    assert("research_team"@.len() == 13);
    assert("mentor_group"@.len() == 12);
}

/// Edit authority over a canonical team file.
#[derive(Copy, Clone, Debug, PartialEq, Eq, Structural)]
pub enum FilePolicy {
    Editable,
    ReadOnly,
    Managed,
}

/// Stored name of a file policy.
pub open spec fn file_policy_name(p: FilePolicy) -> Seq<char> {
    match p {
        FilePolicy::Editable => "editable"@,
        FilePolicy::ReadOnly => "read_only"@,
        FilePolicy::Managed => "managed"@,
    }
}

/// The file policy whose stored name is `s`, if any.
pub open spec fn file_policy_from_name(s: Seq<char>) -> Option<FilePolicy> {
    if s == "editable"@ {
        Some(FilePolicy::Editable)
    } else if s == "read_only"@ {
        Some(FilePolicy::ReadOnly)
    } else if s == "managed"@ {
        Some(FilePolicy::Managed)
    } else {
        None
    }
}

impl FilePolicy {
    /// Parses a stored file policy.
    pub fn parse(value: &str) -> (r: Result<FilePolicy, AppError>)
        ensures
            file_policy_from_name(value@) matches Some(p) ==> r == Ok::<FilePolicy, AppError>(p),
            file_policy_from_name(value@) is None ==> (r matches Err(e) && integrity_message(e, "invalid file policy"@)),
    {
        if str_eq(value, "editable") {
            Ok(FilePolicy::Editable)
        } else if str_eq(value, "read_only") {
            Ok(FilePolicy::ReadOnly)
        } else if str_eq(value, "managed") {
            Ok(FilePolicy::Managed)
        } else {
            Err(AppError::Integrity { message: "invalid file policy".to_owned() })
        }
    }

    /// The stored name of the file policy.
    pub fn as_str(self) -> (s: &'static str)
        ensures
            s@ == file_policy_name(self),
    {
        match self {
            FilePolicy::Editable => "editable",
            FilePolicy::ReadOnly => "read_only",
            FilePolicy::Managed => "managed",
        }
    }
}

/// Stored names of file policies identify them.
pub proof fn law_file_policy_round_trip(p: FilePolicy)
    ensures
        file_policy_from_name(file_policy_name(p)) == Some(p),
{
    reveal_strlit("editable");
    reveal_strlit("read_only");
    reveal_strlit("managed");
    assert("editable"@.len() == 8);
    assert("read_only"@.len() == 9);
    assert("managed"@.len() == 7);
}

/// Strictness rank of a policy: editable < read-only < managed.
pub open spec fn spec_policy_rank(policy: FilePolicy) -> u8 {
    match policy {
        FilePolicy::Editable => 0,
        FilePolicy::ReadOnly => 1,
        FilePolicy::Managed => 2,
    }
}

/// Strictness rank of a policy.
pub fn policy_rank(policy: FilePolicy) -> (r: u8)
    ensures
        r == spec_policy_rank(policy),
{
    match policy {
        FilePolicy::Editable => 0,
        FilePolicy::ReadOnly => 1,
        FilePolicy::Managed => 2,
    }
}

/// Read access to a canonical team file. Managed describes edit authority, never
/// confidentiality: files that enter a TeX workspace are readable by its members.
pub fn may_read(policy: FilePolicy, account: AccountType, manager: bool) -> (b: bool)
    ensures
        b,
{
    true
}

/// Whether a project manager who is not an administrator may set `requested` on a path
/// whose template rule is `template`: a template rule may be tightened, never loosened.
pub open spec fn spec_policy_change_allowed(
    is_admin: bool,
    template: Option<FilePolicy>,
    requested: FilePolicy,
) -> bool {
    is_admin || match template {
        None => true,
        Some(t) => spec_policy_rank(requested) >= spec_policy_rank(t),
    }
}

/// Decides a file-policy change against the template rule of the path.
pub fn check_policy_change(
    is_admin: bool,
    template: Option<FilePolicy>,
    requested: FilePolicy,
) -> (r: Result<(), AppError>)
    ensures
        r is Ok <==> spec_policy_change_allowed(is_admin, template, requested),
        r matches Err(e) ==> e == AppError::Forbidden,
{
    if !is_admin {
        if let Some(template_policy) = template {
            if policy_rank(requested) < policy_rank(template_policy) {
                return Err(AppError::Forbidden);
            }
        }
    }
    Ok(())
}

/// Converts a byte size to a database integer.
pub fn i64_size(value: u64) -> (r: Result<i64, AppError>)
    ensures
        value <= i64::MAX ==> r == Ok::<i64, AppError>(value as i64),
        value > i64::MAX ==> (r matches Err(e) && integrity_message(e, "size exceeds PostgreSQL BIGINT"@)),
{
    if value <= 0x7fff_ffff_ffff_ffffu64 {
        Ok(value as i64)
    } else {
        Err(AppError::Integrity { message: "size exceeds PostgreSQL BIGINT".to_owned() })
    }
}

/// Converts a revision to a database integer.
pub fn i64_revision(value: u64) -> (r: Result<i64, AppError>)
    ensures
        value <= i64::MAX ==> r == Ok::<i64, AppError>(value as i64),
        value > i64::MAX ==> (r matches Err(e) && integrity_message(e, "revision exceeds PostgreSQL BIGINT"@)),
{
    if value <= 0x7fff_ffff_ffff_ffffu64 {
        Ok(value as i64)
    } else {
        Err(AppError::Integrity { message: "revision exceeds PostgreSQL BIGINT".to_owned() })
    }
}

/// A stored count or size read back; a negative value is corrupt and refused with
/// `message`.
pub fn stored_unsigned(value: i64, message: &str) -> (r: Result<u64, AppError>)
    ensures
        value >= 0 ==> r == Ok::<u64, AppError>(value as u64),
        value < 0 ==> (r matches Err(AppError::Integrity { message: m }) && m@ == message@),
{
    if value >= 0 {
        Ok(value as u64)
    } else {
        Err(AppError::Integrity { message: message.to_owned() })
    }
}

/// The audiences of a template: at least one, each an institutional account type.
pub open spec fn audiences_valid(audiences: Seq<Seq<char>>) -> bool {
    audiences.len() > 0 && forall|i: int|
        0 <= i < audiences.len() ==> #[trigger] account_type_from_name(audiences[i]) is Some
}

/// Checks the audiences given to a template.
pub fn check_template_audiences(audiences: &Vec<&str>) -> (r: Result<(), AppError>)
    ensures
        audiences_valid(audiences@.map_values(|a: &str| a@)) ==> r is Ok,
        !audiences_valid(audiences@.map_values(|a: &str| a@)) ==> (r matches Err(
            AppError::Integrity { message: m },
        ) && m@ == "template audiences must be institutional account types"@),
{
    let ghost v = audiences@.map_values(|a: &str| a@);
    let mut ok = audiences.len() > 0;
    let mut i: usize = 0;
    while i < audiences.len()
        invariant
            v == audiences@.map_values(|a: &str| a@),
            i <= audiences@.len(),
            ok == (audiences@.len() > 0 && forall|k: int|
                0 <= k < i ==> #[trigger] account_type_from_name(v[k]) is Some),
        decreases audiences@.len() - i,
    {
        let known = match AccountType::parse(audiences[i]) {
            Ok(_) => true,
            Err(_) => false,
        };
        assert(v[i as int] == audiences@[i as int]@);
        ok = ok && known;
        i = i + 1;
    }
    if ok {
        Ok(())
    } else {
        Err(AppError::Integrity { message: "template audiences must be institutional account types".to_owned() })
    }
}

/// Converts a persisted revision back; negative values are corrupt.
pub fn db_revision(value: i64) -> (r: Result<u64, AppError>)
    ensures
        value >= 0 ==> r == Ok::<u64, AppError>(value as u64),
        value < 0 ==> (r matches Err(e) && integrity_message(e, "negative persisted revision"@)),
{
    if value >= 0 {
        Ok(value as u64)
    } else {
        Err(AppError::Integrity { message: "negative persisted revision".to_owned() })
    }
}

/// Why an atomic change-set publication was rejected.
#[derive(Clone, Copy, Debug, PartialEq, Eq, Structural)]
pub enum ChangeConflictReason {
    ChangedSinceEdit,
    DestinationExists,
    MissingSource,
    MainTargetMissing,
    MainLocked,
    PolicyChanged,
    PermissionChanged,
}

/// Client-facing name of a conflict reason.
pub open spec fn conflict_reason_name(r: ChangeConflictReason) -> Seq<char> {
    match r {
        ChangeConflictReason::ChangedSinceEdit => "changed_since_edit"@,
        ChangeConflictReason::DestinationExists => "destination_exists"@,
        ChangeConflictReason::MissingSource => "missing_source"@,
        ChangeConflictReason::MainTargetMissing => "main_target_missing"@,
        ChangeConflictReason::MainLocked => "main_locked"@,
        ChangeConflictReason::PolicyChanged => "policy_changed"@,
        ChangeConflictReason::PermissionChanged => "permission_changed"@,
    }
}

impl ChangeConflictReason {
    /// The client-facing name of the reason.
    pub fn as_str(self) -> (s: &'static str)
        ensures
            s@ == conflict_reason_name(self),
    {
        match self {
            ChangeConflictReason::ChangedSinceEdit => "changed_since_edit",
            ChangeConflictReason::DestinationExists => "destination_exists",
            ChangeConflictReason::MissingSource => "missing_source",
            ChangeConflictReason::MainTargetMissing => "main_target_missing",
            ChangeConflictReason::MainLocked => "main_locked",
            ChangeConflictReason::PolicyChanged => "policy_changed",
            ChangeConflictReason::PermissionChanged => "permission_changed",
        }
    }
}

/// A small, client-safe explanation for an atomic publish rejection.
#[derive(Clone, Debug, PartialEq, Eq)]
pub struct ChangeConflict {
    pub path: String,
    pub destination: Option<String>,
    pub reason: ChangeConflictReason,
}

/// Builds a conflict record.
pub fn change_conflict(
    path: &str,
    destination: Option<&str>,
    reason: ChangeConflictReason,
) -> (c: ChangeConflict)
    ensures
        c.path@ == path@,
        c.destination.is_some() == destination.is_some(),
        destination matches Some(d) ==> c.destination.unwrap()@ == d@,
        c.reason == reason,
{
    let destination = match destination {
        Some(d) => Some(d.to_owned()),
        None => None,
    };
    ChangeConflict { path: path.to_owned(), destination, reason }
}

/// Result of publishing one member draft.
#[derive(Copy, Clone, Debug, PartialEq, Eq, Structural)]
pub enum PublishResult {
    Published { canonical_generation: u64, workspace_version: u64, file_revision: u64 },
    Conflict { current_file_revision: u64 },
}

/// Result of publishing a whole private change set.
#[derive(Clone, Debug, PartialEq, Eq)]
pub enum ChangeSetPublishResult {
    Published { canonical_generation: u64, workspace_version: u64, change_count: u64 },
    Conflict { conflicts: Vec<ChangeConflict> },
}

/// Policies are ordered by strictness, editable < read-only < managed, and a project
/// manager who is not an administrator may keep or tighten a template rule but never
/// loosen it: a managed rule stays managed, a read-only rule may not become editable.
/// An administrator, or a path without a template rule, may take any policy.
pub proof fn law_template_rules_only_tighten(requested: FilePolicy, template: Option<FilePolicy>)
    ensures
        spec_policy_rank(FilePolicy::Editable) < spec_policy_rank(FilePolicy::ReadOnly),
        spec_policy_rank(FilePolicy::ReadOnly) < spec_policy_rank(FilePolicy::Managed),
        spec_policy_change_allowed(false, Some(FilePolicy::Managed), requested) <==> requested
            == FilePolicy::Managed,
        spec_policy_change_allowed(false, Some(FilePolicy::ReadOnly), requested) <==> requested
            != FilePolicy::Editable,
        spec_policy_change_allowed(false, Some(FilePolicy::Editable), requested),
        spec_policy_change_allowed(false, None, requested),
        spec_policy_change_allowed(true, template, requested),
{
}

} // verus!
