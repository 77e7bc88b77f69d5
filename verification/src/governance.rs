//! Governance rules: per-file policies, governance notes, and the version checks that
//! guard template changes and restorations.
use crate::error::V2Error;
use crate::import_values::{utf8_len, utf8_len_is};
use crate::text::{chars_of, chars_starts_with, has_prefix, str_eq, trim_spec, trim_str};
use vstd::prelude::*;

verus! {

/// What participants may do with one paper file.
#[derive(Copy, Clone, Debug, PartialEq, Eq, Structural)]
pub enum V2FilePolicy {
    Editable,
    ContentReadOnly,
    StructureLocked,
    TemplateManaged,
    HiddenSystem,
}

/// Stored name of a file policy.
pub open spec fn v2_policy_name(p: V2FilePolicy) -> Seq<char> {
    match p {
        V2FilePolicy::Editable => "EDITABLE"@,
        V2FilePolicy::ContentReadOnly => "CONTENT_READ_ONLY"@,
        V2FilePolicy::StructureLocked => "STRUCTURE_LOCKED"@,
        V2FilePolicy::TemplateManaged => "TEMPLATE_MANAGED"@,
        V2FilePolicy::HiddenSystem => "HIDDEN_SYSTEM"@,
    }
}

/// The file policy whose stored name is `s`, if any.
pub open spec fn v2_policy_from_name(s: Seq<char>) -> Option<V2FilePolicy> {
    if s == "EDITABLE"@ {
        Some(V2FilePolicy::Editable)
    } else if s == "CONTENT_READ_ONLY"@ {
        Some(V2FilePolicy::ContentReadOnly)
    } else if s == "STRUCTURE_LOCKED"@ {
        Some(V2FilePolicy::StructureLocked)
    } else if s == "TEMPLATE_MANAGED"@ {
        Some(V2FilePolicy::TemplateManaged)
    } else if s == "HIDDEN_SYSTEM"@ {
        Some(V2FilePolicy::HiddenSystem)
    } else {
        None
    }
}

/// Participants may change the file's content.
pub open spec fn spec_content_editable(p: V2FilePolicy) -> bool {
    p is Editable || p is StructureLocked
}

/// Participants may rename, move or delete the file.
pub open spec fn spec_structure_editable(p: V2FilePolicy) -> bool {
    p is Editable
}

/// Participants see the file.
pub open spec fn spec_visible_to_participants(p: V2FilePolicy) -> bool {
    !(p is HiddenSystem)
}

/// The file may be chosen as the main file.
pub open spec fn spec_main_selectable(p: V2FilePolicy) -> bool {
    p is Editable || p is StructureLocked
}

/// An integrity error whose message is `m`.
pub open spec fn is_integrity(e: V2Error, m: Seq<char>) -> bool {
    e matches V2Error::Integrity { message } && message@ == m
}

/// A conflict error naming `entity`.
pub open spec fn is_conflict(e: V2Error, entity: Seq<char>) -> bool {
    e matches V2Error::Conflict { entity: x } && x@ == entity
}

impl V2FilePolicy {
    /// The stored name of the policy.
    pub fn as_str(self) -> (s: &'static str)
        ensures
            s@ == v2_policy_name(self),
    {
        match self {
            V2FilePolicy::Editable => "EDITABLE",
            V2FilePolicy::ContentReadOnly => "CONTENT_READ_ONLY",
            V2FilePolicy::StructureLocked => "STRUCTURE_LOCKED",
            V2FilePolicy::TemplateManaged => "TEMPLATE_MANAGED",
            V2FilePolicy::HiddenSystem => "HIDDEN_SYSTEM",
        }
    }

    /// Parses a stored policy name; any other text is an integrity error naming it.
    pub fn parse(value: &str) -> (r: Result<V2FilePolicy, V2Error>)
        ensures
            v2_policy_from_name(value@) matches Some(p) ==> r == Ok::<V2FilePolicy, V2Error>(p),
            v2_policy_from_name(value@) is None ==> (r matches Err(e) && is_integrity(
                e,
                "invalid V2 file policy "@ + value@,
            )),
    {
        if str_eq(value, "EDITABLE") {
            Ok(V2FilePolicy::Editable)
        } else if str_eq(value, "CONTENT_READ_ONLY") {
            Ok(V2FilePolicy::ContentReadOnly)
        } else if str_eq(value, "STRUCTURE_LOCKED") {
            Ok(V2FilePolicy::StructureLocked)
        } else if str_eq(value, "TEMPLATE_MANAGED") {
            Ok(V2FilePolicy::TemplateManaged)
        } else if str_eq(value, "HIDDEN_SYSTEM") {
            Ok(V2FilePolicy::HiddenSystem)
        } else {
            Err(V2Error::Integrity { message: crate::text::concat_str("invalid V2 file policy ", value) })
        }
    }

    /// Whether participants may edit the file's content.
    pub fn content_editable(self) -> (b: bool)
        ensures
            b == spec_content_editable(self),
    {
        matches!(self, V2FilePolicy::Editable | V2FilePolicy::StructureLocked)
    }

    /// Whether participants may change the file's place in the tree.
    pub fn structure_editable(self) -> (b: bool)
        ensures
            b == spec_structure_editable(self),
    {
        matches!(self, V2FilePolicy::Editable)
    }

    /// Whether participants see the file at all.
    pub fn visible_to_participants(self) -> (b: bool)
        ensures
            b == spec_visible_to_participants(self),
    {
        !matches!(self, V2FilePolicy::HiddenSystem)
    }
}

/// Stored names identify policies: parsing a policy's name gives the policy back.
pub proof fn law_v2_policy_round_trip(p: V2FilePolicy)
    ensures
        v2_policy_from_name(v2_policy_name(p)) == Some(p),
{
    reveal_strlit("EDITABLE");
    reveal_strlit("CONTENT_READ_ONLY");
    reveal_strlit("STRUCTURE_LOCKED");
    reveal_strlit("TEMPLATE_MANAGED");
    reveal_strlit("HIDDEN_SYSTEM");
    assert("EDITABLE"@.len() == 8);
    assert("CONTENT_READ_ONLY"@.len() == 17);
    assert("STRUCTURE_LOCKED"@.len() == 16);
    assert("TEMPLATE_MANAGED"@.len() == 16);
    assert("HIDDEN_SYSTEM"@.len() == 13);
    assert("STRUCTURE_LOCKED"@[0] != "TEMPLATE_MANAGED"@[0]);
}

/// The policies nest: a file whose structure may change has editable content, and a
/// file whose content may be edited is visible.
pub proof fn law_policy_capabilities_nest(p: V2FilePolicy)
    ensures
        spec_structure_editable(p) ==> spec_content_editable(p),
        spec_content_editable(p) ==> spec_visible_to_participants(p),
        spec_main_selectable(p) == spec_content_editable(p),
{
}

/// The policy of a file as stored: a file without a policy row is editable.
pub fn stored_policy(value: Option<&str>) -> (r: Result<V2FilePolicy, V2Error>)
    ensures
        value is None ==> r == Ok::<V2FilePolicy, V2Error>(V2FilePolicy::Editable),
        value matches Some(v) ==> (v2_policy_from_name(v@) matches Some(p) ==> r == Ok::<
            V2FilePolicy,
            V2Error,
        >(p)),
        value matches Some(v) ==> (v2_policy_from_name(v@) is None ==> (r matches Err(e)
            && is_integrity(e, "invalid V2 file policy "@ + v@))),
{
    match value {
        None => Ok(V2FilePolicy::Editable),
        Some(v) => V2FilePolicy::parse(v),
    }
}

/// Refuses a content edit of a file whose policy does not allow it.
pub fn check_content_policy(policy: V2FilePolicy) -> (r: Result<(), V2Error>)
    ensures
        r is Ok <==> spec_content_editable(policy),
        r matches Err(e) ==> is_conflict(e, "file content policy"@),
{
    if policy.content_editable() {
        Ok(())
    } else {
        Err(V2Error::Conflict { entity: "file content policy".to_owned() })
    }
}

/// Refuses a rename, move or delete of a file whose policy does not allow it.
pub fn check_structure_policy(policy: V2FilePolicy) -> (r: Result<(), V2Error>)
    ensures
        r is Ok <==> spec_structure_editable(policy),
        r matches Err(e) ==> is_conflict(e, "file structure policy"@),
{
    if policy.structure_editable() {
        Ok(())
    } else {
        Err(V2Error::Conflict { entity: "file structure policy".to_owned() })
    }
}

/// Refuses to make a file the main file unless its policy allows it.
pub fn check_main_policy(policy: V2FilePolicy) -> (r: Result<(), V2Error>)
    ensures
        r is Ok <==> spec_main_selectable(policy),
        r matches Err(e) ==> is_conflict(e, "main-file policy"@),
{
    if matches!(policy, V2FilePolicy::Editable | V2FilePolicy::StructureLocked) {
        Ok(())
    } else {
        Err(V2Error::Conflict { entity: "main-file policy".to_owned() })
    }
}

/// Directory of the generated Front Matter files.
pub open spec fn managed_front_matter_prefix() -> Seq<char> {
    ".latex-core/frontmatter/"@
}

/// A policy change that the rules refuse: the generated Front Matter files stay hidden.
pub open spec fn policy_change_refused(
    path: Seq<char>,
    current: Seq<char>,
    requested: V2FilePolicy,
) -> bool {
    has_prefix(path, managed_front_matter_prefix()) && (current != "HIDDEN_SYSTEM"@
        || requested != V2FilePolicy::HiddenSystem)
}

/// Checks an administrator's policy change for the file at `path`, whose stored policy
/// is `current`.
pub fn check_policy_change(path: &str, current: &str, requested: V2FilePolicy) -> (r: Result<
    (),
    V2Error,
>)
    ensures
        r is Err <==> policy_change_refused(path@, current@, requested),
        r matches Err(e) ==> is_conflict(e, "managed Front Matter file policy"@),
{
    let p = chars_of(path);
    let prefix = chars_of(".latex-core/frontmatter/");
    if chars_starts_with(&p, &prefix) && (!str_eq(current, "HIDDEN_SYSTEM") || !matches!(
        requested,
        V2FilePolicy::HiddenSystem
    )) {
        Err(V2Error::Conflict { entity: "managed Front Matter file policy".to_owned() })
    } else {
        Ok(())
    }
}

/// A managed Front Matter file can only ever be hidden: every change the rules accept
/// for it sets `HIDDEN_SYSTEM` on a file that already had it.
pub proof fn law_front_matter_stays_hidden(path: Seq<char>, current: Seq<char>, requested: V2FilePolicy)
    requires
        has_prefix(path, managed_front_matter_prefix()),
        !policy_change_refused(path, current, requested),
    ensures
        requested == V2FilePolicy::HiddenSystem,
        current == v2_policy_name(V2FilePolicy::HiddenSystem),
{
}

/// The longest governance note, in characters.
pub const MAX_NOTE_CHARS: usize = 4000;

/// Refuses a governance note longer than 4000 characters.
pub fn validate_note(note: Option<&str>) -> (r: Result<(), V2Error>)
    ensures
        r is Err <==> (note matches Some(v) && v@.len() > 4000),
        r matches Err(e) ==> is_integrity(e, "governance note exceeds 4000 characters"@),
{
    match note {
        Some(v) => {
            let c = chars_of(v);
            if c.len() > MAX_NOTE_CHARS {
                Err(
                    V2Error::Integrity {
                        message: "governance note exceeds 4000 characters".to_owned(),
                    },
                )
            } else {
                Ok(())
            }
        },
        None => Ok(()),
    }
}

/// The note as stored: trimmed, and absent when nothing but white space remains.
pub open spec fn stored_note(note: Option<Seq<char>>) -> Option<Seq<char>> {
    match note {
        Some(v) => if trim_spec(v).len() > 0 {
            Some(trim_spec(v))
        } else {
            None
        },
        None => None,
    }
}

/// The view of an optional text.
pub open spec fn opt_text(v: Option<&str>) -> Option<Seq<char>> {
    match v {
        Some(s) => Some(s@),
        None => None,
    }
}

/// The view of an optional owned text.
pub open spec fn opt_string(v: Option<String>) -> Option<Seq<char>> {
    match v {
        Some(s) => Some(s@),
        None => None,
    }
}

/// Trims a governance note and drops it when it is blank.
pub fn clean_note(note: Option<&str>) -> (r: Option<String>)
    ensures
        opt_string(r) == stored_note(opt_text(note)),
{
    match note {
        Some(v) => {
            let t = trim_str(v);
            let c = chars_of(t.as_str());
            if c.len() > 0 {
                Some(t)
            } else {
                None
            }
        },
        None => None,
    }
}

/// Converts a count to PostgreSQL's BIGINT.
pub fn to_i64(value: u64) -> (r: Result<i64, V2Error>)
    ensures
        value <= i64::MAX ==> r == Ok::<i64, V2Error>(value as i64),
        value > i64::MAX ==> (r matches Err(e) && is_integrity(
            e,
            "governance number exceeds PostgreSQL BIGINT"@,
        )),
{
    if value <= 0x7fff_ffff_ffff_ffffu64 {
        Ok(value as i64)
    } else {
        Err(
            V2Error::Integrity {
                message: "governance number exceeds PostgreSQL BIGINT".to_owned(),
            },
        )
    }
}

/// The stored head version as a count: negative heads read as 0.
pub open spec fn head_as_count(actual: i64) -> u64 {
    if actual >= 0 {
        actual as u64
    } else {
        0
    }
}

/// Refuses to act on a workspace whose head moved from the version the caller read.
pub fn check_workspace_version(expected: u64, actual: i64) -> (r: Result<(), V2Error>)
    ensures
        r is Ok <==> (actual >= 0 && actual == expected),
        r is Err ==> r == Err::<(), V2Error>(
            V2Error::VersionConflict { expected, actual: head_as_count(actual) },
        ),
{
    if actual >= 0 && actual as u64 == expected {
        Ok(())
    } else {
        let shown: u64 = if actual >= 0 {
            actual as u64
        } else {
            0
        };
        Err(V2Error::VersionConflict { expected, actual: shown })
    }
}

/// The next head version after `actual`, refused when it would not fit.
pub fn next_workspace_version(actual: i64) -> (r: Result<i64, V2Error>)
    ensures
        actual < i64::MAX ==> r == Ok::<i64, V2Error>((actual + 1) as i64),
        actual == i64::MAX ==> (r matches Err(e) && is_integrity(e, "workspace version overflow"@)),
{
    if actual < 0x7fff_ffff_ffff_ffffi64 {
        Ok(actual + 1)
    } else {
        Err(V2Error::Integrity { message: "workspace version overflow".to_owned() })
    }
}

/// Whether `s` is a SHA-256 digest in hex: exactly 64 bytes.
pub open spec fn is_digest_len(s: Seq<char>) -> bool {
    utf8_len(s) == 64
}

/// Whether a string is 64 bytes long, the length of a hex SHA-256 digest.
pub fn digest_length_ok(s: &str) -> (b: bool)
    ensures
        b == is_digest_len(s@),
{
    utf8_len_is(s, 64)
}

} // verus!
