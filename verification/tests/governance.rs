use persistence::governance::{
    check_content_policy, check_main_policy, check_policy_change, check_structure_policy,
    check_workspace_version, clean_note, next_workspace_version, stored_policy, to_i64,
    validate_note, V2FilePolicy,
};
use persistence::V2Error;

const ALL: [V2FilePolicy; 5] = [
    V2FilePolicy::Editable,
    V2FilePolicy::ContentReadOnly,
    V2FilePolicy::StructureLocked,
    V2FilePolicy::TemplateManaged,
    V2FilePolicy::HiddenSystem,
];

#[test]
fn policy_names_round_trip() {
    for policy in ALL {
        assert_eq!(V2FilePolicy::parse(policy.as_str()), Ok(policy));
    }
    assert_eq!(V2FilePolicy::StructureLocked.as_str(), "STRUCTURE_LOCKED");
    assert_eq!(
        V2FilePolicy::parse("editable"),
        Err(V2Error::Integrity { message: "invalid V2 file policy editable".to_owned() })
    );
}

#[test]
fn capabilities_follow_the_policy() {
    let editable: Vec<bool> = ALL.iter().map(|p| p.content_editable()).collect();
    assert_eq!(editable, vec![true, false, true, false, false]);
    let structure: Vec<bool> = ALL.iter().map(|p| p.structure_editable()).collect();
    assert_eq!(structure, vec![true, false, false, false, false]);
    let visible: Vec<bool> = ALL.iter().map(|p| p.visible_to_participants()).collect();
    assert_eq!(visible, vec![true, true, true, true, false]);
    assert!(check_content_policy(V2FilePolicy::StructureLocked).is_ok());
    assert_eq!(
        check_structure_policy(V2FilePolicy::StructureLocked),
        Err(V2Error::Conflict { entity: "file structure policy".to_owned() })
    );
    assert_eq!(
        check_main_policy(V2FilePolicy::TemplateManaged),
        Err(V2Error::Conflict { entity: "main-file policy".to_owned() })
    );
}

#[test]
fn a_file_without_a_policy_row_is_editable() {
    assert_eq!(stored_policy(None), Ok(V2FilePolicy::Editable));
    assert_eq!(stored_policy(Some("HIDDEN_SYSTEM")), Ok(V2FilePolicy::HiddenSystem));
    assert!(stored_policy(Some("")).is_err());
}

#[test]
fn managed_front_matter_files_stay_hidden() {
    let path = ".latex-core/frontmatter/frontmatter.tex";
    assert!(check_policy_change(path, "HIDDEN_SYSTEM", V2FilePolicy::HiddenSystem).is_ok());
    assert_eq!(
        check_policy_change(path, "HIDDEN_SYSTEM", V2FilePolicy::Editable),
        Err(V2Error::Conflict { entity: "managed Front Matter file policy".to_owned() })
    );
    assert!(check_policy_change(path, "EDITABLE", V2FilePolicy::HiddenSystem).is_err());
    assert!(check_policy_change("main.tex", "EDITABLE", V2FilePolicy::ContentReadOnly).is_ok());
}

#[test]
fn notes_are_bounded_and_trimmed() {
    assert!(validate_note(None).is_ok());
    assert!(validate_note(Some(&"é".repeat(4000))).is_ok());
    assert_eq!(
        validate_note(Some(&"x".repeat(4001))),
        Err(V2Error::Integrity { message: "governance note exceeds 4000 characters".to_owned() })
    );
    assert_eq!(clean_note(Some("  keep this \n")), Some("keep this".to_owned()));
    assert_eq!(clean_note(Some(" \t ")), None);
    assert_eq!(clean_note(None), None);
}

#[test]
fn versions_are_checked_and_advanced() {
    assert_eq!(to_i64(7), Ok(7));
    assert!(to_i64(u64::MAX).is_err());
    assert!(check_workspace_version(3, 3).is_ok());
    assert_eq!(
        check_workspace_version(3, -1),
        Err(V2Error::VersionConflict { expected: 3, actual: 0 })
    );
    assert_eq!(
        check_workspace_version(3, 4),
        Err(V2Error::VersionConflict { expected: 3, actual: 4 })
    );
    assert_eq!(next_workspace_version(4), Ok(5));
    assert_eq!(
        next_workspace_version(i64::MAX),
        Err(V2Error::Integrity { message: "workspace version overflow".to_owned() })
    );
}
