use persistence::permissions::{GroupRoles, OverrideEffect, Permission, PermissionResolver, ProjectRoles};
use persistence::AccountType;

#[test]
fn project_roles_are_composable_and_distinct_from_institutional_type() {
    let mentor = PermissionResolver::new(
        AccountType::Professor,
        GroupRoles::default(),
        ProjectRoles {
            mentor: true,
            ..ProjectRoles::default()
        },
        &[],
    );
    assert!(mentor.allows(Permission::CompileSubmit));
    assert!(!mentor.allows(Permission::FileWrite));
    let writer_mentor = PermissionResolver::new(
        AccountType::Student,
        GroupRoles::default(),
        ProjectRoles {
            writer: true,
            mentor: true,
            project_manager: false,
        },
        &[],
    );
    assert!(writer_mentor.allows(Permission::FileWrite));
    assert!(writer_mentor.allows(Permission::ReviewComment));
}

#[test]
fn deny_wins_over_allow() {
    let resolver = PermissionResolver::new(
        AccountType::Student,
        GroupRoles::default(),
        ProjectRoles {
            writer: true,
            ..ProjectRoles::default()
        },
        &[(Permission::FileWrite, OverrideEffect::Deny)],
    );
    assert!(!resolver.allows(Permission::FileWrite));
}

#[test]
fn deny_wins_for_release_critical_capabilities() {
    let student = PermissionResolver::new(
        AccountType::Student,
        GroupRoles::default(),
        ProjectRoles::default(),
        &[(Permission::TeamCreate, OverrideEffect::Deny)],
    );
    assert!(!student.allows(Permission::TeamCreate));
    let professor = PermissionResolver::new(
        AccountType::Professor,
        GroupRoles::default(),
        ProjectRoles::default(),
        &[(Permission::MentorGroupCreate, OverrideEffect::Deny)],
    );
    assert!(!professor.allows(Permission::MentorGroupCreate));
    let writer = PermissionResolver::new(
        AccountType::Student,
        GroupRoles::default(),
        ProjectRoles {
            writer: true,
            ..ProjectRoles::default()
        },
        &[
            (Permission::CompileSubmit, OverrideEffect::Deny),
            (Permission::FileDelete, OverrideEffect::Deny),
        ],
    );
    assert!(!writer.allows(Permission::CompileSubmit));
    assert!(!writer.allows(Permission::FileDelete));
    let mentor = PermissionResolver::new(
        AccountType::Professor,
        GroupRoles::default(),
        ProjectRoles {
            mentor: true,
            ..ProjectRoles::default()
        },
        &[(Permission::ArtifactRead, OverrideEffect::Deny)],
    );
    assert!(!mentor.allows(Permission::ArtifactRead));
}

#[test]
fn delegation_never_exceeds_effective_capability() {
    let resolver = PermissionResolver::new(
        AccountType::Student,
        GroupRoles {
            group_manager: true,
        },
        ProjectRoles::default(),
        &[],
    );
    assert!(!resolver.may_delegate(Permission::FileProtectedWrite));
    assert!(resolver.may_delegate(Permission::TeamMembersManage));
}

#[test]
fn permission_names_round_trip() {
    for permission in Permission::all() {
        assert_eq!(Permission::parse(permission.as_str()), Some(permission));
    }
    assert_eq!(Permission::parse("file.protected.write"), Some(Permission::FileProtectedWrite));
    assert_eq!(Permission::parse("file.protected"), None);
    assert_eq!(Permission::parse(""), None);
}

#[test]
fn admin_holds_everything_not_denied() {
    let admin = PermissionResolver::new(
        AccountType::Admin,
        GroupRoles::default(),
        ProjectRoles::default(),
        &[(Permission::AdminSystem, OverrideEffect::Deny)],
    );
    let capabilities = admin.capabilities();
    assert_eq!(capabilities.len(), 33);
    assert!(!capabilities.contains(&"admin.system"));
    assert_eq!(capabilities[0], "project.read");
    assert!(admin.allows(Permission::FileProtectedWrite));
}

#[test]
fn allow_override_grants_and_capabilities_follow_canonical_order() {
    let student = PermissionResolver::new(
        AccountType::Student,
        GroupRoles::default(),
        ProjectRoles::default(),
        &[(Permission::ReviewRead, OverrideEffect::Allow)],
    );
    assert_eq!(
        student.capabilities(),
        vec!["project.create", "team.create", "review.read", "template.use"]
    );
}

#[test]
fn role_delegation_requires_every_role_permission() {
    let manager = PermissionResolver::new(
        AccountType::Student,
        GroupRoles::default(),
        ProjectRoles {
            project_manager: true,
            ..ProjectRoles::default()
        },
        &[],
    );
    assert!(manager.may_delegate_role(ProjectRoles {
        project_manager: true,
        ..ProjectRoles::default()
    }));
    assert!(!manager.may_delegate_role(ProjectRoles {
        writer: true,
        ..ProjectRoles::default()
    }));
    assert!(manager.may_delegate_role(ProjectRoles::default()));
}
