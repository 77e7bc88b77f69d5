use persistence::integration::{
    build_download_url, check_rate_limit, check_report_coverage, check_revoked,
    integration_scope_names, is_integration_scope, validate_client, DirectoryResource,
    IntegrationError, IntegrationPrincipal,
};

fn scopes(list: &[&str]) -> Vec<String> {
    list.iter().map(|s| s.to_string()).collect()
}

#[test]
fn clients_need_a_name_supported_unique_scopes_and_coverage() {
    let ok = scopes(&["reports.read", "reports.pdf.read"]);
    assert!(validate_client(" Registry ", &ok, false, &vec![1]).is_ok());
    assert!(validate_client("Registry", &ok, true, &vec![]).is_ok());
    assert_eq!(
        validate_client("  ", &ok, true, &vec![]),
        Err(IntegrationError::Invalid("name must contain 1 to 120 characters".to_owned()))
    );
    assert!(validate_client(&"n".repeat(121), &ok, true, &vec![]).is_err());
    let bad = IntegrationError::Invalid("scopes must be unique supported read scopes".to_owned());
    assert_eq!(validate_client("R", &vec![], true, &vec![]), Err(bad.clone()));
    assert_eq!(validate_client("R", &scopes(&["reports.read", "reports.read"]), true, &vec![]), Err(bad.clone()));
    assert_eq!(validate_client("R", &scopes(&["reports.write"]), true, &vec![]), Err(bad));
    assert_eq!(
        validate_client("R", &ok, false, &vec![]),
        Err(IntegrationError::Invalid("report coverage is required unless institution_wide is granted".to_owned()))
    );
}

#[test]
fn supported_scopes_are_listed() {
    assert_eq!(integration_scope_names().len(), 6);
    assert!(is_integration_scope("reviews.published.read"));
    assert!(!is_integration_scope("reviews.read"));
}

#[test]
fn principals_read_their_scopes_and_reports() {
    let principal = IntegrationPrincipal {
        client_id: 1,
        name: "Registry".to_owned(),
        scopes: scopes(&["reports.read"]),
        institution_wide: false,
        report_ids: vec![5, 6],
    };
    assert!(principal.has_scope("reports.read"));
    assert!(!principal.has_scope("reports.pdf.read"));
    assert!(principal.allows_report(6));
    assert!(!principal.allows_report(7));
    let wide = IntegrationPrincipal { institution_wide: true, ..principal };
    assert!(wide.allows_report(7));
}

#[test]
fn coverage_counts_distinct_reports() {
    assert!(check_report_coverage(&vec![], 0).is_ok());
    assert!(check_report_coverage(&vec![3, 1, 3], 2).is_ok());
    assert_eq!(
        check_report_coverage(&vec![3, 1], 1),
        Err(IntegrationError::Invalid("report coverage contains an unknown Team report".to_owned()))
    );
}

#[test]
fn admission_window_allows_120_reads_a_minute() {
    assert!(check_rate_limit(119).is_ok());
    assert_eq!(check_rate_limit(120), Err(IntegrationError::RateLimited));
    assert_eq!(check_revoked(0), Err(IntegrationError::NotFound));
    assert!(check_revoked(1).is_ok());
    assert_eq!(IntegrationError::Invalid("x".to_owned()).message(), "invalid integration client: x");
}

#[test]
fn download_urls_name_report_and_build() {
    assert_eq!(
        build_download_url(1, 0xabc),
        "/api/integration/v1/reports/00000000-0000-0000-0000-000000000001/builds/00000000-0000-0000-0000-000000000abc/pdf"
    );
}

#[test]
fn directories_are_known_by_name() {
    let students = DirectoryResource::parse("students").expect("known");
    assert_eq!(students.identity_kind(), "reg_no");
    assert!(students.query().starts_with("SELECT reg_no AS id"));
    assert_eq!(
        DirectoryResource::parse("course-registrations").map(|r| r.identity_kind()),
        Ok("course_registration")
    );
    assert_eq!(DirectoryResource::parse("teachers"), Err(IntegrationError::NotFound));
}
