//! Machine clients of the institutional read API: their scopes and report coverage, the
//! per-minute admission window, and the directory resources they may read.
use crate::import_values::{uuid_display, uuid_string};
use crate::templates::{ids_ascending, insert_id};
use crate::text::{chars_of, concat_str, str_eq, string_views, trim_spec, trim_str};
use vstd::prelude::*;

verus! {

/// Why an integration request failed.
#[derive(Debug, Clone, PartialEq, Eq)]
pub enum IntegrationError {
    NotFound,
    Forbidden,
    RateLimited,
    Invalid(String),
    Integrity(String),
}

/// The message shown for an integration error.
pub open spec fn integration_error_message(e: IntegrationError) -> Seq<char> {
    match e {
        IntegrationError::NotFound => "integration client not found"@,
        IntegrationError::Forbidden => "integration request is not authorized"@,
        IntegrationError::RateLimited => "integration rate limit exceeded"@,
        IntegrationError::Invalid(m) => "invalid integration client: "@ + m@,
        IntegrationError::Integrity(m) => "invalid stored integration data: "@ + m@,
    }
}

impl IntegrationError {
    /// The message shown for the error.
    pub fn message(&self) -> (s: String)
        ensures
            s@ == integration_error_message(*self),
    {
        match self {
            IntegrationError::NotFound => "integration client not found".to_owned(),
            IntegrationError::Forbidden => "integration request is not authorized".to_owned(),
            IntegrationError::RateLimited => "integration rate limit exceeded".to_owned(),
            IntegrationError::Invalid(m) => concat_str("invalid integration client: ", m.as_str()),
            IntegrationError::Integrity(m) => concat_str("invalid stored integration data: ", m.as_str()),
        }
    }
}

/// An invalid-client error whose message is `m`.
pub open spec fn is_invalid(e: IntegrationError, m: Seq<char>) -> bool {
    e matches IntegrationError::Invalid(x) && x@ == m
}

/// The read scopes a client may be granted.
pub open spec fn integration_scopes() -> Seq<Seq<char>> {
    seq![
        "institution.directory.read"@,
        "institution.contacts.read"@,
        "reports.read"@,
        "reports.files.read"@,
        "reports.pdf.read"@,
        "reviews.published.read"@,
    ]
}

/// The read scopes a client may be granted, in order.
pub fn integration_scope_names() -> (v: Vec<&'static str>)
    ensures
        v@.map_values(|s: &str| s@) == integration_scopes(),
{
    let v = vec![
        "institution.directory.read",
        "institution.contacts.read",
        "reports.read",
        "reports.files.read",
        "reports.pdf.read",
        "reviews.published.read",
    ];
    assert(v@.map_values(|s: &str| s@) =~= integration_scopes());
    v
}

/// Whether `scope` is a supported read scope.
pub fn is_integration_scope(scope: &str) -> (b: bool)
    ensures
        b == integration_scopes().contains(scope@),
{
    let names = integration_scope_names();
    let ghost nv = names@.map_values(|s: &str| s@);
    let mut i: usize = 0;
    while i < names.len()
        invariant
            nv == names@.map_values(|s: &str| s@),
            nv == integration_scopes(),
            i <= names@.len(),
            forall|j: int| 0 <= j < i ==> nv[j] != scope@,
        decreases names@.len() - i,
    {
        assert(nv[i as int] == names@[i as int]@);
        if str_eq(names[i], scope) {
            return true;
        }
        i = i + 1;
    }
    false
}

/// An authenticated client: its scopes and the reports it covers.
pub struct IntegrationPrincipal {
    pub client_id: u128,
    pub name: String,
    pub scopes: Vec<String>,
    pub institution_wide: bool,
    pub report_ids: Vec<u128>,
}

impl IntegrationPrincipal {
    /// Whether the client was granted `scope`.
    pub fn has_scope(&self, scope: &str) -> (b: bool)
        ensures
            b == string_views(self.scopes@).contains(scope@),
    {
        let ghost sv = string_views(self.scopes@);
        let mut i: usize = 0;
        while i < self.scopes.len()
            invariant
                sv == string_views(self.scopes@),
                i <= self.scopes@.len(),
                forall|j: int| 0 <= j < i ==> sv[j] != scope@,
            decreases self.scopes@.len() - i,
        {
            assert(sv[i as int] == self.scopes@[i as int]@);
            if str_eq(self.scopes[i].as_str(), scope) {
                return true;
            }
            i = i + 1;
        }
        false
    }

    /// Whether the client may read report `report_id`: every report when it is
    /// institution-wide, otherwise those it covers.
    pub fn allows_report(&self, report_id: u128) -> (b: bool)
        ensures
            b == (self.institution_wide || self.report_ids@.contains(report_id)),
    {
        if self.institution_wide {
            return true;
        }
        let mut i: usize = 0;
        while i < self.report_ids.len()
            invariant
                i <= self.report_ids@.len(),
                forall|j: int| 0 <= j < i ==> self.report_ids@[j] != report_id,
            decreases self.report_ids@.len() - i,
        {
            if self.report_ids[i] == report_id {
                assert(self.report_ids@[i as int] == report_id);
                return true;
            }
            i = i + 1;
        }
        false
    }
}

/// Some text occurs twice.
pub open spec fn has_repeat_text(s: Seq<Seq<char>>) -> bool {
    exists|i: int, j: int| 0 <= i < j < s.len() && #[trigger] s[i] == #[trigger] s[j]
}

/// Two of the first `j` texts are equal.
pub open spec fn dup_before(s: Seq<Seq<char>>, j: int) -> bool {
    exists|a: int, b: int| 0 <= a < b < j && #[trigger] s[a] == #[trigger] s[b]
}

/// One of the first `j` scopes is not supported.
pub open spec fn unsupported_before(s: Seq<Seq<char>>, j: int) -> bool {
    exists|a: int| 0 <= a < j && !integration_scopes().contains(#[trigger] s[a])
}

/// A client name is refused: blank, or longer than 120 characters once trimmed.
pub open spec fn client_name_refused(name: Seq<char>) -> bool {
    trim_spec(name).len() == 0 || trim_spec(name).len() > 120
}

/// A scope list is refused: empty, repeating a scope, or naming an unsupported one.
pub open spec fn client_scopes_refused(scopes: Seq<Seq<char>>) -> bool {
    ||| scopes.len() == 0
    ||| has_repeat_text(scopes)
    ||| exists|i: int| 0 <= i < scopes.len() && !integration_scopes().contains(#[trigger] scopes[i])
}

/// Checks a new client's name, scopes and coverage, in that order.
pub fn validate_client(
    name: &str,
    scopes: &Vec<String>,
    institution_wide: bool,
    report_ids: &Vec<u128>,
) -> (r: Result<(), IntegrationError>)
    ensures
        client_name_refused(name@) ==> (r matches Err(e) && is_invalid(
            e,
            "name must contain 1 to 120 characters"@,
        )),
        !client_name_refused(name@) && client_scopes_refused(string_views(scopes@)) ==> (r matches Err(
            e,
        ) && is_invalid(e, "scopes must be unique supported read scopes"@)),
        !client_name_refused(name@) && !client_scopes_refused(string_views(scopes@))
            && !institution_wide && report_ids@.len() == 0 ==> (r matches Err(e) && is_invalid(
            e,
            "report coverage is required unless institution_wide is granted"@,
        )),
        !client_name_refused(name@) && !client_scopes_refused(string_views(scopes@)) && (
        institution_wide || report_ids@.len() > 0) ==> r is Ok,
{
    let trimmed = trim_str(name);
    let tc = chars_of(trimmed.as_str());
    if tc.len() == 0 || tc.len() > 120 {
        return Err(IntegrationError::Invalid("name must contain 1 to 120 characters".to_owned()));
    }
    let ghost sv = string_views(scopes@);
    let mut bad = false;
    let mut j: usize = 0;
    while j < scopes.len()
        invariant
            sv == string_views(scopes@),
            j <= sv.len(),
            bad == (dup_before(sv, j as int) || unsupported_before(sv, j as int)),
        decreases sv.len() - j,
    {
        assert(sv[j as int] == scopes@[j as int]@);
        let supported = is_integration_scope(scopes[j].as_str());
        let mut found = false;
        let mut i: usize = 0;
        while i < j
            invariant
                sv == string_views(scopes@),
                i <= j < sv.len(),
                found == exists|a: int| 0 <= a < i && #[trigger] sv[a] == sv[j as int],
            decreases j - i,
        {
            assert(sv[i as int] == scopes@[i as int]@);
            if str_eq(scopes[i].as_str(), scopes[j].as_str()) {
                found = true;
            }
            i = i + 1;
        }
        proof {
            let jj = j as int;
            assert(dup_before(sv, jj + 1) == (dup_before(sv, jj) || exists|a: int| 0 <= a < jj && #[trigger] sv[a] == sv[jj])) by {
                if dup_before(sv, jj + 1) {
                    let (a, b) = choose|a: int, b: int| 0 <= a < b < jj + 1 && #[trigger] sv[a] == #[trigger] sv[b];
                    if b < jj {
                        assert(dup_before(sv, jj));
                    } else {
                        assert(sv[a] == sv[jj]);
                    }
                }
                if dup_before(sv, jj) {
                    let (a, b) = choose|a: int, b: int| 0 <= a < b < jj && #[trigger] sv[a] == #[trigger] sv[b];
                    assert(0 <= a < b < jj + 1 && sv[a] == sv[b]);
                }
                if exists|a: int| 0 <= a < jj && #[trigger] sv[a] == sv[jj] {
                    let a = choose|a: int| 0 <= a < jj && #[trigger] sv[a] == sv[jj];
                    assert(0 <= a < jj < jj + 1 && sv[a] == sv[jj]);
                }
            }
            assert(unsupported_before(sv, jj + 1) == (unsupported_before(sv, jj) || !integration_scopes().contains(sv[jj]))) by {
                if unsupported_before(sv, jj + 1) {
                    let a = choose|a: int| 0 <= a < jj + 1 && !integration_scopes().contains(#[trigger] sv[a]);
                    if a < jj {
                        assert(unsupported_before(sv, jj));
                    }
                }
                if unsupported_before(sv, jj) {
                    let a = choose|a: int| 0 <= a < jj && !integration_scopes().contains(#[trigger] sv[a]);
                    assert(0 <= a < jj + 1);
                }
                if !integration_scopes().contains(sv[jj]) {
                    assert(0 <= jj < jj + 1 && !integration_scopes().contains(sv[jj]));
                }
            }
        }
        if found || !supported {
            bad = true;
        }
        j = j + 1;
    }
    if scopes.len() == 0 || bad {
        return Err(IntegrationError::Invalid("scopes must be unique supported read scopes".to_owned()));
    }
    if !institution_wide && report_ids.len() == 0 {
        return Err(
            IntegrationError::Invalid(
                "report coverage is required unless institution_wide is granted".to_owned(),
            ),
        );
    }
    Ok(())
}

/// Checks that every report a new client covers exists: `count` reports matched the
/// distinct identities.
pub fn check_report_coverage(report_ids: &Vec<u128>, count: i64) -> (r: Result<(), IntegrationError>)
    ensures
        report_ids@.len() == 0 ==> r is Ok,
        report_ids@.len() > 0 && count >= 0 && count == report_ids@.to_set().len() ==> r is Ok,
        report_ids@.len() > 0 && !(count >= 0 && count == report_ids@.to_set().len()) ==> (r matches Err(
            e,
        ) && is_invalid(e, "report coverage contains an unknown Team report"@)),
{
    if report_ids.len() == 0 {
        return Ok(());
    }
    let mut distinct: Vec<u128> = Vec::new();
    let mut i: usize = 0;
    while i < report_ids.len()
        invariant
            i <= report_ids@.len(),
            ids_ascending(distinct@),
            forall|u: u128| distinct@.contains(u) <==> report_ids@.take(i as int).contains(u),
        decreases report_ids@.len() - i,
    {
        let ghost before = distinct@;
        insert_id(&mut distinct, report_ids[i]);
        proof {
            let t1 = report_ids@.take(i + 1);
            let t0 = report_ids@.take(i as int);
            assert(t1 =~= t0.push(report_ids@[i as int]));
            assert forall|u: u128| distinct@.contains(u) <==> t1.contains(u) by {
                if t1.contains(u) && u != report_ids@[i as int] {
                    let j = choose|j: int| 0 <= j < t1.len() && t1[j] == u;
                    assert(t0[j] == u);
                }
                if t0.contains(u) {
                    let j = choose|j: int| 0 <= j < t0.len() && t0[j] == u;
                    assert(t1[j] == u);
                }
                if u == report_ids@[i as int] {
                    assert(t1[i as int] == u);
                }
            }
        }
        i = i + 1;
    }
    proof {
        assert(report_ids@.take(report_ids@.len() as int) =~= report_ids@);
        assert(distinct@.no_duplicates()) by {
            assert forall|a: int, b: int| 0 <= a < distinct@.len() && 0 <= b < distinct@.len() && a != b implies distinct@[a] != distinct@[b] by {
                if a < b {
                    assert(distinct@[a] < distinct@[b]);
                } else {
                    assert(distinct@[b] < distinct@[a]);
                }
            }
        }
        distinct@.unique_seq_to_set();
        assert(distinct@.to_set() =~= report_ids@.to_set());
    }
    if count >= 0 && count as u64 == distinct.len() as u64 {
        Ok(())
    } else {
        Err(IntegrationError::Invalid("report coverage contains an unknown Team report".to_owned()))
    }
}

/// Allowed reads per client per minute.
pub const READS_PER_MINUTE: i64 = 120;

/// Admits a read when the client made fewer than 120 allowed reads in the last minute.
pub fn check_rate_limit(recent: i64) -> (r: Result<(), IntegrationError>)
    ensures
        recent < 120 ==> r is Ok,
        recent >= 120 ==> r == Err::<(), IntegrationError>(IntegrationError::RateLimited),
{
    if recent >= READS_PER_MINUTE {
        Err(IntegrationError::RateLimited)
    } else {
        Ok(())
    }
}

/// Refuses a revocation that changed no client.
pub fn check_revoked(changed: u64) -> (r: Result<(), IntegrationError>)
    ensures
        changed == 0 ==> r == Err::<(), IntegrationError>(IntegrationError::NotFound),
        changed > 0 ==> r is Ok,
{
    if changed == 0 {
        Err(IntegrationError::NotFound)
    } else {
        Ok(())
    }
}

/// Where a client downloads the PDF of build `build_id` of report `report_id`.
pub open spec fn download_url(report_id: u128, build_id: u128) -> Seq<char> {
    "/api/integration/v1/reports/"@ + uuid_display(report_id) + "/builds/"@ + uuid_display(build_id)
        + "/pdf"@
}

/// Where a client downloads the PDF of build `build_id` of report `report_id`.
pub fn build_download_url(report_id: u128, build_id: u128) -> (s: String)
    ensures
        s@ == download_url(report_id, build_id),
{
    let r = uuid_string(report_id);
    let b = uuid_string(build_id);
    let a = concat_str("/api/integration/v1/reports/", r.as_str());
    let c = concat_str(a.as_str(), "/builds/");
    let d = concat_str(c.as_str(), b.as_str());
    concat_str(d.as_str(), "/pdf")
}

/// A directory a client may page through.
#[derive(Copy, Clone, Debug, PartialEq, Eq, Structural)]
pub enum DirectoryResource {
    Students,
    Faculty,
    Programmes,
    Departments,
    Schools,
    CourseRegistrations,
    FacultyRoles,
    DepartmentRoles,
}

/// The resource named `s` in a directory request, if any.
pub open spec fn directory_resource_named(s: Seq<char>) -> Option<DirectoryResource> {
    if s == "students"@ {
        Some(DirectoryResource::Students)
    } else if s == "faculty"@ {
        Some(DirectoryResource::Faculty)
    } else if s == "programmes"@ {
        Some(DirectoryResource::Programmes)
    } else if s == "departments"@ {
        Some(DirectoryResource::Departments)
    } else if s == "schools"@ {
        Some(DirectoryResource::Schools)
    } else if s == "course-registrations"@ {
        Some(DirectoryResource::CourseRegistrations)
    } else if s == "faculty-roles"@ {
        Some(DirectoryResource::FacultyRoles)
    } else if s == "department-roles"@ {
        Some(DirectoryResource::DepartmentRoles)
    } else {
        None
    }
}

/// The identity kind reported for rows of a directory.
pub open spec fn directory_identity_kind(r: DirectoryResource) -> Seq<char> {
    match r {
        DirectoryResource::Students => "reg_no"@,
        DirectoryResource::Faculty => "faculty_id"@,
        DirectoryResource::Programmes => "programme_code"@,
        DirectoryResource::Departments => "department_id"@,
        DirectoryResource::Schools => "school_id"@,
        DirectoryResource::CourseRegistrations => "course_registration"@,
        DirectoryResource::FacultyRoles => "faculty_role"@,
        DirectoryResource::DepartmentRoles => "department_role"@,
    }
}

/// The query that pages through a directory: `$1` is the cursor, `$2` the limit.
pub open spec fn directory_query_text(r: DirectoryResource) -> Seq<char> {
    match r {
        DirectoryResource::Students => "SELECT reg_no AS id,name,email,programme_code,NULL::text AS extra FROM vcap.students WHERE ($1::text IS NULL OR reg_no>$1) ORDER BY reg_no LIMIT $2"@,
        DirectoryResource::Faculty => "SELECT faculty_id AS id,name,email,dept_id::text AS programme_code,designation AS extra FROM vcap.faculty WHERE ($1::text IS NULL OR faculty_id>$1) ORDER BY faculty_id LIMIT $2"@,
        DirectoryResource::Programmes => "SELECT programme_code AS id,NULL::text AS name,NULL::text AS email,NULL::text AS programme_code,hod_id AS extra FROM vcap.programmes WHERE ($1::text IS NULL OR programme_code>$1) ORDER BY programme_code LIMIT $2"@,
        DirectoryResource::Departments => "SELECT department_id::text AS id,NULL::text AS name,NULL::text AS email,NULL::text AS programme_code,NULL::text AS extra FROM vcap.departments WHERE ($1::text IS NULL OR department_id::text>$1) ORDER BY department_id::text LIMIT $2"@,
        DirectoryResource::Schools => "SELECT school_id AS id,NULL::text AS name,NULL::text AS email,NULL::text AS programme_code,NULL::text AS extra FROM vcap.schools WHERE ($1::text IS NULL OR school_id>$1) ORDER BY school_id LIMIT $2"@,
        DirectoryResource::CourseRegistrations => "SELECT student_reg_no||':'||course_id||':'||academic_year||':'||semester AS id,course_id AS name,NULL::text AS email,student_reg_no AS programme_code,academic_year||' / '||semester||COALESCE(' / '||registration_status,'') AS extra FROM vcap.student_course_registrations WHERE ($1::text IS NULL OR student_reg_no||':'||course_id||':'||academic_year||':'||semester>$1) ORDER BY id LIMIT $2"@,
        DirectoryResource::FacultyRoles => "SELECT role_id::text AS id,faculty_id AS name,NULL::text AS email,COALESCE(programme_code,department_id::text,school_id) AS programme_code,role_type AS extra FROM vcap.faculty_roles WHERE ($1::text IS NULL OR role_id::text>$1) ORDER BY role_id::text LIMIT $2"@,
        DirectoryResource::DepartmentRoles => "SELECT id::text AS id,faculty_id AS name,NULL::text AS email,dept_id AS programme_code,role_type AS extra FROM vcap.department_roles WHERE ($1::text IS NULL OR id::text>$1) ORDER BY id LIMIT $2"@,
    }
}

impl DirectoryResource {
    /// The directory named `resource`, or `NotFound` for any other name.
    pub fn parse(resource: &str) -> (r: Result<DirectoryResource, IntegrationError>)
        ensures
            directory_resource_named(resource@) matches Some(d) ==> r == Ok::<DirectoryResource, IntegrationError>(d),
            directory_resource_named(resource@) is None ==> r == Err::<DirectoryResource, IntegrationError>(IntegrationError::NotFound),
    {
        if str_eq(resource, "students") {
            Ok(DirectoryResource::Students)
        } else if str_eq(resource, "faculty") {
            Ok(DirectoryResource::Faculty)
        } else if str_eq(resource, "programmes") {
            Ok(DirectoryResource::Programmes)
        } else if str_eq(resource, "departments") {
            Ok(DirectoryResource::Departments)
        } else if str_eq(resource, "schools") {
            Ok(DirectoryResource::Schools)
        } else if str_eq(resource, "course-registrations") {
            Ok(DirectoryResource::CourseRegistrations)
        } else if str_eq(resource, "faculty-roles") {
            Ok(DirectoryResource::FacultyRoles)
        } else if str_eq(resource, "department-roles") {
            Ok(DirectoryResource::DepartmentRoles)
        } else {
            Err(IntegrationError::NotFound)
        }
    }

    /// The identity kind reported for rows of this directory.
    pub fn identity_kind(self) -> (s: &'static str)
        ensures
            s@ == directory_identity_kind(self),
    {
        match self {
            DirectoryResource::Students => "reg_no",
            DirectoryResource::Faculty => "faculty_id",
            DirectoryResource::Programmes => "programme_code",
            DirectoryResource::Departments => "department_id",
            DirectoryResource::Schools => "school_id",
            DirectoryResource::CourseRegistrations => "course_registration",
            DirectoryResource::FacultyRoles => "faculty_role",
            DirectoryResource::DepartmentRoles => "department_role",
        }
    }

    /// The query that pages through this directory.
    pub fn query(self) -> (s: &'static str)
        ensures
            s@ == directory_query_text(self),
    {
        match self {
            DirectoryResource::Students => "SELECT reg_no AS id,name,email,programme_code,NULL::text AS extra FROM vcap.students WHERE ($1::text IS NULL OR reg_no>$1) ORDER BY reg_no LIMIT $2",
            DirectoryResource::Faculty => "SELECT faculty_id AS id,name,email,dept_id::text AS programme_code,designation AS extra FROM vcap.faculty WHERE ($1::text IS NULL OR faculty_id>$1) ORDER BY faculty_id LIMIT $2",
            DirectoryResource::Programmes => "SELECT programme_code AS id,NULL::text AS name,NULL::text AS email,NULL::text AS programme_code,hod_id AS extra FROM vcap.programmes WHERE ($1::text IS NULL OR programme_code>$1) ORDER BY programme_code LIMIT $2",
            DirectoryResource::Departments => "SELECT department_id::text AS id,NULL::text AS name,NULL::text AS email,NULL::text AS programme_code,NULL::text AS extra FROM vcap.departments WHERE ($1::text IS NULL OR department_id::text>$1) ORDER BY department_id::text LIMIT $2",
            DirectoryResource::Schools => "SELECT school_id AS id,NULL::text AS name,NULL::text AS email,NULL::text AS programme_code,NULL::text AS extra FROM vcap.schools WHERE ($1::text IS NULL OR school_id>$1) ORDER BY school_id LIMIT $2",
            DirectoryResource::CourseRegistrations => "SELECT student_reg_no||':'||course_id||':'||academic_year||':'||semester AS id,course_id AS name,NULL::text AS email,student_reg_no AS programme_code,academic_year||' / '||semester||COALESCE(' / '||registration_status,'') AS extra FROM vcap.student_course_registrations WHERE ($1::text IS NULL OR student_reg_no||':'||course_id||':'||academic_year||':'||semester>$1) ORDER BY id LIMIT $2",
            DirectoryResource::FacultyRoles => "SELECT role_id::text AS id,faculty_id AS name,NULL::text AS email,COALESCE(programme_code,department_id::text,school_id) AS programme_code,role_type AS extra FROM vcap.faculty_roles WHERE ($1::text IS NULL OR role_id::text>$1) ORDER BY role_id::text LIMIT $2",
            DirectoryResource::DepartmentRoles => "SELECT id::text AS id,faculty_id AS name,NULL::text AS email,dept_id AS programme_code,role_type AS extra FROM vcap.department_roles WHERE ($1::text IS NULL OR id::text>$1) ORDER BY id LIMIT $2",
        }
    }
}


} // verus!
