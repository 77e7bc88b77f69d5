//! The institutional source-of-record catalog: datasets, their columns and keys, import
//! modes and operations, file types and import limits.
use crate::text::{ascii_upper_seq, ascii_uppercase, chars_eq, chars_of, str_eq, trim_chars, trim_spec};
use vstd::prelude::*;

verus! {

/// Why an institutional import was refused.
#[derive(Clone, Debug, PartialEq, Eq)]
pub enum InstitutionError {
    /// The upload, a row or a request is invalid; the message says why.
    InvalidInput(String),
    /// The import, batch or record does not exist.
    NotFound,
    /// The import is in a state that does not allow the request.
    Conflict(String),
}

/// An invalid-input refusal whose message is `m`.
pub open spec fn invalid_input(e: InstitutionError, m: Seq<char>) -> bool {
    e matches InstitutionError::InvalidInput(x) && x@ == m
}

/// How an import treats existing records.
#[derive(Clone, Copy, Debug, PartialEq, Eq, Structural)]
pub enum ImportMode {
    ValidateOnly,
    Merge,
    AddOnly,
    UpdateOnly,
    DeleteOnly,
}

/// Stored name of an import mode.
pub open spec fn import_mode_name(m: ImportMode) -> Seq<char> {
    match m {
        ImportMode::ValidateOnly => "VALIDATE_ONLY"@,
        ImportMode::Merge => "MERGE"@,
        ImportMode::AddOnly => "ADD_ONLY"@,
        ImportMode::UpdateOnly => "UPDATE_ONLY"@,
        ImportMode::DeleteOnly => "DELETE_ONLY"@,
    }
}

/// The mode named by an upper-cased request value; `EDIT` and `DELETE` are accepted
/// aliases.
pub open spec fn import_mode_from_upper(s: Seq<char>) -> Option<ImportMode> {
    if s == "VALIDATE_ONLY"@ {
        Some(ImportMode::ValidateOnly)
    } else if s == "MERGE"@ {
        Some(ImportMode::Merge)
    } else if s == "ADD_ONLY"@ {
        Some(ImportMode::AddOnly)
    } else if s == "UPDATE_ONLY"@ || s == "EDIT"@ {
        Some(ImportMode::UpdateOnly)
    } else if s == "DELETE_ONLY"@ || s == "DELETE"@ {
        Some(ImportMode::DeleteOnly)
    } else {
        None
    }
}

impl ImportMode {
    /// The stored name of the mode.
    pub fn as_str(self) -> (s: &'static str)
        ensures
            s@ == import_mode_name(self),
    {
        match self {
            ImportMode::ValidateOnly => "VALIDATE_ONLY",
            ImportMode::Merge => "MERGE",
            ImportMode::AddOnly => "ADD_ONLY",
            ImportMode::UpdateOnly => "UPDATE_ONLY",
            ImportMode::DeleteOnly => "DELETE_ONLY",
        }
    }

    /// Parses a mode, ignoring ASCII case.
    pub fn parse(value: &str) -> (r: Result<ImportMode, InstitutionError>)
        ensures
            match import_mode_from_upper(ascii_upper_seq(value@)) {
                Some(m) => r == Ok::<ImportMode, InstitutionError>(m),
                None => r matches Err(e) && invalid_input(e, "unknown import mode"@),
            },
    {
        let upper = ascii_uppercase(&chars_of(value));
        if chars_eq(&upper, &chars_of("VALIDATE_ONLY")) {
            Ok(ImportMode::ValidateOnly)
        } else if chars_eq(&upper, &chars_of("MERGE")) {
            Ok(ImportMode::Merge)
        } else if chars_eq(&upper, &chars_of("ADD_ONLY")) {
            Ok(ImportMode::AddOnly)
        } else if chars_eq(&upper, &chars_of("UPDATE_ONLY")) || chars_eq(&upper, &chars_of("EDIT")) {
            Ok(ImportMode::UpdateOnly)
        } else if chars_eq(&upper, &chars_of("DELETE_ONLY")) || chars_eq(&upper, &chars_of("DELETE")) {
            Ok(ImportMode::DeleteOnly)
        } else {
            Err(InstitutionError::InvalidInput("unknown import mode".to_owned()))
        }
    }
}

/// A per-record institutional operation.
#[derive(Clone, Copy, Debug, PartialEq, Eq, Structural)]
pub enum InstitutionOperation {
    Add,
    Edit,
    Delete,
}

/// Stored name of an operation.
pub open spec fn operation_name(o: InstitutionOperation) -> Seq<char> {
    match o {
        InstitutionOperation::Add => "ADD"@,
        InstitutionOperation::Edit => "EDIT"@,
        InstitutionOperation::Delete => "DELETE"@,
    }
}

/// The import mode an operation runs in.
pub open spec fn operation_mode(o: InstitutionOperation) -> ImportMode {
    match o {
        InstitutionOperation::Add => ImportMode::AddOnly,
        InstitutionOperation::Edit => ImportMode::UpdateOnly,
        InstitutionOperation::Delete => ImportMode::DeleteOnly,
    }
}

/// The operation named by a trimmed, upper-cased request value.
pub open spec fn operation_from_upper(s: Seq<char>) -> Option<InstitutionOperation> {
    if s == "ADD"@ {
        Some(InstitutionOperation::Add)
    } else if s == "EDIT"@ {
        Some(InstitutionOperation::Edit)
    } else if s == "DELETE"@ {
        Some(InstitutionOperation::Delete)
    } else {
        None
    }
}

impl InstitutionOperation {
    /// The stored name of the operation.
    pub fn as_str(self) -> (s: &'static str)
        ensures
            s@ == operation_name(self),
    {
        match self {
            InstitutionOperation::Add => "ADD",
            InstitutionOperation::Edit => "EDIT",
            InstitutionOperation::Delete => "DELETE",
        }
    }

    /// The import mode the operation runs in.
    pub fn mode(self) -> (m: ImportMode)
        ensures
            m == operation_mode(self),
    {
        match self {
            InstitutionOperation::Add => ImportMode::AddOnly,
            InstitutionOperation::Edit => ImportMode::UpdateOnly,
            InstitutionOperation::Delete => ImportMode::DeleteOnly,
        }
    }

    /// Parses an operation, ignoring surrounding white space and ASCII case.
    pub fn parse(value: &str) -> (r: Result<InstitutionOperation, InstitutionError>)
        ensures
            match operation_from_upper(ascii_upper_seq(trim_spec(value@))) {
                Some(o) => r == Ok::<InstitutionOperation, InstitutionError>(o),
                None => r matches Err(e) && invalid_input(e, "operation must be ADD, EDIT, or DELETE"@),
            },
    {
        let upper = ascii_uppercase(&trim_chars(&chars_of(value)));
        if chars_eq(&upper, &chars_of("ADD")) {
            Ok(InstitutionOperation::Add)
        } else if chars_eq(&upper, &chars_of("EDIT")) {
            Ok(InstitutionOperation::Edit)
        } else if chars_eq(&upper, &chars_of("DELETE")) {
            Ok(InstitutionOperation::Delete)
        } else {
            Err(InstitutionError::InvalidInput("operation must be ADD, EDIT, or DELETE".to_owned()))
        }
    }
}

/// The supported upload formats.
#[derive(Clone, Copy, Debug, PartialEq, Eq, Structural)]
pub enum ImportFileType {
    Csv,
    Xlsx,
}

/// Stored name of a file type.
pub open spec fn file_type_name(t: ImportFileType) -> Seq<char> {
    match t {
        ImportFileType::Csv => "CSV"@,
        ImportFileType::Xlsx => "XLSX"@,
    }
}

impl ImportFileType {
    /// The stored name of the file type.
    pub fn as_str(self) -> (s: &'static str)
        ensures
            s@ == file_type_name(self),
    {
        match self {
            ImportFileType::Csv => "CSV",
            ImportFileType::Xlsx => "XLSX",
        }
    }
}

/// Bounds that keep parsing of one upload bounded.
#[derive(Clone, Copy, Debug, PartialEq, Eq, Structural)]
pub struct ImportLimits {
    pub max_upload_bytes: usize,
    pub max_worksheets: usize,
    pub max_rows_per_sheet: usize,
    pub max_columns: usize,
    pub max_cell_characters: usize,
}

impl Default for ImportLimits {
    fn default() -> (r: ImportLimits)
        ensures
            r.max_upload_bytes == 32 * 1024 * 1024,
            r.max_worksheets == 20,
            r.max_rows_per_sheet == 100_000,
            r.max_columns == 128,
            r.max_cell_characters == 16_384,
    {
        ImportLimits {
            max_upload_bytes: 32 * 1024 * 1024,
            max_worksheets: 20,
            max_rows_per_sheet: 100_000,
            max_columns: 128,
            max_cell_characters: 16_384,
        }
    }
}

/// Views of string slices.
pub open spec fn strs_view(v: Seq<&str>) -> Seq<Seq<char>> {
    v.map_values(|s: &str| s@)
}

/// The column catalog of a dataset.
#[derive(Clone, Debug)]
pub struct TableSpec {
    pub columns: Vec<&'static str>,
    pub required: Vec<&'static str>,
    pub keys: Vec<&'static str>,
    pub uuids: Vec<&'static str>,
    pub integers: Vec<&'static str>,
    pub emails: Vec<&'static str>,
}

/// The mathematical value of a column catalog.
pub ghost struct TableSpecView {
    pub columns: Seq<Seq<char>>,
    pub required: Seq<Seq<char>>,
    pub keys: Seq<Seq<char>>,
    pub uuids: Seq<Seq<char>>,
    pub integers: Seq<Seq<char>>,
    pub emails: Seq<Seq<char>>,
}

impl View for TableSpec {
    type V = TableSpecView;

    open spec fn view(&self) -> TableSpecView {
        TableSpecView {
            columns: strs_view(self.columns@),
            required: strs_view(self.required@),
            keys: strs_view(self.keys@),
            uuids: strs_view(self.uuids@),
            integers: strs_view(self.integers@),
            emails: strs_view(self.emails@),
        }
    }
}

/// The name of each institutional dataset, in catalog order.
pub open spec fn institution_table_names() -> Seq<Seq<char>> {
    seq!["departments"@, "admins"@, "faculty"@, "programmes"@, "schools"@, "students"@, "student_course_registrations"@, "faculty_guide_capacity"@, "department_roles"@, "faculty_roles"@, "paper_teams"@, "paper_team_writers"@, "paper_team_mentors"@]
}

/// The datasets in the order an import applies them: parents before children.
pub open spec fn apply_order_names() -> Seq<Seq<char>> {
    seq!["departments"@, "schools"@, "admins"@, "faculty"@, "programmes"@, "students"@, "student_course_registrations"@, "faculty_guide_capacity"@, "department_roles"@, "faculty_roles"@, "paper_teams"@, "paper_team_writers"@, "paper_team_mentors"@]
}

/// The columns, required columns, key columns and typed columns of each dataset.
pub open spec fn table_spec_of(table: Seq<char>) -> TableSpecView {
    if table == "departments"@ {
        TableSpecView {
            columns: seq!["department_id"@],
            required: seq!["department_id"@],
            keys: seq!["department_id"@],
            uuids: seq!["department_id"@],
            integers: seq![],
            emails: seq![],
        }
    } else if table == "admins"@ {
        TableSpecView {
            columns: seq!["admin_id"@, "email"@, "name"@, "pfp"@],
            required: seq!["admin_id"@],
            keys: seq!["admin_id"@],
            uuids: seq![],
            integers: seq![],
            emails: seq!["email"@],
        }
    } else if table == "faculty"@ {
        TableSpecView {
            columns: seq!["faculty_id"@, "name"@, "email"@, "dept_id"@, "honorific"@, "designation"@, "status"@],
            required: seq!["faculty_id"@],
            keys: seq!["faculty_id"@],
            uuids: seq!["dept_id"@],
            integers: seq![],
            emails: seq!["email"@],
        }
    } else if table == "programmes"@ {
        TableSpecView {
            columns: seq!["programme_code"@, "hod_id"@],
            required: seq!["programme_code"@],
            keys: seq!["programme_code"@],
            uuids: seq![],
            integers: seq![],
            emails: seq![],
        }
    } else if table == "schools"@ {
        TableSpecView {
            columns: seq!["school_id"@],
            required: seq!["school_id"@],
            keys: seq!["school_id"@],
            uuids: seq![],
            integers: seq![],
            emails: seq![],
        }
    } else if table == "students"@ {
        TableSpecView {
            columns: seq!["reg_no"@, "name"@, "email"@, "programme_code"@],
            required: seq!["reg_no"@],
            keys: seq!["reg_no"@],
            uuids: seq![],
            integers: seq![],
            emails: seq!["email"@],
        }
    } else if table == "student_course_registrations"@ {
        TableSpecView {
            columns: seq!["student_reg_no"@, "course_id"@, "academic_year"@, "semester"@, "registration_status"@],
            required: seq!["student_reg_no"@, "course_id"@, "academic_year"@, "semester"@],
            keys: seq!["student_reg_no"@, "course_id"@, "academic_year"@, "semester"@],
            uuids: seq![],
            integers: seq![],
            emails: seq![],
        }
    } else if table == "faculty_guide_capacity"@ {
        TableSpecView {
            columns: seq!["capacity_id"@, "faculty_id"@, "academic_year"@, "ug_max_projects"@, "pg_max_projects"@, "integrated_pg_max_projects"@, "status"@],
            required: seq!["capacity_id"@],
            keys: seq!["capacity_id"@],
            uuids: seq!["capacity_id"@],
            integers: seq!["ug_max_projects"@, "pg_max_projects"@, "integrated_pg_max_projects"@],
            emails: seq![],
        }
    } else if table == "department_roles"@ {
        TableSpecView {
            columns: seq!["id"@, "dept_id"@, "role_type"@, "faculty_id"@],
            required: seq!["id"@, "dept_id"@],
            keys: seq!["id"@],
            uuids: seq!["dept_id"@],
            integers: seq!["id"@],
            emails: seq![],
        }
    } else if table == "faculty_roles"@ {
        TableSpecView {
            columns: seq!["role_id"@, "faculty_id"@, "role_type"@, "school_id"@, "department_id"@, "programme_code"@, "status"@],
            required: seq!["role_id"@],
            keys: seq!["role_id"@],
            uuids: seq!["role_id"@, "department_id"@],
            integers: seq![],
            emails: seq![],
        }
    } else if table == "paper_teams"@ {
        TableSpecView {
            columns: seq!["external_team_key"@, "team_name"@, "academic_year"@, "semester"@, "status"@],
            required: seq!["external_team_key"@, "team_name"@],
            keys: seq!["external_team_key"@],
            uuids: seq![],
            integers: seq![],
            emails: seq![],
        }
    } else if table == "paper_team_writers"@ {
        TableSpecView {
            columns: seq!["external_team_key"@, "student_reg_no"@, "writer_order"@, "is_leader"@],
            required: seq!["external_team_key"@, "student_reg_no"@, "writer_order"@, "is_leader"@],
            keys: seq!["external_team_key"@, "student_reg_no"@],
            uuids: seq![],
            integers: seq!["writer_order"@],
            emails: seq![],
        }
    } else if table == "paper_team_mentors"@ {
        TableSpecView {
            columns: seq!["external_team_key"@, "faculty_id"@],
            required: seq!["external_team_key"@, "faculty_id"@],
            keys: seq!["external_team_key"@, "faculty_id"@],
            uuids: seq![],
            integers: seq![],
            emails: seq![],
        }
    } else {
        TableSpecView { columns: seq![], required: seq![], keys: seq![], uuids: seq![], integers: seq![], emails: seq![] }
    }
}

/// The datasets, in catalog order.
pub fn institution_tables() -> (v: Vec<&'static str>)
    ensures
        strs_view(v@) == institution_table_names(),
{
    let v = vec!["departments", "admins", "faculty", "programmes", "schools", "students", "student_course_registrations", "faculty_guide_capacity", "department_roles", "faculty_roles", "paper_teams", "paper_team_writers", "paper_team_mentors"];
    assert(strs_view(v@) =~= institution_table_names());
    v
}

/// The datasets in apply order.
pub fn apply_order() -> (v: Vec<&'static str>)
    ensures
        strs_view(v@) == apply_order_names(),
{
    let v = vec!["departments", "schools", "admins", "faculty", "programmes", "students", "student_course_registrations", "faculty_guide_capacity", "department_roles", "faculty_roles", "paper_teams", "paper_team_writers", "paper_team_mentors"];
    assert(strs_view(v@) =~= apply_order_names());
    v
}

fn make_spec(
    columns: Vec<&'static str>,
    required: Vec<&'static str>,
    keys: Vec<&'static str>,
    uuids: Vec<&'static str>,
    integers: Vec<&'static str>,
    emails: Vec<&'static str>,
) -> (s: TableSpec)
    ensures
        s@ == (TableSpecView { columns: strs_view(columns@), required: strs_view(required@), keys: strs_view(keys@), uuids: strs_view(uuids@), integers: strs_view(integers@), emails: strs_view(emails@) }),
{
    TableSpec { columns, required, keys, uuids, integers, emails }
}

/// The column catalog of a known dataset.
pub fn table_spec(table: &str) -> (s: TableSpec)
    requires
        institution_table_names().contains(table@),
    ensures
        s@ == table_spec_of(table@),
{
    if str_eq(table, "departments") {
        let s = make_spec(vec!["department_id"], vec!["department_id"], vec!["department_id"], vec!["department_id"], Vec::new(), Vec::new());
        assert(s@.columns =~= table_spec_of(table@).columns);
        assert(s@.required =~= table_spec_of(table@).required);
        assert(s@.keys =~= table_spec_of(table@).keys);
        assert(s@.uuids =~= table_spec_of(table@).uuids);
        assert(s@.integers =~= table_spec_of(table@).integers);
        assert(s@.emails =~= table_spec_of(table@).emails);
        return s;
    }
    if str_eq(table, "admins") {
        let s = make_spec(vec!["admin_id", "email", "name", "pfp"], vec!["admin_id"], vec!["admin_id"], Vec::new(), Vec::new(), vec!["email"]);
        assert(s@.columns =~= table_spec_of(table@).columns);
        assert(s@.required =~= table_spec_of(table@).required);
        assert(s@.keys =~= table_spec_of(table@).keys);
        assert(s@.uuids =~= table_spec_of(table@).uuids);
        assert(s@.integers =~= table_spec_of(table@).integers);
        assert(s@.emails =~= table_spec_of(table@).emails);
        return s;
    }
    if str_eq(table, "faculty") {
        let s = make_spec(vec!["faculty_id", "name", "email", "dept_id", "honorific", "designation", "status"], vec!["faculty_id"], vec!["faculty_id"], vec!["dept_id"], Vec::new(), vec!["email"]);
        assert(s@.columns =~= table_spec_of(table@).columns);
        assert(s@.required =~= table_spec_of(table@).required);
        assert(s@.keys =~= table_spec_of(table@).keys);
        assert(s@.uuids =~= table_spec_of(table@).uuids);
        assert(s@.integers =~= table_spec_of(table@).integers);
        assert(s@.emails =~= table_spec_of(table@).emails);
        return s;
    }
    if str_eq(table, "programmes") {
        let s = make_spec(vec!["programme_code", "hod_id"], vec!["programme_code"], vec!["programme_code"], Vec::new(), Vec::new(), Vec::new());
        assert(s@.columns =~= table_spec_of(table@).columns);
        assert(s@.required =~= table_spec_of(table@).required);
        assert(s@.keys =~= table_spec_of(table@).keys);
        assert(s@.uuids =~= table_spec_of(table@).uuids);
        assert(s@.integers =~= table_spec_of(table@).integers);
        assert(s@.emails =~= table_spec_of(table@).emails);
        return s;
    }
    if str_eq(table, "schools") {
        let s = make_spec(vec!["school_id"], vec!["school_id"], vec!["school_id"], Vec::new(), Vec::new(), Vec::new());
        assert(s@.columns =~= table_spec_of(table@).columns);
        assert(s@.required =~= table_spec_of(table@).required);
        assert(s@.keys =~= table_spec_of(table@).keys);
        assert(s@.uuids =~= table_spec_of(table@).uuids);
        assert(s@.integers =~= table_spec_of(table@).integers);
        assert(s@.emails =~= table_spec_of(table@).emails);
        return s;
    }
    if str_eq(table, "students") {
        let s = make_spec(vec!["reg_no", "name", "email", "programme_code"], vec!["reg_no"], vec!["reg_no"], Vec::new(), Vec::new(), vec!["email"]);
        assert(s@.columns =~= table_spec_of(table@).columns);
        assert(s@.required =~= table_spec_of(table@).required);
        assert(s@.keys =~= table_spec_of(table@).keys);
        assert(s@.uuids =~= table_spec_of(table@).uuids);
        assert(s@.integers =~= table_spec_of(table@).integers);
        assert(s@.emails =~= table_spec_of(table@).emails);
        return s;
    }
    if str_eq(table, "student_course_registrations") {
        let s = make_spec(vec!["student_reg_no", "course_id", "academic_year", "semester", "registration_status"], vec!["student_reg_no", "course_id", "academic_year", "semester"], vec!["student_reg_no", "course_id", "academic_year", "semester"], Vec::new(), Vec::new(), Vec::new());
        assert(s@.columns =~= table_spec_of(table@).columns);
        assert(s@.required =~= table_spec_of(table@).required);
        assert(s@.keys =~= table_spec_of(table@).keys);
        assert(s@.uuids =~= table_spec_of(table@).uuids);
        assert(s@.integers =~= table_spec_of(table@).integers);
        assert(s@.emails =~= table_spec_of(table@).emails);
        return s;
    }
    if str_eq(table, "faculty_guide_capacity") {
        let s = make_spec(vec!["capacity_id", "faculty_id", "academic_year", "ug_max_projects", "pg_max_projects", "integrated_pg_max_projects", "status"], vec!["capacity_id"], vec!["capacity_id"], vec!["capacity_id"], vec!["ug_max_projects", "pg_max_projects", "integrated_pg_max_projects"], Vec::new());
        assert(s@.columns =~= table_spec_of(table@).columns);
        assert(s@.required =~= table_spec_of(table@).required);
        assert(s@.keys =~= table_spec_of(table@).keys);
        assert(s@.uuids =~= table_spec_of(table@).uuids);
        assert(s@.integers =~= table_spec_of(table@).integers);
        assert(s@.emails =~= table_spec_of(table@).emails);
        return s;
    }
    if str_eq(table, "department_roles") {
        let s = make_spec(vec!["id", "dept_id", "role_type", "faculty_id"], vec!["id", "dept_id"], vec!["id"], vec!["dept_id"], vec!["id"], Vec::new());
        assert(s@.columns =~= table_spec_of(table@).columns);
        assert(s@.required =~= table_spec_of(table@).required);
        assert(s@.keys =~= table_spec_of(table@).keys);
        assert(s@.uuids =~= table_spec_of(table@).uuids);
        assert(s@.integers =~= table_spec_of(table@).integers);
        assert(s@.emails =~= table_spec_of(table@).emails);
        return s;
    }
    if str_eq(table, "faculty_roles") {
        let s = make_spec(vec!["role_id", "faculty_id", "role_type", "school_id", "department_id", "programme_code", "status"], vec!["role_id"], vec!["role_id"], vec!["role_id", "department_id"], Vec::new(), Vec::new());
        assert(s@.columns =~= table_spec_of(table@).columns);
        assert(s@.required =~= table_spec_of(table@).required);
        assert(s@.keys =~= table_spec_of(table@).keys);
        assert(s@.uuids =~= table_spec_of(table@).uuids);
        assert(s@.integers =~= table_spec_of(table@).integers);
        assert(s@.emails =~= table_spec_of(table@).emails);
        return s;
    }
    if str_eq(table, "paper_teams") {
        let s = make_spec(vec!["external_team_key", "team_name", "academic_year", "semester", "status"], vec!["external_team_key", "team_name"], vec!["external_team_key"], Vec::new(), Vec::new(), Vec::new());
        assert(s@.columns =~= table_spec_of(table@).columns);
        assert(s@.required =~= table_spec_of(table@).required);
        assert(s@.keys =~= table_spec_of(table@).keys);
        assert(s@.uuids =~= table_spec_of(table@).uuids);
        assert(s@.integers =~= table_spec_of(table@).integers);
        assert(s@.emails =~= table_spec_of(table@).emails);
        return s;
    }
    if str_eq(table, "paper_team_writers") {
        let s = make_spec(vec!["external_team_key", "student_reg_no", "writer_order", "is_leader"], vec!["external_team_key", "student_reg_no", "writer_order", "is_leader"], vec!["external_team_key", "student_reg_no"], Vec::new(), vec!["writer_order"], Vec::new());
        assert(s@.columns =~= table_spec_of(table@).columns);
        assert(s@.required =~= table_spec_of(table@).required);
        assert(s@.keys =~= table_spec_of(table@).keys);
        assert(s@.uuids =~= table_spec_of(table@).uuids);
        assert(s@.integers =~= table_spec_of(table@).integers);
        assert(s@.emails =~= table_spec_of(table@).emails);
        return s;
    }
    if str_eq(table, "paper_team_mentors") {
        let s = make_spec(vec!["external_team_key", "faculty_id"], vec!["external_team_key", "faculty_id"], vec!["external_team_key", "faculty_id"], Vec::new(), Vec::new(), Vec::new());
        assert(s@.columns =~= table_spec_of(table@).columns);
        assert(s@.required =~= table_spec_of(table@).required);
        assert(s@.keys =~= table_spec_of(table@).keys);
        assert(s@.uuids =~= table_spec_of(table@).uuids);
        assert(s@.integers =~= table_spec_of(table@).integers);
        assert(s@.emails =~= table_spec_of(table@).emails);
        return s;
    }
    proof {
        let i = choose|i: int| 0 <= i < institution_table_names().len() && institution_table_names()[i] == table@;
        assert(false);
    }
    make_spec(Vec::new(), Vec::new(), Vec::new(), Vec::new(), Vec::new(), Vec::new())
}
} // verus!
