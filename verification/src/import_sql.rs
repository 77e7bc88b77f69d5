//! The statements that apply one dataset of an institutional import.
use crate::import_catalog::{institution_table_names, ImportMode};
use crate::text::str_eq;
use vstd::prelude::*;

verus! {

/// The statement that updates the stored records of `table` from an array of rows.
pub open spec fn update_query_text(table: Seq<char>) -> Seq<char> {
    if table == "departments"@ {
        "UPDATE vcap.departments record SET department_id=record.department_id FROM jsonb_array_elements($1) item(payload) WHERE record.department_id::text=item.payload->>'department_id'"@
    } else if table == "admins"@ {
        "UPDATE vcap.admins record SET email=CASE WHEN item.payload ? 'email' THEN item.payload->>'email' ELSE record.email END,name=CASE WHEN item.payload ? 'name' THEN item.payload->>'name' ELSE record.name END,pfp=CASE WHEN item.payload ? 'pfp' THEN item.payload->>'pfp' ELSE record.pfp END FROM jsonb_array_elements($1) item(payload) WHERE record.admin_id=item.payload->>'admin_id'"@
    } else if table == "faculty"@ {
        "UPDATE vcap.faculty record SET name=CASE WHEN item.payload ? 'name' THEN item.payload->>'name' ELSE record.name END,email=CASE WHEN item.payload ? 'email' THEN item.payload->>'email' ELSE record.email END,dept_id=CASE WHEN item.payload ? 'dept_id' THEN (item.payload->>'dept_id')::uuid ELSE record.dept_id END,honorific=CASE WHEN item.payload ? 'honorific' THEN item.payload->>'honorific' ELSE record.honorific END,designation=CASE WHEN item.payload ? 'designation' THEN item.payload->>'designation' ELSE record.designation END,status=CASE WHEN item.payload ? 'status' THEN item.payload->>'status' ELSE record.status END FROM jsonb_array_elements($1) item(payload) WHERE record.faculty_id=item.payload->>'faculty_id'"@
    } else if table == "programmes"@ {
        "UPDATE vcap.programmes record SET hod_id=CASE WHEN item.payload ? 'hod_id' THEN item.payload->>'hod_id' ELSE record.hod_id END FROM jsonb_array_elements($1) item(payload) WHERE record.programme_code=item.payload->>'programme_code'"@
    } else if table == "schools"@ {
        "UPDATE vcap.schools record SET school_id=record.school_id FROM jsonb_array_elements($1) item(payload) WHERE record.school_id=item.payload->>'school_id'"@
    } else if table == "students"@ {
        "UPDATE vcap.students record SET name=CASE WHEN item.payload ? 'name' THEN item.payload->>'name' ELSE record.name END,email=CASE WHEN item.payload ? 'email' THEN item.payload->>'email' ELSE record.email END,programme_code=CASE WHEN item.payload ? 'programme_code' THEN item.payload->>'programme_code' ELSE record.programme_code END FROM jsonb_array_elements($1) item(payload) WHERE record.reg_no=item.payload->>'reg_no'"@
    } else if table == "student_course_registrations"@ {
        "UPDATE vcap.student_course_registrations record SET registration_status=CASE WHEN item.payload ? 'registration_status' THEN item.payload->>'registration_status' ELSE record.registration_status END FROM jsonb_array_elements($1) item(payload) WHERE record.student_reg_no=item.payload->>'student_reg_no' AND record.course_id=item.payload->>'course_id' AND record.academic_year=item.payload->>'academic_year' AND record.semester=item.payload->>'semester'"@
    } else if table == "faculty_guide_capacity"@ {
        "UPDATE vcap.faculty_guide_capacity record SET faculty_id=CASE WHEN item.payload ? 'faculty_id' THEN item.payload->>'faculty_id' ELSE record.faculty_id END,academic_year=CASE WHEN item.payload ? 'academic_year' THEN item.payload->>'academic_year' ELSE record.academic_year END,ug_max_projects=CASE WHEN item.payload ? 'ug_max_projects' THEN (item.payload->>'ug_max_projects')::int ELSE record.ug_max_projects END,pg_max_projects=CASE WHEN item.payload ? 'pg_max_projects' THEN (item.payload->>'pg_max_projects')::int ELSE record.pg_max_projects END,integrated_pg_max_projects=CASE WHEN item.payload ? 'integrated_pg_max_projects' THEN (item.payload->>'integrated_pg_max_projects')::int ELSE record.integrated_pg_max_projects END,status=CASE WHEN item.payload ? 'status' THEN item.payload->>'status' ELSE record.status END FROM jsonb_array_elements($1) item(payload) WHERE record.capacity_id::text=item.payload->>'capacity_id'"@
    } else if table == "department_roles"@ {
        "UPDATE vcap.department_roles record SET dept_id=CASE WHEN item.payload ? 'dept_id' THEN item.payload->>'dept_id' ELSE record.dept_id END,role_type=CASE WHEN item.payload ? 'role_type' THEN item.payload->>'role_type' ELSE record.role_type END,faculty_id=CASE WHEN item.payload ? 'faculty_id' THEN item.payload->>'faculty_id' ELSE record.faculty_id END FROM jsonb_array_elements($1) item(payload) WHERE record.id::text=item.payload->>'id'"@
    } else if table == "faculty_roles"@ {
        "UPDATE vcap.faculty_roles record SET faculty_id=CASE WHEN item.payload ? 'faculty_id' THEN item.payload->>'faculty_id' ELSE record.faculty_id END,role_type=CASE WHEN item.payload ? 'role_type' THEN item.payload->>'role_type' ELSE record.role_type END,school_id=CASE WHEN item.payload ? 'school_id' THEN item.payload->>'school_id' ELSE record.school_id END,department_id=CASE WHEN item.payload ? 'department_id' THEN (item.payload->>'department_id')::uuid ELSE record.department_id END,programme_code=CASE WHEN item.payload ? 'programme_code' THEN item.payload->>'programme_code' ELSE record.programme_code END,status=CASE WHEN item.payload ? 'status' THEN item.payload->>'status' ELSE record.status END FROM jsonb_array_elements($1) item(payload) WHERE record.role_id::text=item.payload->>'role_id'"@
    } else if table == "paper_teams"@ {
        "UPDATE vcap.paper_assignment_groups record SET team_name=CASE WHEN item.payload ? 'team_name' THEN item.payload->>'team_name' ELSE record.team_name END,academic_year=CASE WHEN item.payload ? 'academic_year' THEN item.payload->>'academic_year' ELSE record.academic_year END,semester=CASE WHEN item.payload ? 'semester' THEN item.payload->>'semester' ELSE record.semester END,status=CASE WHEN item.payload ? 'status' THEN item.payload->>'status' ELSE record.status END FROM jsonb_array_elements($1) item(payload) WHERE record.external_team_key=item.payload->>'external_team_key'"@
    } else if table == "paper_team_writers"@ {
        "UPDATE vcap.paper_assignment_students record SET writer_order=CASE WHEN item.payload ? 'writer_order' THEN (item.payload->>'writer_order')::int ELSE record.writer_order END,is_leader=CASE WHEN item.payload ? 'is_leader' THEN (item.payload->>'is_leader')::boolean ELSE record.is_leader END FROM jsonb_array_elements($1) item(payload) WHERE record.external_team_key=item.payload->>'external_team_key' AND record.student_reg_no=item.payload->>'student_reg_no'"@
    } else if table == "paper_team_mentors"@ {
        "UPDATE vcap.paper_assignment_mentors record SET faculty_id=record.faculty_id FROM jsonb_array_elements($1) item(payload) WHERE record.external_team_key=item.payload->>'external_team_key' AND record.faculty_id=item.payload->>'faculty_id'"@
    } else {
        Seq::empty()
    }
}

/// The statement that updates the stored records of `table`.
pub fn update_query(table: &str) -> (s: &'static str)
    requires
        institution_table_names().contains(table@),
    ensures
        s@ == update_query_text(table@),
{
    if str_eq(table, "departments") {
        "UPDATE vcap.departments record SET department_id=record.department_id FROM jsonb_array_elements($1) item(payload) WHERE record.department_id::text=item.payload->>'department_id'"
    } else if str_eq(table, "admins") {
        "UPDATE vcap.admins record SET email=CASE WHEN item.payload ? 'email' THEN item.payload->>'email' ELSE record.email END,name=CASE WHEN item.payload ? 'name' THEN item.payload->>'name' ELSE record.name END,pfp=CASE WHEN item.payload ? 'pfp' THEN item.payload->>'pfp' ELSE record.pfp END FROM jsonb_array_elements($1) item(payload) WHERE record.admin_id=item.payload->>'admin_id'"
    } else if str_eq(table, "faculty") {
        "UPDATE vcap.faculty record SET name=CASE WHEN item.payload ? 'name' THEN item.payload->>'name' ELSE record.name END,email=CASE WHEN item.payload ? 'email' THEN item.payload->>'email' ELSE record.email END,dept_id=CASE WHEN item.payload ? 'dept_id' THEN (item.payload->>'dept_id')::uuid ELSE record.dept_id END,honorific=CASE WHEN item.payload ? 'honorific' THEN item.payload->>'honorific' ELSE record.honorific END,designation=CASE WHEN item.payload ? 'designation' THEN item.payload->>'designation' ELSE record.designation END,status=CASE WHEN item.payload ? 'status' THEN item.payload->>'status' ELSE record.status END FROM jsonb_array_elements($1) item(payload) WHERE record.faculty_id=item.payload->>'faculty_id'"
    } else if str_eq(table, "programmes") {
        "UPDATE vcap.programmes record SET hod_id=CASE WHEN item.payload ? 'hod_id' THEN item.payload->>'hod_id' ELSE record.hod_id END FROM jsonb_array_elements($1) item(payload) WHERE record.programme_code=item.payload->>'programme_code'"
    } else if str_eq(table, "schools") {
        "UPDATE vcap.schools record SET school_id=record.school_id FROM jsonb_array_elements($1) item(payload) WHERE record.school_id=item.payload->>'school_id'"
    } else if str_eq(table, "students") {
        "UPDATE vcap.students record SET name=CASE WHEN item.payload ? 'name' THEN item.payload->>'name' ELSE record.name END,email=CASE WHEN item.payload ? 'email' THEN item.payload->>'email' ELSE record.email END,programme_code=CASE WHEN item.payload ? 'programme_code' THEN item.payload->>'programme_code' ELSE record.programme_code END FROM jsonb_array_elements($1) item(payload) WHERE record.reg_no=item.payload->>'reg_no'"
    } else if str_eq(table, "student_course_registrations") {
        "UPDATE vcap.student_course_registrations record SET registration_status=CASE WHEN item.payload ? 'registration_status' THEN item.payload->>'registration_status' ELSE record.registration_status END FROM jsonb_array_elements($1) item(payload) WHERE record.student_reg_no=item.payload->>'student_reg_no' AND record.course_id=item.payload->>'course_id' AND record.academic_year=item.payload->>'academic_year' AND record.semester=item.payload->>'semester'"
    } else if str_eq(table, "faculty_guide_capacity") {
        "UPDATE vcap.faculty_guide_capacity record SET faculty_id=CASE WHEN item.payload ? 'faculty_id' THEN item.payload->>'faculty_id' ELSE record.faculty_id END,academic_year=CASE WHEN item.payload ? 'academic_year' THEN item.payload->>'academic_year' ELSE record.academic_year END,ug_max_projects=CASE WHEN item.payload ? 'ug_max_projects' THEN (item.payload->>'ug_max_projects')::int ELSE record.ug_max_projects END,pg_max_projects=CASE WHEN item.payload ? 'pg_max_projects' THEN (item.payload->>'pg_max_projects')::int ELSE record.pg_max_projects END,integrated_pg_max_projects=CASE WHEN item.payload ? 'integrated_pg_max_projects' THEN (item.payload->>'integrated_pg_max_projects')::int ELSE record.integrated_pg_max_projects END,status=CASE WHEN item.payload ? 'status' THEN item.payload->>'status' ELSE record.status END FROM jsonb_array_elements($1) item(payload) WHERE record.capacity_id::text=item.payload->>'capacity_id'"
    } else if str_eq(table, "department_roles") {
        "UPDATE vcap.department_roles record SET dept_id=CASE WHEN item.payload ? 'dept_id' THEN item.payload->>'dept_id' ELSE record.dept_id END,role_type=CASE WHEN item.payload ? 'role_type' THEN item.payload->>'role_type' ELSE record.role_type END,faculty_id=CASE WHEN item.payload ? 'faculty_id' THEN item.payload->>'faculty_id' ELSE record.faculty_id END FROM jsonb_array_elements($1) item(payload) WHERE record.id::text=item.payload->>'id'"
    } else if str_eq(table, "faculty_roles") {
        "UPDATE vcap.faculty_roles record SET faculty_id=CASE WHEN item.payload ? 'faculty_id' THEN item.payload->>'faculty_id' ELSE record.faculty_id END,role_type=CASE WHEN item.payload ? 'role_type' THEN item.payload->>'role_type' ELSE record.role_type END,school_id=CASE WHEN item.payload ? 'school_id' THEN item.payload->>'school_id' ELSE record.school_id END,department_id=CASE WHEN item.payload ? 'department_id' THEN (item.payload->>'department_id')::uuid ELSE record.department_id END,programme_code=CASE WHEN item.payload ? 'programme_code' THEN item.payload->>'programme_code' ELSE record.programme_code END,status=CASE WHEN item.payload ? 'status' THEN item.payload->>'status' ELSE record.status END FROM jsonb_array_elements($1) item(payload) WHERE record.role_id::text=item.payload->>'role_id'"
    } else if str_eq(table, "paper_teams") {
        "UPDATE vcap.paper_assignment_groups record SET team_name=CASE WHEN item.payload ? 'team_name' THEN item.payload->>'team_name' ELSE record.team_name END,academic_year=CASE WHEN item.payload ? 'academic_year' THEN item.payload->>'academic_year' ELSE record.academic_year END,semester=CASE WHEN item.payload ? 'semester' THEN item.payload->>'semester' ELSE record.semester END,status=CASE WHEN item.payload ? 'status' THEN item.payload->>'status' ELSE record.status END FROM jsonb_array_elements($1) item(payload) WHERE record.external_team_key=item.payload->>'external_team_key'"
    } else if str_eq(table, "paper_team_writers") {
        "UPDATE vcap.paper_assignment_students record SET writer_order=CASE WHEN item.payload ? 'writer_order' THEN (item.payload->>'writer_order')::int ELSE record.writer_order END,is_leader=CASE WHEN item.payload ? 'is_leader' THEN (item.payload->>'is_leader')::boolean ELSE record.is_leader END FROM jsonb_array_elements($1) item(payload) WHERE record.external_team_key=item.payload->>'external_team_key' AND record.student_reg_no=item.payload->>'student_reg_no'"
    } else if str_eq(table, "paper_team_mentors") {
        "UPDATE vcap.paper_assignment_mentors record SET faculty_id=record.faculty_id FROM jsonb_array_elements($1) item(payload) WHERE record.external_team_key=item.payload->>'external_team_key' AND record.faculty_id=item.payload->>'faculty_id'"
    } else {
        proof {
            let i = choose|i: int| 0 <= i < institution_table_names().len() && institution_table_names()[i] == table@;
            assert(false);
        }
        ""
    }
}

/// The statement that deletes the stored records of `table` named by an array of rows.
pub open spec fn delete_query_text(table: Seq<char>) -> Seq<char> {
    if table == "departments"@ {
        "DELETE FROM vcap.departments record USING jsonb_array_elements($1) item(payload) WHERE record.department_id::text=item.payload->>'department_id'"@
    } else if table == "admins"@ {
        "DELETE FROM vcap.admins record USING jsonb_array_elements($1) item(payload) WHERE record.admin_id=item.payload->>'admin_id'"@
    } else if table == "faculty"@ {
        "DELETE FROM vcap.faculty record USING jsonb_array_elements($1) item(payload) WHERE record.faculty_id=item.payload->>'faculty_id'"@
    } else if table == "programmes"@ {
        "DELETE FROM vcap.programmes record USING jsonb_array_elements($1) item(payload) WHERE record.programme_code=item.payload->>'programme_code'"@
    } else if table == "schools"@ {
        "DELETE FROM vcap.schools record USING jsonb_array_elements($1) item(payload) WHERE record.school_id=item.payload->>'school_id'"@
    } else if table == "students"@ {
        "DELETE FROM vcap.students record USING jsonb_array_elements($1) item(payload) WHERE record.reg_no=item.payload->>'reg_no'"@
    } else if table == "student_course_registrations"@ {
        "DELETE FROM vcap.student_course_registrations record USING jsonb_array_elements($1) item(payload) WHERE record.student_reg_no=item.payload->>'student_reg_no' AND record.course_id=item.payload->>'course_id' AND record.academic_year=item.payload->>'academic_year' AND record.semester=item.payload->>'semester'"@
    } else if table == "faculty_guide_capacity"@ {
        "DELETE FROM vcap.faculty_guide_capacity record USING jsonb_array_elements($1) item(payload) WHERE record.capacity_id::text=item.payload->>'capacity_id'"@
    } else if table == "department_roles"@ {
        "DELETE FROM vcap.department_roles record USING jsonb_array_elements($1) item(payload) WHERE record.id::text=item.payload->>'id'"@
    } else if table == "faculty_roles"@ {
        "DELETE FROM vcap.faculty_roles record USING jsonb_array_elements($1) item(payload) WHERE record.role_id::text=item.payload->>'role_id'"@
    } else if table == "paper_teams"@ {
        "DELETE FROM vcap.paper_assignment_groups record USING jsonb_array_elements($1) item(payload) WHERE record.external_team_key=item.payload->>'external_team_key'"@
    } else if table == "paper_team_writers"@ {
        "DELETE FROM vcap.paper_assignment_students record USING jsonb_array_elements($1) item(payload) WHERE record.external_team_key=item.payload->>'external_team_key' AND record.student_reg_no=item.payload->>'student_reg_no'"@
    } else if table == "paper_team_mentors"@ {
        "DELETE FROM vcap.paper_assignment_mentors record USING jsonb_array_elements($1) item(payload) WHERE record.external_team_key=item.payload->>'external_team_key' AND record.faculty_id=item.payload->>'faculty_id'"@
    } else {
        Seq::empty()
    }
}

/// The statement that deletes the stored records of `table`.
pub fn delete_query(table: &str) -> (s: &'static str)
    requires
        institution_table_names().contains(table@),
    ensures
        s@ == delete_query_text(table@),
{
    if str_eq(table, "departments") {
        "DELETE FROM vcap.departments record USING jsonb_array_elements($1) item(payload) WHERE record.department_id::text=item.payload->>'department_id'"
    } else if str_eq(table, "admins") {
        "DELETE FROM vcap.admins record USING jsonb_array_elements($1) item(payload) WHERE record.admin_id=item.payload->>'admin_id'"
    } else if str_eq(table, "faculty") {
        "DELETE FROM vcap.faculty record USING jsonb_array_elements($1) item(payload) WHERE record.faculty_id=item.payload->>'faculty_id'"
    } else if str_eq(table, "programmes") {
        "DELETE FROM vcap.programmes record USING jsonb_array_elements($1) item(payload) WHERE record.programme_code=item.payload->>'programme_code'"
    } else if str_eq(table, "schools") {
        "DELETE FROM vcap.schools record USING jsonb_array_elements($1) item(payload) WHERE record.school_id=item.payload->>'school_id'"
    } else if str_eq(table, "students") {
        "DELETE FROM vcap.students record USING jsonb_array_elements($1) item(payload) WHERE record.reg_no=item.payload->>'reg_no'"
    } else if str_eq(table, "student_course_registrations") {
        "DELETE FROM vcap.student_course_registrations record USING jsonb_array_elements($1) item(payload) WHERE record.student_reg_no=item.payload->>'student_reg_no' AND record.course_id=item.payload->>'course_id' AND record.academic_year=item.payload->>'academic_year' AND record.semester=item.payload->>'semester'"
    } else if str_eq(table, "faculty_guide_capacity") {
        "DELETE FROM vcap.faculty_guide_capacity record USING jsonb_array_elements($1) item(payload) WHERE record.capacity_id::text=item.payload->>'capacity_id'"
    } else if str_eq(table, "department_roles") {
        "DELETE FROM vcap.department_roles record USING jsonb_array_elements($1) item(payload) WHERE record.id::text=item.payload->>'id'"
    } else if str_eq(table, "faculty_roles") {
        "DELETE FROM vcap.faculty_roles record USING jsonb_array_elements($1) item(payload) WHERE record.role_id::text=item.payload->>'role_id'"
    } else if str_eq(table, "paper_teams") {
        "DELETE FROM vcap.paper_assignment_groups record USING jsonb_array_elements($1) item(payload) WHERE record.external_team_key=item.payload->>'external_team_key'"
    } else if str_eq(table, "paper_team_writers") {
        "DELETE FROM vcap.paper_assignment_students record USING jsonb_array_elements($1) item(payload) WHERE record.external_team_key=item.payload->>'external_team_key' AND record.student_reg_no=item.payload->>'student_reg_no'"
    } else if str_eq(table, "paper_team_mentors") {
        "DELETE FROM vcap.paper_assignment_mentors record USING jsonb_array_elements($1) item(payload) WHERE record.external_team_key=item.payload->>'external_team_key' AND record.faculty_id=item.payload->>'faculty_id'"
    } else {
        proof {
            let i = choose|i: int| 0 <= i < institution_table_names().len() && institution_table_names()[i] == table@;
            assert(false);
        }
        ""
    }
}

/// The statement that adds the rows of `table` that are not stored yet.
pub open spec fn insert_query_text(table: Seq<char>) -> Seq<char> {
    if table == "departments"@ {
        "INSERT INTO vcap.departments SELECT x.department_id::uuid FROM jsonb_to_recordset($1) x(department_id text) ON CONFLICT DO NOTHING"@
    } else if table == "admins"@ {
        "INSERT INTO vcap.admins SELECT x.admin_id,x.email,x.name,x.pfp FROM jsonb_to_recordset($1) x(admin_id varchar,email varchar,name varchar,pfp varchar) ON CONFLICT DO NOTHING"@
    } else if table == "faculty"@ {
        "INSERT INTO vcap.faculty SELECT x.faculty_id,x.name,x.email,x.dept_id::uuid,x.honorific,x.designation,x.status FROM jsonb_to_recordset($1) x(faculty_id varchar,name varchar,email varchar,dept_id text,honorific text,designation text,status text) ON CONFLICT DO NOTHING"@
    } else if table == "programmes"@ {
        "INSERT INTO vcap.programmes SELECT x.programme_code,x.hod_id FROM jsonb_to_recordset($1) x(programme_code text,hod_id text) ON CONFLICT DO NOTHING"@
    } else if table == "schools"@ {
        "INSERT INTO vcap.schools SELECT x.school_id FROM jsonb_to_recordset($1) x(school_id text) ON CONFLICT DO NOTHING"@
    } else if table == "students"@ {
        "INSERT INTO vcap.students SELECT x.reg_no,x.name,x.email,x.programme_code FROM jsonb_to_recordset($1) x(reg_no varchar,name varchar,email varchar,programme_code text) ON CONFLICT DO NOTHING"@
    } else if table == "student_course_registrations"@ {
        "INSERT INTO vcap.student_course_registrations SELECT x.student_reg_no,x.course_id,x.academic_year,x.semester,x.registration_status FROM jsonb_to_recordset($1) x(student_reg_no text,course_id text,academic_year text,semester text,registration_status text) ON CONFLICT DO NOTHING"@
    } else if table == "faculty_guide_capacity"@ {
        "INSERT INTO vcap.faculty_guide_capacity SELECT x.capacity_id::uuid,x.faculty_id,x.academic_year,x.ug_max_projects::int,x.pg_max_projects::int,x.integrated_pg_max_projects::int,x.status FROM jsonb_to_recordset($1) x(capacity_id text,faculty_id varchar,academic_year text,ug_max_projects text,pg_max_projects text,integrated_pg_max_projects text,status text) ON CONFLICT DO NOTHING"@
    } else if table == "department_roles"@ {
        "INSERT INTO vcap.department_roles SELECT x.id::int,x.dept_id,x.role_type,x.faculty_id FROM jsonb_to_recordset($1) x(id text,dept_id varchar,role_type varchar,faculty_id varchar) ON CONFLICT DO NOTHING"@
    } else if table == "faculty_roles"@ {
        "INSERT INTO vcap.faculty_roles SELECT x.role_id::uuid,x.faculty_id,x.role_type,x.school_id,x.department_id::uuid,x.programme_code,x.status FROM jsonb_to_recordset($1) x(role_id text,faculty_id varchar,role_type text,school_id text,department_id text,programme_code text,status text) ON CONFLICT DO NOTHING"@
    } else if table == "paper_teams"@ {
        "INSERT INTO vcap.paper_assignment_groups SELECT x.external_team_key,x.team_name,x.academic_year,x.semester,x.status FROM jsonb_to_recordset($1) x(external_team_key text,team_name text,academic_year text,semester text,status text) ON CONFLICT DO NOTHING"@
    } else if table == "paper_team_writers"@ {
        "INSERT INTO vcap.paper_assignment_students SELECT x.external_team_key,x.student_reg_no,x.writer_order::int,x.is_leader FROM jsonb_to_recordset($1) x(external_team_key text,student_reg_no varchar,writer_order text,is_leader boolean) ON CONFLICT DO NOTHING"@
    } else if table == "paper_team_mentors"@ {
        "INSERT INTO vcap.paper_assignment_mentors SELECT x.external_team_key,x.faculty_id FROM jsonb_to_recordset($1) x(external_team_key text,faculty_id varchar) ON CONFLICT DO NOTHING"@
    } else {
        Seq::empty()
    }
}

/// The statement that adds the rows of `table` that are not stored yet.
fn insert_query(table: &str) -> (s: &'static str)
    requires
        institution_table_names().contains(table@),
    ensures
        s@ == insert_query_text(table@),
{
    if str_eq(table, "departments") {
        "INSERT INTO vcap.departments SELECT x.department_id::uuid FROM jsonb_to_recordset($1) x(department_id text) ON CONFLICT DO NOTHING"
    } else if str_eq(table, "admins") {
        "INSERT INTO vcap.admins SELECT x.admin_id,x.email,x.name,x.pfp FROM jsonb_to_recordset($1) x(admin_id varchar,email varchar,name varchar,pfp varchar) ON CONFLICT DO NOTHING"
    } else if str_eq(table, "faculty") {
        "INSERT INTO vcap.faculty SELECT x.faculty_id,x.name,x.email,x.dept_id::uuid,x.honorific,x.designation,x.status FROM jsonb_to_recordset($1) x(faculty_id varchar,name varchar,email varchar,dept_id text,honorific text,designation text,status text) ON CONFLICT DO NOTHING"
    } else if str_eq(table, "programmes") {
        "INSERT INTO vcap.programmes SELECT x.programme_code,x.hod_id FROM jsonb_to_recordset($1) x(programme_code text,hod_id text) ON CONFLICT DO NOTHING"
    } else if str_eq(table, "schools") {
        "INSERT INTO vcap.schools SELECT x.school_id FROM jsonb_to_recordset($1) x(school_id text) ON CONFLICT DO NOTHING"
    } else if str_eq(table, "students") {
        "INSERT INTO vcap.students SELECT x.reg_no,x.name,x.email,x.programme_code FROM jsonb_to_recordset($1) x(reg_no varchar,name varchar,email varchar,programme_code text) ON CONFLICT DO NOTHING"
    } else if str_eq(table, "student_course_registrations") {
        "INSERT INTO vcap.student_course_registrations SELECT x.student_reg_no,x.course_id,x.academic_year,x.semester,x.registration_status FROM jsonb_to_recordset($1) x(student_reg_no text,course_id text,academic_year text,semester text,registration_status text) ON CONFLICT DO NOTHING"
    } else if str_eq(table, "faculty_guide_capacity") {
        "INSERT INTO vcap.faculty_guide_capacity SELECT x.capacity_id::uuid,x.faculty_id,x.academic_year,x.ug_max_projects::int,x.pg_max_projects::int,x.integrated_pg_max_projects::int,x.status FROM jsonb_to_recordset($1) x(capacity_id text,faculty_id varchar,academic_year text,ug_max_projects text,pg_max_projects text,integrated_pg_max_projects text,status text) ON CONFLICT DO NOTHING"
    } else if str_eq(table, "department_roles") {
        "INSERT INTO vcap.department_roles SELECT x.id::int,x.dept_id,x.role_type,x.faculty_id FROM jsonb_to_recordset($1) x(id text,dept_id varchar,role_type varchar,faculty_id varchar) ON CONFLICT DO NOTHING"
    } else if str_eq(table, "faculty_roles") {
        "INSERT INTO vcap.faculty_roles SELECT x.role_id::uuid,x.faculty_id,x.role_type,x.school_id,x.department_id::uuid,x.programme_code,x.status FROM jsonb_to_recordset($1) x(role_id text,faculty_id varchar,role_type text,school_id text,department_id text,programme_code text,status text) ON CONFLICT DO NOTHING"
    } else if str_eq(table, "paper_teams") {
        "INSERT INTO vcap.paper_assignment_groups SELECT x.external_team_key,x.team_name,x.academic_year,x.semester,x.status FROM jsonb_to_recordset($1) x(external_team_key text,team_name text,academic_year text,semester text,status text) ON CONFLICT DO NOTHING"
    } else if str_eq(table, "paper_team_writers") {
        "INSERT INTO vcap.paper_assignment_students SELECT x.external_team_key,x.student_reg_no,x.writer_order::int,x.is_leader FROM jsonb_to_recordset($1) x(external_team_key text,student_reg_no varchar,writer_order text,is_leader boolean) ON CONFLICT DO NOTHING"
    } else if str_eq(table, "paper_team_mentors") {
        "INSERT INTO vcap.paper_assignment_mentors SELECT x.external_team_key,x.faculty_id FROM jsonb_to_recordset($1) x(external_team_key text,faculty_id varchar) ON CONFLICT DO NOTHING"
    } else {
        proof {
            let i = choose|i: int| 0 <= i < institution_table_names().len() && institution_table_names()[i] == table@;
            assert(false);
        }
        ""
    }
}

/// The statement that adds or updates the rows of `table`.
pub open spec fn merge_query_text(table: Seq<char>) -> Seq<char> {
    if table == "departments"@ {
        "INSERT INTO vcap.departments SELECT x.department_id::uuid FROM jsonb_to_recordset($1) x(department_id text) ON CONFLICT DO NOTHING"@
    } else if table == "admins"@ {
        "INSERT INTO vcap.admins SELECT x.admin_id,x.email,x.name,x.pfp FROM jsonb_to_recordset($1) x(admin_id varchar,email varchar,name varchar,pfp varchar) ON CONFLICT(admin_id) DO UPDATE SET email=EXCLUDED.email,name=EXCLUDED.name,pfp=EXCLUDED.pfp"@
    } else if table == "faculty"@ {
        "INSERT INTO vcap.faculty SELECT x.faculty_id,x.name,x.email,x.dept_id::uuid,x.honorific,x.designation,x.status FROM jsonb_to_recordset($1) x(faculty_id varchar,name varchar,email varchar,dept_id text,honorific text,designation text,status text) ON CONFLICT(faculty_id) DO UPDATE SET name=EXCLUDED.name,email=EXCLUDED.email,dept_id=EXCLUDED.dept_id,honorific=EXCLUDED.honorific,designation=EXCLUDED.designation,status=EXCLUDED.status"@
    } else if table == "programmes"@ {
        "INSERT INTO vcap.programmes SELECT x.programme_code,x.hod_id FROM jsonb_to_recordset($1) x(programme_code text,hod_id text) ON CONFLICT(programme_code) DO UPDATE SET hod_id=EXCLUDED.hod_id"@
    } else if table == "schools"@ {
        "INSERT INTO vcap.schools SELECT x.school_id FROM jsonb_to_recordset($1) x(school_id text) ON CONFLICT DO NOTHING"@
    } else if table == "students"@ {
        "INSERT INTO vcap.students SELECT x.reg_no,x.name,x.email,x.programme_code FROM jsonb_to_recordset($1) x(reg_no varchar,name varchar,email varchar,programme_code text) ON CONFLICT(reg_no) DO UPDATE SET name=EXCLUDED.name,email=EXCLUDED.email,programme_code=EXCLUDED.programme_code"@
    } else if table == "student_course_registrations"@ {
        "INSERT INTO vcap.student_course_registrations SELECT x.student_reg_no,x.course_id,x.academic_year,x.semester,x.registration_status FROM jsonb_to_recordset($1) x(student_reg_no text,course_id text,academic_year text,semester text,registration_status text) ON CONFLICT(student_reg_no,course_id,academic_year,semester) DO UPDATE SET registration_status=EXCLUDED.registration_status"@
    } else if table == "faculty_guide_capacity"@ {
        "INSERT INTO vcap.faculty_guide_capacity SELECT x.capacity_id::uuid,x.faculty_id,x.academic_year,x.ug_max_projects::int,x.pg_max_projects::int,x.integrated_pg_max_projects::int,x.status FROM jsonb_to_recordset($1) x(capacity_id text,faculty_id varchar,academic_year text,ug_max_projects text,pg_max_projects text,integrated_pg_max_projects text,status text) ON CONFLICT(capacity_id) DO UPDATE SET faculty_id=EXCLUDED.faculty_id,academic_year=EXCLUDED.academic_year,ug_max_projects=EXCLUDED.ug_max_projects,pg_max_projects=EXCLUDED.pg_max_projects,integrated_pg_max_projects=EXCLUDED.integrated_pg_max_projects,status=EXCLUDED.status"@
    } else if table == "department_roles"@ {
        "INSERT INTO vcap.department_roles SELECT x.id::int,x.dept_id,x.role_type,x.faculty_id FROM jsonb_to_recordset($1) x(id text,dept_id varchar,role_type varchar,faculty_id varchar) ON CONFLICT(id) DO UPDATE SET dept_id=EXCLUDED.dept_id,role_type=EXCLUDED.role_type,faculty_id=EXCLUDED.faculty_id"@
    } else if table == "faculty_roles"@ {
        "INSERT INTO vcap.faculty_roles SELECT x.role_id::uuid,x.faculty_id,x.role_type,x.school_id,x.department_id::uuid,x.programme_code,x.status FROM jsonb_to_recordset($1) x(role_id text,faculty_id varchar,role_type text,school_id text,department_id text,programme_code text,status text) ON CONFLICT(role_id) DO UPDATE SET faculty_id=EXCLUDED.faculty_id,role_type=EXCLUDED.role_type,school_id=EXCLUDED.school_id,department_id=EXCLUDED.department_id,programme_code=EXCLUDED.programme_code,status=EXCLUDED.status"@
    } else if table == "paper_teams"@ {
        "INSERT INTO vcap.paper_assignment_groups SELECT x.external_team_key,x.team_name,x.academic_year,x.semester,x.status FROM jsonb_to_recordset($1) x(external_team_key text,team_name text,academic_year text,semester text,status text) ON CONFLICT(external_team_key) DO UPDATE SET team_name=EXCLUDED.team_name,academic_year=EXCLUDED.academic_year,semester=EXCLUDED.semester,status=EXCLUDED.status"@
    } else if table == "paper_team_writers"@ {
        "INSERT INTO vcap.paper_assignment_students SELECT x.external_team_key,x.student_reg_no,x.writer_order::int,x.is_leader FROM jsonb_to_recordset($1) x(external_team_key text,student_reg_no varchar,writer_order text,is_leader boolean) ON CONFLICT(external_team_key,student_reg_no) DO UPDATE SET writer_order=EXCLUDED.writer_order,is_leader=EXCLUDED.is_leader"@
    } else if table == "paper_team_mentors"@ {
        "INSERT INTO vcap.paper_assignment_mentors SELECT x.external_team_key,x.faculty_id FROM jsonb_to_recordset($1) x(external_team_key text,faculty_id varchar) ON CONFLICT DO NOTHING"@
    } else {
        Seq::empty()
    }
}

/// The statement that adds or updates the rows of `table`.
fn merge_query(table: &str) -> (s: &'static str)
    requires
        institution_table_names().contains(table@),
    ensures
        s@ == merge_query_text(table@),
{
    if str_eq(table, "departments") {
        "INSERT INTO vcap.departments SELECT x.department_id::uuid FROM jsonb_to_recordset($1) x(department_id text) ON CONFLICT DO NOTHING"
    } else if str_eq(table, "admins") {
        "INSERT INTO vcap.admins SELECT x.admin_id,x.email,x.name,x.pfp FROM jsonb_to_recordset($1) x(admin_id varchar,email varchar,name varchar,pfp varchar) ON CONFLICT(admin_id) DO UPDATE SET email=EXCLUDED.email,name=EXCLUDED.name,pfp=EXCLUDED.pfp"
    } else if str_eq(table, "faculty") {
        "INSERT INTO vcap.faculty SELECT x.faculty_id,x.name,x.email,x.dept_id::uuid,x.honorific,x.designation,x.status FROM jsonb_to_recordset($1) x(faculty_id varchar,name varchar,email varchar,dept_id text,honorific text,designation text,status text) ON CONFLICT(faculty_id) DO UPDATE SET name=EXCLUDED.name,email=EXCLUDED.email,dept_id=EXCLUDED.dept_id,honorific=EXCLUDED.honorific,designation=EXCLUDED.designation,status=EXCLUDED.status"
    } else if str_eq(table, "programmes") {
        "INSERT INTO vcap.programmes SELECT x.programme_code,x.hod_id FROM jsonb_to_recordset($1) x(programme_code text,hod_id text) ON CONFLICT(programme_code) DO UPDATE SET hod_id=EXCLUDED.hod_id"
    } else if str_eq(table, "schools") {
        "INSERT INTO vcap.schools SELECT x.school_id FROM jsonb_to_recordset($1) x(school_id text) ON CONFLICT DO NOTHING"
    } else if str_eq(table, "students") {
        "INSERT INTO vcap.students SELECT x.reg_no,x.name,x.email,x.programme_code FROM jsonb_to_recordset($1) x(reg_no varchar,name varchar,email varchar,programme_code text) ON CONFLICT(reg_no) DO UPDATE SET name=EXCLUDED.name,email=EXCLUDED.email,programme_code=EXCLUDED.programme_code"
    } else if str_eq(table, "student_course_registrations") {
        "INSERT INTO vcap.student_course_registrations SELECT x.student_reg_no,x.course_id,x.academic_year,x.semester,x.registration_status FROM jsonb_to_recordset($1) x(student_reg_no text,course_id text,academic_year text,semester text,registration_status text) ON CONFLICT(student_reg_no,course_id,academic_year,semester) DO UPDATE SET registration_status=EXCLUDED.registration_status"
    } else if str_eq(table, "faculty_guide_capacity") {
        "INSERT INTO vcap.faculty_guide_capacity SELECT x.capacity_id::uuid,x.faculty_id,x.academic_year,x.ug_max_projects::int,x.pg_max_projects::int,x.integrated_pg_max_projects::int,x.status FROM jsonb_to_recordset($1) x(capacity_id text,faculty_id varchar,academic_year text,ug_max_projects text,pg_max_projects text,integrated_pg_max_projects text,status text) ON CONFLICT(capacity_id) DO UPDATE SET faculty_id=EXCLUDED.faculty_id,academic_year=EXCLUDED.academic_year,ug_max_projects=EXCLUDED.ug_max_projects,pg_max_projects=EXCLUDED.pg_max_projects,integrated_pg_max_projects=EXCLUDED.integrated_pg_max_projects,status=EXCLUDED.status"
    } else if str_eq(table, "department_roles") {
        "INSERT INTO vcap.department_roles SELECT x.id::int,x.dept_id,x.role_type,x.faculty_id FROM jsonb_to_recordset($1) x(id text,dept_id varchar,role_type varchar,faculty_id varchar) ON CONFLICT(id) DO UPDATE SET dept_id=EXCLUDED.dept_id,role_type=EXCLUDED.role_type,faculty_id=EXCLUDED.faculty_id"
    } else if str_eq(table, "faculty_roles") {
        "INSERT INTO vcap.faculty_roles SELECT x.role_id::uuid,x.faculty_id,x.role_type,x.school_id,x.department_id::uuid,x.programme_code,x.status FROM jsonb_to_recordset($1) x(role_id text,faculty_id varchar,role_type text,school_id text,department_id text,programme_code text,status text) ON CONFLICT(role_id) DO UPDATE SET faculty_id=EXCLUDED.faculty_id,role_type=EXCLUDED.role_type,school_id=EXCLUDED.school_id,department_id=EXCLUDED.department_id,programme_code=EXCLUDED.programme_code,status=EXCLUDED.status"
    } else if str_eq(table, "paper_teams") {
        "INSERT INTO vcap.paper_assignment_groups SELECT x.external_team_key,x.team_name,x.academic_year,x.semester,x.status FROM jsonb_to_recordset($1) x(external_team_key text,team_name text,academic_year text,semester text,status text) ON CONFLICT(external_team_key) DO UPDATE SET team_name=EXCLUDED.team_name,academic_year=EXCLUDED.academic_year,semester=EXCLUDED.semester,status=EXCLUDED.status"
    } else if str_eq(table, "paper_team_writers") {
        "INSERT INTO vcap.paper_assignment_students SELECT x.external_team_key,x.student_reg_no,x.writer_order::int,x.is_leader FROM jsonb_to_recordset($1) x(external_team_key text,student_reg_no varchar,writer_order text,is_leader boolean) ON CONFLICT(external_team_key,student_reg_no) DO UPDATE SET writer_order=EXCLUDED.writer_order,is_leader=EXCLUDED.is_leader"
    } else if str_eq(table, "paper_team_mentors") {
        "INSERT INTO vcap.paper_assignment_mentors SELECT x.external_team_key,x.faculty_id FROM jsonb_to_recordset($1) x(external_team_key text,faculty_id varchar) ON CONFLICT DO NOTHING"
    } else {
        proof {
            let i = choose|i: int| 0 <= i < institution_table_names().len() && institution_table_names()[i] == table@;
            assert(false);
        }
        ""
    }
}

/// The statement that adds the rows of `table`: with `merge`, stored rows are updated
/// too; without it they are left as they are.
pub open spec fn apply_query_text(table: Seq<char>, merge: bool) -> Seq<char> {
    if merge {
        merge_query_text(table)
    } else {
        insert_query_text(table)
    }
}

/// The statement that adds (and, with `merge`, updates) the rows of a known dataset.
pub fn apply_query(table: &str, merge: bool) -> (s: &'static str)
    requires
        institution_table_names().contains(table@),
    ensures
        s@ == apply_query_text(table@, merge),
{
    if merge {
        merge_query(table)
    } else {
        insert_query(table)
    }
}

/// The statement that removes the account links of deleted people, for the
/// datasets that hold people.
pub open spec fn link_delete_text(table: Seq<char>) -> Option<Seq<char>> {
    if table == "students"@ {
        Some("DELETE FROM vcap.student_user_links WHERE reg_no IN (SELECT payload->>'reg_no' FROM jsonb_array_elements($1) item(payload))"@)
    } else if table == "faculty"@ {
        Some("DELETE FROM vcap.faculty_user_links WHERE faculty_id IN (SELECT payload->>'faculty_id' FROM jsonb_array_elements($1) item(payload))"@)
    } else if table == "admins"@ {
        Some("DELETE FROM vcap.admin_user_links WHERE admin_id IN (SELECT payload->>'admin_id' FROM jsonb_array_elements($1) item(payload))"@)
    } else {
        None
    }
}

/// The statement that removes the account links of deleted people, if `table`
/// holds people.
pub fn link_delete_query(table: &str) -> (s: Option<&'static str>)
    ensures
        s matches Some(q) ==> link_delete_text(table@) == Some(q@),
        s is None ==> link_delete_text(table@) is None,
{
    if str_eq(table, "students") {
        Some("DELETE FROM vcap.student_user_links WHERE reg_no IN (SELECT payload->>'reg_no' FROM jsonb_array_elements($1) item(payload))")
    } else if str_eq(table, "faculty") {
        Some("DELETE FROM vcap.faculty_user_links WHERE faculty_id IN (SELECT payload->>'faculty_id' FROM jsonb_array_elements($1) item(payload))")
    } else if str_eq(table, "admins") {
        Some("DELETE FROM vcap.admin_user_links WHERE admin_id IN (SELECT payload->>'admin_id' FROM jsonb_array_elements($1) item(payload))")
    } else {
        None
    }
}

/// The statement that moves the identifier sequence of department roles past
/// the largest stored identifier.
pub open spec fn role_sequence_text() -> Seq<char> {
    "SELECT setval(pg_get_serial_sequence('vcap.department_roles','id'),GREATEST((SELECT COALESCE(max(id),1) FROM vcap.department_roles),1),TRUE)"@
}

/// The main statement for one dataset in one mode: validation and additions
/// insert new rows, a merge inserts or updates, the other two update or delete.
pub open spec fn main_statement_text(table: Seq<char>, mode: ImportMode) -> Seq<char> {
    match mode {
        ImportMode::Merge => apply_query_text(table, true),
        ImportMode::ValidateOnly | ImportMode::AddOnly => apply_query_text(table, false),
        ImportMode::UpdateOnly => update_query_text(table),
        ImportMode::DeleteOnly => delete_query_text(table),
    }
}

/// The statements, in order, that apply the rows of `table` in `mode`, each
/// bound to the same array of rows: the link removal of a deletion first, then
/// the main statement, then, for department roles outside a deletion, the
/// sequence update.
pub open spec fn apply_statements_text(table: Seq<char>, mode: ImportMode) -> Seq<Seq<char>> {
    let links: Seq<Seq<char>> = if mode == ImportMode::DeleteOnly && link_delete_text(table) is Some {
        seq![link_delete_text(table)->0]
    } else {
        seq![]
    };
    let tail: Seq<Seq<char>> = if table == "department_roles"@ && mode != ImportMode::DeleteOnly {
        seq![role_sequence_text()]
    } else {
        seq![]
    };
    links + seq![main_statement_text(table, mode)] + tail
}

/// The statements that apply the rows of a known dataset in one mode.
pub fn apply_statements(table: &str, mode: ImportMode) -> (v: Vec<&'static str>)
    requires
        institution_table_names().contains(table@),
    ensures
        v@.map_values(|q: &'static str| q@) == apply_statements_text(table@, mode),
{
    let mut v: Vec<&'static str> = Vec::new();
    if mode == ImportMode::DeleteOnly {
        if let Some(q) = link_delete_query(table) {
            v.push(q);
        }
    }
    let main = match mode {
        ImportMode::Merge => apply_query(table, true),
        ImportMode::ValidateOnly | ImportMode::AddOnly => apply_query(table, false),
        ImportMode::UpdateOnly => update_query(table),
        ImportMode::DeleteOnly => delete_query(table),
    };
    v.push(main);
    if str_eq(table, "department_roles") && mode != ImportMode::DeleteOnly {
        let q = "SELECT setval(pg_get_serial_sequence('vcap.department_roles','id'),GREATEST((SELECT COALESCE(max(id),1) FROM vcap.department_roles),1),TRUE)";
        v.push(q);
    }
    assert(v@.map_values(|q: &'static str| q@) =~= apply_statements_text(table@, mode));
    v
}

} // verus!
