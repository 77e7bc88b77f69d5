//! Linking institutional identities (students, faculty, administrators) to accounts by
//! hand, and turning a record entered by hand into an upload.
use crate::import_batch::InstitutionBatchUpload;
use crate::import_catalog::{institution_table_names, strs_view, table_spec, table_spec_of, InstitutionError};
use crate::import_support::identity_table;
use crate::import_values::{payload_view, FieldValue, FieldView, PayloadField};
use crate::team_import::{is_conflict_message, is_invalid_message};
use crate::text::{
    ascii_upper_seq, ascii_uppercase, chars_of, concat_str, str_eq, string_from_chars,
    string_views, trim_chars, trim_spec,
};
use crate::working_tree::clone_string;
use vstd::prelude::*;

verus! {

/// The kind of an external identity as given: trimmed and in ASCII upper case.
pub open spec fn identity_kind_text(external_type: Seq<char>) -> Seq<char> {
    ascii_upper_seq(trim_spec(external_type))
}

/// Normalizes the kind of an external identity.
pub fn identity_kind(external_type: &str) -> (s: String)
    ensures
        s@ == identity_kind_text(external_type@),
{
    let t = trim_chars(&chars_of(external_type));
    let u = ascii_uppercase(&t);
    string_from_chars(&u)
}

/// Checks a manual link of an identity of `kind` (whose accounts need `required_role`,
/// if any) to an account whose role is `role`: the role must match, the account must not
/// be linked to another identity, and the identity must exist, in that order.
pub fn check_identity_link(
    kind: &str,
    required_role: Option<&str>,
    role: Option<&str>,
    linked_elsewhere: bool,
    person_exists: bool,
) -> (r: Result<(), InstitutionError>)
    ensures
        ({
            let role_refused = required_role matches Some(q) && !(role matches Some(x) && x@ == q@);
            &&& role_refused ==> (r matches Err(e) && is_conflict_message(
                e,
                kind@ + " identity requires a V2 "@ + required_role->Some_0@ + " account"@,
            ))
            &&& !role_refused && linked_elsewhere ==> (r matches Err(e) && is_conflict_message(
                e,
                "V2 user is already linked to an institutional identity"@,
            ))
            &&& !role_refused && !linked_elsewhere && !person_exists ==> r == Err::<
                (),
                InstitutionError,
            >(InstitutionError::NotFound)
            &&& !role_refused && !linked_elsewhere && person_exists ==> r is Ok
        }),
{
    match required_role {
        Some(q) => {
            let matches_role = match role {
                Some(x) => str_eq(x, q),
                None => false,
            };
            if !matches_role {
                let a = concat_str(kind, " identity requires a V2 ");
                let b = concat_str(a.as_str(), q);
                return Err(InstitutionError::Conflict(concat_str(b.as_str(), " account")));
            }
        },
        None => {},
    }
    if linked_elsewhere {
        return Err(
            InstitutionError::Conflict(
                "V2 user is already linked to an institutional identity".to_owned(),
            ),
        );
    }
    if !person_exists {
        return Err(InstitutionError::NotFound);
    }
    Ok(())
}

/// The query that tells whether the person with a given identity exists.
pub open spec fn person_query_text(people_table: Seq<char>, id_column: Seq<char>) -> Seq<char> {
    "SELECT EXISTS(SELECT 1 FROM vcap."@ + people_table + " WHERE "@ + id_column + "=$1)"@
}

/// The query that tells whether the person with a given identity exists.
pub fn person_query(people_table: &str, id_column: &str) -> (s: String)
    ensures
        s@ == person_query_text(people_table@, id_column@),
{
    let a = concat_str("SELECT EXISTS(SELECT 1 FROM vcap.", people_table);
    let b = concat_str(a.as_str(), " WHERE ");
    let c = concat_str(b.as_str(), id_column);
    concat_str(c.as_str(), "=$1)")
}

/// The statement that links an identity to an account.
pub open spec fn link_statement_text(links_table: Seq<char>, id_column: Seq<char>) -> Seq<char> {
    "INSERT INTO vcap."@ + links_table + " ("@ + id_column
        + ",user_id,match_method,status,linked_at) VALUES ($1,$2,'MANUAL','LINKED',statement_timestamp()) ON CONFLICT("@
        + id_column
        + ") DO UPDATE SET user_id=EXCLUDED.user_id,match_method='MANUAL',status='LINKED',linked_at=statement_timestamp()"@
}

/// The statement that links an identity to an account.
pub fn link_statement(links_table: &str, id_column: &str) -> (s: String)
    ensures
        s@ == link_statement_text(links_table@, id_column@),
{
    let a = concat_str("INSERT INTO vcap.", links_table);
    let b = concat_str(a.as_str(), " (");
    let c = concat_str(b.as_str(), id_column);
    let d = concat_str(
        c.as_str(),
        ",user_id,match_method,status,linked_at) VALUES ($1,$2,'MANUAL','LINKED',statement_timestamp()) ON CONFLICT(",
    );
    let e = concat_str(d.as_str(), id_column);
    concat_str(
        e.as_str(),
        ") DO UPDATE SET user_id=EXCLUDED.user_id,match_method='MANUAL',status='LINKED',linked_at=statement_timestamp()",
    )
}

/// The statement that unlinks an identity.
pub open spec fn unlink_statement_text(links_table: Seq<char>, id_column: Seq<char>) -> Seq<char> {
    "UPDATE vcap."@ + links_table
        + " SET user_id=NULL,match_method='MANUAL',status='UNLINKED',linked_at=NULL WHERE "@
        + id_column + "=$1"@
}

/// The statement that unlinks an identity.
pub fn unlink_statement(links_table: &str, id_column: &str) -> (s: String)
    ensures
        s@ == unlink_statement_text(links_table@, id_column@),
{
    let a = concat_str("UPDATE vcap.", links_table);
    let b = concat_str(
        a.as_str(),
        " SET user_id=NULL,match_method='MANUAL',status='UNLINKED',linked_at=NULL WHERE ",
    );
    let c = concat_str(b.as_str(), id_column);
    concat_str(c.as_str(), "=$1")
}

/// Checks the removal of an identity link: one that an active imported team uses stays,
/// and one that changed no row did not exist.
pub fn check_identity_unlink(used_by_active_team: bool, affected: u64) -> (r: Result<(), InstitutionError>)
    ensures
        used_by_active_team ==> (r matches Err(e) && is_conflict_message(
            e,
            "identity link is used by an active imported Paper Team and cannot be removed"@,
        )),
        !used_by_active_team && affected == 0 ==> r == Err::<(), InstitutionError>(
            InstitutionError::NotFound,
        ),
        !used_by_active_team && affected > 0 ==> r is Ok,
{
    if used_by_active_team {
        return Err(
            InstitutionError::Conflict(
                "identity link is used by an active imported Paper Team and cannot be removed".to_owned(),
            ),
        );
    }
    if affected == 0 {
        return Err(InstitutionError::NotFound);
    }
    Ok(())
}

/// The text of a field of a record entered by hand: empty for null.
pub open spec fn manual_cell(v: FieldView) -> Seq<char> {
    match v {
        FieldView::Null => Seq::empty(),
        FieldView::Text(s) => s,
        FieldView::Flag(b) => if b {
            "true"@
        } else {
            "false"@
        },
    }
}

/// The CSV bytes `csv::Writer` produces for a header record followed by one data
/// record, or none when it refuses them.
pub uninterp spec fn csv_encoded(headers: Seq<Seq<char>>, record: Seq<Seq<char>>) -> Option<Seq<u8>>;

/// `csv::Writer::from_writer(Vec::new())`, `write_record` of the headers, then of the
/// record, then `into_inner`: the encoded bytes, named; a refusal gives the writer's
/// error text.
#[verifier::external_body]
fn encode_csv(headers: &Vec<String>, record: &Vec<String>) -> (r: Result<Vec<u8>, String>)
    ensures
        match r {
            Ok(b) => csv_encoded(string_views(headers@), string_views(record@)) == Some(b@),
            Err(_) => csv_encoded(string_views(headers@), string_views(record@)) is None,
        },
{
    let mut writer = csv::Writer::from_writer(Vec::new());
    writer.write_record(headers).map_err(|error| error.to_string())?;
    writer.write_record(record).map_err(|error| error.to_string())?;
    writer.into_inner().map_err(|error| error.to_string())
}

/// A record entered by hand is refused: an unknown dataset, no field, or a field the
/// dataset does not have.
pub open spec fn manual_record_refused(dataset: Seq<char>, fields: Seq<(Seq<char>, FieldView)>) -> bool {
    ||| !institution_table_names().contains(dataset)
    ||| fields.len() == 0
    ||| exists|i: int| 0 <= i < fields.len() && !table_spec_of(dataset).columns.contains(#[trigger] fields[i].0)
}

/// Turns a record of `dataset` entered by hand (its fields in order) into a one-row CSV
/// upload for the same validation as a file.
pub fn manual_upload(dataset: &str, fields: &Vec<PayloadField>) -> (r: Result<InstitutionBatchUpload, InstitutionError>)
    ensures
        !institution_table_names().contains(dataset@) ==> (r matches Err(e) && is_invalid_message(
            e,
            "unknown institution dataset"@,
        )),
        institution_table_names().contains(dataset@) && fields@.len() == 0 ==> (r matches Err(e)
            && is_invalid_message(e, "manual record has no fields"@)),
        manual_record_refused(dataset@, payload_view(fields@)) ==> r is Err,
        r matches Ok(u) ==> {
            let fv = payload_view(fields@);
            &&& !manual_record_refused(dataset@, fv)
            &&& u.filename@ == "Manual "@ + dataset@ + ".csv"@
            &&& (u.target_table matches Some(t) && t@ == dataset@)
            &&& Some(u.bytes@) == csv_encoded(
                fv.map_values(|f: (Seq<char>, FieldView)| f.0),
                fv.map_values(|f: (Seq<char>, FieldView)| manual_cell(f.1)),
            )
        },
        !manual_record_refused(dataset@, payload_view(fields@)) && csv_encoded(
            payload_view(fields@).map_values(|f: (Seq<char>, FieldView)| f.0),
            payload_view(fields@).map_values(|f: (Seq<char>, FieldView)| manual_cell(f.1)),
        ) is Some ==> r is Ok,
{
    let tables = crate::import_catalog::institution_tables();
    let mut known = false;
    let mut t: usize = 0;
    while t < tables.len()
        invariant
            strs_view(tables@) == institution_table_names(),
            t <= tables@.len(),
            known == exists|j: int| 0 <= j < t && strs_view(tables@)[j] == dataset@,
        decreases tables@.len() - t,
    {
        assert(strs_view(tables@)[t as int] == tables@[t as int]@);
        if str_eq(tables[t], dataset) {
            known = true;
        }
        t = t + 1;
    }
    if !known {
        return Err(InstitutionError::InvalidInput("unknown institution dataset".to_owned()));
    }
    if fields.len() == 0 {
        return Err(InstitutionError::InvalidInput("manual record has no fields".to_owned()));
    }
    let spec = table_spec(dataset);
    let ghost fv = payload_view(fields@);
    let mut headers: Vec<String> = Vec::new();
    let mut cells: Vec<String> = Vec::new();
    let mut i: usize = 0;
    while i < fields.len()
        invariant
            institution_table_names().contains(dataset@),
            fields@.len() > 0,
            fv == payload_view(fields@),
            strs_view(spec.columns@) == table_spec_of(dataset@).columns,
            i <= fields@.len(),
            forall|j: int| 0 <= j < i ==> table_spec_of(dataset@).columns.contains(#[trigger] fv[j].0),
            string_views(headers@) == fv.take(i as int).map_values(|f: (Seq<char>, FieldView)| f.0),
            string_views(cells@) == fv.take(i as int).map_values(|f: (Seq<char>, FieldView)| manual_cell(f.1)),
        decreases fields@.len() - i,
    {
        let f = &fields[i];
        assert(fv[i as int] == (f.name@, f.value@));
        let mut column = false;
        let mut c: usize = 0;
        while c < spec.columns.len()
            invariant
                strs_view(spec.columns@) == table_spec_of(dataset@).columns,
                c <= spec.columns@.len(),
                column == exists|j: int| 0 <= j < c && strs_view(spec.columns@)[j] == f.name@,
            decreases spec.columns@.len() - c,
        {
            assert(strs_view(spec.columns@)[c as int] == spec.columns@[c as int]@);
            if str_eq(spec.columns[c], f.name.as_str()) {
                column = true;
            }
            c = c + 1;
        }
        if !column {
            let a = concat_str(dataset, ": unknown field ");
            proof {
                assert(!table_spec_of(dataset@).columns.contains(fv[i as int].0));
            }
            return Err(InstitutionError::InvalidInput(concat_str(a.as_str(), f.name.as_str())));
        }
        let cell = match &f.value {
            FieldValue::Null => String::new(),
            FieldValue::Text(s) => clone_string(s),
            FieldValue::Flag(b) => if *b {
                "true".to_owned()
            } else {
                "false".to_owned()
            },
        };
        let ghost hb = string_views(headers@);
        let ghost cb = string_views(cells@);
        headers.push(clone_string(&f.name));
        cells.push(cell);
        proof {
            assert(string_views(headers@) =~= hb.push(f.name@));
            assert(string_views(cells@) =~= cb.push(manual_cell(f.value@)));
            assert(fv.take(i + 1) =~= fv.take(i as int).push(fv[i as int]));
            assert(string_views(headers@) =~= fv.take(i + 1).map_values(|f: (Seq<char>, FieldView)| f.0));
            assert(string_views(cells@) =~= fv.take(i + 1).map_values(|f: (Seq<char>, FieldView)| manual_cell(f.1)));
        }
        i = i + 1;
    }
    assert(fv.take(fields@.len() as int) =~= fv);
    match encode_csv(&headers, &cells) {
        Ok(bytes) => {
            let a = concat_str("Manual ", dataset);
            let filename = concat_str(a.as_str(), ".csv");
            Ok(InstitutionBatchUpload { filename, target_table: Some(dataset.to_owned()), bytes })
        },
        Err(error) => Err(
            InstitutionError::InvalidInput(
                concat_str("could not encode manual record: ", error.as_str()),
            ),
        ),
    }
}

} // verus!
