//! Paper teams from an institutional import: which template a team's writers resolve to,
//! which imported assignments resolve to accounts, and how a team is merged into an
//! existing paper team.
use crate::import_catalog::InstitutionError;
use crate::import_review::joined;
use crate::import_support::{
    dominant_index, first_seen, programme_count, resolved_at, tally_programmes,
    unresolved_positions,
};
use crate::import_values::{uuid_display, uuid_string};
use crate::text::{
    concat_str, lemma_seq_lt_total, lemma_seq_lt_transitive, seq_lt, str_eq, str_lt, strictly_ascending,
    string_views,
};
use crate::working_tree::clone_string;
use vstd::prelude::*;

verus! {

/// A conflict whose message is `m`.
pub open spec fn is_conflict_message(e: InstitutionError, m: Seq<char>) -> bool {
    e matches InstitutionError::Conflict(x) && x@ == m
}

/// An invalid-input error whose message is `m`.
pub open spec fn is_invalid_message(e: InstitutionError, m: Seq<char>) -> bool {
    e matches InstitutionError::InvalidInput(x) && x@ == m
}

/// The template chosen for a team and why.
pub struct TemplateResolution {
    pub selected_template_id: u128,
    pub dominant_programme_code: Option<String>,
    pub resolution_method: String,
    /// Each programme with its number of writers, in ascending programme order.
    pub counts: Vec<(String, u64)>,
    pub tie_break: Option<String>,
    pub warnings: Vec<String>,
}

/// The warning for a writer without a linked programme.
pub open spec fn writer_warning(id: u128) -> Seq<char> {
    "writer "@ + uuid_display(id) + " has no linked institutional programme"@
}

/// Warnings for the unresolved writers among `ids`, in order.
pub open spec fn writer_warnings(ids: Seq<u128>, positions: Seq<usize>) -> Seq<Seq<char>> {
    positions.map_values(|p: usize| writer_warning(ids[p as int]))
}

/// The resolution method when the dominant programme maps to a template.
pub open spec fn mapped_method(tie: bool) -> Seq<char> {
    if tie {
        "TIE_FIRST_WRITER"@
    } else {
        "MODE"@
    }
}

/// The programme codes of programme counts, in order.
pub open spec fn count_keys(v: Seq<(String, u64)>) -> Seq<Seq<char>> {
    v.map_values(|c: (String, u64)| c.0@)
}

/// Inserts the count of `key` into counts kept in ascending code order (the key order of
/// a `BTreeMap<String, _>`), unless the code is already there.
fn insert_count(v: &mut Vec<(String, u64)>, key: String, count: u64)
    requires
        strictly_ascending(count_keys(old(v)@)),
    ensures
        strictly_ascending(count_keys(final(v)@)),
        forall|x: Seq<char>|
            count_keys(final(v)@).contains(x) <==> (count_keys(old(v)@).contains(x) || x == key@),
        forall|i: int|
            0 <= i < final(v)@.len() ==> ((#[trigger] final(v)@[i]).0@ == key@ && final(v)@[i].1 == count)
                || exists|j: int| 0 <= j < old(v)@.len() && old(v)@[j].0@ == final(v)@[i].0@ && old(v)@[j].1 == final(v)@[i].1,
{
    let ghost ov = v@;
    let ghost old_keys = count_keys(v@);
    let mut k: usize = 0;
    while k < v.len()
        invariant
            ov == v@,
            old_keys == count_keys(v@),
            strictly_ascending(old_keys),
            k <= v@.len(),
            forall|i: int| 0 <= i < k ==> seq_lt(#[trigger] old_keys[i], key@),
        ensures
            ov == v@,
            k <= v@.len(),
            forall|i: int| 0 <= i < k ==> seq_lt(#[trigger] old_keys[i], key@),
            k < v@.len() ==> !seq_lt(old_keys[k as int], key@),
        decreases v@.len() - k,
    {
        assert(old_keys[k as int] == v@[k as int].0@);
        if !str_lt(v[k].0.as_str(), key.as_str()) {
            break;
        }
        k = k + 1;
    }
    if k < v.len() && str_eq(v[k].0.as_str(), key.as_str()) {
        assert(old_keys[k as int] == key@);
        assert forall|i: int| 0 <= i < v@.len() implies exists|j: int|
            0 <= j < ov.len() && ov[j].0@ == (#[trigger] v@[i]).0@ && ov[j].1 == v@[i].1 by {
            assert(ov[i] == v@[i]);
        }
        return;
    }
    proof {
        if k < old_keys.len() {
            assert(old_keys[k as int] == v@[k as int].0@);
            lemma_seq_lt_total(old_keys[k as int], key@);
            assert(seq_lt(key@, old_keys[k as int]));
            assert forall|j: int| k < j < old_keys.len() implies seq_lt(key@, #[trigger] old_keys[j]) by {
                assert(seq_lt(old_keys[k as int], old_keys[j]));
                lemma_seq_lt_transitive(key@, old_keys[k as int], old_keys[j]);
            }
        }
    }
    let ghost kv = key@;
    v.insert(k, (key, count));
    proof {
        let nk = count_keys(v@);
        assert(v@ =~= ov.insert(k as int, v@[k as int]));
        assert(nk =~= old_keys.insert(k as int, kv));
        assert forall|i: int, j: int| 0 <= i < j < nk.len() implies seq_lt(#[trigger] nk[i], #[trigger] nk[j]) by {
            if j < k {
                assert(nk[i] == old_keys[i] && nk[j] == old_keys[j]);
            } else if j == k {
                assert(nk[i] == old_keys[i]);
            } else if i < k {
                assert(nk[i] == old_keys[i] && nk[j] == old_keys[j - 1]);
                lemma_seq_lt_transitive(old_keys[i], kv, old_keys[j - 1]);
            } else if i == k {
                assert(nk[j] == old_keys[j - 1]);
            } else {
                assert(nk[i] == old_keys[i - 1] && nk[j] == old_keys[j - 1]);
            }
        }
        assert forall|x: Seq<char>| nk.contains(x) <==> (old_keys.contains(x) || x == kv) by {
            if nk.contains(x) {
                let i = choose|i: int| 0 <= i < nk.len() && nk[i] == x;
                if i < k {
                    assert(old_keys[i] == x);
                } else if i > k {
                    assert(old_keys[i - 1] == x);
                }
            }
            if old_keys.contains(x) {
                let i = choose|i: int| 0 <= i < old_keys.len() && old_keys[i] == x;
                if i < k {
                    assert(nk[i] == x);
                } else {
                    assert(nk[i + 1] == x);
                }
            }
            if x == kv {
                assert(nk[k as int] == x);
            }
        }
        assert forall|i: int| 0 <= i < v@.len() implies ((#[trigger] v@[i]).0@ == kv && v@[i].1 == count)
            || exists|j: int| 0 <= j < ov.len() && ov[j].0@ == v@[i].0@ && ov[j].1 == v@[i].1 by {
            if i < k {
                assert(ov[i] == v@[i]);
            } else if i > k {
                assert(ov[i - 1] == v@[i]);
            }
        }
    }
}

/// Resolves the template of a team whose ordered writers `writer_ids` have the linked
/// programmes `programmes` (none, or blank, where unlinked). `mapped` is the template
/// mapped to the dominant programme and `fallback` the institution's fallback template.
/// The dominant programme is the most common one, the earliest writer's deciding a tie;
/// without a mapping the fallback is used, and without that the request is refused.
pub fn resolve_template(
    writer_ids: &Vec<u128>,
    programmes: &Vec<Option<String>>,
    mapped: Option<u128>,
    fallback: Option<u128>,
) -> (r: Result<TemplateResolution, InstitutionError>)
    requires
        writer_ids@.len() == programmes@.len(),
    ensures
        ({
            let ps = programmes@;
            let n = ps.len() as int;
            let some_resolved = exists|i: int| 0 <= i < n && #[trigger] resolved_at(ps, i);
            let tie = exists|i: int, j: int|
                #[trigger] dominant_index(ps, i) && 0 <= j < n && #[trigger] resolved_at(ps, j)
                    && ps[j].unwrap()@ != ps[i].unwrap()@ && programme_count(ps, ps[j].unwrap()@, n)
                    == programme_count(ps, ps[i].unwrap()@, n);
            let unresolved_warnings = writer_warnings(writer_ids@, unresolved_positions(ps, n));
            let effective = if some_resolved {
                mapped
            } else {
                None
            };
            &&& (effective is None && fallback is None) ==> (r matches Err(e) && is_conflict_message(
                e,
                "global fallback template is not configured"@,
            ))
            &&& !(effective is None && fallback is None) ==> (r matches Ok(t) && {
                &&& (t.dominant_programme_code matches Some(d) ==> exists|i: int| dominant_index(ps, i) && ps[i].unwrap()@ == d@)
                &&& (t.dominant_programme_code is None <==> !some_resolved)
                &&& strictly_ascending(count_keys(t.counts@))
                &&& (forall|x: Seq<char>| count_keys(t.counts@).contains(x) <==> first_seen(ps, n).contains(x))
                &&& (forall|k: int| 0 <= k < t.counts@.len() ==> #[trigger] t.counts@[k].1 == programme_count(ps, t.counts@[k].0@, n))
                &&& (tie ==> (t.tie_break matches Some(b) && b@ == "earliest ordered Writer programme"@))
                &&& (!tie ==> t.tie_break is None)
                &&& match effective {
                    Some(m) => {
                        &&& t.selected_template_id == m
                        &&& t.resolution_method@ == mapped_method(tie)
                        &&& string_views(t.warnings@) == unresolved_warnings
                    },
                    None => {
                        &&& t.selected_template_id == fallback->Some_0
                        &&& t.resolution_method@ == "GLOBAL_FALLBACK"@
                        &&& string_views(t.warnings@) == unresolved_warnings.push(
                            if some_resolved {
                                "dominant programme has no template mapping; using global fallback"@
                            } else {
                                "all Writers are unresolved; using global fallback"@
                            },
                        )
                    },
                }
            })
        }),
{
    let tally = tally_programmes(programmes);
    let ghost ps = programmes@;
    let mut warnings: Vec<String> = Vec::new();
    let mut k: usize = 0;
    let ghost positions = unresolved_positions(ps, ps.len() as int);
    let count = programmes.len();
    proof {
        lemma_positions_below(ps, count as int);
    }
    assert(string_views(warnings@) =~= writer_warnings(writer_ids@, positions.take(0)));
    while k < tally.unresolved.len()
        invariant
            tally.unresolved@ == positions,
            positions == unresolved_positions(ps, ps.len() as int),
            ps == programmes@,
            writer_ids@.len() == ps.len(),
            forall|j: int| 0 <= j < positions.len() ==> #[trigger] positions[j] < ps.len(),
            k <= positions.len(),
            string_views(warnings@) == writer_warnings(writer_ids@, positions.take(k as int)),
        decreases positions.len() - k,
    {
        let p = tally.unresolved[k];
        assert(positions[k as int] == p);
        let id_text = uuid_string(writer_ids[p]);
        let a = concat_str("writer ", id_text.as_str());
        let w = concat_str(a.as_str(), " has no linked institutional programme");
        let ghost before = string_views(warnings@);
        warnings.push(w);
        proof {
            assert(string_views(warnings@) =~= before.push(writer_warning(writer_ids@[p as int])));
            assert(positions.take(k + 1) =~= positions.take(k as int).push(p));
        }
        k = k + 1;
    }
    assert(positions.take(positions.len() as int) =~= positions);
    let effective = match &tally.dominant {
        Some(_) => mapped,
        None => None,
    };
    let tie_break = if tally.tie {
        Some("earliest ordered Writer programme".to_owned())
    } else {
        None
    };
    let (selected, method) = match effective {
        Some(m) => (m, if tally.tie {
            "TIE_FIRST_WRITER".to_owned()
        } else {
            "MODE".to_owned()
        }),
        None => {
            let ghost before = string_views(warnings@);
            let note = match &tally.dominant {
                Some(_) => "dominant programme has no template mapping; using global fallback".to_owned(),
                None => "all Writers are unresolved; using global fallback".to_owned(),
            };
            warnings.push(note);
            assert(string_views(warnings@) =~= before.push(note@));
            match fallback {
                Some(f) => (f, "GLOBAL_FALLBACK".to_owned()),
                None => {
                    return Err(
                        InstitutionError::Conflict(
                            "global fallback template is not configured".to_owned(),
                        ),
                    );
                },
            }
        },
    };
    proof {
        if tally.dominant is None {
            assert(forall|i: int| 0 <= i < ps.len() ==> !#[trigger] resolved_at(ps, i));
        }
    }
    let ghost n = ps.len() as int;
    let ghost seen = count_keys(tally.counts@);
    assert(seen == first_seen(ps, n));
    let mut counts: Vec<(String, u64)> = Vec::new();
    let mut c: usize = 0;
    while c < tally.counts.len()
        invariant
            ps == programmes@,
            n == ps.len(),
            seen == count_keys(tally.counts@),
            forall|j: int| 0 <= j < tally.counts@.len() ==> #[trigger] tally.counts@[j].1 == programme_count(ps, tally.counts@[j].0@, n),
            c <= tally.counts@.len(),
            strictly_ascending(count_keys(counts@)),
            forall|x: Seq<char>| count_keys(counts@).contains(x) <==> seen.take(c as int).contains(x),
            forall|j: int| 0 <= j < counts@.len() ==> #[trigger] counts@[j].1 == programme_count(ps, counts@[j].0@, n),
        decreases tally.counts@.len() - c,
    {
        let key = clone_string(&tally.counts[c].0);
        let count = tally.counts[c].1;
        assert(seen[c as int] == key@);
        let ghost before = counts@;
        let ghost kv = key@;
        insert_count(&mut counts, key, count);
        proof {
            assert(seen.take(c + 1) =~= seen.take(c as int).push(seen[c as int]));
            assert forall|x: Seq<char>| count_keys(counts@).contains(x) <==> seen.take(c + 1).contains(x) by {
                assert(count_keys(counts@).contains(x) <==> (count_keys(before).contains(x) || x == kv));
                assert(count_keys(before).contains(x) <==> seen.take(c as int).contains(x));
                if x == kv {
                    assert(seen.take(c + 1)[c as int] == x);
                }
                if seen.take(c + 1).contains(x) {
                    let i = choose|i: int| 0 <= i < c + 1 && #[trigger] seen.take(c + 1)[i] == x;
                    if i < c {
                        assert(seen.take(c as int)[i] == x);
                    }
                }
                if seen.take(c as int).contains(x) {
                    let i = choose|i: int| 0 <= i < c && #[trigger] seen.take(c as int)[i] == x;
                    assert(seen.take(c + 1)[i] == x);
                }
            }
            assert forall|j: int| 0 <= j < counts@.len() implies #[trigger] counts@[j].1 == programme_count(ps, counts@[j].0@, n) by {
                if !(counts@[j].0@ == kv && counts@[j].1 == count) {
                    let i = choose|i: int| 0 <= i < before.len() && #[trigger] before[i].0@ == counts@[j].0@ && before[i].1 == counts@[j].1;
                    assert(before[i].1 == programme_count(ps, before[i].0@, n));
                }
            }
        }
        c = c + 1;
    }
    assert(seen.take(tally.counts@.len() as int) =~= seen);
    Ok(
        TemplateResolution {
            selected_template_id: selected,
            dominant_programme_code: tally.dominant,
            resolution_method: method,
            counts,
            tie_break,
            warnings,
        },
    )
}

proof fn lemma_positions_below(ps: Seq<Option<String>>, n: int)
    requires
        0 <= n <= ps.len(),
        ps.len() <= usize::MAX,
    ensures
        forall|j: int|
            0 <= j < unresolved_positions(ps, n).len() ==> #[trigger] unresolved_positions(ps, n)[j] < n,
    decreases n,
{
    if n > 0 {
        lemma_positions_below(ps, n - 1);
        let prev = unresolved_positions(ps, n - 1);
        let cur = unresolved_positions(ps, n);
        assert forall|j: int| 0 <= j < cur.len() implies #[trigger] cur[j] < n by {
            if j < prev.len() {
                assert(cur[j] == prev[j]);
            } else {
                assert(cur[j] == (n - 1) as usize);
            }
        }
    }
}

/// An imported writer assignment with the account linked to the student, if any.
pub struct WriterLink {
    pub reg_no: String,
    pub user_id: Option<u128>,
    pub role: Option<String>,
    pub is_leader: bool,
}

/// An imported mentor assignment with the account linked to the faculty member, if any.
pub struct MentorLink {
    pub faculty_id: String,
    pub user_id: Option<u128>,
    pub role: Option<String>,
}

/// What an imported team becomes.
pub struct ImportedTeamPlan {
    pub external_team_key: String,
    pub team_name: String,
    pub existing_paper_team_id: Option<u128>,
    pub writer_user_ids: Vec<u128>,
    pub leader_user_id: Option<u128>,
    pub mentor_user_ids: Vec<u128>,
    /// Why the team cannot be materialized yet; empty when it can.
    pub unresolved: Vec<String>,
}

/// The writer assignment resolves to a writer account.
pub open spec fn writer_resolved(w: WriterLink) -> bool {
    w.user_id is Some && (w.role matches Some(r) && r@ == "writer"@)
}

/// The mentor assignment resolves to a mentor account.
pub open spec fn mentor_resolved(m: MentorLink) -> bool {
    m.user_id is Some && (m.role matches Some(r) && r@ == "mentor"@)
}

/// The resolved writers' accounts, in order.
pub open spec fn writer_accounts(ws: Seq<WriterLink>) -> Seq<u128>
    decreases ws.len(),
{
    if ws.len() == 0 {
        Seq::empty()
    } else if writer_resolved(ws.last()) {
        writer_accounts(ws.drop_last()).push(ws.last().user_id->Some_0)
    } else {
        writer_accounts(ws.drop_last())
    }
}

/// The leader: the last resolved writer marked leader.
pub open spec fn leader_account(ws: Seq<WriterLink>) -> Option<u128>
    decreases ws.len(),
{
    if ws.len() == 0 {
        None
    } else if writer_resolved(ws.last()) && ws.last().is_leader {
        Some(ws.last().user_id->Some_0)
    } else {
        leader_account(ws.drop_last())
    }
}

/// One reason for each unresolved writer, in order.
pub open spec fn writer_reasons(ws: Seq<WriterLink>) -> Seq<Seq<char>>
    decreases ws.len(),
{
    if ws.len() == 0 {
        Seq::empty()
    } else if !writer_resolved(ws.last()) {
        writer_reasons(ws.drop_last()).push("UNRESOLVED_WRITER:"@ + ws.last().reg_no@)
    } else {
        writer_reasons(ws.drop_last())
    }
}

/// The resolved mentors' accounts, in order.
pub open spec fn mentor_accounts(ms: Seq<MentorLink>) -> Seq<u128>
    decreases ms.len(),
{
    if ms.len() == 0 {
        Seq::empty()
    } else if mentor_resolved(ms.last()) {
        mentor_accounts(ms.drop_last()).push(ms.last().user_id->Some_0)
    } else {
        mentor_accounts(ms.drop_last())
    }
}

/// One reason for each unresolved mentor, in order.
pub open spec fn mentor_reasons(ms: Seq<MentorLink>) -> Seq<Seq<char>>
    decreases ms.len(),
{
    if ms.len() == 0 {
        Seq::empty()
    } else if !mentor_resolved(ms.last()) {
        mentor_reasons(ms.drop_last()).push("UNRESOLVED_MENTOR:"@ + ms.last().faculty_id@)
    } else {
        mentor_reasons(ms.drop_last())
    }
}

/// Why an imported team cannot be materialized: its unresolved writers, a missing leader,
/// no writer at all, then its unresolved mentors.
pub open spec fn team_reasons(ws: Seq<WriterLink>, ms: Seq<MentorLink>) -> Seq<Seq<char>> {
    writer_reasons(ws) + (if leader_account(ws) is None {
        seq!["MISSING_LEADER"@]
    } else {
        Seq::empty()
    }) + (if writer_accounts(ws).len() == 0 {
        seq!["TEAM_HAS_NO_WRITER"@]
    } else {
        Seq::empty()
    }) + mentor_reasons(ms)
}

fn role_is(role: &Option<String>, wanted: &str) -> (b: bool)
    ensures
        b == (role matches Some(r) && r@ == wanted@),
{
    match role {
        Some(r) => str_eq(r.as_str(), wanted),
        None => false,
    }
}

/// Resolves an imported team's assignments to accounts.
pub fn plan_imported_team(
    external_team_key: String,
    team_name: String,
    existing_paper_team_id: Option<u128>,
    writers: &Vec<WriterLink>,
    mentors: &Vec<MentorLink>,
) -> (p: ImportedTeamPlan)
    ensures
        p.external_team_key@ == external_team_key@,
        p.team_name@ == team_name@,
        p.existing_paper_team_id == existing_paper_team_id,
        p.writer_user_ids@ == writer_accounts(writers@),
        p.leader_user_id == leader_account(writers@),
        p.mentor_user_ids@ == mentor_accounts(mentors@),
        string_views(p.unresolved@) == team_reasons(writers@, mentors@),
{
    let ghost ws = writers@;
    let ghost ms = mentors@;
    let mut writer_ids: Vec<u128> = Vec::new();
    let mut leader: Option<u128> = None;
    let mut reasons: Vec<String> = Vec::new();
    let mut i: usize = 0;
    assert(string_views(reasons@) =~= writer_reasons(ws.take(0)));
    while i < writers.len()
        invariant
            ws == writers@,
            i <= ws.len(),
            writer_ids@ == writer_accounts(ws.take(i as int)),
            leader == leader_account(ws.take(i as int)),
            string_views(reasons@) == writer_reasons(ws.take(i as int)),
        decreases ws.len() - i,
    {
        let w = &writers[i];
        proof {
            assert(ws.take(i + 1).drop_last() =~= ws.take(i as int));
            assert(ws.take(i + 1).last() == *w);
        }
        let ghost before = string_views(reasons@);
        if w.user_id.is_some() && role_is(&w.role, "writer") {
            let user = match w.user_id {
                Some(u) => u,
                None => 0,
            };
            writer_ids.push(user);
            if w.is_leader {
                leader = Some(user);
            }
        } else {
            let reason = concat_str("UNRESOLVED_WRITER:", w.reg_no.as_str());
            reasons.push(reason);
            assert(string_views(reasons@) =~= before.push("UNRESOLVED_WRITER:"@ + w.reg_no@));
        }
        i = i + 1;
    }
    assert(ws.take(ws.len() as int) =~= ws);
    if leader.is_none() {
        let ghost before = string_views(reasons@);
        reasons.push("MISSING_LEADER".to_owned());
        assert(string_views(reasons@) =~= before.push("MISSING_LEADER"@));
    }
    if writer_ids.len() == 0 {
        let ghost before = string_views(reasons@);
        reasons.push("TEAM_HAS_NO_WRITER".to_owned());
        assert(string_views(reasons@) =~= before.push("TEAM_HAS_NO_WRITER"@));
    }
    let ghost head = string_views(reasons@);
    let mut mentor_ids: Vec<u128> = Vec::new();
    let mut j: usize = 0;
    assert(mentor_reasons(ms.take(0)) =~= Seq::<Seq<char>>::empty());
    assert(head =~= head + mentor_reasons(ms.take(0)));
    while j < mentors.len()
        invariant
            ms == mentors@,
            j <= ms.len(),
            mentor_ids@ == mentor_accounts(ms.take(j as int)),
            string_views(reasons@) == head + mentor_reasons(ms.take(j as int)),
        decreases ms.len() - j,
    {
        let m = &mentors[j];
        proof {
            assert(ms.take(j + 1).drop_last() =~= ms.take(j as int));
            assert(ms.take(j + 1).last() == *m);
        }
        let ghost before = string_views(reasons@);
        if m.user_id.is_some() && role_is(&m.role, "mentor") {
            let user = match m.user_id {
                Some(u) => u,
                None => 0,
            };
            mentor_ids.push(user);
        } else {
            reasons.push(concat_str("UNRESOLVED_MENTOR:", m.faculty_id.as_str()));
            assert(string_views(reasons@) =~= before.push("UNRESOLVED_MENTOR:"@ + m.faculty_id@));
            assert(head + mentor_reasons(ms.take(j + 1)) =~= (head + mentor_reasons(ms.take(j as int))).push(
                "UNRESOLVED_MENTOR:"@ + m.faculty_id@,
            ));
        }
        j = j + 1;
    }
    assert(ms.take(ms.len() as int) =~= ms);
    assert(string_views(reasons@) =~= team_reasons(ws, ms));
    ImportedTeamPlan {
        external_team_key,
        team_name,
        existing_paper_team_id,
        writer_user_ids: writer_ids,
        leader_user_id: leader,
        mentor_user_ids: mentor_ids,
        unresolved: reasons,
    }
}

/// Reasons joined into one message.
pub fn join_reasons(reasons: &Vec<String>) -> (s: String)
    ensures
        s@ == joined(string_views(reasons@), "; "@),
{
    let ghost rv = string_views(reasons@);
    let mut out = String::new();
    let mut i: usize = 0;
    assert(rv.take(0) =~= Seq::<Seq<char>>::empty());
    while i < reasons.len()
        invariant
            rv == string_views(reasons@),
            i <= reasons@.len(),
            out@ == joined(rv.take(i as int), "; "@),
        decreases reasons@.len() - i,
    {
        proof {
            assert(rv.take(i + 1).drop_last() =~= rv.take(i as int));
            assert(rv[i as int] == reasons@[i as int]@);
        }
        if i == 0 {
            out = clone_string(&reasons[0]);
            assert(rv.take(1) =~= seq![rv[0]]);
        } else {
            let with_sep = concat_str(out.as_str(), "; ");
            out = concat_str(with_sep.as_str(), reasons[i].as_str());
        }
        i = i + 1;
    }
    assert(rv.take(reasons@.len() as int) =~= rv);
    out
}

/// Checks that an imported team can be merged into its linked paper team by an actor
/// whose role is `actor_role`: the link, the leader, no unresolved assignment, an
/// administrator, in that order. Gives the paper team and the leader.
pub fn check_team_merge(plan: &ImportedTeamPlan, actor_role: Option<&str>) -> (r: Result<
    (u128, u128),
    InstitutionError,
>)
    ensures
        plan.existing_paper_team_id is None ==> (r matches Err(e) && is_invalid_message(
            e,
            "existing Paper Team link is missing"@,
        )),
        plan.existing_paper_team_id is Some && plan.leader_user_id is None ==> (r matches Err(e)
            && is_conflict_message(e, "MISSING_LEADER"@)),
        plan.existing_paper_team_id is Some && plan.leader_user_id is Some && plan.unresolved@.len()
            > 0 ==> (r matches Err(e) && is_conflict_message(
            e,
            joined(string_views(plan.unresolved@), "; "@),
        )),
        plan.existing_paper_team_id is Some && plan.leader_user_id is Some && plan.unresolved@.len()
            == 0 && !(actor_role matches Some(a) && a@ == "admin"@) ==> (r matches Err(e)
            && is_conflict_message(e, "V2 Admin required"@)),
        plan.existing_paper_team_id is Some && plan.leader_user_id is Some && plan.unresolved@.len()
            == 0 && (actor_role matches Some(a) && a@ == "admin"@) ==> r == Ok::<
            (u128, u128),
            InstitutionError,
        >((plan.existing_paper_team_id->Some_0, plan.leader_user_id->Some_0)),
{
    let team = match plan.existing_paper_team_id {
        Some(t) => t,
        None => {
            return Err(InstitutionError::InvalidInput("existing Paper Team link is missing".to_owned()));
        },
    };
    let leader = match plan.leader_user_id {
        Some(l) => l,
        None => {
            return Err(InstitutionError::Conflict("MISSING_LEADER".to_owned()));
        },
    };
    if plan.unresolved.len() > 0 {
        return Err(InstitutionError::Conflict(join_reasons(&plan.unresolved)));
    }
    let admin = match actor_role {
        Some(a) => str_eq(a, "admin"),
        None => false,
    };
    if !admin {
        return Err(InstitutionError::Conflict("V2 Admin required".to_owned()));
    }
    Ok((team, leader))
}

/// A writer's place in a merged team.
#[derive(Copy, Clone, Debug, PartialEq, Eq, Structural)]
pub struct WriterPlace {
    pub user: u128,
    pub is_leader: bool,
    pub writer_order: i32,
}

/// Orders the writers of a merged team: the imported writers first, in their order, then
/// the writers the team keeps, in theirs. Refused when an order does not fit an `i32`.
pub fn merge_writer_orders(writers: &Vec<u128>, leader: u128, retained: &Vec<u128>) -> (r: Result<
    (Vec<WriterPlace>, Vec<(u128, i32)>),
    InstitutionError,
>)
    ensures
        writers@.len() + retained@.len() > i32::MAX ==> (r matches Err(e) && is_invalid_message(
            e,
            "too many Team Writers"@,
        )),
        writers@.len() + retained@.len() <= i32::MAX ==> (r matches Ok((placed, kept)) && {
            &&& placed@.len() == writers@.len()
            &&& (forall|k: int|
                0 <= k < writers@.len() ==> #[trigger] placed@[k] == (WriterPlace {
                    user: writers@[k],
                    is_leader: writers@[k] == leader,
                    writer_order: (k + 1) as i32,
                }))
            &&& kept@.len() == retained@.len()
            &&& (forall|k: int|
                0 <= k < retained@.len() ==> #[trigger] kept@[k] == (
                    retained@[k],
                    (writers@.len() + k + 1) as i32,
                ))
        }),
{
    let mut placed: Vec<WriterPlace> = Vec::new();
    let mut i: usize = 0;
    while i < writers.len()
        invariant
            i <= writers@.len(),
            i <= 0x7fff_ffff,
            placed@.len() == i,
            forall|k: int|
                0 <= k < i ==> #[trigger] placed@[k] == (WriterPlace {
                    user: writers@[k],
                    is_leader: writers@[k] == leader,
                    writer_order: (k + 1) as i32,
                }),
        decreases writers@.len() - i,
    {
        if i >= 0x7fff_ffffusize {
            return Err(InstitutionError::InvalidInput("too many Team Writers".to_owned()));
        }
        let w = writers[i];
        placed.push(WriterPlace { user: w, is_leader: w == leader, writer_order: (i + 1) as i32 });
        i = i + 1;
    }
    let mut kept: Vec<(u128, i32)> = Vec::new();
    let n = writers.len();
    let mut j: usize = 0;
    while j < retained.len()
        invariant
            n == writers@.len(),
            n <= i32::MAX,
            j <= retained@.len(),
            kept@.len() == j,
            placed@.len() == writers@.len(),
            forall|k: int|
                0 <= k < writers@.len() ==> #[trigger] placed@[k] == (WriterPlace {
                    user: writers@[k],
                    is_leader: writers@[k] == leader,
                    writer_order: (k + 1) as i32,
                }),
            j <= 0x7fff_ffff - n,
            forall|k: int| 0 <= k < j ==> #[trigger] kept@[k] == (retained@[k], (n + k + 1) as i32),
        decreases retained@.len() - j,
    {
        if j >= 0x7fff_ffffusize - n {
            return Err(InstitutionError::InvalidInput("too many Team Writers".to_owned()));
        }
        kept.push((retained[j], (n + j + 1) as i32));
        j = j + 1;
    }
    Ok((placed, kept))
}

} // verus!
