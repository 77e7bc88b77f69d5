//! Small rules around institutional imports: page windows, filters, hints for row
//! errors, identity link tables, and the programme that decides a Team's template.
use crate::import_catalog::{invalid_input, InstitutionError};
use crate::text::{chars_of, str_eq, string_from_chars, trim_chars, trim_spec};
use vstd::prelude::*;

verus! {

/// The page size used for a requested size: 50 by default, else within 1 to 100.
pub open spec fn spec_page_limit(limit: i64) -> i64 {
    if limit == 0 {
        50
    } else if limit < 1 {
        1
    } else if limit > 100 {
        100
    } else {
        limit
    }
}

/// The page size used for a requested size.
pub fn page_limit(limit: i64) -> (r: i64)
    ensures
        r == spec_page_limit(limit),
{
    if limit == 0 {
        50
    } else if limit < 1 {
        1
    } else if limit > 100 {
        100
    } else {
        limit
    }
}

/// The window of a page request: the page size, the page (at least 1), and the offset of
/// its first item, saturating at `i64::MAX`.
pub fn page_window(limit: i64, page: i64) -> (r: (i64, i64, i64))
    ensures
        r.0 == spec_page_limit(limit),
        r.1 == if page < 1 { 1 } else { page },
        r.2 == if (r.1 - 1) * r.0 > i64::MAX { i64::MAX as int } else { (r.1 - 1) * r.0 },
{
    let size = page_limit(limit);
    let page = if page < 1 { 1 } else { page };
    let pages_before = page - 1;
    let offset = if pages_before > 0 && pages_before > i64::MAX / size {
        i64::MAX
    } else {
        proof {
            assert(pages_before * size <= i64::MAX) by (nonlinear_arith)
                requires
                    0 <= pages_before,
                    1 <= size,
                    pages_before == 0 || pages_before <= i64::MAX / size,
            ;
            assert(pages_before * size >= 0) by (nonlinear_arith)
                requires
                    0 <= pages_before,
                    1 <= size,
            ;
        }
        pages_before * size
    };
    proof {
        if pages_before > 0 && pages_before > i64::MAX / size {
            assert(pages_before * size > i64::MAX) by (nonlinear_arith)
                requires
                    pages_before > i64::MAX / size,
                    1 <= size,
            ;
        }
    }
    (size, page, offset)
}

/// Whether more items follow a page: its offset plus the items returned (saturating)
/// stays below the total.
pub fn has_more(offset: i64, returned: i64, total: i64) -> (b: bool)
    requires
        offset >= 0,
        returned >= 0,
    ensures
        b == ((if offset + returned > i64::MAX { i64::MAX as int } else { offset + returned }) < total),
{
    let end = if offset > i64::MAX - returned { i64::MAX } else { offset + returned };
    end < total
}

/// A search or filter value: trimmed, and absent when nothing is left.
pub fn clean_filter(value: Option<&str>) -> (r: Option<String>)
    ensures
        match value {
            None => r is None,
            Some(v) => if trim_spec(v@).len() == 0 {
                r is None
            } else {
                r matches Some(s) && s@ == trim_spec(v@)
            },
        },
{
    match value {
        None => None,
        Some(v) => {
            let t = trim_chars(&chars_of(v));
            if t.len() == 0 {
                None
            } else {
                Some(string_from_chars(&t))
            }
        },
    }
}

/// A page request of import jobs or batches.
#[derive(Clone, Debug, Default)]
pub struct ImportJobPageFilter {
    pub limit: i64,
    pub page: i64,
    pub search: Option<String>,
    pub status: Option<String>,
    pub mode: Option<String>,
    pub file_type: Option<String>,
}

/// The hint shown with a row error code, if there is one.
pub open spec fn suggestion_for(code: Option<Seq<char>>) -> Option<Seq<char>> {
    match code {
        Some(c) => if c == "INVALID_FK"@ {
            Some("Add the referenced parent to this batch or correct the identifier."@)
        } else if c == "NOT_FOUND"@ {
            Some("Check the canonical key; Edit and Delete never create missing records."@)
        } else if c == "DELETE_BLOCKED_DEPENDENCY"@ {
            Some("Remove or archive the listed relationship explicitly, then review the delete again."@)
        } else if c == "INVALID_EMAIL"@ {
            Some("Use a complete institutional email address."@)
        } else if c == "MISSING_VALUE"@ {
            Some("Fill in the named required field."@)
        } else if c == "DUPLICATE_KEY"@ {
            Some("Keep one row for this canonical key in the batch."@)
        } else {
            None
        },
        None => None,
    }
}

/// The hint shown with a row error code.
pub fn friendly_suggestion(code: Option<&str>) -> (r: Option<&'static str>)
    ensures
        match r {
            Some(s) => suggestion_for(
                match code {
                    Some(c) => Some(c@),
                    None => None,
                },
            ) == Some(s@),
            None => suggestion_for(
                match code {
                    Some(c) => Some(c@),
                    None => None,
                },
            ) is None,
        },
{
    match code {
        None => None,
        Some(c) => if str_eq(c, "INVALID_FK") {
            Some("Add the referenced parent to this batch or correct the identifier.")
        } else if str_eq(c, "NOT_FOUND") {
            Some("Check the canonical key; Edit and Delete never create missing records.")
        } else if str_eq(c, "DELETE_BLOCKED_DEPENDENCY") {
            Some("Remove or archive the listed relationship explicitly, then review the delete again.")
        } else if str_eq(c, "INVALID_EMAIL") {
            Some("Use a complete institutional email address.")
        } else if str_eq(c, "MISSING_VALUE") {
            Some("Fill in the named required field.")
        } else if str_eq(c, "DUPLICATE_KEY") {
            Some("Keep one row for this canonical key in the batch.")
        } else {
            None
        },
    }
}

/// Where the identities of an external person type live: its dataset, key column, link
/// table, and the project role the person takes, if any.
pub open spec fn identity_table_of(external_type: Seq<char>) -> Option<(Seq<char>, Seq<char>, Seq<char>, Option<Seq<char>>)> {
    if external_type == "STUDENT"@ {
        Some(("students"@, "reg_no"@, "student_user_links"@, Some("writer"@)))
    } else if external_type == "FACULTY"@ {
        Some(("faculty"@, "faculty_id"@, "faculty_user_links"@, Some("mentor"@)))
    } else if external_type == "ADMIN"@ {
        Some(("admins"@, "admin_id"@, "admin_user_links"@, None))
    } else {
        None
    }
}

/// Where the identities of an external person type live.
pub fn identity_table(external_type: &str) -> (r: Result<(&'static str, &'static str, &'static str, Option<&'static str>), InstitutionError>)
    ensures
        match identity_table_of(external_type@) {
            Some((t, k, l, role)) => r matches Ok(v) && v.0@ == t && v.1@ == k && v.2@ == l && match v.3 {
                Some(x) => role == Some(x@),
                None => role is None,
            },
            None => r matches Err(e) && invalid_input(e, "external type must be STUDENT, FACULTY, or ADMIN"@),
        },
{
    if str_eq(external_type, "STUDENT") {
        Ok(("students", "reg_no", "student_user_links", Some("writer")))
    } else if str_eq(external_type, "FACULTY") {
        Ok(("faculty", "faculty_id", "faculty_user_links", Some("mentor")))
    } else if str_eq(external_type, "ADMIN") {
        Ok(("admins", "admin_id", "admin_user_links", None))
    } else {
        Err(InstitutionError::InvalidInput("external type must be STUDENT, FACULTY, or ADMIN".to_owned()))
    }
}

/// Whether writer `i` has a programme: a linked programme with non-blank text.
pub open spec fn resolved_at(ps: Seq<Option<String>>, i: int) -> bool {
    ps[i] matches Some(p) && trim_spec(p@).len() > 0
}

/// Number of writers among the first `n` whose programme is `p`.
pub open spec fn programme_count(ps: Seq<Option<String>>, p: Seq<char>, n: int) -> nat
    decreases n,
{
    if n <= 0 {
        0
    } else {
        programme_count(ps, p, n - 1) + if resolved_at(ps, n - 1) && ps[n - 1].unwrap()@ == p {
            1nat
        } else {
            0nat
        }
    }
}

/// Whether writer `i`'s programme is most common among the writers.
pub open spec fn most_common_at(ps: Seq<Option<String>>, i: int) -> bool {
    &&& 0 <= i < ps.len()
    &&& resolved_at(ps, i)
    &&& forall|j: int|
        0 <= j < ps.len() && #[trigger] resolved_at(ps, j) ==> programme_count(ps, ps[j].unwrap()@, ps.len() as int)
            <= programme_count(ps, ps[i].unwrap()@, ps.len() as int)
}

/// The dominant programme of ordered writers: the most common programme, and among
/// equally common ones the programme of the earliest writer.
pub open spec fn dominant_index(ps: Seq<Option<String>>, i: int) -> bool {
    most_common_at(ps, i) && forall|j: int| 0 <= j < i ==> !#[trigger] most_common_at(ps, j)
}

/// Positions, among the first `n` writers, of those without a programme, in order.
pub open spec fn unresolved_positions(ps: Seq<Option<String>>, n: int) -> Seq<usize>
    decreases n,
{
    if n <= 0 {
        Seq::empty()
    } else if !resolved_at(ps, n - 1) {
        unresolved_positions(ps, n - 1).push((n - 1) as usize)
    } else {
        unresolved_positions(ps, n - 1)
    }
}

/// The programmes of the first `n` writers, each once, in order of first appearance.
pub open spec fn first_seen(ps: Seq<Option<String>>, n: int) -> Seq<Seq<char>>
    decreases n,
{
    if n <= 0 {
        Seq::empty()
    } else if resolved_at(ps, n - 1) && !first_seen(ps, n - 1).contains(ps[n - 1].unwrap()@) {
        first_seen(ps, n - 1).push(ps[n - 1].unwrap()@)
    } else {
        first_seen(ps, n - 1)
    }
}

/// A programme was seen among the first `n` writers exactly when one of them has it.
pub proof fn lemma_first_seen(ps: Seq<Option<String>>, n: int, p: Seq<char>)
    requires
        0 <= n <= ps.len(),
    ensures
        first_seen(ps, n).contains(p) <==> exists|k: int| 0 <= k < n && #[trigger] resolved_at(ps, k) && ps[k].unwrap()@ == p,
    decreases n,
{
    if n > 0 {
        lemma_first_seen(ps, n - 1, p);
        let prev = first_seen(ps, n - 1);
        if first_seen(ps, n).contains(p) && !prev.contains(p) {
            let j = choose|j: int| 0 <= j < first_seen(ps, n).len() && first_seen(ps, n)[j] == p;
            assert(j == prev.len());
            assert(resolved_at(ps, n - 1) && ps[n - 1].unwrap()@ == p);
        }
        if exists|k: int| 0 <= k < n && #[trigger] resolved_at(ps, k) && ps[k].unwrap()@ == p {
            let k = choose|k: int| 0 <= k < n && #[trigger] resolved_at(ps, k) && ps[k].unwrap()@ == p;
            if k < n - 1 {
                assert(prev.contains(p));
                if resolved_at(ps, n - 1) && !prev.contains(ps[n - 1].unwrap()@) {
                    let i = choose|i: int| 0 <= i < prev.len() && prev[i] == p;
                    assert(first_seen(ps, n)[i] == p);
                }
            } else {
                if !prev.contains(p) {
                    assert(first_seen(ps, n)[prev.len() as int] == p);
                }
            }
        }
        if prev.contains(p) {
            let i = choose|i: int| 0 <= i < prev.len() && prev[i] == p;
            if resolved_at(ps, n - 1) && !prev.contains(ps[n - 1].unwrap()@) {
                assert(first_seen(ps, n)[i] == p);
            }
        }
    }
}

/// The programmes of writers, tallied.
#[derive(Clone, Debug)]
pub struct ProgrammeTally {
    /// The dominant programme, if any writer has one.
    pub dominant: Option<String>,
    /// Whether another programme is as common as the dominant one.
    pub tie: bool,
    /// Each programme with its number of writers, in order of first appearance.
    pub counts: Vec<(String, u64)>,
    /// Positions of the writers without a programme.
    pub unresolved: Vec<usize>,
}

fn count_programme(ps: &Vec<Option<String>>, p: &str) -> (c: u64)
    ensures
        c == programme_count(ps@, p@, ps@.len() as int),
{
    let mut c: u64 = 0;
    let mut i: usize = 0;
    while i < ps.len()
        invariant
            i <= ps@.len(),
            c <= i,
            c == programme_count(ps@, p@, i as int),
        decreases ps@.len() - i,
    {
        match &ps[i] {
            Some(q) => {
                if trim_chars(&chars_of(q.as_str())).len() > 0 && str_eq(q.as_str(), p) {
                    c = c + 1;
                }
            },
            None => {},
        }
        i = i + 1;
    }
    c
}

fn is_resolved(ps: &Vec<Option<String>>, i: usize) -> (b: bool)
    requires
        i < ps@.len(),
    ensures
        b == resolved_at(ps@, i as int),
{
    match &ps[i] {
        Some(q) => trim_chars(&chars_of(q.as_str())).len() > 0,
        None => false,
    }
}

/// Tallies the programmes of a Team's ordered writers (`None` for a writer without a
/// linked programme) and picks the dominant one, the earliest writer's deciding a tie.
pub fn tally_programmes(ps: &Vec<Option<String>>) -> (t: ProgrammeTally)
    ensures
        match t.dominant {
            Some(d) => exists|i: int| dominant_index(ps@, i) && ps@[i].unwrap()@ == d@,
            None => forall|i: int| 0 <= i < ps@.len() ==> !#[trigger] resolved_at(ps@, i),
        },
        t.tie == exists|i: int, j: int|
            #[trigger] dominant_index(ps@, i) && 0 <= j < ps@.len() && #[trigger] resolved_at(ps@, j) && ps@[j].unwrap()@ != ps@[i].unwrap()@
                && programme_count(ps@, ps@[j].unwrap()@, ps@.len() as int) == programme_count(ps@, ps@[i].unwrap()@, ps@.len() as int),
        t.unresolved@ == unresolved_positions(ps@, ps@.len() as int),
        t.counts@.map_values(|c: (String, u64)| c.0@) == first_seen(ps@, ps@.len() as int),
        forall|k: int| 0 <= k < t.counts@.len() ==> #[trigger] t.counts@[k].1 == programme_count(ps@, t.counts@[k].0@, ps@.len() as int),
{
    let n = ps.len();
    let mut best: Option<(usize, u64)> = None;
    let mut counts: Vec<(String, u64)> = Vec::new();
    let mut unresolved: Vec<usize> = Vec::new();
    let mut i: usize = 0;
    while i < n
        invariant
            n == ps@.len(),
            i <= n,
            unresolved@ == unresolved_positions(ps@, i as int),
            counts@.map_values(|c: (String, u64)| c.0@) == first_seen(ps@, i as int),
            forall|k: int| 0 <= k < counts@.len() ==> #[trigger] counts@[k].1 == programme_count(ps@, counts@[k].0@, ps@.len() as int),
            match best {
                None => forall|k: int| 0 <= k < i ==> !#[trigger] resolved_at(ps@, k),
                Some((b, c)) => {
                    &&& b < i
                    &&& resolved_at(ps@, b as int)
                    &&& c == programme_count(ps@, ps@[b as int].unwrap()@, n as int)
                    &&& forall|k: int| 0 <= k < i && #[trigger] resolved_at(ps@, k) ==> programme_count(ps@, ps@[k].unwrap()@, n as int) <= c
                    &&& forall|k: int| 0 <= k < b && #[trigger] resolved_at(ps@, k) ==> programme_count(ps@, ps@[k].unwrap()@, n as int) < c
                },
            },
        decreases n - i,
    {
        let ghost before_counts = counts@.map_values(|c: (String, u64)| c.0@);
        if !is_resolved(ps, i) {
            unresolved.push(i);
            assert(counts@.map_values(|c: (String, u64)| c.0@) =~= before_counts);
        } else {
            let p = match &ps[i] {
                Some(q) => q,
                None => { i = i + 1; continue; },
            };
            let c = count_programme(ps, p.as_str());
            let mut first = true;
            let mut j: usize = 0;
            while j < i
                invariant
                    j <= i,
                    i < ps@.len(),
                    ps@[i as int] matches Some(q) && q@ == p@,
                    first == forall|k: int| 0 <= k < j ==> !(#[trigger] resolved_at(ps@, k) && ps@[k].unwrap()@ == p@),
                decreases i - j,
            {
                if is_resolved(ps, j) {
                    match &ps[j] {
                        Some(q) => {
                            if str_eq(q.as_str(), p.as_str()) {
                                first = false;
                            }
                        },
                        None => {},
                    }
                }
                j = j + 1;
            }
            proof {
                lemma_first_seen(ps@, i as int, p@);
            }
            if first {
                counts.push((p.clone(), c));
                assert(counts@.map_values(|c: (String, u64)| c.0@) =~= before_counts.push(p@));
            } else {
                assert(counts@.map_values(|c: (String, u64)| c.0@) =~= before_counts);
            }
            let better = match best {
                None => true,
                Some((_, bc)) => c > bc,
            };
            if better {
                best = Some((i, c));
            }
        }
        i = i + 1;
    }
    let dominant = match best {
        None => None,
        Some((b, _)) => {
            proof {
                assert(dominant_index(ps@, b as int));
            }
            match &ps[b] {
                Some(q) => Some(q.clone()),
                None => None,
            }
        },
    };
    let mut tie = false;
    match best {
        None => {},
        Some((b, bc)) => {
            let mut k: usize = 0;
            while k < n
                invariant
                    n == ps@.len(),
                    k <= n,
                    b < n,
                    dominant_index(ps@, b as int),
                    bc == programme_count(ps@, ps@[b as int].unwrap()@, n as int),
                    tie == exists|j: int| 0 <= j < k && #[trigger] resolved_at(ps@, j) && ps@[j].unwrap()@ != ps@[b as int].unwrap()@
                        && programme_count(ps@, ps@[j].unwrap()@, n as int) == bc,
                decreases n - k,
            {
                if is_resolved(ps, k) {
                    match (&ps[k], &ps[b]) {
                        (Some(q), Some(d)) => {
                            if !str_eq(q.as_str(), d.as_str()) && count_programme(ps, q.as_str()) == bc {
                                tie = true;
                            }
                        },
                        _ => {},
                    }
                }
                k = k + 1;
            }
        },
    }
    ProgrammeTally { dominant, tie, counts, unresolved }
}

} // verus!
