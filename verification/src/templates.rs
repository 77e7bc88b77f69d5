//! Template-driven paper teams: the checks and plans behind seeding a team from a
//! template, changing its template, and recording the change.
use crate::error::V2Error;
use crate::governance::{
    check_workspace_version, digest_length_ok, head_as_count, is_conflict, is_digest_len,
    is_integrity, to_i64, V2FilePolicy,
};
use crate::restoration::{ops_view, put_ops, ExactRestoreState, OperationView, WorkspaceOperation};
use crate::text::{chars_of, str_eq, trim_spec, trim_str};
use crate::working_tree::clone_string;
use vstd::prelude::*;

verus! {

/// A file of a template, with the policy it gets in the paper.
pub struct TemplateSeedFile {
    pub path: String,
    pub blob_hash: String,
    pub size_bytes: u64,
    pub policy: V2FilePolicy,
}

/// What the first workspace mutation records of each seed file: path, blob hash, size.
pub open spec fn seed_puts(files: Seq<TemplateSeedFile>) -> Seq<(Seq<char>, Seq<char>, u64)> {
    files.map_values(|f: TemplateSeedFile| (f.path@, f.blob_hash@, f.size_bytes))
}

/// Some seed file is at `path`.
pub open spec fn seeds_contain(files: Seq<(Seq<char>, Seq<char>, u64)>, path: Seq<char>) -> bool {
    exists|i: int| 0 <= i < files.len() && #[trigger] files[i].0 == path
}

/// `s` holds some value twice.
pub open spec fn has_repeat(s: Seq<u128>) -> bool {
    exists|i: int, j: int| 0 <= i < j < s.len() && #[trigger] s[i] == #[trigger] s[j]
}

/// Strictly increasing identities.
pub open spec fn ids_ascending(s: Seq<u128>) -> bool {
    forall|i: int, j: int| 0 <= i < j < s.len() ==> #[trigger] s[i] < #[trigger] s[j]
}

/// A member row of a new paper team.
#[derive(Copy, Clone, Debug, PartialEq, Eq, Structural)]
pub struct TeamMember {
    pub user: u128,
    pub is_leader: bool,
    /// One-based rank among the writers; none for mentors.
    pub writer_order: Option<i32>,
}

/// The member rows of a team with writers `w` and mentors `m`: writers first, in order,
/// then mentors.
pub open spec fn member_at(w: Seq<u128>, m: Seq<u128>, leader: u128, k: int) -> TeamMember {
    if k < w.len() {
        TeamMember {
            user: w[k],
            is_leader: w[k] == leader,
            writer_order: if k + 1 <= i32::MAX {
                Some((k + 1) as i32)
            } else {
                None
            },
        }
    } else {
        TeamMember { user: m[k - w.len()], is_leader: m[k - w.len()] == leader, writer_order: None }
    }
}

/// Why a team seed request is malformed: a blank or over-long name, no files, a main file
/// that is not among them, or a source identity that is not a SHA-256 hex digest.
pub open spec fn seed_request_malformed(
    name: Seq<char>,
    files: Seq<(Seq<char>, Seq<char>, u64)>,
    main: Seq<char>,
    source_identity: Seq<char>,
) -> bool {
    ||| trim_spec(name).len() == 0
    ||| name.len() > 200
    ||| files.len() == 0
    ||| !seeds_contain(files, main)
    ||| !is_digest_len(source_identity)
}

/// The policy row a seeded file gets: none for an editable file, whose policy is the
/// default, otherwise its policy.
pub open spec fn seed_policy_row(p: V2FilePolicy) -> Option<V2FilePolicy> {
    if p == V2FilePolicy::Editable {
        None
    } else {
        Some(p)
    }
}

/// The rows a seeded paper file gets: a new file at `path`, and a policy row when
/// `policy_row` holds one.
pub struct SeedFileRow {
    pub path: String,
    pub policy_row: Option<V2FilePolicy>,
}

/// Whether `row` is the row written for seed file `f`.
pub open spec fn seed_row_of(row: SeedFileRow, f: TemplateSeedFile) -> bool {
    row.path@ == f.path@ && row.policy_row == seed_policy_row(f.policy)
}

/// What seeding a paper team writes.
pub struct TeamSeedPlan {
    /// The team name as stored.
    pub name: String,
    /// Every user to lock, ascending: writers, mentors and the administrator.
    pub lock_order: Vec<u128>,
    /// The member rows, writers first.
    pub members: Vec<TeamMember>,
    /// The first workspace mutation: each file, then the main file.
    pub operations: Vec<WorkspaceOperation>,
    /// The paper-file rows, one per seed file in order.
    pub files: Vec<SeedFileRow>,
}

fn ids_contain(v: &Vec<u128>, x: u128) -> (b: bool)
    ensures
        b == v@.contains(x),
{
    let mut i: usize = 0;
    while i < v.len()
        invariant
            i <= v@.len(),
            forall|j: int| 0 <= j < i ==> v@[j] != x,
        decreases v@.len() - i,
    {
        if v[i] == x {
            assert(v@[i as int] == x);
            return true;
        }
        i = i + 1;
    }
    false
}

fn find_repeat(s: &Vec<u128>) -> (b: bool)
    ensures
        b == has_repeat(s@),
{
    let mut j: usize = 0;
    while j < s.len()
        invariant
            j <= s@.len(),
            forall|a: int, b: int| 0 <= a < b < j ==> s@[a] != s@[b],
        decreases s@.len() - j,
    {
        let mut i: usize = 0;
        while i < j
            invariant
                i <= j < s@.len(),
                forall|a: int| 0 <= a < i ==> s@[a] != s@[j as int],
            decreases j - i,
        {
            if s[i] == s[j] {
                return true;
            }
            i = i + 1;
        }
        j = j + 1;
    }
    false
}

pub(crate) fn insert_id(v: &mut Vec<u128>, x: u128)
    requires
        ids_ascending(old(v)@),
    ensures
        ids_ascending(final(v)@),
        forall|y: u128| final(v)@.contains(y) <==> (old(v)@.contains(y) || y == x),
{
    let ghost ov = v@;
    let mut k: usize = 0;
    while k < v.len() && v[k] < x
        invariant
            ov == v@,
            k <= v@.len(),
            forall|i: int| 0 <= i < k ==> #[trigger] ov[i] < x,
        decreases v@.len() - k,
    {
        k = k + 1;
    }
    if k < v.len() && v[k] == x {
        assert(ov[k as int] == x);
        return;
    }
    v.insert(k, x);
    proof {
        let nv = v@;
        assert(nv =~= ov.insert(k as int, x));
        assert forall|y: u128| nv.contains(y) <==> (ov.contains(y) || y == x) by {
            if nv.contains(y) {
                let i = choose|i: int| 0 <= i < nv.len() && nv[i] == y;
                if i < k {
                    assert(ov[i] == y);
                } else if i > k {
                    assert(ov[i - 1] == y);
                }
            }
            if ov.contains(y) {
                let i = choose|i: int| 0 <= i < ov.len() && ov[i] == y;
                if i < k {
                    assert(nv[i] == y);
                } else {
                    assert(nv[i + 1] == y);
                }
            }
            if y == x {
                assert(nv[k as int] == y);
            }
        }
    }
}

/// Plans a paper team seeded from a template: `writers` and `mentors` by user, `leader`
/// among the writers, `files` with main file `main_path`. Refused with `InvalidName`
/// when the request is malformed, then with a conflict when the leader is not a writer
/// or someone is assigned twice.
pub fn plan_template_team(
    admin: u128,
    name: &str,
    leader: u128,
    writers: &Vec<u128>,
    mentors: &Vec<u128>,
    source_identity: &str,
    main_path: &str,
    files: &Vec<TemplateSeedFile>,
) -> (r: Result<TeamSeedPlan, V2Error>)
    ensures
        seed_request_malformed(name@, seed_puts(files@), main_path@, source_identity@) ==> r
            == Err::<TeamSeedPlan, V2Error>(V2Error::InvalidName),
        !seed_request_malformed(name@, seed_puts(files@), main_path@, source_identity@)
            && !writers@.contains(leader) ==> (r matches Err(e) && is_conflict(
            e,
            "Paper Team Leader must be an assigned Writer"@,
        )),
        !seed_request_malformed(name@, seed_puts(files@), main_path@, source_identity@)
            && writers@.contains(leader) && has_repeat(writers@ + mentors@) ==> (r matches Err(e)
            && is_conflict(e, "duplicate Paper Team assignment"@)),
        !seed_request_malformed(name@, seed_puts(files@), main_path@, source_identity@)
            && writers@.contains(leader) && !has_repeat(writers@ + mentors@) ==> (r matches Ok(
            plan,
        ) && {
            &&& plan.name@ == trim_spec(name@)
            &&& ids_ascending(plan.lock_order@)
            &&& (forall|u: u128| #[trigger]
                plan.lock_order@.contains(u) <==> (writers@.contains(u) || mentors@.contains(u)
                    || u == admin))
            &&& plan.members@.len() == writers@.len() + mentors@.len()
            &&& (forall|k: int|
                0 <= k < plan.members@.len() ==> #[trigger] plan.members@[k] == member_at(
                    writers@,
                    mentors@,
                    leader,
                    k,
                ))
            &&& ops_view(plan.operations@) == put_ops(seed_puts(files@)) + seq![
                OperationView::SetMainFile(main_path@),
            ]
            &&& plan.files@.len() == files@.len()
            &&& forall|k: int| 0 <= k < files@.len() ==> seed_row_of(#[trigger] plan.files@[k], files@[k])
        }),
{
    let ghost sv = seed_puts(files@);
    let trimmed = trim_str(name);
    let tc = chars_of(trimmed.as_str());
    let nc = chars_of(name);
    let mut has_main = false;
    let mut i: usize = 0;
    while i < files.len()
        invariant
            sv == seed_puts(files@),
            i <= files@.len(),
            has_main == exists|j: int| 0 <= j < i && #[trigger] sv[j].0 == main_path@,
        decreases files@.len() - i,
    {
        assert(sv[i as int].0 == files@[i as int].path@);
        if str_eq(files[i].path.as_str(), main_path) {
            has_main = true;
        }
        i = i + 1;
    }
    if tc.len() == 0 || nc.len() > 200 || files.len() == 0 || !has_main || !digest_length_ok(
        source_identity,
    ) {
        return Err(V2Error::InvalidName);
    }
    if !ids_contain(writers, leader) {
        return Err(
            V2Error::Conflict { entity: "Paper Team Leader must be an assigned Writer".to_owned() },
        );
    }
    let mut everyone: Vec<u128> = Vec::new();
    let mut a: usize = 0;
    while a < writers.len()
        invariant
            a <= writers@.len(),
            everyone@ == writers@.take(a as int),
        decreases writers@.len() - a,
    {
        everyone.push(writers[a]);
        assert(writers@.take(a + 1) =~= writers@.take(a as int).push(writers@[a as int]));
        a = a + 1;
    }
    assert(writers@.take(writers@.len() as int) =~= writers@);
    let mut b: usize = 0;
    while b < mentors.len()
        invariant
            b <= mentors@.len(),
            everyone@ == writers@ + mentors@.take(b as int),
        decreases mentors@.len() - b,
    {
        everyone.push(mentors[b]);
        assert(mentors@.take(b + 1) =~= mentors@.take(b as int).push(mentors@[b as int]));
        b = b + 1;
    }
    assert(mentors@.take(mentors@.len() as int) =~= mentors@);
    assert(everyone@ =~= writers@ + mentors@);
    if find_repeat(&everyone) {
        return Err(V2Error::Conflict { entity: "duplicate Paper Team assignment".to_owned() });
    }
    let ghost all = writers@ + mentors@;
    let mut lock_order: Vec<u128> = Vec::new();
    let mut members: Vec<TeamMember> = Vec::new();
    let wn = writers.len();
    let mut k: usize = 0;
    while k < everyone.len()
        invariant
            everyone@ == all,
            all == writers@ + mentors@,
            wn == writers@.len(),
            k <= all.len(),
            ids_ascending(lock_order@),
            forall|u: u128| #[trigger] lock_order@.contains(u) <==> all.take(k as int).contains(u),
            members@.len() == k,
            forall|j: int| 0 <= j < k ==> #[trigger] members@[j] == member_at(
                writers@,
                mentors@,
                leader,
                j,
            ),
        decreases all.len() - k,
    {
        let u = everyone[k];
        let ghost before = lock_order@;
        insert_id(&mut lock_order, u);
        proof {
            let t1 = all.take(k + 1);
            let t0 = all.take(k as int);
            assert(t1 =~= t0.push(u));
            assert forall|x: u128| #[trigger] lock_order@.contains(x) <==> t1.contains(x) by {
                if t1.contains(x) && x != u {
                    let j = choose|j: int| 0 <= j < t1.len() && t1[j] == x;
                    assert(t0[j] == x);
                }
                if t0.contains(x) {
                    let j = choose|j: int| 0 <= j < t0.len() && t0[j] == x;
                    assert(t1[j] == x);
                }
                if x == u {
                    assert(t1[k as int] == x);
                }
            }
        }
        let order: Option<i32> = if k < wn {
            if k < 0x7fff_ffffusize {
                Some((k + 1) as i32)
            } else {
                None
            }
        } else {
            None
        };
        members.push(TeamMember { user: u, is_leader: u == leader, writer_order: order });
        proof {
            if k < wn {
                assert(all[k as int] == writers@[k as int]);
            } else {
                assert(all[k as int] == mentors@[k - wn]);
            }
        }
        k = k + 1;
    }
    assert(all.take(all.len() as int) =~= all);
    let ghost before_admin = lock_order@;
    insert_id(&mut lock_order, admin);
    proof {
        assert forall|u: u128| #[trigger]
            lock_order@.contains(u) <==> (writers@.contains(u) || mentors@.contains(u) || u == admin) by {
            if writers@.contains(u) {
                let j = choose|j: int| 0 <= j < writers@.len() && writers@[j] == u;
                assert(all[j] == u);
            }
            if mentors@.contains(u) {
                let j = choose|j: int| 0 <= j < mentors@.len() && mentors@[j] == u;
                assert(all[writers@.len() + j] == u);
            }
            if all.contains(u) {
                let j = choose|j: int| 0 <= j < all.len() && all[j] == u;
                if j < writers@.len() {
                    assert(writers@[j] == u);
                } else {
                    assert(mentors@[j - writers@.len()] == u);
                }
            }
        }
    }
    let mut operations: Vec<WorkspaceOperation> = Vec::new();
    let mut f: usize = 0;
    assert(ops_view(operations@) =~= put_ops(sv.take(0)));
    while f < files.len()
        invariant
            sv == seed_puts(files@),
            f <= files@.len(),
            ops_view(operations@) == put_ops(sv.take(f as int)),
        decreases files@.len() - f,
    {
        let file = &files[f];
        let ghost before = ops_view(operations@);
        operations.push(
            WorkspaceOperation::PutFile {
                path: clone_string(&file.path),
                blob_hash: clone_string(&file.blob_hash),
                size_bytes: file.size_bytes,
            },
        );
        proof {
            assert(ops_view(operations@) =~= before.push(OperationView::PutFile(file.path@, file.blob_hash@, file.size_bytes)));
            assert(sv.take(f + 1) =~= sv.take(f as int).push(sv[f as int]));
            assert(put_ops(sv.take(f + 1)) =~= put_ops(sv.take(f as int)).push(
                OperationView::PutFile(file.path@, file.blob_hash@, file.size_bytes),
            ));
        }
        f = f + 1;
    }
    assert(sv.take(files@.len() as int) =~= sv);
    let ghost before_main = ops_view(operations@);
    operations.push(WorkspaceOperation::SetMainFile { path: main_path.to_owned() });
    assert(ops_view(operations@) =~= before_main.push(OperationView::SetMainFile(main_path@)));
    let mut rows: Vec<SeedFileRow> = Vec::new();
    let mut g: usize = 0;
    while g < files.len()
        invariant
            g <= files@.len(),
            rows@.len() == g,
            forall|k: int| 0 <= k < g ==> seed_row_of(#[trigger] rows@[k], files@[k]),
        decreases files@.len() - g,
    {
        let file = &files[g];
        let policy_row = if file.policy == V2FilePolicy::Editable {
            None
        } else {
            Some(file.policy)
        };
        rows.push(SeedFileRow { path: clone_string(&file.path), policy_row });
        g = g + 1;
    }
    Ok(TeamSeedPlan { name: trimmed, lock_order, members, operations, files: rows })
}

/// Whether a template resolution was chosen by hand.
pub fn is_manual_override(method: &str) -> (b: bool)
    ensures
        b == (method@ == "MANUAL_OVERRIDE"@),
{
    str_eq(method, "MANUAL_OVERRIDE")
}

/// A file a template change writes.
pub struct TemplateChangeFile {
    pub path: String,
    pub blob_hash: String,
    pub size_bytes: u64,
    pub policy: V2FilePolicy,
    /// The live file the template file replaces, if any.
    pub existing_file_id: Option<u128>,
}

/// What the template-change mutation records of each file: path, blob hash, size.
pub open spec fn change_puts(files: Seq<TemplateChangeFile>) -> Seq<(Seq<char>, Seq<char>, u64)> {
    files.map_values(|f: TemplateChangeFile| (f.path@, f.blob_hash@, f.size_bytes))
}

/// An administrator's change of a paper's template, prepared from a preview.
pub struct TemplateChangeRequest {
    pub paper_id: u128,
    pub workspace_id: u128,
    pub expected_workspace_version: u64,
    pub expected_template_id: u128,
    pub new_template_id: u128,
    pub new_source_identity: String,
    pub new_main_file: Option<String>,
    pub files: Vec<TemplateChangeFile>,
    pub safety: ExactRestoreState,
}

/// A template-change request that is malformed before anything is read.
pub open spec fn change_request_malformed(request: TemplateChangeRequest) -> bool {
    ||| request.files@.len() == 0
    ||| !is_digest_len(request.new_source_identity@)
    ||| request.safety.workspace_version != request.expected_workspace_version
}

/// Refuses a template-change request without files, without a SHA-256 source identity,
/// or whose safety state is not the head it expects.
pub fn check_template_change_request(request: &TemplateChangeRequest) -> (r: Result<(), V2Error>)
    ensures
        r is Err <==> change_request_malformed(*request),
        r matches Err(e) ==> is_integrity(e, "invalid template-change request"@),
{
    if request.files.len() == 0 || !digest_length_ok(request.new_source_identity.as_str())
        || request.safety.workspace_version != request.expected_workspace_version {
        Err(V2Error::Integrity { message: "invalid template-change request".to_owned() })
    } else {
        Ok(())
    }
}

/// The paper-file row a template change writes for one file; either way the file's
/// policy row is set to `policy`.
pub enum PaperFileWrite {
    /// The live file `file_id` is revised: its revision advances.
    Revise { file_id: u128, policy: V2FilePolicy },
    /// A new file is created at `path`.
    Create { path: String, policy: V2FilePolicy },
}

/// Whether `w` is the write for changed file `f`: a revision of the file it replaces, or
/// a new file when it replaces none.
pub open spec fn write_of(w: PaperFileWrite, f: TemplateChangeFile) -> bool {
    match f.existing_file_id {
        Some(id) => w matches PaperFileWrite::Revise { file_id, policy } && file_id == id && policy
            == f.policy,
        None => w matches PaperFileWrite::Create { path, policy } && path@ == f.path@ && policy
            == f.policy,
    }
}

/// What a template change writes.
pub struct TemplateChangePlan {
    pub safety_epoch: i64,
    /// The new head, returned to the caller.
    pub next_version: u64,
    pub operations: Vec<WorkspaceOperation>,
    /// The paper-file rows, one per changed file in order.
    pub writes: Vec<PaperFileWrite>,
}

/// The mutation a template change records: each file, then the main file if it changes.
pub open spec fn change_operations(
    files: Seq<(Seq<char>, Seq<char>, u64)>,
    main: Option<Seq<char>>,
) -> Seq<OperationView> {
    match main {
        Some(m) => put_ops(files) + seq![OperationView::SetMainFile(m)],
        None => put_ops(files),
    }
}

/// Plans a template change on a team whose status is `status`, whose head is `actual`
/// and whose pinned template is `pinned`. The checks come in this order: an archived team
/// (conflict), a moved head (version conflict), a pin changed since the preview
/// (conflict), then the counts that must fit a BIGINT (integrity).
pub fn plan_template_change(
    request: &TemplateChangeRequest,
    status: &str,
    actual: i64,
    pinned: u128,
) -> (r: Result<TemplateChangePlan, V2Error>)
    ensures
        status@ == "archived"@ ==> (r matches Err(e) && is_conflict(e, "archived Paper Team template"@)),
        status@ != "archived"@ && !(actual >= 0 && actual == request.expected_workspace_version)
            ==> r == Err::<TemplateChangePlan, V2Error>(
            V2Error::VersionConflict {
                expected: request.expected_workspace_version,
                actual: head_as_count(actual),
            },
        ),
        status@ != "archived"@ && actual >= 0 && actual == request.expected_workspace_version
            && pinned != request.expected_template_id ==> (r matches Err(e) && is_conflict(
            e,
            "Paper Team template pin changed after preview"@,
        )),
        status@ != "archived"@ && actual >= 0 && actual == request.expected_workspace_version
            && pinned == request.expected_template_id ==> ({
            let ok = request.safety.document_epoch <= i64::MAX && request.expected_workspace_version
                < i64::MAX;
            &&& !ok ==> (r matches Err(e) && is_integrity(
                e,
                "governance number exceeds PostgreSQL BIGINT"@,
            ))
            &&& ok ==> (r matches Ok(plan) && plan.safety_epoch == request.safety.document_epoch
                && plan.next_version == request.expected_workspace_version + 1 && ops_view(
                plan.operations@,
            ) == change_operations(
                change_puts(request.files@),
                match request.new_main_file {
                    Some(m) => Some(m@),
                    None => None,
                },
            ) && plan.writes@.len() == request.files@.len() && forall|k: int|
                0 <= k < request.files@.len() ==> write_of(
                    #[trigger] plan.writes@[k],
                    request.files@[k],
                ))
        }),
{
    if str_eq(status, "archived") {
        return Err(V2Error::Conflict { entity: "archived Paper Team template".to_owned() });
    }
    match check_workspace_version(request.expected_workspace_version, actual) {
        Ok(()) => {},
        Err(e) => return Err(e),
    }
    if pinned != request.expected_template_id {
        return Err(
            V2Error::Conflict {
                entity: "Paper Team template pin changed after preview".to_owned(),
            },
        );
    }
    let safety_epoch = match to_i64(request.safety.document_epoch) {
        Ok(v) => v,
        Err(e) => return Err(e),
    };
    // The head fits a BIGINT, so the next version cannot overflow a u64.
    let next = request.expected_workspace_version + 1;
    match to_i64(next) {
        Ok(_) => {},
        Err(e) => return Err(e),
    }
    let ghost cv = change_puts(request.files@);
    let mut operations: Vec<WorkspaceOperation> = Vec::new();
    let mut f: usize = 0;
    assert(ops_view(operations@) =~= put_ops(cv.take(0)));
    while f < request.files.len()
        invariant
            cv == change_puts(request.files@),
            f <= request.files@.len(),
            ops_view(operations@) == put_ops(cv.take(f as int)),
        decreases request.files@.len() - f,
    {
        let file = &request.files[f];
        let ghost before = ops_view(operations@);
        operations.push(
            WorkspaceOperation::PutFile {
                path: clone_string(&file.path),
                blob_hash: clone_string(&file.blob_hash),
                size_bytes: file.size_bytes,
            },
        );
        proof {
            assert(ops_view(operations@) =~= before.push(OperationView::PutFile(file.path@, file.blob_hash@, file.size_bytes)));
            assert(cv.take(f + 1) =~= cv.take(f as int).push(cv[f as int]));
            assert(put_ops(cv.take(f + 1)) =~= put_ops(cv.take(f as int)).push(
                OperationView::PutFile(file.path@, file.blob_hash@, file.size_bytes),
            ));
        }
        f = f + 1;
    }
    assert(cv.take(request.files@.len() as int) =~= cv);
    match &request.new_main_file {
        Some(m) => {
            let ghost before = ops_view(operations@);
            operations.push(WorkspaceOperation::SetMainFile { path: clone_string(m) });
            assert(ops_view(operations@) =~= before.push(OperationView::SetMainFile(m@)));
        },
        None => {},
    }
    let mut writes: Vec<PaperFileWrite> = Vec::new();
    let mut g: usize = 0;
    while g < request.files.len()
        invariant
            g <= request.files@.len(),
            writes@.len() == g,
            forall|k: int| 0 <= k < g ==> write_of(#[trigger] writes@[k], request.files@[k]),
        decreases request.files@.len() - g,
    {
        let file = &request.files[g];
        let w = match file.existing_file_id {
            Some(id) => PaperFileWrite::Revise { file_id: id, policy: file.policy },
            None => PaperFileWrite::Create { path: clone_string(&file.path), policy: file.policy },
        };
        writes.push(w);
        g = g + 1;
    }
    Ok(TemplateChangePlan { safety_epoch, next_version: next, operations, writes })
}

/// Checks the recording of a template change: the team must still be pinned to
/// `template_id`, and the exact state's counts must fit a BIGINT. Gives the stored epoch
/// and head.
pub fn check_template_finalization(
    pinned: Option<u128>,
    template_id: u128,
    exact: &ExactRestoreState,
) -> (r: Result<(i64, i64), V2Error>)
    ensures
        pinned != Some(template_id) ==> (r matches Err(e) && is_conflict(
            e,
            "Paper Team template finalization"@,
        )),
        pinned == Some(template_id) && (exact.document_epoch > i64::MAX || exact.workspace_version
            > i64::MAX) ==> (r matches Err(e) && is_integrity(
            e,
            "governance number exceeds PostgreSQL BIGINT"@,
        )),
        pinned == Some(template_id) && exact.document_epoch <= i64::MAX && exact.workspace_version
            <= i64::MAX ==> r == Ok::<(i64, i64), V2Error>(
            (exact.document_epoch as i64, exact.workspace_version as i64),
        ),
{
    let matches_pin = match pinned {
        Some(p) => p == template_id,
        None => false,
    };
    if !matches_pin {
        return Err(V2Error::Conflict { entity: "Paper Team template finalization".to_owned() });
    }
    let epoch = match to_i64(exact.document_epoch) {
        Ok(v) => v,
        Err(e) => return Err(e),
    };
    let version = match to_i64(exact.workspace_version) {
        Ok(v) => v,
        Err(e) => return Err(e),
    };
    Ok((epoch, version))
}

} // verus!
