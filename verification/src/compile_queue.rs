//! Decision rules of the durable compile-job queue: limits, admission, lease
//! arithmetic, retry budgets and cancellation requests.
use crate::duration::Duration;
use crate::error::AppError;
use crate::text::str_eq;
use vstd::prelude::*;

verus! {

/// Why a queue operation was refused.
#[derive(Debug, Clone, PartialEq, Eq)]
pub enum QueueError {
    InvalidConfiguration { message: String },
    AdmissionRejected { scope: &'static str, limit: u32 },
    IdempotencyConflict,
    NotFound,
    LeaseLost,
    InvalidState { state: String },
    Integrity { message: String },
}

/// A configuration refusal whose message is `m`.
pub open spec fn queue_configuration(e: QueueError, m: Seq<char>) -> bool {
    e matches QueueError::InvalidConfiguration { message } && message@ == m
}

/// An integrity refusal whose message is `m`.
pub open spec fn queue_integrity(e: QueueError, m: Seq<char>) -> bool {
    e matches QueueError::Integrity { message } && message@ == m
}

/// Limits enforced inside queue admission and claiming transactions.
#[derive(Clone, Debug)]
pub struct QueueLimits {
    global_running: u32,
    per_user_running: u32,
    per_user_outstanding: u32,
    lease_duration: Duration,
    max_attempts: u32,
}

/// How a successful or cancelled completion ended.
#[derive(Copy, Clone, Debug, PartialEq, Eq, Structural)]
pub enum CompletionOutcome {
    Succeeded,
    Cancelled,
}

/// How an infrastructure failure was handled.
#[derive(Copy, Clone, Debug, PartialEq, Eq, Structural)]
pub enum InfrastructureOutcome {
    Requeued,
    Failed,
    Cancelled,
}

impl QueueLimits {
    pub closed spec fn spec_global_running(self) -> u32 {
        self.global_running
    }

    pub closed spec fn spec_per_user_running(self) -> u32 {
        self.per_user_running
    }

    pub closed spec fn spec_per_user_outstanding(self) -> u32 {
        self.per_user_outstanding
    }

    pub closed spec fn spec_lease_duration(self) -> Duration {
        self.lease_duration
    }

    pub closed spec fn spec_max_attempts(self) -> u32 {
        self.max_attempts
    }

    /// Every limit of a valid configuration is positive.
    pub open spec fn wf(self) -> bool {
        &&& self.spec_global_running() > 0
        &&& self.spec_per_user_running() > 0
        &&& self.spec_per_user_outstanding() > 0
        &&& self.spec_lease_duration().wf()
        &&& self.spec_lease_duration().total_nanos() > 0
        &&& self.spec_max_attempts() > 0
    }

    /// Creates limits; every limit must be greater than zero.
    pub fn new(
        global_running: u32,
        per_user_running: u32,
        per_user_outstanding: u32,
        lease_duration: Duration,
        max_attempts: u32,
    ) -> (r: Result<QueueLimits, QueueError>)
        requires
            lease_duration.wf(),
        ensures
            r is Ok <==> (global_running > 0 && per_user_running > 0 && per_user_outstanding > 0
                && lease_duration.total_nanos() > 0 && max_attempts > 0),
            r matches Ok(l) ==> l.wf() && l.spec_global_running() == global_running
                && l.spec_per_user_running() == per_user_running && l.spec_per_user_outstanding()
                == per_user_outstanding && l.spec_lease_duration() == lease_duration
                && l.spec_max_attempts() == max_attempts,
            r matches Err(e) ==> queue_configuration(e, "queue limits must all be greater than zero"@),
    {
        if global_running == 0 || per_user_running == 0 || per_user_outstanding == 0
            || lease_duration.is_zero() || max_attempts == 0 {
            return Err(
                QueueError::InvalidConfiguration {
                    message: "queue limits must all be greater than zero".to_owned(),
                },
            );
        }
        Ok(QueueLimits { global_running, per_user_running, per_user_outstanding, lease_duration, max_attempts })
    }

    pub fn global_running(&self) -> (n: u32)
        ensures
            n == self.spec_global_running(),
    {
        self.global_running
    }

    pub fn per_user_running(&self) -> (n: u32)
        ensures
            n == self.spec_per_user_running(),
    {
        self.per_user_running
    }

    pub fn per_user_outstanding(&self) -> (n: u32)
        ensures
            n == self.spec_per_user_outstanding(),
    {
        self.per_user_outstanding
    }

    pub fn lease_duration(&self) -> (d: Duration)
        ensures
            d == self.spec_lease_duration(),
    {
        self.lease_duration
    }

    pub fn max_attempts(&self) -> (n: u32)
        ensures
            n == self.spec_max_attempts(),
    {
        self.max_attempts
    }

    /// The lease length in whole milliseconds, as stored by the database.
    pub fn lease_millis(&self) -> (r: Result<i64, QueueError>)
        requires
            self.wf(),
        ensures
            self.spec_lease_duration().total_nanos() / 1_000_000 <= i64::MAX ==> r == Ok::<i64, QueueError>(
                (self.spec_lease_duration().total_nanos() / 1_000_000) as i64,
            ),
            self.spec_lease_duration().total_nanos() / 1_000_000 > i64::MAX ==> (r matches Err(e)
                && queue_configuration(e, "lease duration is too large"@)),
    {
        let millis = self.lease_duration.as_millis();
        if millis <= 0x7fff_ffff_ffff_ffffu128 {
            Ok(millis as i64)
        } else {
            Err(QueueError::InvalidConfiguration { message: "lease duration is too large".to_owned() })
        }
    }

    /// The retry budget as the database's integer type.
    pub fn max_attempts_i32(&self) -> (r: Result<i32, QueueError>)
        ensures
            self.spec_max_attempts() <= i32::MAX ==> r == Ok::<i32, QueueError>(self.spec_max_attempts() as i32),
            self.spec_max_attempts() > i32::MAX ==> (r matches Err(e) && queue_configuration(
                e,
                "max attempts too large"@,
            )),
    {
        if self.max_attempts <= 0x7fff_ffffu32 {
            Ok(self.max_attempts as i32)
        } else {
            Err(QueueError::InvalidConfiguration { message: "max attempts too large".to_owned() })
        }
    }

    /// Admission check of a new job for a user with `outstanding` queued or running jobs.
    pub fn check_admission(&self, outstanding: i64) -> (r: Result<(), QueueError>)
        ensures
            r is Ok <==> outstanding < self.spec_per_user_outstanding(),
            r matches Err(e) ==> e == (QueueError::AdmissionRejected {
                scope: "per-user outstanding",
                limit: self.spec_per_user_outstanding(),
            }),
    {
        if outstanding >= self.per_user_outstanding as i64 {
            return Err(
                QueueError::AdmissionRejected {
                    scope: "per-user outstanding",
                    limit: self.per_user_outstanding,
                },
            );
        }
        Ok(())
    }

    /// Whether a worker may claim another job while `running` jobs are claimed or running.
    pub fn has_capacity(&self, running: i64) -> (b: bool)
        ensures
            b == (running < self.spec_global_running()),
    {
        running < self.global_running as i64
    }

    /// What happens to a running job after an infrastructure failure on attempt `attempts`.
    pub fn infrastructure_outcome(&self, attempts: i32) -> (r: Result<InfrastructureOutcome, QueueError>)
        ensures
            attempts < 0 ==> (r matches Err(e) && queue_integrity(e, "negative attempt count"@)),
            attempts >= 0 && attempts >= self.spec_max_attempts() ==> r == Ok::<InfrastructureOutcome, QueueError>(InfrastructureOutcome::Failed),
            attempts >= 0 && attempts < self.spec_max_attempts() ==> r == Ok::<InfrastructureOutcome, QueueError>(InfrastructureOutcome::Requeued),
    {
        if attempts < 0 {
            return Err(QueueError::Integrity { message: "negative attempt count".to_owned() });
        }
        if attempts as u32 >= self.max_attempts {
            Ok(InfrastructureOutcome::Failed)
        } else {
            Ok(InfrastructureOutcome::Requeued)
        }
    }
}

/// A cancellation reason, when given, holds 1 to 512 bytes.
pub fn validate_cancellation_reason(reason: Option<&str>) -> (r: Result<(), QueueError>)
    ensures
        r is Ok <==> match reason {
            None => true,
            Some(v) => 1 <= v.len() <= 512,
        },
        r matches Err(e) ==> queue_integrity(e, "cancellation reason must be 1..=512 bytes"@),
{
    if let Some(value) = reason {
        if value.len() == 0 || value.len() > 512 {
            return Err(
                QueueError::Integrity { message: "cancellation reason must be 1..=512 bytes".to_owned() },
            );
        }
    }
    Ok(())
}

/// Maps an authorization or collaboration error to the queue's vocabulary: a refused or
/// missing project is reported as a missing job.
pub fn map_permission_error(error: AppError) -> (r: QueueError)
    ensures
        (error is NotFound || error is Forbidden) ==> r == QueueError::NotFound,
        error is Conflict ==> queue_integrity(r, "record already exists"@),
        error is DraftConflict ==> queue_integrity(r, "member draft is based on a stale canonical file revision"@),
        error matches AppError::Integrity { message } ==> r == (QueueError::Integrity { message }),
{
    match error {
        AppError::NotFound | AppError::Forbidden => QueueError::NotFound,
        AppError::Conflict => QueueError::Integrity { message: "record already exists".to_owned() },
        AppError::DraftConflict => QueueError::Integrity {
            message: "member draft is based on a stale canonical file revision".to_owned(),
        },
        AppError::Integrity { message } => QueueError::Integrity { message },
    }
}

/// The pending build recorded in a paper's build state, each field absent when unset.
#[derive(Clone, Debug)]
pub struct PendingBuild {
    pub state_hash: Option<String>,
    pub snapshot_id: Option<String>,
    pub has_manifest: bool,
    pub source_sequence: Option<i64>,
    pub document_epoch: Option<i64>,
    pub tenant_id: Option<u128>,
    pub user_id: Option<u128>,
    pub trigger_type: Option<String>,
    pub compile_key: Option<String>,
    pub engine: Option<String>,
    pub tex_environment_id: Option<String>,
    pub latexmk_profile: Option<String>,
    pub shell_policy: Option<String>,
    pub synctex: Option<bool>,
}

/// The next build to queue from a complete pending build.
#[derive(Clone, Debug)]
pub struct NextBuild {
    pub state_hash: String,
    pub snapshot_id: String,
    pub source_sequence: i64,
    pub document_epoch: i64,
    pub tenant_id: u128,
    pub user_id: u128,
    pub trigger_type: String,
    pub compile_key: String,
    pub engine: String,
    pub tex_environment_id: String,
    pub latexmk_profile: String,
    pub shell_policy: String,
    pub synctex: bool,
    /// Manual builds run ahead of automatic ones.
    pub priority: i16,
}

/// What finishing a paper build changes: the build's status, whether it becomes the
/// current build, and the pending build to queue next, if any.
#[derive(Clone, Debug)]
pub struct BuildFinalization {
    pub status: &'static str,
    pub promote: bool,
    pub next: Option<NextBuild>,
}

/// Whether every field of a pending build is set.
pub open spec fn pending_complete(p: PendingBuild) -> bool {
    &&& p.snapshot_id is Some
    &&& p.has_manifest
    &&& p.source_sequence is Some
    &&& p.document_epoch is Some
    &&& p.tenant_id is Some
    &&& p.user_id is Some
    &&& p.trigger_type is Some
    &&& p.compile_key is Some
    &&& p.engine is Some
    &&& p.tex_environment_id is Some
    &&& p.latexmk_profile is Some
    &&& p.shell_policy is Some
    &&& p.synctex is Some
}

/// The first field of a pending build, in column order, that is unset: its column.
pub open spec fn missing_pending_column(p: PendingBuild) -> Option<Seq<char>> {
    if p.snapshot_id is None {
        Some("pending_snapshot_id"@)
    } else if !p.has_manifest {
        Some("pending_manifest"@)
    } else if p.source_sequence is None {
        Some("pending_source_sequence"@)
    } else if p.document_epoch is None {
        Some("pending_document_epoch"@)
    } else if p.tenant_id is None {
        Some("pending_tenant_id"@)
    } else if p.user_id is None {
        Some("pending_user_id"@)
    } else if p.trigger_type is None {
        Some("pending_trigger_type"@)
    } else if p.compile_key is None {
        Some("pending_compile_key"@)
    } else if p.engine is None {
        Some("pending_engine"@)
    } else if p.tex_environment_id is None {
        Some("pending_tex_environment_id"@)
    } else if p.latexmk_profile is None {
        Some("pending_latexmk_profile"@)
    } else if p.shell_policy is None {
        Some("pending_shell_policy"@)
    } else if p.synctex is None {
        Some("pending_synctex"@)
    } else {
        None
    }
}

/// The refusal of a pending build whose `column` is unset.
pub open spec fn incomplete_pending(e: QueueError, column: Seq<char>) -> bool {
    e matches QueueError::Integrity { message } && message@ == "incomplete pending V2 build: "@ + column
}

fn incomplete(column: &str) -> (e: QueueError)
    ensures
        incomplete_pending(e, column@),
{
    QueueError::Integrity { message: crate::text::concat_str("incomplete pending V2 build: ", column) }
}

fn take_text(v: &Option<String>, column: &str) -> (r: Result<String, QueueError>)
    ensures
        match *v {
            Some(s) => r matches Ok(t) && t@ == s@,
            None => r matches Err(e) && incomplete_pending(e, column@),
        },
{
    match v {
        Some(s) => Ok(s.clone()),
        None => Err(incomplete(column)),
    }
}

/// Decides what finishing a paper build changes. The build succeeds or fails as its job
/// did; a successful build of the desired state becomes current; a pending build, which
/// must be complete, is queued next, manual builds at priority 10 and others at 0.
pub fn finalize_build(
    succeeded: bool,
    build_state_hash: &str,
    desired_state_hash: &Option<String>,
    pending: &PendingBuild,
) -> (r: Result<BuildFinalization, QueueError>)
    ensures
        pending.state_hash is Some ==> (missing_pending_column(*pending) matches Some(c) ==> (r matches Err(e)
            && incomplete_pending(e, c))),
        pending.state_hash is Some && !pending_complete(*pending) ==> r matches Err(QueueError::Integrity { .. }),
        !(pending.state_hash is Some && !pending_complete(*pending)) ==> (r matches Ok(f) && {
            &&& f.status@ == (if succeeded { "succeeded"@ } else { "failed"@ })
            &&& f.promote == (succeeded && (desired_state_hash matches Some(d) && d@ == build_state_hash@))
            &&& match pending.state_hash {
                None => f.next is None,
                Some(h) => f.next matches Some(n) && {
                    &&& n.state_hash@ == h@
                    &&& n.snapshot_id@ == pending.snapshot_id.unwrap()@
                    &&& n.source_sequence == pending.source_sequence.unwrap()
                    &&& n.document_epoch == pending.document_epoch.unwrap()
                    &&& n.tenant_id == pending.tenant_id.unwrap()
                    &&& n.user_id == pending.user_id.unwrap()
                    &&& n.trigger_type@ == pending.trigger_type.unwrap()@
                    &&& n.compile_key@ == pending.compile_key.unwrap()@
                    &&& n.engine@ == pending.engine.unwrap()@
                    &&& n.tex_environment_id@ == pending.tex_environment_id.unwrap()@
                    &&& n.latexmk_profile@ == pending.latexmk_profile.unwrap()@
                    &&& n.shell_policy@ == pending.shell_policy.unwrap()@
                    &&& n.synctex == pending.synctex.unwrap()
                    &&& n.priority == (if pending.trigger_type.unwrap()@ == "manual"@ { 10i16 } else { 0i16 })
                },
            }
        }),
{
    let status = if succeeded { "succeeded" } else { "failed" };
    let promote = succeeded && match desired_state_hash {
        Some(d) => crate::text::str_eq(d.as_str(), build_state_hash),
        None => false,
    };
    let next = match &pending.state_hash {
        None => None,
        Some(h) => {
            let snapshot_id = match take_text(&pending.snapshot_id, "pending_snapshot_id") {
                Ok(v) => v,
                Err(e) => { return Err(e); },
            };
            if !pending.has_manifest {
                return Err(incomplete("pending_manifest"));
            }
            let source_sequence = match pending.source_sequence {
                Some(v) => v,
                None => { return Err(incomplete("pending_source_sequence")); },
            };
            let document_epoch = match pending.document_epoch {
                Some(v) => v,
                None => { return Err(incomplete("pending_document_epoch")); },
            };
            let tenant_id = match pending.tenant_id {
                Some(v) => v,
                None => { return Err(incomplete("pending_tenant_id")); },
            };
            let user_id = match pending.user_id {
                Some(v) => v,
                None => { return Err(incomplete("pending_user_id")); },
            };
            let trigger_type = match take_text(&pending.trigger_type, "pending_trigger_type") {
                Ok(v) => v,
                Err(e) => { return Err(e); },
            };
            let compile_key = match take_text(&pending.compile_key, "pending_compile_key") {
                Ok(v) => v,
                Err(e) => { return Err(e); },
            };
            let engine = match take_text(&pending.engine, "pending_engine") {
                Ok(v) => v,
                Err(e) => { return Err(e); },
            };
            let tex_environment_id = match take_text(&pending.tex_environment_id, "pending_tex_environment_id") {
                Ok(v) => v,
                Err(e) => { return Err(e); },
            };
            let latexmk_profile = match take_text(&pending.latexmk_profile, "pending_latexmk_profile") {
                Ok(v) => v,
                Err(e) => { return Err(e); },
            };
            let shell_policy = match take_text(&pending.shell_policy, "pending_shell_policy") {
                Ok(v) => v,
                Err(e) => { return Err(e); },
            };
            let synctex = match pending.synctex {
                Some(v) => v,
                None => { return Err(incomplete("pending_synctex")); },
            };
            let priority: i16 = if crate::text::str_eq(trigger_type.as_str(), "manual") { 10 } else { 0 };
            Some(NextBuild {
                state_hash: h.clone(),
                snapshot_id,
                source_sequence,
                document_epoch,
                tenant_id,
                user_id,
                trigger_type,
                compile_key,
                engine,
                tex_environment_id,
                latexmk_profile,
                shell_policy,
                synctex,
                priority,
            })
        },
    };
    Ok(BuildFinalization { status, promote, next })
}

/// What a live lease allows once checked.
#[derive(Copy, Clone, Debug, PartialEq, Eq, Structural)]
pub enum LeaseStatus {
    /// The worker still holds the job and may complete it.
    Live,
    /// Cancellation was requested; the job is finished as cancelled.
    Cancelled,
}

/// Checks that `worker` still holds the running job: a job in another state is refused
/// with its state, a job held by another worker or whose lease ran out is lost, and a
/// job whose cancellation was requested ends as cancelled.
pub fn check_lease(
    state: &str,
    owner: Option<u128>,
    worker: u128,
    live: bool,
    cancelled: bool,
) -> (r: Result<LeaseStatus, QueueError>)
    ensures
        state@ != "running"@ ==> (r matches Err(QueueError::InvalidState { state: s }) && s@ == state@),
        state@ == "running"@ && (owner != Some(worker) || !live) ==> r == Err::<LeaseStatus, QueueError>(
            QueueError::LeaseLost,
        ),
        state@ == "running"@ && owner == Some(worker) && live ==> r == Ok::<LeaseStatus, QueueError>(
            if cancelled {
                LeaseStatus::Cancelled
            } else {
                LeaseStatus::Live
            },
        ),
{
    if !str_eq(state, "running") {
        return Err(QueueError::InvalidState { state: state.to_owned() });
    }
    let held = match owner {
        Some(o) => o == worker,
        None => false,
    };
    if !held || !live {
        return Err(QueueError::LeaseLost);
    }
    if cancelled {
        Ok(LeaseStatus::Cancelled)
    } else {
        Ok(LeaseStatus::Live)
    }
}

/// The parameters that identify a compile request for idempotent replay, each in its
/// stored text form.
pub struct CompileRequestKey {
    pub snapshot_id: String,
    pub compile_key: String,
    pub engine: String,
    pub tex_environment_id: String,
    pub latexmk_profile: String,
    pub shell_policy: String,
    pub synctex: bool,
}

/// Two requests ask for the same compilation.
pub open spec fn same_request(a: CompileRequestKey, b: CompileRequestKey) -> bool {
    &&& a.snapshot_id@ == b.snapshot_id@
    &&& a.compile_key@ == b.compile_key@
    &&& a.engine@ == b.engine@
    &&& a.tex_environment_id@ == b.tex_environment_id@
    &&& a.latexmk_profile@ == b.latexmk_profile@
    &&& a.shell_policy@ == b.shell_policy@
    &&& a.synctex == b.synctex
}

/// A request repeated under a stored idempotency key must ask for the same compilation.
pub fn check_idempotent_replay(stored: &CompileRequestKey, request: &CompileRequestKey) -> (r: Result<
    (),
    QueueError,
>)
    ensures
        same_request(*stored, *request) ==> r is Ok,
        !same_request(*stored, *request) ==> r == Err::<(), QueueError>(QueueError::IdempotencyConflict),
{
    let same = str_eq(stored.snapshot_id.as_str(), request.snapshot_id.as_str())
        && str_eq(stored.compile_key.as_str(), request.compile_key.as_str())
        && str_eq(stored.engine.as_str(), request.engine.as_str())
        && str_eq(stored.tex_environment_id.as_str(), request.tex_environment_id.as_str())
        && str_eq(stored.latexmk_profile.as_str(), request.latexmk_profile.as_str())
        && str_eq(stored.shell_policy.as_str(), request.shell_policy.as_str())
        && stored.synctex == request.synctex;
    if same {
        Ok(())
    } else {
        Err(QueueError::IdempotencyConflict)
    }
}

/// How much shell access a compilation gets.
#[derive(Copy, Clone, Debug, PartialEq, Eq, Structural)]
pub enum ShellPolicy {
    Safe,
    Restricted,
    Compatibility,
}

/// The shell policy stored as `s`, if it is one.
pub open spec fn shell_policy_from_name(s: Seq<char>) -> Option<ShellPolicy> {
    if s == "safe"@ {
        Some(ShellPolicy::Safe)
    } else if s == "restricted"@ {
        Some(ShellPolicy::Restricted)
    } else if s == "compatibility"@ {
        Some(ShellPolicy::Compatibility)
    } else {
        None
    }
}

/// Reads a stored shell policy; another value is corrupt.
pub fn parse_shell(value: &str) -> (r: Result<ShellPolicy, QueueError>)
    ensures
        shell_policy_from_name(value@) matches Some(p) ==> r == Ok::<ShellPolicy, QueueError>(p),
        shell_policy_from_name(value@) is None ==> (r matches Err(QueueError::Integrity { message })
            && message@ == "invalid persisted shell policy"@),
{
    if str_eq(value, "safe") {
        Ok(ShellPolicy::Safe)
    } else if str_eq(value, "restricted") {
        Ok(ShellPolicy::Restricted)
    } else if str_eq(value, "compatibility") {
        Ok(ShellPolicy::Compatibility)
    } else {
        Err(QueueError::Integrity { message: "invalid persisted shell policy".to_owned() })
    }
}

/// The kind of a build artifact.
#[derive(Copy, Clone, Debug, PartialEq, Eq, Structural)]
pub enum ArtifactKind {
    Pdf,
    Log,
    Synctex,
    Fls,
    Aux,
    Bcf,
    Toc,
    Other,
}

/// The stored name of an artifact kind.
pub open spec fn artifact_kind_name(k: ArtifactKind) -> Seq<char> {
    match k {
        ArtifactKind::Pdf => "pdf"@,
        ArtifactKind::Log => "log"@,
        ArtifactKind::Synctex => "synctex"@,
        ArtifactKind::Fls => "fls"@,
        ArtifactKind::Aux => "aux"@,
        ArtifactKind::Bcf => "bcf"@,
        ArtifactKind::Toc => "toc"@,
        ArtifactKind::Other => "other"@,
    }
}

/// The stored name of an artifact kind.
pub fn artifact_kind_text(kind: ArtifactKind) -> (s: &'static str)
    ensures
        s@ == artifact_kind_name(kind),
{
    match kind {
        ArtifactKind::Pdf => "pdf",
        ArtifactKind::Log => "log",
        ArtifactKind::Synctex => "synctex",
        ArtifactKind::Fls => "fls",
        ArtifactKind::Aux => "aux",
        ArtifactKind::Bcf => "bcf",
        ArtifactKind::Toc => "toc",
        ArtifactKind::Other => "other",
    }
}

} // verus!
