//! A regional worker: what it does next given what just happened, how a
//! probe's outcome is classified, and the check result it records.

use vstd::prelude::*;
use crate::ids::fresh_id;
use crate::job::CheckJob;
use crate::stream::{settle_group_creation, CreateGroupError};

verus! {

/// What a probe of a target came to: an HTTP status, or no response at all
/// (DNS, TLS, connection or timeout failure).
#[derive(PartialEq, Eq, Structural, Clone, Copy, Debug)]
pub enum ProbeOutcome {
    Response(u16),
    TransportError,
}

/// The classification recorded for one probe.
#[derive(PartialEq, Eq, Structural, Clone, Copy, Debug)]
pub enum CheckStatus {
    Up,
    Down,
    Unknown,
}

/// How a probe outcome is classified.
pub open spec fn spec_classify(outcome: ProbeOutcome) -> CheckStatus {
    match outcome {
        ProbeOutcome::Response(code) => if code == 200 { CheckStatus::Up } else { CheckStatus::Down },
        ProbeOutcome::TransportError => CheckStatus::Unknown,
    }
}

/// Status 200 is `Up`, any other status `Down`, no response `Unknown`.
pub fn classify(outcome: ProbeOutcome) -> (r: CheckStatus)
    ensures
        r == spec_classify(outcome),
        outcome == ProbeOutcome::Response(200) ==> r == CheckStatus::Up,
        outcome matches ProbeOutcome::Response(code) && code != 200 ==> r == CheckStatus::Down,
        outcome is TransportError ==> r == CheckStatus::Unknown,
{
    match outcome {
        ProbeOutcome::Response(code) => if code == 200 { CheckStatus::Up } else { CheckStatus::Down },
        ProbeOutcome::TransportError => CheckStatus::Unknown,
    }
}

/// The word stored for each status.
pub open spec fn spec_status_label(status: CheckStatus) -> Seq<char> {
    match status {
        CheckStatus::Up => "Up"@,
        CheckStatus::Down => "Down"@,
        CheckStatus::Unknown => "Unknown"@,
    }
}

impl CheckStatus {
    /// The word stored for this status.
    pub fn label(&self) -> (r: String)
        ensures
            r@ == spec_status_label(*self),
    {
        match self {
            CheckStatus::Up => "Up".to_owned(),
            CheckStatus::Down => "Down".to_owned(),
            CheckStatus::Unknown => "Unknown".to_owned(),
        }
    }
}

/// Elapsed milliseconds as stored: never negative, capped at `i32::MAX`.
pub open spec fn spec_latency_ms(elapsed_ms: u128) -> int {
    if elapsed_ms <= i32::MAX as u128 { elapsed_ms as int } else { i32::MAX as int }
}

/// The stored latency for a probe that took `elapsed_ms` milliseconds.
pub fn latency_ms(elapsed_ms: u128) -> (r: i32)
    ensures
        r == spec_latency_ms(elapsed_ms),
        r >= 0,
{
    if elapsed_ms <= i32::MAX as u128 {
        elapsed_ms as i32
    } else {
        i32::MAX
    }
}

/// One recorded check: which site was probed from which region, how it went
/// and how long it took.
pub struct WebsiteTick {
    pub id: String,
    pub response_time_ms: i32,
    pub status: CheckStatus,
    pub region: String,
    pub website_url: String,
    pub website_id: String,
}

/// The tick with this id for a probe of `job` from `region`.
pub fn tick_for(id: String, region: &String, job: &CheckJob, outcome: ProbeOutcome, elapsed_ms: u128) -> (r: WebsiteTick)
    ensures
        r.id@ == id@,
        r.region@ == region@,
        r.website_url@ == job.url@,
        r.website_id@ == job.site_id@,
        r.status == spec_classify(outcome),
        r.response_time_ms == spec_latency_ms(elapsed_ms),
        r.response_time_ms >= 0,
{
    WebsiteTick {
        id,
        response_time_ms: latency_ms(elapsed_ms),
        status: classify(outcome),
        region: region.clone(),
        website_url: job.url.clone(),
        website_id: job.site_id.clone(),
    }
}

/// The tick recorded for a probe of `job` from `region`, under a fresh
/// random id. Each call makes a tick of its own: a job handled twice is
/// recorded twice.
pub fn record_probe(region: &String, job: &CheckJob, outcome: ProbeOutcome, elapsed_ms: u128) -> (r: WebsiteTick)
    ensures
        r.id@.len() == 36,
        r.region@ == region@,
        r.website_url@ == job.url@,
        r.website_id@ == job.site_id@,
        r.status == spec_classify(outcome),
        r.response_time_ms == spec_latency_ms(elapsed_ms),
        r.response_time_ms >= 0,
{
    tick_for(fresh_id(), region, job, outcome, elapsed_ms)
}

/// Where a worker stands in its loop.
#[derive(PartialEq, Eq, Structural, Clone, Copy, Debug)]
pub enum WorkerPhase {
    Idle,
    Bootstrapping,
    Reading,
    Processing,
    Sleeping,
    Stopped,
}

/// What came back from a read in the worker's group.
#[derive(PartialEq, Eq, Structural, Clone, Copy, Debug)]
pub enum ReadOutcome {
    Entries(usize),
    GroupMissing,
    ConnectionFailed,
}

/// What just happened to a worker.
#[derive(Clone, Copy, Debug)]
pub enum WorkerEvent {
    Started,
    GroupCreation(Result<(), CreateGroupError>),
    ReadDone(ReadOutcome),
    BatchDone,
    Woke,
}

/// What a worker does next.
#[derive(PartialEq, Eq, Structural, Clone, Copy, Debug)]
pub enum WorkerAction {
    /// Create the region's group at the tail of the stream.
    EnsureGroup,
    /// Read the entries not yet handed to any consumer of the group.
    ReadGroup,
    /// Probe, record and acknowledge each entry read, in order. An entry
    /// that is not a job is acknowledged without a probe; one whose result
    /// could not be stored is acknowledged all the same.
    ProcessEntries,
    /// Wait one polling interval.
    Sleep,
    /// Stop the process with an error.
    Exit,
}

/// The worker's transitions: phase and event to next phase and action.
pub open spec fn spec_worker_step(phase: WorkerPhase, event: WorkerEvent) -> (WorkerPhase, WorkerAction) {
    match (phase, event) {
        (WorkerPhase::Idle, WorkerEvent::Started) => (WorkerPhase::Bootstrapping, WorkerAction::EnsureGroup),
        (WorkerPhase::Bootstrapping, WorkerEvent::GroupCreation(created)) =>
            if created is Ok || created == Err::<(), _>(CreateGroupError::AlreadyExists) {
                (WorkerPhase::Reading, WorkerAction::ReadGroup)
            } else {
                (WorkerPhase::Stopped, WorkerAction::Exit)
            },
        (WorkerPhase::Reading, WorkerEvent::ReadDone(ReadOutcome::Entries(n))) =>
            if n > 0 {
                (WorkerPhase::Processing, WorkerAction::ProcessEntries)
            } else {
                (WorkerPhase::Sleeping, WorkerAction::Sleep)
            },
        (WorkerPhase::Reading, WorkerEvent::ReadDone(ReadOutcome::GroupMissing)) =>
            (WorkerPhase::Bootstrapping, WorkerAction::EnsureGroup),
        (WorkerPhase::Processing, WorkerEvent::BatchDone) => (WorkerPhase::Sleeping, WorkerAction::Sleep),
        (WorkerPhase::Sleeping, WorkerEvent::Woke) => (WorkerPhase::Reading, WorkerAction::ReadGroup),
        _ => (WorkerPhase::Stopped, WorkerAction::Exit),
    }
}

/// The worker's next phase and action. It bootstraps its group on start
/// and again whenever a read finds the group missing; a failed connection,
/// or an event that does not fit the phase, stops it; otherwise it reads,
/// processes what it got, sleeps, and reads again.
pub fn worker_step(phase: WorkerPhase, event: WorkerEvent) -> (r: (WorkerPhase, WorkerAction))
    ensures
        r == spec_worker_step(phase, event),
{
    match (phase, event) {
        (WorkerPhase::Idle, WorkerEvent::Started) => (WorkerPhase::Bootstrapping, WorkerAction::EnsureGroup),
        (WorkerPhase::Bootstrapping, WorkerEvent::GroupCreation(created)) => {
            match settle_group_creation(created) {
                Ok(()) => (WorkerPhase::Reading, WorkerAction::ReadGroup),
                Err(_) => (WorkerPhase::Stopped, WorkerAction::Exit),
            }
        },
        (WorkerPhase::Reading, WorkerEvent::ReadDone(ReadOutcome::Entries(n))) => {
            if n > 0 {
                (WorkerPhase::Processing, WorkerAction::ProcessEntries)
            } else {
                (WorkerPhase::Sleeping, WorkerAction::Sleep)
            }
        },
        (WorkerPhase::Reading, WorkerEvent::ReadDone(ReadOutcome::GroupMissing)) =>
            (WorkerPhase::Bootstrapping, WorkerAction::EnsureGroup),
        (WorkerPhase::Processing, WorkerEvent::BatchDone) => (WorkerPhase::Sleeping, WorkerAction::Sleep),
        (WorkerPhase::Sleeping, WorkerEvent::Woke) => (WorkerPhase::Reading, WorkerAction::ReadGroup),
        _ => (WorkerPhase::Stopped, WorkerAction::Exit),
    }
}

} // verus!
