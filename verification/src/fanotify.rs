//! The event monitor's decisions: which monitor variant may run, what the
//! loop does after each read of its event source, and how the outcome of a
//! scan becomes the response to a file-access event.
//!
//! Waiting for events, scanning and answering the kernel are the caller's
//! work; every choice in between is made here.

use vstd::prelude::*;
use crate::engine::ScanError;
use crate::{RecommendedAction, ScanOutcome, Scanner};

verus! {

/// How the daemon watches file accesses. Chosen once per run.
#[derive(Debug, Clone, Copy, PartialEq, Eq, Structural)]
pub enum MonitorMode {
    /// Audit-only: log events but never block.
    AuditOnly,
    /// Permission: can deny file access based on scan results.
    Permission,
}

/// The kind of access that raised an event.
#[derive(Debug, Clone, Copy, PartialEq, Eq, Structural)]
pub enum EventType {
    Open,
    Execute,
    Modify,
}

/// Event mask bit of the kernel interface: a file was modified.
pub const FAN_MODIFY: u64 = 0x2;

/// Event mask bit of the kernel interface: permission to open a file is asked.
pub const FAN_OPEN_PERM: u64 = 0x10000;

/// Event mask bit of the kernel interface: permission to open a file for
/// execution is asked.
pub const FAN_OPEN_EXEC_PERM: u64 = 0x40000;

/// The events that the permission variant asks the kernel for.
pub const PERMISSION_EVENTS: u64 = 0x50000;

impl EventType {
    /// The kind of access that an event mask reports: execution where
    /// permission to execute is asked, else modification where the file was
    /// modified, else an open.
    pub open spec fn of_mask(mask: u64) -> EventType {
        if mask & FAN_OPEN_EXEC_PERM != 0 {
            EventType::Execute
        } else if mask & FAN_MODIFY != 0 {
            EventType::Modify
        } else {
            EventType::Open
        }
    }

    /// The kind of access that an event mask reports.
    pub fn from_mask(mask: u64) -> (kind: Self)
        ensures
            kind == Self::of_mask(mask),
    {
        if mask & FAN_OPEN_EXEC_PERM != 0 {
            EventType::Execute
        } else if mask & FAN_MODIFY != 0 {
            EventType::Modify
        } else {
            EventType::Open
        }
    }
}

/// The permission variant asks for both kinds of permission event.
pub proof fn lemma_permission_events()
    ensures
        PERMISSION_EVENTS == FAN_OPEN_PERM | FAN_OPEN_EXEC_PERM,
        EventType::of_mask(FAN_OPEN_PERM) == EventType::Open,
        EventType::of_mask(FAN_OPEN_EXEC_PERM) == EventType::Execute,
        EventType::of_mask(FAN_MODIFY) == EventType::Modify,
{
    assert(0x50000u64 == 0x10000u64 | 0x40000u64) by (bit_vector);
    assert(0x10000u64 & 0x40000u64 == 0) by (bit_vector);
    assert(0x10000u64 & 0x2u64 == 0) by (bit_vector);
    assert(0x40000u64 & 0x40000u64 != 0) by (bit_vector);
    assert(0x2u64 & 0x40000u64 == 0) by (bit_vector);
    assert(0x2u64 & 0x2u64 != 0) by (bit_vector);
}

/// A file-access event, consumed once by the dispatcher.
#[derive(Debug)]
pub struct FileEvent {
    pub path: String,
    pub pid: i32,
    pub fd: i32,
    pub event_type: EventType,
}

impl FileEvent {
    /// The event for an access to `path` by process `pid` through descriptor
    /// `fd`. An event whose path the source could not name is filed under
    /// `<unknown>`.
    pub fn new(path: Option<String>, pid: i32, fd: i32, event_type: EventType) -> (event: Self)
        ensures
            event.path@ == match path {
                Some(p) => p@,
                None => "<unknown>"@,
            },
            event.pid == pid,
            event.fd == fd,
            event.event_type == event_type,
    {
        let path = match path {
            Some(p) => p,
            None => "<unknown>".to_owned(),
        };
        FileEvent { path, pid, fd, event_type }
    }
}

/// The answer that lets a suspended file access go on or fail.
#[derive(Debug, Clone, Copy, PartialEq, Eq, Structural)]
pub enum Response {
    Allow,
    Deny,
}

/// What the dispatcher needs to know of a finished scan.
#[derive(Debug, Clone, Copy, PartialEq, Eq, Structural)]
pub enum ScanVerdict {
    /// The scan produced an outcome with this recommended action.
    Completed(RecommendedAction),
    /// The scan produced no outcome: an I/O error, a timeout, no usable corpus.
    Failed,
}

impl ScanVerdict {
    /// The verdict that a scan result amounts to.
    pub open spec fn of_result(result: Result<ScanOutcome, ScanError>) -> ScanVerdict {
        match result {
            Ok(outcome) => ScanVerdict::Completed(outcome.recommended_action),
            Err(_) => ScanVerdict::Failed,
        }
    }

    /// The verdict that a scan result amounts to.
    pub fn of(result: &Result<ScanOutcome, ScanError>) -> (verdict: Self)
        ensures
            verdict == Self::of_result(*result),
    {
        match result {
            Ok(outcome) => ScanVerdict::Completed(outcome.recommended_action),
            Err(_) => ScanVerdict::Failed,
        }
    }
}

/// How loudly a decision is logged.
#[derive(Debug, Clone, Copy, PartialEq, Eq, Structural)]
pub enum Severity {
    Debug,
    Info,
    Warn,
    Error,
}

/// What a log line reports about an event.
#[derive(Debug, Clone, Copy, PartialEq, Eq, Structural)]
pub enum Finding {
    /// Nothing was found; the access goes on.
    Clean,
    /// Suspicious traits; the access goes on and is watched.
    Suspicious,
    /// A detection under the permission variant: the access is refused.
    Blocked,
    /// A detection under the audit-only variant: nothing is refused.
    Detected,
    /// The scan failed; the access goes on.
    ScanFailed,
}

/// One line for the log.
#[derive(Debug, Clone, Copy, PartialEq, Eq, Structural)]
pub struct LogLine {
    pub severity: Severity,
    pub finding: Finding,
}

/// What the dispatcher decided for one event.
#[derive(Debug, Clone, Copy, PartialEq, Eq, Structural)]
pub struct Decision {
    /// The response that the verdict maps to.
    pub response: Response,
    /// Whether the response is sent to the kernel. It is under the permission
    /// variant and never under the audit-only variant.
    pub enforced: bool,
    /// The line to log, if the decision is worth one.
    pub log: Option<LogLine>,
}

impl Decision {
    /// The response that is sent to the kernel, if any is.
    pub open spec fn spec_enforced_response(self) -> Option<Response> {
        if self.enforced {
            Some(self.response)
        } else {
            None
        }
    }

    /// The response that is sent to the kernel, if any is.
    pub fn enforced_response(&self) -> (r: Option<Response>)
        ensures
            r == self.spec_enforced_response(),
    {
        if self.enforced {
            Some(self.response)
        } else {
            None
        }
    }
}

/// The response that a verdict maps to: a quarantine recommendation denies,
/// everything else allows. A failed scan allows too: the monitor fails open.
pub open spec fn response_for(verdict: ScanVerdict) -> Response {
    match verdict {
        ScanVerdict::Completed(RecommendedAction::Quarantine) => Response::Deny,
        _ => Response::Allow,
    }
}

/// The line that a verdict is logged with under `mode`.
pub open spec fn log_for(mode: MonitorMode, verdict: ScanVerdict) -> Option<LogLine> {
    match (mode, verdict) {
        (MonitorMode::Permission, ScanVerdict::Completed(RecommendedAction::Allow)) => Some(
            LogLine { severity: Severity::Debug, finding: Finding::Clean },
        ),
        (MonitorMode::Permission, ScanVerdict::Completed(RecommendedAction::Monitor)) => Some(
            LogLine { severity: Severity::Warn, finding: Finding::Suspicious },
        ),
        (MonitorMode::Permission, ScanVerdict::Completed(RecommendedAction::Quarantine)) => Some(
            LogLine { severity: Severity::Error, finding: Finding::Blocked },
        ),
        (MonitorMode::AuditOnly, ScanVerdict::Completed(RecommendedAction::Allow)) => None,
        (MonitorMode::AuditOnly, ScanVerdict::Completed(RecommendedAction::Monitor)) => Some(
            LogLine { severity: Severity::Info, finding: Finding::Suspicious },
        ),
        (MonitorMode::AuditOnly, ScanVerdict::Completed(RecommendedAction::Quarantine)) => Some(
            LogLine { severity: Severity::Warn, finding: Finding::Detected },
        ),
        (_, ScanVerdict::Failed) => Some(
            LogLine { severity: Severity::Warn, finding: Finding::ScanFailed },
        ),
    }
}

/// The decision for a verdict under `mode`.
pub open spec fn decision_for(mode: MonitorMode, verdict: ScanVerdict) -> Decision {
    Decision {
        response: response_for(verdict),
        enforced: mode == MonitorMode::Permission,
        log: log_for(mode, verdict),
    }
}

/// Decide what to answer and what to log for a scanned event.
pub fn decide(mode: MonitorMode, verdict: ScanVerdict) -> (decision: Decision)
    ensures
        decision == decision_for(mode, verdict),
        verdict == ScanVerdict::Failed ==> decision.response == Response::Allow && decision.log
            is Some,
        mode == MonitorMode::AuditOnly ==> decision.spec_enforced_response() is None,
        mode == MonitorMode::Permission ==> decision.spec_enforced_response() == Some(
            response_for(verdict),
        ),
{
    let response = match verdict {
        ScanVerdict::Completed(RecommendedAction::Quarantine) => Response::Deny,
        _ => Response::Allow,
    };
    let log = match verdict {
        ScanVerdict::Failed => Some(
            LogLine { severity: Severity::Warn, finding: Finding::ScanFailed },
        ),
        ScanVerdict::Completed(action) => match (mode, action) {
            (MonitorMode::Permission, RecommendedAction::Allow) => Some(
                LogLine { severity: Severity::Debug, finding: Finding::Clean },
            ),
            (MonitorMode::Permission, RecommendedAction::Monitor) => Some(
                LogLine { severity: Severity::Warn, finding: Finding::Suspicious },
            ),
            (MonitorMode::Permission, RecommendedAction::Quarantine) => Some(
                LogLine { severity: Severity::Error, finding: Finding::Blocked },
            ),
            (MonitorMode::AuditOnly, RecommendedAction::Allow) => None,
            (MonitorMode::AuditOnly, RecommendedAction::Monitor) => Some(
                LogLine { severity: Severity::Info, finding: Finding::Suspicious },
            ),
            (MonitorMode::AuditOnly, RecommendedAction::Quarantine) => Some(
                LogLine { severity: Severity::Warn, finding: Finding::Detected },
            ),
        },
    };
    Decision { response, enforced: matches!(mode, MonitorMode::Permission), log }
}

/// Where one event stands on its way from the event source to its answer.
#[derive(Debug, Clone, Copy, PartialEq, Eq, Structural)]
pub enum Phase {
    /// Taken from the event source; nothing has been done yet.
    Received,
    /// The scan of the file is running.
    Scanning,
    /// The scan is over and the decision has been made, but not yet carried out.
    Decided(Decision),
    /// The decision has been carried out. Nothing follows.
    Responded,
}

/// What has happened to an event since the dispatcher last looked.
#[derive(Debug, Clone, Copy, PartialEq, Eq, Structural)]
pub enum Signal {
    /// The scan of the file was started.
    ScanStarted,
    /// The scan ended with this verdict.
    ScanFinished(ScanVerdict),
    /// The decision was carried out: answered to the kernel, or logged.
    Delivered,
}

impl Phase {
    /// How far along an event is: 0 for `Received` up to 3 for `Responded`.
    pub open spec fn progress(self) -> nat {
        match self {
            Phase::Received => 0,
            Phase::Scanning => 1,
            Phase::Decided(_) => 2,
            Phase::Responded => 3,
        }
    }
}

/// The phase that follows `phase` on `signal`. A signal that does not belong
/// to the phase changes nothing.
pub open spec fn next_phase(mode: MonitorMode, phase: Phase, signal: Signal) -> Phase {
    match (phase, signal) {
        (Phase::Received, Signal::ScanStarted) => Phase::Scanning,
        (Phase::Scanning, Signal::ScanFinished(verdict)) => Phase::Decided(
            decision_for(mode, verdict),
        ),
        (Phase::Decided(_), Signal::Delivered) => Phase::Responded,
        _ => phase,
    }
}

/// The decision that a step hands to the caller to carry out: the one made
/// when a scan finishes, and none at any other step.
pub open spec fn issued(mode: MonitorMode, phase: Phase, signal: Signal) -> Option<Decision> {
    match (phase, signal) {
        (Phase::Scanning, Signal::ScanFinished(verdict)) => Some(decision_for(mode, verdict)),
        _ => None,
    }
}

/// Take one event one step further. Returns the new phase and, when the scan
/// has just finished, the decision to carry out.
pub fn advance(mode: MonitorMode, phase: Phase, signal: Signal) -> (step: (
    Phase,
    Option<Decision>,
))
    ensures
        step.0 == next_phase(mode, phase, signal),
        step.1 == issued(mode, phase, signal),
        phase == Phase::Responded ==> step.0 == Phase::Responded && step.1 is None,
{
    match (phase, signal) {
        (Phase::Received, Signal::ScanStarted) => (Phase::Scanning, None),
        (Phase::Scanning, Signal::ScanFinished(verdict)) => {
            let decision = decide(mode, verdict);
            (Phase::Decided(decision), Some(decision))
        },
        (Phase::Decided(_), Signal::Delivered) => (Phase::Responded, None),
        _ => (phase, None),
    }
}

/// The phase an event is in after `signals`, starting from `phase`.
pub open spec fn phase_after(mode: MonitorMode, phase: Phase, signals: Seq<Signal>) -> Phase
    decreases signals.len(),
{
    if signals.len() == 0 {
        phase
    } else {
        phase_after(mode, next_phase(mode, phase, signals.first()), signals.drop_first())
    }
}

/// The decisions handed out while an event goes through `signals`, starting
/// from `phase`.
pub open spec fn decisions_issued(
    mode: MonitorMode,
    phase: Phase,
    signals: Seq<Signal>,
) -> Seq<Decision>
    decreases signals.len(),
{
    if signals.len() == 0 {
        Seq::empty()
    } else {
        let rest = decisions_issued(
            mode,
            next_phase(mode, phase, signals.first()),
            signals.drop_first(),
        );
        match issued(mode, phase, signals.first()) {
            Some(decision) => seq![decision] + rest,
            None => rest,
        }
    }
}

/// An event never moves backwards, and `Responded` is final.
pub proof fn lemma_phase_never_regresses(mode: MonitorMode, phase: Phase, signals: Seq<Signal>)
    ensures
        phase.progress() <= phase_after(mode, phase, signals).progress(),
        phase == Phase::Responded ==> phase_after(mode, phase, signals) == Phase::Responded,
    decreases signals.len(),
{
    if signals.len() > 0 {
        lemma_phase_never_regresses(
            mode,
            next_phase(mode, phase, signals.first()),
            signals.drop_first(),
        );
    }
}

/// One decision per event: whatever signals arrive, at most one decision is
/// handed out for an event, none once it has been decided, and exactly one
/// on every way from `Received` or `Scanning` to `Decided` or `Responded`.
/// A decision that stands in the phase reached is the one handed out.
pub proof fn lemma_one_decision_per_event(mode: MonitorMode, phase: Phase, signals: Seq<Signal>)
    ensures
        decisions_issued(mode, phase, signals).len() <= 1,
        phase.progress() >= 2 ==> decisions_issued(mode, phase, signals).len() == 0,
        phase.progress() < 2 && phase_after(mode, phase, signals).progress() >= 2
            ==> decisions_issued(mode, phase, signals).len() == 1,
        phase.progress() < 2 ==> (phase_after(mode, phase, signals) matches Phase::Decided(d)
            ==> decisions_issued(mode, phase, signals) == seq![d]),
    decreases signals.len(),
{
    if signals.len() > 0 {
        let next = next_phase(mode, phase, signals.first());
        lemma_one_decision_per_event(mode, next, signals.drop_first());
        lemma_phase_never_regresses(mode, next, signals.drop_first());
        if let Phase::Decided(d) = next {
            if phase.progress() < 2 {
                lemma_decided_stays(mode, d, signals.drop_first());
            }
        }
    }
}

/// Once a decision has been made it is not replaced: the event is in
/// `Decided` with that decision, or in `Responded`.
pub proof fn lemma_decided_stays(mode: MonitorMode, decision: Decision, signals: Seq<Signal>)
    ensures
        phase_after(mode, Phase::Decided(decision), signals) == Phase::Decided(decision)
            || phase_after(mode, Phase::Decided(decision), signals) == Phase::Responded,
    decreases signals.len(),
{
    if signals.len() > 0 {
        let next = next_phase(mode, Phase::Decided(decision), signals.first());
        if next == Phase::Responded {
            lemma_phase_never_regresses(mode, next, signals.drop_first());
        } else {
            lemma_decided_stays(mode, decision, signals.drop_first());
        }
    }
}

/// The regular life of an event: scan started, scan finished with `verdict`,
/// decision delivered. It ends in `Responded` with the one decision that the
/// verdict maps to under `mode`.
pub proof fn lemma_regular_run(mode: MonitorMode, verdict: ScanVerdict)
    ensures
        phase_after(
            mode,
            Phase::Received,
            seq![Signal::ScanStarted, Signal::ScanFinished(verdict), Signal::Delivered],
        ) == Phase::Responded,
        decisions_issued(
            mode,
            Phase::Received,
            seq![Signal::ScanStarted, Signal::ScanFinished(verdict), Signal::Delivered],
        ) == seq![decision_for(mode, verdict)],
{
    let s3 = seq![Signal::ScanStarted, Signal::ScanFinished(verdict), Signal::Delivered];
    let s2 = seq![Signal::ScanFinished(verdict), Signal::Delivered];
    let s1 = seq![Signal::Delivered];
    let s0 = Seq::<Signal>::empty();
    let d = decision_for(mode, verdict);
    assert(s3.drop_first() =~= s2);
    assert(s2.drop_first() =~= s1);
    assert(s1.drop_first() =~= s0);
    assert(phase_after(mode, Phase::Responded, s0) == Phase::Responded);
    assert(phase_after(mode, Phase::Decided(d), s1) == Phase::Responded);
    assert(phase_after(mode, Phase::Scanning, s2) == Phase::Responded);
    assert(decisions_issued(mode, Phase::Responded, s0) =~= Seq::<Decision>::empty());
    assert(decisions_issued(mode, Phase::Decided(d), s1) =~= Seq::<Decision>::empty());
    assert(decisions_issued(mode, Phase::Scanning, s2) =~= seq![d]);
    assert(decisions_issued(mode, Phase::Received, s3) =~= seq![d]);
}

/// Fail open: under either variant a failed scan allows the access, and the
/// failure is logged.
pub proof fn lemma_fail_open(mode: MonitorMode)
    ensures
        decision_for(mode, ScanVerdict::Failed).response == Response::Allow,
        decision_for(mode, ScanVerdict::Failed).log is Some,
        decision_for(mode, ScanVerdict::Failed).spec_enforced_response() != Some(Response::Deny),
{
}

/// The audit-only variant never blocks: whatever the verdict, no response is
/// sent to the kernel.
pub proof fn lemma_audit_never_blocks(verdict: ScanVerdict)
    ensures
        decision_for(MonitorMode::AuditOnly, verdict).spec_enforced_response() is None,
{
}

/// An access is refused only under the permission variant and only on a
/// quarantine recommendation.
pub proof fn lemma_deny_only_on_quarantine(mode: MonitorMode, verdict: ScanVerdict)
    ensures
        decision_for(mode, verdict).spec_enforced_response() == Some(Response::Deny) <==> mode
            == MonitorMode::Permission && verdict == ScanVerdict::Completed(
            RecommendedAction::Quarantine,
        ),
{
}

/// Pause after a read that found no event, in milliseconds.
pub const IDLE_POLL_MILLIS: u64 = 100;

/// Pause after a failed read of the event source, in milliseconds.
pub const ERROR_BACKOFF_MILLIS: u64 = 1000;

/// What a read of the event source gave.
#[derive(Debug)]
pub enum SourceRead {
    /// An event to dispatch.
    Event(FileEvent),
    /// No event is waiting.
    Idle,
    /// The read failed; the failure is taken to be transient.
    Failed,
    /// The source has ended and will give no more events.
    Closed,
}

/// What the monitor loop does next.
#[derive(Debug)]
pub enum LoopStep {
    /// Scan the file of this event and answer it.
    Dispatch(FileEvent),
    /// Wait this many milliseconds, then read again.
    Sleep(u64),
    /// Leave the loop.
    Stop,
}

/// The step that follows a read of the event source.
///
/// An event that was read is always dispatched, shutdown or not: under the
/// permission variant the access behind it waits for its answer. Without an
/// event the loop stops when shutdown was requested or the source has ended,
/// and otherwise sleeps: briefly when idle, longer after a failed read.
pub open spec fn step_after(read: SourceRead, shutdown: bool) -> LoopStep {
    match read {
        SourceRead::Event(event) => LoopStep::Dispatch(event),
        SourceRead::Closed => LoopStep::Stop,
        SourceRead::Idle => if shutdown {
            LoopStep::Stop
        } else {
            LoopStep::Sleep(IDLE_POLL_MILLIS)
        },
        SourceRead::Failed => if shutdown {
            LoopStep::Stop
        } else {
            LoopStep::Sleep(ERROR_BACKOFF_MILLIS)
        },
    }
}

/// Choose the monitor loop's next step from what the event source gave.
pub fn next_step(read: SourceRead, shutdown: bool) -> (step: LoopStep)
    ensures
        step == step_after(read, shutdown),
        read is Failed && !shutdown ==> step == LoopStep::Sleep(ERROR_BACKOFF_MILLIS),
{
    match read {
        SourceRead::Event(event) => LoopStep::Dispatch(event),
        SourceRead::Closed => LoopStep::Stop,
        SourceRead::Idle => if shutdown {
            LoopStep::Stop
        } else {
            LoopStep::Sleep(IDLE_POLL_MILLIS)
        },
        SourceRead::Failed => if shutdown {
            LoopStep::Stop
        } else {
            LoopStep::Sleep(ERROR_BACKOFF_MILLIS)
        },
    }
}

/// The variant that serves a run: the permission variant only if it was asked
/// for and the process holds the privilege to block; the audit-only variant
/// in every other case.
pub open spec fn effective_mode(requested: MonitorMode, can_block: bool) -> MonitorMode {
    if requested == MonitorMode::Permission && can_block {
        MonitorMode::Permission
    } else {
        MonitorMode::AuditOnly
    }
}

/// The paths among `paths` whose registration was accepted, in their order.
/// `accepted[i]` says whether `paths[i]` was; a path without an entry counts
/// as refused.
pub open spec fn registered(paths: Seq<String>, accepted: Seq<bool>) -> Seq<String>
    decreases paths.len(),
{
    if paths.len() == 0 {
        Seq::empty()
    } else {
        let i = paths.len() - 1;
        let earlier = registered(paths.drop_last(), accepted);
        if i < accepted.len() && accepted[i] {
            earlier.push(paths.last())
        } else {
            earlier
        }
    }
}

/// Real-time monitor: a scanner, the variant asked for, and the paths to watch.
pub struct FanotifyMonitor {
    scanner: Scanner,
    mode: MonitorMode,
    monitored_paths: Vec<String>,
}

impl FanotifyMonitor {
    pub closed spec fn spec_mode(&self) -> MonitorMode {
        self.mode
    }

    pub closed spec fn spec_paths(&self) -> Seq<String> {
        self.monitored_paths@
    }

    pub closed spec fn spec_scanner(&self) -> Scanner {
        self.scanner
    }

    pub fn new(scanner: Scanner, mode: MonitorMode, paths: Vec<String>) -> (monitor: Self)
        ensures
            monitor.spec_scanner() == scanner,
            monitor.spec_mode() == mode,
            monitor.spec_paths() == paths@,
    {
        Self { scanner, mode, monitored_paths: paths }
    }

    /// The variant asked for.
    pub fn mode(&self) -> (mode: MonitorMode)
        ensures
            mode == self.spec_mode(),
    {
        self.mode
    }

    /// The scanner that events are scanned with.
    pub fn scanner(&self) -> (scanner: &Scanner)
        ensures
            *scanner == self.spec_scanner(),
    {
        &self.scanner
    }

    /// The paths to watch.
    pub fn monitored_paths(&self) -> (paths: &Vec<String>)
        ensures
            paths@ == self.spec_paths(),
    {
        &self.monitored_paths
    }

    /// Select the variant that serves this run. `can_block` says whether the
    /// process holds the privilege that blocking needs; without it a monitor
    /// asked to block falls back to auditing.
    pub fn run(&self, can_block: bool) -> (mode: MonitorMode)
        ensures
            mode == effective_mode(self.spec_mode(), can_block),
            !can_block ==> mode == MonitorMode::AuditOnly,
    {
        match self.mode {
            MonitorMode::Permission => if can_block {
                MonitorMode::Permission
            } else {
                MonitorMode::AuditOnly
            },
            MonitorMode::AuditOnly => MonitorMode::AuditOnly,
        }
    }

    /// The paths that are watched once registration is over. A path whose
    /// registration failed is left out; the others are watched all the same.
    pub fn watched(&self, accepted: &[bool]) -> (paths: Vec<String>)
        ensures
            paths@ == registered(self.spec_paths(), accepted@),
    {
        let mut paths: Vec<String> = Vec::new();
        let n = self.monitored_paths.len();
        let mut i: usize = 0;
        assert(self.monitored_paths@.take(0) =~= Seq::<String>::empty());
        while i < n
            invariant
                n == self.monitored_paths@.len(),
                i <= n,
                paths@ == registered(self.monitored_paths@.take(i as int), accepted@),
            decreases n - i,
        {
            assert(self.monitored_paths@.take(i + 1).drop_last() =~= self.monitored_paths@.take(
                i as int,
            ));
            if i < accepted.len() && accepted[i] {
                paths.push(self.monitored_paths[i].clone());
            }
            i += 1;
        }
        assert(self.monitored_paths@.take(n as int) =~= self.monitored_paths@);
        paths
    }
}

} // verus!
