//! The process supervisor's state machine.
//!
//! A spawned encoder process moves `Spawned -> Running` and then into
//! exactly one terminal phase: `Completed`, `Failed` or `Killed`. The
//! caller feeds events in (start, cancellation requests, host teardown,
//! process exit) and performs the returned effects (kill the process,
//! deregister the hooks). The cancellation flag is examined only when the
//! exit is observed, so a cancellation always resolves to the cancelled
//! outcome even when the killed process also reported a failing exit code,
//! while a cancellation arriving after natural completion is a no-op.

use vstd::prelude::*;

verus! {

/// Lifecycle phase of one supervised encoder process.
#[derive(Clone, Copy, Debug, PartialEq, Eq, Structural)]
pub enum Phase {
    Spawned,
    Running,
    Completed,
    Failed,
    Killed,
}

impl Phase {
    /// Terminal phases are reached exactly once and never left.
    pub open spec fn spec_terminal(self) -> bool {
        self is Completed || self is Failed || self is Killed
    }

    pub fn is_terminal(&self) -> (r: bool)
        ensures
            r == self.spec_terminal(),
    {
        matches!(self, Phase::Completed | Phase::Failed | Phase::Killed)
    }
}

/// How a supervised job ended.
#[derive(Clone, Copy, Debug, PartialEq, Eq, Structural)]
pub enum JobOutcome {
    /// The process completed on its own with a successful exit.
    Success,
    /// The process exited unsuccessfully; the source is reported as
    /// corrupted or unsupported.
    Corrupted,
    /// The job was cancelled before the process completed.
    Cancelled,
}

/// An event the supervisor reacts to.
pub enum SupervisorEvent {
    /// The streams are attached and the process is running.
    Started,
    /// A cancellation request carrying the id of the job to cancel.
    CancelRequest { video_id: String },
    /// The hosting application is tearing down.
    HostTeardown,
    /// The process exited; `success` says whether it reported success.
    Exited { success: bool },
}

/// What the caller must do after a step.
#[derive(Clone, Copy, Debug, PartialEq, Eq, Structural)]
pub struct StepEffect {
    /// Kill the underlying process. Killing is idempotent: killing an
    /// already-exited process is not an error.
    pub kill: bool,
    /// Deregister the teardown and cancellation hooks.
    pub deregister: bool,
}

/// Supervisor state of one job: its id, its phase, and whether a matching
/// cancellation request has arrived.
pub struct Supervisor {
    pub job_id: String,
    pub phase: Phase,
    pub cancel_requested: bool,
}

/// The event is a cancellation request for exactly this job.
pub open spec fn cancel_matches(s: Supervisor, ev: SupervisorEvent) -> bool {
    ev matches SupervisorEvent::CancelRequest { video_id } && video_id@ == s.job_id@
}

/// The phase after an event. Terminal phases absorb every event; the exit
/// event resolves the race between cancellation and natural completion in
/// favour of the cancellation flag as it stands when the exit is observed.
pub open spec fn step_phase(s: Supervisor, ev: SupervisorEvent) -> Phase {
    if s.phase.spec_terminal() {
        s.phase
    } else {
        match ev {
            SupervisorEvent::Started => if s.phase is Spawned {
                Phase::Running
            } else {
                s.phase
            },
            SupervisorEvent::CancelRequest { .. } => s.phase,
            SupervisorEvent::HostTeardown => s.phase,
            SupervisorEvent::Exited { success } => if s.cancel_requested {
                Phase::Killed
            } else if success {
                Phase::Completed
            } else {
                Phase::Failed
            },
        }
    }
}

/// The cancellation flag after an event: set by a matching cancellation
/// request while the job still runs, never cleared.
pub open spec fn step_cancel(s: Supervisor, ev: SupervisorEvent) -> bool {
    if s.phase.spec_terminal() {
        s.cancel_requested
    } else if cancel_matches(s, ev) {
        true
    } else {
        s.cancel_requested
    }
}

/// The effect of an event: a matching cancellation and a host teardown
/// kill the process at once; the observed exit issues the final idempotent
/// kill and deregisters both hooks.
pub open spec fn step_effect(s: Supervisor, ev: SupervisorEvent) -> StepEffect {
    if s.phase.spec_terminal() {
        StepEffect { kill: false, deregister: false }
    } else {
        match ev {
            SupervisorEvent::Started => StepEffect { kill: false, deregister: false },
            SupervisorEvent::CancelRequest { .. } => StepEffect {
                kill: cancel_matches(s, ev),
                deregister: false,
            },
            SupervisorEvent::HostTeardown => StepEffect { kill: true, deregister: false },
            SupervisorEvent::Exited { .. } => StepEffect { kill: true, deregister: true },
        }
    }
}

/// The outcome a terminal phase reports.
pub open spec fn outcome_of(phase: Phase) -> Option<JobOutcome> {
    match phase {
        Phase::Completed => Some(JobOutcome::Success),
        Phase::Failed => Some(JobOutcome::Corrupted),
        Phase::Killed => Some(JobOutcome::Cancelled),
        _ => None,
    }
}

impl Supervisor {
    /// A freshly spawned job: no cancellation seen, not yet running.
    pub fn new(job_id: String) -> (s: Supervisor)
        ensures
            s.job_id == job_id,
            s.phase == Phase::Spawned,
            s.cancel_requested == false,
    {
        Supervisor { job_id, phase: Phase::Spawned, cancel_requested: false }
    }

    /// Feeds one event into the state machine and says what to do next.
    pub fn step(&mut self, ev: &SupervisorEvent) -> (e: StepEffect)
        ensures
            final(self).job_id == old(self).job_id,
            final(self).phase == step_phase(*old(self), *ev),
            final(self).cancel_requested == step_cancel(*old(self), *ev),
            e == step_effect(*old(self), *ev),
    {
        if self.phase.is_terminal() {
            return StepEffect { kill: false, deregister: false };
        }
        match ev {
            SupervisorEvent::Started => {
                if matches!(self.phase, Phase::Spawned) {
                    self.phase = Phase::Running;
                }
                StepEffect { kill: false, deregister: false }
            },
            SupervisorEvent::CancelRequest { video_id } => {
                if self.job_id == *video_id {
                    self.cancel_requested = true;
                    StepEffect { kill: true, deregister: false }
                } else {
                    StepEffect { kill: false, deregister: false }
                }
            },
            SupervisorEvent::HostTeardown => StepEffect { kill: true, deregister: false },
            SupervisorEvent::Exited { success } => {
                if self.cancel_requested {
                    self.phase = Phase::Killed;
                } else if *success {
                    self.phase = Phase::Completed;
                } else {
                    self.phase = Phase::Failed;
                }
                StepEffect { kill: true, deregister: true }
            },
        }
    }

    /// The outcome, once a terminal phase is reached.
    pub fn outcome(&self) -> (r: Option<JobOutcome>)
        ensures
            r == outcome_of(self.phase),
    {
        match self.phase {
            Phase::Completed => Some(JobOutcome::Success),
            Phase::Failed => Some(JobOutcome::Corrupted),
            Phase::Killed => Some(JobOutcome::Cancelled),
            _ => None,
        }
    }
}

/// Once a job reached a terminal phase, any further event — in particular
/// a cancellation request racing with a completion that already happened —
/// changes neither the state nor the reported outcome, and asks for
/// nothing to be done.
pub proof fn lemma_event_after_completion(s: Supervisor, ev: SupervisorEvent)
    requires
        s.phase.spec_terminal(),
    ensures
        step_phase(s, ev) == s.phase,
        step_cancel(s, ev) == s.cancel_requested,
        outcome_of(step_phase(s, ev)) == outcome_of(s.phase),
        step_effect(s, ev) == (StepEffect { kill: false, deregister: false }),
{
}

/// When the exit is observed with the cancellation flag set, the job
/// resolves to the cancelled outcome whatever the exit code said.
pub proof fn lemma_cancellation_precedence(s: Supervisor, success: bool)
    requires
        !s.phase.spec_terminal(),
        s.cancel_requested,
    ensures
        step_phase(s, SupervisorEvent::Exited { success }) == Phase::Killed,
        outcome_of(step_phase(s, SupervisorEvent::Exited { success })) == Some(
            JobOutcome::Cancelled,
        ),
{
}

/// Without a cancellation, the exit code alone decides the outcome: a
/// successful exit completes the job, a failing one reports corruption.
pub proof fn lemma_exit_code_policy(s: Supervisor, success: bool)
    requires
        !s.phase.spec_terminal(),
        !s.cancel_requested,
    ensures
        outcome_of(step_phase(s, SupervisorEvent::Exited { success })) == Some(
            if success {
                JobOutcome::Success
            } else {
                JobOutcome::Corrupted
            },
        ),
{
}

/// A step out of a non-terminal phase lands in a terminal phase exactly on
/// the exit event, and the terminal phase then never changes again.
pub proof fn lemma_terminal_exactly_once(s: Supervisor, ev: SupervisorEvent)
    requires
        !s.phase.spec_terminal(),
    ensures
        step_phase(s, ev).spec_terminal() <==> (ev is Exited),
{
}

} // verus!
