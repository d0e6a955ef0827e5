//! The worker lifecycle state machine: one supervisor owns one fuzzer
//! child process and drives spawn, monitoring, restart and termination.
//! The supervisor decides; the surrounding runtime performs the returned
//! action (spawning, killing, releasing) and feeds the next event back.
use vstd::prelude::*;
use crate::engine::libfuzzer_c::interpret_output;
use crate::engine::libfuzzer_c::spec_apply;
use crate::engine::libfuzzer_c::spec_parse_line;
use crate::engine::libfuzzer_c::RuntimeStats;
use crate::schedule::EngineStrategy;

verus! {

/// Where one worker stands in its lifecycle.
#[derive(Clone, Copy, PartialEq, Eq, Structural, Debug)]
pub enum WorkerState {
    /// Created, not yet asked to run.
    Idle,
    /// A spawn of the child process is in flight.
    Spawning,
    /// The child process is alive and monitored.
    Running,
    /// Terminal: the child exited cleanly and persistence is exhausted.
    Exited,
    /// Terminal: the child crashed, or could not be launched, and
    /// persistence is exhausted.
    Crashed,
    /// Terminal: an external cancellation stopped the worker.
    Killed,
}

/// What the runtime observed and hands to the supervisor.
#[derive(Debug)]
pub enum WorkerEvent {
    /// The caller asks the worker to run.
    Start,
    /// The child process was created.
    SpawnOk,
    /// The operating system refused to create the child process.
    SpawnFail,
    /// One line of the child's progress output.
    Output(String),
    /// The child terminated with a clean exit status.
    ExitClean,
    /// The child terminated abnormally.
    ExitCrash,
    /// An external cancellation request.
    Cancel,
}

/// What the runtime must do next.
#[derive(Clone, Copy, PartialEq, Eq, Structural, Debug)]
pub enum WorkerAction {
    /// Launch the fuzzer child process.
    Spawn,
    /// Keep monitoring the running child.
    Continue,
    /// Terminate the child within the grace period, forcibly if needed,
    /// and release its handle.
    KillChild,
    /// The lifecycle is over; release the process handle.
    Finish,
    /// The event does not apply in the current state.
    Ignore,
}

/// One worker: its strategy, where it stands, its telemetry, and how many
/// automatic restarts its job grants and has consumed.
pub struct Supervisor {
    pub engine: EngineStrategy,
    pub state: WorkerState,
    pub stats: RuntimeStats,
    pub persistent: u8,
    pub restarts: u8,
}

impl Supervisor {
    /// Telemetry is consistent and no more restarts were consumed than
    /// the job grants.
    pub open spec fn wf(self) -> bool {
        self.stats.wf() && self.restarts <= self.persistent
    }

    /// End of one run with `terminal` as the would-be terminal state:
    /// restart the cycle if persistence remains, resetting the per-run
    /// counters but keeping `run_id` and `worker_id`; otherwise rest in
    /// `terminal`.
    pub open spec fn spec_end_run(self, terminal: WorkerState) -> (Supervisor, WorkerAction) {
        if self.restarts < self.persistent {
            (
                Supervisor {
                    state: WorkerState::Spawning,
                    restarts: (self.restarts + 1) as u8,
                    stats: self.stats.spec_reset(),
                    ..self
                },
                WorkerAction::Spawn,
            )
        } else {
            (Supervisor { state: terminal, ..self }, WorkerAction::Finish)
        }
    }

    /// The transition relation of the lifecycle: cancellation wins in any
    /// state; `Start` spawns from `Idle`; a spawn outcome moves `Spawning`
    /// on; output and exits act in `Running`; everything else is ignored.
    pub open spec fn spec_step(self, ev: WorkerEvent) -> (Supervisor, WorkerAction) {
        match ev {
            WorkerEvent::Cancel => (
                Supervisor { state: WorkerState::Killed, ..self },
                WorkerAction::KillChild,
            ),
            WorkerEvent::Start => if self.state == WorkerState::Idle {
                (Supervisor { state: WorkerState::Spawning, ..self }, WorkerAction::Spawn)
            } else {
                (self, WorkerAction::Ignore)
            },
            WorkerEvent::SpawnOk => if self.state == WorkerState::Spawning {
                (Supervisor { state: WorkerState::Running, ..self }, WorkerAction::Continue)
            } else {
                (self, WorkerAction::Ignore)
            },
            WorkerEvent::SpawnFail => if self.state == WorkerState::Spawning {
                self.spec_end_run(WorkerState::Crashed)
            } else {
                (self, WorkerAction::Ignore)
            },
            WorkerEvent::Output(line) => if self.state == WorkerState::Running {
                (
                    Supervisor { stats: spec_apply(self.stats, spec_parse_line(line@)), ..self },
                    WorkerAction::Continue,
                )
            } else {
                (self, WorkerAction::Ignore)
            },
            WorkerEvent::ExitClean => if self.state == WorkerState::Running {
                self.spec_end_run(WorkerState::Exited)
            } else {
                (self, WorkerAction::Ignore)
            },
            WorkerEvent::ExitCrash => if self.state == WorkerState::Running {
                self.spec_end_run(WorkerState::Crashed)
            } else {
                (self, WorkerAction::Ignore)
            },
        }
    }

    /// Helper for ending a run: restart while persistence remains, else
    /// come to rest in `terminal`.
    fn end_run(&mut self, terminal: WorkerState) -> (a: WorkerAction)
        ensures
            (*final(self), a) == old(self).spec_end_run(terminal),
    {
        if self.restarts < self.persistent {
            self.restarts = self.restarts + 1;
            self.stats.reset_for_restart();
            self.state = WorkerState::Spawning;
            WorkerAction::Spawn
        } else {
            self.state = terminal;
            WorkerAction::Finish
        }
    }

    /// Advance the lifecycle by one observed event and say what the
    /// runtime must do next. The result is exactly the transition
    /// relation; the worker's identity, command line and grant are never
    /// touched; cancellation always reaches `Killed` and orders the child
    /// killed; within a run the monotonic counters never decrease; and a
    /// consistent supervisor stays consistent.
    pub fn step(&mut self, ev: &WorkerEvent) -> (a: WorkerAction)
        ensures
            (*final(self), a) == old(self).spec_step(*ev),
            final(self).stats.run_id == old(self).stats.run_id,
            final(self).stats.worker_id == old(self).stats.worker_id,
            final(self).stats.cmd == old(self).stats.cmd,
            final(self).persistent == old(self).persistent,
            final(self).engine == old(self).engine,
            old(self).wf() ==> final(self).wf(),
            ev is Cancel ==> final(self).state == WorkerState::Killed && a
                == WorkerAction::KillChild,
            ev is Output ==> final(self).stats.count >= old(self).stats.count,
            ev is Output ==> final(self).stats.crashes >= old(self).stats.crashes,
            ev is Output ==> final(self).stats.queue_entries >= old(self).stats.queue_entries,
    {
        match ev {
            WorkerEvent::Cancel => {
                self.state = WorkerState::Killed;
                WorkerAction::KillChild
            },
            WorkerEvent::Start => {
                if self.state == WorkerState::Idle {
                    self.state = WorkerState::Spawning;
                    WorkerAction::Spawn
                } else {
                    WorkerAction::Ignore
                }
            },
            WorkerEvent::SpawnOk => {
                if self.state == WorkerState::Spawning {
                    self.state = WorkerState::Running;
                    WorkerAction::Continue
                } else {
                    WorkerAction::Ignore
                }
            },
            WorkerEvent::SpawnFail => {
                if self.state == WorkerState::Spawning {
                    self.end_run(WorkerState::Crashed)
                } else {
                    WorkerAction::Ignore
                }
            },
            WorkerEvent::Output(line) => {
                if self.state == WorkerState::Running {
                    interpret_output(line.as_str(), &mut self.stats);
                    WorkerAction::Continue
                } else {
                    WorkerAction::Ignore
                }
            },
            WorkerEvent::ExitClean => {
                if self.state == WorkerState::Running {
                    self.end_run(WorkerState::Exited)
                } else {
                    WorkerAction::Ignore
                }
            },
            WorkerEvent::ExitCrash => {
                if self.state == WorkerState::Running {
                    self.end_run(WorkerState::Crashed)
                } else {
                    WorkerAction::Ignore
                }
            },
        }
    }
}

/// How many times one report is attempted before its loss is accepted.
pub const MAX_REPORT_ATTEMPTS: u8 = 5;

/// Backoff before the first retry, in milliseconds; it doubles per attempt.
pub const REPORT_BACKOFF_BASE_MS: u64 = 100;

/// What the scheduler client answered to one report attempt.
#[derive(Clone, Copy, PartialEq, Eq, Structural, Debug)]
pub enum ReportOutcome {
    /// The scheduler acknowledged the report.
    Ack,
    /// The scheduler was unreachable or the call failed; retryable.
    TransientError,
}

/// What the reporting path does next.
#[derive(Clone, Copy, PartialEq, Eq, Structural, Debug)]
pub enum ReportDecision {
    /// The report was delivered.
    Done,
    /// Try the same report again after this many milliseconds.
    RetryAfterMs(u64),
    /// Attempts are exhausted; the report is dropped, the job goes on.
    Drop,
}

/// The backoff before the retry that would be attempt `attempts + 1`.
pub open spec fn spec_backoff_ms(attempts: u8) -> u64 {
    (REPORT_BACKOFF_BASE_MS << attempts) as u64
}

/// Decide what the reporting path does after attempt number `attempts` of
/// one report ended in `outcome`: an acknowledged report is done; a
/// transient failure is retried with exponential backoff until the bounded
/// attempt count is exhausted, then the report is dropped. Reporting
/// failure never escalates beyond this decision.
pub fn next_report_decision(attempts: u8, outcome: ReportOutcome) -> (r: ReportDecision)
    requires
        1 <= attempts,
    ensures
        outcome == ReportOutcome::Ack ==> r == ReportDecision::Done,
        outcome == ReportOutcome::TransientError && attempts < MAX_REPORT_ATTEMPTS ==> r
            == ReportDecision::RetryAfterMs(spec_backoff_ms(attempts)),
        outcome == ReportOutcome::TransientError && attempts >= MAX_REPORT_ATTEMPTS ==> r
            == ReportDecision::Drop,
{
    match outcome {
        ReportOutcome::Ack => ReportDecision::Done,
        ReportOutcome::TransientError => {
            if attempts < MAX_REPORT_ATTEMPTS {
                ReportDecision::RetryAfterMs(REPORT_BACKOFF_BASE_MS << attempts)
            } else {
                ReportDecision::Drop
            }
        },
    }
}

} // verus!
