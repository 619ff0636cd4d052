//! One URL-to-file transfer as a state machine: each outside outcome (a probe, a
//! look at the disk, the end of the transfer) is an event, and each step says what
//! the caller must do next.
use vstd::prelude::*;
use crate::config::DownloadConfig;
use crate::strategy::{
    ProbeResult, ResumeOutcome, TransferStrategy, resolve_resume, resume_spec, select_strategy,
    strategy_spec,
};

verus! {

/// Why a job failed.
#[derive(Clone, Copy, Debug, PartialEq, Eq, Structural)]
pub enum JobError {
    /// The metadata request failed or timed out.
    Probe,
    /// The existing output file could not be inspected, emptied or opened.
    ResumeIo,
    /// A stream failed: network, timeout, a write, or a body of the wrong length.
    Transfer,
}

/// Where a job stands.
#[derive(Clone, Copy, Debug, PartialEq, Eq, Structural)]
pub enum JobState {
    Probing,
    Resolving { probe: ProbeResult },
    Transferring { probe: ProbeResult, already_downloaded: u64 },
    Finished,
    Failed { error: JobError },
}

/// What the outside world reports to a job.
#[derive(Clone, Copy, Debug, PartialEq, Eq, Structural)]
pub enum JobEvent {
    Probed { probe: ProbeResult },
    ProbeFailed,
    /// The length of the existing output file, `None` when there is none.
    Inspected { existing_len: Option<u64> },
    ResumeIoFailed,
    TransferSucceeded,
    TransferFailed,
}

/// What a job asks its caller to do next.
#[derive(Debug)]
pub enum JobAction {
    /// Look up the length of the output file.
    InspectFile,
    /// Run `strategy`: first empty the file when `truncate`, and for several ranges
    /// create the file at its final length `presize` before any worker starts.
    Transfer { strategy: TransferStrategy, truncate: bool, presize: Option<u64> },
    /// The job is done; count it as finished.
    Finish,
    /// The job failed; count it as finished and report the error.
    Fail { error: JobError },
    /// The event did not apply in this state; nothing changed.
    Ignore,
}

/// One download job: the settings it decides by, and its state.
#[derive(Clone, Copy, Debug, PartialEq, Eq, Structural)]
pub struct DownloadJob {
    pub resume: bool,
    pub chunk_size: u64,
    pub concurrency: usize,
    pub state: JobState,
}

/// `Finished` and `Failed` are final.
pub open spec fn is_terminal(s: JobState) -> bool {
    s is Finished || s is Failed
}

/// The state after `e` in state `s` under the resume flag.
pub open spec fn next_state(resume: bool, s: JobState, e: JobEvent) -> JobState {
    match (s, e) {
        (JobState::Probing, JobEvent::Probed { probe }) => JobState::Resolving { probe },
        (JobState::Probing, JobEvent::ProbeFailed) => JobState::Failed { error: JobError::Probe },
        (JobState::Resolving { probe }, JobEvent::Inspected { existing_len }) => match resume_spec(
            resume,
            existing_len,
            probe.total_size,
        ) {
            ResumeOutcome::AlreadyComplete => JobState::Finished,
            ResumeOutcome::Start { already_downloaded, .. } => JobState::Transferring {
                probe,
                already_downloaded,
            },
        },
        (JobState::Resolving { .. }, JobEvent::ResumeIoFailed) => JobState::Failed {
            error: JobError::ResumeIo,
        },
        (JobState::Transferring { .. }, JobEvent::TransferSucceeded) => JobState::Finished,
        (JobState::Transferring { .. }, JobEvent::TransferFailed) => JobState::Failed {
            error: JobError::Transfer,
        },
        _ => s,
    }
}

/// `a` is the action owed for event `e` in the state `j.state`.
pub open spec fn action_spec(j: DownloadJob, e: JobEvent, a: JobAction) -> bool {
    let s2 = next_state(j.resume, j.state, e);
    if s2 == j.state {
        a is Ignore
    } else {
        match s2 {
            JobState::Resolving { .. } => a is InspectFile,
            JobState::Finished => a is Finish,
            JobState::Failed { error } => a == JobAction::Fail { error },
            JobState::Transferring { probe, already_downloaded } => {
                &&& a is Transfer
                &&& strategy_spec(
                    a->strategy,
                    probe,
                    j.resume,
                    j.chunk_size,
                    j.concurrency,
                    already_downloaded,
                )
                &&& a->truncate == (e matches JobEvent::Inspected { existing_len } && !j.resume
                    && existing_len is Some)
                &&& a->presize == (if a->strategy is MultiStream {
                    Some(probe.total_size)
                } else {
                    None
                })
            },
            JobState::Probing => false,
        }
    }
}

impl DownloadJob {
    pub open spec fn wf(&self) -> bool {
        self.chunk_size >= 1 && self.concurrency >= 1
    }

    /// A job with the settings of `config`, about to probe.
    pub fn new(config: &DownloadConfig) -> (j: Self)
        requires
            config.wf(),
        ensures
            j.wf(),
            j == (DownloadJob {
                resume: config.resume,
                chunk_size: config.chunk_size,
                concurrency: config.concurrent_chunks,
                state: JobState::Probing,
            }),
    {
        DownloadJob {
            resume: config.resume,
            chunk_size: config.chunk_size,
            concurrency: config.concurrent_chunks,
            state: JobState::Probing,
        }
    }

    /// Moves the job on by event `e` and returns what the caller must do next. A
    /// final state never changes, and an event that does not fit the state is ignored.
    pub fn step(&mut self, e: JobEvent) -> (a: JobAction)
        requires
            old(self).wf(),
        ensures
            final(self).wf(),
            final(self).resume == old(self).resume,
            final(self).chunk_size == old(self).chunk_size,
            final(self).concurrency == old(self).concurrency,
            final(self).state == next_state(old(self).resume, old(self).state, e),
            action_spec(*old(self), e, a),
    {
        match (self.state, e) {
            (JobState::Probing, JobEvent::Probed { probe }) => {
                self.state = JobState::Resolving { probe };
                JobAction::InspectFile
            },
            (JobState::Probing, JobEvent::ProbeFailed) => {
                self.state = JobState::Failed { error: JobError::Probe };
                JobAction::Fail { error: JobError::Probe }
            },
            (JobState::Resolving { probe }, JobEvent::Inspected { existing_len }) => {
                match resolve_resume(self.resume, existing_len, probe.total_size) {
                    ResumeOutcome::AlreadyComplete => {
                        self.state = JobState::Finished;
                        JobAction::Finish
                    },
                    ResumeOutcome::Start { already_downloaded, truncate } => {
                        self.state = JobState::Transferring { probe, already_downloaded };
                        let strategy = select_strategy(
                            probe,
                            self.resume,
                            self.chunk_size,
                            self.concurrency,
                            already_downloaded,
                        );
                        let presize = match strategy {
                            TransferStrategy::MultiStream { .. } => Some(probe.total_size),
                            TransferStrategy::SingleStream { .. } => None,
                        };
                        JobAction::Transfer { strategy, truncate, presize }
                    },
                }
            },
            (JobState::Resolving { .. }, JobEvent::ResumeIoFailed) => {
                self.state = JobState::Failed { error: JobError::ResumeIo };
                JobAction::Fail { error: JobError::ResumeIo }
            },
            (JobState::Transferring { .. }, JobEvent::TransferSucceeded) => {
                self.state = JobState::Finished;
                JobAction::Finish
            },
            (JobState::Transferring { .. }, JobEvent::TransferFailed) => {
                self.state = JobState::Failed { error: JobError::Transfer };
                JobAction::Fail { error: JobError::Transfer }
            },
            _ => JobAction::Ignore,
        }
    }
}

/// How many of the steps taken on `events` from state `s` enter a final state: the
/// steps on which a job reports `Finish` or `Fail` and is counted as finished.
pub open spec fn terminal_entries(resume: bool, s: JobState, events: Seq<JobEvent>) -> nat
    decreases events.len(),
{
    if events.len() == 0 {
        0
    } else {
        let s2 = next_state(resume, s, events[0]);
        let entered: nat = if !is_terminal(s) && is_terminal(s2) {
            1
        } else {
            0
        };
        entered + terminal_entries(resume, s2, events.drop_first())
    }
}

/// Whatever events arrive, a job enters a final state at most once, so it is counted
/// as finished at most once; a job already final is never counted again.
pub proof fn lemma_finished_at_most_once(resume: bool, s: JobState, events: Seq<JobEvent>)
    ensures
        terminal_entries(resume, s, events) <= 1,
        is_terminal(s) ==> terminal_entries(resume, s, events) == 0,
    decreases events.len(),
{
    if events.len() > 0 {
        let s2 = next_state(resume, s, events[0]);
        lemma_finished_at_most_once(resume, s2, events.drop_first());
    }
}

} // verus!
