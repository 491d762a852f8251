//! Ending a child and its process group, and draining what it left in its streams.
use super::capture::{Capture, CaptureState, ExitInfo, ReadEvent, Stream};
use super::direct::POLL_NANOS;
use super::error::{combine_errors, combined, failures_of, push_error, IoFailure, IoKind, ProcessError};
use super::limits::ProcessLimits;
use crate::time::{left_over, shorter, Duration};
use vstd::prelude::*;

verus! {

/// How long a child that was ended may take to be reaped: half a second.
pub const PROCESS_GROUP_GRACE_NANOS: u128 = 500_000_000;

/// How long the streams of a child that was ended may take to drain: a quarter of a second.
pub const TERMINATION_GRACE_NANOS: u128 = 250_000_000;

/// What has to be done next to end a child.
#[derive(Clone, Copy, Debug, PartialEq, Eq, Structural)]
pub enum TerminationStep {
    /// Find out whether the child has exited.
    Probe,
    /// Signal the process group.
    Signal,
    /// Reap the child, without waiting.
    TryReap,
    /// Signal the child alone.
    Kill,
    /// Reap the child, waiting until the deadline.
    Reap,
    /// Wait until the process group is gone, or until the deadline.
    WaitGroup,
    Done,
}

/// What came of it.
#[derive(Clone, Debug, PartialEq, Eq)]
pub enum TerminationEvent {
    /// Whether the child has exited.
    Probed(bool),
    Signalled,
    /// How the child ended, if it was reaped.
    Reaped(Option<ExitInfo>),
    Killed,
    /// Whether the process group is gone.
    GroupGone(bool),
    Failed(IoFailure),
}

/// The ending of a child.
pub struct Termination {
    pub exit: Option<ExitInfo>,
    pub leader_exited: bool,
    pub signal_error: Option<IoFailure>,
    pub errors: Vec<ProcessError>,
    pub step: TerminationStep,
}

/// What a `Termination` holds.
pub struct Ending {
    pub exit: Option<ExitInfo>,
    /// The child had exited before its group was signalled.
    pub leader_exited: bool,
    pub signal_error: Option<IoFailure>,
    pub errors: Seq<ProcessError>,
    pub step: TerminationStep,
}

impl View for Termination {
    type V = Ending;

    open spec fn view(&self) -> Ending {
        Ending {
            exit: self.exit,
            leader_exited: self.leader_exited,
            signal_error: self.signal_error,
            errors: self.errors@,
            step: self.step,
        }
    }
}

/// The ending of a child of which `exit` is known.
pub open spec fn ending_start(exit: Option<ExitInfo>) -> Ending {
    Ending {
        exit,
        leader_exited: exit is Some,
        signal_error: None,
        errors: Seq::empty(),
        step: if exit is Some {
            TerminationStep::WaitGroup
        } else {
            TerminationStep::Probe
        },
    }
}

impl Ending {
    pub open spec fn with_error(self, error: ProcessError) -> Ending {
        Ending { errors: self.errors.push(error), ..self }
    }

    /// The next attempt to reap the child, unless it was reaped.
    pub open spec fn to_reap(self) -> Ending {
        if self.exit is Some {
            Ending { step: TerminationStep::WaitGroup, ..self }
        } else if self.step == TerminationStep::TryReap && self.signal_error is Some {
            Ending { step: TerminationStep::Kill, ..self }
        } else if self.step != TerminationStep::Reap {
            Ending { step: TerminationStep::Reap, ..self }
        } else {
            Ending { step: TerminationStep::WaitGroup, ..self.with_error(ProcessError::Unreaped) }
        }
    }

    /// The group could not be signalled, but nobody was left in it to signal: the child had
    /// exited, it was reaped, and the group is gone.
    pub open spec fn nobody_to_signal(self, gone: bool) -> bool {
        &&& gone
        &&& self.leader_exited
        &&& self.exit is Some
        &&& self.signal_error matches Some(error) && error.kind == IoKind::PermissionDenied
    }

    /// The attempt to signal the group is reported.
    pub open spec fn with_signal_error(self, gone: bool) -> Ending {
        let reported = match self.signal_error {
            Some(error) => if self.nobody_to_signal(gone) {
                self
            } else {
                self.with_error(ProcessError::GroupSignal(error))
            },
            None => self,
        };
        Ending { signal_error: None, ..reported }
    }

    /// The ending after `event`. An event that does not answer what had to be done changes
    /// nothing.
    pub open spec fn after(self, event: TerminationEvent) -> Ending {
        match (self.step, event) {
            (TerminationStep::Probe, TerminationEvent::Probed(exited)) => Ending {
                leader_exited: exited,
                step: TerminationStep::Signal,
                ..self
            },
            (TerminationStep::Probe, TerminationEvent::Failed(error)) => Ending {
                step: TerminationStep::Signal,
                ..self.with_error(ProcessError::Wait(error))
            },
            (TerminationStep::Signal, TerminationEvent::Signalled) => Ending { step: TerminationStep::TryReap, ..self },
            (TerminationStep::Signal, TerminationEvent::Failed(error)) => Ending {
                signal_error: Some(error),
                step: TerminationStep::TryReap,
                ..self
            },
            (TerminationStep::TryReap, TerminationEvent::Reaped(exit)) => Ending { exit, ..self }.to_reap(),
            (TerminationStep::TryReap, TerminationEvent::Failed(error)) => self.with_error(
                ProcessError::Reap(error),
            ).to_reap(),
            (TerminationStep::Kill, TerminationEvent::Killed) => self.to_reap(),
            (TerminationStep::Kill, TerminationEvent::Failed(error)) => self.with_error(
                ProcessError::LeaderSignal(error),
            ).to_reap(),
            (TerminationStep::Reap, TerminationEvent::Reaped(exit)) => Ending { exit, ..self }.to_reap(),
            (TerminationStep::Reap, TerminationEvent::Failed(error)) => self.with_error(ProcessError::Reap(error)).to_reap(),
            (TerminationStep::WaitGroup, TerminationEvent::GroupGone(gone)) => {
                let signalled = self.with_signal_error(gone);
                Ending {
                    step: TerminationStep::Done,
                    ..if gone {
                        signalled
                    } else {
                        signalled.with_error(ProcessError::GroupUnreaped)
                    }
                }
            },
            (TerminationStep::WaitGroup, TerminationEvent::Failed(error)) => Ending {
                step: TerminationStep::Done,
                ..self.with_signal_error(false).with_error(ProcessError::GroupWait(error))
            },
            _ => self,
        }
    }

    pub open spec fn wf(self) -> bool {
        &&& forall|k: int| 0 <= k < self.errors.len() ==> !(#[trigger] self.errors[k] is MultipleFailures)
        &&& match self.step {
            TerminationStep::Probe => self.exit is None && self.signal_error is None,
            TerminationStep::Signal => self.exit is None && self.signal_error is None,
            TerminationStep::TryReap => self.exit is None,
            TerminationStep::Kill => self.exit is None && self.signal_error is Some,
            TerminationStep::Reap => self.exit is None,
            TerminationStep::WaitGroup => self.exit is Some || self.errors.contains(ProcessError::Unreaped),
            TerminationStep::Done => self.exit is Some || self.errors.contains(ProcessError::Unreaped),
        }
    }
}

/// A child that was never reaped is always reported: when the ending is done, either it is known
/// how the child ended, or its errors say that it could not be reaped.
pub proof fn law_unreaped_child_is_reported(ending: Ending, event: TerminationEvent)
    requires
        ending.wf(),
    ensures
        ending.after(event).wf(),
{
    let next = ending.after(event);
    assert forall|error: ProcessError| #[trigger] ending.errors.contains(error) implies ending.errors.push(
        ProcessError::GroupUnreaped,
    ).contains(error) && ending.with_signal_error(true).errors.contains(error) && ending.with_signal_error(
        false,
    ).errors.contains(error) && next.errors.contains(error) by {
        let k = choose|k: int| 0 <= k < ending.errors.len() && ending.errors[k] == error;
        assert(ending.errors.push(ProcessError::GroupUnreaped)[k] == error);
        assert(ending.with_signal_error(true).errors[k] == error);
        assert(ending.with_signal_error(false).errors[k] == error);
        assert(next.errors[k] == error);
    }
    if ending.step == TerminationStep::Reap && next.step == TerminationStep::WaitGroup && next.exit is None {
        assert(next.errors.last() == ProcessError::Unreaped);
        assert(next.errors[next.errors.len() - 1] == ProcessError::Unreaped);
    }
    assert forall|k: int| 0 <= k < next.errors.len() implies !(#[trigger] next.errors[k] is MultipleFailures) by {
        if k < ending.errors.len() {
            assert(next.errors[k] == ending.errors[k]);
        }
    }
}

/// The process group is signalled only while its leader was not reaped: later, its number may
/// belong to somebody else.
pub proof fn law_reaped_group_is_never_signalled(ending: Ending, event: TerminationEvent)
    requires
        ending.wf(),
        ending.exit is Some,
    ensures
        ending.step != TerminationStep::Signal,
        ending.after(event).exit is Some,
        ending.after(event).step != TerminationStep::Signal,
{
}

impl Termination {
    /// The ending of a child of which `exit` is known.
    pub fn new(exit: Option<ExitInfo>) -> (r: Termination)
        ensures
            r@ == ending_start(exit),
            r@.wf(),
    {
        Termination {
            exit,
            leader_exited: exit.is_some(),
            signal_error: None,
            errors: Vec::new(),
            step: if exit.is_some() {
                TerminationStep::WaitGroup
            } else {
                TerminationStep::Probe
            },
        }
    }

    fn to_reap(&mut self)
        ensures
            final(self)@ == old(self)@.to_reap(),
    {
        if self.exit.is_some() {
            self.step = TerminationStep::WaitGroup;
        } else if self.step == TerminationStep::TryReap && self.signal_error.is_some() {
            self.step = TerminationStep::Kill;
        } else if self.step != TerminationStep::Reap {
            self.step = TerminationStep::Reap;
        } else {
            self.errors.push(ProcessError::Unreaped);
            self.step = TerminationStep::WaitGroup;
        }
    }

    fn report_signal_error(&mut self, gone: bool)
        ensures
            final(self)@ == old(self)@.with_signal_error(gone),
    {
        match self.signal_error.take() {
            Some(error) => {
                let nobody: bool = gone && self.leader_exited && self.exit.is_some() && error.kind == IoKind::PermissionDenied;
                if !nobody {
                    self.errors.push(ProcessError::GroupSignal(error));
                }
            },
            None => {},
        }
    }

    /// Takes in what came of the last step.
    pub fn advance(&mut self, event: TerminationEvent)
        requires
            old(self)@.wf(),
        ensures
            final(self)@ == old(self)@.after(event),
            final(self)@.wf(),
    {
        proof {
            law_unreaped_child_is_reported(self@, event);
        }
        match (self.step, event) {
            (TerminationStep::Probe, TerminationEvent::Probed(exited)) => {
                self.leader_exited = exited;
                self.step = TerminationStep::Signal;
            },
            (TerminationStep::Probe, TerminationEvent::Failed(error)) => {
                self.errors.push(ProcessError::Wait(error));
                self.step = TerminationStep::Signal;
            },
            (TerminationStep::Signal, TerminationEvent::Signalled) => {
                self.step = TerminationStep::TryReap;
            },
            (TerminationStep::Signal, TerminationEvent::Failed(error)) => {
                self.signal_error = Some(error);
                self.step = TerminationStep::TryReap;
            },
            (TerminationStep::TryReap, TerminationEvent::Reaped(exit)) => {
                self.exit = exit;
                self.to_reap();
            },
            (TerminationStep::TryReap, TerminationEvent::Failed(error)) => {
                self.errors.push(ProcessError::Reap(error));
                self.to_reap();
            },
            (TerminationStep::Kill, TerminationEvent::Killed) => {
                self.to_reap();
            },
            (TerminationStep::Kill, TerminationEvent::Failed(error)) => {
                self.errors.push(ProcessError::LeaderSignal(error));
                self.to_reap();
            },
            (TerminationStep::Reap, TerminationEvent::Reaped(exit)) => {
                self.exit = exit;
                self.to_reap();
            },
            (TerminationStep::Reap, TerminationEvent::Failed(error)) => {
                self.errors.push(ProcessError::Reap(error));
                self.to_reap();
            },
            (TerminationStep::WaitGroup, TerminationEvent::GroupGone(gone)) => {
                self.report_signal_error(gone);
                if !gone {
                    self.errors.push(ProcessError::GroupUnreaped);
                }
                self.step = TerminationStep::Done;
            },
            (TerminationStep::WaitGroup, TerminationEvent::Failed(error)) => {
                self.report_signal_error(false);
                self.errors.push(ProcessError::GroupWait(error));
                self.step = TerminationStep::Done;
            },
            _ => {},
        }
    }

    /// The errors that were met, as one.
    pub fn finish(self) -> (r: Result<(), ProcessError>)
        ensures
            all_reported(self@.errors, r),
    {
        if self.errors.len() == 0 {
            Ok(())
        } else {
            Err(combine_errors(self.errors))
        }
    }
}

/// A result that reports exactly the errors met.
pub open spec fn all_reported(errors: Seq<ProcessError>, r: Result<(), ProcessError>) -> bool {
    match r {
        Ok(()) => errors.len() == 0,
        Err(e) => errors.len() > 0 && combined(errors, e),
    }
}

/// The single failures of a result.
pub open spec fn result_failures(r: Result<(), ProcessError>) -> Seq<ProcessError> {
    match r {
        Ok(()) => Seq::empty(),
        Err(e) => failures_of(e),
    }
}

/// The result of cleaning up: the failures of ending the child, then those of draining its
/// streams.
pub fn cleanup_result(termination: Result<(), ProcessError>, drain: Result<(), ProcessError>) -> (r: Result<(), ProcessError>)
    ensures
        all_reported(result_failures(termination) + result_failures(drain), r),
{
    let mut errors: Vec<ProcessError> = Vec::new();
    let ghost first = result_failures(termination);
    let ghost second = result_failures(drain);
    match termination {
        Ok(()) => {},
        Err(e) => {
            push_error(&mut errors, e);
        },
    }
    assert(errors@ =~= first);
    match drain {
        Ok(()) => {},
        Err(e) => {
            push_error(&mut errors, e);
        },
    }
    assert(errors@ =~= first + second);
    if errors.len() == 0 {
        Ok(())
    } else {
        Err(combine_errors(errors))
    }
}

/// The error of a run that failed with `primary` and was cleaned up then: the first failure comes
/// first, and none is lost.
pub fn cleanup_after_process_error(primary: ProcessError, cleanup: Result<(), ProcessError>) -> (r: ProcessError)
    ensures
        combined(seq![primary] + result_failures(cleanup), r),
{
    let mut errors: Vec<ProcessError> = Vec::new();
    let ghost first = primary;
    let ghost second = result_failures(cleanup);
    errors.push(primary);
    match cleanup {
        Ok(()) => {},
        Err(e) => {
            push_error(&mut errors, e);
        },
    }
    assert(errors@ =~= seq![first] + second);
    combine_errors(errors)
}

/// What to do after the process group was looked for.
#[derive(Clone, Debug, PartialEq, Eq)]
pub enum GroupWait {
    /// It is gone.
    Gone,
    /// It is still there, and the time is over.
    Live,
    Failed(IoFailure),
    /// Look again after a while.
    Again(Duration),
}

/// What to do after the process group was looked for, when `left` is left until the deadline. A
/// denied permission may pass, so it counts only once the time is over.
pub open spec fn group_wait(probe: Result<bool, IoFailure>, left: Duration) -> GroupWait {
    let denied = probe matches Err(e) && e.kind == IoKind::PermissionDenied;
    if probe matches Ok(exists) && !exists {
        GroupWait::Gone
    } else if probe is Err && (!denied || left.nanos == 0) {
        GroupWait::Failed(probe->Err_0)
    } else if left.nanos == 0 {
        GroupWait::Live
    } else {
        GroupWait::Again(shorter(left, Duration { nanos: POLL_NANOS }))
    }
}

pub fn group_wait_step(probe: Result<bool, IoFailure>, left: Duration) -> (r: GroupWait)
    ensures
        r == group_wait(probe, left),
{
    match probe {
        Ok(exists) => {
            if !exists {
                return GroupWait::Gone;
            }
            if left.is_zero() {
                return GroupWait::Live;
            }
        },
        Err(e) => {
            if e.kind != IoKind::PermissionDenied || left.is_zero() {
                return GroupWait::Failed(e);
            }
        },
    }
    GroupWait::Again(left.min(Duration { nanos: POLL_NANOS }))
}

/// Where the draining of a child's streams is in its round.
#[derive(Clone, Copy, Debug, PartialEq, Eq, Structural)]
pub enum DrainStep {
    ReadStdout,
    ReadStderr,
    /// Tell the time.
    Clock,
    Sleep(Duration),
    Done,
}

/// The draining of the streams of a child that was ended.
pub struct Drain {
    pub limits: ProcessLimits,
    pub capture: CaptureState,
    pub step: DrainStep,
    pub made_progress: bool,
}

/// What a `Drain` holds.
pub struct Draining {
    pub limits: ProcessLimits,
    pub capture: Capture,
    pub step: DrainStep,
    pub made_progress: bool,
}

impl View for Drain {
    type V = Draining;

    open spec fn view(&self) -> Draining {
        Draining {
            limits: self.limits,
            capture: self.capture@,
            step: self.step,
            made_progress: self.made_progress,
        }
    }
}

impl Draining {
    pub open spec fn new_round(self) -> Draining {
        Draining {
            made_progress: false,
            step: if !self.capture.stdout_done {
                DrainStep::ReadStdout
            } else if !self.capture.stderr_done {
                DrainStep::ReadStderr
            } else {
                DrainStep::Done
            },
            ..self
        }
    }

    pub open spec fn round_over(self) -> Draining {
        Draining {
            step: if self.capture.stdout_done && self.capture.stderr_done {
                DrainStep::Done
            } else {
                DrainStep::Clock
            },
            ..self
        }
    }

    /// The draining after a stream was read.
    pub open spec fn after_read(self, event: ReadEvent) -> Draining {
        match self.step {
            DrainStep::ReadStdout => {
                let next = Draining {
                    capture: self.capture.after_read(Stream::Stdout, event, self.limits),
                    made_progress: event is Data,
                    ..self
                };
                if next.capture.stderr_done {
                    next.round_over()
                } else {
                    Draining { step: DrainStep::ReadStderr, ..next }
                }
            },
            DrainStep::ReadStderr => Draining {
                capture: self.capture.after_read(Stream::Stderr, event, self.limits),
                made_progress: self.made_progress || event is Data,
                ..self
            }.round_over(),
            _ => self,
        }
    }

    /// The draining after the time was told, `elapsed` after it began.
    pub open spec fn after_clock(self, elapsed: Duration) -> Draining {
        if self.step != DrainStep::Clock {
            self
        } else if elapsed.nanos >= TERMINATION_GRACE_NANOS {
            Draining { step: DrainStep::Done, ..self }
        } else if self.made_progress {
            self.new_round()
        } else {
            let left = left_over(Duration { nanos: TERMINATION_GRACE_NANOS }, elapsed);
            Draining { step: DrainStep::Sleep(shorter(left, Duration { nanos: POLL_NANOS })), ..self }
        }
    }
}

impl Drain {
    /// Drains the streams of which `capture` is known. Nothing more is written to the child.
    pub fn new(capture: CaptureState, limits: ProcessLimits) -> (r: Drain)
        ensures
            r@ == (Draining {
                limits,
                capture: Capture { stdin_done: true, ..capture@ },
                step: DrainStep::Done,
                made_progress: false,
            }).new_round(),
    {
        let mut capture: CaptureState = capture;
        capture.stdin_done = true;
        let mut r = Drain { limits, capture, step: DrainStep::Done, made_progress: false };
        r.new_round();
        r
    }

    fn new_round(&mut self)
        ensures
            final(self)@ == old(self)@.new_round(),
    {
        self.made_progress = false;
        self.step = if !self.capture.stdout_done {
            DrainStep::ReadStdout
        } else if !self.capture.stderr_done {
            DrainStep::ReadStderr
        } else {
            DrainStep::Done
        };
    }

    fn round_over(&mut self)
        ensures
            final(self)@ == old(self)@.round_over(),
    {
        self.step = if self.capture.stdout_done && self.capture.stderr_done {
            DrainStep::Done
        } else {
            DrainStep::Clock
        };
    }

    /// Takes in what came of reading the stream that had to be read.
    pub fn read(&mut self, event: ReadEvent)
        ensures
            final(self)@ == old(self)@.after_read(event),
    {
        match self.step {
            DrainStep::ReadStdout => {
                self.made_progress = self.capture.drain_output(Stream::Stdout, event, &self.limits);
                if self.capture.stderr_done {
                    self.round_over();
                } else {
                    self.step = DrainStep::ReadStderr;
                }
            },
            DrainStep::ReadStderr => {
                let moved: bool = self.capture.drain_output(Stream::Stderr, event, &self.limits);
                self.made_progress = self.made_progress || moved;
                self.round_over();
            },
            _ => {},
        }
    }

    /// Takes in the time since the draining began.
    pub fn clock(&mut self, elapsed: Duration)
        ensures
            final(self)@ == old(self)@.after_clock(elapsed),
    {
        match self.step {
            DrainStep::Clock => {
                if elapsed.nanos >= TERMINATION_GRACE_NANOS {
                    self.step = DrainStep::Done;
                } else if self.made_progress {
                    self.new_round();
                } else {
                    let left: Duration = Duration { nanos: TERMINATION_GRACE_NANOS }.saturating_sub(elapsed);
                    self.step = DrainStep::Sleep(left.min(Duration { nanos: POLL_NANOS }));
                }
            },
            _ => {},
        }
    }

    /// Goes on after a pause.
    pub fn slept(&mut self)
        ensures
            final(self)@ == (if old(self).step is Sleep {
                old(self)@.new_round()
            } else {
                old(self)@
            }),
    {
        match self.step {
            DrainStep::Sleep(_) => {
                self.new_round();
            },
            _ => {},
        }
    }

    /// Whether both streams were read to their end.
    pub fn finish(&self) -> (r: Result<(), ProcessError>)
        ensures
            match r {
                Ok(()) => self.capture.stdout_done && self.capture.stderr_done,
                Err(e) => !(self.capture.stdout_done && self.capture.stderr_done) && e == ProcessError::CaptureDrainTimeout,
            },
    {
        if self.capture.stdout_done && self.capture.stderr_done {
            Ok(())
        } else {
            Err(ProcessError::CaptureDrainTimeout)
        }
    }
}

/// Draining never replaces the failure that ended the child, and never keeps more than the limits
/// allow.
pub proof fn law_draining_keeps_the_failure(draining: Draining, event: ReadEvent)
    requires
        draining.capture.bounded(draining.limits),
    ensures
        draining.after_read(event).capture.bounded(draining.limits),
        draining.capture.failure is Some ==> draining.after_read(event).capture.failure == draining.capture.failure,
{
}

} // verus!
