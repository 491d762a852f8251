//! One tool whose output arrives through a queue that capture workers fill.
use super::capture::{
    completion, final_code, final_state, fresh_capture, Capture, CaptureState, ExitInfo, IncompleteReason,
    ProcessOutcome, ReadEvent, Stream,
};
use super::direct::POLL_NANOS;
use super::error::{IoFailure, ProcessError};
use super::limits::ProcessLimits;
use super::terminate::{Drain, TERMINATION_GRACE_NANOS};
use crate::time::{left_over, shorter, Duration};
use vstd::prelude::*;

verus! {

/// How many events the queue holds, and how many are taken from it in one go.
pub const CAPTURE_QUEUE_DEPTH: u8 = 4;

/// Where a run is. It is also what has to be done next.
#[derive(Clone, Copy, Debug, PartialEq, Eq, Structural)]
pub enum QueuedStep {
    /// Take an event from the queue if one is there; at most so many more in this go.
    Poll(u8),
    /// Wait for the child to exit, so long.
    Wait(Duration),
    /// Wait for an event, so long.
    Receive(Duration),
    /// End the child's process group.
    Signal,
    /// Find out whether the child has exited.
    TryReap,
    /// End the child alone.
    Kill,
    /// Wait for the child to exit, for the grace period.
    Reap,
    /// Wait until the child's process group is gone, for the grace period.
    WaitGroup,
    /// Wait for an event of a child that has ended, so long.
    Drain(Duration),
    /// The run is over and can be reported.
    Finished,
    /// The run failed; the child must not be left behind.
    Failed,
}

/// What came of it.
#[derive(Clone, Debug, PartialEq, Eq)]
pub enum QueuedEvent {
    /// An event of a stream.
    Received(Stream, ReadEvent),
    /// No event came.
    Empty,
    /// Whoever fills the queue is gone.
    Disconnected,
    /// How the child ended, if it did.
    Exited(Option<ExitInfo>),
    WaitFailed(IoFailure),
    Signalled,
    SignalFailed(IoFailure),
    Killed,
    KillFailed(IoFailure),
    /// Whether the process group is gone.
    GroupGone(bool),
    GroupFailed(IoFailure),
}

/// A tool whose output arrives through a queue.
pub struct QueuedRun {
    pub limits: ProcessLimits,
    pub capture: CaptureState,
    pub exit: Option<ExitInfo>,
    pub step: QueuedStep,
    pub failure: Option<IncompleteReason>,
    pub duration: Option<Duration>,
    pub signal_error: Option<IoFailure>,
    pub drain_until: Duration,
    pub group_gone: bool,
    pub error: Option<ProcessError>,
}

/// What a `QueuedRun` holds.
pub struct Queued {
    pub limits: ProcessLimits,
    pub capture: Capture,
    pub exit: Option<ExitInfo>,
    pub step: QueuedStep,
    pub failure: Option<IncompleteReason>,
    pub duration: Option<Duration>,
    pub signal_error: Option<IoFailure>,
    pub drain_until: Duration,
    pub group_gone: bool,
    pub error: Option<ProcessError>,
}

impl View for QueuedRun {
    type V = Queued;

    open spec fn view(&self) -> Queued {
        Queued {
            limits: self.limits,
            capture: self.capture@,
            exit: self.exit,
            step: self.step,
            failure: self.failure,
            duration: self.duration,
            signal_error: self.signal_error,
            drain_until: self.drain_until,
            group_gone: self.group_gone,
            error: self.error,
        }
    }
}

/// The sum of two durations, as long as one can be.
pub open spec fn later(a: Duration, b: Duration) -> Duration {
    if a.nanos + b.nanos > u128::MAX {
        Duration { nanos: u128::MAX }
    } else {
        Duration { nanos: (a.nanos + b.nanos) as u128 }
    }
}

impl Queued {
    pub open spec fn captured(self) -> bool {
        self.capture.stdout_done && self.capture.stderr_done
    }

    pub open spec fn wf(self) -> bool {
        &&& self.capture.bounded(self.limits)
        &&& (self.duration matches Some(d) ==> d.nanos <= self.limits.timeout.nanos)
        &&& (self.step == QueuedStep::Finished ==> self.duration is Some && self.exit is Some && self.captured()
            && self.group_gone)
        &&& (self.step == QueuedStep::Failed <==> self.error is Some)
        &&& (self.step matches QueuedStep::Poll(left) ==> left > 0)
        &&& (self.step matches QueuedStep::Drain(_) ==> self.exit is Some && self.group_gone)
        &&& (self.step is WaitGroup ==> self.exit is Some)
        &&& (self.step is TryReap || self.step is Kill || self.step is Reap ==> self.failure is Some)
        &&& (self.is_ending() ==> self.duration is Some && (self.failure is Some || self.exit is Some))
    }

    /// The child and its process group are being ended.
    pub open spec fn is_ending(self) -> bool {
        self.step is Signal || self.step is TryReap || self.step is Kill || self.step is Reap || self.step is WaitGroup
            || self.step is Drain
    }

    pub open spec fn fails(self, error: ProcessError) -> Queued {
        Queued { step: QueuedStep::Failed, error: Some(error), ..self }
    }

    /// The run ends, for a reason or because the tool did. Either way nothing of the process group
    /// is left behind.
    pub open spec fn stop(self, failure: Option<IncompleteReason>, duration: Duration) -> Queued {
        Queued { failure, duration: Some(duration), step: QueuedStep::Signal, ..self }
    }

    pub open spec fn wait_group(self) -> Queued {
        Queued { step: QueuedStep::WaitGroup, ..self }
    }

    /// The queue was emptied, or so much was taken from it as is taken in one go.
    pub open spec fn judge(self, elapsed: Duration) -> Queued {
        let timeout = self.limits.timeout;
        if self.capture.failure is Some {
            self.stop(self.capture.failure, shorter(elapsed, timeout))
        } else if self.exit is Some && self.captured() {
            self.stop(None, shorter(elapsed, timeout))
        } else if elapsed.nanos >= timeout.nanos {
            self.stop(Some(IncompleteReason::Timeout), timeout)
        } else {
            let wait = shorter(left_over(timeout, elapsed), Duration { nanos: POLL_NANOS });
            Queued {
                step: if self.exit is None {
                    QueuedStep::Wait(wait)
                } else {
                    QueuedStep::Receive(wait)
                },
                ..self
            }
        }
    }

    /// What of the child's output is still missing is waited for until the grace period is over.
    pub open spec fn drain(self, elapsed: Duration) -> Queued {
        if self.captured() {
            Queued { step: QueuedStep::Finished, ..self }
        } else {
            let left = left_over(self.drain_until, elapsed);
            if left.nanos == 0 {
                self.fails(ProcessError::CaptureDrainTimeout)
            } else {
                Queued { step: QueuedStep::Drain(shorter(left, Duration { nanos: POLL_NANOS })), ..self }
            }
        }
    }

    pub open spec fn begin_drain(self, elapsed: Duration) -> Queued {
        Queued { drain_until: later(elapsed, Duration { nanos: TERMINATION_GRACE_NANOS }), ..self }.drain(elapsed)
    }

    /// The capture after an event of the queue.
    pub open spec fn taken(self, event: QueuedEvent) -> Queued {
        Queued {
            capture: match event {
                QueuedEvent::Received(stream, read) => self.capture.after_read(stream, read, self.limits),
                QueuedEvent::Disconnected => self.capture.disconnected(),
                _ => self.capture,
            },
            ..self
        }
    }

    pub open spec fn from_queue(event: QueuedEvent) -> bool {
        event is Received || event is Empty || event is Disconnected
    }

    /// The run after `event`, when `elapsed` is the time since it was started. An event that does
    /// not answer what had to be done changes nothing.
    pub open spec fn after(self, event: QueuedEvent, elapsed: Duration) -> Queued {
        match self.step {
            QueuedStep::Poll(left) => if !Queued::from_queue(event) {
                self
            } else if event is Received && left > 1 {
                Queued { step: QueuedStep::Poll((left - 1) as u8), ..self.taken(event) }
            } else {
                self.taken(event).judge(elapsed)
            },
            QueuedStep::Wait(_) => match event {
                QueuedEvent::Exited(exit) => Queued { exit, step: QueuedStep::Poll(CAPTURE_QUEUE_DEPTH), ..self },
                QueuedEvent::WaitFailed(source) => self.fails(ProcessError::Wait(source)),
                _ => self,
            },
            QueuedStep::Receive(_) => if Queued::from_queue(event) {
                Queued { step: QueuedStep::Poll(CAPTURE_QUEUE_DEPTH), ..self.taken(event) }
            } else {
                self
            },
            QueuedStep::Signal => match event {
                QueuedEvent::Signalled => if self.exit is None {
                    Queued { step: QueuedStep::TryReap, ..self }
                } else {
                    self.wait_group()
                },
                QueuedEvent::SignalFailed(source) => if self.exit is None {
                    Queued { step: QueuedStep::TryReap, signal_error: Some(source), ..self }
                } else {
                    self.wait_group()
                },
                _ => self,
            },
            QueuedStep::TryReap => match event {
                QueuedEvent::Exited(exit) => {
                    let next = Queued { exit, ..self };
                    if exit is Some {
                        next.wait_group()
                    } else if self.signal_error is Some {
                        Queued { step: QueuedStep::Kill, ..next }
                    } else {
                        Queued { step: QueuedStep::Reap, ..next }
                    }
                },
                QueuedEvent::WaitFailed(source) => self.fails(ProcessError::Wait(source)),
                _ => self,
            },
            QueuedStep::Kill => match event {
                QueuedEvent::Killed => Queued { step: QueuedStep::Reap, ..self },
                QueuedEvent::KillFailed(source) => self.fails(ProcessError::Wait(source)),
                _ => self,
            },
            QueuedStep::Reap => match event {
                QueuedEvent::Exited(exit) => {
                    let next = Queued { exit, ..self };
                    if exit is None {
                        next.fails(ProcessError::Unreaped)
                    } else {
                        match self.signal_error {
                            Some(source) => next.fails(ProcessError::GroupSignal(source)),
                            None => next.wait_group(),
                        }
                    }
                },
                QueuedEvent::WaitFailed(source) => self.fails(ProcessError::Wait(source)),
                _ => self,
            },
            QueuedStep::WaitGroup => match event {
                QueuedEvent::GroupGone(gone) => if gone {
                    Queued { group_gone: true, ..self }.begin_drain(elapsed)
                } else {
                    self.fails(ProcessError::GroupUnreaped)
                },
                QueuedEvent::GroupFailed(source) => self.fails(ProcessError::GroupWait(source)),
                _ => self,
            },
            QueuedStep::Drain(_) => if Queued::from_queue(event) {
                self.taken(event).drain(elapsed)
            } else {
                self
            },
            QueuedStep::Finished => self,
            QueuedStep::Failed => self,
        }
    }
}

/// A run that was just started.
pub open spec fn queued_start(limits: ProcessLimits) -> Queued {
    Queued {
        limits,
        capture: fresh_capture(),
        exit: None,
        step: QueuedStep::Poll(CAPTURE_QUEUE_DEPTH),
        failure: None,
        duration: None,
        signal_error: None,
        drain_until: Duration { nanos: 0 },
        group_gone: false,
        error: None,
    }
}

impl QueuedRun {
    /// A run of a tool under the limits.
    pub fn new(limits: ProcessLimits) -> (r: QueuedRun)
        ensures
            r@ == queued_start(limits),
            r@.wf(),
    {
        QueuedRun {
            limits,
            capture: CaptureState::new(&limits),
            exit: None,
            step: QueuedStep::Poll(CAPTURE_QUEUE_DEPTH),
            failure: None,
            duration: None,
            signal_error: None,
            drain_until: Duration { nanos: 0 },
            group_gone: false,
            error: None,
        }
    }

    fn is_captured(&self) -> (r: bool)
        ensures
            r == self@.captured(),
    {
        self.capture.stdout_done && self.capture.stderr_done
    }

    fn fail(&mut self, error: ProcessError)
        ensures
            final(self)@ == old(self)@.fails(error),
    {
        self.step = QueuedStep::Failed;
        self.error = Some(error);
    }

    fn stop(&mut self, failure: Option<IncompleteReason>, duration: Duration)
        ensures
            final(self)@ == old(self)@.stop(failure, duration),
    {
        self.failure = failure;
        self.duration = Some(duration);
        self.step = QueuedStep::Signal;
    }

    fn judge(&mut self, elapsed: Duration)
        ensures
            final(self)@ == old(self)@.judge(elapsed),
    {
        let timeout: Duration = self.limits.timeout;
        if self.capture.failure.is_some() {
            self.stop(self.capture.failure, elapsed.min(timeout));
        } else if self.exit.is_some() && self.is_captured() {
            self.stop(None, elapsed.min(timeout));
        } else if elapsed.nanos >= timeout.nanos {
            self.stop(Some(IncompleteReason::Timeout), timeout);
        } else {
            let wait: Duration = timeout.saturating_sub(elapsed).min(Duration { nanos: POLL_NANOS });
            self.step = if self.exit.is_none() {
                QueuedStep::Wait(wait)
            } else {
                QueuedStep::Receive(wait)
            };
        }
    }

    fn drain(&mut self, elapsed: Duration)
        ensures
            final(self)@ == old(self)@.drain(elapsed),
    {
        if self.is_captured() {
            self.step = QueuedStep::Finished;
        } else {
            let left: Duration = self.drain_until.saturating_sub(elapsed);
            if left.nanos == 0 {
                self.fail(ProcessError::CaptureDrainTimeout);
            } else {
                self.step = QueuedStep::Drain(left.min(Duration { nanos: POLL_NANOS }));
            }
        }
    }

    fn begin_drain(&mut self, elapsed: Duration)
        ensures
            final(self)@ == old(self)@.begin_drain(elapsed),
    {
        self.drain_until = Duration { nanos: elapsed.nanos.saturating_add(TERMINATION_GRACE_NANOS) };
        self.drain(elapsed);
    }

    fn take(&mut self, event: QueuedEvent)
        ensures
            final(self)@ == old(self)@.taken(event),
    {
        match event {
            QueuedEvent::Received(stream, read) => {
                let _ = self.capture.drain_output(stream, read, &self.limits);
            },
            QueuedEvent::Disconnected => {
                self.capture.mark_disconnected();
            },
            _ => {},
        }
    }

    fn is_from_queue(event: &QueuedEvent) -> (r: bool)
        ensures
            r == Queued::from_queue(*event),
    {
        match event {
            QueuedEvent::Received(_, _) => true,
            QueuedEvent::Empty => true,
            QueuedEvent::Disconnected => true,
            _ => false,
        }
    }

    /// Takes in what came of the last step, `elapsed` after the start.
    pub fn advance(&mut self, event: QueuedEvent, elapsed: Duration)
        requires
            old(self)@.wf(),
        ensures
            final(self)@ == old(self)@.after(event, elapsed),
            final(self)@.wf(),
    {
        proof {
            law_queued_run_stays_bounded(self@, event, elapsed);
        }
        match self.step {
            QueuedStep::Poll(left) => {
                if QueuedRun::is_from_queue(&event) {
                    let received: bool = match &event {
                        QueuedEvent::Received(_, _) => true,
                        _ => false,
                    };
                    self.take(event);
                    if received && left > 1 {
                        self.step = QueuedStep::Poll(left - 1);
                    } else {
                        self.judge(elapsed);
                    }
                }
            },
            QueuedStep::Wait(_) => match event {
                QueuedEvent::Exited(exit) => {
                    self.exit = exit;
                    self.step = QueuedStep::Poll(CAPTURE_QUEUE_DEPTH);
                },
                QueuedEvent::WaitFailed(source) => self.fail(ProcessError::Wait(source)),
                _ => {},
            },
            QueuedStep::Receive(_) => {
                if QueuedRun::is_from_queue(&event) {
                    self.take(event);
                    self.step = QueuedStep::Poll(CAPTURE_QUEUE_DEPTH);
                }
            },
            QueuedStep::Signal => match event {
                QueuedEvent::Signalled => {
                    self.step = if self.exit.is_none() {
                        QueuedStep::TryReap
                    } else {
                        QueuedStep::WaitGroup
                    };
                },
                QueuedEvent::SignalFailed(source) => {
                    if self.exit.is_none() {
                        self.signal_error = Some(source);
                        self.step = QueuedStep::TryReap;
                    } else {
                        self.step = QueuedStep::WaitGroup;
                    }
                },
                _ => {},
            },
            QueuedStep::TryReap => match event {
                QueuedEvent::Exited(exit) => {
                    self.exit = exit;
                    if exit.is_some() {
                        self.step = QueuedStep::WaitGroup;
                    } else if self.signal_error.is_some() {
                        self.step = QueuedStep::Kill;
                    } else {
                        self.step = QueuedStep::Reap;
                    }
                },
                QueuedEvent::WaitFailed(source) => self.fail(ProcessError::Wait(source)),
                _ => {},
            },
            QueuedStep::Kill => match event {
                QueuedEvent::Killed => {
                    self.step = QueuedStep::Reap;
                },
                QueuedEvent::KillFailed(source) => self.fail(ProcessError::Wait(source)),
                _ => {},
            },
            QueuedStep::Reap => match event {
                QueuedEvent::Exited(exit) => {
                    self.exit = exit;
                    if exit.is_none() {
                        self.fail(ProcessError::Unreaped);
                    } else {
                        match &self.signal_error {
                            Some(source) => {
                                let source: IoFailure = IoFailure {
                                    kind: source.kind,
                                    message: source.message.clone(),
                                };
                                self.fail(ProcessError::GroupSignal(source));
                            },
                            None => {
                                self.step = QueuedStep::WaitGroup;
                            },
                        }
                    }
                },
                QueuedEvent::WaitFailed(source) => self.fail(ProcessError::Wait(source)),
                _ => {},
            },
            QueuedStep::WaitGroup => match event {
                QueuedEvent::GroupGone(gone) => {
                    if gone {
                        self.group_gone = true;
                        self.begin_drain(elapsed);
                    } else {
                        self.fail(ProcessError::GroupUnreaped);
                    }
                },
                QueuedEvent::GroupFailed(source) => self.fail(ProcessError::GroupWait(source)),
                _ => {},
            },
            QueuedStep::Drain(_) => {
                if QueuedRun::is_from_queue(&event) {
                    self.take(event);
                    self.drain(elapsed);
                }
            },
            QueuedStep::Finished => {},
            QueuedStep::Failed => {},
        }
    }

    /// Reports the run, once it is over; `cleanup` is the time since the tool was stopped.
    pub fn finish(self, cleanup: Duration) -> (r: Result<ProcessOutcome, ProcessError>)
        requires
            self@.wf(),
            self.step == QueuedStep::Finished || self.step == QueuedStep::Failed,
        ensures
            match self@.error {
                Some(error) => r == Err::<ProcessOutcome, ProcessError>(error),
                None => r matches Ok(outcome) && {
                    &&& outcome.state == final_state(self@.failure, self@.exit)
                    &&& outcome.exit_code == final_code(self@.failure, self@.exit)
                    &&& outcome.stdout@ == self@.capture.stdout
                    &&& outcome.stderr@ == self@.capture.stderr
                    &&& self@.duration == Some(outcome.duration)
                    &&& outcome.cleanup_duration == cleanup
                },
            },
    {
        if let Some(error) = self.error {
            return Err(error);
        }
        let (state, exit_code) = completion(self.failure, self.exit);
        let duration: Duration = match self.duration {
            Some(d) => d,
            None => Duration { nanos: 0 },
        };
        Ok(
            ProcessOutcome {
                state,
                exit_code,
                stdout: self.capture.stdout,
                stderr: self.capture.stderr,
                duration,
                cleanup_duration: cleanup,
            },
        )
    }
}

/// Whatever happens, no more than the limits is kept, no run takes longer than its timeout by its
/// own account, and a run is over only when its child was reaped, nothing of its process group was
/// left and all its output was read.
pub proof fn law_queued_run_stays_bounded(run: Queued, event: QueuedEvent, elapsed: Duration)
    requires
        run.wf(),
    ensures
        run.after(event, elapsed).wf(),
{
}

/// The reason for which a run was stopped stays the reason that is reported, and a run that its tool
/// ended stays one.
pub proof fn law_stop_reason_is_kept(run: Queued, event: QueuedEvent, elapsed: Duration)
    requires
        run.wf(),
        !(run.step is Poll || run.step is Wait || run.step is Receive),
    ensures
        run.after(event, elapsed).failure == run.failure,
        run.after(event, elapsed).duration == run.duration,
{
}

} // verus!
