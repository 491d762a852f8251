//! Failures of a child process, in words.
use super::error::ProcessError;
use crate::text::{chars_of, push_text, string_of};
use vstd::prelude::*;

verus! {

/// Who tells of a failure.
#[derive(Clone, Copy, Debug, PartialEq, Eq, Structural)]
pub enum Teller {
    /// The runtime, which runs providers.
    Runtime,
    /// The provider that runs Ruff.
    Ruff,
    /// The provider that runs Cargo.
    Cargo,
}

/// What is said of the failure. `shown` is how the path in it is displayed, or how the failures of a
/// combined one are listed.
pub open spec fn failure_words(error: ProcessError, who: Teller, shown: Seq<char>) -> Seq<char> {
    match error {
        ProcessError::UnsupportedPlatform => match who {
            Teller::Cargo => "bounded Cargo process-group execution is unsupported on this platform"@,
            _ => "bounded process-group execution is unsupported on this platform"@,
        },
        ProcessError::InvalidSpec(why) => "invalid process specification: "@ + why@,
        ProcessError::InvalidLimits(why) => "invalid process limits: "@ + why@,
        ProcessError::InvalidCurrentDirectory { .. } => "current directory is not a directory: "@ + shown,
        ProcessError::Spawn { source, .. } => match who {
            Teller::Cargo => "failed to spawn Cargo: "@ + source.message@,
            _ => "failed to spawn "@ + shown + ": "@ + source.message@,
        },
        ProcessError::MissingPipe { stream } => match who {
            Teller::Cargo => "spawned Cargo process did not expose "@ + stream@,
            _ => "spawned child did not expose its "@ + stream@ + " pipe"@,
        },
        ProcessError::PipeConfiguration { stream, source } => match who {
            Teller::Cargo => "failed to configure the Cargo "@ + stream@ + " capture pipe: "@ + source.message@,
            _ => "failed to configure the "@ + stream@ + " pipe as nonblocking: "@ + source.message@,
        },
        ProcessError::CaptureSpawn { stream, source } => match who {
            Teller::Cargo => "failed to spawn the Cargo "@ + stream@ + " capture worker: "@ + source.message@,
            _ => "failed to spawn the "@ + stream@ + " capture worker: "@ + source.message@,
        },
        ProcessError::Capture { stream, source } => match who {
            Teller::Cargo => "failed to capture Cargo "@ + stream@ + ": "@ + source.message@,
            _ => "failed to capture "@ + stream@ + ": "@ + source.message@,
        },
        ProcessError::CapturePanic(stream) => match who {
            Teller::Cargo => "Cargo "@ + stream@ + " capture thread panicked"@,
            _ => stream@ + " capture thread panicked"@,
        },
        ProcessError::BudgetExhausted => match who {
            Teller::Cargo => "Cargo request budget was exhausted before the next process step"@,
            _ => "request budget was exhausted before the next process step"@,
        },
        ProcessError::Wait(source) => match who {
            Teller::Cargo => "failed while waiting for Cargo: "@ + source.message@,
            _ => "failed while waiting for child: "@ + source.message@,
        },
        ProcessError::GroupSignal(source) => match who {
            Teller::Cargo => "failed to signal the Cargo process group: "@ + source.message@,
            Teller::Ruff => "failed to terminate the child process group: "@ + source.message@,
            _ => "failed to signal the child process group: "@ + source.message@,
        },
        ProcessError::GroupWait(source) => match who {
            Teller::Cargo => "failed while waiting for the Cargo process group: "@ + source.message@,
            _ => "failed while waiting for the child process group: "@ + source.message@,
        },
        ProcessError::GroupUnreaped => match who {
            Teller::Cargo => "Cargo process group remained live after termination"@,
            _ => "child process group remained live after termination"@,
        },
        ProcessError::LeaderSignal(source) => match who {
            Teller::Cargo => "failed to terminate the Cargo group leader directly: "@ + source.message@,
            _ => "failed to terminate the group leader directly: "@ + source.message@,
        },
        ProcessError::Reap(source) => match who {
            Teller::Cargo => "failed while reaping the Cargo group leader: "@ + source.message@,
            _ => "failed while reaping the group leader: "@ + source.message@,
        },
        ProcessError::Unreaped => match who {
            Teller::Cargo => "Cargo child could not be reaped after termination"@,
            _ => "child could not be reaped after termination"@,
        },
        ProcessError::CaptureDrainTimeout => match who {
            Teller::Cargo => "Cargo capture pipes remained open after process termination"@,
            _ => "capture pipes remained open after process termination"@,
        },
        ProcessError::MultipleFailures { .. } => match who {
            Teller::Cargo => "multiple Cargo process failures: "@ + shown,
            _ => "multiple process failures: "@ + shown,
        },
    }
}

fn two_texts(a: &str, b: &str) -> (r: String)
    ensures
        r@ == a@ + b@,
{
    let mut out: Vec<char> = chars_of(a);
    push_text(&mut out, b);
    string_of(out.as_slice())
}

fn three_texts(a: &str, b: &str, c: &str) -> (r: String)
    ensures
        r@ == a@ + b@ + c@,
{
    let mut out: Vec<char> = chars_of(a);
    push_text(&mut out, b);
    push_text(&mut out, c);
    string_of(out.as_slice())
}

fn four_texts(a: &str, b: &str, c: &str, d: &str) -> (r: String)
    ensures
        r@ == a@ + b@ + c@ + d@,
{
    let mut out: Vec<char> = chars_of(a);
    push_text(&mut out, b);
    push_text(&mut out, c);
    push_text(&mut out, d);
    string_of(out.as_slice())
}

impl ProcessError {
    /// The failure in words. `shown` is how the path in it is displayed, or how the failures of a
    /// combined one are listed; it does not count for the others.
    pub fn message(&self, who: Teller, shown: &str) -> (r: String)
        ensures
            r@ == failure_words(*self, who, shown@),
    {
        match self {
            ProcessError::UnsupportedPlatform => match who {
                Teller::Cargo => "bounded Cargo process-group execution is unsupported on this platform".to_owned(),
                _ => "bounded process-group execution is unsupported on this platform".to_owned(),
            },
            ProcessError::InvalidSpec(why) => two_texts("invalid process specification: ", why),
            ProcessError::InvalidLimits(why) => two_texts("invalid process limits: ", why),
            ProcessError::InvalidCurrentDirectory { .. } => two_texts("current directory is not a directory: ", shown),
            ProcessError::Spawn { source, .. } => match who {
                Teller::Cargo => two_texts("failed to spawn Cargo: ", source.message.as_str()),
                _ => four_texts("failed to spawn ", shown, ": ", source.message.as_str()),
            },
            ProcessError::MissingPipe { stream } => match who {
                Teller::Cargo => two_texts("spawned Cargo process did not expose ", stream),
                _ => three_texts("spawned child did not expose its ", stream, " pipe"),
            },
            ProcessError::PipeConfiguration { stream, source } => match who {
                Teller::Cargo => four_texts("failed to configure the Cargo ", stream, " capture pipe: ", source.message.as_str()),
                _ => four_texts("failed to configure the ", stream, " pipe as nonblocking: ", source.message.as_str()),
            },
            ProcessError::CaptureSpawn { stream, source } => match who {
                Teller::Cargo => four_texts("failed to spawn the Cargo ", stream, " capture worker: ", source.message.as_str()),
                _ => four_texts("failed to spawn the ", stream, " capture worker: ", source.message.as_str()),
            },
            ProcessError::Capture { stream, source } => match who {
                Teller::Cargo => four_texts("failed to capture Cargo ", stream, ": ", source.message.as_str()),
                _ => four_texts("failed to capture ", stream, ": ", source.message.as_str()),
            },
            ProcessError::CapturePanic(stream) => match who {
                Teller::Cargo => three_texts("Cargo ", stream, " capture thread panicked"),
                _ => two_texts(stream, " capture thread panicked"),
            },
            ProcessError::BudgetExhausted => match who {
                Teller::Cargo => "Cargo request budget was exhausted before the next process step".to_owned(),
                _ => "request budget was exhausted before the next process step".to_owned(),
            },
            ProcessError::Wait(source) => match who {
                Teller::Cargo => two_texts("failed while waiting for Cargo: ", source.message.as_str()),
                _ => two_texts("failed while waiting for child: ", source.message.as_str()),
            },
            ProcessError::GroupSignal(source) => match who {
                Teller::Cargo => two_texts("failed to signal the Cargo process group: ", source.message.as_str()),
                Teller::Ruff => two_texts("failed to terminate the child process group: ", source.message.as_str()),
                _ => two_texts("failed to signal the child process group: ", source.message.as_str()),
            },
            ProcessError::GroupWait(source) => match who {
                Teller::Cargo => two_texts("failed while waiting for the Cargo process group: ", source.message.as_str()),
                _ => two_texts("failed while waiting for the child process group: ", source.message.as_str()),
            },
            ProcessError::GroupUnreaped => match who {
                Teller::Cargo => "Cargo process group remained live after termination".to_owned(),
                _ => "child process group remained live after termination".to_owned(),
            },
            ProcessError::LeaderSignal(source) => match who {
                Teller::Cargo => two_texts("failed to terminate the Cargo group leader directly: ", source.message.as_str()),
                _ => two_texts("failed to terminate the group leader directly: ", source.message.as_str()),
            },
            ProcessError::Reap(source) => match who {
                Teller::Cargo => two_texts("failed while reaping the Cargo group leader: ", source.message.as_str()),
                _ => two_texts("failed while reaping the group leader: ", source.message.as_str()),
            },
            ProcessError::Unreaped => match who {
                Teller::Cargo => "Cargo child could not be reaped after termination".to_owned(),
                _ => "child could not be reaped after termination".to_owned(),
            },
            ProcessError::CaptureDrainTimeout => match who {
                Teller::Cargo => "Cargo capture pipes remained open after process termination".to_owned(),
                _ => "capture pipes remained open after process termination".to_owned(),
            },
            ProcessError::MultipleFailures { .. } => match who {
                Teller::Cargo => two_texts("multiple Cargo process failures: ", shown),
                _ => two_texts("multiple process failures: ", shown),
            },
        }
    }
}

} // verus!
