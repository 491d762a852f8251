//! Resource limits of one child process.
use super::error::ProcessError;
use crate::time::Duration;
use vstd::prelude::*;

verus! {

/// Resource limits for one direct child invocation.
#[derive(Clone, Copy, Debug, PartialEq, Eq, Structural)]
pub struct ProcessLimits {
    pub timeout: Duration,
    pub max_stdout_bytes: usize,
    pub max_stderr_bytes: usize,
}

/// The limits that a request states.
#[derive(Clone, Copy, Debug, PartialEq, Eq, Structural)]
pub struct RequestLimits {
    pub timeout_ms: u64,
    pub max_stdout_bytes: u64,
    pub max_stderr_bytes: u64,
    pub max_events: u64,
    pub max_evidence_bytes: u64,
}

impl ProcessLimits {
    pub const DEFAULT_TIMEOUT_NANOS: u128 = 600_000_000_000;

    pub const DEFAULT_STDOUT_BYTES: usize = 16 * 1024 * 1024;

    pub const DEFAULT_STDERR_BYTES: usize = 4 * 1024 * 1024;

    /// Ten minutes.
    pub fn default_timeout() -> (r: Duration)
        ensures
            r.nanos == Self::DEFAULT_TIMEOUT_NANOS,
    {
        Duration { nanos: Self::DEFAULT_TIMEOUT_NANOS }
    }

    /// A positive whole number of milliseconds.
    pub open spec fn whole_millis(self) -> bool {
        self.timeout.nanos >= 1_000_000 && self.timeout.nanos % 1_000_000 == 0
    }

    /// Limits that the protocol allows.
    pub open spec fn valid(self) -> bool {
        &&& self.whole_millis()
        &&& self.timeout.nanos <= Self::DEFAULT_TIMEOUT_NANOS
        &&& self.max_stdout_bytes <= Self::DEFAULT_STDOUT_BYTES
        &&& self.max_stderr_bytes <= Self::DEFAULT_STDERR_BYTES
    }

    /// Why limits are rejected; the first reason counts.
    pub open spec fn rejection(self) -> Option<&'static str> {
        if !self.whole_millis() {
            Some("timeout must be a positive whole number of milliseconds")
        } else if self.timeout.nanos > Self::DEFAULT_TIMEOUT_NANOS {
            Some("timeout exceeds the protocol-v1 ceiling")
        } else if self.max_stdout_bytes > Self::DEFAULT_STDOUT_BYTES {
            Some("max_stdout_bytes exceeds the protocol-v1 ceiling")
        } else if self.max_stderr_bytes > Self::DEFAULT_STDERR_BYTES {
            Some("max_stderr_bytes exceeds the protocol-v1 ceiling")
        } else {
            None
        }
    }

    /// Rejects limits that cannot provide a meaningful execution: a timeout that is no positive
    /// whole number of milliseconds, and whatever is above the protocol's ceiling.
    pub fn validate(self) -> (r: Result<ProcessLimits, ProcessError>)
        ensures
            match r {
                Ok(limits) => limits == self && self.valid(),
                Err(e) => !self.valid() && e == ProcessError::InvalidLimits(self.rejection()->0),
            },
    {
        if self.timeout.nanos < 1_000_000 || self.timeout.nanos % 1_000_000 != 0 {
            return Err(ProcessError::InvalidLimits("timeout must be a positive whole number of milliseconds"));
        }
        if self.timeout.nanos > Self::DEFAULT_TIMEOUT_NANOS {
            return Err(ProcessError::InvalidLimits("timeout exceeds the protocol-v1 ceiling"));
        }
        if self.max_stdout_bytes > Self::DEFAULT_STDOUT_BYTES {
            return Err(ProcessError::InvalidLimits("max_stdout_bytes exceeds the protocol-v1 ceiling"));
        }
        if self.max_stderr_bytes > Self::DEFAULT_STDERR_BYTES {
            return Err(ProcessError::InvalidLimits("max_stderr_bytes exceeds the protocol-v1 ceiling"));
        }
        Ok(self)
    }
}

/// Why the limits of a request cannot be taken over; the first reason counts.
pub open spec fn request_rejection(request: RequestLimits) -> Option<&'static str> {
    let limits = request_limits(request);
    if request.max_stdout_bytes > usize::MAX {
        Some("max_stdout_bytes exceeds usize")
    } else if request.max_stderr_bytes > usize::MAX {
        Some("max_stderr_bytes exceeds usize")
    } else {
        limits.rejection()
    }
}

/// The limits of a request, where they can be taken over.
pub open spec fn request_limits(request: RequestLimits) -> ProcessLimits {
    ProcessLimits {
        timeout: Duration { nanos: (request.timeout_ms * 1_000_000) as u128 },
        max_stdout_bytes: request.max_stdout_bytes as usize,
        max_stderr_bytes: request.max_stderr_bytes as usize,
    }
}

impl ProcessLimits {
    /// Takes over the limits of a request.
    pub fn from_request(request: &RequestLimits) -> (r: Result<ProcessLimits, ProcessError>)
        ensures
            match r {
                Ok(limits) => request_rejection(*request) is None && limits == request_limits(*request) && limits.valid(),
                Err(e) => request_rejection(*request) matches Some(why) && e == ProcessError::InvalidLimits(why),
            },
    {
        if request.max_stdout_bytes > usize::MAX as u64 {
            return Err(ProcessError::InvalidLimits("max_stdout_bytes exceeds usize"));
        }
        if request.max_stderr_bytes > usize::MAX as u64 {
            return Err(ProcessError::InvalidLimits("max_stderr_bytes exceeds usize"));
        }
        let limits = ProcessLimits {
            timeout: Duration::from_millis(request.timeout_ms),
            max_stdout_bytes: request.max_stdout_bytes as usize,
            max_stderr_bytes: request.max_stderr_bytes as usize,
        };
        limits.validate()
    }
}

impl Default for ProcessLimits {
    fn default() -> (r: ProcessLimits)
        ensures
            r.timeout.nanos == ProcessLimits::DEFAULT_TIMEOUT_NANOS,
            r.max_stdout_bytes == ProcessLimits::DEFAULT_STDOUT_BYTES,
            r.max_stderr_bytes == ProcessLimits::DEFAULT_STDERR_BYTES,
            r.valid(),
    {
        ProcessLimits {
            timeout: ProcessLimits::default_timeout(),
            max_stdout_bytes: ProcessLimits::DEFAULT_STDOUT_BYTES,
            max_stderr_bytes: ProcessLimits::DEFAULT_STDERR_BYTES,
        }
    }
}

} // verus!
