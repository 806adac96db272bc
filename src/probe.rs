//! Decisions of the readiness probe, which learns that a starting worker
//! accepts connections by dialing its port until a connection succeeds.
use vstd::prelude::*;

verus! {

/// Overall time a worker has to start accepting connections.
pub const PROBE_DEADLINE_MS: u64 = 5000;

/// Pause after the first refused connection.
pub const PROBE_FIRST_BACKOFF_MS: u64 = 1;

/// Longest pause between two attempts.
pub const PROBE_MAX_BACKOFF_MS: u64 = 50;

/// What one connection attempt gave.
#[derive(Clone, Copy, Debug, PartialEq, Eq, Structural)]
pub enum ConnectOutcome {
    Connected,
    /// Nothing listens yet.
    Refused,
    /// Any other error.
    Failed,
}

/// What the probe does next.
#[derive(Clone, Copy, Debug, PartialEq, Eq, Structural)]
pub enum ProbeAction {
    /// The worker accepts connections.
    Ready,
    /// Dial again after this many milliseconds.
    RetryAfter(u64),
    /// The worker failed to start, or did not start in time.
    GiveUp,
}

/// The probe of one starting worker: the pause after the next refusal.
#[derive(Clone, Copy, Debug, PartialEq, Eq, Structural)]
pub struct Probe {
    pub backoff_ms: u64,
}

pub open spec fn min_u64(a: u64, b: u64) -> u64 {
    if a <= b {
        a
    } else {
        b
    }
}

/// One step of the probe: with pause `backoff` pending, after an attempt
/// that gave `outcome` when `elapsed_ms` had passed since the probe began,
/// the next pause and the action. A refusal doubles the pause, up to the
/// cap, and no pause runs past the deadline.
pub open spec fn probe_next(backoff: u64, outcome: ConnectOutcome, elapsed_ms: u64) -> (u64, ProbeAction) {
    match outcome {
        ConnectOutcome::Connected => (backoff, ProbeAction::Ready),
        ConnectOutcome::Failed => (backoff, ProbeAction::GiveUp),
        ConnectOutcome::Refused => if elapsed_ms >= PROBE_DEADLINE_MS {
            (backoff, ProbeAction::GiveUp)
        } else {
            (
                min_u64((2 * backoff) as u64, PROBE_MAX_BACKOFF_MS),
                ProbeAction::RetryAfter(min_u64(backoff, (PROBE_DEADLINE_MS - elapsed_ms) as u64)),
            )
        },
    }
}

impl Probe {
    pub open spec fn wf(self) -> bool {
        PROBE_FIRST_BACKOFF_MS <= self.backoff_ms <= PROBE_MAX_BACKOFF_MS
    }

    pub fn new() -> (r: Probe)
        ensures
            r.wf(),
            r.backoff_ms == PROBE_FIRST_BACKOFF_MS,
    {
        Probe { backoff_ms: PROBE_FIRST_BACKOFF_MS }
    }

    /// Decides what follows a connection attempt.
    pub fn step(&mut self, outcome: ConnectOutcome, elapsed_ms: u64) -> (r: ProbeAction)
        requires
            old(self).wf(),
        ensures
            final(self).wf(),
            (final(self).backoff_ms, r) == probe_next(old(self).backoff_ms, outcome, elapsed_ms),
            r matches ProbeAction::RetryAfter(d) ==> 1 <= d && elapsed_ms + d <= PROBE_DEADLINE_MS,
    {
        match outcome {
            ConnectOutcome::Connected => ProbeAction::Ready,
            ConnectOutcome::Failed => ProbeAction::GiveUp,
            ConnectOutcome::Refused => {
                if elapsed_ms >= PROBE_DEADLINE_MS {
                    ProbeAction::GiveUp
                } else {
                    let left = PROBE_DEADLINE_MS - elapsed_ms;
                    let pause = if self.backoff_ms <= left {
                        self.backoff_ms
                    } else {
                        left
                    };
                    let doubled = 2 * self.backoff_ms;
                    self.backoff_ms = if doubled <= PROBE_MAX_BACKOFF_MS {
                        doubled
                    } else {
                        PROBE_MAX_BACKOFF_MS
                    };
                    ProbeAction::RetryAfter(pause)
                }
            },
        }
    }
}

} // verus!
