//! The session clock: a fixed duration, a state derived from elapsed time,
//! and validation of the configuration the enforcement loop is built from.

use vstd::prelude::*;

verus! {

/// The two states of a focus session. `Expired` is terminal: once reached,
/// no further sampling or termination may occur.
#[derive(Clone, Copy, Debug, PartialEq, Eq, Structural)]
pub enum SessionState {
    Running,
    Expired,
}

/// A configuration rejected at construction time, before the loop starts.
#[derive(Clone, Copy, Debug, PartialEq, Eq, Structural)]
pub enum ConfigError {
    ZeroDuration,
    ZeroTickInterval,
}

/// The session is expired exactly when the elapsed time has reached the
/// configured duration; the boundary instant itself is expired.
pub open spec fn spec_session_state(elapsed_ms: u64, duration_ms: u64) -> SessionState {
    if elapsed_ms >= duration_ms {
        SessionState::Expired
    } else {
        SessionState::Running
    }
}

/// Once the elapsed time reaches the duration, the session is `Expired`,
/// so a loop that samples and terminates only while `Running` performs
/// neither past the session boundary.
pub proof fn lemma_session_boundary(elapsed_ms: u64, duration_ms: u64)
    requires
        elapsed_ms >= duration_ms,
    ensures
        spec_session_state(elapsed_ms, duration_ms) == SessionState::Expired,
{
}

/// What the enforcement loop is built from: the session duration and the
/// fixed inter-tick sleep, both in milliseconds and both positive.
#[derive(Clone, Copy, Debug, PartialEq, Eq, Structural)]
pub struct SessionConfig {
    pub duration_ms: u64,
    pub tick_ms: u64,
}

impl SessionConfig {
    /// A configuration is well formed when both intervals are positive.
    pub open spec fn wf(self) -> bool {
        self.duration_ms > 0 && self.tick_ms > 0
    }

    /// Validates the configuration before any loop starts: a zero duration
    /// or a zero tick interval is rejected, anything else is accepted
    /// unchanged.
    pub fn new(duration_ms: u64, tick_ms: u64) -> (r: Result<SessionConfig, ConfigError>)
        ensures
            r is Ok <==> duration_ms > 0 && tick_ms > 0,
            r matches Ok(c) ==> c.duration_ms == duration_ms && c.tick_ms == tick_ms && c.wf(),
            r == Err::<SessionConfig, ConfigError>(ConfigError::ZeroDuration) <==> duration_ms
                == 0,
            r == Err::<SessionConfig, ConfigError>(ConfigError::ZeroTickInterval) <==> (duration_ms
                > 0 && tick_ms == 0),
    {
        if duration_ms == 0 {
            Err(ConfigError::ZeroDuration)
        } else if tick_ms == 0 {
            Err(ConfigError::ZeroTickInterval)
        } else {
            Ok(SessionConfig { duration_ms, tick_ms })
        }
    }

    /// The state of the session after `elapsed_ms` milliseconds: checked
    /// once per tick, strictly before any sampling or enforcement.
    pub fn state(&self, elapsed_ms: u64) -> (s: SessionState)
        ensures
            s == spec_session_state(elapsed_ms, self.duration_ms),
    {
        if elapsed_ms >= self.duration_ms {
            SessionState::Expired
        } else {
            SessionState::Running
        }
    }
}

} // verus!
