//! Suppression Gate: a single "ignore clipboard changes until timestamp T"
//! value, armed by the replay path whenever the engine writes the OS
//! clipboard on its own behalf, and read by the monitor on every poll tick.

use vstd::prelude::*;

verus! {

/// How long (milliseconds) the monitor ignores clipboard changes after the
/// engine's own clipboard write.
pub const SUPPRESS_WINDOW_MS: u64 = 1200;

/// Sum of two timestamps, saturating at the top of the range instead of
/// wrapping.
pub open spec fn saturated_sum(a: u64, b: u64) -> u64 {
    if a + b <= u64::MAX {
        (a + b) as u64
    } else {
        u64::MAX
    }
}

/// Shared "suppressed until" timestamp (wall-clock milliseconds).
pub struct SuppressionGate {
    /// Clipboard changes observed strictly before this instant are ignored.
    pub suppressed_until_ms: u64,
}

/// A change observed at `now_ms` falls inside the suppression window.
pub open spec fn suppressed_at(gate: SuppressionGate, now_ms: u64) -> bool {
    now_ms < gate.suppressed_until_ms
}

impl SuppressionGate {
    /// A gate that suppresses nothing.
    pub fn new() -> (gate: Self)
        ensures
            gate.suppressed_until_ms == 0,
    {
        SuppressionGate { suppressed_until_ms: 0 }
    }

    /// Arms suppression: changes seen during the next `duration_ms`
    /// milliseconds are to be ignored.
    pub fn arm(&mut self, now_ms: u64, duration_ms: u64)
        ensures
            final(self).suppressed_until_ms == saturated_sum(now_ms, duration_ms),
    {
        self.suppressed_until_ms = saturating_add_u64(now_ms, duration_ms);
    }

    /// True iff a change observed at `now_ms` falls inside the window of a
    /// previous arming and must be ignored by the monitor.
    pub fn is_suppressed(&self, now_ms: u64) -> (suppressed: bool)
        ensures
            suppressed == suppressed_at(*self, now_ms),
    {
        now_ms < self.suppressed_until_ms
    }
}

fn saturating_add_u64(a: u64, b: u64) -> (sum: u64)
    ensures
        sum == saturated_sum(a, b),
{
    if a <= u64::MAX - b {
        a + b
    } else {
        u64::MAX
    }
}

/// Arming suppresses the whole window: a Suppression Gate armed at `arm_ms`
/// reports every instant of the following suppression window as
/// suppressed, as long as the window does not overflow the timestamp
/// range.
pub proof fn lemma_armed_window_suppresses(gate: SuppressionGate, arm_ms: u64, now_ms: u64)
    requires
        gate.suppressed_until_ms == saturated_sum(arm_ms, SUPPRESS_WINDOW_MS),
        arm_ms + SUPPRESS_WINDOW_MS <= u64::MAX,
        arm_ms <= now_ms,
        (now_ms as int) < arm_ms + SUPPRESS_WINDOW_MS,
    ensures
        suppressed_at(gate, now_ms),
{
}

} // verus!
