//! Relay policy: the idle-timeout and bandwidth contract for one relay, and
//! the pure decisions the relay loop takes from it. The loop itself (socket
//! reads and writes, timers) runs outside the library and feeds these
//! functions clock readings and byte counts; every verdict here is a pure
//! function of those numbers.

use vstd::arithmetic::div_mod::lemma_fundamental_div_mod;
use vstd::prelude::*;

verus! {

/// Sentinel duration (milliseconds) meaning "no timeout configured".
pub const NO_TIMEOUT_MS: u64 = 300_000;

/// Sentinel rate meaning "no bandwidth limit configured". A rate ceiling at
/// or above this value disables throttling; a rate floor of 0 disables the
/// minimum-rate check.
pub const NO_BANDWIDTH_LIMIT: u64 = 1_000_000_000_000;

/// The sliding window, in milliseconds, over which the minimum sustained
/// rate is measured: one minute, matching the unit of `min_rate_bpm`.
pub const RATE_WINDOW_MS: u64 = 60_000;

/// Terminal outcome of a relay: the peer closed (graceful), the tunnel sat
/// idle past the deadline, or it sustained a rate below the configured floor.
#[derive(Copy, Clone, Debug, PartialEq, Eq, Structural)]
pub enum RelayOutcome {
    Closed,
    TimedOut,
    RateViolation,
}

/// Bandwidth/idle contract for one relay: the maximum inactivity span, a
/// floor on the sustained rate (bytes per minute), and a ceiling on the
/// instantaneous rate (bytes per second). All durations are in milliseconds.
#[derive(Copy, Clone, Debug, PartialEq, Eq, Structural)]
pub struct RelayPolicy {
    pub idle_timeout: u64,
    pub min_rate_bpm: u64,
    pub max_rate_bps: u64,
}

impl RelayPolicy {
    /// A well-formed policy has a positive idle timeout and a positive rate
    /// ceiling (a ceiling of zero could never be met once a byte has moved;
    /// "no ceiling" is the `NO_BANDWIDTH_LIMIT` sentinel instead).
    pub open spec fn wf(&self) -> bool {
        self.idle_timeout > 0 && self.max_rate_bps > 0
    }

    pub fn new(idle_timeout: u64, min_rate_bpm: u64, max_rate_bps: u64) -> (r: RelayPolicy)
        requires
            idle_timeout > 0,
            max_rate_bps > 0,
        ensures
            r == (RelayPolicy { idle_timeout, min_rate_bpm, max_rate_bps }),
            r.wf(),
    {
        RelayPolicy { idle_timeout, min_rate_bpm, max_rate_bps }
    }

    /// Whether a relay whose last successful transfer (on either direction)
    /// happened at `last_activity_ms` has sat idle for the full timeout at
    /// time `now_ms`.
    pub fn is_idle_timed_out(&self, now_ms: u64, last_activity_ms: u64) -> (r: bool)
        requires
            last_activity_ms <= now_ms,
        ensures
            r == (now_ms - last_activity_ms >= self.idle_timeout),
    {
        now_ms - last_activity_ms >= self.idle_timeout
    }

    /// Whether a relay that has moved `total_bytes` over the `elapsed_ms`
    /// since it started is in sustained violation of the minimum rate: the
    /// full measurement window has elapsed (so short-lived connections are
    /// never flagged) and the average rate is below `min_rate_bpm` bytes per
    /// minute. A floor of 0 can never be violated, so 0 disables the check.
    pub fn is_min_rate_violation(&self, total_bytes: u64, elapsed_ms: u64) -> (r: bool)
        ensures
            r == (elapsed_ms >= RATE_WINDOW_MS && (total_bytes as int) * (RATE_WINDOW_MS as int)
                < (self.min_rate_bpm as int) * (elapsed_ms as int)),
    {
        proof {
            assert((total_bytes as int) * (RATE_WINDOW_MS as int) < 0x100000000000000000000000000000000)
                by (nonlinear_arith)
                requires
                    total_bytes <= 0xffffffffffffffffu64,
            ;
            assert((self.min_rate_bpm as int) * (elapsed_ms as int)
                < 0x100000000000000000000000000000000) by (nonlinear_arith)
                requires
                    self.min_rate_bpm <= 0xffffffffffffffffu64,
                    elapsed_ms <= 0xffffffffffffffffu64,
            ;
        }
        elapsed_ms >= RATE_WINDOW_MS && (total_bytes as u128) * (RATE_WINDOW_MS as u128) < (
        self.min_rate_bpm as u128) * (elapsed_ms as u128)
    }

    /// The policy verdict for one tick of the relay loop: terminate with
    /// `TimedOut` when the idle deadline has passed, else with
    /// `RateViolation` when the sustained rate is below the floor, else
    /// continue (`None`). Natural end-of-stream (`Closed`) is observed by
    /// the loop itself, not decided here.
    pub open spec fn spec_verdict(&self, now_ms: int, last_activity_ms: int, total_bytes: int, start_ms: int) -> Option<
        RelayOutcome,
    > {
        if now_ms - last_activity_ms >= self.idle_timeout {
            Some(RelayOutcome::TimedOut)
        } else if now_ms - start_ms >= RATE_WINDOW_MS && total_bytes * (RATE_WINDOW_MS as int)
            < (self.min_rate_bpm as int) * (now_ms - start_ms) {
            Some(RelayOutcome::RateViolation)
        } else {
            None
        }
    }

    pub fn evaluate(&self, now_ms: u64, last_activity_ms: u64, total_bytes: u64, start_ms: u64) -> (r:
        Option<RelayOutcome>)
        requires
            last_activity_ms <= now_ms,
            start_ms <= now_ms,
        ensures
            r == self.spec_verdict(now_ms as int, last_activity_ms as int, total_bytes as int, start_ms as int),
    {
        if self.is_idle_timed_out(now_ms, last_activity_ms) {
            Some(RelayOutcome::TimedOut)
        } else if self.is_min_rate_violation(total_bytes, now_ms - start_ms) {
            Some(RelayOutcome::RateViolation)
        } else {
            None
        }
    }

    /// How long the relay must pause before its next write so that the rate
    /// observed over the recent window (which has seen `window_bytes` bytes
    /// in `window_elapsed_ms`) comes back under `max_rate_bps` bytes per
    /// second: the smallest delay after which the window rate is within the
    /// ceiling. A throttle, not a failure. A ceiling at or above
    /// `NO_BANDWIDTH_LIMIT` disables throttling entirely.
    pub fn throttle_delay_ms(&self, window_bytes: u64, window_elapsed_ms: u64) -> (r: u64)
        requires
            self.max_rate_bps > 0,
            window_bytes <= NO_BANDWIDTH_LIMIT,
        ensures
            self.max_rate_bps >= NO_BANDWIDTH_LIMIT ==> r == 0,
            self.max_rate_bps < NO_BANDWIDTH_LIMIT ==> {
                &&& (window_bytes as int) * 1000 <= (self.max_rate_bps as int) * (
                window_elapsed_ms as int + r as int)
                &&& (r == 0 || (window_bytes as int) * 1000 > (self.max_rate_bps as int) * (
                window_elapsed_ms as int + r as int - 1))
            },
    {
        if self.max_rate_bps >= NO_BANDWIDTH_LIMIT {
            return 0;
        }
        let max_rate: u128 = self.max_rate_bps as u128;
        let scaled: u128 = (window_bytes as u128) * 1000;
        let elapsed: u128 = window_elapsed_ms as u128;
        // The smallest millisecond count t with max_rate * t >= scaled is
        // the ceiling of scaled / max_rate; wait out the part of it that has
        // not already elapsed.
        let needed: u128 = (scaled + max_rate - 1) / max_rate;
        proof {
            let x = scaled as int + max_rate as int - 1;
            let m = max_rate as int;
            let q = needed as int;
            let rem = x % m;
            lemma_fundamental_div_mod(x, m);
            vstd::arithmetic::div_mod::lemma_mod_bound(x, m);
            assert(q == x / m);
            assert(x == m * q + rem);
            assert(q * m == m * q) by (nonlinear_arith);
            assert(q * m >= scaled as int);
            assert((q - 1) * m == q * m - m) by (nonlinear_arith);
            assert((q - 1) * m < scaled as int);
        }
        if elapsed >= needed {
            proof {
                assert((max_rate as int) * (elapsed as int) >= (needed as int) * (max_rate as int))
                    by (nonlinear_arith)
                    requires
                        elapsed >= needed,
                        max_rate >= 1,
                ;
            }
            return 0;
        }
        let delay: u128 = needed - elapsed;
        proof {
            assert(needed <= scaled) by (nonlinear_arith)
                requires
                    (needed as int - 1) * (max_rate as int) < scaled as int,
                    max_rate >= 1,
                    needed >= 1,
            ;
            assert((window_bytes as int) * 1000 <= (self.max_rate_bps as int) * (
            window_elapsed_ms as int + delay as int)) by (nonlinear_arith)
                requires
                    (needed as int) * (max_rate as int) >= scaled as int,
                    delay == needed - elapsed,
                    scaled == (window_bytes as int) * 1000,
                    max_rate == self.max_rate_bps,
                    elapsed == window_elapsed_ms,
            ;
            assert((window_bytes as int) * 1000 > (self.max_rate_bps as int) * (
            window_elapsed_ms as int + delay as int - 1)) by (nonlinear_arith)
                requires
                    (needed as int - 1) * (max_rate as int) < scaled as int,
                    delay == needed - elapsed,
                    scaled == (window_bytes as int) * 1000,
                    max_rate == self.max_rate_bps,
                    elapsed == window_elapsed_ms,
            ;
        }
        delay as u64
    }
}


} // verus!
