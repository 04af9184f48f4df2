//! Token-bucket rate limiting with integer arithmetic.
//!
//! A token is worth [`UNIT`] internal units; the bucket refills at
//! `max(requests_per_minute, 1)` units per millisecond, which is exactly
//! `max(requests_per_minute, 1) / 60` tokens per second, and is capped at
//! `max(burst, 1)` tokens.

use vstd::prelude::*;

use crate::gateway::ApiError;

verus! {

/// Internal units per token: one unit is one token per
/// requests-per-minute-point per millisecond.
pub const UNIT: u64 = 60000;

/// Rate limiter settings: sustained rate and burst size.
#[derive(Debug, Clone, Copy, PartialEq, Eq, Structural)]
pub struct RateLimitSettings {
    pub requests_per_minute: u32,
    pub burst: u32,
}

impl Default for RateLimitSettings {
    /// The gateway's default settings.
    fn default() -> (r: RateLimitSettings)
        ensures
            r == (RateLimitSettings { requests_per_minute: 120u32, burst: 40u32 }),
    {
        RateLimitSettings { requests_per_minute: 120, burst: 40 }
    }
}

/// The bucket's state: available units, capacity, refill rate, and the time
/// of the last refill in milliseconds of some monotonic clock.
#[derive(Debug, Clone, Copy, PartialEq, Eq, Structural)]
pub struct RateLimiter {
    pub tokens_units: u64,
    pub last_ms: u64,
    pub capacity_units: u64,
    pub rate_units_per_ms: u64,
}

impl RateLimiter {
    /// Well-formed bucket: never over capacity, and the constants fit the
    /// settings ranges.
    pub open spec fn wf(self) -> bool {
        &&& self.tokens_units <= self.capacity_units
        &&& self.capacity_units >= UNIT
        &&& self.capacity_units <= u32::MAX as u64 * UNIT as u64
        &&& 1 <= self.rate_units_per_ms <= u32::MAX as u64
    }

    /// A full bucket: capacity `max(burst, 1)` tokens, refill rate
    /// `max(requests_per_minute, 1) / 60` tokens per second.
    pub fn new(settings: &RateLimitSettings, now_ms: u64) -> (r: RateLimiter)
        ensures
            r.wf(),
            r.tokens_units == r.capacity_units,
            r.capacity_units == (if settings.burst >= 1 {
                settings.burst as u64
            } else {
                1u64
            }) * UNIT,
            r.rate_units_per_ms == (if settings.requests_per_minute >= 1 {
                settings.requests_per_minute as u64
            } else {
                1u64
            }),
            r.last_ms == now_ms,
    {
        let burst: u64 = if settings.burst >= 1 {
            settings.burst as u64
        } else {
            1
        };
        let rate: u64 = if settings.requests_per_minute >= 1 {
            settings.requests_per_minute as u64
        } else {
            1
        };
        assert(burst * UNIT <= u32::MAX as u64 * UNIT as u64) by (nonlinear_arith)
            requires
                1 <= burst <= u32::MAX,
        ;
        RateLimiter {
            tokens_units: burst * UNIT,
            last_ms: now_ms,
            capacity_units: burst * UNIT,
            rate_units_per_ms: rate,
        }
    }

    /// The bucket after refilling at `now_ms`: the elapsed time (zero when
    /// the clock did not advance) times the rate, capped at capacity; the
    /// refill time advances to `now_ms` only when time passed.
    pub open spec fn spec_refill(self, now_ms: u64) -> RateLimiter {
        if now_ms <= self.last_ms {
            self
        } else {
            let gained = (now_ms - self.last_ms) * self.rate_units_per_ms;
            let total = self.tokens_units + gained;
            RateLimiter {
                tokens_units: if total >= self.capacity_units {
                    self.capacity_units
                } else {
                    total as u64
                },
                last_ms: now_ms,
                ..self
            }
        }
    }

    /// Outcome of one admission check at `now_ms`: whether the request is
    /// admitted, and the bucket after.
    pub open spec fn spec_check(self, now_ms: u64) -> (bool, RateLimiter) {
        let refilled = self.spec_refill(now_ms);
        if refilled.tokens_units >= UNIT {
            (true, RateLimiter { tokens_units: (refilled.tokens_units - UNIT) as u64, ..refilled })
        } else {
            (false, refilled)
        }
    }

    /// Refill, then admit the request if a full token is available,
    /// consuming it; otherwise reject with a one-second retry hint.
    pub fn check(&mut self, now_ms: u64) -> (r: Result<(), ApiError>)
        requires
            old(self).wf(),
        ensures
            final(self).wf(),
            *final(self) == old(self).spec_check(now_ms).1,
            r is Ok <==> old(self).spec_check(now_ms).0,
            r matches Err(e) ==> e == (ApiError::RateLimited { retry_after_secs: 1u64 }),
    {
        if now_ms > self.last_ms {
            let elapsed: u64 = now_ms - self.last_ms;
            proof {
                assert((elapsed as nat) * (self.rate_units_per_ms as nat) <= (u64::MAX as nat) * (
                u32::MAX as nat)) by (nonlinear_arith)
                    requires
                        elapsed <= u64::MAX,
                        self.rate_units_per_ms <= u32::MAX,
                ;
            }
            let gained: u128 = (elapsed as u128) * (self.rate_units_per_ms as u128);
            let total: u128 = (self.tokens_units as u128) + gained;
            if total >= self.capacity_units as u128 {
                self.tokens_units = self.capacity_units;
            } else {
                self.tokens_units = total as u64;
            }
            self.last_ms = now_ms;
        }
        if self.tokens_units >= UNIT {
            self.tokens_units = self.tokens_units - UNIT;
            Ok(())
        } else {
            Err(ApiError::RateLimited { retry_after_secs: 1 })
        }
    }
}

/// The number of admitted requests and the final bucket after a sequence of
/// checks at the given times.
pub open spec fn run_checks(s: RateLimiter, times: Seq<u64>) -> (nat, RateLimiter)
    decreases times.len(),
{
    if times.len() == 0 {
        (0, s)
    } else {
        let (admitted, s1) = s.spec_check(times[0]);
        let (rest, sfin) = run_checks(s1, times.skip(1));
        (if admitted {
            rest + 1
        } else {
            rest
        }, sfin)
    }
}

/// One check conserves tokens: units spent on admissions never exceed the
/// units present plus the units gained from elapsed time.
proof fn lemma_check_conserves(s: RateLimiter, now_ms: u64)
    requires
        s.wf(),
    ensures
        s.spec_check(now_ms).1.wf(),
        s.spec_check(now_ms).1.last_ms == if now_ms > s.last_ms {
            now_ms
        } else {
            s.last_ms
        },
        s.spec_check(now_ms).1.capacity_units == s.capacity_units,
        s.spec_check(now_ms).1.rate_units_per_ms == s.rate_units_per_ms,
        (if s.spec_check(now_ms).0 {
            UNIT as nat
        } else {
            0
        }) + s.spec_check(now_ms).1.tokens_units <= s.tokens_units + (
        s.spec_check(now_ms).1.last_ms - s.last_ms) * s.rate_units_per_ms,
{
    if now_ms > s.last_ms {
        assert((now_ms - s.last_ms) * s.rate_units_per_ms >= 0) by (nonlinear_arith)
            requires
                now_ms > s.last_ms,
                s.rate_units_per_ms >= 1,
        ;
    }
}

/// Rate limiter conservation: over any sequence of nondecreasing check
/// times, the number of admitted requests never exceeds the bucket's
/// capacity in tokens plus the elapsed time times the refill rate,
/// all measured in internal units.
pub proof fn lemma_rate_limiter_conservation(s: RateLimiter, times: Seq<u64>)
    requires
        s.wf(),
    ensures
        run_checks(s, times).0 * UNIT <= s.capacity_units + (run_checks(s, times).1.last_ms
            - s.last_ms) * s.rate_units_per_ms,
    decreases times.len(),
{
    lemma_run_conserves(s, times);
    let (admitted, sfin) = run_checks(s, times);
    assert(admitted * UNIT + sfin.tokens_units <= s.tokens_units + (sfin.last_ms - s.last_ms)
        * s.rate_units_per_ms);
}

/// Inductive form of the conservation argument.
proof fn lemma_run_conserves(s: RateLimiter, times: Seq<u64>)
    requires
        s.wf(),
    ensures
        run_checks(s, times).1.wf(),
        run_checks(s, times).1.last_ms >= s.last_ms,
        run_checks(s, times).1.rate_units_per_ms == s.rate_units_per_ms,
        run_checks(s, times).1.capacity_units == s.capacity_units,
        run_checks(s, times).0 * UNIT + run_checks(s, times).1.tokens_units <= s.tokens_units + (
        run_checks(s, times).1.last_ms - s.last_ms) * s.rate_units_per_ms,
    decreases times.len(),
{
    if times.len() > 0 {
        let t = times[0];
        lemma_check_conserves(s, t);
        let (admitted, s1) = s.spec_check(t);
        lemma_run_conserves(s1, times.skip(1));
        let (rest, sfin) = run_checks(s1, times.skip(1));
        let a: nat = if admitted {
            1
        } else {
            0
        };
        assert((rest + a) * UNIT == rest * UNIT + a * UNIT) by (nonlinear_arith);
        assert((s1.last_ms - s.last_ms) * s.rate_units_per_ms + (sfin.last_ms - s1.last_ms)
            * s.rate_units_per_ms == (sfin.last_ms - s.last_ms) * s.rate_units_per_ms)
            by (nonlinear_arith);
    }
}

} // verus!
