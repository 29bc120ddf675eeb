//! Reconnect wait policy: bounded exponential backoff.
//!
//! Session establishment retries indefinitely; the only tunable is how
//! long to wait between consecutive failed attempts. The wait starts at
//! a floor, grows by a fixed factor after every consecutive failure, is
//! capped at a ceiling, and drops back to the floor after a success.

use vstd::prelude::*;

verus! {

/// Default floor of the reconnect wait, in milliseconds.
pub const DEFAULT_FLOOR_MS: u64 = 200;

/// Default ceiling of the reconnect wait, in milliseconds.
pub const DEFAULT_CEILING_MS: u64 = 60000;

/// Default growth factor applied after each consecutive failure.
pub const DEFAULT_FACTOR: u64 = 2;

/// Backoff policy with its current wait. The caller asks for one wait per
/// failed connection attempt and reports successes back.
pub struct Backoff {
    pub floor_ms: u64,
    pub ceiling_ms: u64,
    pub factor: u64,
    pub current_ms: u64,
}

impl Backoff {
    /// The policy's invariant: positive floor below the ceiling, a growth
    /// factor of at least one, and the current wait between the bounds.
    pub open spec fn wf(self) -> bool {
        &&& 1 <= self.floor_ms <= self.ceiling_ms
        &&& 1 <= self.factor
        &&& self.floor_ms <= self.current_ms <= self.ceiling_ms
    }

    /// The wait that follows one more consecutive failure: the current
    /// wait grown by the factor, capped at the ceiling.
    pub open spec fn grown_ms(self) -> int {
        if self.current_ms > self.ceiling_ms as int / self.factor as int {
            self.ceiling_ms as int
        } else {
            self.current_ms * self.factor
        }
    }

    /// The policy after one more consecutive failure.
    pub open spec fn after_failure(self) -> Backoff {
        Backoff { current_ms: self.grown_ms() as u64, ..self }
    }

    /// The policy after a successful connection: the wait is back at the floor.
    pub open spec fn after_success(self) -> Backoff {
        Backoff { current_ms: self.floor_ms, ..self }
    }

    pub fn new(floor_ms: u64, ceiling_ms: u64, factor: u64) -> (b: Backoff)
        requires
            1 <= floor_ms <= ceiling_ms,
            1 <= factor,
        ensures
            b.wf(),
            b.floor_ms == floor_ms,
            b.ceiling_ms == ceiling_ms,
            b.factor == factor,
            b.current_ms == floor_ms,
    {
        Backoff { floor_ms, ceiling_ms, factor, current_ms: floor_ms }
    }

    pub fn new_default() -> (b: Backoff)
        ensures
            b.wf(),
            b.floor_ms == DEFAULT_FLOOR_MS,
            b.ceiling_ms == DEFAULT_CEILING_MS,
            b.factor == DEFAULT_FACTOR,
            b.current_ms == DEFAULT_FLOOR_MS,
    {
        Backoff::new(DEFAULT_FLOOR_MS, DEFAULT_CEILING_MS, DEFAULT_FACTOR)
    }

    /// Hands out the wait owed after the failure just observed, and grows
    /// the stored wait for the next one.
    pub fn wait_after_failure(&mut self) -> (d: u64)
        requires
            old(self).wf(),
        ensures
            d == old(self).current_ms,
            *final(self) == old(self).after_failure(),
            final(self).wf(),
    {
        let d = self.current_ms;
        if self.current_ms > self.ceiling_ms / self.factor {
            self.current_ms = self.ceiling_ms;
        } else {
            proof {
                lemma_grow_bounded(*self);
            }
            self.current_ms = self.current_ms * self.factor;
        }
        proof {
            lemma_backoff_monotone(*old(self));
        }
        d
    }

    /// Resets the wait to the floor after a successful connection.
    pub fn reset_after_success(&mut self)
        requires
            old(self).wf(),
        ensures
            *final(self) == old(self).after_success(),
            final(self).wf(),
    {
        self.current_ms = self.floor_ms;
    }
}

/// A wait still at or below `ceiling / factor` can grow by the factor
/// without passing the ceiling (so without overflowing either).
proof fn lemma_grow_bounded(b: Backoff)
    requires
        b.wf(),
        b.current_ms <= b.ceiling_ms as int / b.factor as int,
    ensures
        b.current_ms * b.factor <= b.ceiling_ms,
{
    let c = b.ceiling_ms as int;
    let f = b.factor as int;
    vstd::arithmetic::div_mod::lemma_fundamental_div_mod(c, f);
    vstd::arithmetic::div_mod::lemma_mod_bound(c, f);
    vstd::arithmetic::mul::lemma_mul_inequality(b.current_ms as int, c / f, f);
}

/// Law: consecutive connection failures never shrink the wait and never
/// push it past the ceiling, and a success resets it to the floor; both
/// steps keep the policy well formed, so the waits of any run of
/// consecutive failures are non-decreasing up to the ceiling.
pub proof fn lemma_backoff_monotone(b: Backoff)
    requires
        b.wf(),
    ensures
        b.after_failure().current_ms >= b.current_ms,
        b.after_failure().current_ms <= b.ceiling_ms,
        b.after_failure().wf(),
        b.after_success().current_ms == b.floor_ms,
        b.after_success().wf(),
{
    if b.current_ms > b.ceiling_ms as int / b.factor as int {
    } else {
        lemma_grow_bounded(b);
        assert(b.current_ms * b.factor >= b.current_ms) by (nonlinear_arith)
            requires
                b.factor >= 1,
                b.current_ms >= 0,
        {
        }
    }
}

} // verus!
