//! Retry/timeout policies over nanosecond durations: exponential growth
//! toward a cap, and a timeout scaled by an externally pushed load factor.

use vstd::prelude::*;

verus! {

/// A backoff policy: `next_backoff` yields the next waiting time in
/// nanoseconds, `reset` restores the policy's initial state.
pub trait Backoff {
    fn next_backoff(&mut self) -> u64;

    fn reset(&mut self);
}

/// One advance of the exponential policy: the held value grows by a
/// factor of 8/5 (that is, 1.6), saturating at `max`.
pub open spec fn exp_step(cur: int, max: int) -> int {
    let grown = cur * 8 / 5;
    if grown > max {
        max
    } else {
        grown
    }
}

/// Bounds of the exponential advance: the held value never shrinks and,
/// once it is at most `max`, never passes `max`; in particular a value
/// that has reached `max` stays exactly there. Together with
/// `next_backoff` returning the held value, every returned backoff lies
/// between the initial value and `max`, and after saturation every call
/// returns exactly `max`.
pub proof fn lemma_exponential_backoff_saturates(cur: int, max: int)
    requires
        0 <= cur <= max,
    ensures
        cur <= exp_step(cur, max) <= max,
        cur == max ==> exp_step(cur, max) == max,
{
    assert(cur * 8 / 5 >= cur) by (nonlinear_arith)
        requires
            cur >= 0,
    ;
}

/// The value the `k`-th call (0-based) of `next_backoff` returns on a
/// policy freshly built — or freshly reset — with the given bounds.
pub open spec fn exp_value(init: int, max: int, k: nat) -> int
    decreases k,
{
    if k == 0 {
        init
    } else {
        exp_step(exp_value(init, max, (k - 1) as nat), max)
    }
}

/// Bounds of the whole schedule: with `init <= max`, every call returns
/// a value between `init` and `max`, the schedule never shrinks, and a
/// schedule that has reached `max` returns exactly `max` from then on.
/// After a reset the schedule starts over at `init`.
pub proof fn lemma_exponential_backoff_bounds(init: int, max: int, k: nat)
    requires
        0 <= init <= max,
    ensures
        init <= exp_value(init, max, k) <= max,
        exp_value(init, max, k) <= exp_value(init, max, k + 1),
        exp_value(init, max, k) == max ==> exp_value(init, max, k + 1) == max,
    decreases k,
{
    if k > 0 {
        lemma_exponential_backoff_bounds(init, max, (k - 1) as nat);
    }
    lemma_exponential_backoff_saturates(exp_value(init, max, k), max);
}

/// Classic retry backoff: the waiting time grows by 1.6 on every call,
/// capped at `max_backoff_nanos`, and `reset` starts the schedule over.
/// The call returns the value held before the advance, so the first call
/// after `new` or `reset` returns the initial backoff itself.
pub struct ExponentialBackoff {
    init_backoff_nanos: u64,
    max_backoff_nanos: u64,
    next_backoff_nanos: u64,
}

impl ExponentialBackoff {
    pub closed spec fn init_nanos(&self) -> u64 {
        self.init_backoff_nanos
    }

    pub closed spec fn max_nanos(&self) -> u64 {
        self.max_backoff_nanos
    }

    /// The value the next call of `next_backoff` will return.
    pub closed spec fn current(&self) -> u64 {
        self.next_backoff_nanos
    }

    pub fn new(init_backoff_nanos: u64, max_backoff_nanos: u64) -> (r: Self)
        ensures
            r.init_nanos() == init_backoff_nanos,
            r.max_nanos() == max_backoff_nanos,
            r.current() == init_backoff_nanos,
    {
        Self {
            init_backoff_nanos,
            max_backoff_nanos,
            next_backoff_nanos: init_backoff_nanos,
        }
    }
}

impl Backoff for ExponentialBackoff {
    fn next_backoff(&mut self) -> (r: u64)
        ensures
            r == old(self).current(),
            final(self).current() == exp_step(
                old(self).current() as int,
                old(self).max_nanos() as int,
            ),
            final(self).init_nanos() == old(self).init_nanos(),
            final(self).max_nanos() == old(self).max_nanos(),
    {
        let current = self.next_backoff_nanos;
        let grown_wide: u128 = (current as u128) * 8 / 5;
        let grown: u64 = if grown_wide > self.max_backoff_nanos as u128 {
            self.max_backoff_nanos
        } else {
            grown_wide as u64
        };
        self.next_backoff_nanos = grown;
        current
    }

    fn reset(&mut self)
        ensures
            final(self).current() == old(self).init_nanos(),
            final(self).init_nanos() == old(self).init_nanos(),
            final(self).max_nanos() == old(self).max_nanos(),
    {
        self.next_backoff_nanos = self.init_backoff_nanos;
    }
}

/// Clamping rule of the scale policy: the stored scale always lies in
/// `[1, max_scale]` (or is exactly 1 where `max_scale` is 0).
pub open spec fn scale_clamp(scale: u32, max_scale: u32) -> u32 {
    let hi = if max_scale >= 1 {
        max_scale
    } else {
        1u32
    };
    if scale < 1 {
        1u32
    } else if scale > hi {
        hi
    } else {
        scale
    }
}

/// A timeout that tracks an externally observed load signal (for example
/// the group size) instead of the call history: every query returns
/// `init_backoff_nanos` times the current scale, with no advancing side
/// effect; `set_scale` pushes a new clamped scale in, `reset` restores
/// scale 1.
pub struct ScaleBackoff {
    init_backoff_nanos: u64,
    max_scale: u32,
    current_scale: u32,
}

impl ScaleBackoff {
    #[verifier::type_invariant]
    spec fn inv(self) -> bool {
        &&& self.current_scale == scale_clamp(self.current_scale, self.max_scale)
        &&& self.init_backoff_nanos as int * scale_clamp(u32::MAX, self.max_scale) as int <= u64::MAX as int
    }

    pub closed spec fn init_nanos(&self) -> u64 {
        self.init_backoff_nanos
    }

    pub closed spec fn max_scale(&self) -> u32 {
        self.max_scale
    }

    pub closed spec fn scale(&self) -> u32 {
        self.current_scale
    }

    pub fn new(init_backoff_nanos: u64, max_scale: u32) -> (r: Self)
        requires
            init_backoff_nanos as int * scale_clamp(u32::MAX, max_scale) as int <= u64::MAX as int,
        ensures
            r.init_nanos() == init_backoff_nanos,
            r.max_scale() == max_scale,
            r.scale() == 1,
    {
        Self { init_backoff_nanos, max_scale, current_scale: 1 }
    }

    /// Stores `scale` clamped to `[1, max_scale]`; queries made after this
    /// call and before the next change return the clamped multiple.
    pub fn set_scale(&mut self, scale: u32)
        ensures
            final(self).scale() == scale_clamp(scale, old(self).max_scale()),
            final(self).init_nanos() == old(self).init_nanos(),
            final(self).max_scale() == old(self).max_scale(),
    {
        proof {
            use_type_invariant(&*self);
        }
        let hi = if self.max_scale >= 1 {
            self.max_scale
        } else {
            1
        };
        let clamped = if scale < 1 {
            1
        } else if scale > hi {
            hi
        } else {
            scale
        };
        self.current_scale = clamped;
    }
}

impl Backoff for ScaleBackoff {
    fn next_backoff(&mut self) -> (r: u64)
        ensures
            r as int == old(self).init_nanos() as int * old(self).scale() as int,
            *final(self) == *old(self),
    {
        proof {
            use_type_invariant(&*self);
            assert(self.init_backoff_nanos as int * self.current_scale as int
                <= self.init_backoff_nanos as int * scale_clamp(u32::MAX, self.max_scale) as int)
                by (nonlinear_arith)
                requires
                    self.current_scale as int <= scale_clamp(u32::MAX, self.max_scale) as int,
                    self.init_backoff_nanos as int >= 0,
            ;
        }
        self.init_backoff_nanos * (self.current_scale as u64)
    }

    fn reset(&mut self)
        ensures
            final(self).scale() == 1,
            final(self).init_nanos() == old(self).init_nanos(),
            final(self).max_scale() == old(self).max_scale(),
    {
        proof {
            use_type_invariant(&*self);
        }
        self.current_scale = 1;
    }
}

} // verus!
