//! A repeating countdown timer with catch-up semantics: advancing it by a
//! delta reports one completion per full period elapsed, so long frames
//! lose no events.

use vstd::prelude::*;

use vstd::arithmetic::div_mod::{
    lemma_fundamental_div_mod, lemma_fundamental_div_mod_converse, lemma_mod_bound,
};

verus! {

/// Largest period and largest frame delta the timer accepts, in
/// milliseconds (machine limit: keeps `elapsed + dt` inside `i64`).
pub const TIME_BOUND: i64 = 1_000_000_000;

/// A repeating timer: `elapsed` grows with each advance and wraps modulo
/// `period`, reporting how many whole periods passed.
#[derive(Clone, Copy, PartialEq, Eq, Structural, Debug)]
pub struct RepeatTimer {
    /// The repeating period, in milliseconds.
    pub period: i64,
    /// Time accumulated toward the next completion, in milliseconds.
    pub elapsed: i64,
}

impl RepeatTimer {
    /// A timer is well formed when its period is positive and bounded and
    /// its accumulator sits strictly inside one period.
    pub open spec fn wf(self) -> bool {
        &&& 0 < self.period <= TIME_BOUND
        &&& 0 <= self.elapsed < self.period
    }

    /// The completions an advance by `dt` reports: one per whole period
    /// accumulated.
    pub open spec fn fires_spec(self, dt: int) -> int {
        (self.elapsed + dt) / (self.period as int)
    }

    /// The timer state after an advance by `dt`.
    pub open spec fn advanced_spec(self, dt: int) -> RepeatTimer {
        RepeatTimer { period: self.period, elapsed: ((self.elapsed + dt) % (self.period as int)) as i64 }
    }

    /// A fresh repeating timer with the given period and nothing
    /// accumulated.
    pub fn new(period: i64) -> (r: RepeatTimer)
        requires
            0 < period <= TIME_BOUND,
        ensures
            r.wf(),
            r.period == period,
            r.elapsed == 0,
    {
        RepeatTimer { period, elapsed: 0 }
    }

    /// Advance the timer by `dt` milliseconds and report how many whole
    /// periods completed: one completion per elapsed period, so nothing is
    /// lost on a long frame.
    pub fn advance(&mut self, dt: i64) -> (fires: i64)
        requires
            old(self).wf(),
            0 <= dt <= TIME_BOUND,
        ensures
            final(self).wf(),
            final(self).period == old(self).period,
            fires == old(self).fires_spec(dt as int),
            *final(self) == old(self).advanced_spec(dt as int),
            fires >= 0,
    {
        let total: i64 = self.elapsed + dt;
        let fires: i64 = ((total as u64) / (self.period as u64)) as i64;
        let rest: i64 = ((total as u64) % (self.period as u64)) as i64;
        proof {
            assert(total as int == (total as u64) as int);
            assert(fires == (total as int) / (self.period as int));
            assert(rest == (total as int) % (self.period as int));
            lemma_mod_bound(total as int, self.period as int);
        }
        self.elapsed = rest;
        fires
    }
}

/// The total completions reported when a well-formed timer is advanced
/// `k` times by a fixed `dt`.
pub open spec fn total_fires(t: RepeatTimer, dt: int, k: nat) -> int
    decreases k,
{
    if k == 0 {
        0
    } else {
        total_fires(t, dt, (k - 1) as nat) + t.advanced_k(dt, (k - 1) as nat).fires_spec(dt)
    }
}

impl RepeatTimer {
    /// The timer after `k` advances by a fixed `dt`.
    pub open spec fn advanced_k(self, dt: int, k: nat) -> RepeatTimer
        decreases k,
    {
        if k == 0 {
            self
        } else {
            self.advanced_k(dt, (k - 1) as nat).advanced_spec(dt)
        }
    }
}

/// Cadence of a repeating timer: over `k` fixed advances of `dt` from a
/// fresh timer of period `T`, the completions reported total exactly
/// `(k * dt) / T` — the whole periods the span `k * dt` covers. In
/// particular the count is within one of any phase: no event is lost or
/// duplicated however `dt` subdivides the periods.
pub proof fn lemma_fire_cadence(t: RepeatTimer, dt: int, k: nat)
    requires
        t.wf(),
        t.elapsed == 0,
        0 <= dt <= TIME_BOUND,
    ensures
        total_fires(t, dt, k) == (k * dt) / (t.period as int),
        t.advanced_k(dt, k).period == t.period,
        t.advanced_k(dt, k).elapsed == (k * dt) % (t.period as int),
    decreases k,
{
    let p = t.period as int;
    if k == 0 {
        assert(k * dt == 0) by (nonlinear_arith)
            requires
                k == 0,
        ;
        lemma_fundamental_div_mod_converse(0, p, 0, 0);
    } else {
        let km1 = (k - 1) as nat;
        lemma_fire_cadence(t, dt, km1);
        let prev = t.advanced_k(dt, km1);
        let a = km1 * dt;
        // prev.period == p, prev.elapsed == a % p, totals so far are a / p.
        lemma_fundamental_div_mod(a, p);
        lemma_mod_bound(a, p);
        let e = a % p;
        assert(prev.elapsed == e);
        // This step reports (e + dt) / p and leaves (e + dt) % p.
        lemma_fundamental_div_mod(e + dt, p);
        lemma_mod_bound(e + dt, p);
        let q = a / p + (e + dt) / p;
        let r = (e + dt) % p;
        assert(total_fires(t, dt, k) == a / p + (e + dt) / p);
        assert(t.advanced_k(dt, k) == prev.advanced_spec(dt));
        assert(t.advanced_k(dt, k).elapsed == r);
        assert(k * dt == a + dt) by (nonlinear_arith)
            requires
                a == km1 * dt,
                k == km1 + 1,
        ;
        assert(a + dt == p * (a / p) + e + dt);
        assert(e + dt == p * ((e + dt) / p) + r);
        assert(p * (a / p) + p * ((e + dt) / p) == q * p) by (nonlinear_arith)
            requires
                q == a / p + (e + dt) / p,
        ;
        assert(k * dt == q * p + r);
        lemma_fundamental_div_mod_converse(k * dt, p, q, r);
    }
}

} // verus!
