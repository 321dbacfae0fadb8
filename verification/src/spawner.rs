//! The procedural spawner's scheduling state: a countdown accumulator that
//! triggers once per frame when it runs dry and is corrected additively,
//! so the long-term trigger rate matches elapsed time however frames
//! subdivide the interval.

use vstd::prelude::*;

use crate::timer::TIME_BOUND;

verus! {

/// The fixed spawn interval, in milliseconds (one time unit).
pub const SPAWN_INTERVAL: i64 = 1_000;

/// The spawner's countdown accumulator, in milliseconds. It starts at
/// zero, loses each frame's delta, and gains one interval whenever it
/// goes negative — at most once per frame, so a long frame catches up
/// over the following frames rather than dropping triggers.
#[derive(Clone, Copy, PartialEq, Eq, Structural, Debug)]
pub struct Spawner {
    pub countdown: i64,
}

impl Spawner {
    /// The accumulator never reaches a full interval of credit; below
    /// zero it is unbounded, since an arbitrarily long frame may leave
    /// arrears that later frames repay one interval at a time.
    pub open spec fn wf(self) -> bool {
        self.countdown < SPAWN_INTERVAL
    }

    /// Whether advancing by `dt` triggers a spawn.
    pub open spec fn triggers_spec(self, dt: int) -> bool {
        self.countdown - dt < 0
    }

    /// The accumulator after advancing by `dt`.
    pub open spec fn stepped_spec(self, dt: int) -> Spawner {
        if self.triggers_spec(dt) {
            Spawner { countdown: (self.countdown - dt + SPAWN_INTERVAL) as i64 }
        } else {
            Spawner { countdown: (self.countdown - dt) as i64 }
        }
    }

    /// A fresh spawner, due on the first frame.
    pub fn new() -> (r: Spawner)
        ensures
            r.wf(),
            r.countdown == 0,
    {
        Spawner { countdown: 0 }
    }

    /// Advance the accumulator by one frame of `dt` milliseconds and
    /// report whether this frame spawns: the countdown loses `dt`, and a
    /// trigger adds one interval back in place of a reset, preserving the
    /// long-term average rate.
    pub fn step(&mut self, dt: i64) -> (spawned: bool)
        requires
            old(self).wf(),
            0 <= dt <= TIME_BOUND,
            i64::MIN + dt <= old(self).countdown,
        ensures
            final(self).wf(),
            spawned == old(self).triggers_spec(dt as int),
            *final(self) == old(self).stepped_spec(dt as int),
    {
        let next: i64 = self.countdown - dt;
        if next >= 0 {
            self.countdown = next;
            false
        } else {
            self.countdown = next + SPAWN_INTERVAL;
            true
        }
    }

    /// The spawner after `k` frames of a fixed `dt`.
    pub open spec fn stepped_k(self, dt: int, k: nat) -> Spawner
        decreases k,
    {
        if k == 0 {
            self
        } else {
            self.stepped_k(dt, (k - 1) as nat).stepped_spec(dt)
        }
    }
}

/// How many of the first `k` fixed-`dt` frames trigger a spawn.
pub open spec fn spawn_count(s: Spawner, dt: int, k: nat) -> int
    decreases k,
{
    if k == 0 {
        0
    } else {
        spawn_count(s, dt, (k - 1) as nat) + if s.stepped_k(dt, (k - 1) as nat).triggers_spec(dt) {
            1int
        } else {
            0int
        }
    }
}

/// Accumulator correctness under fixed frame pacing: starting from a
/// fresh spawner, after `k` frames of `dt` (with `dt` no longer than the
/// interval) the triggers seen total exactly the intervals the span
/// `k * dt` has entered — `ceil(k * dt / interval)`. A span covering
/// exactly ten intervals yields exactly ten spawns, however finely `dt`
/// subdivides them.
pub proof fn lemma_spawn_rate(s: Spawner, dt: int, k: nat)
    requires
        s.countdown == 0,
        0 < dt <= SPAWN_INTERVAL,
    ensures
        s.stepped_k(dt, k).countdown == spawn_count(s, dt, k) * SPAWN_INTERVAL - k * dt,
        0 <= s.stepped_k(dt, k).countdown < SPAWN_INTERVAL,
        spawn_count(s, dt, k) * SPAWN_INTERVAL >= k * dt,
        (spawn_count(s, dt, k) - 1) * SPAWN_INTERVAL < k * dt,
    decreases k,
{
    let i = SPAWN_INTERVAL as int;
    if k == 0 {
        assert(spawn_count(s, dt, 0) * i == 0) by (nonlinear_arith);
        assert(k * dt == 0) by (nonlinear_arith)
            requires
                k == 0,
        ;
        assert((spawn_count(s, dt, 0) - 1) * i == -i) by (nonlinear_arith);
    } else {
        let km1 = (k - 1) as nat;
        lemma_spawn_rate(s, dt, km1);
        let prev = s.stepped_k(dt, km1);
        let c = spawn_count(s, dt, km1);
        let c2 = spawn_count(s, dt, k);
        assert(k * dt == km1 * dt + dt) by (nonlinear_arith)
            requires
                k == km1 + 1,
        ;
        if prev.triggers_spec(dt) {
            assert(c2 == c + 1);
            assert(c2 * i == c * i + i) by (nonlinear_arith)
                requires
                    c2 == c + 1,
            ;
        } else {
            assert(c2 == c);
        }
        assert((c2 - 1) * i == c2 * i - i) by (nonlinear_arith);
    }
}

/// The exact-coverage corollary: when `k * dt` is a whole number of
/// intervals, the spawn count is exactly that number.
pub proof fn lemma_exact_interval_coverage(s: Spawner, dt: int, k: nat, n: int)
    requires
        s.countdown == 0,
        0 < dt <= SPAWN_INTERVAL,
        k * dt == n * SPAWN_INTERVAL,
    ensures
        spawn_count(s, dt, k) == n,
{
    lemma_spawn_rate(s, dt, k);
    let i = SPAWN_INTERVAL as int;
    let c = spawn_count(s, dt, k);
    assert(c * i >= n * i && (c - 1) * i < n * i);
    assert(c >= n) by (nonlinear_arith)
        requires
            c * i >= n * i,
            i > 0,
    ;
    assert(c - 1 < n) by (nonlinear_arith)
        requires
            (c - 1) * i < n * i,
            i > 0,
    ;
}

} // verus!
