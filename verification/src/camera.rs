//! The orbit camera rig: pointer-wheel deltas integrate additively into
//! the zoom distance, and pointer-motion deltas — while the orbit button
//! is held — integrate, scaled by the frame delta and a fixed
//! sensitivity, into the accumulated orbit angles. The camera's world
//! transform is a pure function of this state, derived elsewhere.

use vstd::prelude::*;

use crate::fixed::div_trunc;

verus! {

/// Orbit sensitivity numerator: a motion delta contributes
/// `-delta * dt * 3 / 10000` milli-radians (0.3 radians per
/// pixel-second, sign inverted so the motion feels natural).
pub const ORBIT_SENSITIVITY_NUM: i64 = 3;

/// Orbit sensitivity denominator.
pub const ORBIT_SENSITIVITY_DEN: i64 = 10_000;

/// Bound on a single pointer delta, milli-scaled (machine limit).
pub const POINTER_DELTA_BOUND: i64 = 1_000_000;

/// Bound on the camera's accumulated state (machine limit).
pub const CAMERA_STATE_BOUND: i64 = 1_000_000_000_000_000;

/// Bound on how many pointer events one frame may carry (machine limit).
pub const POINTER_EVENTS_BOUND: usize = 1_000_000;

/// Frame-delta bound accepted by the camera controller, in milliseconds
/// (machine limit).
pub const CAMERA_DT_BOUND: i64 = 10_000;

/// The camera rig's accumulated state: orbit rotation as yaw and pitch
/// angles in milli-radians, and the zoom distance in milli-units.
#[derive(Clone, Copy, PartialEq, Eq, Structural, Debug)]
pub struct CameraController {
    pub yaw_mr: i64,
    pub pitch_mr: i64,
    pub zoom: i64,
}

/// The sum of a sequence of wheel deltas.
pub open spec fn wheel_sum(ws: Seq<i64>) -> int
    decreases ws.len(),
{
    if ws.len() == 0 {
        0
    } else {
        wheel_sum(ws.drop_last()) + ws.last()
    }
}

/// One motion delta's contribution to an orbit angle, milli-radians.
pub open spec fn orbit_step(delta: int, dt: int) -> int {
    div_trunc(delta * dt * ORBIT_SENSITIVITY_NUM, ORBIT_SENSITIVITY_DEN as int)
}

/// An orbit angle after folding a sequence of motion deltas into it.
pub open spec fn orbit_fold(start: int, deltas: Seq<int>, dt: int) -> int
    decreases deltas.len(),
{
    if deltas.len() == 0 {
        start
    } else {
        orbit_fold(start, deltas.drop_last(), dt) - orbit_step(deltas.last(), dt)
    }
}

/// One frame of camera input. The zoom gains exactly the sum of the
/// wheel deltas — no scaling by the frame delta, so zoom is independent
/// of frame timing by construction. While the orbit button is held, each
/// motion delta turns the accumulated yaw (horizontal motion) and pitch
/// (vertical motion) by its sensitivity-scaled, sign-inverted amount;
/// with the button up the angles are untouched.
pub fn camera_input(
    cam: &mut CameraController,
    wheel: &Vec<i64>,
    motion: &Vec<(i64, i64)>,
    orbit_held: bool,
    dt: i64,
)
    requires
        -CAMERA_STATE_BOUND <= old(cam).zoom <= CAMERA_STATE_BOUND,
        -CAMERA_STATE_BOUND <= old(cam).yaw_mr <= CAMERA_STATE_BOUND,
        -CAMERA_STATE_BOUND <= old(cam).pitch_mr <= CAMERA_STATE_BOUND,
        0 <= dt <= CAMERA_DT_BOUND,
        wheel@.len() <= POINTER_EVENTS_BOUND,
        motion@.len() <= POINTER_EVENTS_BOUND,
        forall|i: int|
            0 <= i < wheel@.len() ==> -POINTER_DELTA_BOUND <= #[trigger] wheel@[i]
                <= POINTER_DELTA_BOUND,
        forall|i: int|
            0 <= i < motion@.len() ==> -POINTER_DELTA_BOUND <= (#[trigger] motion@[i]).0
                <= POINTER_DELTA_BOUND && -POINTER_DELTA_BOUND <= motion@[i].1
                <= POINTER_DELTA_BOUND,
    ensures
        final(cam).zoom == old(cam).zoom + wheel_sum(wheel@),
        final(cam).yaw_mr == if orbit_held {
            orbit_fold(old(cam).yaw_mr as int, motion@.map_values(|m: (i64, i64)| m.0 as int), dt as int)
        } else {
            old(cam).yaw_mr as int
        },
        final(cam).pitch_mr == if orbit_held {
            orbit_fold(old(cam).pitch_mr as int, motion@.map_values(|m: (i64, i64)| m.1 as int), dt as int)
        } else {
            old(cam).pitch_mr as int
        },
{
    let ghost xs = motion@.map_values(|m: (i64, i64)| m.0 as int);
    let ghost ys = motion@.map_values(|m: (i64, i64)| m.1 as int);

    let n = wheel.len();
    let mut i: usize = 0;
    while i < n
        invariant
            n == wheel@.len() <= POINTER_EVENTS_BOUND,
            i <= n,
            forall|j: int|
                0 <= j < n ==> -POINTER_DELTA_BOUND <= #[trigger] wheel@[j] <= POINTER_DELTA_BOUND,
            cam.zoom == old(cam).zoom + wheel_sum(wheel@.take(i as int)),
            -CAMERA_STATE_BOUND - (i as int) * POINTER_DELTA_BOUND <= cam.zoom
                <= CAMERA_STATE_BOUND + (i as int) * POINTER_DELTA_BOUND,
            cam.yaw_mr == old(cam).yaw_mr,
            cam.pitch_mr == old(cam).pitch_mr,
        decreases n - i,
    {
        proof {
            assert(wheel@.take(i + 1).drop_last() == wheel@.take(i as int));
            assert((i as int) * POINTER_DELTA_BOUND + POINTER_DELTA_BOUND == (i as int + 1)
                * POINTER_DELTA_BOUND) by (nonlinear_arith);
            assert((i as int + 1) * POINTER_DELTA_BOUND <= (POINTER_EVENTS_BOUND as int)
                * POINTER_DELTA_BOUND) by (nonlinear_arith)
                requires
                    0 <= i as int + 1 <= POINTER_EVENTS_BOUND as int,
                    POINTER_DELTA_BOUND > 0,
            ;
        }
        cam.zoom = cam.zoom + wheel[i];
        i = i + 1;
    }
    proof {
        assert(wheel@.take(n as int) == wheel@);
    }

    if orbit_held {
        let m = motion.len();
        let mut k: usize = 0;
        while k < m
            invariant
                m == motion@.len() <= POINTER_EVENTS_BOUND,
                k <= m,
                0 <= dt <= CAMERA_DT_BOUND,
                xs == motion@.map_values(|mm: (i64, i64)| mm.0 as int),
                ys == motion@.map_values(|mm: (i64, i64)| mm.1 as int),
                forall|j: int|
                    0 <= j < m ==> -POINTER_DELTA_BOUND <= (#[trigger] motion@[j]).0
                        <= POINTER_DELTA_BOUND && -POINTER_DELTA_BOUND <= motion@[j].1
                        <= POINTER_DELTA_BOUND,
                cam.yaw_mr == orbit_fold(old(cam).yaw_mr as int, xs.take(k as int), dt as int),
                cam.pitch_mr == orbit_fold(old(cam).pitch_mr as int, ys.take(k as int), dt as int),
                -CAMERA_STATE_BOUND - (k as int) * 3_000_000_000 <= cam.yaw_mr <= CAMERA_STATE_BOUND
                    + (k as int) * 3_000_000_000,
                -CAMERA_STATE_BOUND - (k as int) * 3_000_000_000 <= cam.pitch_mr
                    <= CAMERA_STATE_BOUND + (k as int) * 3_000_000_000,
                cam.zoom == old(cam).zoom + wheel_sum(wheel@),
            decreases m - k,
        {
            let (dx, dy) = motion[k];
            proof {
                assert(xs.take(k + 1).drop_last() == xs.take(k as int));
                assert(ys.take(k + 1).drop_last() == ys.take(k as int));
                assert(xs.take(k + 1).last() == dx as int);
                assert(ys.take(k + 1).last() == dy as int);
                assert(-(POINTER_DELTA_BOUND as int) * CAMERA_DT_BOUND * 3 <= (dx as int) * dt * 3
                    <= (POINTER_DELTA_BOUND as int) * CAMERA_DT_BOUND * 3 && -(POINTER_DELTA_BOUND
                    as int) * CAMERA_DT_BOUND * 3 <= (dy as int) * dt * 3 <= (POINTER_DELTA_BOUND
                    as int) * CAMERA_DT_BOUND * 3) by (nonlinear_arith)
                    requires
                        -POINTER_DELTA_BOUND <= dx as int <= POINTER_DELTA_BOUND,
                        -POINTER_DELTA_BOUND <= dy as int <= POINTER_DELTA_BOUND,
                        0 <= dt <= CAMERA_DT_BOUND,
                ;
                lemma_orbit_step_bound(dx as int, dt as int);
                lemma_orbit_step_bound(dy as int, dt as int);
                assert((k as int) * 3_000_000_000 + 3_000_000_000 == (k as int + 1) * 3_000_000_000)
                    by (nonlinear_arith);
                assert((k as int + 1) * 3_000_000_000 <= (POINTER_EVENTS_BOUND as int)
                    * 3_000_000_000) by (nonlinear_arith)
                    requires
                        0 <= k as int + 1 <= POINTER_EVENTS_BOUND as int,
                ;
            }
            let step_x = crate::fixed::div_trunc_i64(dx * dt * ORBIT_SENSITIVITY_NUM, ORBIT_SENSITIVITY_DEN);
            let step_y = crate::fixed::div_trunc_i64(dy * dt * ORBIT_SENSITIVITY_NUM, ORBIT_SENSITIVITY_DEN);
            cam.yaw_mr = cam.yaw_mr - step_x;
            cam.pitch_mr = cam.pitch_mr - step_y;
            k = k + 1;
        }
        proof {
            assert(xs.take(m as int) == xs);
            assert(ys.take(m as int) == ys);
        }
    }
}

/// One orbit step is bounded by the sensitivity-scaled product bound.
proof fn lemma_orbit_step_bound(delta: int, dt: int)
    requires
        -POINTER_DELTA_BOUND <= delta <= POINTER_DELTA_BOUND,
        0 <= dt <= CAMERA_DT_BOUND,
    ensures
        -3_000_000_000 <= orbit_step(delta, dt) <= 3_000_000_000,
{
    assert(-(POINTER_DELTA_BOUND as int) * CAMERA_DT_BOUND * 3 <= delta * dt * 3
        <= (POINTER_DELTA_BOUND as int) * CAMERA_DT_BOUND * 3) by (nonlinear_arith)
        requires
            -POINTER_DELTA_BOUND <= delta <= POINTER_DELTA_BOUND,
            0 <= dt <= CAMERA_DT_BOUND,
    ;
    lemma_div_trunc_small(delta * dt * 3, ORBIT_SENSITIVITY_DEN as int, 30_000_000_000_000);
    assert(30_000_000_000_000int / (ORBIT_SENSITIVITY_DEN as int) == 3_000_000_000);
}

/// Truncating division by a positive divisor divides a magnitude bound
/// through.
proof fn lemma_div_trunc_small(a: int, b: int, m: int)
    requires
        b >= 1,
        0 <= m,
        -m <= a <= m,
    ensures
        -(m / b) <= div_trunc(a, b) <= m / b,
{
    vstd::arithmetic::div_mod::lemma_div_pos_is_pos(m, b);
    if a >= 0 {
        vstd::arithmetic::div_mod::lemma_div_pos_is_pos(a, b);
        vstd::arithmetic::div_mod::lemma_div_is_ordered(a, m, b);
        vstd::arithmetic::div_mod::lemma_div_nonincreasing(m, b);
    } else {
        vstd::arithmetic::div_mod::lemma_div_pos_is_pos(-a, b);
        vstd::arithmetic::div_mod::lemma_div_is_ordered(-a, m, b);
        vstd::arithmetic::div_mod::lemma_div_nonincreasing(m, b);
    }
}

} // verus!
