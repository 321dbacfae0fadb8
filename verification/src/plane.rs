//! The craft controller: smooth target-seeking motion. Each frame the
//! craft's facing blends toward the direction of a point slightly ahead
//! of its steering target, its position blends toward the target plus a
//! time-driven wobble offset, and a countdown periodically picks a fresh
//! random target.

use vstd::prelude::*;

use crate::fixed::div_milli;
use crate::rng::draw_in_range;
use crate::timer::TIME_BOUND;
use crate::vec3::{TransformFx, Vec3Fx, LERP_BOUND};

verus! {

/// Forward depth bias, in micro-units: the craft steers toward a point
/// this far ahead of its literal target, which keeps its orientation
/// from oscillating at close range.
pub const STEER_DEPTH_BIAS: i64 = 10_000_000;

/// Frame-delta bound accepted by the craft controller, in milliseconds
/// (machine limit).
pub const PLANE_DT_BOUND: i64 = 10_000;

/// Bound on the milli-scaled blend rates (machine limit).
pub const PLANE_RATE_BOUND: i64 = 100_000;

/// Per-craft steering state: the current target and the countdown to the
/// next retarget, in milliseconds.
#[derive(Clone, Copy, PartialEq, Eq, Structural, Debug)]
pub struct PlaneMovement {
    pub target_pos: Vec3Fx,
    pub timer: i64,
}

/// The craft controller's configuration, fixed at startup. Rates are
/// milli-scaled per second; the wobble speed is consumed by whoever
/// computes the sinusoidal wobble offset from elapsed time; the box area
/// is the half-extent, in micro-units, of the cube fresh targets are
/// drawn from.
#[derive(Clone, Copy, PartialEq, Eq, Structural, Debug)]
pub struct PlaneSettings {
    pub wobble_speed: i64,
    pub rotation_speed: i64,
    pub move_interval: i64,
    pub box_area: i64,
    pub speed: i64,
}

impl PlaneSettings {
    /// Configuration sanity: positive bounded interval and box, bounded
    /// non-negative rates.
    pub open spec fn wf(self) -> bool {
        &&& 0 < self.move_interval <= TIME_BOUND
        &&& 0 < self.box_area <= 1_000_000_000
        &&& 0 <= self.speed <= PLANE_RATE_BOUND
        &&& 0 <= self.rotation_speed <= PLANE_RATE_BOUND
    }
}

/// The point the craft steers toward: its target pushed forward by the
/// fixed depth bias.
pub open spec fn biased_target(target: Vec3Fx) -> Vec3Fx {
    Vec3Fx { z: (target.z + STEER_DEPTH_BIAS) as i64, ..target }
}

/// The craft's new facing: blended toward the normalized direction from
/// its position to the biased target, or held unchanged when the two
/// coincide (the degenerate direction has no meaning).
pub open spec fn steered_facing(pos: Vec3Fx, fwd: Vec3Fx, target: Vec3Fx, alpha: int) -> Vec3Fx {
    let d = Vec3Fx {
        x: (biased_target(target).x - pos.x) as i64,
        y: (biased_target(target).y - pos.y) as i64,
        z: (biased_target(target).z - pos.z) as i64,
    };
    if d.len_sq_spec() == 0 {
        fwd
    } else {
        Vec3Fx::lerp_spec(fwd, Vec3Fx::normalized_spec(d), alpha)
    }
}

/// One frame of craft steering. With `a_rot = rotation_speed * dt / 1000`
/// and `a_pos = speed * dt / 1000` (milli-scaled, rounded toward zero):
/// the facing blends by `a_rot` toward the direction of the biased
/// target; the position blends by `a_pos` toward the old target plus the
/// caller-computed wobble offset of this instant; the countdown drops by
/// `dt`, and on reaching zero or below it resets to the move interval
/// and a fresh target is drawn uniformly from the settings' box. The
/// wobble term keeps moving with elapsed time, so the blend tracks
/// `target + wobble` rather than freezing at the literal target.
pub fn move_plane(
    tf: &mut TransformFx,
    pm: &mut PlaneMovement,
    settings: &PlaneSettings,
    dt: i64,
    wobble: Vec3Fx,
) -> (retargeted: bool)
    requires
        settings.wf(),
        0 <= dt <= PLANE_DT_BOUND,
        old(tf).pos.bounded(400_000_000_000),
        old(tf).fwd.bounded(LERP_BOUND as int),
        old(pm).target_pos.bounded(400_000_000_000),
        wobble.bounded(1_000_000_000),
        -TIME_BOUND <= old(pm).timer <= TIME_BOUND,
    ensures
        retargeted == (old(pm).timer - dt <= 0),
        final(pm).timer == if retargeted {
            settings.move_interval as int
        } else {
            old(pm).timer - dt
        },
        retargeted ==> (-settings.box_area <= final(pm).target_pos.x < settings.box_area
            && -settings.box_area <= final(pm).target_pos.y < settings.box_area
            && -settings.box_area <= final(pm).target_pos.z < settings.box_area),
        !retargeted ==> final(pm).target_pos == old(pm).target_pos,
        final(tf).fwd == steered_facing(
            old(tf).pos,
            old(tf).fwd,
            old(pm).target_pos,
            div_milli(settings.rotation_speed * dt),
        ),
        final(tf).pos == Vec3Fx::lerp_spec(
            old(tf).pos,
            Vec3Fx {
                x: (old(pm).target_pos.x + wobble.x) as i64,
                y: (old(pm).target_pos.y + wobble.y) as i64,
                z: (old(pm).target_pos.z + wobble.z) as i64,
            },
            div_milli(settings.speed * dt),
        ),
        final(tf).yaw_mr == old(tf).yaw_mr,
{
    pm.timer = pm.timer - dt;

    // Facing: blend toward the biased target's direction.
    proof {
        assert(0 <= settings.rotation_speed * dt <= (PLANE_RATE_BOUND as int) * (PLANE_DT_BOUND
            as int)) by (nonlinear_arith)
            requires
                0 <= settings.rotation_speed <= PLANE_RATE_BOUND,
                0 <= dt <= PLANE_DT_BOUND,
        ;
        crate::fixed::lemma_div_milli_bound(
            settings.rotation_speed * dt,
            (PLANE_RATE_BOUND as int) * (PLANE_DT_BOUND as int),
        );
        vstd::arithmetic::div_mod::lemma_div_pos_is_pos(settings.rotation_speed * dt, 1000);
    }
    let a_rot = crate::fixed::scale_milli_i64(settings.rotation_speed, dt);
    let dir = Vec3Fx {
        x: pm.target_pos.x - tf.pos.x,
        y: pm.target_pos.y - tf.pos.y,
        z: pm.target_pos.z + STEER_DEPTH_BIAS - tf.pos.z,
    };
    match dir.normalized() {
        Some(d) => {
            proof {
                lemma_normalized_small(dir);
            }
            tf.fwd = tf.fwd.lerp(d, a_rot);
        },
        None => {
        },
    }

    // Position: blend toward the old target plus this instant's wobble.
    proof {
        assert(0 <= settings.speed * dt <= (PLANE_RATE_BOUND as int) * (PLANE_DT_BOUND as int))
            by (nonlinear_arith)
            requires
                0 <= settings.speed <= PLANE_RATE_BOUND,
                0 <= dt <= PLANE_DT_BOUND,
        ;
        crate::fixed::lemma_div_milli_bound(
            settings.speed * dt,
            (PLANE_RATE_BOUND as int) * (PLANE_DT_BOUND as int),
        );
        vstd::arithmetic::div_mod::lemma_div_pos_is_pos(settings.speed * dt, 1000);
    }
    let a_pos = crate::fixed::scale_milli_i64(settings.speed, dt);
    let wobble_target = Vec3Fx {
        x: pm.target_pos.x + wobble.x,
        y: pm.target_pos.y + wobble.y,
        z: pm.target_pos.z + wobble.z,
    };

    // Retarget once the countdown runs dry; the position blend below
    // still uses the target the wobble was applied to.
    let retargeted: bool = pm.timer <= 0;
    if retargeted {
        pm.timer = settings.move_interval;
        pm.target_pos = Vec3Fx {
            x: draw_in_range(-settings.box_area, settings.box_area),
            y: draw_in_range(-settings.box_area, settings.box_area),
            z: draw_in_range(-settings.box_area, settings.box_area),
        };
    }

    tf.pos = tf.pos.lerp(wobble_target, a_pos);
    retargeted
}

/// A normalized direction's components are tiny: each is a truncated
/// quotient of `c * 1000` by a root at least as large as `|c|`.
proof fn lemma_normalized_small(d: Vec3Fx)
    requires
        d.bounded(LERP_BOUND as int),
        d.len_sq_spec() != 0,
    ensures
        Vec3Fx::normalized_spec(d).bounded(LERP_BOUND as int),
{
    let n = d.len_sq_spec();
    assert(n > 0) by (nonlinear_arith)
        requires
            n == d.x * d.x + d.y * d.y + d.z * d.z,
            n != 0,
    ;
    crate::fixed::lemma_sqrt_floor_bounds(n);
    let l = crate::fixed::sqrt_floor(n);
    assert(l >= 1) by {
        if l == 0 {
            assert((l + 1) * (l + 1) == 1) by (nonlinear_arith)
                requires
                    l == 0,
            ;
        }
    };
    assert(d.x * d.x <= n && d.y * d.y <= n && d.z * d.z <= n) by (nonlinear_arith)
        requires
            n == d.x * d.x + d.y * d.y + d.z * d.z,
    ;
    lemma_norm_component_small(d.x as int, n, l);
    lemma_norm_component_small(d.y as int, n, l);
    lemma_norm_component_small(d.z as int, n, l);
}

/// A component divided by the root of a squared sum it contributes to is
/// at most the milli scale in magnitude.
proof fn lemma_norm_component_small(c: int, n: int, l: int)
    requires
        n >= 0,
        c * c <= n,
        l == crate::fixed::sqrt_floor(n),
        l >= 1,
    ensures
        -1000 <= crate::fixed::div_trunc(c * 1000, l) <= 1000,
{
    crate::fixed::lemma_sqrt_floor_bounds(n);
    if c == 0 {
        vstd::arithmetic::div_mod::lemma_div_of0(l);
    } else {
        let a: int = if c >= 0 {
            c
        } else {
            -c
        };
        assert(a >= 1);
        assert(a * a == c * c) by (nonlinear_arith)
            requires
                a == c || a == -c,
        ;
        assert(l >= a) by {
            if l < a {
                assert((l + 1) * (l + 1) <= a * a) by (nonlinear_arith)
                    requires
                        0 <= l + 1 <= a,
                ;
            }
        };
        vstd::arithmetic::div_mod::lemma_div_is_ordered_by_denominator(a * 1000, a, l);
        vstd::arithmetic::div_mod::lemma_div_multiples_vanish(1000, a);
        assert(a * 1000 == 1000 * a) by (nonlinear_arith);
        assert((a * 1000) / a == 1000);
        vstd::arithmetic::div_mod::lemma_div_pos_is_pos(a * 1000, l);
        assert(0 <= (a * 1000) / l <= 1000);
        if c >= 0 {
            assert(crate::fixed::div_trunc(c * 1000, l) == (a * 1000) / l);
        } else {
            assert(-(c * 1000) == a * 1000) by (nonlinear_arith)
                requires
                    a == -c,
            ;
            assert(crate::fixed::div_trunc(c * 1000, l) == -((a * 1000) / l));
        }
    }
}

/// Idempotence of the position blend at the wobbled target: a craft
/// standing exactly on `target + wobble` at some instant does not move
/// when blended toward that same instant's wobbled target — and, by
/// `move_plane`'s contract, a later frame blends toward the target plus
/// the *new* wobble of that instant, so the craft keeps tracking the
/// moving wobble term rather than freezing once it arrives.
pub proof fn lemma_wobble_blend_idempotent(target: Vec3Fx, wobble: Vec3Fx, alpha: int)
    requires
        target.x + wobble.x <= i64::MAX,
        target.y + wobble.y <= i64::MAX,
        target.z + wobble.z <= i64::MAX,
        i64::MIN <= target.x + wobble.x,
        i64::MIN <= target.y + wobble.y,
        i64::MIN <= target.z + wobble.z,
    ensures
        Vec3Fx::lerp_spec(
            Vec3Fx {
                x: (target.x + wobble.x) as i64,
                y: (target.y + wobble.y) as i64,
                z: (target.z + wobble.z) as i64,
            },
            Vec3Fx {
                x: (target.x + wobble.x) as i64,
                y: (target.y + wobble.y) as i64,
                z: (target.z + wobble.z) as i64,
            },
            alpha,
        ) == (Vec3Fx {
            x: (target.x + wobble.x) as i64,
            y: (target.y + wobble.y) as i64,
            z: (target.z + wobble.z) as i64,
        }),
{
    Vec3Fx::lemma_lerp_idempotent(
        Vec3Fx {
            x: (target.x + wobble.x) as i64,
            y: (target.y + wobble.y) as i64,
            z: (target.z + wobble.z) as i64,
        },
        alpha,
    );
}

} // verus!
