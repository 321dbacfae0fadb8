//! The weapon system's flight half: projectile integration. Each frame a
//! projectile's velocity compounds by the growth factor `1 + rate * dt`
//! and its position advances by `velocity * dt`; a projectile farther
//! from the world origin than the boundary is destroyed.

use vstd::prelude::*;

use crate::fixed::{clamp_spec, div_milli, sqrt_floor};
use crate::registry::{ColorRgb, Gun, Laser, Registry, Slot};
use crate::rng::draw_in_range;
use crate::timer::TIME_BOUND;
use crate::vec3::{TransformFx, Vec3Fx};
use crate::LANDSCAPE_SIZE_HALF;

verus! {

/// Launch speed of a projectile, in milli-units per second.
pub const LASER_SPEED: i64 = 70_000;

/// Velocity growth rate, per second: each frame multiplies velocity by
/// `1 + LASER_GROWTH_RATE * dt`.
pub const LASER_GROWTH_RATE: i64 = 6;

/// Magnitude bound on a projectile velocity component accepted per frame,
/// in milli-units per second (machine limit).
pub const LASER_VEL_SAFE: i64 = 1_000_000_000_000;

/// Magnitude bound on a projectile position component accepted per frame,
/// in micro-units (machine limit).
pub const LASER_POS_SAFE: i64 = 1_000_000_000_000_000;

/// Frame-delta bound accepted by the projectile integrator, in
/// milliseconds (machine limit).
pub const LASER_DT_BOUND: i64 = 10_000;

/// The milli-scaled growth factor for a frame of `dt` milliseconds:
/// `1000 + 6 * dt` stands for `1 + 6 * dt` seconds-wise.
pub open spec fn growth_factor(dt: int) -> int {
    1000 + LASER_GROWTH_RATE * dt
}

/// One frame's velocity update: each component compounds by the growth
/// factor, rounded toward zero.
pub open spec fn grown_velocity(v: Vec3Fx, dt: int) -> Vec3Fx {
    v.scaled_spec(growth_factor(dt))
}

/// A projectile slot after one frame: velocity compounds first, then the
/// position advances by the new velocity times `dt` (exactly, since a
/// milli-velocity times a milli-time is a micro-position).
pub open spec fn laser_stepped_slot(s: Slot, dt: int) -> Slot {
    if s.alive && s.laser is Some {
        let v = grown_velocity(s.laser->0.velocity, dt);
        Slot {
            laser: Some(Laser { velocity: v }),
            transform: crate::vec3::TransformFx {
                pos: Vec3Fx {
                    x: (s.transform.pos.x + v.x * dt) as i64,
                    y: (s.transform.pos.y + v.y * dt) as i64,
                    z: (s.transform.pos.z + v.z * dt) as i64,
                },
                ..s.transform
            },
            ..s
        }
    } else {
        s
    }
}

/// Whether a stepped projectile has left the playable sphere: its
/// distance from the world origin exceeds the boundary.
pub open spec fn laser_out_of_bounds(s: Slot) -> bool {
    s.alive && s.laser is Some && s.transform.pos.len_sq_spec() > LANDSCAPE_SIZE_HALF
        * LANDSCAPE_SIZE_HALF
}

/// One slot's final state for a projectile frame.
pub open spec fn laser_frame_slot(s: Slot, dt: int) -> Slot {
    let m = laser_stepped_slot(s, dt);
    Slot { alive: m.alive && !laser_out_of_bounds(m), ..m }
}

/// A slot whose components stay inside the integrator's per-frame safety
/// bounds.
pub open spec fn laser_slot_safe(s: Slot) -> bool {
    &&& s.laser is Some ==> s.laser->0.velocity.bounded(LASER_VEL_SAFE as int)
    &&& s.transform.pos.bounded(LASER_POS_SAFE as int)
}

/// One frame of projectile integration over the registry: every live
/// projectile's velocity compounds by `1 + rate * dt` (milli-scaled,
/// rounded toward zero), its position advances by the new velocity times
/// `dt`, and it is destroyed once its distance from the origin exceeds
/// the world boundary. Nothing else changes.
pub fn update_lasers(reg: &mut Registry, dt: i64)
    requires
        old(reg).wf(),
        0 <= dt <= LASER_DT_BOUND,
        forall|i: int| 0 <= i < old(reg).slots@.len() ==> laser_slot_safe(#[trigger] old(reg).slots@[i]),
    ensures
        final(reg).wf(),
        final(reg).slots@.len() == old(reg).slots@.len(),
        final(reg).labels@ == old(reg).labels@,
        forall|i: int|
            0 <= i < old(reg).slots@.len() ==> final(reg).slots@[i] == laser_frame_slot(
                #[trigger] old(reg).slots@[i],
                dt as int,
            ),
{
    let n = reg.slots.len();
    let ghost orig = reg.slots@;
    let mut i: usize = 0;
    while i < n
        invariant
            reg.wf(),
            reg.labels@ == old(reg).labels@,
            n == reg.slots@.len(),
            orig.len() == n,
            0 <= dt <= LASER_DT_BOUND,
            forall|j: int| 0 <= j < n ==> laser_slot_safe(#[trigger] orig[j]),
            forall|j: int| 0 <= j < i ==> reg.slots@[j] == laser_frame_slot(#[trigger] orig[j], dt as int),
            forall|j: int| i <= j < n ==> reg.slots@[j] == orig[j],
        decreases n - i,
    {
        let s = reg.slots[i];
        if s.alive && s.laser.is_some() {
            let mut slot = s;
            let v0 = match slot.laser {
                Some(l) => l.velocity,
                None => Vec3Fx { x: 0, y: 0, z: 0 },
            };
            let f: i64 = 1000 + LASER_GROWTH_RATE * dt;
            proof {
                let vb: int = 61_000 * (LASER_VEL_SAFE as int);
                assert(-vb <= v0.x * f <= vb && -vb <= v0.y * f <= vb && -vb <= v0.z * f <= vb)
                    by (nonlinear_arith)
                    requires
                        v0.bounded(LASER_VEL_SAFE as int),
                        1000 <= f <= 61_000,
                        vb == 61_000 * (LASER_VEL_SAFE as int),
                ;
            }
            let v = v0.scaled(f);
            proof {
                let vb: int = 61_000 * (LASER_VEL_SAFE as int);
                crate::fixed::lemma_div_milli_bound(v0.x * f, vb);
                crate::fixed::lemma_div_milli_bound(v0.y * f, vb);
                crate::fixed::lemma_div_milli_bound(v0.z * f, vb);
                assert(vb / 1000 == 61 * (LASER_VEL_SAFE as int));
                assert(v.bounded(61 * (LASER_VEL_SAFE as int)));
                assert(-(61 * (LASER_VEL_SAFE as int)) * LASER_DT_BOUND <= v.x * dt <= (61
                    * (LASER_VEL_SAFE as int)) * LASER_DT_BOUND && -(61 * (LASER_VEL_SAFE as int))
                    * LASER_DT_BOUND <= v.y * dt <= (61 * (LASER_VEL_SAFE as int)) * LASER_DT_BOUND
                    && -(61 * (LASER_VEL_SAFE as int)) * LASER_DT_BOUND <= v.z * dt <= (61
                    * (LASER_VEL_SAFE as int)) * LASER_DT_BOUND) by (nonlinear_arith)
                    requires
                        v.bounded(61 * (LASER_VEL_SAFE as int)),
                        0 <= dt <= LASER_DT_BOUND,
                ;
            }
            slot.laser = Some(Laser { velocity: v });
            slot.transform.pos.x = slot.transform.pos.x + v.x * dt;
            slot.transform.pos.y = slot.transform.pos.y + v.y * dt;
            slot.transform.pos.z = slot.transform.pos.z + v.z * dt;
            let dsq: i128 = slot.transform.pos.len_sq();
            if dsq > (LANDSCAPE_SIZE_HALF as i128) * (LANDSCAPE_SIZE_HALF as i128) {
                slot.alive = false;
            }
            reg.slots.set(i, slot);
            assert(reg.slots@[i as int] == laser_frame_slot(orig[i as int], dt as int));
        } else {
            assert(reg.slots@[i as int] == laser_frame_slot(orig[i as int], dt as int));
        }
        i = i + 1;
    }
}

/// Inclusive lower bound of a shot cue's playback speed, milli-scaled.
pub const AUDIO_SPEED_MIN: i64 = 700;

/// Exclusive upper bound of a shot cue's playback speed, milli-scaled.
pub const AUDIO_SPEED_MAX: i64 = 1_400;

/// The distance, in micro-units, at and beyond which a shot cue is
/// silent; volume attenuates linearly from full at distance zero.
pub const AUDIO_FALLOFF: i64 = 100_000_000;

/// Position-coordinate bound accepted by the firing pass, in micro-units
/// (machine limit).
pub const SHOT_POS_SAFE: i64 = 1_000_000_000_000_000;

/// Facing-component bound accepted by the firing pass, milli-scaled
/// (machine limit).
pub const SHOT_FWD_SAFE: i64 = 1_000_000;

/// Entity-count bound accepted by the firing pass (machine limit).
pub const SHOT_COUNT_SAFE: usize = 100_000_000;

/// The launch velocity of a shot: the gun's facing scaled by the launch
/// speed.
pub open spec fn fired_velocity(fwd: Vec3Fx) -> Vec3Fx {
    fwd.scaled_spec(LASER_SPEED as int)
}

/// A cue's volume in permille, from the squared distance between gun and
/// viewpoint: full at distance zero, linearly down to silent at the
/// falloff distance, clamped there.
pub open spec fn volume_spec(dist_sq: int) -> int {
    1000 - clamp_spec(sqrt_floor(dist_sq) / 100_000, 0, 1000)
}

/// The squared distance between two points.
pub open spec fn dist_sq_spec(a: Vec3Fx, b: Vec3Fx) -> int {
    (a.x - b.x) * (a.x - b.x) + (a.y - b.y) * (a.y - b.y) + (a.z - b.z) * (a.z - b.z)
}

/// An outbound fire-and-forget request raised by one shot: where to
/// render the projectile, its velocity and tint, and the audio cue's
/// randomized playback speed and distance-attenuated volume.
#[derive(Clone, Copy, PartialEq, Eq, Structural, Debug)]
pub struct ShotEvent {
    pub pos: Vec3Fx,
    pub fwd: Vec3Fx,
    pub velocity: Vec3Fx,
    pub color: ColorRgb,
    pub audio_speed: i64,
    pub volume: i64,
}

/// Whether an event is exactly what firing the gun in slot `s` emits,
/// seen from the viewpoint `cam`.
pub open spec fn event_matches(ev: ShotEvent, s: Slot, cam: Vec3Fx) -> bool {
    &&& s.alive
    &&& s.gun is Some
    &&& ev.pos == s.transform.pos
    &&& ev.fwd == s.transform.fwd
    &&& ev.velocity == fired_velocity(s.transform.fwd)
    &&& ev.color == s.gun->0.color
    &&& AUDIO_SPEED_MIN <= ev.audio_speed < AUDIO_SPEED_MAX
    &&& ev.volume == volume_spec(dist_sq_spec(s.transform.pos, cam))
}

/// Whether a slot is the projectile entity spawned for an event.
pub open spec fn laser_entity_for(s: Slot, ev: ShotEvent) -> bool {
    &&& s.alive
    &&& s.parent is None
    &&& s.laser == Some(Laser { velocity: ev.velocity })
    &&& s.transform.pos == ev.pos
    &&& s.transform.fwd == ev.fwd
    &&& s.scroll_tag is None
    &&& s.awaiting_gun is None
    &&& s.gun is None
}

/// A gun-carrying slot after the firing pass: only its timer advanced.
pub open spec fn gun_shot_slot(s: Slot, dt: int) -> Slot {
    if s.alive && s.gun is Some {
        Slot {
            gun: Some(Gun { color: s.gun->0.color, timer: s.gun->0.timer.advanced_spec(dt) }),
            ..s
        }
    } else {
        s
    }
}

/// How many shots the first `j` slots fire when advanced by `dt`.
pub open spec fn sum_fires(slots: Seq<Slot>, dt: int, j: int) -> int
    decreases j,
{
    if j <= 0 {
        0
    } else {
        sum_fires(slots, dt, j - 1) + if slots[j - 1].alive && slots[j - 1].gun is Some {
            slots[j - 1].gun->0.timer.fires_spec(dt)
        } else {
            0
        }
    }
}

/// A slot the firing pass accepts: a well-formed gun timer and bounded
/// transform components (machine limits).
pub open spec fn gun_fire_safe(s: Slot) -> bool {
    &&& s.gun is Some ==> s.gun->0.timer.wf()
    &&& s.transform.pos.bounded(SHOT_POS_SAFE as int)
    &&& s.transform.fwd.bounded(SHOT_FWD_SAFE as int)
}

/// One frame of gun firing. Every live gun's repeating timer advances by
/// `dt` and fires once per whole period elapsed — catch-up on long
/// frames, so no shot is lost. Each firing spawns one projectile entity
/// at the gun's current transform, moving along the gun's facing at the
/// launch speed, and emits one outbound request carrying the projectile
/// data, the gun's color, a playback speed drawn from the fixed range,
/// and a volume attenuating linearly with the gun's distance from the
/// viewpoint. Existing entities change only in their gun timers.
pub fn shoot_guns(reg: &mut Registry, camera_pos: Vec3Fx, dt: i64) -> (events: Vec<ShotEvent>)
    requires
        old(reg).wf(),
        0 <= dt <= LASER_DT_BOUND,
        camera_pos.bounded(SHOT_POS_SAFE as int),
        old(reg).slots@.len() <= SHOT_COUNT_SAFE,
        (old(reg).slots@.len() as int) * (TIME_BOUND as int + LASER_DT_BOUND as int + 1)
            < usize::MAX,
        forall|i: int| 0 <= i < old(reg).slots@.len() ==> gun_fire_safe(#[trigger] old(reg).slots@[i]),
    ensures
        final(reg).wf(),
        final(reg).slots@.len() == old(reg).slots@.len() + events@.len(),
        events@.len() == sum_fires(old(reg).slots@, dt as int, old(reg).slots@.len() as int),
        forall|i: int|
            0 <= i < old(reg).slots@.len() ==> final(reg).slots@[i] == gun_shot_slot(
                #[trigger] old(reg).slots@[i],
                dt as int,
            ),
        forall|i: int|
            0 <= i < old(reg).labels@.len() ==> final(reg).labels@[i] == #[trigger] old(
                reg,
            ).labels@[i],
        forall|k: int|
            0 <= k < events@.len() ==> exists|i: int|
                0 <= i < old(reg).slots@.len() && event_matches(
                    #[trigger] events@[k],
                    old(reg).slots@[i],
                    camera_pos,
                ),
        forall|k: int|
            0 <= k < events@.len() ==> laser_entity_for(
                final(reg).slots@[old(reg).slots@.len() + k],
                #[trigger] events@[k],
            ),
{
    let ghost orig = reg.slots@;
    let ghost olabs = reg.labels@;
    let n0 = reg.slots.len();
    let ghost cap: int = TIME_BOUND as int + LASER_DT_BOUND as int;
    let mut events: Vec<ShotEvent> = Vec::new();
    let mut j: usize = 0;
    while j < n0
        invariant
            reg.wf(),
            n0 == orig.len() <= SHOT_COUNT_SAFE,
            olabs.len() == n0,
            (n0 as int) * (cap + 1) < usize::MAX,
            j <= n0,
            0 <= dt <= LASER_DT_BOUND,
            cap == TIME_BOUND as int + LASER_DT_BOUND as int,
            camera_pos.bounded(SHOT_POS_SAFE as int),
            forall|i: int| 0 <= i < n0 ==> gun_fire_safe(#[trigger] orig[i]),
            reg.slots@.len() == n0 + events@.len(),
            events@.len() == sum_fires(orig, dt as int, j as int),
            events@.len() <= (j as int) * cap,
            forall|i: int|
                0 <= i < j ==> reg.slots@[i] == gun_shot_slot(#[trigger] orig[i], dt as int),
            forall|i: int| j <= i < n0 ==> reg.slots@[i] == orig[i],
            forall|i: int| 0 <= i < olabs.len() ==> reg.labels@[i] == #[trigger] olabs[i],
            forall|k: int|
                0 <= k < events@.len() ==> exists|i: int|
                    0 <= i < n0 && event_matches(#[trigger] events@[k], orig[i], camera_pos),
            forall|k: int|
                0 <= k < events@.len() ==> laser_entity_for(
                    reg.slots@[n0 + k],
                    #[trigger] events@[k],
                ),
        decreases n0 - j,
    {
        let s = reg.slots[j];
        if s.alive && s.gun.is_some() {
            let mut gun = match s.gun {
                Some(g) => g,
                None => Gun {
                    color: ColorRgb { r: 0, g: 0, b: 0 },
                    timer: crate::timer::RepeatTimer { period: 1, elapsed: 0 },
                },
            };
            let fires = gun.timer.advance(dt);
            let mut slot = s;
            slot.gun = Some(gun);
            reg.slots.set(j, slot);
            assert(reg.slots@[j as int] == gun_shot_slot(orig[j as int], dt as int));
            proof {
                // One gun fires at most one shot per elapsed millisecond.
                vstd::arithmetic::div_mod::lemma_div_nonincreasing(
                    s.gun->0.timer.elapsed + dt,
                    s.gun->0.timer.period as int,
                );
                assert(fires <= cap);
            }

            // The shot data shared by every firing of this gun.
            let dvec = Vec3Fx {
                x: s.transform.pos.x - camera_pos.x,
                y: s.transform.pos.y - camera_pos.y,
                z: s.transform.pos.z - camera_pos.z,
            };
            let dsq: i128 = dvec.len_sq();
            proof {
                assert(dsq as int == dist_sq_spec(s.transform.pos, camera_pos));
            }
            let dist: u64 = crate::fixed::isqrt_u128(dsq as u128);
            proof {
                assert((dsq as u128) as int == dsq as int);
                crate::fixed::lemma_sqrt_floor_bounds(dsq as int);
                assert(dist as int == sqrt_floor(dsq as int));
            }
            let ratio: u64 = dist / 100_000;
            let volume: i64 = if ratio >= 1000 {
                0
            } else {
                1000 - (ratio as i64)
            };
            proof {
                assert(ratio as int == sqrt_floor(dsq as int) / 100_000);
                assert(volume == volume_spec(dsq as int));
            }
            let vel = s.transform.fwd.scaled(LASER_SPEED);
            proof {
                assert(-crate::fixed::FX_BOUND <= s.transform.fwd.x * LASER_SPEED
                    <= crate::fixed::FX_BOUND && -crate::fixed::FX_BOUND <= s.transform.fwd.y
                    * LASER_SPEED <= crate::fixed::FX_BOUND && -crate::fixed::FX_BOUND
                    <= s.transform.fwd.z * LASER_SPEED <= crate::fixed::FX_BOUND)
                    by (nonlinear_arith)
                    requires
                        s.transform.fwd.bounded(SHOT_FWD_SAFE as int),
                ;
            }

            let ghost base = events@.len() as int;
            let mut f: i64 = 0;
            while f < fires
                invariant
                    reg.wf(),
                    n0 == orig.len() <= SHOT_COUNT_SAFE,
                    olabs.len() == n0,
                    (n0 as int) * (cap + 1) < usize::MAX,
                    j < n0,
                    0 <= f <= fires,
                    fires <= cap,
                    cap == TIME_BOUND as int + LASER_DT_BOUND as int,
                    reg.slots@.len() == n0 + events@.len(),
                    events@.len() == base + f,
                    base == sum_fires(orig, dt as int, j as int),
                    base <= (j as int) * cap,
                    forall|i: int|
                        0 <= i < j ==> reg.slots@[i] == gun_shot_slot(#[trigger] orig[i], dt as int),
                    reg.slots@[j as int] == gun_shot_slot(orig[j as int], dt as int),
                    forall|i: int| j < i < n0 ==> reg.slots@[i] == orig[i],
                    forall|i: int| 0 <= i < olabs.len() ==> reg.labels@[i] == #[trigger] olabs[i],
                    forall|k: int|
                        0 <= k < events@.len() ==> exists|i: int|
                            0 <= i < n0 && event_matches(#[trigger] events@[k], orig[i], camera_pos),
                    forall|k: int|
                        0 <= k < events@.len() ==> laser_entity_for(
                            reg.slots@[n0 + k],
                            #[trigger] events@[k],
                        ),
                    volume == volume_spec(dist_sq_spec(orig[j as int].transform.pos, camera_pos)),
                    vel == fired_velocity(orig[j as int].transform.fwd),
                    s == orig[j as int],
                    s.alive && s.gun is Some,
                    gun.color == orig[j as int].gun->0.color,
                decreases fires - f,
            {
                proof {
                    assert(reg.slots@.len() < usize::MAX) by {
                        assert(events@.len() <= (j as int) * cap + cap);
                        assert((j as int) * cap + cap <= (n0 as int) * cap) by (nonlinear_arith)
                            requires
                                0 <= j as int + 1 <= n0 as int,
                                cap > 0,
                        ;
                        assert((n0 as int) + (n0 as int) * cap == (n0 as int) * (cap + 1))
                            by (nonlinear_arith);
                    };
                }
                let speed = draw_in_range(AUDIO_SPEED_MIN, AUDIO_SPEED_MAX);
                let ev = ShotEvent {
                    pos: s.transform.pos,
                    fwd: s.transform.fwd,
                    velocity: vel,
                    color: gun.color,
                    audio_speed: speed,
                    volume,
                };
                let id = reg.spawn_laser(s.transform, vel);
                events.push(ev);
                proof {
                    assert(ev.pos == orig[j as int].transform.pos);
                    assert(ev.fwd == orig[j as int].transform.fwd);
                    assert(ev.velocity == fired_velocity(orig[j as int].transform.fwd));
                    assert(ev.color == orig[j as int].gun->0.color);
                    assert(AUDIO_SPEED_MIN <= ev.audio_speed < AUDIO_SPEED_MAX);
                    assert(ev.volume == volume_spec(
                        dist_sq_spec(orig[j as int].transform.pos, camera_pos),
                    ));
                    assert(event_matches(ev, orig[j as int], camera_pos));
                    assert(laser_entity_for(reg.slots@[id as int], ev));
                }
                f = f + 1;
            }
            proof {
                assert(sum_fires(orig, dt as int, j as int + 1) == base + fires);
                assert(base + fires <= (j as int) * cap + cap);
                assert((j as int) * cap + cap == (j as int + 1) * cap) by (nonlinear_arith);
            }
        } else {
            assert(reg.slots@[j as int] == gun_shot_slot(orig[j as int], dt as int));
            proof {
                assert(sum_fires(orig, dt as int, j as int + 1) == sum_fires(
                    orig,
                    dt as int,
                    j as int,
                ));
                assert((j as int) * cap <= (j as int + 1) * cap) by (nonlinear_arith)
                    requires
                        cap > 0,
                        j >= 0,
                ;
            }
        }
        j = j + 1;
    }
    events
}

/// Exponential compounding of projectile speed: advancing a projectile
/// `k + 1` frames compounds one more growth factor onto the velocity
/// after `k` frames, and a velocity whose components carry `k` spare
/// factors of 1000 compounds with no rounding at all: each component is
/// then exactly `v * (1000 + 6 dt)^k / 1000^k`.
pub proof fn lemma_velocity_compounding(c: int, dt: int, k: nat)
    requires
        0 <= dt,
        c % pow1000(k) == 0,
    ensures
        grown_component_k(c, dt, k) * pow1000(k) == c * pow_factor(growth_factor(dt), k),
    decreases k,
{
    let f = growth_factor(dt);
    lemma_pow1000_pos(k);
    if k == 0 {
        assert(pow1000(0) == 1 && pow_factor(f, 0) == 1);
    } else {
        let km1 = (k - 1) as nat;
        lemma_pow1000_pos(km1);
        let m = c / pow1000(k);
        vstd::arithmetic::div_mod::lemma_fundamental_div_mod(c, pow1000(k));
        assert(c == m * pow1000(k)) by (nonlinear_arith)
            requires
                c == pow1000(k) * (c / pow1000(k)) + c % pow1000(k),
                c % pow1000(k) == 0,
                m == c / pow1000(k),
        ;
        assert(pow1000(k) == 1000 * pow1000(km1));
        // One growth step divides by 1000 exactly, consuming one spare factor.
        let c1 = grown_component(c, dt);
        assert(c * f == (m * f * pow1000(km1)) * 1000) by (nonlinear_arith)
            requires
                c == m * (1000 * pow1000(km1)),
        ;
        lemma_mul_div_exact(m * f * pow1000(km1), 1000);
        assert(div_milli(c * f) == m * f * pow1000(km1)) by {
            assert(c * f == (m * f * pow1000(km1)) * 1000);
        };
        assert(c1 == m * f * pow1000(km1));
        assert(c1 % pow1000(km1) == 0) by {
            assert(c1 == (m * f) * pow1000(km1)) by (nonlinear_arith)
                requires
                    c1 == m * f * pow1000(km1),
            ;
            vstd::arithmetic::div_mod::lemma_mod_multiples_basic(m * f, pow1000(km1));
        };
        lemma_velocity_compounding(c1, dt, km1);
        lemma_grown_k_shift(c, dt, km1);
        assert(grown_component_k(c, dt, k) == grown_component_k(c1, dt, km1));
        assert(grown_component_k(c1, dt, km1) * pow1000(km1) == c1 * pow_factor(f, km1));
        assert(grown_component_k(c, dt, k) * pow1000(k) == c * pow_factor(f, k))
            by (nonlinear_arith)
            requires
                grown_component_k(c, dt, k) * pow1000(km1) == c1 * pow_factor(f, km1),
                pow1000(k) == 1000 * pow1000(km1),
                pow_factor(f, k) == f * pow_factor(f, km1),
                c1 * 1000 == c * f,
        ;
    }
}

/// One scalar growth step: the component times the growth factor, with
/// the milli scale divided back out (rounded toward zero).
pub open spec fn grown_component(c: int, dt: int) -> int {
    div_milli(c * growth_factor(dt))
}

/// `k` scalar growth steps.
pub open spec fn grown_component_k(c: int, dt: int, k: nat) -> int
    decreases k,
{
    if k == 0 {
        c
    } else {
        grown_component(grown_component_k(c, dt, (k - 1) as nat), dt)
    }
}

/// `1000^k`.
pub open spec fn pow1000(k: nat) -> int
    decreases k,
{
    if k == 0 {
        1
    } else {
        1000 * pow1000((k - 1) as nat)
    }
}

/// `f^k`.
pub open spec fn pow_factor(f: int, k: nat) -> int
    decreases k,
{
    if k == 0 {
        1
    } else {
        f * pow_factor(f, (k - 1) as nat)
    }
}

/// Stepping once and then `k` times is stepping `k + 1` times.
proof fn lemma_grown_k_shift(c: int, dt: int, k: nat)
    ensures
        grown_component_k(grown_component(c, dt), dt, k) == grown_component_k(c, dt, (k + 1) as nat),
    decreases k,
{
    if k > 0 {
        let km1 = (k - 1) as nat;
        lemma_grown_k_shift(c, dt, km1);
        assert(grown_component_k(grown_component(c, dt), dt, k) == grown_component(
            grown_component_k(grown_component(c, dt), dt, km1),
            dt,
        ));
        assert(grown_component_k(c, dt, (k + 1) as nat) == grown_component(
            grown_component_k(c, dt, k),
            dt,
        ));
    } else {
        assert(grown_component_k(grown_component(c, dt), dt, 0) == grown_component(c, dt));
        assert(grown_component_k(c, dt, 1) == grown_component(grown_component_k(c, dt, 0), dt));
    }
}

/// `1000^k` is positive.
pub proof fn lemma_pow1000_pos(k: nat)
    ensures
        pow1000(k) >= 1,
    decreases k,
{
    if k > 0 {
        lemma_pow1000_pos((k - 1) as nat);
    }
}

/// An exact multiple divides back out exactly, even under truncating
/// division.
proof fn lemma_mul_div_exact(q: int, d: int)
    requires
        d > 0,
    ensures
        div_milli(q * 1000) == q,
{
    if q >= 0 {
        assert(q * 1000 >= 0) by (nonlinear_arith)
            requires
                q >= 0,
        ;
        vstd::arithmetic::div_mod::lemma_div_multiples_vanish(q, 1000);
    } else {
        assert(q * 1000 < 0) by (nonlinear_arith)
            requires
                q < 0,
        ;
        assert(-(q * 1000) == (-q) * 1000) by (nonlinear_arith);
        vstd::arithmetic::div_mod::lemma_div_multiples_vanish(-q, 1000);
    }
}

} // verus!
