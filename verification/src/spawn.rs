//! The procedural spawner's spawn pass: when the scheduling accumulator
//! triggers, one random draw picks the kind of actor to create, and a
//! far-field transform is randomized for it — a mirrored lateral offset
//! with a kind-specific minimum clearance, a fixed height, the far
//! boundary's forward coordinate, and a uniformly random yaw.

use vstd::prelude::*;

use crate::registry::{AwaitingSpawnGun, ColorRgb, MoveWithLandscapeTag, Registry};
use crate::rng::draw_in_range;
use crate::spawner::Spawner;
use crate::timer::TIME_BOUND;
use crate::vec3::{TransformFx, Vec3Fx};
use crate::LANDSCAPE_SIZE_HALF;

verus! {

/// The far edge of the lateral spawn band, in micro-units.
pub const SPAWN_X_FAR: i64 = 400_000_000;

/// Height every spawned actor starts at, in micro-units.
pub const SPAWN_HEIGHT: i64 = -20_000_000;

/// Minimum lateral clearance of an enemy actor, in micro-units.
pub const ENEMY_X_CLOSE: i64 = 36_000_000;

/// Minimum lateral clearance of a small obstacle, in micro-units.
pub const SMALL_OBSTACLE_X_CLOSE: i64 = 30_000_000;

/// Minimum lateral clearance of a large obstacle, in micro-units.
pub const LARGE_OBSTACLE_X_CLOSE: i64 = 90_000_000;

/// A full turn, in milli-radians: the exclusive bound of a random yaw.
pub const FULL_TURN_MR: i64 = 6_283;

/// What a spawn trigger creates, decided by one uniform draw from
/// `[0, 100]`.
#[derive(Clone, Copy, PartialEq, Eq, Structural, Debug)]
pub enum SpawnKind {
    /// Draws 0 through 70: an enemy actor, tagged for scrolling and for
    /// gun attachment.
    Enemy,
    /// Draws 71 through 80: a small obstacle, tagged for scrolling only.
    SmallObstacle,
    /// Draws 81 through 100: a large obstacle, tagged for scrolling only.
    LargeObstacle,
}

/// The kind a draw selects.
pub open spec fn kind_of_draw(draw: int) -> SpawnKind {
    if 0 <= draw <= 70 {
        SpawnKind::Enemy
    } else if 71 <= draw <= 80 {
        SpawnKind::SmallObstacle
    } else {
        SpawnKind::LargeObstacle
    }
}

/// The minimum lateral clearance of a kind, in micro-units: larger
/// actors spawn with wider clearance.
pub open spec fn clearance_of_kind(kind: SpawnKind) -> int {
    match kind {
        SpawnKind::Enemy => ENEMY_X_CLOSE as int,
        SpawnKind::SmallObstacle => SMALL_OBSTACLE_X_CLOSE as int,
        SpawnKind::LargeObstacle => LARGE_OBSTACLE_X_CLOSE as int,
    }
}

/// The color an enemy's pending-gun tag carries.
pub open spec fn enemy_gun_color() -> ColorRgb {
    ColorRgb { r: 0, g: 255, b: 0 }
}

/// Whether a transform sits in the far-field spawn band for the given
/// minimum lateral clearance: lateral offset inside the mirrored band,
/// fixed height, forward coordinate on the far boundary, yaw inside one
/// turn, and the default forward facing.
pub open spec fn in_spawn_band(t: TransformFx, x_close: int) -> bool {
    &&& (x_close <= t.pos.x < SPAWN_X_FAR) || (-SPAWN_X_FAR < t.pos.x <= -x_close)
    &&& t.pos.y == SPAWN_HEIGHT
    &&& t.pos.z == -LANDSCAPE_SIZE_HALF
    &&& 0 <= t.yaw_mr < FULL_TURN_MR
    &&& t.fwd == (Vec3Fx { x: 0, y: 0, z: 1000 })
}

/// Randomize a far-field transform: a lateral offset drawn uniformly
/// from `[x_close, SPAWN_X_FAR)`, mirrored left or right with equal
/// probability, the fixed spawn height, the forward coordinate pinned to
/// the far boundary, and a yaw drawn uniformly from one full turn. The
/// facing starts along the forward axis; the scene collaborator keeps
/// world facings current as actors rotate.
pub fn random_transform(x_close: i64) -> (t: TransformFx)
    requires
        0 < x_close < SPAWN_X_FAR,
    ensures
        in_spawn_band(t, x_close as int),
{
    let lateral = draw_in_range(x_close, SPAWN_X_FAR);
    let flip = draw_in_range(0, 2);
    let x: i64 = if flip == 0 {
        -lateral
    } else {
        lateral
    };
    let yaw = draw_in_range(0, FULL_TURN_MR);
    TransformFx {
        pos: Vec3Fx { x, y: SPAWN_HEIGHT, z: -LANDSCAPE_SIZE_HALF },
        fwd: Vec3Fx { x: 0, y: 0, z: 1000 },
        yaw_mr: yaw,
    }
}

/// One frame of the procedural spawner. The accumulator advances by
/// `dt`; if it does not trigger, the registry is untouched and `None`
/// comes back. On a trigger, one uniform draw from `[0, 100]` picks the
/// kind — 0 through 70 an enemy (scroll-tagged and awaiting guns in the
/// enemy color), 71 through 80 a small obstacle, 81 through 100 a large
/// one (both scroll-tagged only) — and one actor of that kind is created
/// in the far-field band with the kind's clearance; its kind and entity
/// index come back.
pub fn spawn_objects(reg: &mut Registry, timer: &mut Spawner, dt: i64) -> (r: Option<
    (SpawnKind, usize)>)
    requires
        old(reg).wf(),
        old(timer).wf(),
        0 <= dt <= TIME_BOUND,
        i64::MIN + dt <= old(timer).countdown,
        old(reg).slots@.len() < usize::MAX,
    ensures
        final(reg).wf(),
        final(timer).wf(),
        *final(timer) == old(timer).stepped_spec(dt as int),
        r is Some <==> old(timer).triggers_spec(dt as int),
        r is None ==> final(reg).slots@ == old(reg).slots@ && final(reg).labels@ == old(
            reg,
        ).labels@,
        r is Some ==> {
            let pair = r->0;
            let id = pair.1 as int;
            let kind = pair.0;
            &&& id == old(reg).slots@.len()
            &&& final(reg).slots@.len() == old(reg).slots@.len() + 1
            &&& (forall|i: int| 0 <= i < id ==> final(reg).slots@[i] == old(reg).slots@[i])
            &&& final(reg).slots@[id].alive
            &&& final(reg).slots@[id].scroll_tag == Some(MoveWithLandscapeTag)
            &&& final(reg).slots@[id].awaiting_gun == if kind is Enemy {
                Some(AwaitingSpawnGun { color: enemy_gun_color() })
            } else {
                Option::<AwaitingSpawnGun>::None
            }
            &&& final(reg).slots@[id].gun is None
            &&& final(reg).slots@[id].laser is None
            &&& in_spawn_band(final(reg).slots@[id].transform, clearance_of_kind(kind))
        },
{
    let spawned = timer.step(dt);
    if !spawned {
        return None;
    }
    let draw = draw_in_range(0, 101);
    if draw <= 70 {
        let t = random_transform(ENEMY_X_CLOSE);
        let id = reg.spawn_actor(
            t,
            Some(MoveWithLandscapeTag),
            Some(AwaitingSpawnGun { color: ColorRgb { r: 0, g: 255, b: 0 } }),
        );
        Some((SpawnKind::Enemy, id))
    } else if draw <= 80 {
        let t = random_transform(SMALL_OBSTACLE_X_CLOSE);
        let id = reg.spawn_actor(t, Some(MoveWithLandscapeTag), None);
        Some((SpawnKind::SmallObstacle, id))
    } else {
        let t = random_transform(LARGE_OBSTACLE_X_CLOSE);
        let id = reg.spawn_actor(t, Some(MoveWithLandscapeTag), None);
        Some((SpawnKind::LargeObstacle, id))
    }
}

} // verus!
