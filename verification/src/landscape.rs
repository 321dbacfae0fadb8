//! The landscape scroller: every tagged entity's forward-axis coordinate
//! is advanced by the shared scroll speed, and entities that have passed
//! the near boundary are destroyed, together with everything they own.
//! Destruction is deferred: the scroll pass only reads, and the removals
//! collected are applied after it.

use vstd::prelude::*;

use crate::registry::{Registry, Slot};
use crate::LANDSCAPE_SIZE_HALF;

verus! {

/// Magnitude bound on the scroll speed, in milli-units per second
/// (machine limit: keeps `speed * dt` inside `i64`).
pub const SCROLL_SPEED_BOUND: i64 = 2_000_000_000;

/// Magnitude bound on a frame delta accepted here, in milliseconds.
pub const SCROLL_DT_BOUND: i64 = 1_000_000_000;

/// Position-coordinate bound under which one scroll step cannot overflow.
pub const SCROLL_POS_SAFE: i64 = 6_000_000_000_000_000_000;

/// The shared scroll configuration: there is exactly one active scroll
/// speed, established at startup, in milli-units per second. Negative
/// means the landscape flows toward the viewer, so tagged actors drift
/// toward the positive boundary.
#[derive(Clone, Copy, PartialEq, Eq, Structural, Debug)]
pub struct CurrentLandscapeMaterial {
    pub speed: i64,
}

/// A slot after the scroll pass: a live tagged entity's forward-axis
/// coordinate drops by exactly `delta`; everything else is untouched.
pub open spec fn scrolled_slot(s: Slot, delta: int) -> Slot {
    if s.alive && s.scrolls() {
        Slot {
            transform: crate::vec3::TransformFx {
                pos: crate::vec3::Vec3Fx { z: (s.transform.pos.z - delta) as i64, ..s.transform.pos },
                ..s.transform
            },
            ..s
        }
    } else {
        s
    }
}

/// Whether entity `i` is destroyed this frame: it is live and either its
/// own updated forward-axis coordinate has reached the boundary (and it
/// carries the scroll tag), or the entity that owns it is destroyed —
/// ownership teardown is recursive.
pub open spec fn scroll_culled(mid: Seq<Slot>, i: int) -> bool
    decreases i,
{
    if 0 <= i < mid.len() {
        mid[i].alive && ((mid[i].scrolls() && mid[i].transform.pos.z >= LANDSCAPE_SIZE_HALF) || (
        mid[i].parent is Some && 0 <= mid[i].parent->0 < i && scroll_culled(
            mid,
            mid[i].parent->0 as int,
        )))
    } else {
        false
    }
}

/// The whole slot sequence after the scroll pass.
pub open spec fn scrolled_all(slots: Seq<Slot>, delta: int) -> Seq<Slot> {
    slots.map_values(|s: Slot| scrolled_slot(s, delta))
}

/// One slot's final state for the frame: scrolled, then freed if culled.
pub open spec fn scroll_frame_slot(mid: Seq<Slot>, i: int) -> Slot {
    Slot { alive: mid[i].alive && !scroll_culled(mid, i), ..mid[i] }
}

/// One frame of the landscape scroller. Every live entity carrying the
/// scroll tag has its forward-axis coordinate decremented by exactly
/// `speed * dt` (speed in milli-units per second, `dt` in milliseconds,
/// so the decrement is exact in micro-units). Afterwards, every live
/// tagged entity at or past `+LANDSCAPE_SIZE_HALF` is destroyed, along
/// with all entities it transitively owns; no other entity is created,
/// destroyed, or otherwise changed.
pub fn move_with_landscape(reg: &mut Registry, config: &CurrentLandscapeMaterial, dt: i64)
    requires
        old(reg).wf(),
        -SCROLL_SPEED_BOUND <= config.speed <= SCROLL_SPEED_BOUND,
        0 <= dt <= SCROLL_DT_BOUND,
        forall|i: int|
            0 <= i < old(reg).slots@.len() ==> -SCROLL_POS_SAFE <= #[trigger] old(
                reg,
            ).slots@[i].transform.pos.z <= SCROLL_POS_SAFE,
    ensures
        final(reg).wf(),
        final(reg).slots@.len() == old(reg).slots@.len(),
        final(reg).labels@ == old(reg).labels@,
        forall|i: int|
            0 <= i < old(reg).slots@.len() ==> final(reg).slots@[i] == #[trigger] scroll_frame_slot(
                scrolled_all(old(reg).slots@, config.speed * dt),
                i,
            ),
    {
    proof {
        assert(-SCROLL_SPEED_BOUND * SCROLL_DT_BOUND <= config.speed * dt <= SCROLL_SPEED_BOUND
            * SCROLL_DT_BOUND) by (nonlinear_arith)
            requires
                -SCROLL_SPEED_BOUND <= config.speed <= SCROLL_SPEED_BOUND,
                0 <= dt <= SCROLL_DT_BOUND,
        ;
    }
    let ghost delta: int = config.speed * dt;
    let d: i64 = config.speed * dt;
    let n = reg.slots.len();
    let ghost orig = reg.slots@;
    let ghost mid = scrolled_all(orig, delta);

    // Scroll pass: advance every live tagged entity.
    let mut i: usize = 0;
    while i < n
        invariant
            reg.wf(),
            reg.labels@ == old(reg).labels@,
            n == reg.slots@.len(),
            orig.len() == n,
            mid == scrolled_all(orig, delta),
            d == delta,
            -SCROLL_SPEED_BOUND * SCROLL_DT_BOUND <= delta <= SCROLL_SPEED_BOUND * SCROLL_DT_BOUND,
            forall|j: int| 0 <= j < i ==> reg.slots@[j] == mid[j],
            forall|j: int| i <= j < n ==> reg.slots@[j] == orig[j],
            forall|j: int|
                0 <= j < n ==> -SCROLL_POS_SAFE <= #[trigger] orig[j].transform.pos.z
                    <= SCROLL_POS_SAFE,
        decreases n - i,
    {
        let s = reg.slots[i];
        if s.alive && s.scroll_tag.is_some() {
            let mut slot = s;
            slot.transform.pos.z = slot.transform.pos.z - d;
            reg.slots.set(i, slot);
            assert(reg.slots@[i as int] == scrolled_slot(orig[i as int], delta));
        } else {
            assert(reg.slots@[i as int] == scrolled_slot(orig[i as int], delta));
        }
        i = i + 1;
    }

    // Collect removals: an entity goes when its own coordinate has passed
    // the boundary, or when its owner goes.
    let mut cull: Vec<bool> = Vec::new();
    let mut i: usize = 0;
    while i < n
        invariant
            reg.wf(),
            reg.labels@ == old(reg).labels@,
            n == reg.slots@.len(),
            mid.len() == n,
            cull@.len() == i,
            i <= n,
            forall|j: int| 0 <= j < n ==> reg.slots@[j] == mid[j],
            forall|j: int| 0 <= j < i ==> cull@[j] == scroll_culled(mid, j),
        decreases n - i,
    {
        let s = reg.slots[i];
        let own: bool = s.alive && s.scroll_tag.is_some() && s.transform.pos.z
            >= LANDSCAPE_SIZE_HALF;
        let inherited: bool = match s.parent {
            Some(p) => s.alive && p < i && cull[p],
            None => false,
        };
        cull.push(own || inherited);
        proof {
            reveal_with_fuel(scroll_culled, 2);
            let ii = i as int;
            let ms = mid[ii];
            assert(scroll_culled(mid, ii) == (ms.alive && ((ms.scrolls() && ms.transform.pos.z
                >= LANDSCAPE_SIZE_HALF) || (ms.parent is Some && 0 <= ms.parent->0 < ii
                && scroll_culled(mid, ms.parent->0 as int)))));
        }
        assert(cull@[i as int] == scroll_culled(mid, i as int));
        i = i + 1;
    }

    // Apply the deferred removals.
    let mut i: usize = 0;
    while i < n
        invariant
            reg.wf(),
            reg.labels@ == old(reg).labels@,
            n == reg.slots@.len(),
            mid.len() == n,
            cull@.len() == n,
            i <= n,
            forall|j: int| 0 <= j < n ==> cull@[j] == scroll_culled(mid, j),
            forall|j: int| 0 <= j < i ==> reg.slots@[j] == scroll_frame_slot(mid, j),
            forall|j: int| i <= j < n ==> reg.slots@[j] == mid[j],
        decreases n - i,
    {
        if cull[i] {
            let mut slot = reg.slots[i];
            slot.alive = false;
            reg.slots.set(i, slot);
        }
        assert(reg.slots@[i as int] == scroll_frame_slot(mid, i as int));
        i = i + 1;
    }
}

/// Boundary culling is complete: after a scroll frame, no live entity
/// carrying the scroll tag sits at or past the positive boundary. (The
/// negative side is deliberately open: culling happens only behind the
/// viewer.)
pub proof fn lemma_no_tagged_entity_past_boundary(mid: Seq<Slot>, i: int)
    requires
        0 <= i < mid.len(),
    ensures
        scroll_frame_slot(mid, i).alive && scroll_frame_slot(mid, i).scrolls()
            ==> scroll_frame_slot(mid, i).transform.pos.z < LANDSCAPE_SIZE_HALF,
{
}

} // verus!
