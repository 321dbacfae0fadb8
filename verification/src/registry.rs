//! The spatial registry: entities are indices into stable slot storage,
//! components are plain fields of a slot, and destruction marks a slot
//! free rather than shifting its neighbours, so indices held across a
//! frame stay valid.
//!
//! Parents always precede their children in the slot order (scenes are
//! built root first), which grounds every descendant traversal.

use vstd::prelude::*;

use crate::timer::RepeatTimer;
use crate::vec3::{TransformFx, Vec3Fx};

verus! {

/// An RGB color payload carried from a pending-gun tag into the guns it
/// arms and the projectiles they tint.
#[derive(Clone, Copy, PartialEq, Eq, Structural, Debug)]
pub struct ColorRgb {
    pub r: u8,
    pub g: u8,
    pub b: u8,
}

/// Marker component: the entity is advanced by the landscape scroll speed
/// and culled once it passes the world boundary.
#[derive(Clone, Copy, PartialEq, Eq, Structural, Debug)]
pub struct MoveWithLandscapeTag;

/// Transient marker: find weapon attachment points among this entity's
/// descendants and arm them with guns of the carried color.
#[derive(Clone, Copy, PartialEq, Eq, Structural, Debug)]
pub struct AwaitingSpawnGun {
    pub color: ColorRgb,
}

/// An armed attachment point: fires along its facing on a repeating,
/// randomly seeded cadence.
#[derive(Clone, Copy, PartialEq, Eq, Structural, Debug)]
pub struct Gun {
    pub color: ColorRgb,
    pub timer: RepeatTimer,
}

/// A projectile in flight, carrying its velocity in milli-units per
/// second.
#[derive(Clone, Copy, PartialEq, Eq, Structural, Debug)]
pub struct Laser {
    pub velocity: Vec3Fx,
}

/// One entity's storage: liveness, its world transform, its place in the
/// ownership tree, and its optional components. The entity's identifying
/// label lives in the registry beside the slots, so a slot itself is
/// plain copyable data.
#[derive(Clone, Copy, PartialEq, Eq, Structural, Debug)]
pub struct Slot {
    pub alive: bool,
    pub transform: TransformFx,
    pub parent: Option<usize>,
    pub scroll_tag: Option<MoveWithLandscapeTag>,
    pub awaiting_gun: Option<AwaitingSpawnGun>,
    pub gun: Option<Gun>,
    pub laser: Option<Laser>,
}

impl Slot {
    /// Whether the slot carries the landscape-scroll marker.
    pub open spec fn scrolls(self) -> bool {
        self.scroll_tag is Some
    }
}

/// The entity/component store all per-frame systems read and mutate.
/// `labels` runs parallel to `slots`: `labels[i]` is entity `i`'s
/// identifying label.
#[derive(Debug)]
pub struct Registry {
    pub slots: Vec<Slot>,
    pub labels: Vec<Vec<u8>>,
}

impl Registry {
    /// Every child's parent precedes it: the ownership relation is a
    /// forest whose roots were created first.
    pub open spec fn wf(self) -> bool {
        &&& self.labels@.len() == self.slots@.len()
        &&& forall|i: int|
            0 <= i < self.slots@.len() && self.slots@[i].parent is Some
                ==> self.slots@[i].parent->0 < i
    }

    /// An empty registry.
    pub fn new() -> (r: Registry)
        ensures
            r.wf(),
            r.slots@.len() == 0,
    {
        Registry { slots: Vec::new(), labels: Vec::new() }
    }

    /// How many slots exist, live or freed.
    pub fn len(&self) -> (r: usize)
        ensures
            r == self.slots@.len(),
    {
        self.slots.len()
    }

    /// Create a root actor with the given transform and tag set; returns
    /// its index. Existing entities are untouched.
    pub fn spawn_actor(
        &mut self,
        transform: TransformFx,
        scroll_tag: Option<MoveWithLandscapeTag>,
        awaiting_gun: Option<AwaitingSpawnGun>,
    ) -> (id: usize)
        requires
            old(self).wf(),
            old(self).slots@.len() < usize::MAX,
        ensures
            final(self).wf(),
            id == old(self).slots@.len(),
            final(self).slots@.len() == old(self).slots@.len() + 1,
            forall|i: int| 0 <= i < old(self).slots@.len() ==> final(self).slots@[i] == old(self).slots@[i],
            final(self).slots@[id as int].alive,
            final(self).slots@[id as int].transform == transform,
            final(self).slots@[id as int].parent is None,
            final(self).slots@[id as int].scroll_tag == scroll_tag,
            final(self).slots@[id as int].awaiting_gun == awaiting_gun,
            final(self).slots@[id as int].gun is None,
            final(self).slots@[id as int].laser is None,
            final(self).labels@.len() == old(self).labels@.len() + 1,
            forall|i: int| 0 <= i < old(self).labels@.len() ==> final(self).labels@[i] == old(self).labels@[i],
            final(self).labels@[id as int]@ == Seq::<u8>::empty(),
    {
        let id = self.slots.len();
        self.slots.push(
            Slot {
                alive: true,
                transform,
                parent: None,
                scroll_tag,
                awaiting_gun,
                gun: None,
                laser: None,
            },
        );
        self.labels.push(Vec::new());
        id
    }

    /// Create a labelled child of an existing entity, as scene
    /// instantiation does when it unfolds a visual actor's hierarchy;
    /// returns the child's index.
    pub fn attach_child(&mut self, parent: usize, label: Vec<u8>, transform: TransformFx) -> (id:
        usize)
        requires
            old(self).wf(),
            parent < old(self).slots@.len(),
            old(self).slots@.len() < usize::MAX,
        ensures
            final(self).wf(),
            id == old(self).slots@.len(),
            final(self).slots@.len() == old(self).slots@.len() + 1,
            forall|i: int| 0 <= i < old(self).slots@.len() ==> final(self).slots@[i] == old(self).slots@[i],
            final(self).slots@[id as int].alive,
            final(self).slots@[id as int].transform == transform,
            final(self).slots@[id as int].parent == Some(parent),
            final(self).labels@.len() == old(self).labels@.len() + 1,
            forall|i: int| 0 <= i < old(self).labels@.len() ==> final(self).labels@[i] == old(self).labels@[i],
            final(self).labels@[id as int] == label,
            final(self).slots@[id as int].scroll_tag is None,
            final(self).slots@[id as int].awaiting_gun is None,
            final(self).slots@[id as int].gun is None,
            final(self).slots@[id as int].laser is None,
    {
        let id = self.slots.len();
        self.slots.push(
            Slot {
                alive: true,
                transform,
                parent: Some(parent),
                scroll_tag: None,
                awaiting_gun: None,
                gun: None,
                laser: None,
            },
        );
        self.labels.push(label);
        id
    }

    /// Create a projectile entity with the given transform and velocity;
    /// returns its index.
    pub fn spawn_laser(&mut self, transform: TransformFx, velocity: Vec3Fx) -> (id: usize)
        requires
            old(self).wf(),
            old(self).slots@.len() < usize::MAX,
        ensures
            final(self).wf(),
            id == old(self).slots@.len(),
            final(self).slots@.len() == old(self).slots@.len() + 1,
            forall|i: int| 0 <= i < old(self).slots@.len() ==> final(self).slots@[i] == old(self).slots@[i],
            final(self).slots@[id as int].alive,
            final(self).slots@[id as int].transform == transform,
            final(self).slots@[id as int].parent is None,
            final(self).slots@[id as int].scroll_tag is None,
            final(self).slots@[id as int].awaiting_gun is None,
            final(self).slots@[id as int].gun is None,
            final(self).slots@[id as int].laser == Some(Laser { velocity }),
            final(self).labels@.len() == old(self).labels@.len() + 1,
            forall|i: int| 0 <= i < old(self).labels@.len() ==> final(self).labels@[i] == old(self).labels@[i],
            final(self).labels@[id as int]@ == Seq::<u8>::empty(),
    {
        let id = self.slots.len();
        self.slots.push(
            Slot {
                alive: true,
                transform,
                parent: None,
                scroll_tag: None,
                awaiting_gun: None,
                gun: None,
                laser: Some(Laser { velocity }),
            },
        );
        self.labels.push(Vec::new());
        id
    }
}

/// Whether `anc` is a strict ancestor of `i` along the parent chain.
pub open spec fn is_ancestor(slots: Seq<Slot>, anc: int, i: int) -> bool
    decreases i,
{
    if 0 <= i < slots.len() && slots[i].parent is Some {
        let p = slots[i].parent->0 as int;
        if 0 <= p < i {
            p == anc || is_ancestor(slots, anc, p)
        } else {
            false
        }
    } else {
        false
    }
}

} // verus!
