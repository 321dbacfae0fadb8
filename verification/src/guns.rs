//! The weapon system's arming half. Entities carrying a pending-gun tag
//! have their descendant hierarchy searched for attachment points —
//! descendants whose identifying label contains the reserved marker —
//! and every match is armed with a gun in the pending color and a fresh
//! randomly seeded repeating timer. The tag is removed only when at
//! least one match was armed; otherwise it stays and is retried on later
//! frames.

use vstd::prelude::*;

use crate::registry::{is_ancestor, Gun, Registry, Slot};
use crate::rng::draw_in_range;
use crate::timer::RepeatTimer;

verus! {

/// Inclusive lower bound of a fresh gun period, in milliseconds.
pub const GUN_PERIOD_MIN: i64 = 600;

/// Exclusive upper bound of a fresh gun period, in milliseconds.
pub const GUN_PERIOD_MAX: i64 = 1_300;

/// The reserved marker, byte by byte: the letters of "laser".
pub open spec fn marker_seq() -> Seq<u8> {
    seq![108u8, 97u8, 115u8, 101u8, 114u8]
}

/// Whether a label contains the reserved marker as a contiguous
/// substring.
pub open spec fn label_matches(l: Seq<u8>) -> bool {
    exists|k: int| 0 <= k && k + 5 <= l.len() && #[trigger] l.subrange(k, k + 5) == marker_seq()
}

/// Substring search for the reserved marker.
pub fn contains_marker(label: &Vec<u8>) -> (r: bool)
    ensures
        r == label_matches(label@),
{
    let n = label.len();
    if n < 5 {
        return false;
    }
    let mut k: usize = 0;
    while k <= n - 5
        invariant
            n == label@.len(),
            n >= 5,
            k <= n - 4,
            forall|k2: int| 0 <= k2 < k ==> #[trigger] label@.subrange(k2, k2 + 5) != marker_seq(),
        decreases n - k,
    {
        if label[k] == 108 && label[k + 1] == 97 && label[k + 2] == 115 && label[k + 3] == 101
            && label[k + 4] == 114 {
            proof {
                assert(label@.subrange(k as int, k as int + 5) =~= marker_seq());
            }
            return true;
        }
        proof {
            let ki = k as int;
            assert(label@.subrange(ki, ki + 5) != marker_seq()) by {
                if label@.subrange(ki, ki + 5) == marker_seq() {
                    assert(label@.subrange(ki, ki + 5)[0] == label@[ki]);
                    assert(label@.subrange(ki, ki + 5)[1] == label@[ki + 1]);
                    assert(label@.subrange(ki, ki + 5)[2] == label@[ki + 2]);
                    assert(label@.subrange(ki, ki + 5)[3] == label@[ki + 3]);
                    assert(label@.subrange(ki, ki + 5)[4] == label@[ki + 4]);
                }
            };
        }
        k = k + 1;
    }
    proof {
        assert(!label_matches(label@)) by {
            if label_matches(label@) {
                let w = choose|w: int|
                    0 <= w && w + 5 <= label@.len() && #[trigger] label@.subrange(w, w + 5)
                        == marker_seq();
                assert(w < k);
            }
        };
    }
    false
}

/// Ancestry depends on the parent links alone: two slot sequences with
/// the same parents agree on every ancestor relation.
pub proof fn lemma_ancestor_parents_only(s1: Seq<Slot>, s2: Seq<Slot>, a: int, i: int)
    requires
        s1.len() == s2.len(),
        forall|k: int| 0 <= k < s1.len() ==> #[trigger] s1[k].parent == s2[k].parent,
    ensures
        is_ancestor(s1, a, i) == is_ancestor(s2, a, i),
    decreases (if i < 0 { 0int } else { i }),
{
    if 0 <= i < s1.len() && s1[i].parent is Some {
        let p = s1[i].parent->0 as int;
        if 0 <= p < i {
            lemma_ancestor_parents_only(s1, s2, a, p);
        }
    }
}

/// Whether entity `e` is a strict ancestor of entity `j`, by walking the
/// parent chain upward.
pub fn has_ancestor(reg: &Registry, j: usize, e: usize) -> (r: bool)
    requires
        reg.wf(),
        j < reg.slots@.len(),
    ensures
        r == is_ancestor(reg.slots@, e as int, j as int),
{
    let mut cur = j;
    loop
        invariant
            reg.wf(),
            cur < reg.slots@.len(),
            is_ancestor(reg.slots@, e as int, j as int) == is_ancestor(
                reg.slots@,
                e as int,
                cur as int,
            ),
        decreases cur,
    {
        match reg.slots[cur].parent {
            None => {
                return false;
            },
            Some(p) => {
                if p == e {
                    return true;
                }
                cur = p;
            },
        }
    }
}

/// Whether arming `e`'s hierarchy reaches entity `j`: `j` is live, a
/// strict descendant of `e`, and its label carries the marker.
pub open spec fn gun_target_of(slots: Seq<Slot>, labels: Seq<Vec<u8>>, e: int, j: int) -> bool {
    &&& 0 <= j < slots.len()
    &&& slots[j].alive
    &&& is_ancestor(slots, e, j)
    &&& label_matches(labels[j]@)
}

/// Whether `e` is a live pending-gun carrier whose resolution would arm
/// `j` this frame.
pub open spec fn pending_target(slots: Seq<Slot>, labels: Seq<Vec<u8>>, e: int, j: int) -> bool {
    &&& 0 <= e < slots.len()
    &&& slots[e].alive
    &&& slots[e].awaiting_gun is Some
    &&& gun_target_of(slots, labels, e, j)
}

/// A freshly armed gun: the pending color, a period drawn from the fixed
/// range, nothing accumulated yet.
pub open spec fn armed_gun(g: Gun, color: crate::registry::ColorRgb) -> bool {
    &&& g.color == color
    &&& GUN_PERIOD_MIN <= g.timer.period < GUN_PERIOD_MAX
    &&& g.timer.elapsed == 0
    &&& g.timer.wf()
}

/// Resolve one pending-gun carrier: arm every matching descendant with a
/// gun in the pending color and a fresh random period, and report
/// whether at least one was armed. Nothing but the targets' gun
/// components changes.
fn resolve_pending(reg: &mut Registry, e: usize) -> (armed: bool)
    requires
        old(reg).wf(),
        e < old(reg).slots@.len(),
        old(reg).slots@[e as int].alive,
        old(reg).slots@[e as int].awaiting_gun is Some,
    ensures
        final(reg).wf(),
        final(reg).slots@.len() == old(reg).slots@.len(),
        final(reg).labels@ == old(reg).labels@,
        armed == exists|j: int| gun_target_of(old(reg).slots@, old(reg).labels@, e as int, j),
        forall|j: int|
            0 <= j < old(reg).slots@.len() && gun_target_of(
                old(reg).slots@,
                old(reg).labels@,
                e as int,
                j,
            ) ==> #[trigger] final(reg).slots@[j].gun is Some && armed_gun(
                final(reg).slots@[j].gun->0,
                old(reg).slots@[e as int].awaiting_gun->0.color,
            ),
        forall|j: int|
            0 <= j < old(reg).slots@.len() && !gun_target_of(
                old(reg).slots@,
                old(reg).labels@,
                e as int,
                j,
            ) ==> #[trigger] final(reg).slots@[j].gun == old(reg).slots@[j].gun,
        forall|j: int|
            0 <= j < old(reg).slots@.len() ==> #[trigger] final(reg).slots@[j] == (Slot {
                gun: final(reg).slots@[j].gun,
                ..old(reg).slots@[j]
            }),
{
    let ghost orig = reg.slots@;
    let ghost labs = reg.labels@;
    let n = reg.slots.len();
    let mut armed = false;
    let mut j: usize = 0;
    while j < n
        invariant
            reg.wf(),
            n == reg.slots@.len(),
            orig.len() == n,
            labs == reg.labels@,
            e < n,
            armed == exists|j2: int| j2 < j && gun_target_of(orig, labs, e as int, j2),
            forall|j2: int|
                0 <= j2 < n ==> #[trigger] reg.slots@[j2] == (Slot {
                    gun: reg.slots@[j2].gun,
                    ..orig[j2]
                }),
            forall|j2: int|
                0 <= j2 < j && gun_target_of(orig, labs, e as int, j2)
                    ==> #[trigger] reg.slots@[j2].gun is Some && armed_gun(
                    reg.slots@[j2].gun->0,
                    orig[e as int].awaiting_gun->0.color,
                ),
            forall|j2: int|
                0 <= j2 < n && !(j2 < j && gun_target_of(orig, labs, e as int, j2))
                    ==> #[trigger] reg.slots@[j2].gun == orig[j2].gun,
            orig[e as int].awaiting_gun is Some,
        decreases n - j,
    {
        proof {
            assert(forall|k: int| 0 <= k < n ==> #[trigger] reg.slots@[k].parent == orig[k].parent);
            lemma_ancestor_parents_only(reg.slots@, orig, e as int, j as int);
        }
        let s = reg.slots[j];
        if s.alive && has_ancestor(reg, j, e) && contains_marker(&reg.labels[j]) {
            let color = match reg.slots[e].awaiting_gun {
                Some(a) => a.color,
                None => crate::registry::ColorRgb { r: 0, g: 0, b: 0 },
            };
            let period = draw_in_range(GUN_PERIOD_MIN, GUN_PERIOD_MAX);
            let mut slot = reg.slots[j];
            slot.gun = Some(Gun { color, timer: RepeatTimer { period, elapsed: 0 } });
            reg.slots.set(j, slot);
            armed = true;
            assert(gun_target_of(orig, labs, e as int, j as int));
        } else {
            assert(!gun_target_of(orig, labs, e as int, j as int));
        }
        j = j + 1;
    }
    armed
}

/// One frame of gun-attachment resolution. For every live entity
/// carrying a pending-gun tag, every live strict descendant whose label
/// contains the reserved marker is armed with a gun in the pending color
/// and a fresh random period. A carrier's tag is removed exactly when at
/// least one of its descendants was armed; a carrier with no matching
/// descendant keeps its tag — and no gun anywhere changes on its account
/// — so resolution retries idempotently on later frames. Nothing else
/// changes.
pub fn spawn_guns(reg: &mut Registry)
    requires
        old(reg).wf(),
    ensures
        final(reg).wf(),
        final(reg).slots@.len() == old(reg).slots@.len(),
        final(reg).labels@ == old(reg).labels@,
        forall|j: int|
            0 <= j < old(reg).slots@.len() && (exists|e: int|
                pending_target(old(reg).slots@, old(reg).labels@, e, j)) ==> #[trigger] final(reg).slots@[j].gun is Some && (exists|e: int|
                pending_target(old(reg).slots@, old(reg).labels@, e, j) && armed_gun(
                    final(reg).slots@[j].gun->0,
                    old(reg).slots@[e].awaiting_gun->0.color,
                )),
        forall|j: int|
            0 <= j < old(reg).slots@.len() && !(exists|e: int|
                pending_target(old(reg).slots@, old(reg).labels@, e, j)) ==> #[trigger] final(reg).slots@[j].gun == old(reg).slots@[j].gun,
        forall|e: int|
            0 <= e < old(reg).slots@.len() ==> #[trigger] final(reg).slots@[e].awaiting_gun == (
            if old(reg).slots@[e].alive && old(reg).slots@[e].awaiting_gun is Some && (exists|
                j: int,
            |
                gun_target_of(old(reg).slots@, old(reg).labels@, e, j)) {
                Option::<crate::registry::AwaitingSpawnGun>::None
            } else {
                old(reg).slots@[e].awaiting_gun
            }),
        forall|j: int|
            0 <= j < old(reg).slots@.len() ==> #[trigger] final(reg).slots@[j] == (Slot {
                gun: final(reg).slots@[j].gun,
                awaiting_gun: final(reg).slots@[j].awaiting_gun,
                ..old(reg).slots@[j]
            }),
{
    let ghost orig = reg.slots@;
    let ghost labs = reg.labels@;
    let n = reg.slots.len();
    let mut e: usize = 0;
    while e < n
        invariant
            reg.wf(),
            n == reg.slots@.len(),
            orig.len() == n,
            labs == reg.labels@,
            forall|j: int|
                0 <= j < n ==> #[trigger] reg.slots@[j] == (Slot {
                    gun: reg.slots@[j].gun,
                    awaiting_gun: reg.slots@[j].awaiting_gun,
                    ..orig[j]
                }),
            forall|e2: int| e <= e2 < n ==> #[trigger] reg.slots@[e2].awaiting_gun == orig[e2].awaiting_gun,
            forall|e2: int|
                0 <= e2 < e ==> #[trigger] reg.slots@[e2].awaiting_gun == (if orig[e2].alive
                    && orig[e2].awaiting_gun is Some && (exists|j: int|
                    gun_target_of(orig, labs, e2, j)) {
                    Option::<crate::registry::AwaitingSpawnGun>::None
                } else {
                    orig[e2].awaiting_gun
                }),
            forall|j: int|
                0 <= j < n && (exists|e2: int| e2 < e && pending_target(orig, labs, e2, j))
                    ==> #[trigger] reg.slots@[j].gun is Some && (exists|e2: int|
                    e2 < e && pending_target(orig, labs, e2, j) && armed_gun(
                        reg.slots@[j].gun->0,
                        orig[e2].awaiting_gun->0.color,
                    )),
            forall|j: int|
                0 <= j < n && !(exists|e2: int| e2 < e && pending_target(orig, labs, e2, j))
                    ==> #[trigger] reg.slots@[j].gun == orig[j].gun,
        decreases n - e,
    {
        let s = reg.slots[e];
        if s.alive && s.awaiting_gun.is_some() {
            let ghost pre = reg.slots@;
            proof {
                assert(forall|k: int|
                    0 <= k < n ==> #[trigger] pre[k].parent == orig[k].parent && pre[k].alive
                        == orig[k].alive);
                assert forall|j2: int| 0 <= j2 < n implies #[trigger] gun_target_of(
                    pre,
                    labs,
                    e as int,
                    j2,
                ) == gun_target_of(orig, labs, e as int, j2) by {
                    lemma_ancestor_parents_only(pre, orig, e as int, j2);
                };
                assert(pre[e as int].awaiting_gun == orig[e as int].awaiting_gun);
                assert(orig[e as int].alive && orig[e as int].awaiting_gun is Some);
            }
            let armed = resolve_pending(reg, e);
            let ghost post = reg.slots@;
            if armed {
                let mut slot = reg.slots[e];
                slot.awaiting_gun = None;
                reg.slots.set(e, slot);
            }
            proof {
                let ei = e as int;
                // Shape: only gun and awaiting fields differ from orig.
                assert forall|j: int| 0 <= j < n implies #[trigger] reg.slots@[j] == (Slot {
                    gun: reg.slots@[j].gun,
                    awaiting_gun: reg.slots@[j].awaiting_gun,
                    ..orig[j]
                }) by {
                    assert(post[j] == (Slot { gun: post[j].gun, ..pre[j] }));
                    assert(pre[j] == (Slot {
                        gun: pre[j].gun,
                        awaiting_gun: pre[j].awaiting_gun,
                        ..orig[j]
                    }));
                };
                // Pending tags: entities after e untouched; processed ones
                // keep their settled value; e itself settles now.
                assert(armed == (exists|j: int| gun_target_of(orig, labs, ei, j))) by {
                    if armed {
                        let w = choose|w: int| gun_target_of(pre, labs, ei, w);
                        assert(0 <= w < n);
                        assert(gun_target_of(orig, labs, ei, w));
                    }
                    if exists|j: int| gun_target_of(orig, labs, ei, j) {
                        let w = choose|w: int| gun_target_of(orig, labs, ei, w);
                        assert(0 <= w < n);
                        assert(gun_target_of(pre, labs, ei, w));
                        assert(exists|j: int| gun_target_of(pre, labs, ei, j));
                    }
                };
                assert forall|e2: int| 0 <= e2 < e + 1 implies #[trigger] reg.slots@[e2].awaiting_gun
                    == (if orig[e2].alive && orig[e2].awaiting_gun is Some && (exists|j: int|
                    gun_target_of(orig, labs, e2, j)) {
                    Option::<crate::registry::AwaitingSpawnGun>::None
                } else {
                    orig[e2].awaiting_gun
                }) by {
                    if e2 < ei {
                        assert(post[e2].awaiting_gun == pre[e2].awaiting_gun);
                        assert(reg.slots@[e2].awaiting_gun == post[e2].awaiting_gun);
                    } else {
                        assert(e2 == ei);
                        if armed {
                            assert(reg.slots@[e2].awaiting_gun is None);
                        } else {
                            assert(reg.slots@[e2].awaiting_gun == post[e2].awaiting_gun);
                            assert(post[e2].awaiting_gun == pre[e2].awaiting_gun);
                        }
                    }
                };
                // Guns: targets of processed pendings are armed, others kept.
                assert forall|j: int|
                    0 <= j < n && (exists|e2: int|
                        e2 < e + 1 && pending_target(orig, labs, e2, j)) implies #[trigger] reg.slots@[j].gun
                    is Some && (exists|e2: int|
                    e2 < e + 1 && pending_target(orig, labs, e2, j) && armed_gun(
                        reg.slots@[j].gun->0,
                        orig[e2].awaiting_gun->0.color,
                    )) by {
                    assert(reg.slots@[j].gun == post[j].gun);
                    if gun_target_of(orig, labs, ei, j) {
                        assert(gun_target_of(pre, labs, ei, j));
                        assert(post[j].gun is Some && armed_gun(
                            post[j].gun->0,
                            pre[ei].awaiting_gun->0.color,
                        ));
                        assert(pending_target(orig, labs, ei, j));
                    } else {
                        assert(!gun_target_of(pre, labs, ei, j));
                        assert(post[j].gun == pre[j].gun);
                        let e3 = choose|e3: int| e3 < e + 1 && pending_target(orig, labs, e3, j);
                        assert(e3 != ei);
                        assert(e3 < ei);
                        assert(exists|e2: int| e2 < ei && pending_target(orig, labs, e2, j));
                    }
                };
                assert forall|j: int|
                    0 <= j < n && !(exists|e2: int|
                        e2 < e + 1 && pending_target(orig, labs, e2, j)) implies #[trigger] reg.slots@[j].gun
                    == orig[j].gun by {
                    assert(!(exists|e2: int| e2 < ei && pending_target(orig, labs, e2, j)));
                    assert(!pending_target(orig, labs, ei, j));
                    assert(!gun_target_of(orig, labs, ei, j));
                    assert(!gun_target_of(pre, labs, ei, j));
                    assert(reg.slots@[j].gun == post[j].gun);
                    assert(post[j].gun == pre[j].gun);
                };
            }
        } else {
            proof {
                let ei = e as int;
                assert(reg.slots@[ei].alive == orig[ei].alive && reg.slots@[ei].awaiting_gun
                    == orig[ei].awaiting_gun);
                assert(forall|j: int| !pending_target(orig, labs, ei, j));
            }
        }
        e = e + 1;
    }
}

} // verus!
