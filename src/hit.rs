//! Nearest-hit resolution over a scene's shapes, and the shadow decision.
//!
//! A shape is named by its index in the scene. What a ray does to shape `k` is
//! given as `hits[k]`: `None` when the ray misses it, `Some(d)` when it meets it
//! at the distance whose bits are `d` (see `distance`).
use vstd::prelude::*;

use crate::distance::{float_le, is_nan, key_of, lemma_key_order, order_key};

verus! {

/// Shape `l` is hit, at a distance that is no NaN.
pub open spec fn is_hit(hits: Seq<Option<u64>>, l: int) -> bool {
    hits[l] is Some && !is_nan(hits[l]->0)
}

/// `k` is the shape that the nearest-hit scan settles on: it is hit; each
/// shape before it is hit no nearer (its distance is at least `k`'s), and
/// each shape after it farther, so that of shapes hit at equal distances the
/// last one wins.
pub open spec fn is_nearest(hits: Seq<Option<u64>>, k: int) -> bool {
    &&& 0 <= k < hits.len()
    &&& is_hit(hits, k)
    &&& forall|l: int|
        0 <= l < k && #[trigger] is_hit(hits, l) ==> float_le(hits[k]->0, hits[l]->0)
    &&& forall|l: int|
        k < l < hits.len() && #[trigger] is_hit(hits, l) ==> !float_le(hits[l]->0, hits[k]->0)
}

/// No shape is hit at all.
pub open spec fn no_hit(hits: Seq<Option<u64>>) -> bool {
    forall|l: int| 0 <= l < hits.len() ==> !#[trigger] is_hit(hits, l)
}

/// At most one index is the nearest hit.
pub proof fn lemma_nearest_unique(hits: Seq<Option<u64>>, k: int, m: int)
    requires
        is_nearest(hits, k),
        is_nearest(hits, m),
    ensures
        k == m,
{
    if k < m {
        assert(is_hit(hits, k));
    } else if m < k {
        assert(is_hit(hits, m));
    }
}

/// Scans the shapes in order and returns the index of the nearest one hit,
/// comparing distances with `<=` as doubles: a NaN distance counts as a miss,
/// and on equal distances the later shape wins. `None` when nothing is hit.
/// `hits[k]` holds the bits of the distance at which the ray meets shape `k`.
pub fn nearest(hits: &Vec<Option<u64>>) -> (r: Option<usize>)
    ensures
        r is None <==> no_hit(hits@),
        r matches Some(k) ==> is_nearest(hits@, k as int),
{
    let mut best: Option<usize> = None;
    let mut best_key: u64 = 0;
    let mut i: usize = 0;
    while i < hits.len()
        invariant
            i <= hits.len(),
            best is None <==> no_hit(hits@.take(i as int)),
            best matches Some(k) ==> {
                &&& is_nearest(hits@.take(i as int), k as int)
                &&& key_of(hits@[k as int]->0) == Some(best_key)
            },
        decreases hits.len() - i,
    {
        let ghost before = hits@.take(i as int);
        let ghost now = hits@.take(i + 1);
        assert(now =~= before.push(hits@[i as int]));
        assert(forall|l: int| 0 <= l < i ==> #[trigger] is_hit(now, l) == is_hit(before, l));
        if let Some(d) = hits[i] {
            if let Some(key) = order_key(d) {
                match best {
                    None => {
                        best = Some(i);
                        best_key = key;
                    },
                    Some(k) => {
                        let ghost e = hits@[k as int]->0;
                        proof {
                            lemma_key_order(d, e);
                        }
                        if key <= best_key {
                            proof {
                                assert forall|l: int|
                                    0 <= l < i && #[trigger] is_hit(now, l) implies float_le(
                                    d,
                                    now[l]->0,
                                ) by {
                                    lemma_key_order(d, now[l]->0);
                                    lemma_key_order(e, now[l]->0);
                                    lemma_key_order(now[l]->0, e);
                                }
                            }
                            best = Some(i);
                            best_key = key;
                        }
                    },
                }
            }
        }
        proof {
            if let Some(k) = best {
                assert(is_nearest(now, k as int));
                assert(is_hit(now, k as int));
            }
            if best is None {
                assert forall|l: int| 0 <= l < now.len() implies !#[trigger] is_hit(now, l) by {
                    if l < i {
                        assert(!is_hit(before, l));
                    }
                }
            }
        }
        i = i + 1;
    }
    assert(hits@.take(hits.len() as int) =~= hits@);
    best
}

/// The light reaches the point where shape `hit` was met: the shadow ray
/// toward the light is blocked by no other shape. The shape hit itself is left
/// out by its index, whatever its shadow ray does to it.
pub open spec fn light_reaches(blocked: Seq<bool>, hit: int) -> bool {
    forall|l: int| 0 <= l < blocked.len() && l != hit ==> !#[trigger] blocked[l]
}

/// The shadow test: `blocked[k]` tells whether the shadow ray meets shape `k`.
/// Returns whether no shape but `hit` blocks it.
pub fn unobstructed(blocked: &Vec<bool>, hit: usize) -> (r: bool)
    ensures
        r == light_reaches(blocked@, hit as int),
{
    let mut i: usize = 0;
    while i < blocked.len()
        invariant
            i <= blocked.len(),
            forall|l: int| 0 <= l < i && l != hit ==> !#[trigger] blocked@[l],
        decreases blocked.len() - i,
    {
        if i != hit && blocked[i] {
            return false;
        }
        i = i + 1;
    }
    true
}

/// An occluder casts a shadow: when a shape other than the one hit blocks the
/// shadow ray, the light does not reach the hit point; and when that shape is
/// the only one that blocks, the light reaches the point once it stops
/// blocking.
pub proof fn lemma_occluder_casts_shadow(blocked: Seq<bool>, hit: int, occluder: int)
    requires
        0 <= occluder < blocked.len(),
        occluder != hit,
        blocked[occluder],
    ensures
        !light_reaches(blocked, hit),
        (forall|l: int| 0 <= l < blocked.len() && l != hit && l != occluder ==> !#[trigger] blocked[l])
            ==> light_reaches(blocked.update(occluder, false), hit),
{
    assert(blocked[occluder]);
    if forall|l: int| 0 <= l < blocked.len() && l != hit && l != occluder ==> !#[trigger] blocked[l] {
        let after = blocked.update(occluder, false);
        assert forall|l: int| 0 <= l < after.len() && l != hit implies !#[trigger] after[l] by {
            if l != occluder {
                assert(after[l] == blocked[l]);
            }
        }
    }
}

} // verus!
