//! The targeting resolver: given a use-intent (item, optional aim point), it
//! produces the ordered list of entities the item will affect.
//!
//! Area-of-effect targeting consumes a visibility query as a black-box
//! geometry result: the caller supplies the set of points visible from the
//! aim point within the item's radius (`blast`), and the resolver keeps only
//! interior points and unions their occupants. An entity appears once per
//! hit tile it occupies.

use vstd::prelude::*;

use crate::components::{EntityId, Point, WantsToUseItem};
use crate::map::GameMap;
use crate::seq_util::lemma_take_succ;
use crate::state::{WorldModel, WorldState};

verus! {

broadcast use vstd::std_specs::hash::group_hash_axioms;

/// Every occupant of every interior blast point, in blast order; border
/// points contribute nothing.
pub open spec fn aoe_blast_targets(map: GameMap, blast: Seq<Point>) -> Seq<EntityId>
    decreases blast.len(),
{
    if blast.len() == 0 {
        Seq::empty()
    } else {
        aoe_blast_targets(map, blast.drop_last()) + (if map.spec_interior(blast.last()) {
            map.spec_occupants(blast.last())
        } else {
            Seq::empty()
        })
    }
}

/// Who a use of `intent.item` affects.
///
/// Without an aim point, exactly the requester (self-use), whatever the
/// item's modifiers. With an aim point: the occupants of the aimed tile, or,
/// for an area item, of every interior blast point.
pub open spec fn resolved_targets(
    pre: WorldModel,
    map: GameMap,
    intent: WantsToUseItem,
    blast: Seq<Point>,
) -> Seq<EntityId> {
    match intent.target {
        None => seq![intent.user],
        Some(aim) => if pre.aoe.contains_key(intent.item) {
            aoe_blast_targets(map, blast)
        } else {
            map.spec_occupants(aim)
        },
    }
}

/// Append every element of `src` to `dst`, in order.
pub fn push_all(dst: &mut Vec<EntityId>, src: &Vec<EntityId>)
    ensures
        final(dst)@ == old(dst)@ + src@,
{
    proof {
        assert(old(dst)@ + src@.take(0) =~= old(dst)@);
    }
    let n = src.len();
    let mut j: usize = 0;
    while j < n
        invariant
            n == src@.len(),
            j <= n,
            dst@ == old(dst)@ + src@.take(j as int),
        decreases n - j,
    {
        dst.push(src[j]);
        proof {
            assert(old(dst)@ + src@.take(j as int) + seq![src@[j as int]] =~= old(dst)@
                + src@.take(j as int + 1));
        }
        j += 1;
    }
    proof {
        assert(old(dst)@ + src@.take(n as int) =~= old(dst)@ + src@);
    }
}

/// Resolve a use-intent to the ordered list of affected entities.
pub fn resolve_targets(
    state: &WorldState,
    map: &GameMap,
    intent: WantsToUseItem,
    blast: &Vec<Point>,
) -> (targets: Vec<EntityId>)
    requires
        map.wf(),
        intent.target matches Some(aim) ==> map.spec_in_bounds(aim),
    ensures
        targets@ == resolved_targets(state@, *map, intent, blast@),
{
    let mut targets: Vec<EntityId> = Vec::new();
    match intent.target {
        None => {
            targets.push(intent.user);
            proof {
                assert(targets@ =~= seq![intent.user]);
            }
        },
        Some(aim) => {
            if state.aoe.contains_key(&intent.item) {
                let n = blast.len();
                let mut i: usize = 0;
                while i < n
                    invariant
                        n == blast@.len(),
                        i <= n,
                        map.wf(),
                        targets@ == aoe_blast_targets(*map, blast@.take(i as int)),
                    decreases n - i,
                {
                    let p = blast[i];
                    proof {
                        lemma_take_succ(blast@, i as int);
                    }
                    if map.interior(p) {
                        let idx = map.xy_idx(p.x, p.y);
                        proof {
                            assert(Point { x: p.x, y: p.y } == p);
                        }
                        push_all(&mut targets, &map.tile_content[idx]);
                    } else {
                        proof {
                            assert(targets@ + Seq::<EntityId>::empty() =~= targets@);
                        }
                    }
                    i += 1;
                }
                proof {
                    assert(blast@.take(n as int) =~= blast@);
                }
            } else {
                let idx = map.xy_idx(aim.x, aim.y);
                push_all(&mut targets, &map.tile_content[idx]);
                proof {
                    assert(Seq::<EntityId>::empty() + map.spec_occupants(aim) =~= map.spec_occupants(
                        aim,
                    ));
                }
            }
        },
    }
    targets
}

} // verus!
