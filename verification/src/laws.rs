//! The library's general guarantees, stated and proved once over the
//! transition model that the systems' contracts speak of.

use vstd::prelude::*;

use crate::components::{DamageContribution, EntityId, Point, WantsToDropItem, WantsToPickupItem,
    WantsToUseItem};
use crate::inventory::{drop_error, drop_step, pickup_error, pickup_step};
use crate::item_use::{confuse_targets, damage_entries, use_error, use_step};
use crate::map::GameMap;
use crate::state::WorldModel;
use crate::targeting::{aoe_blast_targets, resolved_targets};

verus! {

/// A use-intent with no aim point always resolves to exactly the requesting
/// actor, whatever the item's area modifier or other components.
pub proof fn lemma_self_target_default(
    pre: WorldModel,
    map: GameMap,
    intent: WantsToUseItem,
    blast: Seq<Point>,
)
    requires
        intent.target is None,
    ensures
        resolved_targets(pre, map, intent, blast) == seq![intent.user],
{
}

/// Healing cap: using a healing item on oneself sets the user's hit points
/// to the lesser of the maximum and the old value plus the heal amount, and
/// leaves the maximum alone. In particular, using it again at full health
/// changes nothing.
pub proof fn lemma_healing_cap(
    pre: WorldModel,
    map: GameMap,
    intent: WantsToUseItem,
    blast: Seq<Point>,
)
    requires
        pre.wf(),
        intent.target is None,
        pre.stats.contains_key(intent.user),
        pre.healing.contains_key(intent.item),
        intent.user != intent.item,
    ensures
        ({
            let post = use_step(pre, map, intent, blast);
            let s = pre.stats[intent.user];
            let h = pre.healing[intent.item].heal_amount;
            &&& post.stats.contains_key(intent.user)
            &&& post.stats[intent.user].hp == vstd::math::min(s.max_hp as int, s.hp + h)
            &&& post.stats[intent.user].max_hp == s.max_hp
            &&& (s.hp == s.max_hp ==> post.stats[intent.user] == s)
        }),
{
    let u = intent.user;
    let targets = resolved_targets(pre, map, intent, blast);
    assert(targets =~= seq![u]);
    assert(targets.drop_last() =~= Seq::<EntityId>::empty());
    assert(targets.last() == u);
    let s = pre.stats[u];
    let h = pre.healing[intent.item].heal_amount;
    assert(crate::item_use::heal_targets(pre.stats, targets.drop_last(), h) == pre.stats);
    assert(crate::item_use::heal_targets(pre.stats, targets, h) == crate::item_use::heal_target(
        pre.stats,
        u,
        h,
    ));
    assert(0 <= vstd::math::min(s.max_hp as int, s.hp + h) <= i32::MAX);
}

/// Empty-tile damage no-op: aiming a non-area damage item at a tile with no
/// occupants changes nothing at all — no damage is enqueued and the item is
/// not consumed — and the intent succeeds.
pub proof fn lemma_empty_tile_damage_noop(
    pre: WorldModel,
    map: GameMap,
    intent: WantsToUseItem,
    blast: Seq<Point>,
)
    requires
        intent.target matches Some(aim) && map.spec_occupants(aim).len() == 0,
        !pre.aoe.contains_key(intent.item),
        pre.inflicts_damage.contains_key(intent.item),
    ensures
        use_step(pre, map, intent, blast) == pre,
        use_error(pre, map, intent, blast) is None,
{
    let targets = resolved_targets(pre, map, intent, blast);
    assert(targets.len() == 0);
    assert(pre.log + Seq::<crate::log::LogEntry>::empty() =~= pre.log);
    assert(pre.damage_queue + Seq::<DamageContribution>::empty() =~= pre.damage_queue);
    assert(use_step(pre, map, intent, blast) =~= pre);
}

/// Consumption asymmetry, healing side: a pure healing consumable used on
/// oneself is always deleted after use — every component store forgets it —
/// even though healing never conditions consumption on a hit.
pub proof fn lemma_pure_healing_consumable_deleted(
    pre: WorldModel,
    map: GameMap,
    intent: WantsToUseItem,
    blast: Seq<Point>,
)
    requires
        intent.target is None,
        pre.healing.contains_key(intent.item),
        !pre.inflicts_damage.contains_key(intent.item),
        !pre.confusion.contains_key(intent.item),
        pre.consumables.contains(intent.item),
    ensures
        ({
            let post = use_step(pre, map, intent, blast);
            &&& !post.locations.contains_key(intent.item)
            &&& !post.healing.contains_key(intent.item)
            &&& !post.inflicts_damage.contains_key(intent.item)
            &&& !post.aoe.contains_key(intent.item)
            &&& !post.confusion.contains_key(intent.item)
            &&& !post.consumables.contains(intent.item)
            &&& !post.names.contains_key(intent.item)
            &&& !post.stats.contains_key(intent.item)
        }),
{
}

/// Consumption asymmetry, damage side: a damage consumable aimed at an empty
/// tile is never deleted — nothing was hit, so nothing is consumed.
pub proof fn lemma_damage_consumable_miss_not_deleted(
    pre: WorldModel,
    map: GameMap,
    intent: WantsToUseItem,
    blast: Seq<Point>,
)
    requires
        intent.target matches Some(aim) && map.spec_occupants(aim).len() == 0,
        !pre.aoe.contains_key(intent.item),
        pre.inflicts_damage.contains_key(intent.item),
        pre.consumables.contains(intent.item),
    ensures
        use_step(pre, map, intent, blast) == pre,
        use_step(pre, map, intent, blast).consumables.contains(intent.item),
{
    lemma_empty_tile_damage_noop(pre, map, intent, blast);
}

/// Committing staged confusion gives every hit target exactly the staged
/// duration.
pub proof fn lemma_confuse_targets_hits(
    conf: Map<EntityId, crate::components::Confusion>,
    targets: Seq<EntityId>,
    turns: i32,
    t: EntityId,
)
    requires
        targets.contains(t),
    ensures
        confuse_targets(conf, targets, turns).contains_key(t),
        confuse_targets(conf, targets, turns)[t] == (crate::components::Confusion { turns }),
    decreases targets.len(),
{
    if targets.last() != t {
        let i = choose|i: int| 0 <= i < targets.len() && targets[i] == t;
        assert(targets.drop_last()[i] == t);
        assert(targets.drop_last().contains(t));
        lemma_confuse_targets_hits(conf, targets.drop_last(), turns, t);
    }
}

/// Confusion overwrite: applying a confusion item to a target, whatever
/// status the target already carries, leaves the target with exactly the
/// item's duration — the last writer wins, durations are never summed.
pub proof fn lemma_confusion_overwrite(
    pre: WorldModel,
    map: GameMap,
    intent: WantsToUseItem,
    blast: Seq<Point>,
    t: EntityId,
)
    requires
        pre.confusion.contains_key(intent.item),
        resolved_targets(pre, map, intent, blast).contains(t),
        t != intent.item,
    ensures
        ({
            let post = use_step(pre, map, intent, blast);
            &&& post.confusion.contains_key(t)
            &&& post.confusion[t].turns == pre.confusion[intent.item].turns
        }),
{
    let targets = resolved_targets(pre, map, intent, blast);
    lemma_confuse_targets_hits(pre.confusion, targets, pre.confusion[intent.item].turns, t);
}

/// The damage an entity has queued: the sum of the contributions addressed
/// to it, in order of arrival.
pub open spec fn queued_amount(q: Seq<DamageContribution>, t: EntityId) -> int
    decreases q.len(),
{
    if q.len() == 0 {
        0
    } else {
        queued_amount(q.drop_last(), t) + (if q.last().target == t {
            q.last().amount as int
        } else {
            0
        })
    }
}

/// How often an entity occurs in a target list: once per hit tile it
/// occupies.
pub open spec fn occurrences(targets: Seq<EntityId>, t: EntityId) -> int
    decreases targets.len(),
{
    if targets.len() == 0 {
        0
    } else {
        occurrences(targets.drop_last(), t) + (if targets.last() == t {
            1int
        } else {
            0int
        })
    }
}

/// Queued damage sums over concatenation: contributions already queued are
/// never replaced, only added to.
pub proof fn lemma_queued_amount_concat(
    q1: Seq<DamageContribution>,
    q2: Seq<DamageContribution>,
    t: EntityId,
)
    ensures
        queued_amount(q1 + q2, t) == queued_amount(q1, t) + queued_amount(q2, t),
    decreases q2.len(),
{
    if q2.len() == 0 {
        assert(q1 + q2 =~= q1);
    } else {
        assert((q1 + q2).drop_last() =~= q1 + q2.drop_last());
        lemma_queued_amount_concat(q1, q2.drop_last(), t);
    }
}

/// A damage effect enqueues exactly its amount once per occurrence of the
/// target in the target list, and nothing for anyone else.
pub proof fn lemma_damage_entries_amount(targets: Seq<EntityId>, amount: i32, t: EntityId)
    ensures
        queued_amount(damage_entries(targets, amount), t) == amount * occurrences(targets, t),
    decreases targets.len(),
{
    if targets.len() == 0 {
        assert(amount * 0 == 0) by (nonlinear_arith);
    } else {
        lemma_damage_entries_amount(targets.drop_last(), amount, t);
        let single = seq![DamageContribution { target: targets.last(), amount }];
        lemma_queued_amount_concat(damage_entries(targets.drop_last(), amount), single, t);
        assert(single.drop_last() =~= Seq::<DamageContribution>::empty());
        assert(queued_amount(single.drop_last(), t) == 0);
        assert(queued_amount(single, t) == (if targets.last() == t {
            amount as int
        } else {
            0
        }));
        assert(amount * (occurrences(targets.drop_last(), t) + 1) == amount * occurrences(
            targets.drop_last(),
            t,
        ) + amount) by (nonlinear_arith);
    }
}

/// Area fan-out: an area damage item enqueues exactly its damage once per
/// occurrence of an entity among the occupants of the interior blast points,
/// and enqueues nothing to entities outside the blast.
pub proof fn lemma_aoe_fan_out(
    pre: WorldModel,
    map: GameMap,
    intent: WantsToUseItem,
    blast: Seq<Point>,
    t: EntityId,
)
    requires
        intent.target is Some,
        pre.aoe.contains_key(intent.item),
        pre.inflicts_damage.contains_key(intent.item),
    ensures
        ({
            let post = use_step(pre, map, intent, blast);
            let targets = aoe_blast_targets(map, blast);
            let d = pre.inflicts_damage[intent.item].damage;
            queued_amount(post.damage_queue, t) == queued_amount(pre.damage_queue, t) + d
                * occurrences(targets, t)
        }),
{
    let targets = aoe_blast_targets(map, blast);
    let d = pre.inflicts_damage[intent.item].damage;
    assert(resolved_targets(pre, map, intent, blast) == targets);
    lemma_queued_amount_concat(pre.damage_queue, damage_entries(targets, d), t);
    lemma_damage_entries_amount(targets, d, t);
}

/// Pickup/drop round trip: picking an item up and then dropping it leaves
/// the item on the ground at the dropper's own position. In between it was
/// carried; it can never hold a position and a carrier at once, because both
/// live in one owning `Location` relation.
pub proof fn lemma_pickup_drop_round_trip(
    pre: WorldModel,
    pi: WantsToPickupItem,
    di: WantsToDropItem,
)
    requires
        pickup_error(pre, pi) is None,
        drop_error(pickup_step(pre, pi), di) is None,
        di.item == pi.item,
        di.dropper == pi.collected_by,
        pi.item != pi.collected_by,
    ensures
        ({
            let mid = pickup_step(pre, pi);
            let post = drop_step(mid, di);
            &&& mid.locations[pi.item] == (crate::components::Location::Carried(pi.collected_by))
            &&& post.locations.contains_key(pi.item)
            &&& post.locations[pi.item] is OnGround
            &&& post.locations[pi.item] == pre.locations[pi.collected_by]
        }),
{
}

} // verus!

