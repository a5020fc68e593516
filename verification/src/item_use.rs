//! The effect application engine: given a use-intent, resolve its targets,
//! then apply every effect the item carries in the fixed order
//! healing, damage, confusion, and finally decide consumption.
//!
//! Healing is applied immediately (capped at each target's maximum). Damage
//! is never subtracted from hit points here: it is only enqueued for a
//! downstream resolution step. Confusion is staged during iteration and
//! committed afterwards, so the status store is never read and written in
//! the same sweep.

use vstd::prelude::*;

use crate::components::{
    CombatStats, Confusion, DamageContribution, EntityId, InflictsDamage, Point, ProvidesHealing,
    WantsToUseItem,
};
use crate::healed_hp;
use crate::log::{IntentError, LogEntry};
use crate::map::GameMap;
use crate::seq_util::lemma_take_succ;
use crate::state::{WorldModel, WorldState};
use crate::targeting::{resolve_targets, resolved_targets};

verus! {

broadcast use vstd::std_specs::hash::group_hash_axioms;

/// One target healed: its hit points rise by `amount`, capped at its
/// maximum. A target without combat stats is untouched.
pub open spec fn heal_target(
    stats: Map<EntityId, CombatStats>,
    t: EntityId,
    amount: i32,
) -> Map<EntityId, CombatStats> {
    if stats.contains_key(t) {
        stats.insert(
            t,
            CombatStats {
                hp: vstd::math::min(stats[t].max_hp as int, stats[t].hp + amount) as i32,
                max_hp: stats[t].max_hp,
            },
        )
    } else {
        stats
    }
}

/// Every target healed in order.
pub open spec fn heal_targets(
    stats: Map<EntityId, CombatStats>,
    targets: Seq<EntityId>,
    amount: i32,
) -> Map<EntityId, CombatStats>
    decreases targets.len(),
{
    if targets.len() == 0 {
        stats
    } else {
        heal_target(heal_targets(stats, targets.drop_last(), amount), targets.last(), amount)
    }
}

/// The log lines healing produces when the player acts: one per target that
/// has combat stats.
pub open spec fn heal_log(
    stats0: Map<EntityId, CombatStats>,
    targets: Seq<EntityId>,
    item: EntityId,
    amount: i32,
) -> Seq<LogEntry>
    decreases targets.len(),
{
    if targets.len() == 0 {
        Seq::empty()
    } else {
        heal_log(stats0, targets.drop_last(), item, amount) + (if stats0.contains_key(
            targets.last(),
        ) {
            seq![LogEntry::Healed { item, amount }]
        } else {
            Seq::empty()
        })
    }
}

/// One additive damage contribution per target, in target order.
pub open spec fn damage_entries(targets: Seq<EntityId>, amount: i32) -> Seq<DamageContribution>
    decreases targets.len(),
{
    if targets.len() == 0 {
        Seq::empty()
    } else {
        damage_entries(targets.drop_last(), amount) + seq![
            DamageContribution { target: targets.last(), amount },
        ]
    }
}

/// The log lines damage produces when the player acts: one per target.
pub open spec fn damage_log(targets: Seq<EntityId>, item: EntityId, amount: i32) -> Seq<LogEntry>
    decreases targets.len(),
{
    if targets.len() == 0 {
        Seq::empty()
    } else {
        damage_log(targets.drop_last(), item, amount) + seq![
            LogEntry::DamageInflicted { item, target: targets.last(), amount },
        ]
    }
}

/// The log lines confusion produces when the player acts: one per target.
pub open spec fn confusion_log(targets: Seq<EntityId>, item: EntityId) -> Seq<LogEntry>
    decreases targets.len(),
{
    if targets.len() == 0 {
        Seq::empty()
    } else {
        confusion_log(targets.drop_last(), item) + seq![
            LogEntry::ConfusionInflicted { item, target: targets.last() },
        ]
    }
}

/// The staged confusion committed: every target's live status is inserted or
/// overwritten with the item's duration. The last writer wins; durations are
/// never summed.
pub open spec fn confuse_targets(
    conf: Map<EntityId, Confusion>,
    targets: Seq<EntityId>,
    turns: i32,
) -> Map<EntityId, Confusion>
    decreases targets.len(),
{
    if targets.len() == 0 {
        conf
    } else {
        confuse_targets(conf, targets.drop_last(), turns).insert(
            targets.last(),
            Confusion { turns },
        )
    }
}

/// Whether the use counts as "used". An item starts used; carrying a damage
/// or confusion effect makes that conditional on having hit at least one
/// target. A pure healing item is always considered used, even if it healed
/// nobody: a deliberate asymmetry of the rules, preserved as observed.
pub open spec fn spec_used(pre: WorldModel, item: EntityId, targets: Seq<EntityId>) -> bool {
    if pre.inflicts_damage.contains_key(item) || pre.confusion.contains_key(item) {
        targets.len() > 0
    } else {
        true
    }
}

/// Whether announcing this use in the log requires the item's name: healing
/// announces once per target with stats, damage and confusion once per
/// target hit.
pub open spec fn needs_item_name(pre: WorldModel, item: EntityId, targets: Seq<EntityId>) -> bool {
    ||| (pre.healing.contains_key(item) && exists|i: int|
        0 <= i < targets.len() && pre.stats.contains_key(#[trigger] targets[i]))
    ||| ((pre.inflicts_damage.contains_key(item) || pre.confusion.contains_key(item))
        && targets.len() > 0)
}

/// A log line this use would emit names an entity that has no name.
pub open spec fn missing_log_name(pre: WorldModel, item: EntityId, targets: Seq<EntityId>) -> bool {
    ||| (needs_item_name(pre, item, targets) && !pre.names.contains_key(item))
    ||| ((pre.inflicts_damage.contains_key(item) || pre.confusion.contains_key(item)) && exists|
        i: int,
    | 0 <= i < targets.len() && !pre.names.contains_key(#[trigger] targets[i]))
}

/// Why processing this use-intent aborts, if it does: only the player's
/// actions are announced, and an announcement needs every name it mentions.
pub open spec fn use_error(
    pre: WorldModel,
    map: GameMap,
    intent: WantsToUseItem,
    blast: Seq<Point>,
) -> Option<IntentError> {
    let targets = resolved_targets(pre, map, intent, blast);
    if intent.user == pre.player && missing_log_name(pre, intent.item, targets) {
        Some(IntentError::MissingRequiredComponent)
    } else {
        None
    }
}

/// The world after one error-free use-intent: targets resolved, healing
/// applied, damage enqueued, confusion staged and committed, the log
/// extended in that order, and the item deleted if it was used and is
/// consumable.
pub open spec fn use_step(
    pre: WorldModel,
    map: GameMap,
    intent: WantsToUseItem,
    blast: Seq<Point>,
) -> WorldModel {
    let item = intent.item;
    let targets = resolved_targets(pre, map, intent, blast);
    let is_player = intent.user == pre.player;
    let stats1 = if pre.healing.contains_key(item) {
        heal_targets(pre.stats, targets, pre.healing[item].heal_amount)
    } else {
        pre.stats
    };
    let log1 = pre.log + (if pre.healing.contains_key(item) && is_player {
        heal_log(pre.stats, targets, item, pre.healing[item].heal_amount)
    } else {
        Seq::empty()
    });
    let queue1 = pre.damage_queue + (if pre.inflicts_damage.contains_key(item) {
        damage_entries(targets, pre.inflicts_damage[item].damage)
    } else {
        Seq::empty()
    });
    let log2 = log1 + (if pre.inflicts_damage.contains_key(item) && is_player {
        damage_log(targets, item, pre.inflicts_damage[item].damage)
    } else {
        Seq::empty()
    });
    let conf1 = if pre.confusion.contains_key(item) {
        confuse_targets(pre.confusion, targets, pre.confusion[item].turns)
    } else {
        pre.confusion
    };
    let log3 = log2 + (if pre.confusion.contains_key(item) && is_player {
        confusion_log(targets, item)
    } else {
        Seq::empty()
    });
    let mid = WorldModel { stats: stats1, confusion: conf1, damage_queue: queue1, log: log3, ..pre };
    if spec_used(pre, item, targets) && pre.consumables.contains(item) {
        mid.delete_entity(item)
    } else {
        mid
    }
}

/// Healing one target keeps the set of actors and their validity.
pub proof fn lemma_heal_target_wf(stats: Map<EntityId, CombatStats>, t: EntityId, amount: i32)
    requires
        forall|e: EntityId| stats.contains_key(e) ==> (#[trigger] stats[e]).wf(),
        amount >= 0,
    ensures
        forall|e: EntityId|
            heal_target(stats, t, amount).contains_key(e) == stats.contains_key(e),
        forall|e: EntityId|
            heal_target(stats, t, amount).contains_key(e) ==> (#[trigger] heal_target(
                stats,
                t,
                amount,
            )[e]).wf(),
{
}

/// Healing a list of targets keeps the set of actors and their validity.
pub proof fn lemma_heal_targets_wf(
    stats: Map<EntityId, CombatStats>,
    targets: Seq<EntityId>,
    amount: i32,
)
    requires
        forall|e: EntityId| stats.contains_key(e) ==> (#[trigger] stats[e]).wf(),
        amount >= 0,
    ensures
        forall|e: EntityId|
            heal_targets(stats, targets, amount).contains_key(e) == stats.contains_key(e),
        forall|e: EntityId|
            heal_targets(stats, targets, amount).contains_key(e) ==> (#[trigger] heal_targets(
                stats,
                targets,
                amount,
            )[e]).wf(),
    decreases targets.len(),
{
    if targets.len() > 0 {
        lemma_heal_targets_wf(stats, targets.drop_last(), amount);
        lemma_heal_target_wf(heal_targets(stats, targets.drop_last(), amount), targets.last(), amount);
    }
}

/// An error-free use-step keeps the model valid and leaves the intent sets,
/// the player and the map-independent stores it never writes untouched.
pub proof fn lemma_use_step_frame(
    pre: WorldModel,
    map: GameMap,
    intent: WantsToUseItem,
    blast: Seq<Point>,
)
    requires
        pre.wf(),
    ensures
        use_step(pre, map, intent, blast).wf(),
        use_step(pre, map, intent, blast).use_intents == pre.use_intents,
        use_step(pre, map, intent, blast).pickup_intents == pre.pickup_intents,
        use_step(pre, map, intent, blast).drop_intents == pre.drop_intents,
        use_step(pre, map, intent, blast).player == pre.player,
{
    let targets = resolved_targets(pre, map, intent, blast);
    if pre.healing.contains_key(intent.item) {
        lemma_heal_targets_wf(pre.stats, targets, pre.healing[intent.item].heal_amount);
    }
}

/// Process one use-intent: resolve targets, validate the names any log line
/// will need, then apply healing, enqueue damage, stage and commit
/// confusion, and delete the item if it was used and is consumable.
///
/// On an error the world is left exactly as it was: the intent aborts before
/// any effect applies.
pub fn use_item(
    state: &mut WorldState,
    map: &GameMap,
    intent: WantsToUseItem,
    blast: &Vec<Point>,
) -> (r: Result<(), IntentError>)
    requires
        old(state)@.wf(),
        map.wf(),
        intent.target matches Some(aim) ==> map.spec_in_bounds(aim),
    ensures
        final(state)@.wf(),
        match r {
            Ok(()) => use_error(old(state)@, *map, intent, blast@) is None && final(state)@
                == use_step(old(state)@, *map, intent, blast@),
            Err(e) => use_error(old(state)@, *map, intent, blast@) == Some(e) && final(state)@
                == old(state)@,
        },
{
    let ghost pre = state@;
    let item = intent.item;

    // Targeting.
    let targets = resolve_targets(state, map, intent, blast);
    let ghost tgt = targets@;
    let n = targets.len();
    let is_player = intent.user == state.player;

    // The item's effect components, read before any mutation.
    let healer: Option<ProvidesHealing> = match state.healing.get(&item) {
        Some(h) => Some(*h),
        None => None,
    };
    let damager: Option<InflictsDamage> = match state.inflicts_damage.get(&item) {
        Some(d) => Some(*d),
        None => None,
    };
    let confuser: Option<Confusion> = match state.confusion.get(&item) {
        Some(c) => Some(*c),
        None => None,
    };

    // Validate before applying anything: a log line that cannot be formatted
    // for want of a name is upstream data corruption and aborts this intent
    // with the world untouched.
    if is_player {
        let mut any_stats = false;
        let mut k: usize = 0;
        while k < n
            invariant
                n == tgt.len(),
                k <= n,
                targets@ == tgt,
                state@ == pre,
                any_stats == exists|i: int|
                    0 <= i < k && pre.stats.contains_key(#[trigger] tgt[i]),
            decreases n - k,
        {
            if state.stats.contains_key(&targets[k]) {
                any_stats = true;
                proof {
                    assert(pre.stats.contains_key(tgt[k as int]));
                }
            }
            k += 1;
        }
        let needs_item = (healer.is_some() && any_stats) || ((damager.is_some()
            || confuser.is_some()) && n > 0);
        proof {
            assert(needs_item == needs_item_name(pre, item, tgt));
        }
        if needs_item && !state.names.contains_key(&item) {
            return Err(IntentError::MissingRequiredComponent);
        }
        if damager.is_some() || confuser.is_some() {
            let mut k: usize = 0;
            while k < n
                invariant
                    n == tgt.len(),
                    k <= n,
                    targets@ == tgt,
                    state@ == pre,
                    pre == old(state)@,
                    pre.wf(),
                    item == intent.item,
                    intent.user == pre.player,
                    tgt == resolved_targets(pre, *map, intent, blast@),
                    pre.inflicts_damage.contains_key(item) || pre.confusion.contains_key(item),
                    forall|i: int| 0 <= i < k ==> pre.names.contains_key(#[trigger] tgt[i]),
                decreases n - k,
            {
                if !state.names.contains_key(&targets[k]) {
                    proof {
                        assert(!pre.names.contains_key(tgt[k as int]));
                    }
                    return Err(IntentError::MissingRequiredComponent);
                }
                k += 1;
            }
        }
    }
    proof {
        assert(use_error(pre, *map, intent, blast@) is None);
    }

    // Healing: hp = min(max_hp, hp + heal_amount), applied at once.
    if let Some(h) = healer {
        let ghost stats0 = pre.stats;
        proof {
            assert(pre.log + Seq::<LogEntry>::empty() =~= pre.log);
        }
        let mut k: usize = 0;
        while k < n
            invariant
                n == tgt.len(),
                k <= n,
                targets@ == tgt,
                h == pre.healing[item],
                pre.healing.contains_key(item),
                pre.wf(),
                stats0 == pre.stats,
                is_player == (intent.user == pre.player),
                state@.stats == heal_targets(stats0, tgt.take(k as int), h.heal_amount),
                state@.log == pre.log + (if is_player {
                    heal_log(stats0, tgt.take(k as int), item, h.heal_amount)
                } else {
                    Seq::<LogEntry>::empty()
                }),
                state@ == (WorldModel { stats: state@.stats, log: state@.log, ..pre }),
            decreases n - k,
        {
            let t = targets[k];
            proof {
                lemma_take_succ(tgt, k as int);
                lemma_heal_targets_wf(stats0, tgt.take(k as int), h.heal_amount);
                assert(pre.log + (if is_player {
                    heal_log(stats0, tgt.take(k as int), item, h.heal_amount)
                } else {
                    Seq::<LogEntry>::empty()
                }) + Seq::<LogEntry>::empty() =~= state@.log);
            }
            let cur: Option<CombatStats> = match state.stats.get(&t) {
                Some(s) => Some(*s),
                None => None,
            };
            if let Some(cs) = cur {
                let new_hp = healed_hp(cs.hp, cs.max_hp, h.heal_amount);
                state.stats.insert(t, CombatStats { hp: new_hp, max_hp: cs.max_hp });
                if is_player {
                    state.log.entries.push(LogEntry::Healed { item, amount: h.heal_amount });
                    proof {
                        assert(pre.log + heal_log(stats0, tgt.take(k as int), item, h.heal_amount)
                            + seq![LogEntry::Healed { item, amount: h.heal_amount }] =~= pre.log
                            + heal_log(stats0, tgt.take(k as int + 1), item, h.heal_amount));
                    }
                }
            }
            k += 1;
        }
        proof {
            assert(tgt.take(n as int) =~= tgt);
        }
    }

    let ghost mid1 = state@;

    // Damage: enqueue one additive contribution per target; health itself is
    // mutated only by the downstream drain. A damage effect makes
    // consumption conditional on hitting at least one target.
    let mut used = true;
    if let Some(d) = damager {
        used = false;
        proof {
            assert(mid1.damage_queue + Seq::<DamageContribution>::empty() =~= mid1.damage_queue);
            assert(mid1.log + Seq::<LogEntry>::empty() =~= mid1.log);
        }
        let mut k: usize = 0;
        while k < n
            invariant
                n == tgt.len(),
                k <= n,
                targets@ == tgt,
                d == pre.inflicts_damage[item],
                pre.inflicts_damage.contains_key(item),
                is_player == (intent.user == pre.player),
                used == (k > 0),
                state@.damage_queue == mid1.damage_queue + damage_entries(
                    tgt.take(k as int),
                    d.damage,
                ),
                state@.log == mid1.log + (if is_player {
                    damage_log(tgt.take(k as int), item, d.damage)
                } else {
                    Seq::<LogEntry>::empty()
                }),
                state@ == (WorldModel {
                    damage_queue: state@.damage_queue,
                    log: state@.log,
                    ..mid1
                }),
            decreases n - k,
        {
            let t = targets[k];
            proof {
                lemma_take_succ(tgt, k as int);
                assert(mid1.damage_queue + damage_entries(tgt.take(k as int), d.damage) + seq![
                    DamageContribution { target: tgt[k as int], amount: d.damage },
                ] =~= mid1.damage_queue + damage_entries(tgt.take(k as int + 1), d.damage));
            }
            state.damage_queue.push(DamageContribution { target: t, amount: d.damage });
            if is_player {
                state.log.entries.push(LogEntry::DamageInflicted { item, target: t, amount: d.damage });
                proof {
                    assert(mid1.log + damage_log(tgt.take(k as int), item, d.damage) + seq![
                        LogEntry::DamageInflicted { item, target: tgt[k as int], amount: d.damage },
                    ] =~= mid1.log + damage_log(tgt.take(k as int + 1), item, d.damage));
                }
            } else {
                proof {
                    assert(mid1.log + Seq::<LogEntry>::empty() =~= mid1.log);
                }
            }
            used = true;
            k += 1;
        }
        proof {
            assert(tgt.take(n as int) =~= tgt);
            assert(mid1.damage_queue + Seq::<DamageContribution>::empty() =~= mid1.damage_queue);
            assert(mid1.log + Seq::<LogEntry>::empty() =~= mid1.log);
        }
    }

    let ghost mid2 = state@;

    // Confusion: stage (target, duration) pairs while iterating, commit
    // afterwards, so the status store is never read and written in the same
    // sweep. A confusion effect also makes consumption conditional on a hit.
    if let Some(c) = confuser {
        used = false;
        proof {
            assert(mid2.log + Seq::<LogEntry>::empty() =~= mid2.log);
        }
        let mut add_confusion: Vec<(EntityId, i32)> = Vec::new();
        let mut k: usize = 0;
        while k < n
            invariant
                n == tgt.len(),
                k <= n,
                targets@ == tgt,
                c == pre.confusion[item],
                pre.confusion.contains_key(item),
                is_player == (intent.user == pre.player),
                used == (k > 0),
                add_confusion@.len() == k,
                forall|j: int|
                    0 <= j < k ==> #[trigger] add_confusion@[j] == (tgt[j], c.turns),
                state@.log == mid2.log + (if is_player {
                    confusion_log(tgt.take(k as int), item)
                } else {
                    Seq::<LogEntry>::empty()
                }),
                state@ == (WorldModel { log: state@.log, ..mid2 }),
            decreases n - k,
        {
            let t = targets[k];
            proof {
                lemma_take_succ(tgt, k as int);
            }
            used = true;
            add_confusion.push((t, c.turns));
            if is_player {
                state.log.entries.push(LogEntry::ConfusionInflicted { item, target: t });
                proof {
                    assert(mid2.log + confusion_log(tgt.take(k as int), item) + seq![
                        LogEntry::ConfusionInflicted { item, target: tgt[k as int] },
                    ] =~= mid2.log + confusion_log(tgt.take(k as int + 1), item));
                }
            } else {
                proof {
                    assert(mid2.log + Seq::<LogEntry>::empty() =~= mid2.log);
                }
            }
            k += 1;
        }
        proof {
            assert(tgt.take(n as int) =~= tgt);
            assert(mid2.log + Seq::<LogEntry>::empty() =~= mid2.log);
        }
        let ghost mid3 = state@;
        let mut k: usize = 0;
        while k < n
            invariant
                n == tgt.len(),
                k <= n,
                c == pre.confusion[item],
                add_confusion@.len() == n,
                forall|j: int|
                    0 <= j < n ==> #[trigger] add_confusion@[j] == (tgt[j], c.turns),
                state@.confusion == confuse_targets(mid3.confusion, tgt.take(k as int), c.turns),
                state@ == (WorldModel { confusion: state@.confusion, ..mid3 }),
            decreases n - k,
        {
            let staged = add_confusion[k];
            proof {
                lemma_take_succ(tgt, k as int);
            }
            state.confusion.insert(staged.0, Confusion { turns: staged.1 });
            k += 1;
        }
        proof {
            assert(tgt.take(n as int) =~= tgt);
        }
    }

    // Consumption: delete the item once all effect reads have completed.
    if used {
        if state.consumables.contains(&item) {
            state.delete_entity(item);
        }
    }
    proof {
        lemma_heal_targets_wf(pre.stats, tgt, if pre.healing.contains_key(item) {
            pre.healing[item].heal_amount
        } else {
            0
        });
        assert(state@ =~= use_step(pre, *map, intent, blast@));
        lemma_use_step_frame(pre, *map, intent, blast@);
    }
    Ok(())
}

/// The per-intent visibility inputs as mathematical sequences.
pub open spec fn blasts_view(blasts: Seq<Vec<Point>>) -> Seq<Seq<Point>> {
    blasts.map_values(|b: Vec<Point>| b@)
}

/// One use-intent, abandoned untouched on an error.
pub open spec fn use_step_checked(
    pre: WorldModel,
    map: GameMap,
    intent: WantsToUseItem,
    blast: Seq<Point>,
) -> WorldModel {
    if use_error(pre, map, intent, blast) is None {
        use_step(pre, map, intent, blast)
    } else {
        pre
    }
}

/// The world after processing every use-intent in order, each against the
/// state its predecessors left. `blasts[i]` is the visibility result for
/// intent `i`.
pub open spec fn use_pass(
    pre: WorldModel,
    map: GameMap,
    intents: Seq<WantsToUseItem>,
    blasts: Seq<Seq<Point>>,
) -> WorldModel
    decreases intents.len(),
{
    if intents.len() == 0 {
        pre
    } else {
        use_step_checked(
            use_pass(pre, map, intents.drop_last(), blasts.drop_last()),
            map,
            intents.last(),
            blasts.last(),
        )
    }
}

/// The errors the pass reports, in intent order.
pub open spec fn use_pass_errors(
    pre: WorldModel,
    map: GameMap,
    intents: Seq<WantsToUseItem>,
    blasts: Seq<Seq<Point>>,
) -> Seq<IntentError>
    decreases intents.len(),
{
    if intents.len() == 0 {
        Seq::empty()
    } else {
        use_pass_errors(pre, map, intents.drop_last(), blasts.drop_last()) + (match use_error(
            use_pass(pre, map, intents.drop_last(), blasts.drop_last()),
            map,
            intents.last(),
            blasts.last(),
        ) {
            Some(e) => seq![e],
            None => Seq::empty(),
        })
    }
}

/// The item-use pass: one run per tick over the whole use-intent set.
pub struct ItemUseSystem {}

impl ItemUseSystem {
    /// Process every use-intent in order. `blasts[i]` is the visibility
    /// query result for intent `i`: the points visible from its aim point
    /// within the item's radius, as the map collaborator computed them
    /// (consulted only for area items).
    ///
    /// A failed intent leaves the world exactly as it was and is reported;
    /// the pass goes on. Use-intents are not cleared here: their creator
    /// owes their removal before the next tick.
    pub fn run(
        &mut self,
        state: &mut WorldState,
        map: &GameMap,
        blasts: &Vec<Vec<Point>>,
    ) -> (errs: Vec<IntentError>)
        requires
            old(state)@.wf(),
            map.wf(),
            blasts@.len() == old(state)@.use_intents.len(),
            forall|i: int|
                0 <= i < old(state)@.use_intents.len() ==> ((#[trigger] old(
                    state,
                )@.use_intents[i]).target matches Some(aim) ==> map.spec_in_bounds(aim)),
        ensures
            final(state)@.wf(),
            final(state)@ == use_pass(
                old(state)@,
                *map,
                old(state)@.use_intents,
                blasts_view(blasts@),
            ),
            errs@ == use_pass_errors(
                old(state)@,
                *map,
                old(state)@.use_intents,
                blasts_view(blasts@),
            ),
    {
        let ghost pre0 = old(state)@;
        let ghost intents0 = pre0.use_intents;
        let ghost bv = blasts_view(blasts@);
        let mut errs: Vec<IntentError> = Vec::new();
        let n = state.use_intents.len();
        let mut i: usize = 0;
        while i < n
            invariant
                n == intents0.len(),
                i <= n,
                blasts@.len() == n,
                bv == blasts_view(blasts@),
                map.wf(),
                forall|j: int|
                    0 <= j < n ==> ((#[trigger] intents0[j]).target matches Some(aim)
                        ==> map.spec_in_bounds(aim)),
                state@ == use_pass(pre0, *map, intents0.take(i as int), bv.take(i as int)),
                state@.wf(),
                state@.use_intents == intents0,
                errs@ == use_pass_errors(pre0, *map, intents0.take(i as int), bv.take(i as int)),
            decreases n - i,
        {
            let intent = state.use_intents[i];
            proof {
                lemma_take_succ(intents0, i as int);
                lemma_take_succ(bv, i as int);
            }
            let ghost before = state@;
            let r = use_item(state, map, intent, &blasts[i]);
            proof {
                lemma_use_step_frame(before, *map, intent, bv[i as int]);
            }
            if let Err(e) = r {
                errs.push(e);
                proof {
                    assert(use_pass_errors(pre0, *map, intents0.take(i as int), bv.take(i as int))
                        + seq![e] =~= use_pass_errors(
                        pre0,
                        *map,
                        intents0.take(i as int + 1),
                        bv.take(i as int + 1),
                    ));
                }
            } else {
                proof {
                    assert(errs@ + Seq::<IntentError>::empty() =~= errs@);
                    assert(errs@ =~= use_pass_errors(
                        pre0,
                        *map,
                        intents0.take(i as int + 1),
                        bv.take(i as int + 1),
                    ));
                }
            }
            i += 1;
        }
        proof {
            assert(intents0.take(n as int) =~= intents0);
            assert(bv.take(n as int) =~= bv);
        }
        errs
    }
}

} // verus!
