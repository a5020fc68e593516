//! The world state this core reads and mutates: component stores keyed by
//! entity identifier, the pending-damage queue, the log, and the one-tick
//! intent sets. Global collaborators (log, designated player) are explicit
//! fields rather than ambient globals.

use std::collections::HashMap;
use std::collections::HashSet;
use vstd::prelude::*;

use crate::components::{
    AreaOfEffect, CombatStats, Confusion, DamageContribution, EntityId, InflictsDamage, Location,
    ProvidesHealing, WantsToDropItem, WantsToPickupItem, WantsToUseItem,
};
use crate::log::{GameLog, LogEntry};

verus! {

broadcast use vstd::std_specs::hash::group_hash_axioms;

/// All mutable world state touched by this core.
///
/// Component presence is optional effect presence: an item heals, damages,
/// confuses, spreads over an area or is consumable exactly when the matching
/// store holds an entry for it.
pub struct WorldState {
    /// The designated player-controlled actor; used purely to gate which
    /// actions produce log output.
    pub player: EntityId,
    /// Combat capability (current and maximum hit points) per actor.
    pub stats: HashMap<EntityId, CombatStats>,
    /// Display names; required only to announce an action in the log.
    pub names: HashMap<EntityId, String>,
    /// Where each placed entity is: on the ground or carried. One owning
    /// relation, so "position" and "backpack membership" are mutually
    /// exclusive by construction.
    pub locations: HashMap<EntityId, Location>,
    /// Items that heal, by item entity.
    pub healing: HashMap<EntityId, ProvidesHealing>,
    /// Items that harm, by item entity.
    pub inflicts_damage: HashMap<EntityId, InflictsDamage>,
    /// Items whose effect spreads over a radius, by item entity.
    pub aoe: HashMap<EntityId, AreaOfEffect>,
    /// Confusion, both as an item template (keyed by item) and as a live
    /// status (keyed by actor) after application.
    pub confusion: HashMap<EntityId, Confusion>,
    /// Single-use items, deleted once used.
    pub consumables: HashSet<EntityId>,
    /// Accumulated, not-yet-applied damage contributions, drained by a
    /// downstream resolution step. This core only appends; health itself is
    /// never written here.
    pub damage_queue: Vec<DamageContribution>,
    /// The append-only log.
    pub log: GameLog,
    /// One-tick pickup intents, cleared by the transfer pass.
    pub pickup_intents: Vec<WantsToPickupItem>,
    /// One-tick drop intents, cleared by the transfer pass.
    pub drop_intents: Vec<WantsToDropItem>,
    /// One-tick use intents; clearing them is owed by their creator, not by
    /// this core.
    pub use_intents: Vec<WantsToUseItem>,
}

/// The mathematical model of a `WorldState`: every store as a `Map`, `Set`
/// or `Seq`. All contracts of this library speak of this model.
#[verifier::ext_equal]
pub struct WorldModel {
    pub player: EntityId,
    pub stats: Map<EntityId, CombatStats>,
    pub names: Map<EntityId, String>,
    pub locations: Map<EntityId, Location>,
    pub healing: Map<EntityId, ProvidesHealing>,
    pub inflicts_damage: Map<EntityId, InflictsDamage>,
    pub aoe: Map<EntityId, AreaOfEffect>,
    pub confusion: Map<EntityId, Confusion>,
    pub consumables: Set<EntityId>,
    pub damage_queue: Seq<DamageContribution>,
    pub log: Seq<LogEntry>,
    pub pickup_intents: Seq<WantsToPickupItem>,
    pub drop_intents: Seq<WantsToDropItem>,
    pub use_intents: Seq<WantsToUseItem>,
}

impl View for WorldState {
    type V = WorldModel;

    open spec fn view(&self) -> WorldModel {
        WorldModel {
            player: self.player,
            stats: self.stats@,
            names: self.names@,
            locations: self.locations@,
            healing: self.healing@,
            inflicts_damage: self.inflicts_damage@,
            aoe: self.aoe@,
            confusion: self.confusion@,
            consumables: self.consumables@,
            damage_queue: self.damage_queue@,
            log: self.log.entries@,
            pickup_intents: self.pickup_intents@,
            drop_intents: self.drop_intents@,
            use_intents: self.use_intents@,
        }
    }
}

impl WorldModel {
    /// Validity of the stored values: every actor's hit points sit between
    /// zero and its maximum, and healing amounts are non-negative.
    pub open spec fn wf(self) -> bool {
        &&& forall|e: EntityId|
            self.stats.contains_key(e) ==> (#[trigger] self.stats[e]).wf()
        &&& forall|e: EntityId|
            self.healing.contains_key(e) ==> (#[trigger] self.healing[e]).heal_amount >= 0
    }

    /// The model after deleting entity `e`: every component store forgets
    /// it. Queued damage contributions are not components and stay for the
    /// downstream drain.
    pub open spec fn delete_entity(self, e: EntityId) -> WorldModel {
        WorldModel {
            stats: self.stats.remove(e),
            names: self.names.remove(e),
            locations: self.locations.remove(e),
            healing: self.healing.remove(e),
            inflicts_damage: self.inflicts_damage.remove(e),
            aoe: self.aoe.remove(e),
            confusion: self.confusion.remove(e),
            consumables: self.consumables.remove(e),
            ..self
        }
    }
}

impl WorldState {
    /// An empty world around the designated player.
    pub fn new(player: EntityId) -> (s: WorldState)
        ensures
            s@.player == player,
            s@.stats == Map::<EntityId, CombatStats>::empty(),
            s@.names == Map::<EntityId, String>::empty(),
            s@.locations == Map::<EntityId, Location>::empty(),
            s@.healing == Map::<EntityId, ProvidesHealing>::empty(),
            s@.inflicts_damage == Map::<EntityId, InflictsDamage>::empty(),
            s@.aoe == Map::<EntityId, AreaOfEffect>::empty(),
            s@.confusion == Map::<EntityId, Confusion>::empty(),
            s@.consumables == Set::<EntityId>::empty(),
            s@.damage_queue == Seq::<DamageContribution>::empty(),
            s@.log == Seq::<LogEntry>::empty(),
            s@.pickup_intents == Seq::<WantsToPickupItem>::empty(),
            s@.drop_intents == Seq::<WantsToDropItem>::empty(),
            s@.use_intents == Seq::<WantsToUseItem>::empty(),
            s@.wf(),
    {
        WorldState {
            player,
            stats: HashMap::new(),
            names: HashMap::new(),
            locations: HashMap::new(),
            healing: HashMap::new(),
            inflicts_damage: HashMap::new(),
            aoe: HashMap::new(),
            confusion: HashMap::new(),
            consumables: HashSet::new(),
            damage_queue: Vec::new(),
            log: GameLog { entries: Vec::new() },
            pickup_intents: Vec::new(),
            drop_intents: Vec::new(),
            use_intents: Vec::new(),
        }
    }

    /// Delete an entity: every component store forgets it. Safe to call once
    /// all reads of the entity's components in the same pass have completed.
    pub fn delete_entity(&mut self, e: EntityId)
        ensures
            final(self)@ == old(self)@.delete_entity(e),
    {
        self.stats.remove(&e);
        self.names.remove(&e);
        self.locations.remove(&e);
        self.healing.remove(&e);
        self.inflicts_damage.remove(&e);
        self.aoe.remove(&e);
        self.confusion.remove(&e);
        self.consumables.remove(&e);
        proof {
            assert(self@ =~= old(self)@.delete_entity(e));
        }
    }
}

} // verus!
