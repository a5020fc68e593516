//! The data model: entities are opaque identifiers, all state lives in
//! components attached to them.

use vstd::prelude::*;

verus! {

/// An opaque entity identifier.
pub type EntityId = u64;

/// A world-grid location.
#[derive(Clone, Copy, PartialEq, Eq, Structural, Debug)]
pub struct Point {
    pub x: i32,
    pub y: i32,
}

/// Combat capability of an actor: current and maximum hit points.
#[derive(Clone, Copy, PartialEq, Eq, Structural, Debug)]
pub struct CombatStats {
    pub hp: i32,
    pub max_hp: i32,
}

impl CombatStats {
    /// Hit points sit between zero and the maximum.
    pub open spec fn wf(self) -> bool {
        0 <= self.hp <= self.max_hp
    }
}

/// Effect component: the item grants hit points when used.
#[derive(Clone, Copy, PartialEq, Eq, Structural, Debug)]
pub struct ProvidesHealing {
    pub heal_amount: i32,
}

/// Effect component: the item harms its targets.
#[derive(Clone, Copy, PartialEq, Eq, Structural, Debug)]
pub struct InflictsDamage {
    pub damage: i32,
}

/// Modifier component: the item affects every visible point within `radius`
/// of the aim point instead of a single tile.
#[derive(Clone, Copy, PartialEq, Eq, Structural, Debug)]
pub struct AreaOfEffect {
    pub radius: i32,
}

/// A turn-limited inability-to-act status; present both as an item template
/// and, after application, as a live status on an actor.
#[derive(Clone, Copy, PartialEq, Eq, Structural, Debug)]
pub struct Confusion {
    pub turns: i32,
}

/// Where an item entity currently is. A single owning relation makes
/// "on the ground" and "carried" mutually exclusive by construction: an item
/// can never hold both a position and a backpack membership at once.
#[derive(Clone, Copy, PartialEq, Eq, Structural, Debug)]
pub enum Location {
    /// The entity lies on the ground at a world-grid position.
    OnGround(Point),
    /// The entity is carried in the backpack of the given actor.
    Carried(EntityId),
}

/// One-tick intent: `collected_by` wants to pick `item` up from the ground.
#[derive(Clone, Copy, PartialEq, Eq, Structural, Debug)]
pub struct WantsToPickupItem {
    pub collected_by: EntityId,
    pub item: EntityId,
}

/// One-tick intent: `user` wants to use `item`, optionally aimed at `target`.
#[derive(Clone, Copy, PartialEq, Eq, Structural, Debug)]
pub struct WantsToUseItem {
    pub user: EntityId,
    pub item: EntityId,
    pub target: Option<Point>,
}

/// One-tick intent: `dropper` wants to drop `item` at its own position.
#[derive(Clone, Copy, PartialEq, Eq, Structural, Debug)]
pub struct WantsToDropItem {
    pub dropper: EntityId,
    pub item: EntityId,
}

/// One additive, not-yet-applied contribution of harm against a target,
/// queued for a downstream resolution step.
#[derive(Clone, Copy, PartialEq, Eq, Structural, Debug)]
pub struct DamageContribution {
    pub target: EntityId,
    pub amount: i32,
}

} // verus!
