//! Item-use resolution for a turn-based tactical simulation.
//!
//! A player or non-player actor declares "use item X, optionally aimed at
//! point P"; this library determines who is affected, applies every effect
//! the item carries (healing immediately, damage by enqueueing, confusion by
//! staging then committing), and decides whether the item is consumed.
//! Pickup and drop transfers over the same data model are included.

use vstd::prelude::*;

pub mod components;
pub mod inventory;
pub mod item_use;
pub mod laws;
pub mod log;
pub mod map;
pub mod seq_util;
pub mod state;
pub mod targeting;

pub use components::EntityId;

verus! {

/// Clamp a hit-point total at a maximum: the result of healing `amount`
/// from `hp` under cap `max_hp`.
pub fn healed_hp(hp: i32, max_hp: i32, amount: i32) -> (r: i32)
    requires
        0 <= hp <= max_hp,
        0 <= amount,
    ensures
        r == vstd::math::min(max_hp as int, hp + amount as int),
{
    if hp > max_hp - amount {
        max_hp
    } else {
        hp + amount
    }
}

} // verus!
