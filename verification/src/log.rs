//! The log collaborator: an append-only ordered sequence of entries,
//! consumed by a presentation layer. This core only appends, never reads or
//! reorders. Entries are structured; turning them into display strings is
//! presentation work and stays outside the core.

use vstd::prelude::*;

use crate::components::EntityId;

verus! {

/// One appended log record. Entries name entities by identifier; the
/// presentation layer resolves them to display names.
#[derive(Clone, Copy, PartialEq, Eq, Structural, Debug)]
pub enum LogEntry {
    /// The player picked `item` up from the ground.
    ItemPickedUp { item: EntityId },
    /// The player dropped `item` at its own position.
    ItemDropped { item: EntityId },
    /// The player used `item` and healed one target by `amount` hit points.
    Healed { item: EntityId, amount: i32 },
    /// The player used `item` on `target`, enqueueing `amount` damage.
    DamageInflicted { item: EntityId, target: EntityId, amount: i32 },
    /// The player used `item` on `target`, confusing it.
    ConfusionInflicted { item: EntityId, target: EntityId },
}

/// The append-only game log.
pub struct GameLog {
    pub entries: Vec<LogEntry>,
}

/// Why processing of one intent was aborted. No error is retried within a
/// tick and none is silently swallowed: a failed intent leaves the world
/// unchanged, and the rest of the tick goes on.
#[derive(Clone, Copy, PartialEq, Eq, Structural, Debug)]
pub enum IntentError {
    /// The intent references an entity lacking a component the operation
    /// needs (a name for a log line, a position for a dropper): upstream
    /// data corruption, fatal to this one intent.
    MissingRequiredComponent,
    /// The intent would attach a component to an entity that logically
    /// cannot hold it (picking up an already-carried item, dropping an item
    /// already on the ground).
    InsertionConflict,
}

} // verus!
