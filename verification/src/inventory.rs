//! Inventory transfer: moving an item entity between "lies on the ground at
//! a position" and "is carried by an actor". The two states are one owning
//! relation (`Location`), so an item can never hold both at once, and never
//! neither while it exists.

use vstd::prelude::*;

use crate::components::{EntityId, Location, WantsToDropItem, WantsToPickupItem};
use crate::log::{IntentError, LogEntry};
use crate::seq_util::lemma_take_succ;
use crate::state::{WorldModel, WorldState};

verus! {

broadcast use vstd::std_specs::hash::group_hash_axioms;

/// Why a pickup aborts, if it does: the item must lie on the ground (an
/// already-carried item cannot gain a second carrier), and announcing the
/// player's pickup needs the item's name.
pub open spec fn pickup_error(pre: WorldModel, intent: WantsToPickupItem) -> Option<IntentError> {
    if !pre.locations.contains_key(intent.item) {
        Some(IntentError::MissingRequiredComponent)
    } else if !(pre.locations[intent.item] is OnGround) {
        Some(IntentError::InsertionConflict)
    } else if intent.collected_by == pre.player && !pre.names.contains_key(intent.item) {
        Some(IntentError::MissingRequiredComponent)
    } else {
        None
    }
}

/// One error-free pickup: the item stops lying on the ground and becomes
/// carried by the collector; the player's pickups are announced.
pub open spec fn pickup_step(pre: WorldModel, intent: WantsToPickupItem) -> WorldModel {
    WorldModel {
        locations: pre.locations.insert(intent.item, Location::Carried(intent.collected_by)),
        log: if intent.collected_by == pre.player {
            pre.log.push(LogEntry::ItemPickedUp { item: intent.item })
        } else {
            pre.log
        },
        ..pre
    }
}

/// One pickup intent, abandoned untouched on an error.
pub open spec fn pickup_step_checked(pre: WorldModel, intent: WantsToPickupItem) -> WorldModel {
    if pickup_error(pre, intent) is None {
        pickup_step(pre, intent)
    } else {
        pre
    }
}

/// The world after every pickup intent, in order.
pub open spec fn pickup_pass(pre: WorldModel, intents: Seq<WantsToPickupItem>) -> WorldModel
    decreases intents.len(),
{
    if intents.len() == 0 {
        pre
    } else {
        pickup_step_checked(pickup_pass(pre, intents.drop_last()), intents.last())
    }
}

/// The errors the pickup pass reports, in intent order.
pub open spec fn pickup_pass_errors(
    pre: WorldModel,
    intents: Seq<WantsToPickupItem>,
) -> Seq<IntentError>
    decreases intents.len(),
{
    if intents.len() == 0 {
        Seq::empty()
    } else {
        pickup_pass_errors(pre, intents.drop_last()) + (match pickup_error(
            pickup_pass(pre, intents.drop_last()),
            intents.last(),
        ) {
            Some(e) => seq![e],
            None => Seq::empty(),
        })
    }
}

/// Why a drop aborts, if it does: the dropper must stand somewhere, the item
/// must currently be carried (an item on the ground cannot gain a second
/// position), and announcing the player's drop needs the item's name.
pub open spec fn drop_error(pre: WorldModel, intent: WantsToDropItem) -> Option<IntentError> {
    if !pre.locations.contains_key(intent.dropper) {
        Some(IntentError::MissingRequiredComponent)
    } else if !(pre.locations[intent.dropper] is OnGround) {
        Some(IntentError::MissingRequiredComponent)
    } else if !pre.locations.contains_key(intent.item) {
        Some(IntentError::MissingRequiredComponent)
    } else if !(pre.locations[intent.item] is Carried) {
        Some(IntentError::InsertionConflict)
    } else if intent.dropper == pre.player && !pre.names.contains_key(intent.item) {
        Some(IntentError::MissingRequiredComponent)
    } else {
        None
    }
}

/// One error-free drop: the item stops being carried and lies on the ground
/// at the dropper's own position; the player's drops are announced.
pub open spec fn drop_step(pre: WorldModel, intent: WantsToDropItem) -> WorldModel {
    WorldModel {
        locations: pre.locations.insert(intent.item, pre.locations[intent.dropper]),
        log: if intent.dropper == pre.player {
            pre.log.push(LogEntry::ItemDropped { item: intent.item })
        } else {
            pre.log
        },
        ..pre
    }
}

/// One drop intent, abandoned untouched on an error.
pub open spec fn drop_step_checked(pre: WorldModel, intent: WantsToDropItem) -> WorldModel {
    if drop_error(pre, intent) is None {
        drop_step(pre, intent)
    } else {
        pre
    }
}

/// The world after every drop intent, in order.
pub open spec fn drop_pass(pre: WorldModel, intents: Seq<WantsToDropItem>) -> WorldModel
    decreases intents.len(),
{
    if intents.len() == 0 {
        pre
    } else {
        drop_step_checked(drop_pass(pre, intents.drop_last()), intents.last())
    }
}

/// The errors the drop pass reports, in intent order.
pub open spec fn drop_pass_errors(
    pre: WorldModel,
    intents: Seq<WantsToDropItem>,
) -> Seq<IntentError>
    decreases intents.len(),
{
    if intents.len() == 0 {
        Seq::empty()
    } else {
        drop_pass_errors(pre, intents.drop_last()) + (match drop_error(
            drop_pass(pre, intents.drop_last()),
            intents.last(),
        ) {
            Some(e) => seq![e],
            None => Seq::empty(),
        })
    }
}

/// A pickup pass only moves items and appends to the log.
pub proof fn lemma_pickup_pass_frame(pre: WorldModel, intents: Seq<WantsToPickupItem>)
    ensures
        pickup_pass(pre, intents) == (WorldModel {
            locations: pickup_pass(pre, intents).locations,
            log: pickup_pass(pre, intents).log,
            ..pre
        }),
    decreases intents.len(),
{
    if intents.len() > 0 {
        lemma_pickup_pass_frame(pre, intents.drop_last());
    }
}

/// A drop pass only moves items and appends to the log.
pub proof fn lemma_drop_pass_frame(pre: WorldModel, intents: Seq<WantsToDropItem>)
    ensures
        drop_pass(pre, intents) == (WorldModel {
            locations: drop_pass(pre, intents).locations,
            log: drop_pass(pre, intents).log,
            ..pre
        }),
    decreases intents.len(),
{
    if intents.len() > 0 {
        lemma_drop_pass_frame(pre, intents.drop_last());
    }
}

/// Process one pickup intent. On an error the world is left exactly as it
/// was.
pub fn pickup_item(state: &mut WorldState, intent: WantsToPickupItem) -> (r: Result<
    (),
    IntentError,
>)
    ensures
        match r {
            Ok(()) => pickup_error(old(state)@, intent) is None && final(state)@ == pickup_step(
                old(state)@,
                intent,
            ),
            Err(e) => pickup_error(old(state)@, intent) == Some(e) && final(state)@ == old(
                state,
            )@,
        },
{
    let ghost pre = state@;
    let loc: Option<Location> = match state.locations.get(&intent.item) {
        Some(l) => Some(*l),
        None => None,
    };
    match loc {
        None => {
            return Err(IntentError::MissingRequiredComponent);
        },
        Some(Location::Carried(_)) => {
            return Err(IntentError::InsertionConflict);
        },
        Some(Location::OnGround(_)) => {},
    }
    if intent.collected_by == state.player && !state.names.contains_key(&intent.item) {
        return Err(IntentError::MissingRequiredComponent);
    }
    state.locations.insert(intent.item, Location::Carried(intent.collected_by));
    if intent.collected_by == state.player {
        state.log.entries.push(LogEntry::ItemPickedUp { item: intent.item });
    }
    proof {
        assert(state@ =~= pickup_step(pre, intent));
    }
    Ok(())
}

/// Process one drop intent. On an error the world is left exactly as it
/// was.
pub fn drop_item(state: &mut WorldState, intent: WantsToDropItem) -> (r: Result<(), IntentError>)
    ensures
        match r {
            Ok(()) => drop_error(old(state)@, intent) is None && final(state)@ == drop_step(
                old(state)@,
                intent,
            ),
            Err(e) => drop_error(old(state)@, intent) == Some(e) && final(state)@ == old(state)@,
        },
{
    let ghost pre = state@;
    let dropper_loc: Option<Location> = match state.locations.get(&intent.dropper) {
        Some(l) => Some(*l),
        None => None,
    };
    let dropper_pos = match dropper_loc {
        Some(Location::OnGround(p)) => p,
        _ => {
            return Err(IntentError::MissingRequiredComponent);
        },
    };
    let item_loc: Option<Location> = match state.locations.get(&intent.item) {
        Some(l) => Some(*l),
        None => None,
    };
    match item_loc {
        None => {
            return Err(IntentError::MissingRequiredComponent);
        },
        Some(Location::OnGround(_)) => {
            return Err(IntentError::InsertionConflict);
        },
        Some(Location::Carried(_)) => {},
    }
    if intent.dropper == state.player && !state.names.contains_key(&intent.item) {
        return Err(IntentError::MissingRequiredComponent);
    }
    state.locations.insert(intent.item, Location::OnGround(dropper_pos));
    if intent.dropper == state.player {
        state.log.entries.push(LogEntry::ItemDropped { item: intent.item });
    }
    proof {
        assert(state@ =~= drop_step(pre, intent));
    }
    Ok(())
}

/// The pickup pass: one run per tick over the whole pickup-intent set.
pub struct ItemCollectionSystem {}

impl ItemCollectionSystem {
    /// Process every pickup intent in order, then clear the intent set
    /// entirely. A failed intent leaves the world unchanged and is reported;
    /// the pass goes on.
    pub fn run(&mut self, state: &mut WorldState) -> (errs: Vec<IntentError>)
        ensures
            final(state)@ == (WorldModel {
                pickup_intents: Seq::empty(),
                ..pickup_pass(old(state)@, old(state)@.pickup_intents)
            }),
            errs@ == pickup_pass_errors(old(state)@, old(state)@.pickup_intents),
            old(state)@.wf() ==> final(state)@.wf(),
    {
        let ghost pre0 = old(state)@;
        let ghost intents0 = pre0.pickup_intents;
        let mut errs: Vec<IntentError> = Vec::new();
        let n = state.pickup_intents.len();
        let mut i: usize = 0;
        while i < n
            invariant
                n == intents0.len(),
                i <= n,
                state@ == pickup_pass(pre0, intents0.take(i as int)),
                state@.pickup_intents == intents0,
                errs@ == pickup_pass_errors(pre0, intents0.take(i as int)),
            decreases n - i,
        {
            let intent = state.pickup_intents[i];
            proof {
                lemma_take_succ(intents0, i as int);
                lemma_pickup_pass_frame(pre0, intents0.take(i as int));
            }
            let r = pickup_item(state, intent);
            if let Err(e) = r {
                errs.push(e);
                proof {
                    assert(pickup_pass_errors(pre0, intents0.take(i as int)) + seq![e]
                        =~= pickup_pass_errors(pre0, intents0.take(i as int + 1)));
                }
            } else {
                proof {
                    assert(errs@ + Seq::<IntentError>::empty() =~= errs@);
                    assert(errs@ =~= pickup_pass_errors(pre0, intents0.take(i as int + 1)));
                }
            }
            proof {
                lemma_pickup_pass_frame(pre0, intents0.take(i as int + 1));
            }
            i += 1;
        }
        state.pickup_intents.clear();
        proof {
            assert(intents0.take(n as int) =~= intents0);
            lemma_pickup_pass_frame(pre0, intents0);
            assert(state@ =~= (WorldModel {
                pickup_intents: Seq::empty(),
                ..pickup_pass(pre0, intents0)
            }));
        }
        errs
    }
}

/// The drop pass: one run per tick over the whole drop-intent set.
pub struct ItemDropSystem {}

impl ItemDropSystem {
    /// Process every drop intent in order, then clear the intent set
    /// entirely. A failed intent leaves the world unchanged and is reported;
    /// the pass goes on.
    pub fn run(&mut self, state: &mut WorldState) -> (errs: Vec<IntentError>)
        ensures
            final(state)@ == (WorldModel {
                drop_intents: Seq::empty(),
                ..drop_pass(old(state)@, old(state)@.drop_intents)
            }),
            errs@ == drop_pass_errors(old(state)@, old(state)@.drop_intents),
            old(state)@.wf() ==> final(state)@.wf(),
    {
        let ghost pre0 = old(state)@;
        let ghost intents0 = pre0.drop_intents;
        let mut errs: Vec<IntentError> = Vec::new();
        let n = state.drop_intents.len();
        let mut i: usize = 0;
        while i < n
            invariant
                n == intents0.len(),
                i <= n,
                state@ == drop_pass(pre0, intents0.take(i as int)),
                state@.drop_intents == intents0,
                errs@ == drop_pass_errors(pre0, intents0.take(i as int)),
            decreases n - i,
        {
            let intent = state.drop_intents[i];
            proof {
                lemma_take_succ(intents0, i as int);
                lemma_drop_pass_frame(pre0, intents0.take(i as int));
            }
            let r = drop_item(state, intent);
            if let Err(e) = r {
                errs.push(e);
                proof {
                    assert(drop_pass_errors(pre0, intents0.take(i as int)) + seq![e]
                        =~= drop_pass_errors(pre0, intents0.take(i as int + 1)));
                }
            } else {
                proof {
                    assert(errs@ + Seq::<IntentError>::empty() =~= errs@);
                    assert(errs@ =~= drop_pass_errors(pre0, intents0.take(i as int + 1)));
                }
            }
            proof {
                lemma_drop_pass_frame(pre0, intents0.take(i as int + 1));
            }
            i += 1;
        }
        state.drop_intents.clear();
        proof {
            assert(intents0.take(n as int) =~= intents0);
            lemma_drop_pass_frame(pre0, intents0);
            assert(state@ =~= (WorldModel {
                drop_intents: Seq::empty(),
                ..drop_pass(pre0, intents0)
            }));
        }
        errs
    }
}

} // verus!
