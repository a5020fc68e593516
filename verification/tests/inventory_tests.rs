use inventory_core::components::{Location, Point, WantsToDropItem, WantsToPickupItem};
use inventory_core::inventory::{ItemCollectionSystem, ItemDropSystem};
use inventory_core::log::{IntentError, LogEntry};
use inventory_core::state::WorldState;

const PLAYER: u64 = 1;

fn run_pickup(state: &mut WorldState) -> Vec<IntentError> {
    let mut system = ItemCollectionSystem {};
    system.run(state)
}

fn run_drop(state: &mut WorldState) -> Vec<IntentError> {
    let mut system = ItemDropSystem {};
    system.run(state)
}

#[test]
fn pickup_drop_round_trip() {
    let mut state = WorldState::new(PLAYER);
    state.locations.insert(PLAYER, Location::OnGround(Point { x: 5, y: 5 }));
    state.locations.insert(2, Location::OnGround(Point { x: 3, y: 3 }));
    state.names.insert(2, String::from("Health Potion"));

    state.pickup_intents.push(WantsToPickupItem { collected_by: PLAYER, item: 2 });
    let errs = run_pickup(&mut state);
    assert!(errs.is_empty());
    // While carried the item has no position: both states live in one
    // owning relation, so it can never hold both at once.
    assert_eq!(state.locations[&2], Location::Carried(PLAYER));
    assert!(state.pickup_intents.is_empty());

    state.drop_intents.push(WantsToDropItem { dropper: PLAYER, item: 2 });
    let errs = run_drop(&mut state);
    assert!(errs.is_empty());
    assert_eq!(state.locations[&2], Location::OnGround(Point { x: 5, y: 5 }));
    assert!(state.drop_intents.is_empty());

    assert_eq!(
        state.log.entries,
        vec![LogEntry::ItemPickedUp { item: 2 }, LogEntry::ItemDropped { item: 2 }]
    );
}

#[test]
fn nonplayer_pickup_logs_nothing_and_needs_no_name() {
    let mut state = WorldState::new(PLAYER);
    state.locations.insert(2, Location::OnGround(Point { x: 3, y: 3 }));
    state.pickup_intents.push(WantsToPickupItem { collected_by: 20, item: 2 });

    let errs = run_pickup(&mut state);
    assert!(errs.is_empty());
    assert_eq!(state.locations[&2], Location::Carried(20));
    assert!(state.log.entries.is_empty());
}

#[test]
fn pickup_of_carried_item_is_a_conflict() {
    let mut state = WorldState::new(PLAYER);
    state.locations.insert(2, Location::Carried(20));
    state.names.insert(2, String::from("Dagger"));
    state.pickup_intents.push(WantsToPickupItem { collected_by: PLAYER, item: 2 });

    let errs = run_pickup(&mut state);
    assert_eq!(errs, vec![IntentError::InsertionConflict]);
    // The failed intent left the world unchanged, and the pass still
    // cleared the intent set.
    assert_eq!(state.locations[&2], Location::Carried(20));
    assert!(state.log.entries.is_empty());
    assert!(state.pickup_intents.is_empty());
}

#[test]
fn pickup_of_placeless_item_is_missing_component() {
    let mut state = WorldState::new(PLAYER);
    state.pickup_intents.push(WantsToPickupItem { collected_by: PLAYER, item: 2 });

    let errs = run_pickup(&mut state);
    assert_eq!(errs, vec![IntentError::MissingRequiredComponent]);
}

#[test]
fn player_pickup_of_unnamed_item_is_missing_component() {
    let mut state = WorldState::new(PLAYER);
    state.locations.insert(2, Location::OnGround(Point { x: 3, y: 3 }));
    state.pickup_intents.push(WantsToPickupItem { collected_by: PLAYER, item: 2 });

    let errs = run_pickup(&mut state);
    assert_eq!(errs, vec![IntentError::MissingRequiredComponent]);
    // The announcement could not be formed, so nothing moved.
    assert_eq!(state.locations[&2], Location::OnGround(Point { x: 3, y: 3 }));
}

#[test]
fn drop_by_placeless_dropper_is_missing_component() {
    let mut state = WorldState::new(PLAYER);
    state.locations.insert(2, Location::Carried(20));
    state.drop_intents.push(WantsToDropItem { dropper: 20, item: 2 });

    let errs = run_drop(&mut state);
    assert_eq!(errs, vec![IntentError::MissingRequiredComponent]);
    assert_eq!(state.locations[&2], Location::Carried(20));
}

#[test]
fn drop_of_grounded_item_is_a_conflict() {
    let mut state = WorldState::new(PLAYER);
    state.locations.insert(20, Location::OnGround(Point { x: 4, y: 4 }));
    state.locations.insert(2, Location::OnGround(Point { x: 3, y: 3 }));
    state.drop_intents.push(WantsToDropItem { dropper: 20, item: 2 });

    let errs = run_drop(&mut state);
    assert_eq!(errs, vec![IntentError::InsertionConflict]);
    assert_eq!(state.locations[&2], Location::OnGround(Point { x: 3, y: 3 }));
}

#[test]
fn one_failed_pickup_does_not_stop_the_pass() {
    let mut state = WorldState::new(PLAYER);
    state.locations.insert(2, Location::Carried(30));
    state.locations.insert(3, Location::OnGround(Point { x: 1, y: 1 }));
    state.pickup_intents.push(WantsToPickupItem { collected_by: 20, item: 2 });
    state.pickup_intents.push(WantsToPickupItem { collected_by: 20, item: 3 });

    let errs = run_pickup(&mut state);
    assert_eq!(errs, vec![IntentError::InsertionConflict]);
    assert_eq!(state.locations[&3], Location::Carried(20));
    assert!(state.pickup_intents.is_empty());
}
