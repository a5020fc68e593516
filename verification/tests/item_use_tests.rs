use inventory_core::components::{
    AreaOfEffect, CombatStats, Confusion, InflictsDamage, Point, ProvidesHealing, WantsToUseItem,
};
use inventory_core::item_use::ItemUseSystem;
use inventory_core::log::{IntentError, LogEntry};
use inventory_core::map::GameMap;
use inventory_core::state::WorldState;
use inventory_core::targeting::resolve_targets;

const PLAYER: u64 = 1;

fn empty_map(width: i32, height: i32) -> GameMap {
    GameMap { width, height, tile_content: vec![Vec::new(); (width * height) as usize] }
}

fn place(map: &mut GameMap, x: i32, y: i32, entity: u64) {
    let idx = (y * map.width + x) as usize;
    map.tile_content[idx].push(entity);
}

fn run_use(state: &mut WorldState, map: &GameMap, blasts: &Vec<Vec<Point>>) -> Vec<IntentError> {
    let mut system = ItemUseSystem {};
    system.run(state, map, blasts)
}

#[test]
fn healing_cap_applies_and_caps() {
    let map = empty_map(5, 5);
    let mut state = WorldState::new(PLAYER);
    state.stats.insert(PLAYER, CombatStats { hp: 10, max_hp: 20 });
    state.healing.insert(2, ProvidesHealing { heal_amount: 8 });
    state.names.insert(2, String::from("Health Potion"));
    state.use_intents.push(WantsToUseItem { user: PLAYER, item: 2, target: None });

    let errs = run_use(&mut state, &map, &vec![Vec::new()]);
    assert!(errs.is_empty());
    assert_eq!(state.stats[&PLAYER], CombatStats { hp: 18, max_hp: 20 });
    assert_eq!(state.log.entries, vec![LogEntry::Healed { item: 2, amount: 8 }]);

    // A second use overshoots and is capped at the maximum. Clearing the
    // spent intent is the creator's duty, so the test does it here.
    state.use_intents.clear();
    state.use_intents.push(WantsToUseItem { user: PLAYER, item: 2, target: None });
    let errs = run_use(&mut state, &map, &vec![Vec::new()]);
    assert!(errs.is_empty());
    assert_eq!(state.stats[&PLAYER], CombatStats { hp: 20, max_hp: 20 });

    // Using it again at full health changes nothing.
    state.use_intents.clear();
    state.use_intents.push(WantsToUseItem { user: PLAYER, item: 2, target: None });
    let errs = run_use(&mut state, &map, &vec![Vec::new()]);
    assert!(errs.is_empty());
    assert_eq!(state.stats[&PLAYER], CombatStats { hp: 20, max_hp: 20 });
}

#[test]
fn empty_tile_damage_noop_and_not_consumed() {
    let map = empty_map(5, 5);
    let mut state = WorldState::new(PLAYER);
    state.inflicts_damage.insert(2, InflictsDamage { damage: 5 });
    state.consumables.insert(2);
    state.use_intents.push(WantsToUseItem {
        user: PLAYER,
        item: 2,
        target: Some(Point { x: 2, y: 2 }),
    });

    let errs = run_use(&mut state, &map, &vec![Vec::new()]);
    assert!(errs.is_empty());
    assert!(state.damage_queue.is_empty());
    assert!(state.consumables.contains(&2));
    assert!(state.inflicts_damage.contains_key(&2));
    assert!(state.log.entries.is_empty());
}

#[test]
fn single_tile_damage_hits_every_occupant() {
    let mut map = empty_map(5, 5);
    place(&mut map, 2, 2, 10);
    place(&mut map, 2, 2, 11);
    let mut state = WorldState::new(PLAYER);
    state.inflicts_damage.insert(2, InflictsDamage { damage: 5 });
    state.consumables.insert(2);
    state.names.insert(2, String::from("Dart"));
    state.names.insert(10, String::from("Rat"));
    state.names.insert(11, String::from("Bat"));
    state.use_intents.push(WantsToUseItem {
        user: PLAYER,
        item: 2,
        target: Some(Point { x: 2, y: 2 }),
    });

    let errs = run_use(&mut state, &map, &vec![Vec::new()]);
    assert!(errs.is_empty());
    assert_eq!(state.damage_queue.len(), 2);
    assert_eq!(state.damage_queue[0].target, 10);
    assert_eq!(state.damage_queue[0].amount, 5);
    assert_eq!(state.damage_queue[1].target, 11);
    assert_eq!(state.damage_queue[1].amount, 5);
    // The item hit something, so the consumable is deleted.
    assert!(!state.consumables.contains(&2));
    assert!(!state.inflicts_damage.contains_key(&2));
    assert_eq!(
        state.log.entries,
        vec![
            LogEntry::DamageInflicted { item: 2, target: 10, amount: 5 },
            LogEntry::DamageInflicted { item: 2, target: 11, amount: 5 },
        ]
    );
}

#[test]
fn aoe_fan_out_hits_in_radius_only() {
    let mut map = empty_map(7, 7);
    place(&mut map, 2, 2, 10);
    place(&mut map, 3, 3, 11);
    place(&mut map, 5, 5, 12);
    let mut state = WorldState::new(PLAYER);
    state.inflicts_damage.insert(2, InflictsDamage { damage: 3 });
    state.aoe.insert(2, AreaOfEffect { radius: 2 });
    state.consumables.insert(2);
    state.names.insert(2, String::from("Fireball Scroll"));
    state.names.insert(10, String::from("Rat"));
    state.names.insert(11, String::from("Bat"));
    state.use_intents.push(WantsToUseItem {
        user: PLAYER,
        item: 2,
        target: Some(Point { x: 3, y: 2 }),
    });
    // The visibility query found these points around the aim; the third
    // monster's tile is outside the radius.
    let blasts = vec![vec![
        Point { x: 2, y: 2 },
        Point { x: 3, y: 2 },
        Point { x: 3, y: 3 },
        Point { x: 4, y: 2 },
    ]];

    let errs = run_use(&mut state, &map, &blasts);
    assert!(errs.is_empty());
    assert_eq!(state.damage_queue.len(), 2);
    assert_eq!(state.damage_queue[0].target, 10);
    assert_eq!(state.damage_queue[0].amount, 3);
    assert_eq!(state.damage_queue[1].target, 11);
    assert_eq!(state.damage_queue[1].amount, 3);
    assert!(!state.consumables.contains(&2));
}

#[test]
fn aoe_never_reaches_border_tiles() {
    let mut map = empty_map(5, 5);
    place(&mut map, 0, 2, 10);
    place(&mut map, 2, 2, 11);
    let mut state = WorldState::new(PLAYER);
    state.inflicts_damage.insert(2, InflictsDamage { damage: 4 });
    state.aoe.insert(2, AreaOfEffect { radius: 3 });
    state.names.insert(2, String::from("Fireball Scroll"));
    state.names.insert(11, String::from("Bat"));
    state.use_intents.push(WantsToUseItem {
        user: PLAYER,
        item: 2,
        target: Some(Point { x: 1, y: 2 }),
    });
    // The border tile is visible but must never be affected.
    let blasts = vec![vec![Point { x: 0, y: 2 }, Point { x: 2, y: 2 }]];

    let errs = run_use(&mut state, &map, &blasts);
    assert!(errs.is_empty());
    assert_eq!(state.damage_queue.len(), 1);
    assert_eq!(state.damage_queue[0].target, 11);
}

#[test]
fn confusion_overwrites_existing_duration() {
    let mut map = empty_map(5, 5);
    place(&mut map, 2, 2, 10);
    let mut state = WorldState::new(PLAYER);
    // A non-player actor uses the scroll, so nothing is logged.
    state.confusion.insert(2, Confusion { turns: 4 });
    state.confusion.insert(10, Confusion { turns: 2 });
    state.use_intents.push(WantsToUseItem {
        user: 20,
        item: 2,
        target: Some(Point { x: 2, y: 2 }),
    });

    let errs = run_use(&mut state, &map, &vec![Vec::new()]);
    assert!(errs.is_empty());
    // Last writer wins: the durations are not summed.
    assert_eq!(state.confusion[&10], Confusion { turns: 4 });
    assert!(state.log.entries.is_empty());
}

#[test]
fn pure_healing_consumable_always_deleted() {
    let map = empty_map(5, 5);
    let mut state = WorldState::new(PLAYER);
    state.stats.insert(20, CombatStats { hp: 5, max_hp: 9 });
    state.healing.insert(2, ProvidesHealing { heal_amount: 10 });
    state.consumables.insert(2);
    state.use_intents.push(WantsToUseItem { user: 20, item: 2, target: None });

    let errs = run_use(&mut state, &map, &vec![Vec::new()]);
    assert!(errs.is_empty());
    assert_eq!(state.stats[&20], CombatStats { hp: 9, max_hp: 9 });
    assert!(!state.healing.contains_key(&2));
    assert!(!state.consumables.contains(&2));
}

#[test]
fn self_use_heals_requester_even_with_aoe_modifier() {
    let map = empty_map(5, 5);
    let mut state = WorldState::new(PLAYER);
    state.stats.insert(20, CombatStats { hp: 1, max_hp: 6 });
    state.healing.insert(2, ProvidesHealing { heal_amount: 2 });
    state.aoe.insert(2, AreaOfEffect { radius: 3 });
    let intent = WantsToUseItem { user: 20, item: 2, target: None };

    let targets = resolve_targets(&state, &map, intent, &Vec::new());
    assert_eq!(targets, vec![20]);

    state.use_intents.push(intent);
    let errs = run_use(&mut state, &map, &vec![Vec::new()]);
    assert!(errs.is_empty());
    assert_eq!(state.stats[&20], CombatStats { hp: 3, max_hp: 6 });
}

#[test]
fn player_use_without_target_name_aborts_intent() {
    let mut map = empty_map(5, 5);
    place(&mut map, 2, 2, 10);
    let mut state = WorldState::new(PLAYER);
    state.inflicts_damage.insert(2, InflictsDamage { damage: 5 });
    state.consumables.insert(2);
    state.names.insert(2, String::from("Dart"));
    // The target has no name, so the player's announcement cannot be formed.
    state.use_intents.push(WantsToUseItem {
        user: PLAYER,
        item: 2,
        target: Some(Point { x: 2, y: 2 }),
    });

    let errs = run_use(&mut state, &map, &vec![Vec::new()]);
    assert_eq!(errs, vec![IntentError::MissingRequiredComponent]);
    // The intent aborted before any effect applied.
    assert!(state.damage_queue.is_empty());
    assert!(state.consumables.contains(&2));
    assert!(state.log.entries.is_empty());
}

#[test]
fn two_intents_accumulate_damage_on_same_target() {
    let mut map = empty_map(5, 5);
    place(&mut map, 2, 2, 10);
    let mut state = WorldState::new(PLAYER);
    state.inflicts_damage.insert(2, InflictsDamage { damage: 5 });
    state.inflicts_damage.insert(3, InflictsDamage { damage: 7 });
    let aim = Some(Point { x: 2, y: 2 });
    state.use_intents.push(WantsToUseItem { user: 20, item: 2, target: aim });
    state.use_intents.push(WantsToUseItem { user: 21, item: 3, target: aim });

    let errs = run_use(&mut state, &map, &vec![Vec::new(), Vec::new()]);
    assert!(errs.is_empty());
    // Both contributions are queued: accumulation, never overwrite.
    assert_eq!(state.damage_queue.len(), 2);
    assert_eq!(state.damage_queue[0].amount, 5);
    assert_eq!(state.damage_queue[1].amount, 7);
    assert_eq!(state.damage_queue[0].target, 10);
    assert_eq!(state.damage_queue[1].target, 10);
}

#[test]
fn use_intents_are_not_cleared_by_the_pass() {
    let map = empty_map(5, 5);
    let mut state = WorldState::new(PLAYER);
    state.stats.insert(20, CombatStats { hp: 5, max_hp: 9 });
    state.healing.insert(2, ProvidesHealing { heal_amount: 1 });
    state.use_intents.push(WantsToUseItem { user: 20, item: 2, target: None });

    run_use(&mut state, &map, &vec![Vec::new()]);
    // Clearing use intents is owed by their creator, not by this core.
    assert_eq!(state.use_intents.len(), 1);
}
