use dungeon_core::door::{
    Door, DoorAnimationType, DoorSignal, DoorState, DoorType, Position, TriggerPhase,
};
use dungeon_core::triggers::{
    door_events, find_door, find_sensor, handle_event, met_by_player, spent_projectile,
    CollisionRecord, DoorCommand, DoorEntity, DoorSensor, EventOutcome, PairMember, PlayerEntity,
};

const PLAYER: u64 = 1;

fn player_at(x: i64, y: i64) -> Option<PlayerEntity> {
    Some(PlayerEntity { entity: PLAYER, position: Position { x, y } })
}

fn event(phase: TriggerPhase, collider_1: u64, collider_2: u64) -> CollisionRecord {
    CollisionRecord { phase, collider_1, collider_2, removed: false, sensor: true }
}

fn door(entity: u64, door_type: DoorType, door_state: DoorState) -> DoorEntity {
    DoorEntity { entity, door: Door { door_type, door_state, grid_pos: 9 } }
}

fn sensor(entity: u64, associated_door: u64) -> DoorSensor {
    DoorSensor { entity, associated_door, position: Position { x: 0, y: 0 } }
}

#[test]
fn the_other_collider_is_the_one_that_met_the_player() {
    assert_eq!(met_by_player(PLAYER, event(TriggerPhase::Started, PLAYER, 7)), Some(7));
    assert_eq!(met_by_player(PLAYER, event(TriggerPhase::Started, 7, PLAYER)), Some(7));
    assert_eq!(met_by_player(PLAYER, event(TriggerPhase::Started, 7, 8)), None);
    assert_eq!(met_by_player(PLAYER, event(TriggerPhase::Started, PLAYER, PLAYER)), Some(PLAYER));
}

#[test]
fn entities_are_found_by_number() {
    let sensors = vec![sensor(10, 20), sensor(11, 21), sensor(10, 22)];
    assert_eq!(find_sensor(&sensors, 10), Some(0));
    assert_eq!(find_sensor(&sensors, 11), Some(1));
    assert_eq!(find_sensor(&sensors, 12), None);
    assert_eq!(find_sensor(&Vec::new(), 10), None);
    let doors = vec![door(20, DoorType::Top, DoorState::Locked), door(21, DoorType::Left, DoorState::Used)];
    assert_eq!(find_door(&doors, 21), Some(1));
    assert_eq!(find_door(&doors, 22), None);
}

#[test]
fn an_unlocked_door_is_used_through_its_trigger() {
    let sensors = vec![sensor(10, 20)];
    let mut doors = vec![door(20, DoorType::Bottom, DoorState::Unlocked)];
    let events = vec![event(TriggerPhase::Started, PLAYER, 10)];
    let commands = door_events(player_at(0, 5), &events, &sensors, &mut doors);
    let used = Door { door_type: DoorType::Bottom, door_state: DoorState::Used, grid_pos: 9 };
    assert_eq!(doors, vec![DoorEntity { entity: 20, door: used }]);
    assert_eq!(
        commands,
        vec![DoorCommand {
            entity: 20,
            signal: Some(DoorSignal::LevelSwitch(used)),
            animation: Some(DoorAnimationType::Open),
        }]
    );
}

#[test]
fn a_second_trigger_asks_for_no_second_switch() {
    let sensors = vec![sensor(10, 20)];
    let mut doors = vec![door(20, DoorType::Bottom, DoorState::Unlocked)];
    let events = vec![
        event(TriggerPhase::Stopped, 10, PLAYER),
        event(TriggerPhase::Stopped, PLAYER, 10),
        event(TriggerPhase::Stopped, PLAYER, 10),
    ];
    let commands = door_events(player_at(0, -5), &events, &sensors, &mut doors);
    assert_eq!(commands.len(), 3);
    assert!(matches!(commands[0].signal, Some(DoorSignal::LevelSwitch(_))));
    for later in &commands[1..] {
        assert_eq!(
            *later,
            DoorCommand { entity: 20, signal: None, animation: Some(DoorAnimationType::Close) }
        );
    }
    assert_eq!(doors[0].door.door_state, DoorState::Used);
}

#[test]
fn events_that_are_not_for_a_door_are_passed_over() {
    let sensors = vec![sensor(10, 20), sensor(11, 99)];
    let mut doors = vec![door(20, DoorType::Top, DoorState::Unlocked)];
    let events = vec![
        event(TriggerPhase::Started, 5, 10),
        event(TriggerPhase::Started, PLAYER, 77),
        event(TriggerPhase::Started, PLAYER, 11),
        event(TriggerPhase::Started, PLAYER, 10),
    ];
    let commands = door_events(player_at(0, 0), &events, &sensors, &mut doors);
    assert_eq!(commands.len(), 1);
    assert_eq!(commands[0].entity, 20);
    assert_eq!(doors[0].door.door_state, DoorState::Used);
}

#[test]
fn an_event_of_another_kind_is_passed_over_and_the_next_is_handled() {
    let sensors = vec![sensor(10, 20)];
    let mut removed = event(TriggerPhase::Started, PLAYER, 10);
    removed.removed = true;
    let mut solid = event(TriggerPhase::Started, PLAYER, 10);
    solid.sensor = false;
    let mut wall_hit = event(TriggerPhase::Started, 55, 66);
    wall_hit.sensor = false;
    let used = Door { door_type: DoorType::Top, door_state: DoorState::Used, grid_pos: 9 };
    for first in [removed, solid, wall_hit] {
        let mut doors = vec![door(20, DoorType::Top, DoorState::Unlocked)];
        let events = vec![first, event(TriggerPhase::Started, PLAYER, 10)];
        let commands = door_events(player_at(0, 0), &events, &sensors, &mut doors);
        assert_eq!(
            commands,
            vec![DoorCommand {
                entity: 20,
                signal: Some(DoorSignal::LevelSwitch(used)),
                animation: Some(DoorAnimationType::Open),
            }]
        );
        assert_eq!(doors[0].door, used);
        let mut alone = vec![door(20, DoorType::Top, DoorState::Unlocked)];
        assert!(door_events(player_at(0, 0), &vec![first], &sensors, &mut alone).is_empty());
        assert_eq!(alone[0].door.door_state, DoorState::Unlocked);
    }
}

#[test]
fn entering_the_trigger_of_an_open_door_keeps_no_later_event_back() {
    let sensors = vec![sensor(10, 20), sensor(11, 21), sensor(12, 22)];
    let mut doors = vec![
        door(20, DoorType::Top, DoorState::TemporaryOpen),
        door(21, DoorType::Left, DoorState::Unlocked),
        door(22, DoorType::Right, DoorState::Used),
    ];
    let events = vec![
        event(TriggerPhase::Started, PLAYER, 10),
        event(TriggerPhase::Started, PLAYER, 12),
        event(TriggerPhase::Started, PLAYER, 11),
    ];
    let commands = door_events(player_at(0, -5), &events, &sensors, &mut doors);
    assert_eq!(commands.len(), 1);
    assert_eq!(commands[0].entity, 21);
    assert!(matches!(commands[0].signal, Some(DoorSignal::LevelSwitch(_))));
    assert_eq!(doors[0].door.door_state, DoorState::TemporaryOpen);
    assert_eq!(doors[1].door.door_state, DoorState::Used);
    assert_eq!(doors[2].door.door_state, DoorState::Used);
}

#[test]
fn walking_through_an_open_door_locks_it_and_starts_the_level() {
    let sensors = vec![sensor(10, 20)];
    let mut doors = vec![door(20, DoorType::Top, DoorState::TemporaryOpen)];
    let events = vec![event(TriggerPhase::Stopped, PLAYER, 10)];
    let commands = door_events(player_at(0, -5), &events, &sensors, &mut doors);
    assert_eq!(
        commands,
        vec![DoorCommand {
            entity: 20,
            signal: Some(DoorSignal::LevelStarted),
            animation: Some(DoorAnimationType::Close),
        }]
    );
    assert_eq!(doors[0].door.door_state, DoorState::Locked);
    let again = door_events(player_at(0, -5), &events, &sensors, &mut doors);
    assert!(again.is_empty());
}

#[test]
fn without_a_player_nothing_happens() {
    let sensors = vec![sensor(10, 20)];
    let mut doors = vec![door(20, DoorType::Top, DoorState::Unlocked)];
    let events = vec![event(TriggerPhase::Started, PLAYER, 10)];
    let commands = door_events(None, &events, &sensors, &mut doors);
    assert!(commands.is_empty());
    assert_eq!(doors[0].door.door_state, DoorState::Unlocked);
}

#[test]
fn a_projectile_is_spent_on_the_level() {
    assert_eq!(spent_projectile(true, false, false, true), Some(PairMember::First));
    assert_eq!(spent_projectile(false, true, true, false), Some(PairMember::Second));
    assert_eq!(spent_projectile(true, false, false, false), None);
    assert_eq!(spent_projectile(true, true, true, false), None);
    assert_eq!(spent_projectile(false, false, true, false), None);
    assert_eq!(spent_projectile(false, true, false, true), None);
    assert_eq!(spent_projectile(true, true, true, true), Some(PairMember::First));
}

#[test]
fn one_event_comes_to_a_skip_or_a_reaction() {
    let sensors = vec![sensor(10, 20), sensor(11, 21), sensor(12, 22)];
    let doors = vec![
        door(20, DoorType::Top, DoorState::Locked),
        door(21, DoorType::Top, DoorState::Unlocked),
        door(22, DoorType::Top, DoorState::Used),
    ];
    let player = player_at(0, 5).unwrap();
    assert_eq!(
        handle_event(player, event(TriggerPhase::Started, PLAYER, 10), &sensors, &doors),
        EventOutcome::Skip
    );
    assert_eq!(
        handle_event(player, event(TriggerPhase::Started, PLAYER, 12), &sensors, &doors),
        EventOutcome::Skip
    );
    let mut removed = event(TriggerPhase::Started, PLAYER, 11);
    removed.removed = true;
    assert_eq!(handle_event(player, removed, &sensors, &doors), EventOutcome::Skip);
    let mut solid = event(TriggerPhase::Started, PLAYER, 11);
    solid.sensor = false;
    assert_eq!(handle_event(player, solid, &sensors, &doors), EventOutcome::Skip);
    let used = Door { door_type: DoorType::Top, door_state: DoorState::Used, grid_pos: 9 };
    assert_eq!(
        handle_event(player, event(TriggerPhase::Started, 11, PLAYER), &sensors, &doors),
        EventOutcome::React(
            1,
            used,
            DoorCommand {
                entity: 21,
                signal: Some(DoorSignal::LevelSwitch(used)),
                animation: Some(DoorAnimationType::Open),
            }
        )
    );
    assert_eq!(
        handle_event(player, event(TriggerPhase::Stopped, PLAYER, 12), &sensors, &doors),
        EventOutcome::React(
            2,
            used,
            DoorCommand { entity: 22, signal: None, animation: Some(DoorAnimationType::Close) }
        )
    );
}
