use dungeon_core::animation::animation_tick;
use dungeon_core::assembly::SpawnKind;
use dungeon_core::config::GRID_SIZE;
use dungeon_core::door::{
    level_finished, Door, DoorAnimationType, DoorSignal, DoorState, DoorType, Position, TriggerPhase,
};
use dungeon_core::generation::generate_normal_level;
use dungeon_core::grid::{CellType, Grid};
use dungeon_core::level::{LevelType, Translation};
use dungeon_core::session::{level_delete_old, level_progress, level_switch, LevelInfo};
use dungeon_core::triggers::{
    door_events, CollisionRecord, DoorCommand, DoorEntity, DoorSensor, PlayerEntity,
};

const PLAYER: u64 = 1;

fn doors_of(grid: &Grid, first_entity: u64) -> Vec<DoorEntity> {
    let mut doors = Vec::new();
    for y in 0..GRID_SIZE {
        for x in 0..GRID_SIZE {
            if let CellType::Door(door) = grid.get(y, x) {
                doors.push(DoorEntity { entity: first_entity + doors.len() as u64, door });
            }
        }
    }
    doors
}

fn state_of(doors: &[DoorEntity], side: DoorType) -> DoorState {
    let found: Vec<&DoorEntity> = doors.iter().filter(|d| d.door.door_type == side).collect();
    assert_eq!(found.len(), 1);
    found[0].door.door_state
}

fn entity_of(doors: &[DoorEntity], side: DoorType) -> u64 {
    doors.iter().find(|d| d.door.door_type == side).unwrap().entity
}

fn sensors_of(doors: &[DoorEntity]) -> Vec<DoorSensor> {
    doors
        .iter()
        .map(|d| DoorSensor {
            entity: d.entity + 1000,
            associated_door: d.entity,
            position: Position { x: 0, y: 0 },
        })
        .collect()
}

fn touch(phase: TriggerPhase, sensor: u64) -> CollisionRecord {
    CollisionRecord { phase, collider_1: PLAYER, collider_2: sensor, removed: false, sensor: true }
}

#[test]
fn a_run_from_the_first_level_into_the_second() {
    // The first level: top door unlocked, the others locked, the player below the top door.
    let first = generate_normal_level(None);
    let mut doors = doors_of(&first, 100);
    assert_eq!(doors.len(), 4);
    assert_eq!(state_of(&doors, DoorType::Top), DoorState::Unlocked);
    for side in [DoorType::Bottom, DoorType::Left, DoorType::Right] {
        assert_eq!(state_of(&doors, side), DoorState::Locked);
    }
    let top = doors.iter().find(|d| d.door.door_type == DoorType::Top).unwrap().door;
    assert_eq!(first.get(0, top.grid_pos), CellType::Door(top));
    assert_eq!(first.get(1, top.grid_pos), CellType::Player);

    let mut session = LevelInfo {
        finished: false,
        level_type: LevelType::Covered,
        translation: Translation::zero(),
        old_level_objects: Vec::new(),
        game_progress: 0,
    };

    // Enemies alive: nothing happens. All dead: the level is finished, once.
    assert!(!level_progress(&mut session, false, 4));
    assert!(level_progress(&mut session, false, 0));
    assert!(session.finished);
    assert!(!level_progress(&mut session, false, 0));
    let mut states: Vec<Door> = doors.iter().map(|d| d.door).collect();
    level_finished(&mut states);
    for (entity, door) in doors.iter_mut().zip(&states) {
        entity.door = *door;
    }
    for side in [DoorType::Top, DoorType::Bottom, DoorType::Left, DoorType::Right] {
        assert_eq!(state_of(&doors, side), DoorState::Unlocked);
    }

    // The player steps into the trigger of the bottom door.
    let sensors = sensors_of(&doors);
    let bottom = entity_of(&doors, DoorType::Bottom);
    let bp = doors.iter().find(|d| d.entity == bottom).unwrap().door.grid_pos;
    let player = Some(PlayerEntity { entity: PLAYER, position: Position { x: 0, y: 10 } });
    let commands = door_events(
        player,
        &vec![touch(TriggerPhase::Started, bottom + 1000)],
        &sensors,
        &mut doors,
    );
    assert_eq!(state_of(&doors, DoorType::Bottom), DoorState::Used);
    let exit = Door { door_type: DoorType::Bottom, door_state: DoorState::Used, grid_pos: bp };
    assert_eq!(
        commands,
        vec![DoorCommand {
            entity: bottom,
            signal: Some(DoorSignal::LevelSwitch(exit)),
            animation: Some(DoorAnimationType::Open),
        }]
    );

    // The switch: the old level is remembered, the new one mirrors the exit door.
    let old_level: Vec<u64> = vec![100, 101, 102, 103, 1100, 1101, 1102, 1103];
    let plan = level_switch(&mut session, exit, old_level.clone());
    assert_eq!(session.old_level_objects, old_level);
    let mut next_doors = doors_of(&plan.grid, 200);
    assert_eq!(next_doors.len(), 4);
    let entry = next_doors.iter().find(|d| d.door.door_type == DoorType::Top).unwrap().door;
    assert_eq!(entry.grid_pos, bp);
    assert_eq!(entry.door_state, DoorState::TemporaryOpen);
    assert_eq!(plan.grid.get(0, bp), CellType::Door(entry));
    for side in [DoorType::Bottom, DoorType::Left, DoorType::Right] {
        assert_eq!(state_of(&next_doors, side), DoorState::Locked);
    }
    assert_eq!(plan.spawns.iter().filter(|s| s.kind == SpawnKind::Player).count(), 0);

    // A second trigger on the used door asks for no second switch.
    let again = door_events(
        player,
        &vec![touch(TriggerPhase::Stopped, bottom + 1000)],
        &sensors,
        &mut doors,
    );
    assert!(again.iter().all(|c| c.signal.is_none()));
    assert_eq!(state_of(&doors, DoorType::Bottom), DoorState::Used);

    // The old level stays while doors only open.
    assert!(level_delete_old(&mut session, DoorAnimationType::Open).is_empty());
    assert_eq!(session.old_level_objects, old_level);

    // The player walks through the entry door of the new level, to its inner side.
    let next_sensors = sensors_of(&next_doors);
    let entry_entity = entity_of(&next_doors, DoorType::Top);
    let inside = Some(PlayerEntity { entity: PLAYER, position: Position { x: 0, y: -10 } });
    let commands = door_events(
        inside,
        &vec![touch(TriggerPhase::Stopped, entry_entity + 1000)],
        &next_sensors,
        &mut next_doors,
    );
    assert_eq!(
        commands,
        vec![DoorCommand {
            entity: entry_entity,
            signal: Some(DoorSignal::LevelStarted),
            animation: Some(DoorAnimationType::Close),
        }]
    );
    assert_eq!(state_of(&next_doors, DoorType::Top), DoorState::Locked);
    assert!(!level_progress(&mut session, true, 4));
    assert!(!session.finished);

    // The closing slide runs; when it completes the old level is destroyed.
    assert!(!animation_tick(true, false, false).finished);
    assert_eq!(session.old_level_objects, old_level);
    assert!(animation_tick(true, false, true).finished);
    let destroyed = level_delete_old(&mut session, DoorAnimationType::Close);
    assert_eq!(destroyed, old_level);
    assert!(session.old_level_objects.is_empty());
}
