use dungeon_core::assembly::{
    apply_tutorial, assemble, find_player, place, spawn_cell, spawn_level, Spawn, SpawnKind,
};
use dungeon_core::boss::generate_boss_level;
use dungeon_core::config::{COLUMN_HIGHT, COLUMN_SIZE, FLOOR_THICKNESS, GRID_SIZE, LEVEL_SIZE};
use dungeon_core::door::{spawn_door, Door, DoorLightColor, DoorSpawn, DoorState, DoorType};
use dungeon_core::generation::{fill_border, generate_normal_level, place_doors};
use dungeon_core::grid::{CellType, EnemyType, Grid, WeaponType};
use dungeon_core::level::{LevelColor, LevelType, Translation};

fn origin() -> Translation {
    Translation { x: 0, y: 0, z: 0 }
}

fn count(grid: &Grid, wanted: fn(CellType) -> bool) -> usize {
    let mut n = 0;
    for y in 0..GRID_SIZE {
        for x in 0..GRID_SIZE {
            if wanted(grid.get(y, x)) {
                n += 1;
            }
        }
    }
    n
}

#[test]
fn places_are_offsets_from_the_anchor() {
    let anchor = Translation { x: 10, y: -20, z: 30 };
    assert_eq!(place(anchor, 1, 2, 3), Translation { x: 11, y: -18, z: 33 });
    assert_eq!(place(anchor, -LEVEL_SIZE, LEVEL_SIZE, 0), Translation {
        x: 10 - LEVEL_SIZE,
        y: LEVEL_SIZE - 20,
        z: 30
    });
}

#[test]
fn cells_stand_at_their_centres() {
    let column = spawn_cell(CellType::Column, 0, 0, origin(), LevelType::Covered);
    assert_eq!(
        column,
        Some(Spawn { kind: SpawnKind::Column, translation: Translation { x: -97500, y: 97500, z: 5000 } })
    );
    let last = spawn_cell(CellType::Column, GRID_SIZE - 1, GRID_SIZE - 1, origin(), LevelType::Covered);
    assert_eq!(
        last,
        Some(Spawn { kind: SpawnKind::Column, translation: Translation { x: 97500, y: -97500, z: 5000 } })
    );
    let anchor = Translation { x: LEVEL_SIZE, y: -LEVEL_SIZE, z: 0 };
    let enemy = spawn_cell(CellType::Enemy(EnemyType::Mid), 3, 7, anchor, LevelType::Open(LevelColor::Pink));
    assert_eq!(
        enemy,
        Some(Spawn {
            kind: SpawnKind::Enemy(EnemyType::Mid),
            translation: Translation {
                x: LEVEL_SIZE - LEVEL_SIZE / 2 + 7 * COLUMN_SIZE + COLUMN_SIZE / 2,
                y: -LEVEL_SIZE + LEVEL_SIZE / 2 - 3 * COLUMN_SIZE - COLUMN_SIZE / 2,
                z: COLUMN_HIGHT / 2,
            }
        })
    );
}

#[test]
fn empty_cells_spawn_nothing_and_lights_need_a_roof() {
    assert_eq!(spawn_cell(CellType::Empty, 5, 5, origin(), LevelType::Covered), None);
    assert_eq!(spawn_cell(CellType::Light, 5, 5, origin(), LevelType::Open(LevelColor::Blue)), None);
    assert_eq!(
        spawn_cell(CellType::Light, 5, 5, origin(), LevelType::Covered),
        Some(Spawn {
            kind: SpawnKind::Light,
            translation: Translation { x: -72500, y: 72500, z: COLUMN_HIGHT }
        })
    );
}

#[test]
fn every_kind_of_cell_spawns_its_kind() {
    let door = Door { door_type: DoorType::Left, door_state: DoorState::Locked, grid_pos: 4 };
    let at = Translation { x: -97500, y: 97500, z: 5000 };
    let cases = [
        (CellType::Door(door), SpawnKind::Door(door)),
        (CellType::Weapon(WeaponType::Minigun), SpawnKind::Weapon(WeaponType::Minigun)),
        (CellType::Enemy(EnemyType::Big), SpawnKind::Enemy(EnemyType::Big)),
        (CellType::Player, SpawnKind::Player),
    ];
    for (cell, kind) in cases {
        assert_eq!(
            spawn_cell(cell, 0, 0, origin(), LevelType::Covered),
            Some(Spawn { kind, translation: at })
        );
    }
}

#[test]
fn an_empty_grid_assembles_to_floor_and_roof() {
    let grid = Grid::new();
    let (spawns, anchor) = assemble(&grid, origin(), None, LevelType::Covered);
    assert_eq!(anchor, origin());
    assert_eq!(
        spawns,
        vec![
            Spawn { kind: SpawnKind::Floor, translation: origin() },
            Spawn {
                kind: SpawnKind::Roof,
                translation: Translation { x: 0, y: 0, z: COLUMN_HIGHT + FLOOR_THICKNESS / 2 }
            },
        ]
    );
    let (open, _) = assemble(&grid, origin(), None, LevelType::Open(LevelColor::Green));
    assert_eq!(open, vec![Spawn { kind: SpawnKind::Floor, translation: origin() }]);
}

#[test]
fn a_grid_assembles_in_reading_order_behind_the_door() {
    let mut grid = Grid::new();
    grid.set(1, 2, CellType::Player);
    grid.set(0, 5, CellType::Column);
    grid.set(1, 0, CellType::Light);
    let previous = Door { door_type: DoorType::Right, door_state: DoorState::Used, grid_pos: 9 };
    let (spawns, anchor) = assemble(&grid, origin(), Some(previous), LevelType::Open(LevelColor::Pink));
    assert_eq!(anchor, Translation { x: LEVEL_SIZE, y: 0, z: 0 });
    assert_eq!(
        spawns,
        vec![
            Spawn {
                kind: SpawnKind::Column,
                translation: Translation { x: LEVEL_SIZE - 100000 + 27500, y: 97500, z: 5000 }
            },
            Spawn {
                kind: SpawnKind::Player,
                translation: Translation { x: LEVEL_SIZE - 100000 + 12500, y: 92500, z: 5000 }
            },
            Spawn { kind: SpawnKind::Floor, translation: anchor },
        ]
    );
}

#[test]
fn a_generated_level_spawns_all_of_its_content() {
    let plan = spawn_level(origin(), None, LevelType::Covered, false, false);
    let cells = count(&plan.grid, |c| c != CellType::Empty);
    assert_eq!(plan.spawns.len(), cells + 2);
    assert_eq!(plan.spawns.iter().filter(|s| matches!(s.kind, SpawnKind::Door(_))).count(), 4);
    assert_eq!(plan.spawns.iter().filter(|s| matches!(s.kind, SpawnKind::Weapon(_))).count(), 4);
    assert_eq!(plan.spawns.iter().filter(|s| matches!(s.kind, SpawnKind::Enemy(_))).count(), 4);
    assert_eq!(plan.spawns.iter().filter(|s| s.kind == SpawnKind::Player).count(), 1);
    let open = spawn_level(origin(), None, LevelType::Open(LevelColor::Normal), false, false);
    assert_eq!(open.spawns.iter().filter(|s| s.kind == SpawnKind::Light).count(), 0);
    assert_eq!(open.spawns.iter().filter(|s| s.kind == SpawnKind::Roof).count(), 0);
}

#[test]
fn the_player_start_is_found() {
    let mut grid = Grid::new();
    assert_eq!(find_player(&grid), None);
    grid.set(0, 3, CellType::Player);
    assert_eq!(find_player(&grid), None);
    grid.set(1, 3, CellType::Player);
    assert_eq!(find_player(&grid), Some((1, 3)));
    grid.set(7, 2, CellType::Player);
    assert_eq!(find_player(&grid), Some((7, 2)));
    grid.set(7, 30, CellType::Player);
    assert_eq!(find_player(&grid), Some((7, 30)));
}

#[test]
fn the_tutorial_builds_a_walled_area() {
    let mut grid = Grid::new();
    fill_border(&mut grid);
    place_doors(&mut grid, None, 10, 20, 6, 30);
    grid.set(20, 20, CellType::Enemy(EnemyType::Small));
    grid.set(3, 10, CellType::Column);
    assert_eq!(apply_tutorial(&mut grid), Some((4, 10)));
    assert_eq!(grid.get(1, 10), CellType::Light);
    assert_eq!(grid.get(2, 10), CellType::Weapon(WeaponType::Pistol));
    assert_eq!(grid.get(3, 10), CellType::Empty);
    assert_eq!(grid.get(4, 10), CellType::Player);
    assert_eq!(grid.get(20, 20), CellType::Empty);
    for i in 0..GRID_SIZE {
        assert_eq!(grid.get(i, 8), CellType::Column);
        assert_eq!(grid.get(i, 12), CellType::Column);
        assert_eq!(grid.get(6, i), CellType::Column);
    }
    assert!(matches!(grid.get(0, 10), CellType::Door(_)));
    assert!(matches!(grid.get(GRID_SIZE - 1, 20), CellType::Door(_)));
    assert!(matches!(grid.get(30, GRID_SIZE - 1), CellType::Door(_)));
    assert_eq!(grid.get(6, 0), CellType::Column);
    assert_eq!(count(&grid, |c| c == CellType::Player), 1);
    assert_eq!(count(&grid, |c| matches!(c, CellType::Enemy(_))), 0);
}

#[test]
fn the_tutorial_needs_a_player_with_room_around() {
    let mut grid = Grid::new();
    grid.set(5, 5, CellType::Column);
    assert_eq!(apply_tutorial(&mut grid), None);
    assert_eq!(grid.get(5, 5), CellType::Column);
    grid.set(GRID_SIZE - 5, 10, CellType::Player);
    assert_eq!(apply_tutorial(&mut grid), None);
    assert_eq!(grid.get(5, 5), CellType::Column);
    let mut narrow = Grid::new();
    narrow.set(3, 1, CellType::Player);
    assert_eq!(apply_tutorial(&mut narrow), None);
    let mut fits = Grid::new();
    fits.set(GRID_SIZE - 6, GRID_SIZE - 3, CellType::Player);
    assert_eq!(apply_tutorial(&mut fits), Some((GRID_SIZE - 3, GRID_SIZE - 3)));
    assert_eq!(fits.get(GRID_SIZE - 1, 0), CellType::Column);
}

#[test]
fn a_tutorial_level_is_safe_whatever_was_generated() {
    for _ in 0..20 {
        let mut grid = generate_normal_level(None);
        let moved = apply_tutorial(&mut grid);
        let (py, px) = moved.unwrap();
        assert_eq!(py, 4);
        assert_eq!(count(&grid, |c| matches!(c, CellType::Enemy(_))), 0);
        assert_eq!(count(&grid, |c| matches!(c, CellType::Weapon(_))), 1);
        for y in 1..6 {
            assert_eq!(grid.get(y, px - 2), CellType::Column);
            assert_eq!(grid.get(y, px + 2), CellType::Column);
        }
        for x in px - 2..=px + 2 {
            assert_eq!(grid.get(6, x), CellType::Column);
        }
    }
}

#[test]
fn doors_come_into_the_world_by_side_and_state() {
    let top = Door { door_type: DoorType::Top, door_state: DoorState::Unlocked, grid_pos: 3 };
    assert_eq!(
        spawn_door(top),
        DoorSpawn { quarter_turn: false, light: DoorLightColor::Green, opening: false }
    );
    let left = Door { door_type: DoorType::Left, door_state: DoorState::TemporaryOpen, grid_pos: 3 };
    assert_eq!(
        spawn_door(left),
        DoorSpawn { quarter_turn: true, light: DoorLightColor::Red, opening: true }
    );
    let right = Door { door_type: DoorType::Right, door_state: DoorState::Locked, grid_pos: 3 };
    assert_eq!(
        spawn_door(right),
        DoorSpawn { quarter_turn: true, light: DoorLightColor::Red, opening: false }
    );
    let bottom = Door { door_type: DoorType::Bottom, door_state: DoorState::Used, grid_pos: 3 };
    assert_eq!(
        spawn_door(bottom),
        DoorSpawn { quarter_turn: false, light: DoorLightColor::Red, opening: false }
    );
}

#[test]
fn the_boss_level_is_a_fixed_arena() {
    let previous = Door { door_type: DoorType::Left, door_state: DoorState::Used, grid_pos: 12 };
    let grid = generate_boss_level(Some(previous));
    let g = GRID_SIZE;
    let m = g / 2;
    assert_eq!(
        grid.get(12, g - 1),
        CellType::Door(Door {
            door_type: DoorType::Right,
            door_state: DoorState::TemporaryOpen,
            grid_pos: 12
        })
    );
    assert_eq!(count(&grid, |c| matches!(c, CellType::Door(_))), 1);
    assert_eq!(grid.get(m, m), CellType::Enemy(EnemyType::Big));
    assert_eq!(count(&grid, |c| c == CellType::Enemy(EnemyType::Big)), 1);
    assert_eq!(count(&grid, |c| c == CellType::Enemy(EnemyType::Mid)), 8);
    assert_eq!(count(&grid, |c| c == CellType::Enemy(EnemyType::Small)), 16);
    assert_eq!(grid.get(m - 1, m + 1), CellType::Enemy(EnemyType::Mid));
    assert_eq!(grid.get(m + 2, m - 2), CellType::Enemy(EnemyType::Small));
    assert_eq!(grid.get(m, m + 3), CellType::Empty);
    assert_eq!(count(&grid, |c| c == CellType::Weapon(WeaponType::Shotgun)), 4);
    assert_eq!(count(&grid, |c| c == CellType::Weapon(WeaponType::Minigun)), 4);
    assert_eq!(count(&grid, |c| c == CellType::Weapon(WeaponType::Pistol)), 0);
    for (y, x) in [(4, g - 5), (5, g - 4), (g - 4, 5), (g - 5, 4)] {
        assert_eq!(grid.get(y, x), CellType::Weapon(WeaponType::Shotgun));
    }
    for (y, x) in [(3, 5), (5, 3), (g - 3, g - 5), (g - 5, g - 3)] {
        assert_eq!(grid.get(y, x), CellType::Weapon(WeaponType::Minigun));
    }
    let walls = [
        (4, g - 6), (5, g - 5), (6, g - 4), (g - 4, 6), (g - 5, 5), (g - 6, 4),
        (4, 4), (4, 5), (4, 6), (4, 7), (5, 4), (6, 4), (7, 4),
        (g - 4, g - 4), (g - 4, g - 5), (g - 4, g - 6), (g - 4, g - 7),
        (g - 5, g - 4), (g - 6, g - 4), (g - 7, g - 4),
    ];
    for (y, x) in walls {
        assert_eq!(grid.get(y, x), CellType::Column);
    }
    assert_eq!(count(&grid, |c| c == CellType::Column), 4 * (g - 1) - 1 + walls.len());
    assert_eq!(count(&grid, |c| c == CellType::Player), 0);
}

#[test]
fn the_boss_door_mirrors_each_side() {
    for (side, cell) in [
        (DoorType::Top, (GRID_SIZE - 1, 5)),
        (DoorType::Bottom, (0, 5)),
        (DoorType::Left, (5, GRID_SIZE - 1)),
        (DoorType::Right, (5, 0)),
    ] {
        let previous = Door { door_type: side, door_state: DoorState::Used, grid_pos: 5 };
        let grid = generate_boss_level(Some(previous));
        assert_eq!(
            grid.get(cell.0, cell.1),
            CellType::Door(Door {
                door_type: side.opposite(),
                door_state: DoorState::TemporaryOpen,
                grid_pos: 5
            })
        );
    }
}

#[test]
fn a_first_level_asked_for_as_tutorial_has_its_teaching_area() {
    for _ in 0..10 {
        let plan = spawn_level(origin(), None, LevelType::Covered, true, false);
        let mut player = None;
        for y in 0..GRID_SIZE {
            for x in 0..GRID_SIZE {
                if plan.grid.get(y, x) == CellType::Player {
                    assert_eq!(player, None);
                    player = Some((y, x));
                }
            }
        }
        let (py, px) = player.unwrap();
        assert_eq!(py, 4);
        assert!(matches!(plan.grid.get(0, px), CellType::Door(_)));
        assert_eq!(plan.grid.get(1, px), CellType::Light);
        assert_eq!(plan.grid.get(2, px), CellType::Weapon(WeaponType::Pistol));
        for i in 0..GRID_SIZE {
            assert_eq!(plan.grid.get(i, px - 2), CellType::Column);
            assert_eq!(plan.grid.get(i, px + 2), CellType::Column);
            assert_eq!(plan.grid.get(6, i), CellType::Column);
        }
        assert_eq!(count(&plan.grid, |c| matches!(c, CellType::Enemy(_))), 0);
        assert_eq!(plan.spawns.iter().filter(|s| s.kind == SpawnKind::Player).count(), 1);
    }
}
