use ld44::geometry::{aim, isqrt, scale};
use ld44::maps::decode_tile;
use ld44::{
    check_collision, try_move, turn_into_game_map, CollisionDetectionFlag, GameMap, GameMapTile,
    GamePosition, GRID_CELLS,
};

fn cell(x: usize, y: usize) -> usize {
    x * 32 + y
}

fn floor_grid() -> Vec<u32> {
    vec![2; GRID_CELLS]
}

fn body() -> CollisionDetectionFlag {
    CollisionDetectionFlag { w: 45000, h: 45000 }
}

#[test]
fn decode_cell_codes() {
    assert_eq!(decode_tile(0), GameMapTile::Nothing);
    assert_eq!(decode_tile(1), GameMapTile::Wall);
    assert_eq!(decode_tile(2), GameMapTile::Floor);
    assert_eq!(decode_tile(3), GameMapTile::PlayerStart);
    assert_eq!(decode_tile(4), GameMapTile::Teleport);
    assert_eq!(decode_tile(9), GameMapTile::Nothing);
    let tiles = turn_into_game_map(&floor_grid());
    assert_eq!(tiles.len(), GRID_CELLS);
    assert!(tiles.iter().all(|t| *t == GameMapTile::Floor));
}

#[test]
fn build_records_start_teleport_and_spawns() {
    let mut g = vec![0; GRID_CELLS];
    g[cell(2, 3)] = 2;
    g[cell(4, 1)] = 2;
    g[cell(5, 5)] = 3;
    g[cell(7, 8)] = 4;
    g[cell(0, 0)] = 1;
    let m = GameMap::build(&g, 2);
    assert_eq!(m.player_start, (5, 5));
    assert_eq!(m.ending_spot, (7, 8));
    assert_eq!(m.valid_enemy_spawns, vec![(2, 3), (4, 1)]);
    assert_eq!(m.current_level, 2);
    assert!(!m.powerups_spawned);
    assert_eq!(m.tile_at(0, 0), GameMapTile::Wall);
    assert_eq!(m.tile_at(2, 3), GameMapTile::Floor);
}

#[test]
fn build_without_start_uses_corner() {
    let m = GameMap::build(&vec![0; GRID_CELLS], 0);
    assert_eq!(m.player_start, (31, 31));
    assert_eq!(m.ending_spot, (31, 31));
    assert!(m.valid_enemy_spawns.is_empty());
}

#[test]
fn tile_conversions() {
    let p = GamePosition { x: 330000, y: 59999 };
    assert_eq!(p.to_tile(), (5, 0));
    assert_eq!(GamePosition { x: -5, y: 120000 }.to_tile(), (0, 2));
    assert_eq!(GamePosition::from_tile((6, 5)), GamePosition { x: 360000, y: 300000 });
}

#[test]
fn centred_box_overlap() {
    let a = GamePosition { x: 0, y: 0 };
    let c = CollisionDetectionFlag { w: 10000, h: 10000 };
    assert!(check_collision(a, c, GamePosition { x: 10000, y: 0 }, c));
    assert!(!check_collision(a, c, GamePosition { x: 10001, y: 0 }, c));
    assert!(!check_collision(a, c, GamePosition { x: 0, y: -10001 }, c));
    assert!(check_collision(a, c, GamePosition { x: -9000, y: 9000 }, c));
}

#[test]
fn rightward_move_stops_at_wall_edge() {
    let mut g = floor_grid();
    g[cell(6, 5)] = 1;
    let m = GameMap::build(&g, 0);
    let mut pos = GamePosition { x: 330000, y: 330000 };
    let moved = try_move(&mut pos, 0, 10000, &m, &body());
    assert_eq!(moved, 7500);
    assert_eq!(pos.x, 337500);
    assert_eq!(pos.x + 22500, 360000);
    assert_eq!(pos.y, 330000);
    assert!(!m.footprint_blocked(pos, body()));
}

#[test]
fn flush_box_does_not_pass_through_wall() {
    let mut g = floor_grid();
    g[cell(6, 5)] = 1;
    let m = GameMap::build(&g, 0);
    let small = CollisionDetectionFlag { w: 10000, h: 10000 };
    let mut pos = GamePosition { x: 355000, y: 330000 };
    assert_eq!(try_move(&mut pos, 0, 15000, &m, &small), 0);
    assert_eq!(pos.x, 355000);
    let mut back = GamePosition { x: 355000, y: 330000 };
    assert_eq!(try_move(&mut back, 0, -15000, &m, &small), -15000);
    assert_eq!(back.x, 340000);
}

#[test]
fn free_move_applies_full_displacement() {
    let m = GameMap::build(&floor_grid(), 0);
    let mut pos = GamePosition { x: 330000, y: 330000 };
    assert_eq!(try_move(&mut pos, 1, -7000, &m, &body()), -7000);
    assert_eq!(pos, GamePosition { x: 330000, y: 323000 });
}

#[test]
fn leftward_move_stops_at_wall_far_edge() {
    let mut g = floor_grid();
    g[cell(4, 5)] = 1;
    let m = GameMap::build(&g, 0);
    let mut pos = GamePosition { x: 325000, y: 310000 };
    let moved = try_move(&mut pos, 0, -4000, &m, &body());
    assert_eq!(moved, -2500);
    assert_eq!(pos.x, 322500);
    assert_eq!(pos.x - 22500, 300000);
}

#[test]
fn moves_never_enter_walls() {
    let mut g = floor_grid();
    for y in 0..32 {
        g[cell(8, y)] = 1;
    }
    g[cell(5, 9)] = 1;
    let m = GameMap::build(&g, 0);
    let amounts = [-70000i64, -30000, -1000, 0, 1000, 12000, 30000, 59000, 61000, 200000];
    for axis in 0..2usize {
        for a in amounts.iter() {
            let mut pos = GamePosition { x: 400000, y: 480000 };
            assert!(!m.footprint_blocked(pos, body()));
            try_move(&mut pos, axis, *a, &m, &body());
            assert!(!m.footprint_blocked(pos, body()));
        }
    }
}

#[test]
fn walls_off_the_grid_never_block() {
    let m = GameMap::build(&vec![1; GRID_CELLS], 0);
    assert!(!m.wall_at(-1, 5));
    assert!(!m.wall_at(32 * 60000, 0));
    assert!(m.wall_at(0, 0));
}

#[test]
fn wall_sprites() {
    let mut g = vec![0; GRID_CELLS];
    g[cell(3, 3)] = 1;
    g[cell(3, 2)] = 2;
    g[cell(10, 10)] = 1;
    g[cell(11, 10)] = 2;
    g[cell(20, 20)] = 1;
    g[cell(19, 20)] = 2;
    g[cell(25, 25)] = 1;
    let m = GameMap::build(&g, 0);
    assert_eq!(m.wall_sprite(3, 3), (43, false));
    assert_eq!(m.wall_sprite(10, 10), (42, false));
    assert_eq!(m.wall_sprite(20, 20), (42, true));
    assert_eq!(m.wall_sprite(25, 25), (52, false));
}

#[test]
fn integer_helpers() {
    assert_eq!(isqrt(0), 0);
    assert_eq!(isqrt(24), 4);
    assert_eq!(isqrt(25), 5);
    assert_eq!(scale(5000, 707, 1000), 3535);
    assert_eq!(scale(-999, 1, 5), -199);
    assert_eq!(aim(-30000, -40000, 10000), (-6000, -8000));
    assert_eq!(aim(0, 0, 10000), (0, 0));
    assert_eq!(aim(50000, 0, 2000), (2000, 0));
}
