use ld44::rooms::select_next_level;
use ld44::{
    BulletEntity, BulletOwner, CheckBulletCollide, CheckForNextRoom, CollisionDetectionFlag,
    CreatePowerUps, DecrementPlayerCoolDowns, DecrementTime, EnemyShoot, GamePosition,
    GamePositionTransform, Item, ItemEntity, ItemType, MoveBadGuys, MoveBullets,
    MovePlayerSystem, PickupItem, PlayerBadGuyCollide, PlayerShoot, PowerUps,
    level_is_playable, RemoveOutOfTimeBadGuys, SoundEffect, TickInput, World, GRID_CELLS,
};
use ld44::Bullet;

fn cell(x: usize, y: usize) -> usize {
    x * 32 + y
}

/// A walled room: floor inside, start at (5, 5), teleport at (10, 10).
fn room(start: (usize, usize), teleport: (usize, usize)) -> Vec<u32> {
    let mut g = vec![2; GRID_CELLS];
    for i in 0..32 {
        g[cell(i, 0)] = 1;
        g[cell(i, 31)] = 1;
        g[cell(0, i)] = 1;
        g[cell(31, i)] = 1;
    }
    g[cell(start.0, start.1)] = 3;
    g[cell(teleport.0, teleport.1)] = 4;
    g
}

fn world() -> World {
    World::new(vec![room((5, 5), (10, 10)), room((20, 20), (3, 3))], 0)
}

fn bullet(pos: GamePosition, owner: BulletOwner) -> BulletEntity {
    BulletEntity {
        pos,
        coll: CollisionDetectionFlag { w: 10000, h: 10000 },
        bullet: Bullet { speed_x: 0, speed_y: 0 },
        owner,
    }
}

#[test]
fn new_world_places_player_and_first_enemy() {
    let w = world();
    assert_eq!(w.player.pos, GamePosition { x: 300000, y: 300000 });
    assert_eq!(w.player_time(), (180000, 180000));
    assert_eq!(w.enemies.len(), 1);
    assert_eq!(w.num_enemies_left, 1);
    assert_eq!(w.enemies[0].pos, GamePosition { x: 60000, y: 60000 });
    assert!(w.enemies[0].flag.moves);
    assert_eq!(w.enemies[0].time.remaining, 30000);
    assert_eq!(w.floors(), 0);
    assert!(!w.is_game_over());
    assert_eq!(w.game_map.current_level, 0);
}

#[test]
fn level_without_floor_tiles_is_not_playable() {
    let mut g = vec![1; GRID_CELLS];
    g[cell(5, 5)] = 3;
    assert!(!level_is_playable(&g));
    g[cell(6, 6)] = 2;
    assert!(level_is_playable(&g));
    assert!(!level_is_playable(&vec![2; 10]));
    assert!(level_is_playable(&room((5, 5), (10, 10))));
}

#[test]
fn player_moves_by_axes() {
    let mut w = world();
    MovePlayerSystem.run(&mut w, Some(1000), Some(-500));
    assert_eq!(w.player.pos, GamePosition { x: 304000, y: 298000 });
    assert_eq!(w.player.player.speed_x, 4000);
    assert_eq!(w.player.player.speed_y, -2000);
    MovePlayerSystem.run(&mut w, None, None);
    assert_eq!(w.player.pos, GamePosition { x: 304000, y: 298000 });
}

#[test]
fn player_stops_at_room_wall() {
    let mut w = world();
    w.player.pos = GamePosition { x: 84500, y: 300000 };
    MovePlayerSystem.run(&mut w, Some(-1000), None);
    assert_eq!(w.player.pos.x, 82500);
    assert_eq!(w.player.player.speed_x, -2000);
}

#[test]
fn contact_damage_respects_invincibility() {
    let mut w = world();
    w.enemies[0].pos = w.player.pos;
    assert!(PlayerBadGuyCollide.run(&mut w));
    assert_eq!(w.player.time.remaining, 165000);
    assert_eq!(w.player.player.invincible_time, 1000);
    assert!(!PlayerBadGuyCollide.run(&mut w));
    assert_eq!(w.player.time.remaining, 165000);
    DecrementTime.run(&mut w, 500);
    assert_eq!(w.player.time.remaining, 164500);
    PlayerBadGuyCollide.run(&mut w);
    assert_eq!(w.player.time.remaining, 164500);
    DecrementTime.run(&mut w, 500);
    PlayerBadGuyCollide.run(&mut w);
    assert_eq!(w.player.time.remaining, 149000);
}

#[test]
fn far_enemy_does_no_contact_damage() {
    let mut w = world();
    PlayerBadGuyCollide.run(&mut w);
    assert_eq!(w.player.time.remaining, 180000);
}

#[test]
fn up_left_shot_inherits_drift() {
    let mut w = world();
    w.player.shooter.current_cooldown = 0;
    w.player.player.speed_x = 1000;
    w.player.player.speed_y = -500;
    assert!(PlayerShoot.run(&mut w, true, false, true, false));
    assert_eq!(w.new_bullets.len(), 1);
    let b = w.new_bullets[0];
    assert_eq!(b.bullet.speed_x, -3535 + 200);
    assert_eq!(b.bullet.speed_y, 3535 - 100);
    assert_eq!(b.owner, BulletOwner::Player);
    assert_eq!(b.pos, w.player.pos);
    assert_eq!(w.player.shooter.current_cooldown, 1000);
    assert!(w.bullets.is_empty());
}

#[test]
fn no_shot_while_cooling_down_or_on_opposing_signals() {
    let mut w = world();
    w.player.shooter.current_cooldown = 10;
    PlayerShoot.run(&mut w, true, false, false, false);
    assert!(w.new_bullets.is_empty());
    w.player.shooter.current_cooldown = 0;
    assert!(!PlayerShoot.run(&mut w, true, true, false, false));
    assert!(w.new_bullets.is_empty());
    assert_eq!(w.player.shooter.current_cooldown, 0);
}

#[test]
fn cooldowns_decay_for_every_shooter() {
    let mut w = world();
    w.player.shooter.current_cooldown = 500;
    DecrementPlayerCoolDowns.run(&mut w, 200);
    assert_eq!(w.player.shooter.current_cooldown, 300);
    DecrementPlayerCoolDowns.run(&mut w, 5000);
    assert_eq!(w.player.shooter.current_cooldown, 0);
    assert_eq!(w.enemies[0].shooter.unwrap().current_cooldown, 0);
}

#[test]
fn enemy_aims_at_player() {
    let mut w = world();
    let p = w.player.pos;
    w.enemies[0].pos = GamePosition { x: p.x + 30000, y: p.y + 40000 };
    let mut s = w.enemies[0].shooter.unwrap();
    s.current_cooldown = 0;
    w.enemies[0].shooter = Some(s);
    assert_eq!(EnemyShoot.run(&mut w), 1);
    assert_eq!(w.new_bullets.len(), 1);
    assert_eq!(w.new_bullets[0].bullet, Bullet { speed_x: -6000, speed_y: -8000 });
    assert_eq!(w.new_bullets[0].owner, BulletOwner::Enemy);
    assert_eq!(w.enemies[0].shooter.unwrap().current_cooldown, 2000);
    assert_eq!(EnemyShoot.run(&mut w), 0);
    assert_eq!(w.new_bullets.len(), 1);
}

#[test]
fn chasing_enemy_steps_toward_player() {
    let mut w = world();
    let p = w.player.pos;
    w.enemies[0].pos = GamePosition { x: p.x + 100000, y: p.y };
    MoveBadGuys.run(&mut w);
    assert_eq!(w.enemies[0].pos, GamePosition { x: p.x + 98000, y: p.y });
    w.enemies[0].flag.moves = false;
    MoveBadGuys.run(&mut w);
    assert_eq!(w.enemies[0].pos, GamePosition { x: p.x + 98000, y: p.y });
}

#[test]
fn bullets_move_and_join_at_maintain() {
    let mut w = world();
    let mut b = bullet(GamePosition { x: 400000, y: 400000 }, BulletOwner::Player);
    b.bullet = Bullet { speed_x: 3000, speed_y: -1000 };
    w.new_bullets.push(b);
    MoveBullets.run(&mut w);
    assert!(w.bullets.is_empty());
    w.maintain();
    assert_eq!(w.bullets.len(), 1);
    assert!(w.new_bullets.is_empty());
    MoveBullets.run(&mut w);
    assert_eq!(w.bullets[0].pos, GamePosition { x: 403000, y: 399000 });
}

#[test]
fn player_bullet_damages_enemy_and_is_removed() {
    let mut w = world();
    w.enemies[0].pos = GamePosition { x: 600000, y: 600000 };
    w.bullets.push(bullet(GamePosition { x: 600000, y: 600000 }, BulletOwner::Player));
    w.bullets.push(bullet(GamePosition { x: 900000, y: 900000 }, BulletOwner::Player));
    CheckBulletCollide.run(&mut w);
    assert_eq!(w.enemies[0].time.remaining, 20000);
    assert_eq!(w.bullets.len(), 1);
    assert_eq!(w.bullets[0].pos, GamePosition { x: 900000, y: 900000 });
    assert_eq!(w.player.time.remaining, 180000);
}

#[test]
fn enemy_bullet_hits_player_once_per_window() {
    let mut w = world();
    let p = w.player.pos;
    w.bullets.push(bullet(p, BulletOwner::Enemy));
    w.bullets.push(bullet(p, BulletOwner::Enemy));
    assert!(CheckBulletCollide.run(&mut w));
    assert_eq!(w.player.time.remaining, 165000);
    assert_eq!(w.player.player.invincible_time, 1000);
    assert!(w.bullets.is_empty());
    assert_eq!(w.enemies[0].time.remaining, 30000);
}

#[test]
fn bullets_stop_at_walls() {
    let mut w = world();
    w.bullets.push(bullet(GamePosition { x: 0, y: 300000 }, BulletOwner::Enemy));
    w.bullets.push(bullet(GamePosition { x: 30000, y: 600000 }, BulletOwner::Player));
    w.bullets.push(bullet(GamePosition { x: 700000, y: 700000 }, BulletOwner::Enemy));
    CheckBulletCollide.run(&mut w);
    assert_eq!(w.bullets.len(), 1);
    assert_eq!(w.bullets[0].pos, GamePosition { x: 700000, y: 700000 });
}

#[test]
fn expired_enemy_is_removed_and_counted() {
    let mut w = world();
    w.enemies[0].time.remaining = 0;
    assert_eq!(RemoveOutOfTimeBadGuys.run(&mut w), 1);
    assert!(w.enemies.is_empty());
    assert_eq!(w.num_enemies_left, 0);
    assert_eq!(w.corpses, vec![GamePosition { x: 60000, y: 60000 }]);
    assert!(w.new_items.len() <= 1);
    for it in w.new_items.iter() {
        assert_eq!(it.item.kind, ItemType::PlusTime(10));
        assert_eq!(it.item.cost, 0);
        assert_eq!(it.item.location, (1, 1));
    }
    assert!(!w.is_game_over());
}

#[test]
fn game_over_when_player_time_runs_out() {
    let mut w = world();
    DecrementTime.run(&mut w, 200000);
    assert_eq!(w.player.time.remaining, 0);
    assert_eq!(w.enemies[0].time.remaining, 0);
    RemoveOutOfTimeBadGuys.run(&mut w);
    assert!(w.is_game_over());
    assert_eq!(w.num_enemies_left, 0);
}

#[test]
fn room_transition_replaces_room() {
    let mut w = world();
    w.enemies.clear();
    w.num_enemies_left = 0;
    w.corpses.push(GamePosition { x: 1, y: 1 });
    w.items.push(ItemEntity {
        item: Item::new((2, 2), ItemType::PlusTime(10), 0),
        pos: GamePosition::from_tile((2, 2)),
    });
    w.player.time.remaining = 100000;
    w.player.pos = GamePosition::from_tile((10, 10));
    CheckForNextRoom.run(&mut w, 3);
    assert_eq!(w.game_map.current_level, 1);
    assert_eq!(w.game_map.player_start, (20, 20));
    assert_eq!(w.game_map.ending_spot, (3, 3));
    assert_eq!(w.player.pos, GamePosition::from_tile((20, 20)));
    assert_eq!(w.player.time.remaining, 110000);
    assert_eq!(w.floors(), 1);
    assert_eq!(w.enemies.len(), 3);
    assert_eq!(w.num_enemies_left, 3);
    assert!(w.items.is_empty());
    assert!(w.corpses.is_empty());
    for e in w.enemies.iter() {
        assert_eq!(e.time.remaining, 25000);
        let t = e.pos.to_tile();
        assert!(w.game_map.valid_enemy_spawns.contains(&t));
    }
}

#[test]
fn no_transition_while_enemies_remain() {
    let mut w = world();
    w.player.pos = GamePosition::from_tile((10, 10));
    CheckForNextRoom.run(&mut w, 3);
    assert_eq!(w.game_map.current_level, 0);
    assert_eq!(w.floors(), 0);
    assert_eq!(w.enemies.len(), 1);
}

#[test]
fn one_level_pool_reselects_same_level() {
    let mut w = World::new(vec![room((5, 5), (10, 10))], 0);
    w.enemies.clear();
    w.num_enemies_left = 0;
    w.player.pos = GamePosition::from_tile((10, 10));
    CheckForNextRoom.run(&mut w, 0);
    assert_eq!(w.game_map.current_level, 0);
    assert_eq!(w.num_enemies_left, 1);
}

#[test]
fn next_level_differs_from_current() {
    for _ in 0..50 {
        let r = select_next_level(1, 3);
        assert!(r < 3 && r != 1);
        assert_eq!(select_next_level(0, 2), 1);
    }
    assert_eq!(select_next_level(0, 1), 0);
}

#[test]
fn power_ups_spawn_once_beside_teleport() {
    let mut w = world();
    w.enemies.clear();
    w.num_enemies_left = 0;
    CreatePowerUps.run(&mut w);
    assert_eq!(w.new_items.len(), 2);
    assert_eq!(w.new_items[0].item.location, (11, 10));
    assert_eq!(w.new_items[1].item.location, (9, 10));
    assert_eq!(w.new_items[0].item.cost, 10);
    assert!(matches!(w.new_items[1].item.kind, ItemType::PowerUp(_)));
    assert!(w.game_map.powerups_spawned);
    CreatePowerUps.run(&mut w);
    assert_eq!(w.new_items.len(), 2);
}

#[test]
fn pickup_applies_items_on_player_tile() {
    let mut w = world();
    w.player.time.remaining = 20000;
    let here = w.player.pos.to_tile();
    w.items.push(ItemEntity { item: Item::new(here, ItemType::PlusTime(10), 5), pos: w.player.pos });
    w.items.push(ItemEntity {
        item: Item::new(here, ItemType::PowerUp(PowerUps::Damage), 2),
        pos: w.player.pos,
    });
    w.items.push(ItemEntity {
        item: Item::new((1, 1), ItemType::PowerUp(PowerUps::Speed), 2),
        pos: GamePosition::from_tile((1, 1)),
    });
    PickupItem.run(&mut w);
    assert_eq!(w.player.time.remaining, 23000);
    assert_eq!(w.player.player.damage, 20);
    assert_eq!(w.player.player.speed_multi, 4000);
    assert_eq!(w.items.len(), 1);
    assert_eq!(w.items[0].item.location, (1, 1));
}

#[test]
fn camera_centres_player() {
    let w = world();
    let s = GamePositionTransform.run(&w, GamePosition { x: 360000, y: 300000 });
    assert_eq!(s, GamePosition { x: 743000, y: 384000 });
    assert_eq!(GamePositionTransform.run(&w, w.player.pos), GamePosition { x: 683000, y: 384000 });
}

#[test]
fn ticks_run_in_order() {
    let mut w = world();
    w.player.shooter.current_cooldown = 0;
    let input = TickInput {
        delta_ms: 16,
        move_x: Some(1000),
        move_y: None,
        shoot_left: false,
        shoot_right: true,
        shoot_up: false,
        shoot_down: false,
        roster_sample: 1,
    };
    let report = w.tick(&input);
    assert!(report.player_shot);
    assert!(!report.room_changed);
    assert_eq!(report.enemies_left, 1);
    assert_eq!(report.sounds(), vec![SoundEffect::PlayerShoot]);
    assert_eq!(w.player.pos, GamePosition { x: 304000, y: 300000 });
    assert_eq!(w.bullets.len(), 1);
    assert_eq!(w.bullets[0].pos, GamePosition { x: 304000, y: 300000 });
    assert_eq!(w.bullets[0].bullet.speed_x, 5800);
    assert_eq!(w.player.time.remaining, 180000 - 16);
    w.tick(&input);
    assert_eq!(w.bullets[0].pos, GamePosition { x: 309800, y: 300000 });
    assert!(w.new_bullets.is_empty());
}

#[test]
fn tick_reports_hits_and_deaths() {
    let mut w = world();
    w.enemies[0].pos = w.player.pos;
    w.enemies[0].time.remaining = 10;
    let input = TickInput {
        delta_ms: 16,
        move_x: None,
        move_y: None,
        shoot_left: false,
        shoot_right: false,
        shoot_up: false,
        shoot_down: false,
        roster_sample: 0,
    };
    let report = w.tick(&input);
    assert!(report.contact_hit);
    assert_eq!(report.enemies_died, 1);
    assert_eq!(report.enemies_left, 0);
    let sounds = report.sounds();
    assert_eq!(sounds[0], SoundEffect::PlayerHit);
    assert_eq!(sounds.last(), Some(&SoundEffect::EnemyDie));
    assert_eq!(w.num_enemies_left, 0);
    assert_eq!(w.player.time.remaining, 180000 - 15000 - 16);
}

#[test]
fn expired_enemies_drop_where_their_coin_says() {
    let mut w = world();
    let first = w.enemies[0];
    let mut second = first;
    second.pos = GamePosition::from_tile((7, 3));
    let mut third = first;
    third.pos = GamePosition::from_tile((9, 9));
    third.time.remaining = 0;
    w.enemies[0].time.remaining = 0;
    w.enemies.push(second);
    w.enemies.push(third);
    w.num_enemies_left = 3;
    let died = RemoveOutOfTimeBadGuys.run_with_coins(&mut w, &vec![false, true, true]);
    assert_eq!(died, 2);
    assert_eq!(w.num_enemies_left, 1);
    assert_eq!(w.enemies[0].pos, GamePosition::from_tile((7, 3)));
    assert_eq!(w.new_items.len(), 1);
    assert_eq!(w.new_items[0].item.location, (9, 9));
    assert_eq!(w.new_items[0].item.kind, ItemType::PlusTime(10));
    assert_eq!(w.new_items[0].item.cost, 0);
    assert_eq!(w.corpses.len(), 2);
}

#[test]
fn room_transition_at_teleport_through_tick() {
    let mut w = world();
    w.enemies.clear();
    w.num_enemies_left = 0;
    w.player.pos = GamePosition::from_tile((10, 10));
    let input = TickInput {
        delta_ms: 16,
        move_x: None,
        move_y: None,
        shoot_left: false,
        shoot_right: false,
        shoot_up: false,
        shoot_down: false,
        roster_sample: 2,
    };
    let report = w.tick(&input);
    assert!(report.room_changed);
    assert_eq!(w.floors(), 1);
    assert_eq!(w.game_map.current_level, 1);
    assert_eq!(w.enemies.len(), 2);
    assert_eq!(w.num_enemies_left, 2);
    assert_eq!(w.player.pos, GamePosition::from_tile((20, 20)));
}
