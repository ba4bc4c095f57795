//! Simulation core of a top-down arcade shooter: tile grids with wall
//! collision, timer-based health, shooting and bullets, floor-scaled enemy
//! rosters, item pickups and room-to-room progression.
//!
//! Lengths are fixed-point: one world unit is `UNIT` sub-units, and a tile is
//! `TILE_SIZE` sub-units wide. Durations are whole milliseconds.

pub mod combat;
pub mod components;
pub mod game_scale;
pub mod geometry;
pub mod maps;
pub mod movement;
pub mod presentation;
mod random;
pub mod rooms;
pub mod tick;
pub mod world;

pub use combat::{CheckBulletCollide, EnemyShoot, MoveBadGuys, RemoveOutOfTimeBadGuys};
pub use components::{
    Bullet, Enemies, EnemyFlag, Item, ItemType, Player, PowerUps, ShootDirection, Shooter,
    TimeLeft,
};
pub use game_scale::{
    gen_enemy_list, get_enemy_bullet_speed, get_enemy_speed, get_enemy_time, get_powerup_cost,
};
pub use geometry::{
    check_collision, CollisionDetectionFlag, GamePosition, GAME_MAP_X, GAME_MAP_Y, TILE_SIZE,
    UNIT, WORLD_LIMIT,
};
pub use maps::{turn_into_game_map, GameMap, GameMapTile, GRID_CELLS};
pub use movement::try_move;
pub use presentation::{timer_readout, Animation, SoundEffect, TimerColor};
pub use rooms::{
    spawn_item, spawn_powerup, start_new_level, CheckForNextRoom, CreatePowerUps,
    GamePositionTransform, PickupItem,
};
pub use tick::{TickInput, TickReport};
pub use world::{
    BulletEntity, BulletOwner, DecrementPlayerCoolDowns, DecrementTime, EnemyEntity, ItemEntity,
    level_is_playable, MoveBullets, MovePlayerSystem, PlayerBadGuyCollide, PlayerEntity,
    PlayerShoot, World,
};
