use vstd::prelude::*;

use crate::components::{
    decay_spec, direction_spec, direction_velocity_spec, hit_spec, sat_sub, subtract_spec, Bullet,
    EnemyFlag, Item, Player, ShootDirection, Shooter, TimeLeft,
};
use crate::geometry::{
    boxes_overlap, check_collision, scale, scaled, CollisionDetectionFlag, GamePosition,
    WORLD_LIMIT,
};
use crate::maps::{
    corner_tile, floor_tiles, footprint_hits_wall, last_tile_of, tile_of_code, GameMap, GameMapTile,
    GRID_CELLS,
};
use crate::movement::{lemma_resolver_never_enters_walls, resolved_delta, try_move, with_axis};

verus! {

/// Width and height of the player's and of a chasing enemy's box.
pub const BODY_BOX: i64 = 45000;

/// Width and height of a bullet's box.
pub const BULLET_BOX: i64 = 10000;

/// Per fifth of the player's last movement that a player bullet inherits.
pub const DRIFT_FIFTHS: u64 = 1;

/// Speed of a player's bullets at the start, in sub-units per tick.
pub const PLAYER_BULLET_SPEED: i64 = 5000;

/// Seconds on the player's timer at the start.
pub const PLAYER_START_TIME: u64 = 180;

/// Seconds on the first enemy's timer.
pub const FIRST_ENEMY_TIME: u64 = 30;

/// Speed of the first enemy's bullets, in sub-units per tick.
pub const FIRST_ENEMY_BULLET_SPEED: i64 = 10000;

/// Who fired a bullet.
#[derive(Clone, Copy, Debug, PartialEq, Eq, Structural)]
pub enum BulletOwner {
    Player,
    Enemy,
}

/// The player entity's components.
#[derive(Clone, Copy, Debug)]
pub struct PlayerEntity {
    pub pos: GamePosition,
    pub coll: CollisionDetectionFlag,
    pub player: Player,
    pub shooter: Shooter,
    pub time: TimeLeft,
}

impl PlayerEntity {
    pub open spec fn wf(&self) -> bool {
        &&& self.pos.wf()
        &&& self.coll.wf()
        &&& self.player.wf()
        &&& self.shooter.wf()
        &&& self.time.wf()
    }
}

/// An enemy entity's components.
#[derive(Clone, Copy, Debug)]
pub struct EnemyEntity {
    pub pos: GamePosition,
    pub coll: CollisionDetectionFlag,
    pub flag: EnemyFlag,
    pub time: TimeLeft,
    pub shooter: Option<Shooter>,
}

impl EnemyEntity {
    pub open spec fn wf(&self) -> bool {
        &&& self.pos.wf()
        &&& self.coll.wf()
        &&& self.time.wf()
        &&& (match self.shooter {
            Some(s) => s.wf(),
            None => true,
        })
    }
}

/// A bullet entity's components.
#[derive(Clone, Copy, Debug)]
pub struct BulletEntity {
    pub pos: GamePosition,
    pub coll: CollisionDetectionFlag,
    pub bullet: Bullet,
    pub owner: BulletOwner,
}

impl BulletEntity {
    pub open spec fn wf(&self) -> bool {
        self.pos.wf() && self.coll.wf() && self.bullet.wf()
    }
}

/// An item entity: the item and where it is drawn.
#[derive(Clone, Copy, Debug)]
pub struct ItemEntity {
    pub item: Item,
    pub pos: GamePosition,
}

impl ItemEntity {
    pub open spec fn wf(&self) -> bool {
        self.pos.wf()
    }
}

/// The whole simulation state: the level pool and active map, every entity,
/// the entities created during the current tick (added by `maintain`), and
/// the counters.
#[derive(Debug)]
pub struct World {
    /// Authored grids of the level pool, each `GRID_CELLS` cell codes.
    pub levels: Vec<Vec<u32>>,
    pub game_map: GameMap,
    pub player: PlayerEntity,
    pub enemies: Vec<EnemyEntity>,
    pub bullets: Vec<BulletEntity>,
    /// Items on the floor; they belong to the room.
    pub items: Vec<ItemEntity>,
    /// Where dead enemies lie; they belong to the room.
    pub corpses: Vec<GamePosition>,
    pub new_bullets: Vec<BulletEntity>,
    pub new_items: Vec<ItemEntity>,
    pub floors_visited: u32,
    pub num_enemies_left: u32,
    pub game_over: bool,
}

/// The tiles an authored grid decodes to.
pub open spec fn decoded(level: Seq<u32>) -> Seq<crate::maps::GameMapTile> {
    Seq::new(GRID_CELLS as nat, |i: int| tile_of_code(level[i]))
}

/// An authored grid of the right size with at least one floor tile, where
/// enemies can spawn.
pub open spec fn level_playable(level: Seq<u32>) -> bool {
    level.len() == GRID_CELLS && floor_tiles(decoded(level), GRID_CELLS as nat).len() > 0
}

pub open spec fn levels_wf(levels: Seq<Vec<u32>>) -> bool {
    &&& levels.len() > 0
    &&& forall|i: int| 0 <= i < levels.len() ==> level_playable((#[trigger] levels[i])@)
}

/// Whether an authored grid is a usable level: `GRID_CELLS` cells, at least
/// one of them floor.
pub fn level_is_playable(level: &Vec<u32>) -> (r: bool)
    ensures
        r == level_playable(level@),
{
    if level.len() != GRID_CELLS {
        return false;
    }
    let m = GameMap::build(level, 0);
    proof {
        assert(m.map@ =~= decoded(level@));
    }
    m.valid_enemy_spawns.len() > 0
}

pub open spec fn enemies_wf(s: Seq<EnemyEntity>) -> bool {
    forall|i: int| 0 <= i < s.len() ==> (#[trigger] s[i]).wf()
}

pub open spec fn bullets_wf(s: Seq<BulletEntity>) -> bool {
    forall|i: int| 0 <= i < s.len() ==> (#[trigger] s[i]).wf()
}

pub open spec fn items_wf(s: Seq<ItemEntity>) -> bool {
    forall|i: int| 0 <= i < s.len() ==> (#[trigger] s[i]).wf()
}

pub open spec fn positions_wf(s: Seq<GamePosition>) -> bool {
    forall|i: int| 0 <= i < s.len() ==> (#[trigger] s[i]).wf()
}

impl World {
    pub open spec fn wf(&self) -> bool {
        &&& levels_wf(self.levels@)
        &&& self.game_map.wf()
        &&& self.game_map.current_level < self.levels@.len()
        &&& self.player.wf()
        &&& enemies_wf(self.enemies@)
        &&& bullets_wf(self.bullets@)
        &&& bullets_wf(self.new_bullets@)
        &&& items_wf(self.items@)
        &&& items_wf(self.new_items@)
        &&& positions_wf(self.corpses@)
        &&& self.num_enemies_left as int == self.enemies@.len()
    }

    /// Everything but the entities and the player is as in `o`.
    pub open spec fn same_room(&self, o: &World) -> bool {
        &&& self.levels == o.levels
        &&& self.game_map == o.game_map
        &&& self.floors_visited == o.floors_visited
        &&& self.items == o.items
        &&& self.new_items == o.new_items
        &&& self.corpses == o.corpses
        &&& self.game_over == o.game_over
    }

    /// Starts a game on level `start_level` of the pool `levels`: the player
    /// on the level's start tile with a full timer, and one chasing, shooting
    /// enemy on its first floor tile.
    pub fn new(levels: Vec<Vec<u32>>, start_level: usize) -> (w: World)
        requires
            levels_wf(levels@),
            start_level < levels@.len(),
        ensures
            w.wf(),
            w.levels@ == levels@,
            w.game_map.map@ == decoded(levels@[start_level as int]@),
            w.game_map.valid_enemy_spawns@ == floor_tiles(w.game_map.map@, GRID_CELLS as nat),
            w.game_map.player_start == last_tile_of(
                w.game_map.map@,
                GameMapTile::PlayerStart,
                GRID_CELLS as nat,
                corner_tile(),
            ),
            w.game_map.ending_spot == last_tile_of(
                w.game_map.map@,
                GameMapTile::Teleport,
                GRID_CELLS as nat,
                corner_tile(),
            ),
            w.game_map.current_level == start_level,
            !w.game_map.powerups_spawned,
            w.floors_visited == 0,
            !w.game_over,
            w.bullets@.len() == 0 && w.new_bullets@.len() == 0,
            w.items@.len() == 0 && w.new_items@.len() == 0 && w.corpses@.len() == 0,
            w.player.pos == GamePosition::from_tile_spec(w.game_map.player_start),
            w.player.coll == (CollisionDetectionFlag { w: BODY_BOX, h: BODY_BOX }),
            w.player.player == Player::default_spec(),
            w.player.shooter.shoot_rate == 1000,
            w.player.shooter.speed == PLAYER_BULLET_SPEED,
            w.player.shooter.upgrades == 0,
            w.player.time.remaining == PLAYER_START_TIME * 1000,
            w.player.time.max == PLAYER_START_TIME * 1000,
            w.num_enemies_left == 1,
            w.enemies@.len() == 1,
            w.enemies@[0].pos == GamePosition::from_tile_spec(w.game_map.valid_enemy_spawns@[0]),
            w.enemies@[0].coll == (CollisionDetectionFlag { w: BODY_BOX, h: BODY_BOX }),
            w.enemies@[0].flag.moves,
            w.enemies@[0].time.remaining == FIRST_ENEMY_TIME * 1000,
            w.enemies@[0].time.max == FIRST_ENEMY_TIME * 1000,
            w.enemies@[0].shooter matches Some(s) && s.shoot_rate == 2000 && s.speed
                == FIRST_ENEMY_BULLET_SPEED && s.upgrades == 0,
    {
        let game_map = GameMap::build(&levels[start_level], start_level);
        proof {
            assert(game_map.map@ =~= decoded(levels@[start_level as int]@));
            assert(level_playable(levels@[start_level as int]@));
        }
        let player = PlayerEntity {
            pos: GamePosition::from_tile(game_map.player_start),
            coll: CollisionDetectionFlag { w: BODY_BOX, h: BODY_BOX },
            player: Player::default(),
            shooter: Shooter::new(1, PLAYER_BULLET_SPEED),
            time: TimeLeft::new(PLAYER_START_TIME),
        };
        let spawn = game_map.valid_enemy_spawns[0];
        let enemy = EnemyEntity {
            pos: GamePosition::from_tile(spawn),
            coll: CollisionDetectionFlag { w: BODY_BOX, h: BODY_BOX },
            flag: EnemyFlag::default(),
            time: TimeLeft::new(FIRST_ENEMY_TIME),
            shooter: Some(Shooter::new(2, FIRST_ENEMY_BULLET_SPEED)),
        };
        let mut enemies: Vec<EnemyEntity> = Vec::new();
        enemies.push(enemy);
        World {
            levels,
            game_map,
            player,
            enemies,
            bullets: Vec::new(),
            items: Vec::new(),
            corpses: Vec::new(),
            new_bullets: Vec::new(),
            new_items: Vec::new(),
            floors_visited: 0,
            num_enemies_left: 1,
            game_over: false,
        }
    }

    /// Adds the entities created during the tick to the live ones.
    pub fn maintain(&mut self)
        requires
            old(self).wf(),
        ensures
            final(self).wf(),
            final(self).bullets@ == old(self).bullets@ + old(self).new_bullets@,
            final(self).items@ == old(self).items@ + old(self).new_items@,
            final(self).new_bullets@.len() == 0,
            final(self).new_items@.len() == 0,
            final(self).enemies == old(self).enemies,
            final(self).player == old(self).player,
            final(self).levels == old(self).levels,
            final(self).game_map == old(self).game_map,
            final(self).corpses == old(self).corpses,
            final(self).floors_visited == old(self).floors_visited,
            final(self).num_enemies_left == old(self).num_enemies_left,
            final(self).game_over == old(self).game_over,
    {
        self.bullets.append(&mut self.new_bullets);
        self.items.append(&mut self.new_items);
        proof {
            assert forall|i: int| 0 <= i < self.bullets@.len() implies (#[trigger] self.bullets@[i]).wf() by {
                if i >= old(self).bullets@.len() {
                    assert(self.bullets@[i] == old(self).new_bullets@[i - old(self).bullets@.len()]);
                }
            }
            assert forall|i: int| 0 <= i < self.items@.len() implies (#[trigger] self.items@[i]).wf() by {
                if i >= old(self).items@.len() {
                    assert(self.items@[i] == old(self).new_items@[i - old(self).items@.len()]);
                }
            }
        }
    }

    /// The player's remaining and maximum time, in milliseconds.
    pub fn player_time(&self) -> (r: (u64, u64))
        ensures
            r == (self.player.time.remaining, self.player.time.max),
    {
        (self.player.time.remaining, self.player.time.max)
    }

    /// Number of rooms cleared.
    pub fn floors(&self) -> (r: u32)
        ensures
            r == self.floors_visited,
    {
        self.floors_visited
    }

    /// Whether the player's time has run out.
    pub fn is_game_over(&self) -> (r: bool)
        ensures
            r == self.game_over,
    {
        self.game_over
    }
}

/// The displacement asked for by an input axis value `a` (in thousandths of
/// full deflection) at full speed `speed_multi`.
pub open spec fn axis_amount(speed_multi: int, a: int) -> int {
    if a >= 0 { scaled(speed_multi, a, 1000) } else { -scaled(speed_multi, -a, 1000) }
}

fn axis_amount_exec(speed_multi: i64, a: i64) -> (r: i64)
    requires
        0 <= speed_multi <= WORLD_LIMIT,
        -1000 <= a <= 1000,
    ensures
        r == axis_amount(speed_multi as int, a as int),
        -WORLD_LIMIT <= r <= WORLD_LIMIT,
{
    if a >= 0 {
        scale(speed_multi, a as u64, 1000)
    } else {
        -scale(speed_multi, (-a) as u64, 1000)
    }
}

pub open spec fn axis_ok(a: Option<i64>) -> bool {
    match a {
        Some(v) => -1000 <= v <= 1000,
        None => true,
    }
}

/// The player after moving along `axis` (0 for x, 1 for y) by input `a`.
pub open spec fn player_axis_step(
    map: &GameMap,
    p: PlayerEntity,
    axis: usize,
    a: Option<i64>,
) -> PlayerEntity {
    match a {
        Some(v) => {
            let d = resolved_delta(
                map.map@,
                p.pos,
                axis,
                axis_amount(p.player.speed_multi as int, v as int),
                p.coll,
            );
            let pos = with_axis(p.pos, axis, (if axis == 0 { p.pos.x as int } else { p.pos.y as int }) + d);
            if axis == 0 {
                PlayerEntity { pos, player: Player { speed_x: d as i64, ..p.player }, ..p }
            } else {
                PlayerEntity { pos, player: Player { speed_y: d as i64, ..p.player }, ..p }
            }
        },
        None => p,
    }
}

/// Moves the player by the input axes: first along y, then along x, each
/// through the wall resolver; the applied displacements become the
/// player's last movement.
pub struct MovePlayerSystem;

impl MovePlayerSystem {
    pub fn run(&self, world: &mut World, move_x: Option<i64>, move_y: Option<i64>)
        requires
            old(world).wf(),
            axis_ok(move_x),
            axis_ok(move_y),
        ensures
            final(world).wf(),
            final(world).player == player_axis_step(
                &old(world).game_map,
                player_axis_step(&old(world).game_map, old(world).player, 1, move_y),
                0,
                move_x,
            ),
            final(world).same_room(old(world)),
            final(world).enemies == old(world).enemies,
            final(world).bullets == old(world).bullets,
            final(world).new_bullets == old(world).new_bullets,
            final(world).num_enemies_left == old(world).num_enemies_left,
    {
        if let Some(v) = move_y {
            let amount = axis_amount_exec(world.player.player.speed_multi, v);
            let mut pos = world.player.pos;
            let moved = try_move(&mut pos, 1, amount, &world.game_map, &world.player.coll);
            world.player.pos = pos;
            world.player.player.speed_y = moved;
        }
        if let Some(v) = move_x {
            let amount = axis_amount_exec(world.player.player.speed_multi, v);
            let mut pos = world.player.pos;
            let moved = try_move(&mut pos, 0, amount, &world.game_map, &world.player.coll);
            world.player.pos = pos;
            world.player.player.speed_x = moved;
        }
    }
}

/// A player whose footprint starts clear of every wall tile is still clear
/// after a move on any input axes.
pub proof fn lemma_player_move_keeps_clear(
    map: &GameMap,
    p: PlayerEntity,
    move_x: Option<i64>,
    move_y: Option<i64>,
)
    requires
        map.wf(),
        p.wf(),
        !footprint_hits_wall(map.map@, p.pos, p.coll),
    ensures
        !footprint_hits_wall(
            map.map@,
            player_axis_step(map, player_axis_step(map, p, 1, move_y), 0, move_x).pos,
            p.coll,
        ),
{
    let p1 = player_axis_step(map, p, 1, move_y);
    if let Some(v) = move_y {
        lemma_resolver_never_enters_walls(
            map,
            p.pos,
            1,
            axis_amount(p.player.speed_multi as int, v as int),
            p.coll,
        );
    }
    if let Some(v) = move_x {
        lemma_resolver_never_enters_walls(
            map,
            p1.pos,
            0,
            axis_amount(p1.player.speed_multi as int, v as int),
            p1.coll,
        );
    }
}

/// Some enemy's box overlaps the player's.
pub open spec fn touches_enemy(p: PlayerEntity, enemies: Seq<EnemyEntity>, n: int) -> bool {
    exists|j: int| 0 <= j < n && boxes_overlap(p.pos, p.coll, #[trigger] enemies[j].pos, enemies[j].coll)
}

/// Applies contact damage: any enemy touching the player hits it, once per
/// invincibility window.
pub struct PlayerBadGuyCollide;

impl PlayerBadGuyCollide {
    /// Returns whether the contact cost the player time.
    pub fn run(&self, world: &mut World) -> (hit: bool)
        requires
            old(world).wf(),
        ensures
            final(world).wf(),
            hit == (touches_enemy(old(world).player, old(world).enemies@, old(world).enemies@.len() as int)
                && old(world).player.player.invincible_time == 0),
            (final(world).player.player, final(world).player.time) == (if touches_enemy(
                old(world).player,
                old(world).enemies@,
                old(world).enemies@.len() as int,
            ) {
                hit_spec(old(world).player.player, old(world).player.time)
            } else {
                (old(world).player.player, old(world).player.time)
            }),
            final(world).player.pos == old(world).player.pos,
            final(world).player.coll == old(world).player.coll,
            final(world).player.shooter == old(world).player.shooter,
            final(world).same_room(old(world)),
            final(world).enemies == old(world).enemies,
            final(world).bullets == old(world).bullets,
            final(world).new_bullets == old(world).new_bullets,
            final(world).num_enemies_left == old(world).num_enemies_left,
    {
        let mut pl = world.player.player;
        let mut tm = world.player.time;
        let n = world.enemies.len();
        let mut i: usize = 0;
        while i < n
            invariant
                world.wf(),
                n == world.enemies@.len(),
                i <= n,
                (pl, tm) == (if touches_enemy(world.player, world.enemies@, i as int) {
                    hit_spec(world.player.player, world.player.time)
                } else {
                    (world.player.player, world.player.time)
                }),
                tm.wf(),
            decreases n - i,
        {
            let e = world.enemies[i];
            if check_collision(world.player.pos, world.player.coll, e.pos, e.coll) {
                pl.take_hit(&mut tm);
            }
            proof {
                if boxes_overlap(world.player.pos, world.player.coll, e.pos, e.coll) {
                    assert(touches_enemy(world.player, world.enemies@, i + 1));
                } else {
                    if touches_enemy(world.player, world.enemies@, i + 1) {
                        let j = choose|j: int|
                            0 <= j < i + 1 && boxes_overlap(
                                world.player.pos,
                                world.player.coll,
                                #[trigger] world.enemies@[j].pos,
                                world.enemies@[j].coll,
                            );
                        assert(j < i);
                        assert(touches_enemy(world.player, world.enemies@, i as int));
                    }
                }
            }
            i = i + 1;
        }
        let hit = world.player.player.invincible_time == 0 && pl.invincible_time != 0;
        world.player.player = pl;
        world.player.time = tm;
        hit
    }
}

/// The bullet the player fires in direction `dir`: from the player's
/// position, at the shooter's speed, plus a fifth of the last movement.
pub open spec fn player_shot_spec(p: PlayerEntity, dir: ShootDirection) -> BulletEntity {
    let v = direction_velocity_spec(dir, p.shooter.speed as int);
    BulletEntity {
        pos: p.pos,
        coll: CollisionDetectionFlag { w: BULLET_BOX, h: BULLET_BOX },
        bullet: Bullet {
            speed_x: (v.0 + scaled(p.player.speed_x as int, DRIFT_FIFTHS as int, 5)) as i64,
            speed_y: (v.1 + scaled(p.player.speed_y as int, DRIFT_FIFTHS as int, 5)) as i64,
        },
        owner: BulletOwner::Player,
    }
}

/// Fires a player bullet when the cooldown is over and the shoot signals
/// name a direction; the bullet joins the world at the next `maintain`.
pub struct PlayerShoot;

impl PlayerShoot {
    /// Returns whether a bullet was fired.
    pub fn run(&self, world: &mut World, left: bool, right: bool, up: bool, down: bool) -> (fired: bool)
        requires
            old(world).wf(),
        ensures
            final(world).wf(),
            fired == (old(world).player.shooter.current_cooldown == 0 && direction_spec(
                left,
                right,
                up,
                down,
            ) != ShootDirection::NoShot),
            ({
                let dir = direction_spec(left, right, up, down);
                if old(world).player.shooter.current_cooldown == 0 && dir != ShootDirection::NoShot {
                    &&& final(world).player == PlayerEntity {
                        shooter: Shooter {
                            current_cooldown: old(world).player.shooter.shoot_rate,
                            ..old(world).player.shooter
                        },
                        ..old(world).player
                    }
                    &&& final(world).new_bullets@ == old(world).new_bullets@.push(
                        player_shot_spec(old(world).player, dir),
                    )
                } else {
                    &&& final(world).player == old(world).player
                    &&& final(world).new_bullets == old(world).new_bullets
                }
            }),
            final(world).same_room(old(world)),
            final(world).enemies == old(world).enemies,
            final(world).bullets == old(world).bullets,
            final(world).num_enemies_left == old(world).num_enemies_left,
    {
        if world.player.shooter.current_cooldown != 0 {
            return false;
        }
        let dir = ShootDirection::from_buttons(left, right, up, down);
        if dir == ShootDirection::NoShot {
            return false;
        }
        world.player.shooter.set_cooldown();
        let v = dir.velocity(world.player.shooter.speed);
        let drift_x = scale(world.player.player.speed_x, DRIFT_FIFTHS, 5);
        let drift_y = scale(world.player.player.speed_y, DRIFT_FIFTHS, 5);
        let bullet = BulletEntity {
            pos: world.player.pos,
            coll: CollisionDetectionFlag { w: BULLET_BOX, h: BULLET_BOX },
            bullet: Bullet { speed_x: v.0 + drift_x, speed_y: v.1 + drift_y },
            owner: BulletOwner::Player,
        };
        world.new_bullets.push(bullet);
        proof {
            assert forall|i: int| 0 <= i < world.new_bullets@.len() implies (#[trigger] world.new_bullets@[i]).wf() by {
                if i < old(world).new_bullets@.len() {
                    assert(world.new_bullets@[i] == old(world).new_bullets@[i]);
                }
            }
        }
        true
    }
}

pub open spec fn enemy_cooled(e: EnemyEntity, delta: u64) -> EnemyEntity {
    match e.shooter {
        Some(s) => EnemyEntity {
            shooter: Some(Shooter { current_cooldown: sat_sub(s.current_cooldown, delta), ..s }),
            ..e
        },
        None => e,
    }
}

/// Lets `delta` milliseconds of every shooter's cooldown pass.
pub struct DecrementPlayerCoolDowns;

impl DecrementPlayerCoolDowns {
    pub fn run(&self, world: &mut World, delta: u64)
        requires
            old(world).wf(),
        ensures
            final(world).wf(),
            final(world).player == (PlayerEntity {
                shooter: Shooter {
                    current_cooldown: sat_sub(old(world).player.shooter.current_cooldown, delta),
                    ..old(world).player.shooter
                },
                ..old(world).player
            }),
            final(world).enemies@.len() == old(world).enemies@.len(),
            forall|i: int|
                0 <= i < old(world).enemies@.len() ==> final(world).enemies@[i] == enemy_cooled(
                    #[trigger] old(world).enemies@[i],
                    delta,
                ),
            final(world).same_room(old(world)),
            final(world).bullets == old(world).bullets,
            final(world).new_bullets == old(world).new_bullets,
            final(world).num_enemies_left == old(world).num_enemies_left,
    {
        world.player.shooter.cool_down(delta);
        let n = world.enemies.len();
        let mut out: Vec<EnemyEntity> = Vec::new();
        let mut i: usize = 0;
        while i < n
            invariant
                n == world.enemies@.len(),
                i <= n,
                enemies_wf(world.enemies@),
                out@.len() == i,
                forall|j: int| 0 <= j < i ==> out@[j] == enemy_cooled(#[trigger] world.enemies@[j], delta),
                forall|j: int| 0 <= j < i ==> (#[trigger] out@[j]).wf(),
            decreases n - i,
        {
            let mut e = world.enemies[i];
            if let Some(mut s) = e.shooter {
                s.cool_down(delta);
                e.shooter = Some(s);
            }
            out.push(e);
            i = i + 1;
        }
        world.enemies = out;
    }
}

pub open spec fn clamp_world(v: int) -> i64 {
    if v < -WORLD_LIMIT {
        -WORLD_LIMIT as i64
    } else if v > WORLD_LIMIT {
        WORLD_LIMIT as i64
    } else {
        v as i64
    }
}

fn clamp_world_exec(v: i64) -> (r: i64)
    ensures
        r == clamp_world(v as int),
{
    if v < -WORLD_LIMIT {
        -WORLD_LIMIT
    } else if v > WORLD_LIMIT {
        WORLD_LIMIT
    } else {
        v
    }
}

/// A bullet one tick further along its velocity (held at the world's edge).
pub open spec fn bullet_moved(b: BulletEntity) -> BulletEntity {
    BulletEntity {
        pos: GamePosition {
            x: clamp_world(b.pos.x + b.bullet.speed_x),
            y: clamp_world(b.pos.y + b.bullet.speed_y),
        },
        ..b
    }
}

/// Moves every live bullet by its velocity.
pub struct MoveBullets;

impl MoveBullets {
    pub fn run(&self, world: &mut World)
        requires
            old(world).wf(),
        ensures
            final(world).wf(),
            final(world).bullets@.len() == old(world).bullets@.len(),
            forall|i: int|
                0 <= i < old(world).bullets@.len() ==> final(world).bullets@[i] == bullet_moved(
                    #[trigger] old(world).bullets@[i],
                ),
            final(world).same_room(old(world)),
            final(world).player == old(world).player,
            final(world).enemies == old(world).enemies,
            final(world).new_bullets == old(world).new_bullets,
            final(world).num_enemies_left == old(world).num_enemies_left,
    {
        let n = world.bullets.len();
        let mut out: Vec<BulletEntity> = Vec::new();
        let mut i: usize = 0;
        while i < n
            invariant
                n == world.bullets@.len(),
                i <= n,
                bullets_wf(world.bullets@),
                out@.len() == i,
                forall|j: int| 0 <= j < i ==> out@[j] == bullet_moved(#[trigger] world.bullets@[j]),
                forall|j: int| 0 <= j < i ==> (#[trigger] out@[j]).wf(),
            decreases n - i,
        {
            let mut b = world.bullets[i];
            b.pos = GamePosition {
                x: clamp_world_exec(b.pos.x + b.bullet.speed_x),
                y: clamp_world_exec(b.pos.y + b.bullet.speed_y),
            };
            out.push(b);
            i = i + 1;
        }
        world.bullets = out;
    }
}

pub open spec fn enemy_aged(e: EnemyEntity, delta: u64) -> EnemyEntity {
    EnemyEntity { time: subtract_spec(e.time, delta), ..e }
}

/// Lets `delta` milliseconds pass: the player's invincibility window and
/// every timer run down.
pub struct DecrementTime;

impl DecrementTime {
    pub fn run(&self, world: &mut World, delta: u64)
        requires
            old(world).wf(),
        ensures
            final(world).wf(),
            final(world).player == (PlayerEntity {
                player: decay_spec(old(world).player.player, delta),
                time: subtract_spec(old(world).player.time, delta),
                ..old(world).player
            }),
            final(world).enemies@.len() == old(world).enemies@.len(),
            forall|i: int|
                0 <= i < old(world).enemies@.len() ==> final(world).enemies@[i] == enemy_aged(
                    #[trigger] old(world).enemies@[i],
                    delta,
                ),
            final(world).same_room(old(world)),
            final(world).bullets == old(world).bullets,
            final(world).new_bullets == old(world).new_bullets,
            final(world).num_enemies_left == old(world).num_enemies_left,
    {
        world.player.player.decay_invincibility(delta);
        world.player.time.subtract(delta);
        let n = world.enemies.len();
        let mut out: Vec<EnemyEntity> = Vec::new();
        let mut i: usize = 0;
        while i < n
            invariant
                n == world.enemies@.len(),
                i <= n,
                enemies_wf(world.enemies@),
                out@.len() == i,
                forall|j: int| 0 <= j < i ==> out@[j] == enemy_aged(#[trigger] world.enemies@[j], delta),
                forall|j: int| 0 <= j < i ==> (#[trigger] out@[j]).wf(),
            decreases n - i,
        {
            let mut e = world.enemies[i];
            e.time.subtract(delta);
            out.push(e);
            i = i + 1;
        }
        world.enemies = out;
    }
}

} // verus!
