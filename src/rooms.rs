use vstd::prelude::*;

use crate::components::{
    add_spec, apply_item_time_spec, player_apply_spec, secs_spec, shooter_apply_spec, EnemyFlag,
    Enemies, Item, ItemType, PowerUps, Shooter, TimeLeft,
};
use crate::game_scale::{
    gen_enemy_list, get_enemy_bullet_speed, get_enemy_time, get_powerup_cost, roster_size_spec,
};
use crate::geometry::{coord_tile, CollisionDetectionFlag, GamePosition, TILE_SIZE};
use crate::maps::{corner_tile, floor_tiles, in_grid, last_tile_of, GameMap, GameMapTile, GRID_CELLS};
use crate::random::random_range;
use crate::world::{
    decoded, enemies_wf, items_wf, level_playable, EnemyEntity, ItemEntity, PlayerEntity, World,
    BODY_BOX,
};

verus! {

/// Seconds added to the player's timer on entering a new room.
pub const ROOM_TIME_BONUS: u64 = 10;

/// Height of a stationary enemy's box.
pub const TALL_BOX: i64 = 100000;

/// Seconds between an enemy's shots.
pub const ENEMY_SHOOT_RATE: u64 = 2;

/// Picks the level after `current` from a pool of `num_levels`: uniformly
/// among the others, or `current` again when it is the only one.
pub fn select_next_level(current: usize, num_levels: usize) -> (r: usize)
    requires
        current < num_levels,
    ensures
        r < num_levels,
        num_levels > 1 ==> r != current,
        num_levels == 1 ==> r == current,
{
    if num_levels == 1 {
        return current;
    }
    let pick = random_range(0, (num_levels - 1) as u64) as usize;
    if pick >= current {
        pick + 1
    } else {
        pick
    }
}

/// A fresh enemy timer for floor `floor`.
pub open spec fn fresh_time(floor: u32) -> TimeLeft {
    TimeLeft {
        remaining: secs_spec((floor * 5 + 25) as u64),
        max: secs_spec((floor * 5 + 25) as u64),
    }
}

/// `e` is a freshly spawned enemy of variant `v` on tile `tile` of floor `floor`.
pub open spec fn fresh_enemy(e: EnemyEntity, v: Enemies, tile: (usize, usize), floor: u32) -> bool {
    &&& e.wf()
    &&& e.pos == GamePosition::from_tile_spec(tile)
    &&& e.time == fresh_time(floor)
    &&& (match v {
        Enemies::Stationary => !e.flag.moves && e.coll == (CollisionDetectionFlag {
            w: TILE_SIZE,
            h: TALL_BOX,
        }) && e.shooter is Some,
        Enemies::NoShoot => e.flag.moves && e.coll == (CollisionDetectionFlag {
            w: BODY_BOX,
            h: BODY_BOX,
        }) && e.shooter is None,
        Enemies::Full => e.flag.moves && e.coll == (CollisionDetectionFlag {
            w: BODY_BOX,
            h: BODY_BOX,
        }) && e.shooter is Some,
    })
    &&& (e.shooter matches Some(s) ==> s.shoot_rate == ENEMY_SHOOT_RATE * 1000 && s.speed == (
    floor / 3 + 3) as int * 1000 && s.upgrades == 0)
}

/// A new enemy of variant `v` on tile `tile`, scaled for floor `floor`.
pub fn make_enemy(v: Enemies, tile: (usize, usize), floor: u32) -> (r: EnemyEntity)
    requires
        in_grid(tile),
    ensures
        fresh_enemy(r, v, tile, floor),
{
    let pos = GamePosition::from_tile(tile);
    let time = TimeLeft::new(get_enemy_time(floor));
    let speed = get_enemy_bullet_speed(floor);
    match v {
        Enemies::Stationary => EnemyEntity {
            pos,
            coll: CollisionDetectionFlag { w: TILE_SIZE, h: TALL_BOX },
            flag: EnemyFlag::new_stationary(),
            time,
            shooter: Some(Shooter::new(ENEMY_SHOOT_RATE, speed)),
        },
        Enemies::NoShoot => EnemyEntity {
            pos,
            coll: CollisionDetectionFlag { w: BODY_BOX, h: BODY_BOX },
            flag: EnemyFlag::default(),
            time,
            shooter: None,
        },
        Enemies::Full => EnemyEntity {
            pos,
            coll: CollisionDetectionFlag { w: BODY_BOX, h: BODY_BOX },
            flag: EnemyFlag::default(),
            time,
            shooter: Some(Shooter::new(ENEMY_SHOOT_RATE, speed)),
        },
    }
}

/// `e` is a fresh enemy of floor `floor` on one of the map's spawn tiles.
pub open spec fn spawned_on(map: &GameMap, e: EnemyEntity, floor: u32) -> bool {
    exists|k: int, v: Enemies|
        0 <= k < map.valid_enemy_spawns@.len() && #[trigger] fresh_enemy(
            e,
            v,
            map.valid_enemy_spawns@[k],
            floor,
        )
}

/// Number of enemies spawned for a roster draw: none on a map without spawn tiles.
pub open spec fn spawn_count(map: &GameMap, floor: u32, sample: u64) -> int {
    if map.valid_enemy_spawns@.len() == 0 { 0 } else { roster_size_spec(floor, sample) }
}

impl Enemies {
    /// Rolls the roster of floor `floor` (given the Poisson draw `sample`)
    /// and places each enemy on a spawn tile of the map drawn independently.
    pub fn spawn(world: &mut World, floor: u32, sample: u64)
        requires
            old(world).wf(),
            old(world).enemies@.len() + roster_size_spec(floor, sample) <= u32::MAX,
        ensures
            final(world).wf(),
            final(world).enemies@.len() == old(world).enemies@.len() + spawn_count(
                &old(world).game_map,
                floor,
                sample,
            ),
            final(world).enemies@.subrange(0, old(world).enemies@.len() as int)
                == old(world).enemies@,
            forall|k: int|
                old(world).enemies@.len() <= k < final(world).enemies@.len() ==> spawned_on(
                    &old(world).game_map,
                    #[trigger] final(world).enemies@[k],
                    floor,
                ),
            final(world).same_room(old(world)),
            final(world).player == old(world).player,
            final(world).bullets == old(world).bullets,
            final(world).new_bullets == old(world).new_bullets,
    {
        let n_spawns = world.game_map.valid_enemy_spawns.len();
        if n_spawns == 0 {
            return;
        }
        let list = gen_enemy_list(floor, sample);
        let mut enemies: Vec<EnemyEntity> = Vec::new();
        std::mem::swap(&mut enemies, &mut world.enemies);
        let ghost start = enemies@;
        let mut i: usize = 0;
        while i < list.len()
            invariant
                i <= list@.len(),
                list@.len() == roster_size_spec(floor, sample),
                start == old(world).enemies@,
                enemies@.len() == start.len() + i,
                enemies@.subrange(0, start.len() as int) == start,
                enemies_wf(enemies@),
                world.game_map == old(world).game_map,
                world.game_map.wf(),
                n_spawns == world.game_map.valid_enemy_spawns@.len(),
                n_spawns > 0,
                forall|k: int|
                    start.len() <= k < enemies@.len() ==> spawned_on(
                        &world.game_map,
                        #[trigger] enemies@[k],
                        floor,
                    ),
            decreases list@.len() - i,
        {
            let k = random_range(0, n_spawns as u64) as usize;
            let tile = world.game_map.valid_enemy_spawns[k];
            let e = make_enemy(list[i], tile, floor);
            let ghost prev = enemies@;
            enemies.push(e);
            proof {
                assert(fresh_enemy(e, list@[i as int], world.game_map.valid_enemy_spawns@[k as int], floor));
                assert(enemies@ == prev.push(e));
                assert(enemies@.subrange(0, start.len() as int) =~= prev.subrange(0, start.len() as int));
                assert forall|j: int| 0 <= j < enemies@.len() implies (#[trigger] enemies@[j]).wf() by {
                    if j < prev.len() {
                        assert(enemies@[j] == prev[j]);
                    }
                }
                assert forall|j: int| start.len() <= j < enemies@.len() implies spawned_on(
                    &world.game_map,
                    #[trigger] enemies@[j],
                    floor,
                ) by {
                    if j < prev.len() {
                        assert(enemies@[j] == prev[j]);
                    }
                }
            }
            i = i + 1;
        }
        let count = enemies.len();
        world.enemies = enemies;
        world.num_enemies_left = count as u32;
    }
}

/// The map built from level `choice` of the pool.
pub open spec fn built_from(map: &GameMap, levels: Seq<Vec<u32>>, choice: int) -> bool {
    &&& map.current_level == choice
    &&& map.map@ == decoded(levels[choice]@)
    &&& map.valid_enemy_spawns@ == floor_tiles(map.map@, GRID_CELLS as nat)
    &&& map.player_start == last_tile_of(map.map@, GameMapTile::PlayerStart, GRID_CELLS as nat, corner_tile())
    &&& map.ending_spot == last_tile_of(map.map@, GameMapTile::Teleport, GRID_CELLS as nat, corner_tile())
    &&& !map.powerups_spawned
}

/// Enters the next room: picks another level, rebuilds the map from it,
/// puts the player on its start tile and spawns the roster for `floor`.
pub fn start_new_level(world: &mut World, floor: u32, sample: u64)
    requires
        old(world).wf(),
        old(world).enemies@.len() == 0,
        sample <= u32::MAX / 2,
    ensures
        final(world).wf(),
        built_from(&final(world).game_map, old(world).levels@, final(world).game_map.current_level as int),
        old(world).levels@.len() > 1 ==> final(world).game_map.current_level
            != old(world).game_map.current_level,
        final(world).player == (PlayerEntity {
            pos: GamePosition::from_tile_spec(final(world).game_map.player_start),
            ..old(world).player
        }),
        final(world).enemies@.len() == roster_size_spec(floor, sample),
        forall|k: int|
            0 <= k < final(world).enemies@.len() ==> spawned_on(
                &final(world).game_map,
                #[trigger] final(world).enemies@[k],
                floor,
            ),
        final(world).levels == old(world).levels,
        final(world).items == old(world).items,
        final(world).new_items == old(world).new_items,
        final(world).corpses == old(world).corpses,
        final(world).bullets == old(world).bullets,
        final(world).new_bullets == old(world).new_bullets,
        final(world).floors_visited == old(world).floors_visited,
        final(world).game_over == old(world).game_over,
{
    let choice = select_next_level(world.game_map.current_level, world.levels.len());
    let game_map = GameMap::build(&world.levels[choice], choice);
    proof {
        assert(game_map.map@ =~= decoded(world.levels@[choice as int]@));
        assert(level_playable(world.levels@[choice as int]@));
    }
    world.player.pos = GamePosition::from_tile(game_map.player_start);
    world.game_map = game_map;
    proof {
        assert(floor / 2 + 1 <= u32::MAX / 2 + 1);
    }
    Enemies::spawn(world, floor, sample);
}

/// The room is cleared and the player stands on the teleport tile.
pub open spec fn room_exit_reached(w: &World) -> bool {
    &&& w.num_enemies_left == 0
    &&& coord_tile(w.player.pos.x as int) == w.game_map.ending_spot.0
    &&& coord_tile(w.player.pos.y as int) == w.game_map.ending_spot.1
}

/// Moves to the next room once it is cleared and the player reaches the
/// teleport tile: the room's items and corpses go, the player gains
/// `ROOM_TIME_BONUS` seconds, a new level and roster come in (rolled for
/// the floor count before this room), and the floor count goes up.
pub struct CheckForNextRoom;

impl CheckForNextRoom {
    /// Returns whether the room changed.
    pub fn run(&self, world: &mut World, sample: u64) -> (changed: bool)
        requires
            old(world).wf(),
            sample <= u32::MAX / 2,
        ensures
            final(world).wf(),
            changed == room_exit_reached(old(world)),
            !room_exit_reached(old(world)) ==> *final(world) == *old(world),
            room_exit_reached(old(world)) ==> {
                &&& final(world).items@.len() == 0
                &&& final(world).new_items@.len() == 0
                &&& final(world).corpses@.len() == 0
                &&& final(world).num_enemies_left as int == final(world).enemies@.len()
                &&& final(world).enemies@.len() == roster_size_spec(old(world).floors_visited, sample)
                &&& forall|k: int|
                    0 <= k < final(world).enemies@.len() ==> spawned_on(
                        &final(world).game_map,
                        #[trigger] final(world).enemies@[k],
                        old(world).floors_visited,
                    )
                &&& built_from(
                    &final(world).game_map,
                    old(world).levels@,
                    final(world).game_map.current_level as int,
                )
                &&& (old(world).levels@.len() > 1 ==> final(world).game_map.current_level
                    != old(world).game_map.current_level)
                &&& final(world).player.pos == GamePosition::from_tile_spec(
                    final(world).game_map.player_start,
                )
                &&& final(world).player.time == add_spec(
                    old(world).player.time,
                    (ROOM_TIME_BONUS * 1000) as u64,
                )
                &&& final(world).floors_visited == (if old(world).floors_visited == u32::MAX {
                    u32::MAX
                } else {
                    (old(world).floors_visited + 1) as u32
                })
                &&& final(world).bullets == old(world).bullets
                &&& final(world).game_over == old(world).game_over
            },
    {
        if world.num_enemies_left != 0 {
            return false;
        }
        let tile = world.player.pos.to_tile();
        if tile.0 != world.game_map.ending_spot.0 || tile.1 != world.game_map.ending_spot.1 {
            return false;
        }
        world.items.clear();
        world.new_items.clear();
        world.corpses.clear();
        world.player.time.add(ROOM_TIME_BONUS * 1000);
        let floor = world.floors_visited;
        start_new_level(world, floor, sample);
        world.floors_visited = world.floors_visited.saturating_add(1);
        true
    }
}

/// Puts an item of kind `kind` and cost `cost` on tile `location`; it
/// appears at the next `maintain`.
pub fn spawn_item(world: &mut World, location: (usize, usize), kind: ItemType, cost: u64)
    requires
        old(world).wf(),
        location.0 <= 32,
        location.1 <= 32,
    ensures
        final(world).wf(),
        final(world).new_items@ == old(world).new_items@.push(
            ItemEntity {
                item: Item { location, kind, cost },
                pos: GamePosition::from_tile_spec(location),
            },
        ),
        final(world).items == old(world).items,
        final(world).enemies == old(world).enemies,
        final(world).player == old(world).player,
        final(world).levels == old(world).levels,
        final(world).game_map == old(world).game_map,
        final(world).corpses == old(world).corpses,
        final(world).bullets == old(world).bullets,
        final(world).new_bullets == old(world).new_bullets,
        final(world).floors_visited == old(world).floors_visited,
        final(world).num_enemies_left == old(world).num_enemies_left,
        final(world).game_over == old(world).game_over,
{
    let it = ItemEntity { item: Item::new(location, kind, cost), pos: GamePosition::from_tile(location) };
    world.new_items.push(it);
    proof {
        assert forall|k: int| 0 <= k < world.new_items@.len() implies (#[trigger] world.new_items@[k]).wf() by {
            if k < old(world).new_items@.len() {
                assert(world.new_items@[k] == old(world).new_items@[k]);
            }
        }
    }
}

/// Puts a power-up of a random kind and cost `cost` on tile `location`.
pub fn spawn_powerup(world: &mut World, location: (usize, usize), cost: u64)
    requires
        old(world).wf(),
        location.0 <= 32,
        location.1 <= 32,
    ensures
        final(world).wf(),
        final(world).new_items@.len() == old(world).new_items@.len() + 1,
        final(world).new_items@.drop_last() == old(world).new_items@,
        final(world).new_items@.last().item.location == location,
        final(world).new_items@.last().item.cost == cost,
        final(world).new_items@.last().item.kind is PowerUp,
        final(world).items == old(world).items,
        final(world).enemies == old(world).enemies,
        final(world).player == old(world).player,
        final(world).levels == old(world).levels,
        final(world).game_map == old(world).game_map,
        final(world).corpses == old(world).corpses,
        final(world).bullets == old(world).bullets,
        final(world).new_bullets == old(world).new_bullets,
        final(world).floors_visited == old(world).floors_visited,
        final(world).num_enemies_left == old(world).num_enemies_left,
        final(world).game_over == old(world).game_over,
{
    let kind = ItemType::PowerUp(PowerUps::get_random());
    spawn_item(world, location, kind, cost);
}

/// Once per cleared room, places two power-ups beside the teleport tile,
/// one tile to each side, at the floor's power-up cost.
pub struct CreatePowerUps;

impl CreatePowerUps {
    pub fn run(&self, world: &mut World)
        requires
            old(world).wf(),
        ensures
            final(world).wf(),
            (old(world).num_enemies_left == 0 && !old(world).game_map.powerups_spawned) ==> {
                let (x, y) = old(world).game_map.ending_spot;
                let added = final(world).new_items@.len() - old(world).new_items@.len();
                &&& final(world).game_map.powerups_spawned
                &&& added == (if x >= 1 { 2int } else { 1int })
                &&& final(world).new_items@.subrange(0, old(world).new_items@.len() as int)
                    == old(world).new_items@
                &&& forall|k: int|
                    old(world).new_items@.len() <= k < final(world).new_items@.len() ==> {
                        &&& (#[trigger] final(world).new_items@[k]).item.cost == get_powerup_cost_spec(
                            old(world).floors_visited,
                        )
                        &&& final(world).new_items@[k].item.kind is PowerUp
                        &&& final(world).new_items@[k].item.location.1 == y
                    }
                &&& final(world).new_items@[old(world).new_items@.len() as int].item.location.0 == x + 1
                &&& (x >= 1 ==> final(world).new_items@[old(world).new_items@.len() as int + 1].item.location.0
                    == x - 1)
            },
            !(old(world).num_enemies_left == 0 && !old(world).game_map.powerups_spawned)
                ==> *final(world) == *old(world),
            final(world).items == old(world).items,
            final(world).enemies == old(world).enemies,
            final(world).player == old(world).player,
            final(world).levels == old(world).levels,
            final(world).corpses == old(world).corpses,
            final(world).bullets == old(world).bullets,
            final(world).new_bullets == old(world).new_bullets,
            final(world).floors_visited == old(world).floors_visited,
            final(world).num_enemies_left == old(world).num_enemies_left,
            final(world).game_over == old(world).game_over,
            final(world).game_map.map == old(world).game_map.map,
            final(world).game_map.current_level == old(world).game_map.current_level,
    {
        if world.num_enemies_left != 0 || world.game_map.powerups_spawned {
            return;
        }
        world.game_map.powerups_spawned = true;
        let (x, y) = world.game_map.ending_spot;
        let cost = get_powerup_cost(world.floors_visited);
        let ghost base = world.new_items@;
        spawn_powerup(world, (x + 1, y), cost);
        let ghost one = world.new_items@;
        if x >= 1 {
            spawn_powerup(world, (x - 1, y), cost);
            proof {
                assert(world.new_items@[base.len() as int] == one[base.len() as int]);
            }
        }
        proof {
            assert(world.new_items@.subrange(0, base.len() as int) =~= base);
            assert forall|k: int| base.len() <= k < world.new_items@.len() implies {
                &&& (#[trigger] world.new_items@[k]).item.cost == get_powerup_cost_spec(old(world).floors_visited)
                &&& world.new_items@[k].item.kind is PowerUp
                &&& world.new_items@[k].item.location.1 == y
            } by {
                if k < one.len() && world.new_items@.len() > one.len() {
                    assert(world.new_items@[k] == one[k]);
                }
            }
        }
    }
}

pub open spec fn get_powerup_cost_spec(floor: u32) -> u64 {
    (5 * (floor / 5) as int + 10) as u64
}

/// The player after picking up, in order, each of the first `n` items that
/// lies on `tile`.
pub open spec fn pickup_fold(p: PlayerEntity, items: Seq<ItemEntity>, tile: (usize, usize), n: int) -> PlayerEntity
    decreases n,
{
    if n <= 0 {
        p
    } else {
        let q = pickup_fold(p, items, tile, n - 1);
        let it = items[n - 1].item;
        if it.location == tile {
            PlayerEntity {
                player: player_apply_spec(q.player, it),
                shooter: shooter_apply_spec(q.shooter, it),
                time: apply_item_time_spec(q.time, it),
                ..q
            }
        } else {
            q
        }
    }
}

/// Picking up items changes neither the player's position nor its box.
pub proof fn lemma_pickup_keeps_place(p: PlayerEntity, items: Seq<ItemEntity>, tile: (usize, usize), n: int)
    ensures
        pickup_fold(p, items, tile, n).pos == p.pos,
        pickup_fold(p, items, tile, n).coll == p.coll,
    decreases n,
{
    if n > 0 {
        lemma_pickup_keeps_place(p, items, tile, n - 1);
    }
}

/// Items not on `tile`.
pub open spec fn not_on(tile: (usize, usize)) -> spec_fn(ItemEntity) -> bool {
    |it: ItemEntity| it.item.location != tile
}

/// The tile the player stands on.
pub open spec fn player_tile(p: PlayerEntity) -> (usize, usize) {
    (coord_tile(p.pos.x as int) as usize, coord_tile(p.pos.y as int) as usize)
}

/// Applies every item on the player's tile to the player (its upgrade, then
/// its time bonus and cost) and removes it.
pub struct PickupItem;

impl PickupItem {
    pub fn run(&self, world: &mut World)
        requires
            old(world).wf(),
        ensures
            final(world).wf(),
            final(world).player == pickup_fold(
                old(world).player,
                old(world).items@,
                player_tile(old(world).player),
                old(world).items@.len() as int,
            ),
            final(world).items@ == old(world).items@.filter(not_on(player_tile(old(world).player))),
            final(world).enemies == old(world).enemies,
            final(world).levels == old(world).levels,
            final(world).game_map == old(world).game_map,
            final(world).corpses == old(world).corpses,
            final(world).bullets == old(world).bullets,
            final(world).new_bullets == old(world).new_bullets,
            final(world).new_items == old(world).new_items,
            final(world).floors_visited == old(world).floors_visited,
            final(world).num_enemies_left == old(world).num_enemies_left,
            final(world).game_over == old(world).game_over,
    {
        let tile = world.player.pos.to_tile();
        let ghost p0 = world.player;
        let mut p = world.player;
        let n = world.items.len();
        let mut kept: Vec<ItemEntity> = Vec::new();
        let mut i: usize = 0;
        while i < n
            invariant
                n == world.items@.len(),
                i <= n,
                items_wf(world.items@),
                p0 == world.player,
                tile == player_tile(p0),
                p == pickup_fold(p0, world.items@, tile, i as int),
                p.wf(),
                kept@ == world.items@.subrange(0, i as int).filter(not_on(tile)),
                items_wf(kept@),
            decreases n - i,
        {
            let it = world.items[i];
            proof {
                reveal(Seq::filter);
                let pre = world.items@.subrange(0, i as int);
                let post = world.items@.subrange(0, i + 1);
                assert(post.drop_last() == pre);
                assert(post.last() == it);
                assert(post.filter(not_on(tile)) == (if not_on(tile)(it) {
                    pre.filter(not_on(tile)).push(it)
                } else {
                    pre.filter(not_on(tile))
                }));
            }
            if it.item.location.0 == tile.0 && it.item.location.1 == tile.1 {
                p.player.apply_item(&it.item);
                p.shooter.apply_item(&it.item);
                p.time.apply_item(&it.item);
            } else {
                let ghost prev = kept@;
                kept.push(it);
                proof {
                    assert forall|k: int| 0 <= k < kept@.len() implies (#[trigger] kept@[k]).wf() by {
                        if k < prev.len() {
                            assert(kept@[k] == prev[k]);
                        } else {
                            assert(kept@[k] == it);
                        }
                    }
                }
            }
            i = i + 1;
        }
        proof {
            assert(world.items@.subrange(0, n as int) == world.items@);
        }
        world.player = p;
        world.items = kept;
    }
}

/// Half the arena's width and height, in sub-units.
pub const ARENA_HALF_WIDTH: i64 = 683000;

pub const ARENA_HALF_HEIGHT: i64 = 384000;

/// Maps world positions to screen positions, with the player centred.
pub struct GamePositionTransform;

impl GamePositionTransform {
    /// Where `pos` is drawn when the camera follows the player.
    pub fn run(&self, world: &World, pos: GamePosition) -> (r: GamePosition)
        requires
            world.wf(),
            pos.wf(),
        ensures
            r.x == pos.x + ARENA_HALF_WIDTH - world.player.pos.x,
            r.y == pos.y + ARENA_HALF_HEIGHT - world.player.pos.y,
    {
        GamePosition {
            x: pos.x + (ARENA_HALF_WIDTH - world.player.pos.x),
            y: pos.y + (ARENA_HALF_HEIGHT - world.player.pos.y),
        }
    }
}

} // verus!
