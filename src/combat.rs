use vstd::prelude::*;

use crate::components::{
    hit_spec, secs, secs_spec, subtract_spec, Bullet, Item, ItemType, Shooter, TimeLeft,
};
use crate::geometry::{
    aim, aim_spec, boxes_overlap, check_collision, CollisionDetectionFlag, GamePosition, TILE_SIZE,
};
use crate::maps::{cell_coord, footprint_hits_wall, GameMap, GameMapTile, GRID_CELLS};
use crate::movement::{lemma_resolver_never_enters_walls, resolved_delta, try_move, with_axis};
use crate::random::random_ratio;
use crate::world::{
    bullets_wf, enemies_wf, items_wf, positions_wf, BulletEntity, BulletOwner, EnemyEntity,
    ItemEntity, PlayerEntity, World, BULLET_BOX,
};

verus! {

/// Walking speed of a chasing enemy, in sub-units per tick.
pub const ENEMY_WALK_SPEED: i64 = 2000;

/// Seconds added by the time item a dying enemy may drop.
pub const DROP_BONUS: u64 = 10;

/// The dying enemy's chance, out of `DROP_DEN`, of dropping a time item.
pub const DROP_NUM: u32 = 1;

pub const DROP_DEN: u32 = 4;

/// The enemy's shooter is ready to fire.
pub open spec fn enemy_fires(e: EnemyEntity) -> bool {
    e.shooter matches Some(s) && s.current_cooldown == 0
}

/// The enemy after it fired, when it did.
pub open spec fn enemy_after_shot(e: EnemyEntity) -> EnemyEntity {
    match e.shooter {
        Some(s) => if s.current_cooldown == 0 {
            EnemyEntity { shooter: Some(Shooter { current_cooldown: s.shoot_rate, ..s }), ..e }
        } else {
            e
        },
        None => e,
    }
}

/// The bullet an enemy fires at `target`: from its position, along the line
/// to the target, at its shooter's speed.
pub open spec fn enemy_shot(e: EnemyEntity, target: GamePosition) -> BulletEntity {
    let speed = match e.shooter {
        Some(s) => s.speed as int,
        None => 0,
    };
    let v = aim_spec(target.x - e.pos.x, target.y - e.pos.y, speed);
    BulletEntity {
        pos: e.pos,
        coll: CollisionDetectionFlag { w: BULLET_BOX, h: BULLET_BOX },
        bullet: Bullet { speed_x: v.0 as i64, speed_y: v.1 as i64 },
        owner: BulletOwner::Enemy,
    }
}

/// The bullets fired by the first `n` enemies, in enemy order.
pub open spec fn enemy_shots(es: Seq<EnemyEntity>, target: GamePosition, n: int) -> Seq<BulletEntity>
    decreases n,
{
    if n <= 0 {
        Seq::empty()
    } else if enemy_fires(es[n - 1]) {
        enemy_shots(es, target, n - 1).push(enemy_shot(es[n - 1], target))
    } else {
        enemy_shots(es, target, n - 1)
    }
}

/// Every enemy whose shooter is ready fires at the player; the bullets join
/// the world at the next `maintain`.
pub struct EnemyShoot;

impl EnemyShoot {
    /// Returns the number of bullets fired.
    pub fn run(&self, world: &mut World) -> (fired: usize)
        requires
            old(world).wf(),
        ensures
            final(world).wf(),
            fired == enemy_shots(
                old(world).enemies@,
                old(world).player.pos,
                old(world).enemies@.len() as int,
            ).len(),
            final(world).enemies@.len() == old(world).enemies@.len(),
            forall|i: int|
                0 <= i < old(world).enemies@.len() ==> final(world).enemies@[i] == enemy_after_shot(
                    #[trigger] old(world).enemies@[i],
                ),
            final(world).new_bullets@ == old(world).new_bullets@ + enemy_shots(
                old(world).enemies@,
                old(world).player.pos,
                old(world).enemies@.len() as int,
            ),
            final(world).same_room(old(world)),
            final(world).player == old(world).player,
            final(world).bullets == old(world).bullets,
    {
        let target = world.player.pos;
        let n = world.enemies.len();
        let mut out: Vec<EnemyEntity> = Vec::new();
        let mut shots: Vec<BulletEntity> = Vec::new();
        let mut i: usize = 0;
        while i < n
            invariant
                n == world.enemies@.len(),
                i <= n,
                enemies_wf(world.enemies@),
                target == world.player.pos,
                target.wf(),
                out@.len() == i,
                forall|j: int| 0 <= j < i ==> out@[j] == enemy_after_shot(#[trigger] world.enemies@[j]),
                forall|j: int| 0 <= j < i ==> (#[trigger] out@[j]).wf(),
                shots@ == enemy_shots(world.enemies@, target, i as int),
                bullets_wf(shots@),
            decreases n - i,
        {
            let mut e = world.enemies[i];
            assert(e.wf());
            if let Some(mut s) = e.shooter {
                if s.current_cooldown == 0 {
                    s.set_cooldown();
                    e.shooter = Some(s);
                    let v = aim(target.x - e.pos.x, target.y - e.pos.y, s.speed);
                    let b = BulletEntity {
                        pos: e.pos,
                        coll: CollisionDetectionFlag { w: BULLET_BOX, h: BULLET_BOX },
                        bullet: Bullet { speed_x: v.0, speed_y: v.1 },
                        owner: BulletOwner::Enemy,
                    };
                    let ghost prev = shots@;
                    shots.push(b);
                    proof {
                        assert forall|j: int| 0 <= j < shots@.len() implies (#[trigger] shots@[j]).wf() by {
                            if j < shots@.len() - 1 {
                                assert(shots@[j] == prev[j]) by {
                                    assert(shots@ == prev.push(b));
                                }
                            }
                        }
                    }
                }
            }
            out.push(e);
            i = i + 1;
        }
        let fired = shots.len();
        world.enemies = out;
        world.new_bullets.append(&mut shots);
        proof {
            let ob = old(world).new_bullets@;
            assert forall|j: int| 0 <= j < world.new_bullets@.len() implies (#[trigger] world.new_bullets@[j]).wf() by {
                if j >= ob.len() {
                    assert(world.new_bullets@[j] == enemy_shots(old(world).enemies@, target, n as int)[j - ob.len()]);
                }
            }
        }
        fired
    }
}

/// An enemy after one chase step toward `target`: a moving enemy heads
/// along the line to the target at `ENEMY_WALK_SPEED`, first along x, then
/// along y, each through the wall resolver.
pub open spec fn chased(map: &GameMap, target: GamePosition, e: EnemyEntity) -> EnemyEntity {
    if !e.flag.moves {
        e
    } else {
        let v = aim_spec(target.x - e.pos.x, target.y - e.pos.y, ENEMY_WALK_SPEED as int);
        let dx = resolved_delta(map.map@, e.pos, 0, v.0, e.coll);
        let p1 = with_axis(e.pos, 0, e.pos.x + dx);
        let dy = resolved_delta(map.map@, p1, 1, v.1, e.coll);
        EnemyEntity { pos: with_axis(p1, 1, p1.y + dy), ..e }
    }
}

/// An enemy whose footprint starts clear of every wall tile is still clear
/// after a chase step toward any target.
pub proof fn lemma_chase_keeps_clear(map: &GameMap, target: GamePosition, e: EnemyEntity)
    requires
        map.wf(),
        e.wf(),
        !footprint_hits_wall(map.map@, e.pos, e.coll),
    ensures
        !footprint_hits_wall(map.map@, chased(map, target, e).pos, e.coll),
{
    if e.flag.moves {
        let v = aim_spec(target.x - e.pos.x, target.y - e.pos.y, ENEMY_WALK_SPEED as int);
        lemma_resolver_never_enters_walls(map, e.pos, 0, v.0, e.coll);
        let dx = resolved_delta(map.map@, e.pos, 0, v.0, e.coll);
        let p1 = with_axis(e.pos, 0, e.pos.x + dx);
        lemma_resolver_never_enters_walls(map, p1, 1, v.1, e.coll);
    }
}

/// Moves every chasing enemy one step toward the player.
pub struct MoveBadGuys;

impl MoveBadGuys {
    pub fn run(&self, world: &mut World)
        requires
            old(world).wf(),
        ensures
            final(world).wf(),
            final(world).enemies@.len() == old(world).enemies@.len(),
            forall|i: int|
                0 <= i < old(world).enemies@.len() ==> final(world).enemies@[i] == chased(
                    &old(world).game_map,
                    old(world).player.pos,
                    #[trigger] old(world).enemies@[i],
                ),
            final(world).same_room(old(world)),
            final(world).player == old(world).player,
            final(world).bullets == old(world).bullets,
            final(world).new_bullets == old(world).new_bullets,
    {
        let target = world.player.pos;
        let n = world.enemies.len();
        let mut out: Vec<EnemyEntity> = Vec::new();
        let mut i: usize = 0;
        while i < n
            invariant
                n == world.enemies@.len(),
                i <= n,
                enemies_wf(world.enemies@),
                world.game_map.wf(),
                target == world.player.pos,
                target.wf(),
                out@.len() == i,
                forall|j: int|
                    0 <= j < i ==> out@[j] == chased(&world.game_map, target, #[trigger] world.enemies@[j]),
                forall|j: int| 0 <= j < i ==> (#[trigger] out@[j]).wf(),
            decreases n - i,
        {
            let mut e = world.enemies[i];
            assert(e.wf());
            if e.flag.moves {
                let v = aim(target.x - e.pos.x, target.y - e.pos.y, ENEMY_WALK_SPEED);
                let mut pos = e.pos;
                try_move(&mut pos, 0, v.0, &world.game_map, &e.coll);
                try_move(&mut pos, 1, v.1, &world.game_map, &e.coll);
                e.pos = pos;
            }
            out.push(e);
            i = i + 1;
        }
        world.enemies = out;
    }
}

/// The box of a wall tile: a tile-sized box centred on the tile's corner.
pub open spec fn wall_box() -> CollisionDetectionFlag {
    CollisionDetectionFlag { w: TILE_SIZE, h: TILE_SIZE }
}

/// A box at `pos` overlaps the box of some wall tile.
pub open spec fn wall_box_hit(tiles: Seq<GameMapTile>, pos: GamePosition, coll: CollisionDetectionFlag) -> bool {
    exists|i: int|
        0 <= i < GRID_CELLS && tiles[i] == GameMapTile::Wall && #[trigger] boxes_overlap(
            pos,
            coll,
            GamePosition::from_tile_spec(cell_coord(i)),
            wall_box(),
        )
}

/// Whether a box at `pos` overlaps the box of some wall tile.
pub fn hits_wall(map: &GameMap, pos: GamePosition, coll: CollisionDetectionFlag) -> (r: bool)
    requires
        map.wf(),
        pos.wf(),
        coll.wf(),
    ensures
        r == wall_box_hit(map.map@, pos, coll),
{
    let mut i: usize = 0;
    while i < GRID_CELLS
        invariant
            map.wf(),
            pos.wf(),
            coll.wf(),
            i <= GRID_CELLS,
            forall|k: int|
                0 <= k < i && map.map@[k] == GameMapTile::Wall ==> !#[trigger] boxes_overlap(
                    pos,
                    coll,
                    GamePosition::from_tile_spec(cell_coord(k)),
                    wall_box(),
                ),
        decreases GRID_CELLS - i,
    {
        if map.map[i] == GameMapTile::Wall {
            let w = GamePosition::from_tile((i / 32, i % 32));
            if check_collision(pos, coll, w, CollisionDetectionFlag { w: TILE_SIZE, h: TILE_SIZE }) {
                assert(w == GamePosition::from_tile_spec(cell_coord(i as int)));
                assert(boxes_overlap(pos, coll, GamePosition::from_tile_spec(cell_coord(i as int)), wall_box()));
                return true;
            }
        }
        i = i + 1;
    }
    false
}

/// A player bullet overlaps enemy `e`.
pub open spec fn bullet_hits_enemy(b: BulletEntity, e: EnemyEntity) -> bool {
    b.owner == BulletOwner::Player && boxes_overlap(b.pos, b.coll, e.pos, e.coll)
}

/// The bullet is used up this tick: it met a wall, or its target kind.
pub open spec fn bullet_spent(
    map: &GameMap,
    player: PlayerEntity,
    enemies: Seq<EnemyEntity>,
    b: BulletEntity,
) -> bool {
    ||| wall_box_hit(map.map@, b.pos, b.coll)
    ||| (b.owner == BulletOwner::Player && exists|j: int|
        0 <= j < enemies.len() && #[trigger] bullet_hits_enemy(b, enemies[j]))
    ||| (b.owner == BulletOwner::Enemy && boxes_overlap(b.pos, b.coll, player.pos, player.coll))
}

/// The bullets that survive the pass.
pub open spec fn bullet_kept(map: GameMap, player: PlayerEntity, enemies: Seq<EnemyEntity>) -> spec_fn(BulletEntity) -> bool {
    |b: BulletEntity| !bullet_spent(&map, player, enemies, b)
}

/// Number of the first `n` bullets that are player bullets overlapping `e`.
pub open spec fn player_hits(bs: Seq<BulletEntity>, e: EnemyEntity, n: int) -> nat
    decreases n,
{
    if n <= 0 {
        0
    } else {
        player_hits(bs, e, n - 1) + (if bullet_hits_enemy(bs[n - 1], e) { 1nat } else { 0nat })
    }
}

/// A timer after `k` hits of `dmg` milliseconds each.
pub open spec fn worn(t: TimeLeft, k: nat, dmg: u64) -> TimeLeft
    decreases k,
{
    if k == 0 {
        t
    } else {
        subtract_spec(worn(t, (k - 1) as nat, dmg), dmg)
    }
}

proof fn lemma_worn_wf(t: TimeLeft, k: nat, dmg: u64)
    requires
        t.wf(),
    ensures
        worn(t, k, dmg).wf(),
        worn(t, k, dmg).max == t.max,
    decreases k,
{
    if k > 0 {
        lemma_worn_wf(t, (k - 1) as nat, dmg);
    }
}

/// Some of the first `n` bullets is an enemy bullet overlapping the player.
pub open spec fn enemy_bullet_hits_player(bs: Seq<BulletEntity>, p: PlayerEntity, n: int) -> bool {
    exists|k: int|
        0 <= k < n && (#[trigger] bs[k]).owner == BulletOwner::Enemy && boxes_overlap(
            bs[k].pos,
            bs[k].coll,
            p.pos,
            p.coll,
        )
}

/// Resolves bullet hits: every player bullet takes the player's damage off
/// each enemy it overlaps, an enemy bullet on the player hits it (once per
/// invincibility window), and every bullet that met its target kind or a
/// wall is removed at the end of the pass.
pub struct CheckBulletCollide;

impl CheckBulletCollide {
    /// Returns whether an enemy bullet cost the player time.
    pub fn run(&self, world: &mut World) -> (hit: bool)
        requires
            old(world).wf(),
        ensures
            final(world).wf(),
            hit == (enemy_bullet_hits_player(
                old(world).bullets@,
                old(world).player,
                old(world).bullets@.len() as int,
            ) && old(world).player.player.invincible_time == 0),
            final(world).bullets@ == old(world).bullets@.filter(
                bullet_kept(old(world).game_map, old(world).player, old(world).enemies@),
            ),
            final(world).enemies@.len() == old(world).enemies@.len(),
            forall|j: int|
                0 <= j < old(world).enemies@.len() ==> #[trigger] final(world).enemies@[j] == (
                EnemyEntity {
                    time: worn(
                        old(world).enemies@[j].time,
                        player_hits(
                            old(world).bullets@,
                            old(world).enemies@[j],
                            old(world).bullets@.len() as int,
                        ),
                        secs_spec(old(world).player.player.damage),
                    ),
                    ..old(world).enemies@[j]
                }),
            (final(world).player.player, final(world).player.time) == (if enemy_bullet_hits_player(
                old(world).bullets@,
                old(world).player,
                old(world).bullets@.len() as int,
            ) {
                hit_spec(old(world).player.player, old(world).player.time)
            } else {
                (old(world).player.player, old(world).player.time)
            }),
            final(world).player.pos == old(world).player.pos,
            final(world).player.coll == old(world).player.coll,
            final(world).player.shooter == old(world).player.shooter,
            final(world).same_room(old(world)),
            final(world).new_bullets == old(world).new_bullets,
    {
        let ghost map = world.game_map;
        let ghost player0 = world.player;
        let ghost enemies0 = world.enemies@;
        let dmg = secs(world.player.player.damage);
        let mut enemies: Vec<EnemyEntity> = Vec::new();
        std::mem::swap(&mut enemies, &mut world.enemies);
        let mut pl = world.player.player;
        let mut tm = world.player.time;
        let n = world.bullets.len();
        let ne = enemies.len();
        let mut out: Vec<BulletEntity> = Vec::new();
        let mut i: usize = 0;
        while i < n
            invariant
                n == world.bullets@.len(),
                bullets_wf(world.bullets@),
                world.game_map == map,
                map.wf(),
                world.player == player0,
                player0.wf(),
                enemies_wf(enemies0),
                i <= n,
                ne == enemies@.len(),
                ne == enemies0.len(),
                dmg == secs_spec(player0.player.damage),
                forall|j: int|
                    0 <= j < ne ==> #[trigger] enemies@[j] == (EnemyEntity {
                        time: worn(enemies0[j].time, player_hits(world.bullets@, enemies0[j], i as int), dmg),
                        ..enemies0[j]
                    }),
                (pl, tm) == (if enemy_bullet_hits_player(world.bullets@, player0, i as int) {
                    hit_spec(player0.player, player0.time)
                } else {
                    (player0.player, player0.time)
                }),
                tm.wf(),
                out@ == world.bullets@.subrange(0, i as int).filter(bullet_kept(map, player0, enemies0)),
                bullets_wf(out@),
            decreases n - i,
        {
            let b = world.bullets[i];
            assert(b.wf());
            let mut used = false;
            if b.owner == BulletOwner::Player {
                let mut j: usize = 0;
                while j < ne
                    invariant
                        ne == enemies@.len(),
                        ne == enemies0.len(),
                        enemies_wf(enemies0),
                        b == world.bullets@[i as int],
                        b.wf(),
                        b.owner == BulletOwner::Player,
                        i < n,
                        n == world.bullets@.len(),
                        j <= ne,
                        forall|k: int|
                            0 <= k < j ==> #[trigger] enemies@[k] == (EnemyEntity {
                                time: worn(
                                    enemies0[k].time,
                                    player_hits(world.bullets@, enemies0[k], i + 1),
                                    dmg,
                                ),
                                ..enemies0[k]
                            }),
                        forall|k: int|
                            j <= k < ne ==> #[trigger] enemies@[k] == (EnemyEntity {
                                time: worn(enemies0[k].time, player_hits(world.bullets@, enemies0[k], i as int), dmg),
                                ..enemies0[k]
                            }),
                        used == exists|k: int| 0 <= k < j && #[trigger] bullet_hits_enemy(b, enemies0[k]),
                    decreases ne - j,
                {
                    let mut e = enemies[j];
                    let ghost e0 = enemies0[j as int];
                    assert(e0.wf());
                    proof {
                        lemma_worn_wf(e0.time, player_hits(world.bullets@, e0, i as int), dmg);
                    }
                    if check_collision(b.pos, b.coll, e.pos, e.coll) {
                        used = true;
                        e.time.subtract(dmg);
                    }
                    enemies.set(j, e);
                    proof {
                        assert(bullet_hits_enemy(b, e0) == boxes_overlap(b.pos, b.coll, e0.pos, e0.coll));
                        if !bullet_hits_enemy(b, e0) {
                            if exists|k: int| 0 <= k < j + 1 && #[trigger] bullet_hits_enemy(b, enemies0[k]) {
                                let k = choose|k: int| 0 <= k < j + 1 && #[trigger] bullet_hits_enemy(b, enemies0[k]);
                                assert(k < j);
                            }
                        }
                    }
                    j = j + 1;
                }
                proof {
                    assert(used == exists|k: int| 0 <= k < enemies0.len() && #[trigger] bullet_hits_enemy(b, enemies0[k]));
                }
            } else {
                if check_collision(b.pos, b.coll, world.player.pos, world.player.coll) {
                    used = true;
                    pl.take_hit(&mut tm);
                }
                proof {
                    assert forall|k: int| 0 <= k < ne implies player_hits(world.bullets@, enemies0[k], i + 1)
                        == player_hits(world.bullets@, #[trigger] enemies0[k], i as int) by {}
                    assert forall|k: int| 0 <= k < ne implies #[trigger] enemies@[k] == (EnemyEntity {
                        time: worn(enemies0[k].time, player_hits(world.bullets@, enemies0[k], i + 1), dmg),
                        ..enemies0[k]
                    }) by {
                        assert(player_hits(world.bullets@, enemies0[k], i + 1)
                            == player_hits(world.bullets@, enemies0[k], i as int));
                    }
                }
            }
            proof {
                if b.owner == BulletOwner::Enemy && boxes_overlap(b.pos, b.coll, player0.pos, player0.coll) {
                    assert(enemy_bullet_hits_player(world.bullets@, player0, i + 1));
                } else if enemy_bullet_hits_player(world.bullets@, player0, i + 1) {
                    let k = choose|k: int|
                        0 <= k < i + 1 && (#[trigger] world.bullets@[k]).owner == BulletOwner::Enemy
                            && boxes_overlap(world.bullets@[k].pos, world.bullets@[k].coll, player0.pos, player0.coll);
                    assert(k < i);
                    assert(enemy_bullet_hits_player(world.bullets@, player0, i as int));
                }
            }
            if hits_wall(&world.game_map, b.pos, b.coll) {
                used = true;
            }
            proof {
                assert(used == bullet_spent(&map, player0, enemies0, b));
                reveal(Seq::filter);
                assert(world.bullets@.subrange(0, i + 1).drop_last() == world.bullets@.subrange(0, i as int));
                assert(world.bullets@.subrange(0, i + 1).last() == b);
                assert(world.bullets@.subrange(0, i + 1).filter(bullet_kept(map, player0, enemies0)) == (if bullet_kept(map, player0, enemies0)(b) {
                    world.bullets@.subrange(0, i as int).filter(bullet_kept(map, player0, enemies0)).push(b)
                } else {
                    world.bullets@.subrange(0, i as int).filter(bullet_kept(map, player0, enemies0))
                }));
            }
            let ghost prev_out = out@;
            if !used {
                out.push(b);
            }
            proof {
                assert forall|k: int| 0 <= k < out@.len() implies (#[trigger] out@[k]).wf() by {
                    if k < prev_out.len() {
                        assert(out@[k] == prev_out[k]);
                    } else {
                        assert(out@[k] == b);
                    }
                }
            }
            i = i + 1;
        }
        proof {
            assert(world.bullets@.subrange(0, n as int) == world.bullets@);
            assert forall|j: int| 0 <= j < enemies@.len() implies (#[trigger] enemies@[j]).wf() by {
                assert(enemies0[j].wf());
                lemma_worn_wf(enemies0[j].time, player_hits(world.bullets@, enemies0[j], n as int), dmg);
            }
        }
        let hit = world.player.player.invincible_time == 0 && pl.invincible_time != 0;
        world.enemies = enemies;
        world.bullets = out;
        world.player.player = pl;
        world.player.time = tm;
        hit
    }
}

/// An enemy whose timer has not run out.
pub open spec fn still_alive() -> spec_fn(EnemyEntity) -> bool {
    |e: EnemyEntity| e.time.remaining != 0
}

/// An enemy whose timer has run out.
pub open spec fn out_of_time() -> spec_fn(EnemyEntity) -> bool {
    |e: EnemyEntity| e.time.remaining == 0
}

pub open spec fn enemy_pos() -> spec_fn(EnemyEntity) -> GamePosition {
    |e: EnemyEntity| e.pos
}

/// The time items dropped by the first `n` enemies of `es`: one on the tile
/// of each expired enemy whose coin is true, in enemy order.
pub open spec fn expired_drops(es: Seq<EnemyEntity>, coins: Seq<bool>, n: int) -> Seq<ItemEntity>
    decreases n,
{
    if n <= 0 {
        Seq::empty()
    } else {
        let prev = expired_drops(es, coins, n - 1);
        let e = es[n - 1];
        if e.time.remaining == 0 && coins[n - 1] {
            prev.push(
                ItemEntity {
                    item: Item { location: enemy_tile(e), kind: ItemType::PlusTime(DROP_BONUS), cost: 0 },
                    pos: e.pos,
                },
            )
        } else {
            prev
        }
    }
}

/// The tile an enemy stands on.
pub open spec fn enemy_tile(e: EnemyEntity) -> (usize, usize) {
    (crate::geometry::coord_tile(e.pos.x as int) as usize, crate::geometry::coord_tile(e.pos.y as int) as usize)
}

/// Removes every enemy whose timer ran out: the count of enemies left drops
/// by one for each, a corpse stays where it fell, and it may drop a time item
/// (at no cost) on its tile, which appears at the next `maintain`. Ends the
/// game when the player's timer has run out.
pub struct RemoveOutOfTimeBadGuys;

impl RemoveOutOfTimeBadGuys {
    /// Removes the expired enemies, dropping a time item for each expired
    /// enemy whose entry in `coins` is true. Returns the number removed.
    pub fn run_with_coins(&self, world: &mut World, coins: &Vec<bool>) -> (died: usize)
        requires
            old(world).wf(),
            coins@.len() == old(world).enemies@.len(),
        ensures
            final(world).wf(),
            died == old(world).enemies@.filter(out_of_time()).len(),
            died + final(world).enemies@.len() == old(world).enemies@.len(),
            final(world).enemies@ == old(world).enemies@.filter(still_alive()),
            final(world).num_enemies_left as int == final(world).enemies@.len(),
            final(world).corpses@ == old(world).corpses@ + old(world).enemies@.filter(
                out_of_time(),
            ).map_values(enemy_pos()),
            final(world).new_items@ == old(world).new_items@ + expired_drops(
                old(world).enemies@,
                coins@,
                old(world).enemies@.len() as int,
            ),
            final(world).game_over == (old(world).game_over || old(world).player.time.remaining == 0),
            final(world).levels == old(world).levels,
            final(world).game_map == old(world).game_map,
            final(world).floors_visited == old(world).floors_visited,
            final(world).items == old(world).items,
            final(world).player == old(world).player,
            final(world).bullets == old(world).bullets,
            final(world).new_bullets == old(world).new_bullets,
    {
        let n = world.enemies.len();
        let mut kept: Vec<EnemyEntity> = Vec::new();
        let mut fallen: Vec<GamePosition> = Vec::new();
        let mut drops: Vec<ItemEntity> = Vec::new();
        let mut i: usize = 0;
        while i < n
            invariant
                n == world.enemies@.len(),
                enemies_wf(world.enemies@),
                i <= n,
                kept@ == world.enemies@.subrange(0, i as int).filter(still_alive()),
                enemies_wf(kept@),
                kept@.len() + fallen@.len() == i,
                fallen@ == world.enemies@.subrange(0, i as int).filter(out_of_time()).map_values(enemy_pos()),
                positions_wf(fallen@),
                coins@.len() == n,
                drops@ == expired_drops(world.enemies@, coins@, i as int),
                items_wf(drops@),
            decreases n - i,
        {
            let e = world.enemies[i];
            assert(e.wf());
            proof {
                reveal(Seq::filter);
                let pre = world.enemies@.subrange(0, i as int);
                let post = world.enemies@.subrange(0, i + 1);
                assert(post.drop_last() == pre);
                assert(post.last() == e);
                assert(post.filter(still_alive()) == (if still_alive()(e) { pre.filter(still_alive()).push(e) } else { pre.filter(still_alive()) }));
                assert(post.filter(out_of_time()) == (if out_of_time()(e) { pre.filter(out_of_time()).push(e) } else { pre.filter(out_of_time()) }));
                if out_of_time()(e) {
                    assert(pre.filter(out_of_time()).push(e).map_values(enemy_pos()) =~= pre.filter(out_of_time()).map_values(enemy_pos()).push(e.pos));
                }
            }
            if e.time.remaining == 0 {
                let ghost old_drops = drops@;
                if coins[i] {
                    let tile = e.pos.to_tile();
                    let item = Item::new(tile, ItemType::PlusTime(DROP_BONUS), 0);
                    drops.push(ItemEntity { item, pos: e.pos });
                }
                let ghost prev_fallen = fallen@;
                fallen.push(e.pos);
                proof {
                    assert forall|k: int| 0 <= k < drops@.len() implies (#[trigger] drops@[k]).wf() by {
                        if k < old_drops.len() {
                            assert(drops@[k] == old_drops[k]);
                        }
                    }
                    assert forall|k: int| 0 <= k < fallen@.len() implies (#[trigger] fallen@[k]).wf() by {
                        if k < fallen@.len() - 1 {
                            assert(fallen@[k] == prev_fallen[k]) by {
                                assert(fallen@ == prev_fallen.push(e.pos));
                            }
                        }
                    }
                }
            } else {
                let ghost prev_kept = kept@;
                kept.push(e);
                proof {
                    assert forall|k: int| 0 <= k < kept@.len() implies (#[trigger] kept@[k]).wf() by {
                        if k < kept@.len() - 1 {
                            assert(kept@[k] == prev_kept[k]) by {
                                assert(kept@ == prev_kept.push(e));
                            }
                        }
                    }
                }
            }
            i = i + 1;
        }
        proof {
            assert(world.enemies@.subrange(0, n as int) == world.enemies@);
            world.enemies@.filter(still_alive()).lemma_filter_len(still_alive());
        }
        let count = kept.len();
        proof {
            assert(kept@.len() <= world.enemies@.len()) by {
                world.enemies@.lemma_filter_len(still_alive());
            }
        }
        let died = fallen.len();
        let ghost fallen_all = fallen@;
        let ghost drops_all = drops@;
        world.enemies = kept;
        world.num_enemies_left = count as u32;
        world.corpses.append(&mut fallen);
        world.new_items.append(&mut drops);
        if world.player.time.remaining == 0 {
            world.game_over = true;
        }
        proof {
            let oc = old(world).corpses@;
            assert forall|k: int| 0 <= k < world.corpses@.len() implies (#[trigger] world.corpses@[k]).wf() by {
                if k >= oc.len() {
                    assert(world.corpses@[k] == fallen_all[k - oc.len()]) by {
                        assert(world.corpses@ == oc + fallen_all);
                    }
                }
            }
            let oi = old(world).new_items@;
            assert(world.new_items@ == oi + drops_all);
            assert forall|k: int| 0 <= k < world.new_items@.len() implies (#[trigger] world.new_items@[k]).wf() by {
                if k >= oi.len() {
                    assert(world.new_items@[k] == drops_all[k - oi.len()]);
                }
            }
        }
        died
    }

    /// Removes every enemy whose timer ran out: the count of enemies left
    /// drops by one for each, a corpse stays where it fell, and with chance
    /// `DROP_NUM / DROP_DEN` it drops a time item (at no cost) on its tile,
    /// which appears at the next `maintain`. Ends the game when the player's
    /// timer has run out. Returns the number removed.
    pub fn run(&self, world: &mut World) -> (died: usize)
        requires
            old(world).wf(),
        ensures
            final(world).wf(),
            died == old(world).enemies@.filter(out_of_time()).len(),
            died + final(world).enemies@.len() == old(world).enemies@.len(),
            final(world).enemies@ == old(world).enemies@.filter(still_alive()),
            final(world).num_enemies_left as int == final(world).enemies@.len(),
            final(world).corpses@ == old(world).corpses@ + old(world).enemies@.filter(
                out_of_time(),
            ).map_values(enemy_pos()),
            exists|coins: Seq<bool>|
                coins.len() == old(world).enemies@.len() && #[trigger] final(world).new_items@
                    == old(world).new_items@ + expired_drops(
                    old(world).enemies@,
                    coins,
                    old(world).enemies@.len() as int,
                ),
            final(world).game_over == (old(world).game_over || old(world).player.time.remaining == 0),
            final(world).levels == old(world).levels,
            final(world).game_map == old(world).game_map,
            final(world).floors_visited == old(world).floors_visited,
            final(world).items == old(world).items,
            final(world).player == old(world).player,
            final(world).bullets == old(world).bullets,
            final(world).new_bullets == old(world).new_bullets,
    {
        let n = world.enemies.len();
        let mut coins: Vec<bool> = Vec::new();
        let mut i: usize = 0;
        while i < n
            invariant
                n == world.enemies@.len(),
                i <= n,
                coins@.len() == i,
            decreases n - i,
        {
            let c = if world.enemies[i].time.remaining == 0 {
                random_ratio(DROP_NUM, DROP_DEN)
            } else {
                false
            };
            coins.push(c);
            i = i + 1;
        }
        let died = self.run_with_coins(world, &coins);
        died
    }
}

} // verus!
