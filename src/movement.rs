use vstd::prelude::*;

use crate::geometry::{CollisionDetectionFlag, GamePosition, TILE_SIZE, WORLD_LIMIT};
use crate::maps::{
    cell_coord, cell_index, footprint_hits_wall, footprint_meets_tile, is_wall, lemma_cell_of_tile,
    GameMap, GameMapTile, GRID_CELLS,
};

verus! {

/// `pos` with its coordinate on axis `idx` (0 for x, 1 for y) replaced by `v`.
pub open spec fn with_axis(pos: GamePosition, idx: usize, v: int) -> GamePosition {
    if idx == 0 {
        GamePosition { x: v as i64, y: pos.y }
    } else {
        GamePosition { x: pos.x, y: v as i64 }
    }
}

pub open spec fn axis_of(pos: GamePosition, idx: usize) -> int {
    if idx == 0 { pos.x as int } else { pos.y as int }
}

pub open spec fn cross_of(pos: GamePosition, idx: usize) -> int {
    if idx == 0 { pos.y as int } else { pos.x as int }
}

pub open spec fn extent_of(coll: CollisionDetectionFlag, idx: usize) -> int {
    if idx == 0 { coll.w as int } else { coll.h as int }
}

pub open spec fn cross_extent_of(coll: CollisionDetectionFlag, idx: usize) -> int {
    if idx == 0 { coll.h as int } else { coll.w as int }
}

/// Tile coordinate of cell `i` along axis `idx`, and across it.
pub open spec fn cell_along(i: int, idx: usize) -> int {
    if idx == 0 { cell_coord(i).0 as int } else { cell_coord(i).1 as int }
}

pub open spec fn cell_across(i: int, idx: usize) -> int {
    if idx == 0 { cell_coord(i).1 as int } else { cell_coord(i).0 as int }
}

/// Across the motion, the box at `pos` shares area with cell `i`: the cell
/// lies in a row (or column) the moving box sweeps through.
pub open spec fn in_lane(pos: GamePosition, idx: usize, coll: CollisionDetectionFlag, i: int) -> bool {
    let c = cell_across(i, idx);
    let q = cross_of(pos, idx);
    let f = cross_extent_of(coll, idx);
    2 * c * TILE_SIZE < 2 * q + f && 2 * q - f < 2 * (c + 1) * TILE_SIZE
}

/// Cell `i` is a wall in the lane, entirely ahead of the box in the
/// direction of motion.
pub open spec fn blocks(
    tiles: Seq<GameMapTile>,
    pos: GamePosition,
    idx: usize,
    forward: bool,
    coll: CollisionDetectionFlag,
    i: int,
) -> bool {
    let t = cell_along(i, idx);
    let p = axis_of(pos, idx);
    let e = extent_of(coll, idx);
    &&& tiles[i] == GameMapTile::Wall
    &&& in_lane(pos, idx, coll, i)
    &&& if forward {
        2 * p + e <= 2 * t * TILE_SIZE
    } else {
        2 * (t + 1) * TILE_SIZE <= 2 * p - e
    }
}

/// The distance the box can travel before its leading edge meets cell
/// `i`'s near edge.
pub open spec fn gap(pos: GamePosition, idx: usize, forward: bool, coll: CollisionDetectionFlag, i: int) -> int {
    let t = cell_along(i, idx);
    let p = axis_of(pos, idx);
    let e = extent_of(coll, idx);
    if forward {
        (2 * t * TILE_SIZE - (2 * p + e)) / 2
    } else {
        ((2 * p - e) - 2 * (t + 1) * TILE_SIZE) / 2
    }
}

/// The distance asked for, held within the world.
pub open spec fn reach_base(pos: GamePosition, idx: usize, amount: int) -> int {
    let p = axis_of(pos, idx);
    if amount >= 0 {
        if amount <= WORLD_LIMIT - p { amount } else { WORLD_LIMIT - p }
    } else {
        if -amount <= p + WORLD_LIMIT { -amount } else { p + WORLD_LIMIT }
    }
}

/// The distance allowed by the first `n` cells: the asked distance cut
/// down to the gap before every blocking wall among them.
pub open spec fn reach(
    tiles: Seq<GameMapTile>,
    pos: GamePosition,
    idx: usize,
    amount: int,
    coll: CollisionDetectionFlag,
    n: nat,
) -> int
    decreases n,
{
    if n == 0 {
        reach_base(pos, idx, amount)
    } else {
        let r = reach(tiles, pos, idx, amount, coll, (n - 1) as nat);
        let i = n - 1;
        if blocks(tiles, pos, idx, amount >= 0, coll, i) && gap(pos, idx, amount >= 0, coll, i) < r {
            gap(pos, idx, amount >= 0, coll, i)
        } else {
            r
        }
    }
}

/// The displacement the resolver applies: the requested one, clamped so the
/// box stops flush against the first wall in its way (and within the world).
pub open spec fn resolved_delta(
    tiles: Seq<GameMapTile>,
    pos: GamePosition,
    idx: usize,
    amount: int,
    coll: CollisionDetectionFlag,
) -> int {
    let m = reach(tiles, pos, idx, amount, coll, GRID_CELLS as nat);
    if amount >= 0 { m } else { -m }
}

proof fn lemma_reach_bounds(
    tiles: Seq<GameMapTile>,
    pos: GamePosition,
    idx: usize,
    amount: int,
    coll: CollisionDetectionFlag,
    fw: bool,
    n: nat,
)
    requires
        pos.wf(),
        fw == (amount >= 0),
    ensures
        0 <= reach(tiles, pos, idx, amount, coll, n) <= reach_base(pos, idx, amount),
        forall|i: int|
            0 <= i < n && #[trigger] blocks(tiles, pos, idx, fw, coll, i) ==> reach(
                tiles,
                pos,
                idx,
                amount,
                coll,
                n,
            ) <= gap(pos, idx, fw, coll, i),
    decreases n,
{
    if n > 0 {
        lemma_reach_bounds(tiles, pos, idx, amount, coll, fw, (n - 1) as nat);
    }
}

/// The resolver never moves further than asked nor against the request.
pub proof fn lemma_resolver_clamps(
    game_map: &GameMap,
    pos: GamePosition,
    idx: usize,
    amount: int,
    coll: CollisionDetectionFlag,
)
    requires
        pos.wf(),
    ensures
        amount >= 0 ==> 0 <= resolved_delta(game_map.map@, pos, idx, amount, coll) <= amount,
        amount <= 0 ==> amount <= resolved_delta(game_map.map@, pos, idx, amount, coll) <= 0,
{
    lemma_reach_bounds(game_map.map@, pos, idx, amount, coll, amount >= 0, GRID_CELLS as nat);
}

/// Moves `game_pos` by up to `amount` along axis `idx` (0 for x, 1 for y):
/// the full displacement when nothing is in the way, else only as far as
/// puts its box flush against the nearest wall ahead. Returns the
/// displacement applied.
pub fn try_move(
    game_pos: &mut GamePosition,
    idx: usize,
    amount: i64,
    game_map: &GameMap,
    coll_flag: &CollisionDetectionFlag,
) -> (moved: i64)
    requires
        old(game_pos).wf(),
        idx < 2,
        -WORLD_LIMIT <= amount <= WORLD_LIMIT,
        game_map.wf(),
        coll_flag.wf(),
    ensures
        moved as int == resolved_delta(game_map.map@, *old(game_pos), idx, amount as int, *coll_flag),
        amount >= 0 ==> 0 <= moved <= amount,
        amount <= 0 ==> amount <= moved <= 0,
        *final(game_pos) == with_axis(*old(game_pos), idx, axis_of(*old(game_pos), idx) + moved),
        final(game_pos).wf(),
{
    let p: i64 = if idx == 0 { game_pos.x } else { game_pos.y };
    let q: i64 = if idx == 0 { game_pos.y } else { game_pos.x };
    let e: i64 = if idx == 0 { coll_flag.w } else { coll_flag.h };
    let f: i64 = if idx == 0 { coll_flag.h } else { coll_flag.w };
    let forward = amount >= 0;
    let mut best: i64 = if forward {
        if amount <= WORLD_LIMIT - p { amount } else { WORLD_LIMIT - p }
    } else {
        if -amount <= p + WORLD_LIMIT { -amount } else { p + WORLD_LIMIT }
    };
    let ghost tiles = game_map.map@;
    let ghost pos0 = *game_pos;
    let mut i: usize = 0;
    while i < GRID_CELLS
        invariant
            game_map.wf(),
            tiles == game_map.map@,
            pos0 == *game_pos,
            pos0.wf(),
            coll_flag.wf(),
            idx < 2,
            p == axis_of(pos0, idx),
            q == cross_of(pos0, idx),
            e == extent_of(*coll_flag, idx),
            f == cross_extent_of(*coll_flag, idx),
            forward == (amount >= 0),
            i <= GRID_CELLS,
            best == reach(tiles, pos0, idx, amount as int, *coll_flag, i as nat),
            0 <= best <= 2 * WORLD_LIMIT,
        decreases GRID_CELLS - i,
    {
        proof {
            lemma_reach_bounds(tiles, pos0, idx, amount as int, *coll_flag, forward, i as nat);
        }
        if game_map.map[i] == GameMapTile::Wall {
            let tx: i64 = (i / 32) as i64;
            let ty: i64 = (i % 32) as i64;
            let t: i64 = if idx == 0 { tx } else { ty };
            let c: i64 = if idx == 0 { ty } else { tx };
            if 2 * c * TILE_SIZE < 2 * q + f && 2 * q - f < 2 * (c + 1) * TILE_SIZE {
                if forward {
                    let near: i64 = 2 * t * TILE_SIZE;
                    if 2 * p + e <= near {
                        let g: i64 = (near - (2 * p + e)) / 2;
                        if g < best {
                            best = g;
                        }
                    }
                } else {
                    let far: i64 = 2 * (t + 1) * TILE_SIZE;
                    if far <= 2 * p - e {
                        let g: i64 = ((2 * p - e) - far) / 2;
                        if g < best {
                            best = g;
                        }
                    }
                }
            }
        }
        i = i + 1;
    }
    proof {
        lemma_reach_bounds(tiles, pos0, idx, amount as int, *coll_flag, forward, GRID_CELLS as nat);
    }
    let moved: i64 = if forward { best } else { -best };
    if idx == 0 {
        game_pos.x = p + moved;
    } else {
        game_pos.y = p + moved;
    }
    moved
}

/// An entity whose box starts clear of every wall tile is, after any
/// attempted displacement on either axis, still clear of every wall tile
/// (touching a wall's edge is allowed).
pub proof fn lemma_resolver_never_enters_walls(
    game_map: &GameMap,
    pos: GamePosition,
    idx: usize,
    amount: int,
    coll: CollisionDetectionFlag,
)
    requires
        game_map.wf(),
        pos.wf(),
        coll.wf(),
        idx < 2,
        !footprint_hits_wall(game_map.map@, pos, coll),
    ensures
        !footprint_hits_wall(
            game_map.map@,
            with_axis(pos, idx, axis_of(pos, idx) + resolved_delta(game_map.map@, pos, idx, amount, coll)),
            coll,
        ),
        with_axis(pos, idx, axis_of(pos, idx) + resolved_delta(game_map.map@, pos, idx, amount, coll)).wf(),
{
    let tiles = game_map.map@;
    let d = resolved_delta(tiles, pos, idx, amount, coll);
    let m = reach(tiles, pos, idx, amount, coll, GRID_CELLS as nat);
    lemma_reach_bounds(tiles, pos, idx, amount, coll, amount >= 0, GRID_CELLS as nat);
    let np = with_axis(pos, idx, axis_of(pos, idx) + d);
    assert forall|tx: int, ty: int| is_wall(tiles, tx, ty) implies !#[trigger] footprint_meets_tile(
        np.x as int,
        np.y as int,
        coll.w as int,
        coll.h as int,
        tx,
        ty,
    ) by {
        lemma_cell_of_tile(tx, ty);
        let i = cell_index(tx, ty);
        assert(!footprint_meets_tile(pos.x as int, pos.y as int, coll.w as int, coll.h as int, tx, ty));
        if in_lane(pos, idx, coll, i) {
            if amount >= 0 && blocks(tiles, pos, idx, true, coll, i) {
                assert(m <= gap(pos, idx, true, coll, i));
            }
            if amount < 0 && blocks(tiles, pos, idx, false, coll, i) {
                assert(m <= gap(pos, idx, false, coll, i));
            }
        }
    }
}

} // verus!
