use vstd::prelude::*;

verus! {

use vstd::arithmetic::div_mod::{lemma_div_is_ordered, lemma_div_by_multiple};
use vstd::arithmetic::mul::lemma_mul_inequality;

/// Sub-units in one world unit.
pub const UNIT: i64 = 1000;

/// Width and height of one tile, in sub-units (60 world units).
pub const TILE_SIZE: i64 = 60000;

/// Number of tile columns of a level grid.
pub const GAME_MAP_X: usize = 32;

/// Number of tile rows of a level grid.
pub const GAME_MAP_Y: usize = 32;

/// Largest magnitude of a coordinate, an extent or a speed (2^42 sub-units).
pub const WORLD_LIMIT: i64 = 4398046511104;

/// A continuous position in sub-units.
#[derive(Clone, Copy, Debug, PartialEq, Eq, Structural)]
pub struct GamePosition {
    pub x: i64,
    pub y: i64,
}

/// Tile coordinate of one coordinate: negative values count as tile 0.
pub open spec fn coord_tile(v: int) -> int {
    if v <= 0 { 0 } else { v / (TILE_SIZE as int) }
}

pub open spec fn in_world(v: int) -> bool {
    -WORLD_LIMIT <= v <= WORLD_LIMIT
}

impl GamePosition {
    pub open spec fn wf(&self) -> bool {
        in_world(self.x as int) && in_world(self.y as int)
    }

    /// The tile that holds this position.
    pub fn to_tile(&self) -> (r: (usize, usize))
        requires
            self.wf(),
        ensures
            r.0 as int == coord_tile(self.x as int),
            r.1 as int == coord_tile(self.y as int),
    {
        let x: usize = if self.x <= 0 { 0 } else { (self.x / TILE_SIZE) as usize };
        let y: usize = if self.y <= 0 { 0 } else { (self.y / TILE_SIZE) as usize };
        (x, y)
    }

    /// The position of a tile's lower corner.
    pub fn from_tile(tile: (usize, usize)) -> (r: GamePosition)
        requires
            tile.0 as int * TILE_SIZE <= WORLD_LIMIT,
            tile.1 as int * TILE_SIZE <= WORLD_LIMIT,
        ensures
            r.x as int == tile.0 as int * TILE_SIZE,
            r.y as int == tile.1 as int * TILE_SIZE,
            r == GamePosition::from_tile_spec(tile),
            r.wf(),
    {
        GamePosition { x: tile.0 as i64 * TILE_SIZE, y: tile.1 as i64 * TILE_SIZE }
    }

    pub open spec fn from_tile_spec(tile: (usize, usize)) -> GamePosition {
        GamePosition {
            x: (tile.0 as int * TILE_SIZE) as i64,
            y: (tile.1 as int * TILE_SIZE) as i64,
        }
    }

}

impl Default for GamePosition {
    /// The origin.
    fn default() -> (r: GamePosition)
        ensures
            r.x == 0 && r.y == 0,
    {
        GamePosition { x: 0, y: 0 }
    }
}

/// Width and height of an entity's collision box, in sub-units.
#[derive(Clone, Copy, Debug, PartialEq, Eq, Structural)]
pub struct CollisionDetectionFlag {
    pub w: i64,
    pub h: i64,
}

impl CollisionDetectionFlag {
    pub open spec fn wf(&self) -> bool {
        0 <= self.w <= WORLD_LIMIT && 0 <= self.h <= WORLD_LIMIT
    }
}

pub open spec fn abs(v: int) -> int {
    if v < 0 { -v } else { v }
}

/// Two boxes of full extents `c1`, `c2` centred on `p1`, `p2` touch or overlap.
pub open spec fn boxes_overlap(
    p1: GamePosition,
    c1: CollisionDetectionFlag,
    p2: GamePosition,
    c2: CollisionDetectionFlag,
) -> bool {
    &&& 2 * abs(p1.x - p2.x) <= c1.w + c2.w
    &&& 2 * abs(p1.y - p2.y) <= c1.h + c2.h
}

/// Axis-aligned overlap test of two centred boxes (touching counts).
pub fn check_collision(
    game_pos1: GamePosition,
    coll_flag1: CollisionDetectionFlag,
    game_pos2: GamePosition,
    coll_flag2: CollisionDetectionFlag,
) -> (r: bool)
    requires
        game_pos1.wf(),
        game_pos2.wf(),
        coll_flag1.wf(),
        coll_flag2.wf(),
    ensures
        r == boxes_overlap(game_pos1, coll_flag1, game_pos2, coll_flag2),
{
    let dx: i64 = game_pos1.x - game_pos2.x;
    let dy: i64 = game_pos1.y - game_pos2.y;
    let ax: i64 = if dx < 0 { -dx } else { dx };
    let ay: i64 = if dy < 0 { -dy } else { dy };
    if 2 * ax > coll_flag1.w + coll_flag2.w {
        return false;
    }
    if 2 * ay > coll_flag1.h + coll_flag2.h {
        return false;
    }
    true
}

/// `v * num / den`, rounded toward zero.
pub open spec fn scaled(v: int, num: int, den: int) -> int {
    if v >= 0 { (v * num) / den } else { -(((-v) * num) / den) }
}

proof fn lemma_scaled_bound(a: int, num: int, den: int)
    requires
        0 <= a,
        0 <= num <= den,
        0 < den,
    ensures
        0 <= (a * num) / den <= a,
{
    lemma_mul_inequality(num, den, a);
    assert(num * a == a * num && den * a == a * den) by (nonlinear_arith);
    lemma_div_is_ordered(a * num, a * den, den);
    lemma_div_by_multiple(a, den);
    lemma_mul_inequality(0, num, a);
    assert(0 * a == 0);
    lemma_div_is_ordered(0, a * num, den);
}

/// Scales `v` by the ratio `num / den`, rounding toward zero.
pub fn scale(v: i64, num: u64, den: u64) -> (r: i64)
    requires
        0 < den,
        num <= den,
        v > i64::MIN,
    ensures
        r as int == scaled(v as int, num as int, den as int),
        abs(r as int) <= abs(v as int),
{
    let a: u128 = if v < 0 { (-v) as u128 } else { v as u128 };
    proof {
        lemma_scaled_bound(a as int, num as int, den as int);
        assert(a as int * num as int <= a as int * den as int) by (nonlinear_arith)
            requires a as int >= 0, num <= den;
        assert(a as int * den as int <= 0x7fff_ffff_ffff_ffff * 0xffff_ffff_ffff_ffff)
            by (nonlinear_arith)
            requires a as int <= 0x7fff_ffff_ffff_ffff, den <= 0xffff_ffff_ffff_ffff;
    }
    let m: u128 = a * (num as u128) / (den as u128);
    if v < 0 {
        -(m as i64)
    } else {
        m as i64
    }
}

/// The integer square root of `n`: the `r` with `r * r <= n < (r + 1) * (r + 1)`.
pub open spec fn isqrt_spec(n: int) -> int {
    choose|r: int| 0 <= r && #[trigger] (r * r) <= n && n < (r + 1) * (r + 1)
}

proof fn lemma_isqrt_unique(n: int, a: int, b: int)
    requires
        0 <= a,
        0 <= b,
        a * a <= n < (a + 1) * (a + 1),
        b * b <= n < (b + 1) * (b + 1),
    ensures
        a == b,
{
    if a < b {
        assert((a + 1) * (a + 1) <= b * b) by (nonlinear_arith)
            requires 0 <= a, a + 1 <= b;
    } else if b < a {
        assert((b + 1) * (b + 1) <= a * a) by (nonlinear_arith)
            requires 0 <= b, b + 1 <= a;
    }
}

/// Integer square root: the largest `r` with `r * r <= n`.
pub fn isqrt(n: u128) -> (r: u64)
    ensures
        r as int * r as int <= n as int,
        n < (r as int + 1) * (r as int + 1),
        r as int == isqrt_spec(n as int),
{
    let mut lo: u128 = 0;
    let mut hi: u128 = 0x1_0000_0000_0000_0000;
    proof {
        assert(hi * hi > 0xffff_ffff_ffff_ffff_ffff_ffff_ffff_ffff) by (nonlinear_arith)
            requires hi == 0x1_0000_0000_0000_0000u128;
    }
    while hi - lo > 1
        invariant
            lo < hi <= 0x1_0000_0000_0000_0000,
            lo as int * lo as int <= n as int,
            n < hi as int * hi as int,
        decreases hi - lo,
    {
        let mid: u128 = lo + (hi - lo) / 2;
        proof {
            assert(mid * mid < 0x1_0000_0000_0000_0000 * 0x1_0000_0000_0000_0000)
                by (nonlinear_arith)
                requires mid < 0x1_0000_0000_0000_0000u128;
        }
        if mid * mid <= n {
            lo = mid;
        } else {
            hi = mid;
        }
    }
    proof {
        assert(0 <= lo && lo * lo <= n && n < (lo + 1) * (lo + 1));
        let c = isqrt_spec(n as int);
        lemma_isqrt_unique(n as int, lo as int, c);
    }
    lo as u64
}

/// `d` of the way `r` toward a target, at `speed`: `speed * d / r`, rounded toward zero.
pub open spec fn toward(d: int, speed: int, r: int) -> int {
    if d >= 0 { scaled(speed, d, r) } else { -scaled(speed, -d, r) }
}

/// The velocity of magnitude about `speed` that points along `(dx, dy)`;
/// zero where the offset is zero.
pub open spec fn aim_spec(dx: int, dy: int, speed: int) -> (int, int) {
    let r = isqrt_spec(dx * dx + dy * dy);
    if r == 0 { (0, 0) } else { (toward(dx, speed, r), toward(dy, speed, r)) }
}

proof fn lemma_component_below_root(d: int, e: int, r: int)
    requires
        0 <= r,
        r * r <= d * d + e * e < (r + 1) * (r + 1),
    ensures
        abs(d) <= r,
{
    if abs(d) > r {
        assert(d * d >= (r + 1) * (r + 1)) by (nonlinear_arith)
            requires abs(d) >= r + 1, 0 <= r, abs(d) == (if d < 0 { -d } else { d });
        assert(e * e >= 0) by (nonlinear_arith);
    }
}

/// Points a velocity of magnitude about `speed` along the offset `(dx, dy)`.
pub fn aim(dx: i64, dy: i64, speed: i64) -> (r: (i64, i64))
    requires
        -2 * WORLD_LIMIT <= dx <= 2 * WORLD_LIMIT,
        -2 * WORLD_LIMIT <= dy <= 2 * WORLD_LIMIT,
        0 <= speed <= WORLD_LIMIT,
    ensures
        r.0 as int == aim_spec(dx as int, dy as int, speed as int).0,
        r.1 as int == aim_spec(dx as int, dy as int, speed as int).1,
        abs(r.0 as int) <= speed,
        abs(r.1 as int) <= speed,
{
    let ax: u128 = if dx < 0 { (-dx) as u128 } else { dx as u128 };
    let ay: u128 = if dy < 0 { (-dy) as u128 } else { dy as u128 };
    proof {
        assert(ax * ax <= 0x4000_0000_0000_0000_0000_0000) by (nonlinear_arith)
            requires ax <= 2 * WORLD_LIMIT;
        assert(ay * ay <= 0x4000_0000_0000_0000_0000_0000) by (nonlinear_arith)
            requires ay <= 2 * WORLD_LIMIT;
        assert(ax * ax == dx * dx && ay * ay == dy * dy) by (nonlinear_arith)
            requires ax == abs(dx as int), ay == abs(dy as int);
    }
    let root = isqrt(ax * ax + ay * ay);
    if root == 0 {
        return (0, 0);
    }
    proof {
        lemma_component_below_root(dx as int, dy as int, root as int);
        lemma_component_below_root(dy as int, dx as int, root as int);
    }
    let vx = scale(speed, ax as u64, root);
    let vy = scale(speed, ay as u64, root);
    let rx: i64 = if dx < 0 { -vx } else { vx };
    let ry: i64 = if dy < 0 { -vy } else { vy };
    (rx, ry)
}

} // verus!
