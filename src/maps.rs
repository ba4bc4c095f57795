use vstd::prelude::*;

use crate::geometry::{GamePosition, CollisionDetectionFlag, GAME_MAP_X, GAME_MAP_Y, TILE_SIZE};

verus! {

use vstd::arithmetic::div_mod::lemma_fundamental_div_mod_converse;

/// Number of cells of a level grid.
pub const GRID_CELLS: usize = 1024;

/// The semantic role of one cell of a level grid.
#[derive(Clone, Copy, Debug, PartialEq, Eq, Structural)]
pub enum GameMapTile {
    Wall,
    Floor,
    Nothing,
    PlayerStart,
    Teleport,
}

impl Default for GameMapTile {
    /// The tile of an empty cell.
    fn default() -> (r: GameMapTile)
        ensures
            r == GameMapTile::Nothing,
    {
        GameMapTile::Nothing
    }
}

/// The tile an authored cell code stands for; unknown codes are empty.
pub open spec fn tile_of_code(c: u32) -> GameMapTile {
    if c == 1 {
        GameMapTile::Wall
    } else if c == 2 {
        GameMapTile::Floor
    } else if c == 3 {
        GameMapTile::PlayerStart
    } else if c == 4 {
        GameMapTile::Teleport
    } else {
        GameMapTile::Nothing
    }
}

/// The tile coordinates of cell `i` (cells are laid out column by column).
pub open spec fn cell_coord(i: int) -> (usize, usize) {
    ((i / GAME_MAP_Y as int) as usize, (i % GAME_MAP_Y as int) as usize)
}

pub open spec fn cell_index(x: int, y: int) -> int {
    x * GAME_MAP_Y as int + y
}

/// Decodes one authored cell.
pub fn decode_tile(c: u32) -> (r: GameMapTile)
    ensures
        r == tile_of_code(c),
{
    if c == 1 {
        GameMapTile::Wall
    } else if c == 2 {
        GameMapTile::Floor
    } else if c == 3 {
        GameMapTile::PlayerStart
    } else if c == 4 {
        GameMapTile::Teleport
    } else {
        GameMapTile::Nothing
    }
}

/// Decodes an authored grid of cell codes (0 empty, 1 wall, 2 floor,
/// 3 player start, 4 teleport) into tiles.
pub fn turn_into_game_map(base: &Vec<u32>) -> (r: Vec<GameMapTile>)
    requires
        base@.len() == GRID_CELLS,
    ensures
        r@.len() == GRID_CELLS,
        forall|i: int| 0 <= i < GRID_CELLS ==> r@[i] == tile_of_code(#[trigger] base@[i]),
{
    let mut end: Vec<GameMapTile> = Vec::new();
    let mut i: usize = 0;
    while i < GRID_CELLS
        invariant
            i <= GRID_CELLS,
            base@.len() == GRID_CELLS,
            end@.len() == i,
            forall|j: int| 0 <= j < i ==> end@[j] == tile_of_code(#[trigger] base@[j]),
        decreases GRID_CELLS - i,
    {
        end.push(decode_tile(base[i]));
        i = i + 1;
    }
    end
}

/// The coordinates of the floor cells among the first `n` cells, in cell order.
pub open spec fn floor_tiles(tiles: Seq<GameMapTile>, n: nat) -> Seq<(usize, usize)>
    decreases n,
{
    if n == 0 {
        Seq::empty()
    } else {
        let prev = floor_tiles(tiles, (n - 1) as nat);
        if tiles[n - 1] == GameMapTile::Floor {
            prev.push(cell_coord(n - 1))
        } else {
            prev
        }
    }
}

/// The last cell of kind `kind` among the first `n` cells, or `dflt`.
pub open spec fn last_tile_of(
    tiles: Seq<GameMapTile>,
    kind: GameMapTile,
    n: nat,
    dflt: (usize, usize),
) -> (usize, usize)
    decreases n,
{
    if n == 0 {
        dflt
    } else if tiles[n - 1] == kind {
        cell_coord(n - 1)
    } else {
        last_tile_of(tiles, kind, (n - 1) as nat, dflt)
    }
}

pub open spec fn in_grid(t: (usize, usize)) -> bool {
    t.0 < GAME_MAP_X && t.1 < GAME_MAP_Y
}

/// The corner tile, used where a level names no start or teleport tile.
pub open spec fn corner_tile() -> (usize, usize) {
    ((GAME_MAP_X - 1) as usize, (GAME_MAP_Y - 1) as usize)
}

/// The cell of tile `(x, y)` has coordinates `(x, y)`.
pub proof fn lemma_cell_of_tile(x: int, y: int)
    requires
        0 <= x < GAME_MAP_X,
        0 <= y < GAME_MAP_Y,
    ensures
        cell_coord(cell_index(x, y)) == ((x as usize), (y as usize)),
        0 <= cell_index(x, y) < GRID_CELLS,
{
    lemma_fundamental_div_mod_converse(cell_index(x, y), GAME_MAP_Y as int, x, y);
}

pub proof fn lemma_coord_in_grid(i: int)
    requires
        0 <= i < GRID_CELLS,
    ensures
        in_grid(cell_coord(i)),
        cell_index(cell_coord(i).0 as int, cell_coord(i).1 as int) == i,
{
}

proof fn lemma_last_tile_in_grid(tiles: Seq<GameMapTile>, kind: GameMapTile, n: nat)
    requires
        n <= GRID_CELLS,
    ensures
        in_grid(last_tile_of(tiles, kind, n, corner_tile())),
    decreases n,
{
    if n > 0 {
        lemma_last_tile_in_grid(tiles, kind, (n - 1) as nat);
    }
}

/// The active level: its tiles, start and teleport tiles and spawn candidates.
#[derive(Debug)]
pub struct GameMap {
    /// Tiles, column by column: the tile at `(x, y)` is at `x * GAME_MAP_Y + y`.
    pub map: Vec<GameMapTile>,
    pub player_start: (usize, usize),
    pub valid_enemy_spawns: Vec<(usize, usize)>,
    pub ending_spot: (usize, usize),
    pub current_level: usize,
    pub powerups_spawned: bool,
}

/// The tile at `(tx, ty)` exists and is a wall.
pub open spec fn is_wall(tiles: Seq<GameMapTile>, tx: int, ty: int) -> bool {
    &&& 0 <= tx < GAME_MAP_X
    &&& 0 <= ty < GAME_MAP_Y
    &&& tiles[cell_index(tx, ty)] == GameMapTile::Wall
}

/// The point `(px, py)` lies in a wall tile; points off the grid never do.
pub open spec fn wall_at_point(tiles: Seq<GameMapTile>, px: int, py: int) -> bool {
    px >= 0 && py >= 0 && is_wall(tiles, px / TILE_SIZE as int, py / TILE_SIZE as int)
}

/// The open box of width `w` and height `h` centred on `(x, y)` shares area
/// with tile `(tx, ty)` (compared at twice the scale, so odd extents stay exact).
pub open spec fn footprint_meets_tile(x: int, y: int, w: int, h: int, tx: int, ty: int) -> bool {
    &&& 2 * tx * TILE_SIZE < 2 * x + w
    &&& 2 * x - w < 2 * (tx + 1) * TILE_SIZE
    &&& 2 * ty * TILE_SIZE < 2 * y + h
    &&& 2 * y - h < 2 * (ty + 1) * TILE_SIZE
}

/// The footprint of an entity at `pos` with box `coll` overlaps some wall tile.
pub open spec fn footprint_hits_wall(
    tiles: Seq<GameMapTile>,
    pos: GamePosition,
    coll: CollisionDetectionFlag,
) -> bool {
    exists|tx: int, ty: int|
        is_wall(tiles, tx, ty) && #[trigger] footprint_meets_tile(
            pos.x as int,
            pos.y as int,
            coll.w as int,
            coll.h as int,
            tx,
            ty,
        )
}

impl GameMap {
    pub open spec fn wf(&self) -> bool {
        &&& self.map@.len() == GRID_CELLS
        &&& in_grid(self.player_start)
        &&& in_grid(self.ending_spot)
        &&& forall|i: int|
            0 <= i < self.valid_enemy_spawns@.len() ==> in_grid(
                #[trigger] self.valid_enemy_spawns@[i],
            )
    }

    /// A map over `map` with no start, teleport or spawn tiles recorded yet.
    pub fn new(map: Vec<GameMapTile>, current_level: usize) -> (r: GameMap)
        requires
            map@.len() == GRID_CELLS,
        ensures
            r.wf(),
            r.map@ == map@,
            r.player_start == corner_tile(),
            r.ending_spot == corner_tile(),
            r.valid_enemy_spawns@.len() == 0,
            r.current_level == current_level,
            !r.powerups_spawned,
    {
        GameMap {
            map,
            player_start: (GAME_MAP_X - 1, GAME_MAP_Y - 1),
            valid_enemy_spawns: Vec::new(),
            ending_spot: (GAME_MAP_X - 1, GAME_MAP_Y - 1),
            current_level,
            powerups_spawned: false,
        }
    }

    /// Decodes the authored grid `base` as level `level`, recording its start
    /// tile, its teleport tile and every floor tile as an enemy spawn candidate.
    pub fn build(base: &Vec<u32>, level: usize) -> (r: GameMap)
        requires
            base@.len() == GRID_CELLS,
        ensures
            r.wf(),
            forall|i: int| 0 <= i < GRID_CELLS ==> r.map@[i] == tile_of_code(#[trigger] base@[i]),
            r.valid_enemy_spawns@ == floor_tiles(r.map@, GRID_CELLS as nat),
            r.player_start == last_tile_of(
                r.map@,
                GameMapTile::PlayerStart,
                GRID_CELLS as nat,
                corner_tile(),
            ),
            r.ending_spot == last_tile_of(
                r.map@,
                GameMapTile::Teleport,
                GRID_CELLS as nat,
                corner_tile(),
            ),
            r.current_level == level,
            !r.powerups_spawned,
    {
        let tiles = turn_into_game_map(base);
        let mut gm = GameMap::new(tiles, level);
        let mut i: usize = 0;
        while i < GRID_CELLS
            invariant
                i <= GRID_CELLS,
                gm.map@.len() == GRID_CELLS,
                gm.current_level == level,
                !gm.powerups_spawned,
                gm.valid_enemy_spawns@ == floor_tiles(gm.map@, i as nat),
                gm.player_start == last_tile_of(
                    gm.map@,
                    GameMapTile::PlayerStart,
                    i as nat,
                    corner_tile(),
                ),
                gm.ending_spot == last_tile_of(gm.map@, GameMapTile::Teleport, i as nat, corner_tile()),
                forall|j: int|
                    0 <= j < gm.valid_enemy_spawns@.len() ==> in_grid(
                        #[trigger] gm.valid_enemy_spawns@[j],
                    ),
                forall|j: int| 0 <= j < GRID_CELLS ==> gm.map@[j] == tile_of_code(#[trigger] base@[j]),
            decreases GRID_CELLS - i,
        {
            let x: usize = i / GAME_MAP_Y;
            let y: usize = i % GAME_MAP_Y;
            proof {
                lemma_coord_in_grid(i as int);
            }
            let t = gm.map[i];
            match t {
                GameMapTile::Floor => {
                    gm.valid_enemy_spawns.push((x, y));
                },
                GameMapTile::PlayerStart => {
                    gm.player_start = (x, y);
                },
                GameMapTile::Teleport => {
                    gm.ending_spot = (x, y);
                },
                _ => {},
            }
            i = i + 1;
        }
        proof {
            lemma_last_tile_in_grid(gm.map@, GameMapTile::PlayerStart, GRID_CELLS as nat);
            lemma_last_tile_in_grid(gm.map@, GameMapTile::Teleport, GRID_CELLS as nat);
        }
        gm
    }

    /// The tile at `(x, y)`.
    pub fn tile_at(&self, x: usize, y: usize) -> (r: GameMapTile)
        requires
            self.wf(),
            x < GAME_MAP_X,
            y < GAME_MAP_Y,
        ensures
            r == self.map@[cell_index(x as int, y as int)],
    {
        self.map[x * GAME_MAP_Y + y]
    }

    /// Whether the point `(px, py)` lies in a wall tile.
    pub fn wall_at(&self, px: i64, py: i64) -> (r: bool)
        requires
            self.wf(),
        ensures
            r == wall_at_point(self.map@, px as int, py as int),
    {
        if px < 0 || py < 0 {
            return false;
        }
        let tx: i64 = px / TILE_SIZE;
        let ty: i64 = py / TILE_SIZE;
        if tx >= GAME_MAP_X as i64 || ty >= GAME_MAP_Y as i64 {
            return false;
        }
        self.tile_at(tx as usize, ty as usize) == GameMapTile::Wall
    }

    /// Whether an entity at `pos` with box `coll` overlaps a wall tile.
    pub fn footprint_blocked(&self, pos: GamePosition, coll: CollisionDetectionFlag) -> (r: bool)
        requires
            self.wf(),
            pos.wf(),
            coll.wf(),
        ensures
            r == footprint_hits_wall(self.map@, pos, coll),
    {
        let mut tx: usize = 0;
        while tx < GAME_MAP_X
            invariant
                self.wf(),
                pos.wf(),
                coll.wf(),
                tx <= GAME_MAP_X,
                forall|a: int, b: int|
                    0 <= a < tx && is_wall(self.map@, a, b) ==> !#[trigger] footprint_meets_tile(
                        pos.x as int,
                        pos.y as int,
                        coll.w as int,
                        coll.h as int,
                        a,
                        b,
                    ),
            decreases GAME_MAP_X - tx,
        {
            let mut ty: usize = 0;
            while ty < GAME_MAP_Y
                invariant
                    self.wf(),
                    pos.wf(),
                    coll.wf(),
                    tx < GAME_MAP_X,
                    ty <= GAME_MAP_Y,
                    forall|a: int, b: int|
                        0 <= a < tx && is_wall(self.map@, a, b) ==> !#[trigger] footprint_meets_tile(
                            pos.x as int,
                            pos.y as int,
                            coll.w as int,
                            coll.h as int,
                            a,
                            b,
                        ),
                    forall|b: int|
                        0 <= b < ty && is_wall(self.map@, tx as int, b) ==> !#[trigger] footprint_meets_tile(
                            pos.x as int,
                            pos.y as int,
                            coll.w as int,
                            coll.h as int,
                            tx as int,
                            b,
                        ),
                decreases GAME_MAP_Y - ty,
            {
                let lo_x: i64 = tx as i64 * TILE_SIZE;
                let lo_y: i64 = ty as i64 * TILE_SIZE;
                if self.tile_at(tx, ty) == GameMapTile::Wall && 2 * lo_x < 2 * pos.x + coll.w && 2
                    * pos.x - coll.w < 2 * (lo_x + TILE_SIZE) && 2 * lo_y < 2 * pos.y + coll.h && 2
                    * pos.y - coll.h < 2 * (lo_y + TILE_SIZE) {
                    assert(footprint_meets_tile(
                        pos.x as int,
                        pos.y as int,
                        coll.w as int,
                        coll.h as int,
                        tx as int,
                        ty as int,
                    ));
                    return true;
                }
                ty = ty + 1;
            }
            tx = tx + 1;
        }
        assert forall|a: int, b: int| is_wall(self.map@, a, b) implies !#[trigger] footprint_meets_tile(
            pos.x as int,
            pos.y as int,
            coll.w as int,
            coll.h as int,
            a,
            b,
        ) by {}
        false
    }

    /// Sprite number and horizontal flip for the wall tile at `(x, y)`, chosen
    /// from which of its neighbours are floor.
    pub fn wall_sprite(&self, x: usize, y: usize) -> (r: (usize, bool))
        requires
            self.wf(),
            x < GAME_MAP_X,
            y < GAME_MAP_Y,
        ensures
            r == (if y >= 2 && self.map@[cell_index(x as int, y - 1)] == GameMapTile::Floor {
                (43usize, false)
            } else if x + 1 < GAME_MAP_X && self.map@[cell_index(x + 1, y as int)]
                == GameMapTile::Floor {
                (42usize, false)
            } else if x >= 2 && self.map@[cell_index(x - 1, y as int)] == GameMapTile::Floor {
                (42usize, true)
            } else {
                (52usize, false)
            }),
    {
        if y >= 2 && self.tile_at(x, y - 1) == GameMapTile::Floor {
            (43, false)
        } else if x + 1 < GAME_MAP_X && self.tile_at(x + 1, y) == GameMapTile::Floor {
            (42, false)
        } else if x >= 2 && self.tile_at(x - 1, y) == GameMapTile::Floor {
            (42, true)
        } else {
            (52, false)
        }
    }
}

} // verus!
