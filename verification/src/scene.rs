//! The Ashlands tile map: its layout, tile lookup, tile collision and which
//! tiles a view shows, plus the per-frame input snapshot.

use vstd::prelude::*;

verus! {

/// Tile size in world pixels.
pub const TILE_PIXELS: u32 = 8;
/// Map width in tiles.
pub const MAP_W: usize = 80;
/// Map height in tiles.
pub const MAP_H: usize = 60;
/// Number of tiles in the map (`MAP_W * MAP_H`).
pub const MAP_LEN: usize = 4800;

/// Empty void (solid).
pub const T_VOID: u8 = 0;
/// Walkable ground.
pub const T_GROUND: u8 = 1;
/// Wall (solid).
pub const T_WALL: u8 = 2;
/// Ember ground (walkable).
pub const T_EMBER: u8 = 3;
/// Ash pit (solid).
pub const T_ASH: u8 = 4;

/// The Ashlands tile at column `x`, row `y` (for `0 <= x < 80`, `0 <= y < 60`).
/// Regions listed first take precedence.
pub open spec fn ashlands_tile(x: int, y: int) -> u8 {
    if 50 <= y < 58 && 60 <= x < 75 {
        T_ASH  // ash pit, bottom right
    } else if x == 75 && 28 <= y < 32 {
        T_GROUND  // boss arena entrance
    } else if x == 75 && 10 <= y < 50 {
        T_WALL  // boss arena boundary
    } else if (y == 20 && x == 60) || (y == 30 && x == 64) || (y == 40 && x == 58) {
        T_GROUND  // passages through the maze
    } else if x == 62 && 20 <= y < 41 {
        T_WALL  // maze divider
    } else if (y == 20 || y == 30 || y == 40) && 56 <= x < 68 {
        T_WALL  // maze walls
    } else if 28 <= y < 33 && 35 <= x < 43 {
        T_EMBER  // ember lake
    } else if 25 <= y < 28 && (x == 12 || x == 16 || x == 20) {
        T_WALL  // ruined columns
    } else if 12 <= y < 15 && 8 <= x < 10 {
        T_WALL  // pillar near the start
    } else if y == 0 || y == MAP_H - 1 || x == 0 || x == MAP_W - 1 {
        T_WALL  // border
    } else {
        T_GROUND
    }
}

/// `true` for tiles that block movement.
pub open spec fn solid(t: u8) -> bool {
    t == T_WALL || t == T_VOID || t == T_ASH
}

/// The tile at `(tx, ty)`; everything outside the map is wall.
pub open spec fn tile_of(map: Seq<u8>, tx: int, ty: int) -> u8 {
    if tx < 0 || ty < 0 || tx >= MAP_W || ty >= MAP_H { T_WALL } else { map[ty * MAP_W + tx] }
}

/// `true` if the map holds the Ashlands layout.
pub open spec fn is_ashlands(map: Seq<u8>) -> bool {
    &&& map.len() == MAP_LEN
    &&& forall|x: int, y: int| 0 <= x < MAP_W && 0 <= y < MAP_H ==> #[trigger] map[y * MAP_W + x] == ashlands_tile(x, y)
}

/// The Ashlands tile at `(x, y)`.
fn ashlands_tile_at(x: usize, y: usize) -> (t: u8)
    requires
        x < MAP_W,
        y < MAP_H,
    ensures
        t == ashlands_tile(x as int, y as int),
{
    if 50 <= y && y < 58 && 60 <= x && x < 75 {
        T_ASH
    } else if x == 75 && 28 <= y && y < 32 {
        T_GROUND
    } else if x == 75 && 10 <= y && y < 50 {
        T_WALL
    } else if (y == 20 && x == 60) || (y == 30 && x == 64) || (y == 40 && x == 58) {
        T_GROUND
    } else if x == 62 && 20 <= y && y < 41 {
        T_WALL
    } else if (y == 20 || y == 30 || y == 40) && 56 <= x && x < 68 {
        T_WALL
    } else if 28 <= y && y < 33 && 35 <= x && x < 43 {
        T_EMBER
    } else if 25 <= y && y < 28 && (x == 12 || x == 16 || x == 20) {
        T_WALL
    } else if 12 <= y && y < 15 && 8 <= x && x < 10 {
        T_WALL
    } else if y == 0 || y == MAP_H - 1 || x == 0 || x == MAP_W - 1 {
        T_WALL
    } else {
        T_GROUND
    }
}

/// Build the Ashlands map, row by row.
#[verifier::spinoff_prover]
pub fn build_map() -> (map: [u8; 4800])
    ensures
        is_ashlands(map@),
{
    let mut map: [u8; 4800] = [T_GROUND; 4800];
    let mut y: usize = 0;
    while y < MAP_H
        invariant
            y <= MAP_H,
            map@.len() == MAP_LEN,
            forall|xx: int, yy: int| 0 <= xx < MAP_W && 0 <= yy < y ==> #[trigger] map@[yy * MAP_W + xx] == ashlands_tile(xx, yy),
        decreases MAP_H - y,
    {
        let mut x: usize = 0;
        while x < MAP_W
            invariant
                y < MAP_H,
                x <= MAP_W,
                map@.len() == MAP_LEN,
                forall|xx: int, yy: int| 0 <= xx < MAP_W && 0 <= yy < y ==> #[trigger] map@[yy * MAP_W + xx] == ashlands_tile(xx, yy),
                forall|xx: int| 0 <= xx < x ==> #[trigger] map@[y * MAP_W + xx] == ashlands_tile(xx, y as int),
            decreases MAP_W - x,
        {
            let t = ashlands_tile_at(x, y);
            map[y * MAP_W + x] = t;
            x = x + 1;
        }
        y = y + 1;
    }
    map
}

/// The tile at tile coordinates `(tx, ty)`; out of bounds is wall.
pub fn tile_at(map: &[u8; 4800], tx: i32, ty: i32) -> (t: u8)
    ensures
        t == tile_of(map@, tx as int, ty as int),
{
    if tx < 0 || ty < 0 || tx >= MAP_W as i32 || ty >= MAP_H as i32 {
        return T_WALL;
    }
    map[(ty as usize) * MAP_W + (tx as usize)]
}

/// `true` for tiles that block movement (wall, void, ash).
pub fn is_solid(t: u8) -> (b: bool)
    ensures
        b == solid(t),
{
    t == T_WALL || t == T_VOID || t == T_ASH
}

/// `true` if any tile in the inclusive rectangle `left..=right` ×
/// `top..=bottom` blocks movement.
pub fn region_has_solid(map: &[u8; 4800], left: i32, right: i32, top: i32, bottom: i32) -> (b: bool)
    ensures
        b == exists|tx: int, ty: int| left <= tx <= right && top <= ty <= bottom && #[trigger] solid(tile_of(map@, tx, ty)),
{
    let mut ty: i64 = top as i64;
    while ty <= bottom as i64
        invariant
            top <= ty <= bottom as int + 1 || (ty == top && top > bottom),
            forall|tx: int, yy: int| left <= tx <= right && top <= yy < ty ==> !#[trigger] solid(tile_of(map@, tx, yy)),
        decreases bottom as int + 1 - ty,
    {
        let mut tx: i64 = left as i64;
        while tx <= right as i64
            invariant
                top <= ty <= bottom,
                left <= tx <= right as int + 1 || (tx == left && left > right),
                forall|xx: int, yy: int| left <= xx <= right && top <= yy < ty ==> !#[trigger] solid(tile_of(map@, xx, yy)),
                forall|xx: int| left <= xx < tx ==> !#[trigger] solid(tile_of(map@, xx, ty as int)),
            decreases right as int + 1 - tx,
        {
            if is_solid(tile_at(map, tx as i32, ty as i32)) {
                return true;
            }
            tx = tx + 1;
        }
        ty = ty + 1;
    }
    false
}

/// The Ashlands map is closed: every border tile is a wall, and everything
/// beyond the border reads as wall, so nothing can walk off the map.
pub proof fn lemma_ashlands_is_closed(map: Seq<u8>, x: int, y: int)
    requires
        is_ashlands(map),
    ensures
        (x < 0 || y < 0 || x >= MAP_W || y >= MAP_H) ==> tile_of(map, x, y) == T_WALL,
        (0 <= x < MAP_W && 0 <= y < MAP_H && (x == 0 || y == 0 || x == MAP_W - 1 || y == MAP_H - 1))
            ==> tile_of(map, x, y) == T_WALL,
{
    if 0 <= x < MAP_W && 0 <= y < MAP_H {
        assert(map[y * MAP_W + x] == ashlands_tile(x, y));
    }
}

/// The player's starting tile and its neighbourhood are walkable.
pub proof fn lemma_ashlands_start_is_clear(map: Seq<u8>)
    requires
        is_ashlands(map),
    ensures
        forall|x: int, y: int| 1 <= x <= 5 && 1 <= y <= 5 ==> !solid(#[trigger] tile_of(map, x, y)),
{
    assert forall|x: int, y: int| 1 <= x <= 5 && 1 <= y <= 5 implies !solid(#[trigger] tile_of(map, x, y)) by {
        assert(map[y * MAP_W + x] == ashlands_tile(x, y));
    }
}

/// Walls, void and ash block movement; ground and ember ground do not.
pub proof fn lemma_tile_kinds()
    ensures
        solid(T_WALL),
        solid(T_VOID),
        solid(T_ASH),
        !solid(T_GROUND),
        !solid(T_EMBER),
{
}

/// The Ashlands landmarks: the 8×5 ember lake in the centre, the 2×3 pillar
/// near the start, the three ruined columns, the maze's walls with one
/// passage in each and its divider, the boss arena's boundary with its
/// four-tile entrance and the open arena behind it, and the ash pit at the
/// bottom right.
pub proof fn lemma_ashlands_landmarks(map: Seq<u8>, x: int, y: int)
    requires
        is_ashlands(map),
    ensures
        35 <= x < 43 && 28 <= y < 33 ==> tile_of(map, x, y) == T_EMBER,
        8 <= x < 10 && 12 <= y < 15 ==> tile_of(map, x, y) == T_WALL,
        (x == 12 || x == 16 || x == 20) && 25 <= y < 28 ==> tile_of(map, x, y) == T_WALL,
        (y == 20 || y == 30 || y == 40) && 56 <= x < 68 && !(y == 20 && x == 60) && !(y == 30 && x == 64)
            && !(y == 40 && x == 58) ==> tile_of(map, x, y) == T_WALL,
        (y == 20 && x == 60) || (y == 30 && x == 64) || (y == 40 && x == 58) ==> tile_of(map, x, y) == T_GROUND,
        x == 62 && 20 <= y < 41 && y != 20 && y != 30 && y != 40 ==> tile_of(map, x, y) == T_WALL,
        x == 75 && 10 <= y < 50 && !(28 <= y < 32) ==> tile_of(map, x, y) == T_WALL,
        x == 75 && 28 <= y < 32 ==> tile_of(map, x, y) == T_GROUND,
        76 <= x < 79 && 1 <= y < 59 ==> tile_of(map, x, y) == T_GROUND,
        60 <= x < 75 && 50 <= y < 58 ==> tile_of(map, x, y) == T_ASH,
{
    if 0 <= x < MAP_W && 0 <= y < MAP_H {
        assert(map[y * MAP_W + x] == ashlands_tile(x, y));
    }
}

/// A map tile that a view shows: its coordinates and its kind.
#[derive(Debug, Clone, Copy, PartialEq, Eq, Structural)]
pub struct VisibleTile {
    pub tx: i32,
    pub ty: i32,
    pub tile: u8,
}

/// The tile at `(tx, ty)` as a view shows it: nothing outside the map or for
/// void, else the tile.
pub open spec fn shown_cell(map: Seq<u8>, tx: int, ty: int) -> Seq<VisibleTile> {
    if 0 <= tx < MAP_W && 0 <= ty < MAP_H && map[ty * MAP_W + tx] != T_VOID {
        seq![VisibleTile { tx: tx as i32, ty: ty as i32, tile: map[ty * MAP_W + tx] }]
    } else {
        Seq::empty()
    }
}

/// The shown tiles of row `ty` for the columns `x0 .. x_end`, left to right.
pub open spec fn shown_row(map: Seq<u8>, ty: int, x0: int, x_end: int) -> Seq<VisibleTile>
    decreases x_end - x0,
{
    if x_end <= x0 { Seq::empty() } else { shown_row(map, ty, x0, x_end - 1) + shown_cell(map, x_end - 1, ty) }
}

/// The shown tiles of the rows `y0 .. y_end` for the columns `x0 ..= x1`,
/// row by row from the top.
pub open spec fn shown_area(map: Seq<u8>, x0: int, x1: int, y0: int, y_end: int) -> Seq<VisibleTile>
    decreases y_end - y0,
{
    if y_end <= y0 { Seq::empty() } else { shown_area(map, x0, x1, y0, y_end - 1) + shown_row(map, y_end - 1, x0, x1 + 1) }
}

/// The tiles a view over the columns `min_tx ..= max_tx` and rows
/// `min_ty ..= max_ty` draws: those inside the map that are not void, row by
/// row from the top, each row left to right.
#[verifier::spinoff_prover]
pub fn visible_tiles(map: &[u8; 4800], min_tx: i32, max_tx: i32, min_ty: i32, max_ty: i32) -> (v: Vec<VisibleTile>)
    ensures
        v@ == shown_area(map@, min_tx as int, max_tx as int, min_ty as int, max_ty + 1),
{
    let mut out: Vec<VisibleTile> = Vec::new();
    let mut ty: i64 = min_ty as i64;
    if min_ty > max_ty {
        return out;
    }
    while ty <= max_ty as i64
        invariant
            min_ty <= ty <= max_ty + 1,
            out@ == shown_area(map@, min_tx as int, max_tx as int, min_ty as int, ty as int),
        decreases max_ty + 1 - ty,
    {
        let mut tx: i64 = min_tx as i64;
        while tx <= max_tx as i64
            invariant
                min_ty <= ty <= max_ty,
                min_tx <= tx <= max_tx + 1 || (tx == min_tx && min_tx > max_tx),
                out@ == shown_area(map@, min_tx as int, max_tx as int, min_ty as int, ty as int)
                    + shown_row(map@, ty as int, min_tx as int, tx as int),
            decreases max_tx + 1 - tx,
        {
            let ghost before = out@;
            if 0 <= tx && tx < MAP_W as i64 && 0 <= ty && ty < MAP_H as i64 {
                let t = map[(ty as usize) * MAP_W + (tx as usize)];
                if t != T_VOID {
                    out.push(VisibleTile { tx: tx as i32, ty: ty as i32, tile: t });
                }
            }
            proof {
                assert(out@ =~= before + shown_cell(map@, tx as int, ty as int));
                assert(shown_row(map@, ty as int, min_tx as int, tx + 1)
                    == shown_row(map@, ty as int, min_tx as int, tx as int) + shown_cell(map@, tx as int, ty as int));
                assert(out@ =~= shown_area(map@, min_tx as int, max_tx as int, min_ty as int, ty as int)
                    + shown_row(map@, ty as int, min_tx as int, tx + 1));
            }
            tx = tx + 1;
        }
        proof {
            if min_tx > max_tx {
                assert(shown_row(map@, ty as int, min_tx as int, max_tx + 1) =~= Seq::<VisibleTile>::empty());
            }
            assert(shown_row(map@, ty as int, min_tx as int, tx as int) == shown_row(map@, ty as int, min_tx as int, max_tx + 1));
            assert(out@ =~= shown_area(map@, min_tx as int, max_tx as int, min_ty as int, ty + 1));
        }
        ty = ty + 1;
    }
    out
}

/// The extra layer drawn over a tile's base color.
#[derive(Debug, Clone, Copy, PartialEq, Eq, Structural)]
pub enum TileOverlay {
    /// No extra layer.
    Plain,
    /// A slightly lighter inset (ground).
    InnerLight,
    /// A pulsing glow (ember).
    EmberGlow,
    /// A shadow along the top edge (wall).
    WallShadow,
    /// A dark inset (ash pit).
    AshShade,
}

/// How a tile kind is drawn: its base color (RGB, 0–255) and its overlay.
#[derive(Debug, Clone, Copy, PartialEq, Eq, Structural)]
pub struct TileStyle {
    pub r: u8,
    pub g: u8,
    pub b: u8,
    pub overlay: TileOverlay,
}

/// The style of each tile kind.
pub open spec fn style_of(t: u8) -> TileStyle {
    if t == T_GROUND {
        TileStyle { r: 72, g: 54, b: 36, overlay: TileOverlay::InnerLight }
    } else if t == T_WALL {
        TileStyle { r: 42, g: 36, b: 52, overlay: TileOverlay::WallShadow }
    } else if t == T_EMBER {
        TileStyle { r: 90, g: 44, b: 18, overlay: TileOverlay::EmberGlow }
    } else if t == T_ASH {
        TileStyle { r: 15, g: 10, b: 18, overlay: TileOverlay::AshShade }
    } else {
        TileStyle { r: 20, g: 20, b: 30, overlay: TileOverlay::Plain }
    }
}

/// Ground is drawn brown (72, 54, 36) with a lighter inner square, walls
/// slate (42, 36, 52) with a shadow, ember ground rust (90, 44, 18) with a
/// pulsing glow, ash near-black (15, 10, 18) with shading, and any other
/// kind dark blue-grey (20, 20, 30) and plain.
pub proof fn lemma_tile_styles()
    ensures
        style_of(T_GROUND) == (TileStyle { r: 72, g: 54, b: 36, overlay: TileOverlay::InnerLight }),
        style_of(T_WALL) == (TileStyle { r: 42, g: 36, b: 52, overlay: TileOverlay::WallShadow }),
        style_of(T_EMBER) == (TileStyle { r: 90, g: 44, b: 18, overlay: TileOverlay::EmberGlow }),
        style_of(T_ASH) == (TileStyle { r: 15, g: 10, b: 18, overlay: TileOverlay::AshShade }),
        forall|t: u8| t != T_GROUND && t != T_WALL && t != T_EMBER && t != T_ASH
            ==> #[trigger] style_of(t) == (TileStyle { r: 20, g: 20, b: 30, overlay: TileOverlay::Plain }),
{
}

/// How a tile kind is drawn.
pub fn tile_style(t: u8) -> (s: TileStyle)
    ensures
        s == style_of(t),
{
    if t == T_GROUND {
        TileStyle { r: 72, g: 54, b: 36, overlay: TileOverlay::InnerLight }
    } else if t == T_WALL {
        TileStyle { r: 42, g: 36, b: 52, overlay: TileOverlay::WallShadow }
    } else if t == T_EMBER {
        TileStyle { r: 90, g: 44, b: 18, overlay: TileOverlay::EmberGlow }
    } else if t == T_ASH {
        TileStyle { r: 15, g: 10, b: 18, overlay: TileOverlay::AshShade }
    } else {
        TileStyle { r: 20, g: 20, b: 30, overlay: TileOverlay::Plain }
    }
}

/// A per-frame input snapshot.
#[derive(Clone, Copy, Default)]
pub struct Input {
    pub up: bool,
    pub down: bool,
    pub left: bool,
    pub right: bool,
    pub attack: bool,
    pub dodge: bool,
}

} // verus!
