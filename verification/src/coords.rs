//! The isometric coordinate transform: tile grid indices and a layer pixel
//! offset to a world position with a depth-ordering key.
//!
//! The projection is the standard 2:1 diamond skew:
//! `x = tile_width * (tx - ty) / 2 + offset_x` and
//! `y = tile_height * (tx + ty) / 2 + offset_y`, and the depth key is
//! `z = -0.1 * (0.0001 * tx + 0.01 * ty) = -(tx + 100 * ty) / 100000`.
//! All three are exact scaled integers here: `x` and `y` in half pixels,
//! `z` in hundred-thousandths.

use vstd::prelude::*;

verus! {

/// World x coordinate in half-pixel units.
pub open spec fn world_x2(tx: int, ty: int, tile_width: int, offset_x: int) -> int {
    tile_width * (tx - ty) + 2 * offset_x
}

/// World y coordinate in half-pixel units.
pub open spec fn world_y2(tx: int, ty: int, tile_height: int, offset_y: int) -> int {
    tile_height * (tx + ty) + 2 * offset_y
}

/// Depth key in units of one hundred-thousandth.
pub open spec fn world_z5(tx: int, ty: int) -> int {
    -(tx + 100 * ty)
}

/// A world placement: `x_half / 2` and `y_half / 2` are the world x and y in
/// pixels, `z_scaled / 100000` is the depth key.
#[derive(Clone, Copy, Debug, PartialEq, Eq, Structural)]
pub struct WorldPos {
    pub x_half: i64,
    pub y_half: i64,
    pub z_scaled: i64,
}

impl WorldPos {
    /// The transform applied to one cell, as a single spec value.
    pub open spec fn of(tx: int, ty: int, tw: int, th: int, ox: int, oy: int) -> WorldPos {
        WorldPos {
            x_half: world_x2(tx, ty, tw, ox) as i64,
            y_half: world_y2(tx, ty, th, oy) as i64,
            z_scaled: world_z5(tx, ty) as i64,
        }
    }
}

/// Computes the world position of the tile at grid cell `(tx, ty)` on a layer
/// with pixel offset `(offset_x, offset_y)`, for the map's global tile size.
pub fn tile_coords(tx: i32, ty: i32, tile_width: u32, tile_height: u32, offset_x: i32, offset_y: i32) -> (r: WorldPos)
    requires
        tile_width <= 0x7fffffff,
        tile_height <= 0x7fffffff,
    ensures
        r.x_half == world_x2(tx as int, ty as int, tile_width as int, offset_x as int),
        r.y_half == world_y2(tx as int, ty as int, tile_height as int, offset_y as int),
        r.z_scaled == world_z5(tx as int, ty as int),
        r == WorldPos::of(tx as int, ty as int, tile_width as int, tile_height as int, offset_x as int, offset_y as int),
{
    let d: i64 = (tx as i64) - (ty as i64);
    let s: i64 = (tx as i64) + (ty as i64);
    proof {
        assert((-0x8000_0000_0000_0000) <= (tile_width as int) * (d as int) <= 0x7fff_ffff_ffff_ffff
            && (-0x8000_0000_0000_0000) <= (tile_width as int) * (d as int) + 2 * (offset_x as int) <= 0x7fff_ffff_ffff_ffff)
            by (nonlinear_arith)
            requires
                0 <= tile_width as int <= 0x7fff_ffff,
                (-0x1_0000_0000) < (d as int) && (d as int) < 0x1_0000_0000,
                (-0x8000_0000) <= offset_x as int <= 0x7fff_ffff,
        ;
        assert((-0x8000_0000_0000_0000) <= (tile_height as int) * (s as int) <= 0x7fff_ffff_ffff_ffff
            && (-0x8000_0000_0000_0000) <= (tile_height as int) * (s as int) + 2 * (offset_y as int) <= 0x7fff_ffff_ffff_ffff)
            by (nonlinear_arith)
            requires
                0 <= tile_height as int <= 0x7fff_ffff,
                (-0x1_0000_0000) <= (s as int) && (s as int) < 0x1_0000_0000,
                (-0x8000_0000) <= offset_y as int <= 0x7fff_ffff,
        ;
    }
    let x_half: i64 = (tile_width as i64) * d + 2 * (offset_x as i64);
    let y_half: i64 = (tile_height as i64) * s + 2 * (offset_y as i64);
    let z_scaled: i64 = -((tx as i64) + 100 * (ty as i64));
    WorldPos { x_half, y_half, z_scaled }
}

/// The transform is deterministic: two results that each satisfy the contract
/// of `tile_coords` for the same inputs are one and the same placement.
pub proof fn lemma_transform_deterministic(
    p1: WorldPos,
    p2: WorldPos,
    tx: int,
    ty: int,
    tw: int,
    th: int,
    ox: int,
    oy: int,
)
    requires
        p1 == WorldPos::of(tx, ty, tw, th, ox, oy),
        p2 == WorldPos::of(tx, ty, tw, th, ox, oy),
    ensures
        p1 == p2,
{
}

/// Draw-order stability: along the lexicographic (ty, tx) order the depth key
/// strictly decreases, so later cells are drawn behind by a strictly smaller
/// key. When the row strictly increases, this needs the column difference to
/// stay under one hundred times the row difference: the key folds one unit of
/// row into one hundred units of column, so for example (tx, ty) = (100, 0)
/// and (0, 1) share the same key.
pub proof fn lemma_depth_order(tx1: int, ty1: int, tx2: int, ty2: int)
    requires
        ty1 < ty2 || (ty1 == ty2 && tx1 < tx2),
        ty1 < ty2 ==> tx1 - tx2 < 100 * (ty2 - ty1),
    ensures
        world_z5(tx1, ty1) > world_z5(tx2, ty2),
{
}

} // verus!
