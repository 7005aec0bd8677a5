//! Board geometry: the affine map between board coordinates and world space.

use vstd::prelude::*;

verus! {

/// A point in world space, counted in eighths of a world unit.
#[derive(Clone, Copy, Debug, PartialEq, Eq, Structural)]
pub struct WorldPoint {
    pub x: i64,
    pub y: i64,
}

/// The placement of a board in world space, fixed once the board is built.
#[derive(Clone, Copy, Debug, PartialEq, Eq, Structural)]
pub struct BoardInfo {
    /// Side length of the whole board, in world units.
    pub size: u16,
    /// World position of tile `(0, 0)` along x, in eighths of a world unit.
    pub origin_x: i32,
    /// World position of tile `(0, 0)` along y, in eighths of a world unit.
    pub origin_y: i32,
}

/// A coordinate `(file, rank)` names a tile when both parts lie in `0..8`.
pub open spec fn on_board(c: (u8, u8)) -> bool {
    c.0 < 8 && c.1 < 8
}

/// The tile index along one axis of a world position: the offset from the
/// origin divided by the side of a tile (`size / 8` world units, hence
/// `size` eighths), rounded down.
pub open spec fn axis_index(p: int, origin: int, size: int) -> int {
    (p - origin) / size
}

/// World position of tile `c`: the origin plus `size / 8` world units per step.
pub open spec fn board_to_world_spec(info: BoardInfo, c: (u8, u8)) -> WorldPoint {
    WorldPoint {
        x: (info.origin_x + info.size * c.0) as i64,
        y: (info.origin_y + info.size * c.1) as i64,
    }
}

/// The tile that holds world position `p`, if any; a board of size zero
/// holds nothing.
pub open spec fn world_to_board_spec(p: WorldPoint, info: BoardInfo) -> Option<(u8, u8)> {
    let f = axis_index(p.x as int, info.origin_x as int, info.size as int);
    let r = axis_index(p.y as int, info.origin_y as int, info.size as int);
    if info.size > 0 && 0 <= f < 8 && 0 <= r < 8 {
        Some((f as u8, r as u8))
    } else {
        None
    }
}

proof fn lemma_axis_index_range(d: int, size: int)
    requires
        size > 0,
    ensures
        (0 <= d / size < 8) <==> (0 <= d < 8 * size),
{
    let q = d / size;
    let r = d % size;
    vstd::arithmetic::div_mod::lemma_fundamental_div_mod(d, size);
    assert(0 <= r < size);
    assert((0 <= q < 8) <==> (0 <= d < 8 * size)) by (nonlinear_arith)
        requires
            d == size * q + r,
            0 <= r < size,
            size > 0,
    ;
}

pub(crate) proof fn lemma_tile_offset_bound(size: u16, k: u8)
    ensures
        0 <= size * k <= 65535 * 255,
{
    assert(0 <= size * k <= 65535 * 255) by (nonlinear_arith)
        requires
            size <= 65535,
            k <= 255,
    ;
}

proof fn lemma_axis_index_of_multiple(k: int, size: int)
    requires
        size > 0,
    ensures
        (size * k) / size == k,
{
    vstd::arithmetic::div_mod::lemma_div_multiples_vanish(k, size);
}

/// Tile index along one axis, or `None` when `p` lies off the board.
fn axis_to_index(p: i64, origin: i32, size: u16) -> (r: Option<u8>)
    requires
        size > 0,
    ensures
        r == (if 0 <= axis_index(p as int, origin as int, size as int) < 8 {
            Some(axis_index(p as int, origin as int, size as int) as u8)
        } else {
            None::<u8>
        }),
{
    proof {
        lemma_axis_index_range(p - origin, size as int);
    }
    let o = origin as i64;
    let end = o + 8 * (size as i64);
    if p < o || p >= end {
        None
    } else {
        let d = (p - o) as u64;
        let q = d / (size as u64);
        Some(q as u8)
    }
}

impl BoardInfo {
    /// World position of tile `c`.
    pub fn board_to_world(&self, c: (u8, u8)) -> (r: WorldPoint)
        ensures
            r == board_to_world_spec(*self, c),
    {
        proof {
            lemma_tile_offset_bound(self.size, c.0);
            lemma_tile_offset_bound(self.size, c.1);
        }
        let x = self.origin_x as i64 + (self.size as i64) * (c.0 as i64);
        let y = self.origin_y as i64 + (self.size as i64) * (c.1 as i64);
        WorldPoint { x, y }
    }

    /// The tile under world position `p`; `None` for a position off the board.
    pub fn world_to_board(&self, p: WorldPoint) -> (r: Option<(u8, u8)>)
        ensures
            r == world_to_board_spec(p, *self),
            r matches Some(c) ==> on_board(c),
    {
        if self.size == 0 {
            return None;
        }
        let f = axis_to_index(p.x, self.origin_x, self.size);
        let r = axis_to_index(p.y, self.origin_y, self.size);
        match (f, r) {
            (Some(f), Some(r)) => Some((f, r)),
            _ => None,
        }
    }
}

impl Default for BoardInfo {
    /// A board of 500 world units with tile `(0, 0)` at the world origin.
    fn default() -> (r: Self)
        ensures
            r == (BoardInfo { size: 500, origin_x: 0, origin_y: 0 }),
    {
        BoardInfo { size: 500, origin_x: 0, origin_y: 0 }
    }
}

/// Every tile maps to a world position that maps back to the same tile.
pub proof fn lemma_coordinate_round_trip(info: BoardInfo, c: (u8, u8))
    requires
        info.size > 0,
        on_board(c),
    ensures
        world_to_board_spec(board_to_world_spec(info, c), info) == Some(c),
{
    let p = board_to_world_spec(info, c);
    lemma_axis_index_of_multiple(c.0 as int, info.size as int);
    lemma_axis_index_of_multiple(c.1 as int, info.size as int);
    lemma_tile_offset_bound(info.size, c.0);
    lemma_tile_offset_bound(info.size, c.1);
    assert(p.x - info.origin_x == info.size * c.0);
    assert(p.y - info.origin_y == info.size * c.1);
}

/// A world position whose tile index falls outside `0..8` on either axis
/// maps to no tile.
pub proof fn lemma_out_of_range_rejected(info: BoardInfo, p: WorldPoint)
    requires
        !(0 <= axis_index(p.x as int, info.origin_x as int, info.size as int) < 8)
            || !(0 <= axis_index(p.y as int, info.origin_y as int, info.size as int) < 8),
    ensures
        world_to_board_spec(p, info) is None,
{
}

} // verus!
