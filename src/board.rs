//! Pieces and tiles: what stands on the board and how each is placed.

use vstd::prelude::*;
use vstd::string::StringExecFns;

use crate::geometry::{lemma_tile_offset_bound, WorldPoint};

verus! {

/// The side a piece plays for.
#[derive(Clone, Copy, Debug, PartialEq, Eq, Structural)]
pub enum ChessColor {
    White,
    Black,
}

/// The kind of a piece.
#[derive(Clone, Copy, Debug, PartialEq, Eq, Structural)]
pub enum Pieces {
    Pawn,
    Knight,
    Bishop,
    Rook,
    Queen,
    King,
}

/// A piece: its side, its kind and the tile `(file, rank)` it stands on.
#[derive(Clone, Copy, Debug, PartialEq, Eq)]
pub struct ChessPiece {
    pub color: ChessColor,
    pub piece: Pieces,
    pub position: (u8, u8),
}

/// Where a sprite is drawn and how large it is.
///
/// The translation is taken from tile `(0, 0)` of the board, in eighths of a
/// world unit. The sprite is square, `side_num / side_den` world units wide.
#[derive(Clone, Copy, Debug, PartialEq, Eq, Structural)]
pub struct SpriteLayout {
    pub translation: WorldPoint,
    pub side_num: u32,
    pub side_den: u32,
}

/// Offset of tile `c` from tile `(0, 0)` on a board `board_size` units wide,
/// in eighths of a world unit: `board_size / 8` units per step.
pub open spec fn tile_offset(board_size: u16, c: (u8, u8)) -> WorldPoint {
    WorldPoint { x: (board_size * c.0) as i64, y: (board_size * c.1) as i64 }
}

fn tile_offset_exec(board_size: u16, c: (u8, u8)) -> (r: WorldPoint)
    ensures
        r == tile_offset(board_size, c),
{
    proof {
        lemma_tile_offset_bound(board_size, c.0);
        lemma_tile_offset_bound(board_size, c.1);
    }
    WorldPoint { x: (board_size as i64) * (c.0 as i64), y: (board_size as i64) * (c.1 as i64) }
}

impl ChessPiece {
    /// Placement of a piece's sprite: centred on its tile and a twelfth of
    /// the board wide.
    pub fn piece_sprite(position: (u8, u8), board_size: u16) -> (r: SpriteLayout)
        ensures
            r.translation == tile_offset(board_size, position),
            r.side_num == board_size,
            r.side_den == 12,
    {
        SpriteLayout {
            translation: tile_offset_exec(board_size, position),
            side_num: board_size as u32,
            side_den: 12,
        }
    }

    pub fn pawn(color: ChessColor, position: (u8, u8)) -> (r: Self)
        ensures
            r == (ChessPiece { color, piece: Pieces::Pawn, position }),
    {
        Self { color, piece: Pieces::Pawn, position }
    }

    pub fn knight(color: ChessColor, position: (u8, u8)) -> (r: ChessPiece)
        ensures
            r == (ChessPiece { color, piece: Pieces::Knight, position }),
    {
        Self { color, piece: Pieces::Knight, position }
    }

    pub fn bishop(color: ChessColor, position: (u8, u8)) -> (r: ChessPiece)
        ensures
            r == (ChessPiece { color, piece: Pieces::Bishop, position }),
    {
        Self { color, piece: Pieces::Bishop, position }
    }

    pub fn rook(color: ChessColor, position: (u8, u8)) -> (r: ChessPiece)
        ensures
            r == (ChessPiece { color, piece: Pieces::Rook, position }),
    {
        Self { color, piece: Pieces::Rook, position }
    }

    pub fn queen(color: ChessColor, position: (u8, u8)) -> (r: ChessPiece)
        ensures
            r == (ChessPiece { color, piece: Pieces::Queen, position }),
    {
        Self { color, piece: Pieces::Queen, position }
    }

    pub fn king(color: ChessColor, position: (u8, u8)) -> (r: ChessPiece)
        ensures
            r == (ChessPiece { color, piece: Pieces::King, position }),
    {
        Self { color, piece: Pieces::King, position }
    }
}

/// One cell of the board grid.
#[derive(Clone, Copy, Debug, PartialEq, Eq)]
pub struct BoardTile {
    pub position: (u8, u8),
}

/// The look of a tile: its placement and whether it is a dark square.
#[derive(Clone, Copy, Debug, PartialEq, Eq, Structural)]
pub struct TileSprite {
    pub layout: SpriteLayout,
    pub dark: bool,
}

/// Tiles whose file and rank add up to an even number are dark.
pub open spec fn is_dark_tile(c: (u8, u8)) -> bool {
    (c.0 + c.1) % 2 == 0
}

impl BoardTile {
    pub fn new(x: u8, y: u8) -> (r: Self)
        ensures
            r.position == (x, y),
    {
        Self { position: (x, y) }
    }

    /// Placement and shade of tile `(x, y)`: centred on its cell and as
    /// wide as the cell.
    pub fn make_sprite(x: u8, y: u8, board_size: u16) -> (r: TileSprite)
        ensures
            r.layout.translation == tile_offset(board_size, (x, y)),
            r.layout.side_num == board_size,
            r.layout.side_den == 8,
            r.dark == is_dark_tile((x, y)),
    {
        let dark = (x as u16 + y as u16) % 2 == 0;
        TileSprite {
            layout: SpriteLayout {
                translation: tile_offset_exec(board_size, (x, y)),
                side_num: board_size as u32,
                side_den: 8,
            },
            dark,
        }
    }
}

/// Letter of a file, `a` to `h`; `err` off the board.
pub open spec fn file_name(f: u8) -> Seq<char> {
    if f < 8 {
        seq![(97 + f) as char]
    } else {
        seq!['e', 'r', 'r']
    }
}

/// Digit of a rank, `1` to `8`; `err` off the board.
pub open spec fn rank_name(r: u8) -> Seq<char> {
    if r < 8 {
        seq![(49 + r) as char]
    } else {
        seq!['e', 'r', 'r']
    }
}

fn file_label(f: u8) -> (r: &'static str)
    ensures
        r@ == file_name(f),
{
    proof {
        reveal_strlit("a");
        reveal_strlit("b");
        reveal_strlit("c");
        reveal_strlit("d");
        reveal_strlit("e");
        reveal_strlit("f");
        reveal_strlit("g");
        reveal_strlit("h");
        reveal_strlit("err");
    }
    match f {
        0 => "a",
        1 => "b",
        2 => "c",
        3 => "d",
        4 => "e",
        5 => "f",
        6 => "g",
        7 => "h",
        _ => "err",
    }
}

fn rank_label(r: u8) -> (s: &'static str)
    ensures
        s@ == rank_name(r),
{
    proof {
        reveal_strlit("1");
        reveal_strlit("2");
        reveal_strlit("3");
        reveal_strlit("4");
        reveal_strlit("5");
        reveal_strlit("6");
        reveal_strlit("7");
        reveal_strlit("8");
        reveal_strlit("err");
    }
    match r {
        0 => "1",
        1 => "2",
        2 => "3",
        3 => "4",
        4 => "5",
        5 => "6",
        6 => "7",
        7 => "8",
        _ => "err",
    }
}

/// The algebraic name of a square, such as `e4`.
pub fn pos_to_str(pos: (u8, u8)) -> (r: String)
    ensures
        r@ == file_name(pos.0) + rank_name(pos.1),
{
    let mut s = String::from_str(file_label(pos.0));
    s.append(rank_label(pos.1));
    s
}

} // verus!
