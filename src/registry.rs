//! The piece registry: the tiles of a board and every piece on it, with the
//! world position each piece is drawn at.

use vstd::prelude::*;

use crate::board::{BoardTile, ChessColor, ChessPiece, Pieces};
use crate::geometry::{board_to_world_spec, on_board, BoardInfo, WorldPoint};

verus! {

/// A piece together with the world position its sprite is drawn at.
#[derive(Clone, Copy, Debug, PartialEq, Eq)]
pub struct PlacedPiece {
    pub piece: ChessPiece,
    pub translation: WorldPoint,
}

/// A board: its placement in the world, its 64 tiles and its pieces.
///
/// A piece is known by its index in `pieces`, which never changes.
#[derive(Debug)]
pub struct Board {
    pub info: BoardInfo,
    pub tiles: Vec<BoardTile>,
    pub pieces: Vec<PlacedPiece>,
}

/// The piece kind that starts on file `f` of a back rank: rook, knight,
/// bishop, queen, king, bishop, knight, rook.
pub open spec fn back_rank_kind(f: u8) -> Pieces {
    if f == 0 || f == 7 {
        Pieces::Rook
    } else if f == 1 || f == 6 {
        Pieces::Knight
    } else if f == 2 || f == 5 {
        Pieces::Bishop
    } else if f == 3 {
        Pieces::Queen
    } else {
        Pieces::King
    }
}

/// Side and kind of the piece that starts on tile `c`, if any: White on
/// ranks 0 and 1, Black on ranks 6 and 7, pawns on the ranks next to the
/// back ranks.
pub open spec fn initial_occupant(c: (u8, u8)) -> Option<(ChessColor, Pieces)> {
    if !on_board(c) {
        None
    } else if c.1 == 0 {
        Some((ChessColor::White, back_rank_kind(c.0)))
    } else if c.1 == 1 {
        Some((ChessColor::White, Pieces::Pawn))
    } else if c.1 == 6 {
        Some((ChessColor::Black, Pieces::Pawn))
    } else if c.1 == 7 {
        Some((ChessColor::Black, back_rank_kind(c.0)))
    } else {
        None
    }
}

/// The starting position: 32 pieces on distinct tiles, each where the
/// starting layout puts its side and kind, and every starting tile taken.
pub open spec fn standard_layout(pieces: Seq<ChessPiece>) -> bool {
    &&& pieces.len() == 32
    &&& forall|i: int|
        0 <= i < pieces.len() ==> #[trigger] initial_occupant(pieces[i].position) == Some(
            (pieces[i].color, pieces[i].piece),
        )
    &&& forall|i: int, j: int|
        0 <= i < j < pieces.len() ==> pieces[i].position != pieces[j].position
    &&& forall|c: (u8, u8)|
        #[trigger] initial_occupant(c) is Some ==> exists|i: int|
            0 <= i < pieces.len() && pieces[i].position == c
}

/// The piece created in place `i` when a board is built: four per file,
/// in the order black pawn, white pawn, black back-rank piece, white
/// back-rank piece.
pub open spec fn initial_piece(i: int) -> ChessPiece {
    let f = (i / 4) as u8;
    let k = i % 4;
    if k == 0 {
        ChessPiece { color: ChessColor::Black, piece: Pieces::Pawn, position: (f, 6) }
    } else if k == 1 {
        ChessPiece { color: ChessColor::White, piece: Pieces::Pawn, position: (f, 1) }
    } else if k == 2 {
        ChessPiece { color: ChessColor::Black, piece: back_rank_kind(f), position: (f, 7) }
    } else {
        ChessPiece { color: ChessColor::White, piece: back_rank_kind(f), position: (f, 0) }
    }
}

/// Tile `i` of a board, counted along rank 0 first, then rank 1, and so on.
pub open spec fn tile_at_index(i: int) -> (u8, u8) {
    ((i % 8) as u8, (i / 8) as u8)
}

/// The starting position is the standard layout.
pub proof fn lemma_initial_layout(pieces: Seq<ChessPiece>)
    requires
        pieces.len() == 32,
        forall|i: int| 0 <= i < 32 ==> pieces[i] == initial_piece(i),
    ensures
        standard_layout(pieces),
{
    assert forall|i: int| 0 <= i < pieces.len() implies #[trigger] initial_occupant(
        pieces[i].position,
    ) == Some((pieces[i].color, pieces[i].piece)) by {
        assert(pieces[i] == initial_piece(i));
    }
    assert forall|i: int, j: int| 0 <= i < j < pieces.len() implies pieces[i].position
        != pieces[j].position by {
        assert(pieces[i] == initial_piece(i));
        assert(pieces[j] == initial_piece(j));
    }
    assert forall|c: (u8, u8)| #[trigger] initial_occupant(c) is Some implies exists|i: int|
        0 <= i < pieces.len() && pieces[i].position == c by {
        let k: int = if c.1 == 6 {
            0
        } else if c.1 == 1 {
            1
        } else if c.1 == 7 {
            2
        } else {
            3
        };
        let i = 4 * c.0 + k;
        assert(pieces[i] == initial_piece(i));
    }
}

fn back_rank(f: u8) -> (r: Pieces)
    requires
        f < 8,
    ensures
        r == back_rank_kind(f),
{
    match f {
        0 | 7 => Pieces::Rook,
        1 | 6 => Pieces::Knight,
        2 | 5 => Pieces::Bishop,
        3 => Pieces::Queen,
        _ => Pieces::King,
    }
}

/// Whether piece `i` is the last one in `s` standing on `c`.
pub open spec fn last_at(s: Seq<PlacedPiece>, i: int, c: (u8, u8)) -> bool {
    &&& 0 <= i < s.len()
    &&& s[i].piece.position == c
    &&& forall|j: int| i < j < s.len() ==> (#[trigger] s[j]).piece.position != c
}

/// Whether any piece of `s` stands on `c`.
pub open spec fn occupied(s: Seq<PlacedPiece>, c: (u8, u8)) -> bool {
    exists|i: int| 0 <= i < s.len() && (#[trigger] s[i]).piece.position == c
}

/// The index of the last piece of `s` on `c`, when `c` is occupied.
pub open spec fn last_index(s: Seq<PlacedPiece>, c: (u8, u8)) -> int {
    choose|i: int| last_at(s, i, c)
}

pub(crate) proof fn lemma_last_at_unique(s: Seq<PlacedPiece>, i: int, j: int, c: (u8, u8))
    requires
        last_at(s, i, c),
        last_at(s, j, c),
    ensures
        i == j,
{
    if i < j {
        assert(s[j].piece.position != c);
    } else if j < i {
        assert(s[i].piece.position != c);
    }
}

/// An occupied tile has a last piece on it.
pub(crate) proof fn lemma_last_index_exists(s: Seq<PlacedPiece>, w: int, c: (u8, u8))
    requires
        0 <= w < s.len(),
        s[w].piece.position == c,
    ensures
        last_at(s, last_index(s, c), c),
    decreases s.len() - w,
{
    if exists|j: int| w < j < s.len() && (#[trigger] s[j]).piece.position == c {
        let j = choose|j: int| w < j < s.len() && (#[trigger] s[j]).piece.position == c;
        lemma_last_index_exists(s, j, c);
    } else {
        assert(last_at(s, w, c));
    }
}

impl PlacedPiece {
    /// A piece drawn at the world position of the tile it stands on.
    pub fn place(info: &BoardInfo, piece: ChessPiece) -> (r: PlacedPiece)
        ensures
            r.piece == piece,
            r.translation == board_to_world_spec(*info, piece.position),
    {
        PlacedPiece { piece, translation: info.board_to_world(piece.position) }
    }
}

impl Board {
    /// Tiles are laid out rank by rank, and each piece stands on a tile and
    /// is drawn where that tile is.
    pub open spec fn wf(&self) -> bool {
        &&& self.tiles@.len() == 64
        &&& forall|i: int| 0 <= i < 64 ==> (#[trigger] self.tiles@[i]).position == tile_at_index(i)
        &&& forall|i: int|
            0 <= i < self.pieces@.len() ==> on_board((#[trigger] self.pieces@[i]).piece.position)
                && self.pieces@[i].translation == board_to_world_spec(
                self.info,
                self.pieces@[i].piece.position,
            )
    }

    /// The pieces alone, without where they are drawn.
    pub open spec fn piece_seq(&self) -> Seq<ChessPiece> {
        self.pieces@.map_values(|p: PlacedPiece| p.piece)
    }

    /// The index of the piece on tile `c`; where several share it, the last
    /// of them.
    pub fn piece_at(&self, c: (u8, u8)) -> (r: Option<usize>)
        ensures
            r matches Some(i) ==> last_at(self.pieces@, i as int, c),
            r is None <==> !occupied(self.pieces@, c),
    {
        let mut n = self.pieces.len();
        while n > 0
            invariant
                n <= self.pieces@.len(),
                forall|j: int|
                    n <= j < self.pieces@.len() ==> (#[trigger] self.pieces@[j]).piece.position
                        != c,
            decreases n,
        {
            let p = self.pieces[n - 1].piece.position;
            if p.0 == c.0 && p.1 == c.1 {
                return Some(n - 1);
            }
            n = n - 1;
        }
        None
    }
}

/// Builds a board at `info` with its 64 tiles and the 32 pieces of the
/// starting position, each drawn on its tile.
pub fn spawn_new_board(info: BoardInfo) -> (r: Board)
    ensures
        r.info == info,
        r.wf(),
        r.pieces@.len() == 32,
        forall|i: int| 0 <= i < 32 ==> (#[trigger] r.pieces@[i]).piece == initial_piece(i),
        standard_layout(r.piece_seq()),
{
    let mut tiles: Vec<BoardTile> = Vec::new();
    let mut i: u8 = 0;
    while i < 64
        invariant
            i <= 64,
            tiles@.len() == i,
            forall|k: int| 0 <= k < i ==> (#[trigger] tiles@[k]).position == tile_at_index(k),
        decreases 64 - i,
    {
        tiles.push(BoardTile::new(i % 8, i / 8));
        i = i + 1;
    }
    let mut pieces: Vec<PlacedPiece> = Vec::new();
    let mut f: u8 = 0;
    while f < 8
        invariant
            f <= 8,
            pieces@.len() == 4 * f,
            forall|k: int|
                0 <= k < pieces@.len() ==> (#[trigger] pieces@[k]).piece == initial_piece(k)
                    && on_board(pieces@[k].piece.position) && pieces@[k].translation
                    == board_to_world_spec(info, pieces@[k].piece.position),
        decreases 8 - f,
    {
        let back = back_rank(f);
        pieces.push(PlacedPiece::place(&info, ChessPiece::pawn(ChessColor::Black, (f, 6))));
        pieces.push(PlacedPiece::place(&info, ChessPiece::pawn(ChessColor::White, (f, 1))));
        pieces.push(
            PlacedPiece::place(
                &info,
                ChessPiece { color: ChessColor::Black, piece: back, position: (f, 7) },
            ),
        );
        pieces.push(
            PlacedPiece::place(
                &info,
                ChessPiece { color: ChessColor::White, piece: back, position: (f, 0) },
            ),
        );
        f = f + 1;
    }
    let board = Board { info, tiles, pieces };
    proof {
        let s = board.piece_seq();
        assert forall|k: int| 0 <= k < 32 implies s[k] == initial_piece(k) by {
            assert(board.pieces@[k].piece == initial_piece(k));
        }
        lemma_initial_layout(s);
    }
    board
}

} // verus!
