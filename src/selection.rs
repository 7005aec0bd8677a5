//! Clicks, selection and moves: resolving a click to a tile, the selection
//! state machine, and the executor that relocates a piece.

use vstd::prelude::*;

use crate::board::ChessPiece;
use crate::geometry::{board_to_world_spec, on_board, world_to_board_spec, BoardInfo, WorldPoint};
use crate::registry::{
    last_at, last_index, lemma_last_at_unique, lemma_last_index_exists, occupied, Board, PlacedPiece,
};

verus! {

/// The tile currently picked up, awaiting a move target; `None` when idle.
#[derive(Clone, Copy, Debug, PartialEq, Eq)]
pub struct SelectedPiece {
    pub position: Option<(u8, u8)>,
}

/// A click that landed on tile `position`.
#[derive(Clone, Copy, Debug, PartialEq, Eq)]
pub struct TileClickedEvent {
    pub position: (u8, u8),
}

/// A request to put the piece on tile `from` onto tile `to`.
#[derive(Clone, Copy, Debug, PartialEq, Eq)]
pub struct MovePieceEvent {
    pub from: (u8, u8),
    pub to: (u8, u8),
}

/// The tile a click resolves to: only a fresh press with a known pointer
/// position over the board counts.
pub open spec fn clicked_tile(info: BoardInfo, cursor: Option<WorldPoint>, just_pressed: bool) -> Option<(u8, u8)> {
    match cursor {
        Some(p) if just_pressed => world_to_board_spec(p, info),
        _ => None,
    }
}

/// The selection after a click on `c`: an idle selection picks `c` up, any
/// other stays as it is until a move clears it.
pub open spec fn select_spec(sel: Option<(u8, u8)>, c: (u8, u8)) -> Option<(u8, u8)> {
    match sel {
        None => Some(c),
        Some(_) => sel,
    }
}

/// The move a click on `c` asks for: from the selected tile to `c`, unless
/// nothing is selected or `c` is the selected tile itself.
pub open spec fn move_request(sel: Option<(u8, u8)>, c: (u8, u8)) -> Option<MovePieceEvent> {
    match sel {
        Some(p) if p != c => Some(MovePieceEvent { from: p, to: c }),
        _ => None,
    }
}

/// A move takes effect when its target is a tile and a piece stands on its
/// source.
pub open spec fn move_applies(s: Seq<PlacedPiece>, ev: MovePieceEvent) -> bool {
    on_board(ev.to) && occupied(s, ev.from)
}

/// Piece `p` put on tile `to` and drawn there.
pub open spec fn relocated(p: PlacedPiece, info: BoardInfo, to: (u8, u8)) -> PlacedPiece {
    PlacedPiece {
        piece: ChessPiece { position: to, ..p.piece },
        translation: board_to_world_spec(info, to),
    }
}

/// The pieces after move `ev`: the last piece on the source goes to the
/// target, and whatever already stood there stays. A move that does not
/// take effect changes nothing.
pub open spec fn moved(s: Seq<PlacedPiece>, info: BoardInfo, ev: MovePieceEvent) -> Seq<PlacedPiece> {
    if move_applies(s, ev) {
        let i = last_index(s, ev.from);
        s.update(i, relocated(s[i], info, ev.to))
    } else {
        s
    }
}

/// The selection after move `ev`: cleared when the move took effect, kept
/// otherwise.
pub open spec fn selection_after_move(
    s: Seq<PlacedPiece>,
    sel: Option<(u8, u8)>,
    ev: MovePieceEvent,
) -> Option<(u8, u8)> {
    if move_applies(s, ev) {
        None
    } else {
        sel
    }
}

/// Pieces and selection after a click on tile `c`.
pub open spec fn click_step(
    s: Seq<PlacedPiece>,
    info: BoardInfo,
    sel: Option<(u8, u8)>,
    c: (u8, u8),
) -> (Seq<PlacedPiece>, Option<(u8, u8)>) {
    let sel1 = select_spec(sel, c);
    match move_request(sel, c) {
        Some(ev) => (moved(s, info, ev), selection_after_move(s, sel1, ev)),
        None => (s, sel1),
    }
}

/// Resolves a pointer press to the tile under it. Nothing comes of a frame
/// without a fresh press, or without a pointer position, or with the
/// pointer off the board.
pub fn click_tile(info: &BoardInfo, cursor: Option<WorldPoint>, just_pressed: bool) -> (r: Option<TileClickedEvent>)
    ensures
        r matches Some(e) ==> clicked_tile(*info, cursor, just_pressed) == Some(e.position),
        r is None <==> clicked_tile(*info, cursor, just_pressed) is None,
{
    if !just_pressed {
        return None;
    }
    match cursor {
        None => None,
        Some(p) => match info.world_to_board(p) {
            Some(c) => Some(TileClickedEvent { position: c }),
            None => None,
        },
    }
}

/// Picks up the clicked tile when nothing is selected.
pub fn set_selected_piece(selected: &mut SelectedPiece, click: &TileClickedEvent)
    ensures
        final(selected).position == select_spec(old(selected).position, click.position),
{
    if selected.position.is_none() {
        selected.position = Some(click.position);
    }
}

/// The move that a click asks for, given the selection before the click.
pub fn move_piece_writer(selected: &SelectedPiece, click: &TileClickedEvent) -> (r: Option<MovePieceEvent>)
    ensures
        r == move_request(selected.position, click.position),
{
    match selected.position {
        Some(p) => {
            if p.0 != click.position.0 || p.1 != click.position.1 {
                Some(MovePieceEvent { from: p, to: click.position })
            } else {
                None
            }
        },
        None => None,
    }
}

/// Carries out a move: the piece on `ev.from` is put on `ev.to` and drawn
/// there, and the selection is cleared. A move whose source is empty or
/// whose target is off the board changes nothing.
pub fn move_piece(board: &mut Board, selected: &mut SelectedPiece, ev: &MovePieceEvent)
    ensures
        old(board).wf() ==> final(board).wf(),
        final(board).info == old(board).info,
        final(board).tiles@ == old(board).tiles@,
        final(board).pieces@ == moved(old(board).pieces@, old(board).info, *ev),
        final(selected).position == selection_after_move(
            old(board).pieces@,
            old(selected).position,
            *ev,
        ),
{
    if ev.to.0 >= 8 || ev.to.1 >= 8 {
        return;
    }
    match board.piece_at(ev.from) {
        None => {},
        Some(i) => {
            proof {
                let s = board.pieces@;
                assert(occupied(s, ev.from));
                assert(last_at(s, i as int, ev.from));
                lemma_last_at_unique(s, i as int, last_index(s, ev.from), ev.from);
            }
            let p = board.pieces[i].piece;
            let placed = PlacedPiece::place(&board.info, ChessPiece { position: ev.to, ..p });
            board.pieces[i] = placed;
            selected.position = None;
        },
    }
}

/// One game session: a board and the selection made on it.
#[derive(Debug)]
pub struct Session {
    pub board: Board,
    pub selected: SelectedPiece,
}

impl Session {
    /// Handles a click on tile `click.position`: updates the selection and
    /// carries out the move the click asks for, if any.
    pub fn on_tile_clicked(&mut self, click: &TileClickedEvent)
        ensures
            old(self).board.wf() ==> final(self).board.wf(),
            final(self).board.info == old(self).board.info,
            final(self).board.tiles@ == old(self).board.tiles@,
            (final(self).board.pieces@, final(self).selected.position) == click_step(
                old(self).board.pieces@,
                old(self).board.info,
                old(self).selected.position,
                click.position,
            ),
    {
        let request = move_piece_writer(&self.selected, click);
        set_selected_piece(&mut self.selected, click);
        match request {
            Some(ev) => move_piece(&mut self.board, &mut self.selected, &ev),
            None => {},
        }
    }

    /// Runs one frame: resolves the pointer press, if any, to a tile and
    /// handles the click on it.
    pub fn frame(&mut self, cursor: Option<WorldPoint>, just_pressed: bool)
        ensures
            old(self).board.wf() ==> final(self).board.wf(),
            final(self).board.info == old(self).board.info,
            final(self).board.tiles@ == old(self).board.tiles@,
            match clicked_tile(old(self).board.info, cursor, just_pressed) {
                Some(c) => (final(self).board.pieces@, final(self).selected.position) == click_step(
                    old(self).board.pieces@,
                    old(self).board.info,
                    old(self).selected.position,
                    c,
                ),
                None => final(self).board.pieces@ == old(self).board.pieces@
                    && final(self).selected == old(self).selected,
            },
    {
        match click_tile(&self.board.info, cursor, just_pressed) {
            Some(click) => self.on_tile_clicked(&click),
            None => {},
        }
    }
}

/// Clicking the same tile twice in succession, starting idle or with that
/// tile selected, leaves it selected, asks for no move and leaves every
/// piece where it was.
pub proof fn lemma_reclick_keeps_selection(
    s: Seq<PlacedPiece>,
    info: BoardInfo,
    sel: Option<(u8, u8)>,
    c: (u8, u8),
)
    requires
        sel is None || sel == Some(c),
    ensures
        move_request(sel, c) is None,
        move_request(select_spec(sel, c), c) is None,
        click_step(s, info, sel, c) == (s, Some(c)),
        click_step(click_step(s, info, sel, c).0, info, click_step(s, info, sel, c).1, c) == (
            s,
            Some(c),
        ),
{
}

/// A click on another tile while a piece is selected puts that piece on the
/// clicked tile, draws it there and clears the selection.
pub proof fn lemma_move_commit(
    s: Seq<PlacedPiece>,
    info: BoardInfo,
    from: (u8, u8),
    c: (u8, u8),
    i: int,
)
    requires
        on_board(c),
        from != c,
        last_at(s, i, from),
    ensures
        click_step(s, info, Some(from), c).0 == s.update(i, relocated(s[i], info, c)),
        click_step(s, info, Some(from), c).0[i].piece.position == c,
        click_step(s, info, Some(from), c).0[i].translation == board_to_world_spec(info, c),
        click_step(s, info, Some(from), c).1 is None,
{
    assert(occupied(s, from));
    lemma_last_at_unique(s, i, last_index(s, from), from);
}

/// A move whose source holds no piece changes neither the pieces nor the
/// selection.
pub proof fn lemma_dangling_source_no_op(
    s: Seq<PlacedPiece>,
    info: BoardInfo,
    sel: Option<(u8, u8)>,
    ev: MovePieceEvent,
)
    requires
        !occupied(s, ev.from),
    ensures
        moved(s, info, ev) == s,
        selection_after_move(s, sel, ev) == sel,
{
}

/// Moving a piece onto a tile that another piece already holds keeps both
/// pieces in the registry, on the same tile.
pub proof fn lemma_move_onto_occupied(
    s: Seq<PlacedPiece>,
    info: BoardInfo,
    ev: MovePieceEvent,
    j: int,
)
    requires
        on_board(ev.to),
        occupied(s, ev.from),
        0 <= j < s.len(),
        s[j].piece.position == ev.to,
    ensures
        moved(s, info, ev).len() == s.len(),
        moved(s, info, ev)[j].piece.position == ev.to,
        moved(s, info, ev)[last_index(s, ev.from)].piece.position == ev.to,
{
    let w = choose|i: int| 0 <= i < s.len() && s[i].piece.position == ev.from;
    lemma_last_index_exists(s, w, ev.from);
}

} // verus!
