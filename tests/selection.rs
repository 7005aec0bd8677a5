use chessboard::{
    click_tile, move_piece, move_piece_writer, set_selected_piece, spawn_new_board, BoardInfo,
    ChessColor, ChessPiece, MovePieceEvent, SelectedPiece, Session, TileClickedEvent, WorldPoint,
};

fn info() -> BoardInfo {
    BoardInfo { size: 600, origin_x: -2400, origin_y: -2400 }
}

fn session() -> Session {
    Session { board: spawn_new_board(info()), selected: SelectedPiece { position: None } }
}

fn positions(s: &Session) -> Vec<(u8, u8)> {
    s.board.pieces.iter().map(|p| p.piece.position).collect()
}

fn click(s: &mut Session, c: (u8, u8)) {
    s.on_tile_clicked(&TileClickedEvent { position: c });
}

#[test]
fn click_resolves_only_fresh_presses_on_the_board() {
    let info = info();
    let p = WorldPoint { x: -1700, y: 1900 };
    assert_eq!(click_tile(&info, Some(p), true), Some(TileClickedEvent { position: (1, 7) }));
    assert_eq!(click_tile(&info, Some(p), false), None);
    assert_eq!(click_tile(&info, None, true), None);
    assert_eq!(click_tile(&info, Some(WorldPoint { x: 2400, y: 0 }), true), None);
}

#[test]
fn idle_click_selects() {
    let mut sel = SelectedPiece { position: None };
    let c = TileClickedEvent { position: (2, 5) };
    assert_eq!(move_piece_writer(&sel, &c), None);
    set_selected_piece(&mut sel, &c);
    assert_eq!(sel.position, Some((2, 5)));
}

#[test]
fn click_elsewhere_requests_move_and_keeps_selection() {
    let mut sel = SelectedPiece { position: Some((1, 1)) };
    let c = TileClickedEvent { position: (1, 3) };
    assert_eq!(move_piece_writer(&sel, &c), Some(MovePieceEvent { from: (1, 1), to: (1, 3) }));
    set_selected_piece(&mut sel, &c);
    assert_eq!(sel.position, Some((1, 1)));
}

#[test]
fn reclicking_same_tile_keeps_selection() {
    let mut s = session();
    let before = positions(&s);
    click(&mut s, (4, 1));
    assert_eq!(s.selected.position, Some((4, 1)));
    click(&mut s, (4, 1));
    assert_eq!(s.selected.position, Some((4, 1)));
    assert_eq!(positions(&s), before);
}

#[test]
fn move_commit_relocates_white_pawn() {
    let mut s = session();
    let pawn = s.board.piece_at((1, 1)).unwrap();
    assert_eq!(s.board.pieces[pawn].piece, ChessPiece::pawn(ChessColor::White, (1, 1)));
    s.selected.position = Some((1, 1));
    click(&mut s, (1, 3));
    assert_eq!(s.board.pieces[pawn].piece, ChessPiece::pawn(ChessColor::White, (1, 3)));
    assert_eq!(s.board.pieces[pawn].translation, info().board_to_world((1, 3)));
    assert_eq!(s.board.pieces[pawn].translation, WorldPoint { x: -1800, y: -600 });
    assert_eq!(s.selected.position, None);
    assert_eq!(s.board.piece_at((1, 1)), None);
    assert_eq!(s.board.piece_at((1, 3)), Some(pawn));
}

#[test]
fn frames_drive_selection_and_move() {
    let mut s = session();
    let pawn = s.board.piece_at((1, 1)).unwrap();
    let from = WorldPoint { x: -1800 + 10, y: -1800 + 10 };
    let to = WorldPoint { x: -1800 + 599, y: -600 };
    s.frame(Some(from), true);
    assert_eq!(s.selected.position, Some((1, 1)));
    s.frame(Some(to), false);
    s.frame(None, true);
    assert_eq!(s.selected.position, Some((1, 1)));
    s.frame(Some(to), true);
    assert_eq!(s.board.pieces[pawn].piece.position, (1, 3));
    assert_eq!(s.selected.position, None);
}

#[test]
fn move_from_empty_tile_changes_nothing() {
    let mut s = session();
    let before = positions(&s);
    s.selected.position = Some((3, 4));
    let ev = MovePieceEvent { from: (3, 4), to: (3, 5) };
    move_piece(&mut s.board, &mut s.selected, &ev);
    assert_eq!(positions(&s), before);
    assert_eq!(s.selected.position, Some((3, 4)));
}

#[test]
fn move_to_off_board_target_changes_nothing() {
    let mut s = session();
    let before = positions(&s);
    s.selected.position = Some((0, 1));
    move_piece(&mut s.board, &mut s.selected, &MovePieceEvent { from: (0, 1), to: (0, 8) });
    assert_eq!(positions(&s), before);
    assert_eq!(s.selected.position, Some((0, 1)));
}

#[test]
fn move_onto_occupied_tile_keeps_both_pieces() {
    let mut s = session();
    let rook = s.board.piece_at((0, 0)).unwrap();
    let pawn = s.board.piece_at((0, 6)).unwrap();
    s.selected.position = Some((0, 0));
    click(&mut s, (0, 6));
    assert_eq!(s.board.pieces.len(), 32);
    assert_eq!(s.board.pieces[rook].piece, ChessPiece::rook(ChessColor::White, (0, 6)));
    assert_eq!(s.board.pieces[pawn].piece, ChessPiece::pawn(ChessColor::Black, (0, 6)));
    assert_eq!(s.selected.position, None);
}

#[test]
fn shared_tile_moves_last_registered_piece() {
    let mut s = session();
    let rook = s.board.piece_at((0, 0)).unwrap();
    let pawn = s.board.piece_at((0, 6)).unwrap();
    assert!(rook > pawn);
    s.selected.position = Some((0, 0));
    click(&mut s, (0, 6));
    assert_eq!(s.board.piece_at((0, 6)), Some(rook));
    s.selected.position = Some((0, 6));
    click(&mut s, (2, 3));
    assert_eq!(s.board.pieces[rook].piece.position, (2, 3));
    assert_eq!(s.board.pieces[pawn].piece.position, (0, 6));
}
