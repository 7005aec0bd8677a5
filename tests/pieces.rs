use chessboard::{
    pos_to_str, spawn_new_board, BoardInfo, BoardTile, ChessColor, ChessPiece, Pieces, SpriteLayout,
    WorldPoint,
};

fn info() -> BoardInfo {
    BoardInfo { size: 600, origin_x: -2400, origin_y: -2400 }
}

#[test]
fn constructors_set_kind() {
    let kinds = [
        (ChessPiece::pawn(ChessColor::White, (1, 2)), Pieces::Pawn),
        (ChessPiece::knight(ChessColor::White, (1, 2)), Pieces::Knight),
        (ChessPiece::bishop(ChessColor::White, (1, 2)), Pieces::Bishop),
        (ChessPiece::rook(ChessColor::White, (1, 2)), Pieces::Rook),
        (ChessPiece::queen(ChessColor::White, (1, 2)), Pieces::Queen),
        (ChessPiece::king(ChessColor::Black, (1, 2)), Pieces::King),
    ];
    for (p, kind) in kinds {
        assert_eq!(p.piece, kind);
        assert_eq!(p.position, (1, 2));
    }
    assert_eq!(ChessPiece::king(ChessColor::Black, (4, 7)).color, ChessColor::Black);
}

#[test]
fn piece_sprite_is_a_twelfth_of_the_board() {
    let s = ChessPiece::piece_sprite((3, 6), 600);
    assert_eq!(
        s,
        SpriteLayout { translation: WorldPoint { x: 1800, y: 3600 }, side_num: 600, side_den: 12 }
    );
}

#[test]
fn tile_sprites_alternate_shade() {
    let a = BoardTile::make_sprite(0, 0, 600);
    assert!(a.dark);
    assert_eq!(a.layout.translation, WorldPoint { x: 0, y: 0 });
    assert_eq!((a.layout.side_num, a.layout.side_den), (600, 8));
    assert!(!BoardTile::make_sprite(1, 0, 600).dark);
    assert!(!BoardTile::make_sprite(0, 7, 600).dark);
    assert!(BoardTile::make_sprite(7, 7, 600).dark);
    assert_eq!(BoardTile::make_sprite(7, 2, 500).layout.translation, WorldPoint { x: 3500, y: 1000 });
    assert_eq!(BoardTile::new(3, 4).position, (3, 4));
}

#[test]
fn square_names() {
    assert_eq!(pos_to_str((0, 0)), "a1");
    assert_eq!(pos_to_str((4, 3)), "e4");
    assert_eq!(pos_to_str((7, 7)), "h8");
    assert_eq!(pos_to_str((8, 0)), "err1");
    assert_eq!(pos_to_str((2, 200)), "cerr");
}

#[test]
fn initial_layout_has_32_pieces_on_distinct_tiles() {
    let board = spawn_new_board(info());
    assert_eq!(board.pieces.len(), 32);
    for (i, a) in board.pieces.iter().enumerate() {
        for b in board.pieces.iter().skip(i + 1) {
            assert_ne!(a.piece.position, b.piece.position);
        }
    }
}

#[test]
fn initial_layout_ranks_and_order() {
    let board = spawn_new_board(info());
    let back = [
        Pieces::Rook,
        Pieces::Knight,
        Pieces::Bishop,
        Pieces::Queen,
        Pieces::King,
        Pieces::Bishop,
        Pieces::Knight,
        Pieces::Rook,
    ];
    for p in board.pieces.iter() {
        let (file, rank) = p.piece.position;
        match p.piece.color {
            ChessColor::White => assert!(rank <= 1),
            ChessColor::Black => assert!(rank >= 6),
        }
        let expected = match rank {
            0 | 7 => back[file as usize],
            _ => Pieces::Pawn,
        };
        assert_eq!(p.piece.piece, expected);
        assert_eq!(p.translation, board.info.board_to_world(p.piece.position));
    }
    for file in 0..8u8 {
        for rank in [0u8, 1, 6, 7] {
            assert!(board.piece_at((file, rank)).is_some());
        }
        for rank in 2..6u8 {
            assert!(board.piece_at((file, rank)).is_none());
        }
    }
    let white_king = board.piece_at((4, 0)).unwrap();
    assert_eq!(board.pieces[white_king].piece, ChessPiece::king(ChessColor::White, (4, 0)));
    let black_queen = board.piece_at((3, 7)).unwrap();
    assert_eq!(board.pieces[black_queen].piece, ChessPiece::queen(ChessColor::Black, (3, 7)));
}

#[test]
fn initial_tiles_cover_the_board_rank_by_rank() {
    let board = spawn_new_board(info());
    assert_eq!(board.tiles.len(), 64);
    for (i, t) in board.tiles.iter().enumerate() {
        assert_eq!(t.position, ((i % 8) as u8, (i / 8) as u8));
    }
}

#[test]
fn sprites_at_extreme_coordinates() {
    let t = BoardTile::make_sprite(255, 255, 65535);
    assert!(t.dark);
    assert_eq!(t.layout.translation, WorldPoint { x: 65535 * 255, y: 65535 * 255 });
    let p = ChessPiece::piece_sprite((255, 0), 65535);
    assert_eq!(p.translation, WorldPoint { x: 65535 * 255, y: 0 });
    let info = BoardInfo { size: 65535, origin_x: i32::MAX, origin_y: i32::MIN };
    assert_eq!(
        info.board_to_world((255, 255)),
        WorldPoint { x: i32::MAX as i64 + 65535 * 255, y: i32::MIN as i64 + 65535 * 255 }
    );
}
