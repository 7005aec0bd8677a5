//! The interaction model of a two-dimensional chessboard: board geometry,
//! the set of pieces on it, the selection state machine driven by clicks,
//! and the bookkeeping that moves a piece from one tile to another.
//!
//! World positions are integers counted in eighths of a world unit, which
//! keeps every tile corner of a board with an integer side length exact.

pub mod board;
pub mod geometry;
pub mod registry;
pub mod selection;

pub use board::{pos_to_str, BoardTile, ChessColor, ChessPiece, Pieces, SpriteLayout, TileSprite};
pub use geometry::{BoardInfo, WorldPoint};
pub use registry::{spawn_new_board, Board, PlacedPiece};
pub use selection::{
    click_tile, move_piece, move_piece_writer, set_selected_piece, MovePieceEvent, SelectedPiece,
    Session, TileClickedEvent,
};
