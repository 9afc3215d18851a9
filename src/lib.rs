pub mod laws;
pub mod logic;
pub mod structures;

pub use logic::{generate_legal_moves, make_move, validate_move, Logic};
pub use structures::{BaseBoard, Board, CastlingRights, ChessError, File, Move, Piece, PieceKind, Position, Side};
