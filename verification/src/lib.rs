//! Core engine for an online Hive server: the hex-grid board model
//! (adjacency, stacking, placement legality), per-player piece supply,
//! the game-record protocol state machine (moves, draw/takeback/resign
//! control signals, one-outstanding-offer discipline), and the textual
//! encodings under which game history is persisted.

mod board;
mod bug;
mod challenge;
mod codec;
mod color;
mod game;
mod game_control;
mod game_error;
mod game_status;
mod game_type;
mod piece;
mod player;
mod position;
mod server_error;
mod text;

pub use board::Board;
pub use bug::Bug;
pub use challenge::{NewGameRequest, NewGameResponse};
pub use color::Color;
pub use codec::{decode_control_history, decode_history, encode_control_history, encode_history};
pub use game::{Game, NewGame};
pub use game_control::{ControlEntry, GameControl};
pub use game_error::GameError;
pub use game_status::{GameResult, GameStatus};
pub use game_type::GameType;
pub use piece::Piece;
pub use player::Player;
pub use position::Position;
pub use server_error::{AuthenticationError, DatabaseError, ErrorResponse, ServerError};
