//! Session engine of a two-player game on a grid of three by three cells.
//!
//! The engine keeps no board: a session's board is always rebuilt from the
//! ordered log of its moves. Every operation is a function from the rows it
//! was handed to the actions the caller has to carry out on the store.

pub mod action;
pub mod board;
pub mod cleanup;
pub mod laws;
pub mod matchmaker;
pub mod message;
pub mod stats;
pub mod turn;
pub mod types;

pub use board::{filled_cells, get_board, has_won, is_full, BoardError};
pub use action::Action;
pub use cleanup::{delete_game, schedule_delete_game, TimeOverflow};
pub use matchmaker::{game_created, identity_connected, identity_disconnected};
pub use message::{give_feedback, Message};
pub use stats::{new_stats, update_stats};
pub use turn::{play, Played, Session, Verdict};
pub use types::{
    DeleteGameTimer, Feedback, Game, GameMove, GameResult, Identity, PlayerStats, Timestamp,
};
