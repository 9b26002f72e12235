//! What the engine asks of the store.

use vstd::prelude::*;

use crate::message::Message;
use crate::types::{Game, GameMove, Identity, PlayerStats};

verus! {

/// One thing for the caller to do to the store. Every operation of the
/// engine answers with a list of these, to be carried out in order.
#[derive(Clone, Copy, Debug, PartialEq, Eq)]
pub enum Action {
    /// Tell `player_id` `message` about the session `game_id`.
    GiveFeedback { game_id: u32, player_id: Identity, message: Message },
    /// Add a session. The store gives it its id.
    InsertGame(Game),
    /// Replace the session that has this row's id.
    UpdateGame(Game),
    /// Append a move. The store gives it its id.
    InsertMove(GameMove),
    /// Add the row of a player who has none.
    InsertStats(PlayerStats),
    /// Add to the counters of `player_id`, if that player has a row.
    AdjustStats {
        player_id: Identity,
        starts: u32,
        left_early: u32,
        wins: u32,
        ties: u32,
        losses: u32,
    },
    /// Arm the removal of the session `game_id`, unless one is pending.
    ScheduleDelete { game_id: u32 },
    /// Remove the session `game_id`, if it is there.
    DeleteGame { game_id: u32 },
    /// Remove the move `id`.
    DeleteMove { id: u32 },
    /// Remove the notice `id`.
    DeleteFeedback { id: u32 },
}

/// The action that tells `player_id` `message` about the session `game_id`.
pub open spec fn tell(game_id: u32, player_id: Identity, message: Message) -> Action {
    Action::GiveFeedback { game_id, player_id, message }
}

/// The action that adds the given amounts to the counters of `player_id`.
pub open spec fn credit(
    player_id: Identity,
    starts: u32,
    left_early: u32,
    wins: u32,
    ties: u32,
    losses: u32,
) -> Action {
    Action::AdjustStats { player_id, starts, left_early, wins, ties, losses }
}

} // verus!
