//! The rows the engine reads and writes.

use vstd::prelude::*;

verus! {

/// Who a player is: a 256-bit value, held as its upper and lower halves.
#[derive(Clone, Copy, Debug, PartialEq, Eq, Structural)]
pub struct Identity {
    pub hi: u128,
    pub lo: u128,
}

impl Identity {
    /// The identity that stands for "nobody": the second seat of a session
    /// holds it until an opponent has joined.
    pub open spec fn spec_zero() -> Identity {
        Identity { hi: 0, lo: 0 }
    }

    #[verifier::when_used_as_spec(spec_zero)]
    pub fn zero() -> (id: Identity)
        ensures
            id == Identity::spec_zero(),
    {
        Identity { hi: 0, lo: 0 }
    }

    pub fn is_zero(&self) -> (unset: bool)
        ensures
            unset == (*self == Identity::spec_zero()),
    {
        self.hi == 0 && self.lo == 0
    }
}

/// A point in time, in microseconds since the Unix epoch.
#[derive(Clone, Copy, Debug, PartialEq, Eq, Structural)]
pub struct Timestamp {
    pub micros: i64,
}

/// Where a session stands in its life.
#[derive(Clone, Copy, Debug, PartialEq, Eq, Structural)]
pub enum GameResult {
    Unstarted,
    Ongoing,
    P1Won,
    Tie,
    P2Won,
    Abandoned,
}

impl GameResult {
    /// A terminal result is a sink: the session accepts no move any more.
    pub open spec fn spec_is_terminal(&self) -> bool {
        !(*self is Unstarted) && !(*self is Ongoing)
    }

    #[verifier::when_used_as_spec(spec_is_terminal)]
    pub fn is_terminal(&self) -> (terminal: bool)
        ensures
            terminal == self.spec_is_terminal(),
    {
        match self {
            GameResult::Unstarted => false,
            GameResult::Ongoing => false,
            _ => true,
        }
    }
}

/// One session of the game.
#[derive(Clone, Copy, Debug, PartialEq, Eq)]
pub struct Game {
    pub id: u32,
    pub p1: Identity,
    pub p2: Identity,
    pub when: Timestamp,
    pub result: GameResult,
}

/// One move of a session. Moves are only ever appended.
#[derive(Clone, Copy, Debug, PartialEq, Eq)]
pub struct GameMove {
    pub id: u32,
    pub game_id: u32,
    pub player_id: Identity,
    pub when: Timestamp,
    pub position: u8,
}

/// What the engine keeps about one player, over all their sessions.
#[derive(Clone, Copy, Debug, PartialEq, Eq)]
pub struct PlayerStats {
    pub id: Identity,
    pub starts: u32,
    pub left_early: u32,
    pub wins: u32,
    pub ties: u32,
    pub losses: u32,
    pub created_at: Timestamp,
    pub updated_at: Timestamp,
}

/// One notice to one player about one session.
#[derive(Clone, Debug, PartialEq, Eq)]
pub struct Feedback {
    pub id: u32,
    pub game_id: u32,
    pub player_id: Identity,
    pub when: Timestamp,
    pub message: String,
}

/// A pending removal of a session: when `scheduled_at` has come, the session
/// `game_id` and all that belongs to it is deleted.
#[derive(Clone, Copy, Debug, PartialEq, Eq)]
pub struct DeleteGameTimer {
    pub scheduled_id: u64,
    pub scheduled_at: Timestamp,
    pub game_id: u32,
}

} // verus!
