//! What the engine tells the players.

use vstd::prelude::*;

use crate::types::{Feedback, Identity, Timestamp};

verus! {

/// The notices the engine sends.
#[derive(Clone, Copy, Debug, PartialEq, Eq, Structural)]
pub enum Message {
    /// The session played on does not exist.
    GameNotFound,
    /// The session played on has ended.
    GameOver,
    /// It is the other seat's turn.
    NotYourTurn,
    /// No cell of the board is left.
    BoardFull,
    /// The cell played is taken.
    CellTaken,
    /// The first seat has moved.
    ValidMoveX,
    /// The second seat has moved.
    ValidMoveO,
    YouWon,
    YouLost,
    Tie,
    /// To the first seat, when an opponent has joined.
    StartFirst,
    /// To the second seat, when it has joined.
    StartSecond,
    /// To the first seat, when its session has been opened.
    Waiting,
    OtherPlayerLeft,
}

impl Message {
    /// The text of the notice.
    pub open spec fn wording(&self) -> Seq<char> {
        match *self {
            Message::GameNotFound => "Game not found! Must have ended?"@,
            Message::GameOver => "The game has ended!"@,
            Message::NotYourTurn => "not your turn!"@,
            Message::BoardFull => "trying to play on a full board!"@,
            Message::CellTaken => "trying to play on a non-empty cell!"@,
            Message::ValidMoveX => "Valid move from X!"@,
            Message::ValidMoveO => "Valid move from O!"@,
            Message::YouWon => "you won!"@,
            Message::YouLost => "you lost!"@,
            Message::Tie => "the game is a tie."@,
            Message::StartFirst => "Game starting! You play first with the Xs."@,
            Message::StartSecond => "Game starting! Opponent plays first. You play the Os."@,
            Message::Waiting => "Waiting for an opponent to join..."@,
            Message::OtherPlayerLeft => "other player left"@,
        }
    }

    /// The text of the notice, as a string to send.
    pub fn text(&self) -> (text: String)
        ensures
            text@ == self.wording(),
    {
        match *self {
            Message::GameNotFound => "Game not found! Must have ended?".to_string(),
            Message::GameOver => "The game has ended!".to_string(),
            Message::NotYourTurn => "not your turn!".to_string(),
            Message::BoardFull => "trying to play on a full board!".to_string(),
            Message::CellTaken => "trying to play on a non-empty cell!".to_string(),
            Message::ValidMoveX => "Valid move from X!".to_string(),
            Message::ValidMoveO => "Valid move from O!".to_string(),
            Message::YouWon => "you won!".to_string(),
            Message::YouLost => "you lost!".to_string(),
            Message::Tie => "the game is a tie.".to_string(),
            Message::StartFirst => "Game starting! You play first with the Xs.".to_string(),
            Message::StartSecond => "Game starting! Opponent plays first. You play the Os.".to_string(),
            Message::Waiting => "Waiting for an opponent to join...".to_string(),
            Message::OtherPlayerLeft => "other player left".to_string(),
        }
    }
}

/// No two notices read the same.
pub proof fn lemma_wordings_differ(a: Message, b: Message)
    requires
        a != b,
    ensures
        a.wording() != b.wording(),
{
    reveal_strlit("Game not found! Must have ended?");
    reveal_strlit("The game has ended!");
    reveal_strlit("not your turn!");
    reveal_strlit("trying to play on a full board!");
    reveal_strlit("trying to play on a non-empty cell!");
    reveal_strlit("Valid move from X!");
    reveal_strlit("Valid move from O!");
    reveal_strlit("you won!");
    reveal_strlit("you lost!");
    reveal_strlit("the game is a tie.");
    reveal_strlit("Game starting! You play first with the Xs.");
    reveal_strlit("Game starting! Opponent plays first. You play the Os.");
    reveal_strlit("Waiting for an opponent to join...");
    reveal_strlit("other player left");
    if a.wording().len() == b.wording().len() {
        // Three notices are as long as one another: they differ in a letter.
        assert(Message::ValidMoveX.wording()[16] == 'X');
        assert(Message::ValidMoveO.wording()[16] == 'O');
        assert(Message::ValidMoveX.wording()[0] == 'V');
        assert(Message::ValidMoveO.wording()[0] == 'V');
        assert(Message::Tie.wording()[0] == 't');
    }
}

/// Makes the row that tells `player_id` `msg` about the session `game_id`.
/// The store numbers the row when it takes it in.
pub fn give_feedback(game_id: u32, player_id: Identity, now: Timestamp, msg: String) -> (row: Feedback)
    ensures
        row.id == 0,
        row.game_id == game_id,
        row.player_id == player_id,
        row.when == now,
        row.message == msg,
{
    Feedback { id: 0, game_id, player_id, when: now, message: msg }
}

} // verus!
