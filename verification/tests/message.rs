use tictactoe::{give_feedback, Feedback, Identity, Message, Timestamp};

const ALL: [Message; 14] = [
    Message::GameNotFound,
    Message::GameOver,
    Message::NotYourTurn,
    Message::BoardFull,
    Message::CellTaken,
    Message::ValidMoveX,
    Message::ValidMoveO,
    Message::YouWon,
    Message::YouLost,
    Message::Tie,
    Message::StartFirst,
    Message::StartSecond,
    Message::Waiting,
    Message::OtherPlayerLeft,
];

#[test]
fn each_notice_has_its_text() {
    assert_eq!(Message::GameNotFound.text(), "Game not found! Must have ended?");
    assert_eq!(Message::GameOver.text(), "The game has ended!");
    assert_eq!(Message::NotYourTurn.text(), "not your turn!");
    assert_eq!(Message::BoardFull.text(), "trying to play on a full board!");
    assert_eq!(Message::CellTaken.text(), "trying to play on a non-empty cell!");
    assert_eq!(Message::ValidMoveX.text(), "Valid move from X!");
    assert_eq!(Message::ValidMoveO.text(), "Valid move from O!");
    assert_eq!(Message::YouWon.text(), "you won!");
    assert_eq!(Message::YouLost.text(), "you lost!");
    assert_eq!(Message::Tie.text(), "the game is a tie.");
    assert_eq!(Message::StartFirst.text(), "Game starting! You play first with the Xs.");
    assert_eq!(
        Message::StartSecond.text(),
        "Game starting! Opponent plays first. You play the Os."
    );
    assert_eq!(Message::Waiting.text(), "Waiting for an opponent to join...");
    assert_eq!(Message::OtherPlayerLeft.text(), "other player left");
}

#[test]
fn no_two_notices_read_the_same() {
    for (i, a) in ALL.iter().enumerate() {
        for (j, b) in ALL.iter().enumerate() {
            assert_eq!(a.text() == b.text(), i == j);
        }
    }
}

#[test]
fn a_notice_becomes_a_row() {
    let player = Identity { hi: 5, lo: 6 };
    let row = give_feedback(7, player, Timestamp { micros: 99 }, Message::YouWon.text());
    assert_eq!(
        row,
        Feedback {
            id: 0,
            game_id: 7,
            player_id: player,
            when: Timestamp { micros: 99 },
            message: "you won!".to_string(),
        }
    );
}

#[test]
fn any_text_can_be_sent() {
    let row = give_feedback(1, Identity::zero(), Timestamp { micros: -1 }, String::new());
    assert_eq!(row.message, "");
    assert_eq!(row.game_id, 1);
    assert_eq!(row.id, 0);
}
