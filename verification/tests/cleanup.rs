use tictactoe::{
    delete_game, schedule_delete_game, Action, DeleteGameTimer, Feedback, GameMove, Identity,
    TimeOverflow, Timestamp,
};

const P1: Identity = Identity { hi: 0, lo: 1 };
const P2: Identity = Identity { hi: 0, lo: 2 };

fn at(micros: i64) -> Timestamp {
    Timestamp { micros }
}

fn timer(game_id: u32) -> DeleteGameTimer {
    DeleteGameTimer { scheduled_id: 3, scheduled_at: at(1_250_000), game_id }
}

fn mv(id: u32, game_id: u32) -> GameMove {
    GameMove { id, game_id, player_id: P1, when: at(id as i64), position: (id % 9) as u8 }
}

fn notice(id: u32, game_id: u32) -> Feedback {
    Feedback { id, game_id, player_id: P2, when: at(id as i64), message: format!("notice {}", id) }
}

/// A store of sessions, moves and notices that carries out removals.
struct Store {
    games: Vec<u32>,
    moves: Vec<GameMove>,
    feedback: Vec<Feedback>,
}

impl Store {
    fn carry_out(&mut self, actions: &[Action]) {
        for action in actions {
            match action {
                Action::DeleteGame { game_id } => self.games.retain(|g| g != game_id),
                Action::DeleteMove { id } => self.moves.retain(|m| m.id != *id),
                Action::DeleteFeedback { id } => self.feedback.retain(|f| f.id != *id),
                other => panic!("not a removal: {:?}", other),
            }
        }
    }
}

#[test]
fn timer_fires_a_quarter_second_later() {
    let armed = schedule_delete_game(&vec![], at(1_000_000), 7);
    assert_eq!(
        armed,
        Ok(Some(DeleteGameTimer { scheduled_id: 0, scheduled_at: at(1_250_000), game_id: 7 }))
    );
}

#[test]
fn a_timer_can_be_armed_before_the_epoch() {
    let armed = schedule_delete_game(&vec![], at(-1_000_000), 7);
    assert_eq!(
        armed,
        Ok(Some(DeleteGameTimer { scheduled_id: 0, scheduled_at: at(-750_000), game_id: 7 }))
    );
}

#[test]
fn no_timer_beyond_the_end_of_time() {
    assert_eq!(schedule_delete_game(&vec![], at(i64::MAX - 249_999), 7), Err(TimeOverflow));
    assert_eq!(schedule_delete_game(&vec![], at(i64::MAX), 7), Err(TimeOverflow));
    assert_eq!(schedule_delete_game(&vec![timer(7)], at(i64::MAX), 7), Err(TimeOverflow));
    assert_eq!(
        schedule_delete_game(&vec![], at(i64::MAX - 250_000), 7),
        Ok(Some(DeleteGameTimer { scheduled_id: 0, scheduled_at: at(i64::MAX), game_id: 7 }))
    );
}

#[test]
fn a_session_has_one_pending_removal_at_most() {
    let mut pending = vec![timer(1), timer(2)];
    let armed = schedule_delete_game(&pending, at(0), 7).unwrap();
    assert_eq!(armed, Some(DeleteGameTimer { scheduled_id: 0, scheduled_at: at(250_000), game_id: 7 }));
    pending.push(armed.unwrap());
    assert_eq!(schedule_delete_game(&pending, at(10), 7), Ok(None));
    assert_eq!(schedule_delete_game(&pending, at(10), 1), Ok(None));
    assert_eq!(schedule_delete_game(&pending, at(10), 2), Ok(None));
    assert!(schedule_delete_game(&pending, at(10), 3).unwrap().is_some());
}

#[test]
fn a_session_goes_with_its_moves_and_notices() {
    let moves = vec![mv(1, 7), mv(2, 7), mv(3, 7)];
    let feedback = vec![notice(10, 7), notice(11, 7)];
    assert_eq!(
        delete_game(&timer(7), &moves, &feedback),
        vec![
            Action::DeleteGame { game_id: 7 },
            Action::DeleteMove { id: 1 },
            Action::DeleteMove { id: 2 },
            Action::DeleteMove { id: 3 },
            Action::DeleteFeedback { id: 10 },
            Action::DeleteFeedback { id: 11 },
        ]
    );
}

#[test]
fn rows_of_other_sessions_stay() {
    let moves = vec![mv(1, 7), mv(2, 8), mv(3, 7), mv(4, 9)];
    let feedback = vec![notice(10, 8), notice(11, 7), notice(12, 8)];
    assert_eq!(
        delete_game(&timer(7), &moves, &feedback),
        vec![
            Action::DeleteGame { game_id: 7 },
            Action::DeleteMove { id: 1 },
            Action::DeleteMove { id: 3 },
            Action::DeleteFeedback { id: 11 },
        ]
    );
}

#[test]
fn a_session_without_rows_goes_alone() {
    assert_eq!(delete_game(&timer(7), &vec![], &vec![]), vec![Action::DeleteGame { game_id: 7 }]);
}

#[test]
fn removing_twice_is_removing_once() {
    let mut store = Store {
        games: vec![6, 7, 8],
        moves: vec![mv(1, 7), mv(2, 8), mv(3, 7)],
        feedback: vec![notice(10, 7), notice(11, 8)],
    };
    let first = delete_game(&timer(7), &store.moves, &store.feedback);
    store.carry_out(&first);
    assert_eq!(store.games, vec![6, 8]);
    assert_eq!(store.moves, vec![mv(2, 8)]);
    assert_eq!(store.feedback, vec![notice(11, 8)]);

    let second = delete_game(&timer(7), &store.moves, &store.feedback);
    assert_eq!(second, vec![Action::DeleteGame { game_id: 7 }]);
    store.carry_out(&second);
    assert_eq!(store.games, vec![6, 8]);
    assert_eq!(store.moves, vec![mv(2, 8)]);
    assert_eq!(store.feedback, vec![notice(11, 8)]);
}

#[test]
fn removing_a_session_that_never_was_changes_nothing() {
    let mut store = Store { games: vec![6], moves: vec![mv(1, 6)], feedback: vec![notice(10, 6)] };
    let actions = delete_game(&timer(41), &store.moves, &store.feedback);
    store.carry_out(&actions);
    assert_eq!(store.games, vec![6]);
    assert_eq!(store.moves, vec![mv(1, 6)]);
    assert_eq!(store.feedback, vec![notice(10, 6)]);
}
