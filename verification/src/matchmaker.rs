//! The matchmaker: players arrive and are paired, players leave and their
//! session is abandoned.

use vstd::prelude::*;

use crate::action::{credit, tell, Action};
use crate::message::Message;
use crate::stats::{fresh_stats, new_stats};
use crate::types::{Game, GameResult, Identity, PlayerStats, Timestamp};

verus! {

/// Whether `i` is the index of the first of `games` of which `pred` holds.
pub open spec fn is_first_index(games: Seq<Game>, pred: spec_fn(Game) -> bool, i: int) -> bool {
    &&& 0 <= i < games.len()
    &&& pred(games[i])
    &&& forall|j: int| 0 <= j < i ==> !pred(#[trigger] games[j])
}

/// The index of the first of `games` of which `pred` holds, if there is one.
pub open spec fn first_index(games: Seq<Game>, pred: spec_fn(Game) -> bool) -> Option<int> {
    if exists|i: int| is_first_index(games, pred, i) {
        Some(choose|i: int| is_first_index(games, pred, i))
    } else {
        None
    }
}

/// There is one first index at most.
pub proof fn lemma_first_index_is(games: Seq<Game>, pred: spec_fn(Game) -> bool, i: int)
    requires
        is_first_index(games, pred, i),
    ensures
        first_index(games, pred) == Some(i),
{
    let k = choose|k: int| is_first_index(games, pred, k);
    assert(is_first_index(games, pred, k));
    if k < i {
        assert(!pred(games[k]));
    }
    if i < k {
        assert(!pred(games[i]));
    }
}

/// Where `pred` holds of none, there is no first index.
pub proof fn lemma_first_index_none(games: Seq<Game>, pred: spec_fn(Game) -> bool)
    requires
        forall|j: int| 0 <= j < games.len() ==> !pred(#[trigger] games[j]),
    ensures
        first_index(games, pred) is None,
{
}

/// A session that waits for an opponent.
pub open spec fn is_waiting() -> spec_fn(Game) -> bool {
    |g: Game| g.result is Unstarted
}

/// A session that has not ended and has `player` in its first seat
/// (`first_seat`) or in its second.
pub open spec fn is_seat_of(player: Identity, first_seat: bool) -> spec_fn(Game) -> bool {
    |g: Game|
        !g.result.is_terminal() && if first_seat {
            g.p1 == player
        } else {
            g.p2 == player
        }
}

/// The session that a new player opens: the player sits in the first seat,
/// the second is empty, and the store gives the id.
pub open spec fn opened(player: Identity, now: Timestamp) -> Game {
    Game { id: 0, p1: player, p2: Identity::zero(), when: now, result: GameResult::Unstarted }
}

/// The session `g` once `player` has taken its second seat.
pub open spec fn joined(g: Game, player: Identity) -> Game {
    Game { p2: player, result: GameResult::Ongoing, ..g }
}

/// The session `g` once a player has left it.
pub open spec fn abandoned(g: Game) -> Game {
    Game { result: GameResult::Abandoned, ..g }
}

/// The session that a leaving `player` leaves: the first that has not
/// ended and has the player in its first seat; if there is none, the first
/// that has not ended and has the player in its second seat.
pub open spec fn session_of(games: Seq<Game>, player: Identity) -> Option<int> {
    match first_index(games, is_seat_of(player, true)) {
        Some(i) => Some(i),
        None => first_index(games, is_seat_of(player, false)),
    }
}

/// What the arrival of `sender` asks of the store.
///
/// A player who is `known` has one more start counted; one who is not gets
/// a row with every counter at zero. Then the player takes the second seat
/// of the first of `games` that waits, which starts that session, and both
/// seats are told; or, if none waits, opens a session.
pub open spec fn actions_of_arrival(
    known: bool,
    games: Seq<Game>,
    sender: Identity,
    now: Timestamp,
) -> Seq<Action> {
    let counted = if known {
        credit(sender, 1, 0, 0, 0, 0)
    } else {
        Action::InsertStats(fresh_stats(sender, now))
    };
    match first_index(games, is_waiting()) {
        Some(i) => {
            let g = joined(games[i], sender);
            seq![
                counted,
                Action::UpdateGame(g),
                tell(g.id, g.p1, Message::StartFirst),
                tell(g.id, g.p2, Message::StartSecond),
            ]
        },
        None => seq![counted, Action::InsertGame(opened(sender, now))],
    }
}

/// What the departure of `sender` asks of the store: nothing, if the
/// player sits in no session that has not ended. Else that session is
/// abandoned, the other seat is told, the departure is counted and the
/// session's removal is armed.
pub open spec fn actions_of_departure(games: Seq<Game>, sender: Identity) -> Seq<Action> {
    match session_of(games, sender) {
        None => Seq::empty(),
        Some(i) => {
            let g = games[i];
            let other = if g.p1 == sender {
                g.p2
            } else {
                g.p1
            };
            seq![
                Action::UpdateGame(abandoned(g)),
                tell(g.id, other, Message::OtherPlayerLeft),
                credit(sender, 0, 1, 0, 0, 0),
                Action::ScheduleDelete { game_id: g.id },
            ]
        },
    }
}

/// Finds the first session that waits for an opponent.
fn find_waiting(games: &Vec<Game>) -> (found: Option<usize>)
    ensures
        match found {
            Some(i) => first_index(games@, is_waiting()) == Some(i as int),
            None => first_index(games@, is_waiting()) is None,
        },
{
    let mut i: usize = 0;
    while i < games.len()
        invariant
            i <= games.len(),
            forall|j: int| 0 <= j < i ==> !is_waiting()(#[trigger] games@[j]),
        decreases games.len() - i,
    {
        if let GameResult::Unstarted = games[i].result {
            proof {
                lemma_first_index_is(games@, is_waiting(), i as int);
            }
            return Some(i);
        }
        i += 1;
    }
    proof {
        lemma_first_index_none(games@, is_waiting());
    }
    None
}

/// Finds the first session that has not ended and has `player` in the
/// given seat.
fn find_seat(games: &Vec<Game>, player: Identity, first_seat: bool) -> (found: Option<usize>)
    ensures
        match found {
            Some(i) => first_index(games@, is_seat_of(player, first_seat)) == Some(i as int),
            None => first_index(games@, is_seat_of(player, first_seat)) is None,
        },
{
    let mut i: usize = 0;
    while i < games.len()
        invariant
            i <= games.len(),
            forall|j: int| 0 <= j < i ==> !is_seat_of(player, first_seat)(#[trigger] games@[j]),
        decreases games.len() - i,
    {
        let g = games[i];
        let seated = if first_seat { g.p1 == player } else { g.p2 == player };
        if seated && !g.result.is_terminal() {
            proof {
                lemma_first_index_is(games@, is_seat_of(player, first_seat), i as int);
            }
            return Some(i);
        }
        i += 1;
    }
    proof {
        lemma_first_index_none(games@, is_seat_of(player, first_seat));
    }
    None
}

/// A player has connected. `stats` is the row that the store holds for the
/// player, if any; `games` are the sessions among which one that waits is
/// looked for, in the store's order.
pub fn identity_connected(
    stats: Option<PlayerStats>,
    games: &Vec<Game>,
    sender: Identity,
    now: Timestamp,
) -> (actions: Vec<Action>)
    ensures
        actions@ == actions_of_arrival(stats is Some, games@, sender, now),
{
    let mut actions: Vec<Action> = Vec::new();
    if stats.is_some() {
        actions.push(
            Action::AdjustStats { player_id: sender, starts: 1, left_early: 0, wins: 0, ties: 0, losses: 0 },
        );
    } else {
        actions.push(Action::InsertStats(new_stats(sender, now)));
    }

    if let Some(i) = find_waiting(games) {
        let mut g = games[i];
        g.p2 = sender;
        g.result = GameResult::Ongoing;
        actions.push(Action::UpdateGame(g));
        actions.push(Action::GiveFeedback { game_id: g.id, player_id: g.p1, message: Message::StartFirst });
        actions.push(Action::GiveFeedback { game_id: g.id, player_id: g.p2, message: Message::StartSecond });
    } else {
        let g = Game { id: 0, p1: sender, p2: Identity::zero(), when: now, result: GameResult::Unstarted };
        actions.push(Action::InsertGame(g));
    }
    assert(actions@ =~= actions_of_arrival(stats is Some, games@, sender, now));
    actions
}

/// The store has taken in a session that `identity_connected` opened, and
/// has given it its id: the player who waits in it is told so.
pub fn game_created(game: &Game) -> (actions: Vec<Action>)
    ensures
        actions@ == seq![tell(game.id, game.p1, Message::Waiting)],
{
    let mut actions: Vec<Action> = Vec::new();
    actions.push(Action::GiveFeedback { game_id: game.id, player_id: game.p1, message: Message::Waiting });
    actions
}

/// A player has disconnected. `games` are the sessions among which the
/// player's is looked for, in the store's order.
pub fn identity_disconnected(games: &Vec<Game>, sender: Identity) -> (actions: Vec<Action>)
    ensures
        actions@ == actions_of_departure(games@, sender),
{
    let mut actions: Vec<Action> = Vec::new();
    let found = match find_seat(games, sender, true) {
        Some(i) => Some(i),
        None => find_seat(games, sender, false),
    };
    if let Some(i) = found {
        let mut g = games[i];
        let other = if g.p1 == sender { g.p2 } else { g.p1 };
        g.result = GameResult::Abandoned;
        actions.push(Action::UpdateGame(g));
        actions.push(Action::GiveFeedback { game_id: g.id, player_id: other, message: Message::OtherPlayerLeft });
        actions.push(
            Action::AdjustStats { player_id: sender, starts: 0, left_early: 1, wins: 0, ties: 0, losses: 0 },
        );
        actions.push(Action::ScheduleDelete { game_id: g.id });
    }
    assert(actions@ =~= actions_of_departure(games@, sender));
    actions
}

} // verus!
