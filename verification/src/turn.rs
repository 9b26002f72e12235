//! The turn engine: what a move does to a session.

use vstd::prelude::*;

use crate::action::{credit, tell, Action};
use crate::board::{
    board_of, filled_cells, filled_count, get_board, has_won, legal_log, lemma_board_of_valid,
    mark_of_turn, no_line, positions, valid_log, wins, EMPTY, MARK_ONE, MARK_TWO,
};
use crate::message::Message;
use crate::types::{Game, GameMove, GameResult, Identity, Timestamp};

verus! {

/// A session as the store holds it: its row, and its moves in the order in
/// which they were made.
#[derive(Clone, Debug, PartialEq, Eq)]
pub struct Session {
    pub game: Game,
    pub moves: Vec<GameMove>,
}

/// A session as the contracts see it.
pub struct SessionView {
    pub game: Game,
    pub moves: Seq<GameMove>,
}

impl View for Session {
    type V = SessionView;

    open spec fn view(&self) -> SessionView {
        SessionView { game: self.game, moves: self.moves@ }
    }
}

impl SessionView {
    /// The cells played, in order.
    pub open spec fn log(self) -> Seq<u8> {
        positions(self.moves)
    }

    /// The board, rebuilt from the moves.
    pub open spec fn board(self) -> Seq<u8> {
        board_of(self.log())
    }

    /// Whether the board can be rebuilt: no move is off the board or on a
    /// cell that an earlier move took.
    pub open spec fn replayable(self) -> bool {
        valid_log(self.log())
    }

    /// The number of the next move: as many as there are cells taken.
    pub open spec fn turn(self) -> int {
        filled_count(self.board()) as int
    }

    /// Who moves next: the first seat when an even number of cells is
    /// taken, else the second.
    pub open spec fn to_move(self) -> Identity {
        if self.turn() % 2 == 0 {
            self.game.p1
        } else {
            self.game.p2
        }
    }

    /// Who waits for the next move.
    pub open spec fn not_to_move(self) -> Identity {
        if self.turn() % 2 == 0 {
            self.game.p2
        } else {
            self.game.p1
        }
    }

    /// The mark that the next move puts down.
    pub open spec fn mark_to_move(self) -> u8 {
        mark_of_turn(self.turn())
    }

    /// Whether every move is recorded under the player whose turn it was:
    /// the moves of even number (counting from 0) under the first seat,
    /// those of odd number under the second.
    pub open spec fn in_turn(self) -> bool {
        forall|i: int|
            0 <= i < self.moves.len() ==> (#[trigger] self.moves[i]).player_id == if i % 2 == 0 {
                self.game.p1
            } else {
                self.game.p2
            }
    }

    /// What holds of every session that the engine has opened and played:
    /// its moves can have been made one after the other under the rules,
    /// and its result says how its board stands. A session that has not
    /// ended, or was abandoned, has no line and an empty cell; one that was
    /// won has a line of the winner's mark; one that was tied has a full
    /// board with no line.
    pub open spec fn sound(self) -> bool {
        &&& legal_log(self.log())
        &&& match self.game.result {
            GameResult::P1Won => wins(self.board(), MARK_ONE),
            GameResult::P2Won => wins(self.board(), MARK_TWO),
            GameResult::Tie => no_line(self.board()) && filled_count(self.board()) == 9,
            _ => no_line(self.board()) && filled_count(self.board()) < 9,
        }
    }
}

/// The view of a session that may be missing.
pub open spec fn view_of(found: Option<Session>) -> Option<SessionView> {
    match found {
        Some(s) => Some(s@),
        None => None,
    }
}

/// How a call of `play` ended.
#[derive(Clone, Copy, Debug, PartialEq, Eq, Structural)]
pub enum Verdict {
    /// Refused: there is no such session.
    GameNotFound,
    /// Refused: the session has ended.
    GameOver,
    /// Refused: it is not the caller's turn.
    NotYourTurn,
    /// Refused: no cell is left.
    BoardFull,
    /// Refused: the cell is taken.
    CellTaken,
    /// Accepted, and the session goes on.
    Moved,
    /// Accepted, and the caller has a line.
    Won,
    /// Accepted, and the board is full with no line for the caller.
    Tied,
}

impl Verdict {
    /// Whether the move was made.
    pub open spec fn spec_is_accepted(&self) -> bool {
        *self is Moved || *self is Won || *self is Tied
    }

    #[verifier::when_used_as_spec(spec_is_accepted)]
    pub fn is_accepted(&self) -> (accepted: bool)
        ensures
            accepted == self.spec_is_accepted(),
    {
        match self {
            Verdict::Moved => true,
            Verdict::Won => true,
            Verdict::Tied => true,
            _ => false,
        }
    }

    /// The notice that tells the caller why the move was refused; none for
    /// a move that was made.
    pub open spec fn spec_refusal(&self) -> Option<Message> {
        match *self {
            Verdict::GameNotFound => Some(Message::GameNotFound),
            Verdict::GameOver => Some(Message::GameOver),
            Verdict::NotYourTurn => Some(Message::NotYourTurn),
            Verdict::BoardFull => Some(Message::BoardFull),
            Verdict::CellTaken => Some(Message::CellTaken),
            _ => None,
        }
    }

    #[verifier::when_used_as_spec(spec_refusal)]
    pub fn refusal(&self) -> (notice: Option<Message>)
        ensures
            notice == self.spec_refusal(),
    {
        match *self {
            Verdict::GameNotFound => Some(Message::GameNotFound),
            Verdict::GameOver => Some(Message::GameOver),
            Verdict::NotYourTurn => Some(Message::NotYourTurn),
            Verdict::BoardFull => Some(Message::BoardFull),
            Verdict::CellTaken => Some(Message::CellTaken),
            _ => None,
        }
    }
}

/// The row of a move that `sender` makes at `now` on `position` in the
/// session `game_id`. The store numbers it.
pub open spec fn move_row(sender: Identity, now: Timestamp, game_id: u32, position: u8) -> GameMove {
    GameMove { id: 0, game_id, player_id: sender, when: now, position }
}

/// How a move of `sender` on `position` ends.
///
/// The checks come in this order: the session exists; it has not ended; it
/// is the caller's turn; a cell is left; the cell is empty. A move that
/// passes them is made. It wins if the mover then has a line, and only if
/// not, and the board is full, it ties.
pub open spec fn verdict_of(found: Option<SessionView>, sender: Identity, position: u8) -> Verdict {
    match found {
        None => Verdict::GameNotFound,
        Some(s) => if s.game.result.is_terminal() {
            Verdict::GameOver
        } else if sender != s.to_move() {
            Verdict::NotYourTurn
        } else if filled_count(s.board()) == 9 {
            Verdict::BoardFull
        } else if s.board()[position as int] != EMPTY {
            Verdict::CellTaken
        } else {
            let after = board_of(s.log().push(position));
            if wins(after, s.mark_to_move()) {
                Verdict::Won
            } else if filled_count(after) == 9 {
                Verdict::Tied
            } else {
                Verdict::Moved
            }
        },
    }
}

/// The result of a session after a move that ended with `verdict`.
pub open spec fn result_after(s: SessionView, verdict: Verdict) -> GameResult {
    match verdict {
        Verdict::Won => if s.mark_to_move() == MARK_ONE {
            GameResult::P1Won
        } else {
            GameResult::P2Won
        },
        Verdict::Tied => GameResult::Tie,
        _ => s.game.result,
    }
}

/// The session after a move of `sender` on `position`: a refused move
/// leaves it as it was; an accepted one is appended to its moves, and a
/// winning or tying one sets its result.
pub open spec fn session_after(
    found: Option<SessionView>,
    sender: Identity,
    now: Timestamp,
    game_id: u32,
    position: u8,
) -> Option<SessionView> {
    match found {
        None => None,
        Some(s) => {
            let verdict = verdict_of(found, sender, position);
            if verdict.is_accepted() {
                Some(
                    SessionView {
                        game: Game { result: result_after(s, verdict), ..s.game },
                        moves: s.moves.push(move_row(sender, now, game_id, position)),
                    },
                )
            } else {
                Some(s)
            }
        },
    }
}

/// What an accepted move asks of the store first: both seats are told of
/// it, the first seat first, and the move is appended.
pub open spec fn actions_of_move(
    s: SessionView,
    sender: Identity,
    now: Timestamp,
    game_id: u32,
    position: u8,
) -> Seq<Action> {
    let notice = if s.mark_to_move() == MARK_ONE {
        Message::ValidMoveX
    } else {
        Message::ValidMoveO
    };
    seq![
        tell(game_id, s.game.p1, notice),
        tell(game_id, s.game.p2, notice),
        Action::InsertMove(move_row(sender, now, game_id, position)),
    ]
}

/// What a move that ends the session asks of the store after it was made:
/// the counters of both players, a notice to each, the session's new
/// result, and its removal.
pub open spec fn actions_of_ending(
    s: SessionView,
    sender: Identity,
    game_id: u32,
    verdict: Verdict,
) -> Seq<Action> {
    let ended = Game { result: result_after(s, verdict), ..s.game };
    if verdict is Won {
        seq![
            credit(sender, 0, 0, 1, 0, 0),
            credit(s.not_to_move(), 0, 0, 0, 0, 1),
            tell(game_id, sender, Message::YouWon),
            tell(game_id, s.not_to_move(), Message::YouLost),
            Action::UpdateGame(ended),
            Action::ScheduleDelete { game_id: s.game.id },
        ]
    } else {
        seq![
            credit(s.game.p1, 0, 0, 0, 1, 0),
            credit(s.game.p2, 0, 0, 0, 1, 0),
            tell(game_id, s.game.p1, Message::Tie),
            tell(game_id, s.game.p2, Message::Tie),
            Action::UpdateGame(ended),
            Action::ScheduleDelete { game_id: s.game.id },
        ]
    }
}

/// What a move of `sender` on `position` asks of the store. A refused move
/// asks for one notice to the caller, which says why, and for nothing else.
pub open spec fn actions_of(
    found: Option<SessionView>,
    sender: Identity,
    now: Timestamp,
    game_id: u32,
    position: u8,
) -> Seq<Action> {
    let verdict = verdict_of(found, sender, position);
    match verdict.refusal() {
        Some(notice) => seq![tell(game_id, sender, notice)],
        None => if verdict is Moved {
            actions_of_move(found->0, sender, now, game_id, position)
        } else {
            actions_of_move(found->0, sender, now, game_id, position) + actions_of_ending(
                found->0,
                sender,
                game_id,
                verdict,
            )
        },
    }
}

/// What `play` hands back.
#[derive(Clone, Debug, PartialEq, Eq)]
pub struct Played {
    /// How the call ended.
    pub verdict: Verdict,
    /// The session after the call; `None` if there was none.
    pub session: Option<Session>,
    /// What the caller has to do to the store, in this order.
    pub actions: Vec<Action>,
}

/// The one notice that a refused move asks for.
fn refuse(
    verdict: Verdict,
    session: Option<Session>,
    game_id: u32,
    sender: Identity,
    notice: Message,
) -> (out: Played)
    ensures
        out.verdict == verdict,
        out.session == session,
        out.actions@ == seq![tell(game_id, sender, notice)],
{
    let mut actions: Vec<Action> = Vec::new();
    actions.push(Action::GiveFeedback { game_id, player_id: sender, message: notice });
    Played { verdict, session, actions }
}

/// Checks a move of `sender` on `position` against the session, and says
/// how it ends and whether it is the first seat's turn.
fn judge(session: &Session, sender: Identity, position: u8) -> (ruling: (Verdict, bool))
    requires
        session@.replayable(),
        position <= 8,
    ensures
        ruling.0 == verdict_of(Some(session@), sender, position),
        ruling.1 == (session@.turn() % 2 == 0),
{
    let ghost s = session@;
    let g = session.game;
    let mut board = get_board(&session.moves).unwrap();
    proof {
        lemma_board_of_valid(s.log());
    }
    let filled = filled_cells(board);
    let p1_to_play_next = filled % 2 == 0;
    let id_to_play_next = if p1_to_play_next { g.p1 } else { g.p2 };

    if g.result.is_terminal() {
        return (Verdict::GameOver, p1_to_play_next);
    }
    if sender != id_to_play_next {
        return (Verdict::NotYourTurn, p1_to_play_next);
    }
    if filled == 9 {
        return (Verdict::BoardFull, p1_to_play_next);
    }
    let p_size: usize = position as usize;
    if board[p_size] != 0 {
        return (Verdict::CellTaken, p1_to_play_next);
    }
    let v: u8 = if p1_to_play_next { 1 } else { 2 };
    board[p_size] = v;
    proof {
        assert(s.log().push(position).drop_last() =~= s.log());
        assert(board@ == board_of(s.log().push(position)));
    }
    if has_won(board, v) {
        (Verdict::Won, p1_to_play_next)
    } else if filled_cells(board) == 9 {
        (Verdict::Tied, p1_to_play_next)
    } else {
        (Verdict::Moved, p1_to_play_next)
    }
}

/// Lists what an accepted move asks of the store first.
fn move_actions(g: Game, first_seat: bool, mv: GameMove) -> (actions: Vec<Action>)
    ensures
        actions@ == seq![
            tell(mv.game_id, g.p1, if first_seat { Message::ValidMoveX } else { Message::ValidMoveO }),
            tell(mv.game_id, g.p2, if first_seat { Message::ValidMoveX } else { Message::ValidMoveO }),
            Action::InsertMove(mv),
        ],
{
    let notice = if first_seat { Message::ValidMoveX } else { Message::ValidMoveO };
    let mut actions: Vec<Action> = Vec::new();
    actions.push(Action::GiveFeedback { game_id: mv.game_id, player_id: g.p1, message: notice });
    actions.push(Action::GiveFeedback { game_id: mv.game_id, player_id: g.p2, message: notice });
    actions.push(Action::InsertMove(mv));
    actions
}

/// Adds to `actions` what a winning move asks of the store.
fn push_win(
    actions: &mut Vec<Action>,
    ended: Game,
    game_id: u32,
    winner: Identity,
    loser: Identity,
)
    ensures
        final(actions)@ == old(actions)@ + seq![
            credit(winner, 0, 0, 1, 0, 0),
            credit(loser, 0, 0, 0, 0, 1),
            tell(game_id, winner, Message::YouWon),
            tell(game_id, loser, Message::YouLost),
            Action::UpdateGame(ended),
            Action::ScheduleDelete { game_id: ended.id },
        ],
{
    actions.push(
        Action::AdjustStats { player_id: winner, starts: 0, left_early: 0, wins: 1, ties: 0, losses: 0 },
    );
    actions.push(
        Action::AdjustStats { player_id: loser, starts: 0, left_early: 0, wins: 0, ties: 0, losses: 1 },
    );
    actions.push(Action::GiveFeedback { game_id, player_id: winner, message: Message::YouWon });
    actions.push(Action::GiveFeedback { game_id, player_id: loser, message: Message::YouLost });
    actions.push(Action::UpdateGame(ended));
    actions.push(Action::ScheduleDelete { game_id: ended.id });
}

/// Adds to `actions` what a tying move asks of the store.
fn push_tie(actions: &mut Vec<Action>, ended: Game, game_id: u32)
    ensures
        final(actions)@ == old(actions)@ + seq![
            credit(ended.p1, 0, 0, 0, 1, 0),
            credit(ended.p2, 0, 0, 0, 1, 0),
            tell(game_id, ended.p1, Message::Tie),
            tell(game_id, ended.p2, Message::Tie),
            Action::UpdateGame(ended),
            Action::ScheduleDelete { game_id: ended.id },
        ],
{
    actions.push(
        Action::AdjustStats { player_id: ended.p1, starts: 0, left_early: 0, wins: 0, ties: 1, losses: 0 },
    );
    actions.push(
        Action::AdjustStats { player_id: ended.p2, starts: 0, left_early: 0, wins: 0, ties: 1, losses: 0 },
    );
    actions.push(Action::GiveFeedback { game_id, player_id: ended.p1, message: Message::Tie });
    actions.push(Action::GiveFeedback { game_id, player_id: ended.p2, message: Message::Tie });
    actions.push(Action::UpdateGame(ended));
    actions.push(Action::ScheduleDelete { game_id: ended.id });
}

/// `sender` plays `position` in the session `game_id`, which the caller has
/// looked up: `found` is that session, or `None` if the store has none of
/// that id.
///
/// The move is checked and, if it passes, made; the result says how the
/// call ended, what the session is afterwards and what the caller has to do
/// to the store. A refused move changes nothing.
pub fn play(
    found: Option<Session>,
    sender: Identity,
    now: Timestamp,
    game_id: u32,
    position: u8,
) -> (out: Played)
    requires
        position <= 8,
        found matches Some(s) ==> s@.replayable(),
    ensures
        out.verdict == verdict_of(view_of(found), sender, position),
        view_of(out.session) == session_after(view_of(found), sender, now, game_id, position),
        out.actions@ == actions_of(view_of(found), sender, now, game_id, position),
{
    let mut session = match found {
        None => {
            return refuse(Verdict::GameNotFound, None, game_id, sender, Message::GameNotFound);
        },
        Some(session) => session,
    };
    let ghost s = session@;
    let (verdict, p1_to_play_next) = judge(&session, sender, position);
    if let Some(notice) = verdict.refusal() {
        return refuse(verdict, Some(session), game_id, sender, notice);
    }
    let g = session.game;
    let mv = GameMove { id: 0, game_id, player_id: sender, when: now, position };
    let mut actions = move_actions(g, p1_to_play_next, mv);
    session.moves.push(mv);
    match verdict {
        Verdict::Won => {
            let loser = if p1_to_play_next { g.p2 } else { g.p1 };
            session.game.result = if p1_to_play_next { GameResult::P1Won } else { GameResult::P2Won };
            push_win(&mut actions, session.game, game_id, sender, loser);
        },
        Verdict::Tied => {
            session.game.result = GameResult::Tie;
            push_tie(&mut actions, session.game, game_id);
        },
        _ => {},
    }
    proof {
        assert(session@.moves == s.moves.push(move_row(sender, now, game_id, position)));
        assert(session@.game == Game { result: result_after(s, verdict), ..s.game });
        assert(actions@ == actions_of(Some(s), sender, now, game_id, position));
    }
    Played { verdict, session: Some(session), actions }
}

} // verus!
