//! What holds of the engine over every session and every run of moves.

use vstd::prelude::*;

use crate::action::tell;
use crate::board::{
    board_before, board_of, column_is, empty_board, faulty_at, filled_count, legal_log,
    lemma_board_of_valid, lemma_filled_count_bound, lemma_filled_count_update,
    lemma_valid_log_prefix, line_is, mark_of_turn, no_line, other_mark, relabelled, row_is,
    valid_log, wins, EMPTY, MARK_ONE, MARK_TWO,
};
use crate::matchmaker::{abandoned, joined, opened};
use crate::message::Message;
use crate::turn::{actions_of, session_after, verdict_of, SessionView, Verdict};
use crate::types::{GameMove, Identity, Timestamp};

verus! {

/// A mark that has a line on a board has it on every board that holds the
/// mark wherever the first one does.
pub proof fn lemma_line_needs_its_cells(before: Seq<u8>, after: Seq<u8>, mark: u8)
    requires
        before.len() == 9,
        after.len() == 9,
        forall|c: int| 0 <= c < 9 && after[c] == mark ==> before[c] == mark,
        wins(after, mark),
    ensures
        wins(before, mark),
{
    if exists|r: int| 0 <= r < 3 && #[trigger] row_is(after, r, mark) {
        let r = choose|r: int| 0 <= r < 3 && #[trigger] row_is(after, r, mark);
        assert(row_is(before, r, mark));
    } else if exists|c: int| 0 <= c < 3 && #[trigger] column_is(after, c, mark) {
        let c = choose|c: int| 0 <= c < 3 && #[trigger] column_is(after, c, mark);
        assert(column_is(before, c, mark));
    } else if line_is(after, 0, 4, 8, mark) {
        assert(line_is(before, 0, 4, 8, mark));
    } else {
        assert(line_is(before, 2, 4, 6, mark));
    }
}

/// Having a line does not depend on which of the two symbols is called the
/// mark: a mark has a line on a board exactly if the other mark has one on
/// the board with the two marks exchanged.
pub proof fn lemma_wins_relabelled(board: Seq<u8>, mark: u8)
    requires
        board.len() == 9,
    ensures
        wins(relabelled(board), other_mark(mark)) == wins(board, mark),
{
    let swapped = relabelled(board);
    let other = other_mark(mark);
    assert forall|c: int| 0 <= c < 9 implies (swapped[c] == other <==> board[c] == mark) by {
        assert(swapped[c] == other_mark(board[c]));
    }
    assert forall|r: int| 0 <= r < 3 implies (#[trigger] row_is(swapped, r, other) <==> row_is(board, r, mark)) by {}
    assert forall|c: int| 0 <= c < 3 implies (#[trigger] column_is(swapped, c, other) <==> column_is(
        board,
        c,
        mark,
    )) by {}
    if wins(board, mark) {
        if exists|r: int| 0 <= r < 3 && #[trigger] row_is(board, r, mark) {
            let r = choose|r: int| 0 <= r < 3 && #[trigger] row_is(board, r, mark);
            assert(row_is(swapped, r, other));
        } else if exists|c: int| 0 <= c < 3 && #[trigger] column_is(board, c, mark) {
            let c = choose|c: int| 0 <= c < 3 && #[trigger] column_is(board, c, mark);
            assert(column_is(swapped, c, other));
        }
    }
    if wins(swapped, other) {
        if exists|r: int| 0 <= r < 3 && #[trigger] row_is(swapped, r, other) {
            let r = choose|r: int| 0 <= r < 3 && #[trigger] row_is(swapped, r, other);
            assert(row_is(board, r, mark));
        } else if exists|c: int| 0 <= c < 3 && #[trigger] column_is(swapped, c, other) {
            let c = choose|c: int| 0 <= c < 3 && #[trigger] column_is(swapped, c, other);
            assert(column_is(board, c, mark));
        }
    }
}

/// On the empty board no mark has a line.
pub proof fn lemma_empty_board_has_no_line()
    ensures
        no_line(empty_board()),
{
    let b = empty_board();
    assert forall|r: int| 0 <= r < 3 implies !(#[trigger] row_is(b, r, MARK_ONE)) && !row_is(b, r, MARK_TWO) by {
        assert(b[3 * r] == EMPTY);
    }
    assert forall|c: int| 0 <= c < 3 implies !(#[trigger] column_is(b, c, MARK_ONE)) && !column_is(
        b,
        c,
        MARK_TWO,
    ) by {
        assert(b[c] == EMPTY);
    }
    assert(b[4] == EMPTY);
}

/// A move gives no line to the mark that it does not put down.
pub proof fn lemma_move_helps_the_mover_only(log: Seq<u8>, position: u8, mark: u8)
    requires
        valid_log(log.push(position)),
        mark != mark_of_turn(log.len() as int),
        wins(board_of(log.push(position)), mark),
    ensures
        wins(board_of(log), mark),
{
    let longer = log.push(position);
    assert(longer.drop_last() =~= log);
    assert(longer.take(log.len() as int) =~= log);
    lemma_valid_log_prefix(longer, log.len() as int);
    lemma_board_of_valid(log);
    lemma_board_of_valid(longer);
    assert(!faulty_at(longer, log.len() as int));
    lemma_line_needs_its_cells(board_of(log), board_of(longer), mark);
}

/// On a board that play under the rules has reached, the two marks do not
/// both have a line: whichever of the two symbols is taken for the mark,
/// it does not have a line both on the board and on the board with the
/// marks exchanged.
pub proof fn lemma_one_winner_at_most(log: Seq<u8>, mark: u8)
    requires
        legal_log(log),
        mark == MARK_ONE || mark == MARK_TWO,
    ensures
        !(wins(board_of(log), MARK_ONE) && wins(board_of(log), MARK_TWO)),
        !(wins(board_of(log), mark) && wins(relabelled(board_of(log)), mark)),
{
    lemma_board_of_valid(log);
    lemma_wins_relabelled(board_of(log), other_mark(mark));
    if log.len() == 0 {
        lemma_empty_board_has_no_line();
    } else {
        let last = log.len() - 1;
        let before = log.drop_last();
        assert(before =~= log.take(last));
        assert(before.push(log.last()) =~= log);
        assert(no_line(board_before(log, last)));
        let loser = other_mark(mark_of_turn(last));
        if wins(board_of(log), loser) {
            lemma_move_helps_the_mover_only(before, log.last(), loser);
        }
    }
}

/// Replaying a log takes one empty cell with each move: the move at index
/// `n` finds its cell empty and leaves the mark of turn `n` there, so the
/// board after it has one more cell taken than the board before it, and
/// every cell that was taken before holds what it held.
pub proof fn lemma_each_move_takes_an_empty_cell(log: Seq<u8>, n: int)
    requires
        valid_log(log),
        0 <= n < log.len(),
    ensures
        board_before(log, n)[log[n] as int] == EMPTY,
        board_before(log, n + 1) == board_before(log, n).update(log[n] as int, mark_of_turn(n)),
        filled_count(board_before(log, n + 1)) == filled_count(board_before(log, n)) + 1,
        forall|c: int|
            0 <= c < 9 && board_before(log, n)[c] != EMPTY ==> board_before(log, n + 1)[c]
                == board_before(log, n)[c],
{
    let shorter = log.take(n);
    let longer = log.take(n + 1);
    assert(!faulty_at(log, n));
    lemma_valid_log_prefix(log, n);
    lemma_valid_log_prefix(log, n + 1);
    lemma_board_of_valid(shorter);
    lemma_board_of_valid(longer);
    assert(longer.drop_last() =~= shorter);
    assert(longer.last() == log[n]);
    assert(!shorter.contains(log[n])) by {
        if shorter.contains(log[n]) {
            let j = choose|j: int| 0 <= j < shorter.len() && shorter[j] == log[n];
            assert(log[j] == log[n]);
        }
    }
}

/// An accepted move takes exactly one cell, and that cell was empty: the
/// board afterwards holds the mover's mark in the cell played and is
/// otherwise the board before, so it has one more cell taken, and no cell
/// that was taken has changed. A refused move leaves the session as it was.
pub proof fn lemma_move_takes_one_cell(
    s: SessionView,
    sender: Identity,
    now: Timestamp,
    game_id: u32,
    position: u8,
)
    requires
        s.replayable(),
        position <= 8,
    ensures
        !verdict_of(Some(s), sender, position).is_accepted() ==> session_after(
            Some(s),
            sender,
            now,
            game_id,
            position,
        ) == Some(s),
        verdict_of(Some(s), sender, position).is_accepted() ==> {
            let t = session_after(Some(s), sender, now, game_id, position)->0;
            &&& t.replayable()
            &&& t.log() == s.log().push(position)
            &&& s.board()[position as int] == EMPTY
            &&& t.board() == s.board().update(position as int, s.mark_to_move())
            &&& filled_count(t.board()) == filled_count(s.board()) + 1
            &&& forall|c: int| 0 <= c < 9 && s.board()[c] != EMPTY ==> t.board()[c] == s.board()[c]
        },
{
    if verdict_of(Some(s), sender, position).is_accepted() {
        let t = session_after(Some(s), sender, now, game_id, position)->0;
        let log = s.log();
        let longer = log.push(position);
        assert(t.log() =~= longer);
        assert(longer.drop_last() =~= log);
        lemma_board_of_valid(log);
        lemma_filled_count_update(s.board(), position as int, s.mark_to_move());
        assert forall|i: int| 0 <= i < longer.len() implies !faulty_at(longer, i) by {
            if i < log.len() {
                assert(!faulty_at(log, i));
                if exists|j: int| 0 <= j < i && longer[j] == longer[i] {
                    let j = choose|j: int| 0 <= j < i && longer[j] == longer[i];
                    assert(log[j] == log[i]);
                }
            } else {
                if exists|j: int| 0 <= j < i && longer[j] == longer[i] {
                    let j = choose|j: int| 0 <= j < i && longer[j] == longer[i];
                    assert(board_of(log)[log[j] as int] == mark_of_turn(j));
                }
            }
        }
    }
}

/// The seats take turns: an accepted move is the session's next, and its
/// number says who made it. The first seat makes the moves of even number
/// (counting from 0), the second those of odd number, and the move is
/// recorded under its maker. Where two players sit in the two seats, a
/// move is the first seat's exactly if its number is even.
pub proof fn lemma_seats_take_turns(
    s: SessionView,
    sender: Identity,
    now: Timestamp,
    game_id: u32,
    position: u8,
)
    requires
        s.replayable(),
        position <= 8,
        verdict_of(Some(s), sender, position).is_accepted(),
    ensures
        ({
            let t = session_after(Some(s), sender, now, game_id, position)->0;
            let number = s.moves.len() as int;
            &&& s.turn() == number
            &&& t.moves.len() == number + 1
            &&& t.moves[number].player_id == sender
            &&& t.moves[number].position == position
            &&& number % 2 == 0 ==> sender == s.game.p1
            &&& number % 2 != 0 ==> sender == s.game.p2
            &&& s.game.p1 != s.game.p2 ==> (sender == s.game.p1 <==> number % 2 == 0)
        }),
{
    lemma_board_of_valid(s.log());
}

/// Where every move of a session is recorded under the player whose turn
/// it was, this is so after one more call of `play`.
pub proof fn lemma_moves_stay_in_turn(
    s: SessionView,
    sender: Identity,
    now: Timestamp,
    game_id: u32,
    position: u8,
)
    requires
        s.replayable(),
        s.in_turn(),
    ensures
        session_after(Some(s), sender, now, game_id, position)->0.in_turn(),
{
    lemma_board_of_valid(s.log());
}

/// A session that has ended takes no move: the caller is told that it has
/// ended, and nothing else is asked of the store.
pub proof fn lemma_ended_session_is_closed(
    s: SessionView,
    sender: Identity,
    now: Timestamp,
    game_id: u32,
    position: u8,
)
    requires
        s.game.result.is_terminal(),
    ensures
        verdict_of(Some(s), sender, position) == Verdict::GameOver,
        session_after(Some(s), sender, now, game_id, position) == Some(s),
        actions_of(Some(s), sender, now, game_id, position) == seq![
            tell(game_id, sender, Message::GameOver),
        ],
{
}

/// A move changes nothing of a session's row but its result, and the
/// result only by ending a session that had not ended.
pub proof fn lemma_result_changes_by_ending(
    s: SessionView,
    sender: Identity,
    now: Timestamp,
    game_id: u32,
    position: u8,
)
    ensures
        ({
            let t = session_after(Some(s), sender, now, game_id, position)->0;
            let verdict = verdict_of(Some(s), sender, position);
            &&& t.game.id == s.game.id
            &&& t.game.p1 == s.game.p1
            &&& t.game.p2 == s.game.p2
            &&& t.game.when == s.game.when
            &&& t.game.result != s.game.result ==> !s.game.result.is_terminal()
                && t.game.result.is_terminal()
            &&& t.game.result != s.game.result <==> verdict is Won || verdict is Tied
        }),
{
}

/// One call of `play`, as far as a session is concerned.
pub struct Call {
    pub sender: Identity,
    pub now: Timestamp,
    pub game_id: u32,
    pub position: u8,
}

/// The session `s` after the calls `calls`, made one after the other.
pub open spec fn session_after_all(s: SessionView, calls: Seq<Call>) -> SessionView
    decreases calls.len(),
{
    if calls.len() == 0 {
        s
    } else {
        let call = calls.last();
        session_after(
            Some(session_after_all(s, calls.drop_last())),
            call.sender,
            call.now,
            call.game_id,
            call.position,
        )->0
    }
}

/// Whether every call names a cell of the board.
pub open spec fn on_board(calls: Seq<Call>) -> bool {
    forall|i: int| 0 <= i < calls.len() ==> (#[trigger] calls[i]).position <= 8
}

/// Whatever is played on a session whose board can be rebuilt, its board
/// can be rebuilt afterwards, and no fewer cells of it are taken.
pub proof fn lemma_moves_keep_replayable(s: SessionView, calls: Seq<Call>)
    requires
        s.replayable(),
        on_board(calls),
    ensures
        session_after_all(s, calls).replayable(),
        filled_count(session_after_all(s, calls).board()) >= filled_count(s.board()),
    decreases calls.len(),
{
    if calls.len() > 0 {
        let call = calls.last();
        let earlier = calls.drop_last();
        assert forall|i: int| 0 <= i < earlier.len() implies (#[trigger] earlier[i]).position <= 8 by {
            assert(earlier[i] == calls[i]);
        }
        lemma_moves_keep_replayable(s, earlier);
        lemma_move_takes_one_cell(
            session_after_all(s, earlier),
            call.sender,
            call.now,
            call.game_id,
            call.position,
        );
    }
}

/// A session ends once: when it has ended, no call of `play`, however
/// many follow, changes its row or its moves.
pub proof fn lemma_ending_is_final(s: SessionView, calls: Seq<Call>)
    requires
        s.game.result.is_terminal(),
    ensures
        session_after_all(s, calls) == s,
    decreases calls.len(),
{
    if calls.len() > 0 {
        lemma_ending_is_final(s, calls.drop_last());
    }
}

/// Over any run of calls a session's result changes at most once, and
/// only into a terminal one: if it differs after `n` of the calls from what
/// it was at the start, then it was not terminal at the start, is terminal
/// after those `n`, and the session is the same after all the calls as
/// after those `n`.
pub proof fn lemma_result_settles_once(s: SessionView, calls: Seq<Call>, n: int)
    requires
        0 <= n <= calls.len(),
        session_after_all(s, calls.take(n)).game.result != s.game.result,
    ensures
        !s.game.result.is_terminal(),
        session_after_all(s, calls.take(n)).game.result.is_terminal(),
        session_after_all(s, calls) == session_after_all(s, calls.take(n)),
    decreases calls.len() - n,
{
    if s.game.result.is_terminal() {
        lemma_ending_is_final(s, calls.take(n));
    }
    lemma_result_of_run(s, calls.take(n));
    if n < calls.len() {
        assert(calls.take(n + 1).drop_last() =~= calls.take(n));
        let call = calls[n];
        assert(calls.take(n + 1).last() == call);
        let at_n = session_after_all(s, calls.take(n));
        lemma_ended_session_is_closed(at_n, call.sender, call.now, call.game_id, call.position);
        assert(session_after_all(s, calls.take(n + 1)) == at_n);
        lemma_result_settles_once(s, calls, n + 1);
    } else {
        assert(calls.take(n) =~= calls);
    }
}

/// After any run of calls the result is what it was at the start, or
/// terminal.
pub proof fn lemma_result_of_run(s: SessionView, calls: Seq<Call>)
    ensures
        session_after_all(s, calls).game.result == s.game.result || session_after_all(
            s,
            calls,
        ).game.result.is_terminal(),
    decreases calls.len(),
{
    if calls.len() > 0 {
        let call = calls.last();
        lemma_result_of_run(s, calls.drop_last());
        lemma_result_changes_by_ending(
            session_after_all(s, calls.drop_last()),
            call.sender,
            call.now,
            call.game_id,
            call.position,
        );
    }
}

/// A session that has just been opened is sound.
pub proof fn lemma_opened_session_is_sound(player: Identity, now: Timestamp)
    ensures
        (SessionView { game: opened(player, now), moves: Seq::<GameMove>::empty() }).sound(),
{
    let s = SessionView { game: opened(player, now), moves: Seq::<GameMove>::empty() };
    assert(s.log() =~= Seq::<u8>::empty());
    lemma_empty_board_has_no_line();
    lemma_board_of_valid(s.log());
}

/// Taking the second seat of a session that waits, and leaving a session
/// that has not ended, keep a sound session sound.
pub proof fn lemma_seating_keeps_sound(s: SessionView, player: Identity)
    requires
        s.sound(),
    ensures
        s.game.result is Unstarted ==> (SessionView { game: joined(s.game, player), ..s }).sound(),
        !s.game.result.is_terminal() ==> (SessionView { game: abandoned(s.game), ..s }).sound(),
{
}

/// A move keeps a sound session sound.
pub proof fn lemma_move_keeps_sound(
    s: SessionView,
    sender: Identity,
    now: Timestamp,
    game_id: u32,
    position: u8,
)
    requires
        s.sound(),
        position <= 8,
    ensures
        session_after(Some(s), sender, now, game_id, position)->0.sound(),
{
    let verdict = verdict_of(Some(s), sender, position);
    if verdict.is_accepted() {
        let t = session_after(Some(s), sender, now, game_id, position)->0;
        let log = s.log();
        let longer = log.push(position);
        let mover = s.mark_to_move();
        lemma_move_takes_one_cell(s, sender, now, game_id, position);
        lemma_board_of_valid(log);
        lemma_board_of_valid(longer);
        lemma_filled_count_bound(t.board());
        assert forall|n: int| 0 <= n < longer.len() implies no_line(#[trigger] board_before(longer, n)) by {
            assert(longer.take(n) =~= log.take(n));
            if n < log.len() {
                assert(no_line(board_before(log, n)));
            } else {
                assert(log.take(n) =~= log);
            }
        }
        if wins(t.board(), other_mark(mover)) {
            lemma_move_helps_the_mover_only(log, position, other_mark(mover));
        }
    }
}

/// Whatever is played on a sound session, it stays sound: so of the two
/// marks at most one ever has a line on its board.
pub proof fn lemma_play_keeps_sound(s: SessionView, calls: Seq<Call>)
    requires
        s.sound(),
        on_board(calls),
    ensures
        session_after_all(s, calls).sound(),
        !(wins(session_after_all(s, calls).board(), MARK_ONE) && wins(
            session_after_all(s, calls).board(),
            MARK_TWO,
        )),
    decreases calls.len(),
{
    if calls.len() > 0 {
        let call = calls.last();
        let earlier = calls.drop_last();
        assert forall|i: int| 0 <= i < earlier.len() implies (#[trigger] earlier[i]).position <= 8 by {
            assert(earlier[i] == calls[i]);
        }
        lemma_play_keeps_sound(s, earlier);
        lemma_move_keeps_sound(
            session_after_all(s, earlier),
            call.sender,
            call.now,
            call.game_id,
            call.position,
        );
    }
    lemma_one_winner_at_most(session_after_all(s, calls).log(), MARK_ONE);
}

/// In a sound session no move is refused for want of an empty cell: a
/// session with a full board has ended.
pub proof fn lemma_sound_session_has_room(s: SessionView, sender: Identity, position: u8)
    requires
        s.sound(),
    ensures
        verdict_of(Some(s), sender, position) != Verdict::BoardFull,
{
}

} // verus!
