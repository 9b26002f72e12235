//! The board of a session, rebuilt from its move log, and what can be read
//! off a board: how many cells are taken, and whether a mark has a line.

use vstd::prelude::*;

use crate::types::GameMove;

verus! {

/// The value of a cell nobody has played.
pub const EMPTY: u8 = 0;

/// The mark of the player in the first seat.
pub const MARK_ONE: u8 = 1;

/// The mark of the player in the second seat.
pub const MARK_TWO: u8 = 2;

/// How many cells of `board` hold a mark.
pub open spec fn filled_count(board: Seq<u8>) -> nat
    decreases board.len(),
{
    if board.len() == 0 {
        0
    } else {
        filled_count(board.drop_last()) + if board.last() > 0 {
            1nat
        } else {
            0nat
        }
    }
}

/// No more cells are taken than there are.
pub proof fn lemma_filled_count_bound(board: Seq<u8>)
    ensures
        filled_count(board) <= board.len(),
    decreases board.len(),
{
    if board.len() > 0 {
        lemma_filled_count_bound(board.drop_last());
    }
}

/// Counts the cells that hold a mark.
pub fn filled_cells(board: [u8; 9]) -> (count: u8)
    ensures
        count == filled_count(board@),
        count <= 9,
{
    let mut count: u8 = 0;
    let mut i: usize = 0;
    while i < 9
        invariant
            i <= 9,
            count == filled_count(board@.take(i as int)),
            count <= i,
        decreases 9 - i,
    {
        proof {
            assert(board@.take(i + 1).drop_last() =~= board@.take(i as int));
        }
        if board[i] > 0 {
            count += 1;
        }
        i += 1;
    }
    proof {
        assert(board@.take(9) =~= board@);
    }
    count
}

/// Whether every cell holds a mark.
pub fn is_full(board: [u8; 9]) -> (full: bool)
    ensures
        full == (filled_count(board@) == 9),
{
    filled_cells(board) == 9
}

/// Whether the cells `a`, `b` and `c` all hold `mark`.
pub open spec fn line_is(board: Seq<u8>, a: int, b: int, c: int, mark: u8) -> bool {
    board[a] == mark && board[b] == mark && board[c] == mark
}

/// Whether row `r` (0 at the top) is uniformly `mark`.
pub open spec fn row_is(board: Seq<u8>, r: int, mark: u8) -> bool {
    line_is(board, 3 * r, 3 * r + 1, 3 * r + 2, mark)
}

/// Whether column `c` (0 at the left) is uniformly `mark`.
pub open spec fn column_is(board: Seq<u8>, c: int, mark: u8) -> bool {
    line_is(board, c, c + 3, c + 6, mark)
}

/// Whether one of the eight lines of the grid is uniformly `mark`:
/// a row, a column, or one of the two diagonals.
pub open spec fn wins(board: Seq<u8>, mark: u8) -> bool {
    ||| exists|r: int| 0 <= r < 3 && #[trigger] row_is(board, r, mark)
    ||| exists|c: int| 0 <= c < 3 && #[trigger] column_is(board, c, mark)
    ||| line_is(board, 0, 4, 8, mark)
    ||| line_is(board, 2, 4, 6, mark)
}

/// Whether `v` holds a whole line of the board.
// 0 1 2
// 3 4 5
// 6 7 8
pub fn has_won(board: [u8; 9], v: u8) -> (won: bool)
    ensures
        won == wins(board@, v),
{
    let won = (board[0] == v && board[1] == v && board[2] == v)
        || (board[3] == v && board[4] == v && board[5] == v)
        || (board[6] == v && board[7] == v && board[8] == v)
        || (board[0] == v && board[3] == v && board[6] == v)
        || (board[1] == v && board[4] == v && board[7] == v)
        || (board[2] == v && board[5] == v && board[8] == v)
        || (board[0] == v && board[4] == v && board[8] == v)
        || (board[2] == v && board[4] == v && board[6] == v);
    proof {
        let b = board@;
        assert(row_is(b, 0, v) == (b[0] == v && b[1] == v && b[2] == v));
        assert(row_is(b, 1, v) == (b[3] == v && b[4] == v && b[5] == v));
        assert(row_is(b, 2, v) == (b[6] == v && b[7] == v && b[8] == v));
        assert(column_is(b, 0, v) == (b[0] == v && b[3] == v && b[6] == v));
        assert(column_is(b, 1, v) == (b[1] == v && b[4] == v && b[7] == v));
        assert(column_is(b, 2, v) == (b[2] == v && b[5] == v && b[8] == v));
    }
    won
}

/// The cells that a log of moves names, in the order of the log.
pub open spec fn positions(moves: Seq<GameMove>) -> Seq<u8> {
    moves.map_values(|m: GameMove| m.position)
}

/// The mark that the move at index `turn` of a log puts down. The first
/// seat moves first, and the seats alternate: only the index decides, not
/// the player recorded on the move.
pub open spec fn mark_of_turn(turn: int) -> u8 {
    if turn % 2 == 0 {
        MARK_ONE
    } else {
        MARK_TWO
    }
}

/// The board before any move.
pub open spec fn empty_board() -> Seq<u8> {
    Seq::new(9, |c: int| EMPTY)
}

/// The board that replaying `log` from the empty board gives.
pub open spec fn board_of(log: Seq<u8>) -> Seq<u8>
    decreases log.len(),
{
    if log.len() == 0 {
        empty_board()
    } else {
        board_of(log.drop_last()).update(log.last() as int, mark_of_turn(log.len() - 1))
    }
}

/// Whether the move at index `i` cannot be replayed: it names a cell off the
/// board, or one that an earlier move of the log has taken.
pub open spec fn faulty_at(log: Seq<u8>, i: int) -> bool {
    log[i] >= 9 || exists|j: int| 0 <= j < i && log[j] == log[i]
}

/// A log that can be replayed: every move names a cell of the board, and no
/// cell is named twice.
pub open spec fn valid_log(log: Seq<u8>) -> bool {
    forall|i: int| 0 <= i < log.len() ==> !faulty_at(log, i)
}

/// Whether neither mark has a line.
pub open spec fn no_line(board: Seq<u8>) -> bool {
    !wins(board, MARK_ONE) && !wins(board, MARK_TWO)
}

/// The board as it stood before the move at index `n` of `log`.
pub open spec fn board_before(log: Seq<u8>, n: int) -> Seq<u8> {
    board_of(log.take(n))
}

/// A log that play under the rules can have written: it can be replayed,
/// and no move of it was made on a board on which a mark had a line.
pub open spec fn legal_log(log: Seq<u8>) -> bool {
    &&& valid_log(log)
    &&& forall|n: int| 0 <= n < log.len() ==> no_line(#[trigger] board_before(log, n))
}

/// The other of the two marks; any other value stands for itself.
pub open spec fn other_mark(mark: u8) -> u8 {
    if mark == MARK_ONE {
        MARK_TWO
    } else if mark == MARK_TWO {
        MARK_ONE
    } else {
        mark
    }
}

/// The board with the two marks exchanged.
pub open spec fn relabelled(board: Seq<u8>) -> Seq<u8> {
    board.map_values(|cell: u8| other_mark(cell))
}

/// Why a log could not be replayed.
#[derive(Clone, Copy, Debug, PartialEq, Eq)]
pub enum BoardError {
    /// The move at `index` names a cell that is not on the board.
    OutOfRange { index: usize },
    /// The move at `index` names a cell that an earlier move has taken.
    Repeated { index: usize },
}

impl BoardError {
    /// The index, in the log, of the move that could not be replayed.
    pub open spec fn spec_index(&self) -> usize {
        match *self {
            BoardError::OutOfRange { index } => index,
            BoardError::Repeated { index } => index,
        }
    }

    #[verifier::when_used_as_spec(spec_index)]
    pub fn index(&self) -> (index: usize)
        ensures
            index == self.spec_index(),
    {
        match *self {
            BoardError::OutOfRange { index } => index,
            BoardError::Repeated { index } => index,
        }
    }
}

/// Writing `mark` into cell `p` changes the count by what the cell held and
/// what it holds now.
pub proof fn lemma_filled_count_update(board: Seq<u8>, p: int, mark: u8)
    requires
        0 <= p < board.len(),
    ensures
        filled_count(board.update(p, mark)) + (if board[p] > 0 { 1nat } else { 0nat })
            == filled_count(board) + (if mark > 0 { 1nat } else { 0nat }),
    decreases board.len(),
{
    let after = board.update(p, mark);
    if p == board.len() - 1 {
        assert(after.drop_last() =~= board.drop_last());
    } else {
        assert(after.drop_last() =~= board.drop_last().update(p, mark));
        lemma_filled_count_update(board.drop_last(), p, mark);
    }
}

/// A prefix of a log that can be replayed can be replayed.
pub proof fn lemma_valid_log_prefix(log: Seq<u8>, n: int)
    requires
        valid_log(log),
        0 <= n <= log.len(),
    ensures
        valid_log(log.take(n)),
{
    let prefix = log.take(n);
    assert forall|i: int| 0 <= i < prefix.len() implies !faulty_at(prefix, i) by {
        assert(!faulty_at(log, i));
        if exists|j: int| 0 <= j < i && prefix[j] == prefix[i] {
            let j = choose|j: int| 0 <= j < i && prefix[j] == prefix[i];
            assert(log[j] == log[i]);
        }
    }
}

/// What the board of a log that can be replayed holds, cell by cell: the
/// cell of the move at index `i` holds the mark of turn `i`, every cell that
/// no move names is empty, and as many cells are taken as the log has moves.
pub proof fn lemma_board_of_valid(log: Seq<u8>)
    requires
        valid_log(log),
    ensures
        board_of(log).len() == 9,
        forall|i: int| 0 <= i < log.len() ==> board_of(log)[#[trigger] log[i] as int] == mark_of_turn(i),
        forall|c: u8| c < 9 && !log.contains(c) ==> #[trigger] board_of(log)[c as int] == EMPTY,
        filled_count(board_of(log)) == log.len(),
    decreases log.len(),
{
    if log.len() == 0 {
        assert(filled_count(empty_board()) == 0) by {
            reveal_with_fuel(filled_count, 10);
        }
    } else {
        let last = log.len() - 1;
        let before = log.drop_last();
        let p = log.last();
        assert(before =~= log.take(last));
        lemma_valid_log_prefix(log, last);
        lemma_board_of_valid(before);
        let prior = board_of(before);
        assert(!faulty_at(log, last));
        assert(!before.contains(p)) by {
            if before.contains(p) {
                let j = choose|j: int| 0 <= j < before.len() && before[j] == p;
                assert(log[j] == log[last]);
            }
        }
        assert(prior[p as int] == EMPTY);
        lemma_filled_count_update(prior, p as int, mark_of_turn(last));
        assert forall|i: int| 0 <= i < log.len() implies board_of(log)[#[trigger] log[i] as int]
            == mark_of_turn(i) by {
            assert(!faulty_at(log, i));
            if i < last {
                assert(before[i] == log[i]);
                assert(log[i] != p);
            }
        }
        assert forall|c: u8| c < 9 && !log.contains(c) implies #[trigger] board_of(log)[c as int]
            == EMPTY by {
            assert(log[last] == p);
            assert(c != p);
            if before.contains(c) {
                let j = choose|j: int| 0 <= j < before.len() && before[j] == c;
                assert(log[j] == c);
            }
        }
    }
}

/// Rebuilds the board of a session from its moves, taken in the order in
/// which they were made. The move at index `i` puts down the mark of the
/// first seat if `i` is even and that of the second seat if it is odd,
/// whoever is recorded on it. A log that names a cell off the board, or a
/// cell twice, has no board: the first such move is reported.
pub fn get_board(moves: &Vec<GameMove>) -> (res: Result<[u8; 9], BoardError>)
    ensures
        res is Ok <==> valid_log(positions(moves@)),
        res matches Ok(board) ==> board@ == board_of(positions(moves@)),
        res matches Err(e) ==> {
            &&& e.index() < moves.len()
            &&& faulty_at(positions(moves@), e.index() as int)
            &&& forall|k: int| 0 <= k < e.index() ==> !faulty_at(positions(moves@), k)
            &&& e is OutOfRange <==> positions(moves@)[e.index() as int] >= 9
        },
{
    let ghost log = positions(moves@);
    let mut board: [u8; 9] = [0; 9];
    let mut i: usize = 0;
    proof {
        assert(board@ =~= empty_board());
        assert(log.take(0) =~= Seq::<u8>::empty());
    }
    while i < moves.len()
        invariant
            i <= moves.len(),
            log == positions(moves@),
            valid_log(log.take(i as int)),
            board@ == board_of(log.take(i as int)),
        decreases moves.len() - i,
    {
        let position = moves[i].position;
        proof {
            lemma_board_of_valid(log.take(i as int));
            assert(log.take(i + 1).drop_last() =~= log.take(i as int));
            assert(log[i as int] == position);
            assert forall|k: int| 0 <= k < i implies !faulty_at(log, k) by {
                assert(!faulty_at(log.take(i as int), k));
                if exists|j: int| 0 <= j < k && log[j] == log[k] {
                    let j = choose|j: int| 0 <= j < k && log[j] == log[k];
                    assert(log.take(i as int)[j] == log.take(i as int)[k]);
                }
            }
        }
        if position >= 9 {
            assert(faulty_at(log, i as int));
            return Err(BoardError::OutOfRange { index: i });
        }
        let index: usize = position as usize;
        if board[index] != 0 {
            proof {
                assert(log.take(i as int).contains(position));
                let j = choose|j: int| 0 <= j < i && log.take(i as int)[j] == position;
                assert(log[j] == log[i as int]);
                assert(faulty_at(log, i as int));
            }
            return Err(BoardError::Repeated { index: i });
        }
        let who: u8 = if i % 2 == 0 { 1 } else { 2 };
        board[index] = who;
        proof {
            let next = log.take(i + 1);
            assert(!log.take(i as int).contains(position)) by {
                if log.take(i as int).contains(position) {
                    lemma_board_of_valid(log.take(i as int));
                    let j = choose|j: int| 0 <= j < i && log.take(i as int)[j] == position;
                    assert(board_of(log.take(i as int))[log.take(i as int)[j] as int] == mark_of_turn(j));
                }
            }
            assert forall|k: int| 0 <= k < next.len() implies !faulty_at(next, k) by {
                if k < i {
                    assert(!faulty_at(log, k));
                }
                if exists|j: int| 0 <= j < k && next[j] == next[k] {
                    let j = choose|j: int| 0 <= j < k && next[j] == next[k];
                    assert(log[j] == log[k]);
                    if k == i {
                        assert(log.take(i as int)[j] == position);
                    }
                }
            }
        }
        i += 1;
    }
    proof {
        assert(log.take(i as int) =~= log);
    }
    Ok(board)
}

} // verus!
