use tictactoe::{
    filled_cells, get_board, has_won, is_full, BoardError, GameMove, Identity, Timestamp,
};

const P1: Identity = Identity { hi: 0, lo: 1 };
const P2: Identity = Identity { hi: 0, lo: 2 };

fn log(positions: &[u8]) -> Vec<GameMove> {
    let mut moves = Vec::new();
    for (i, position) in positions.iter().enumerate() {
        moves.push(GameMove {
            id: i as u32 + 1,
            game_id: 7,
            player_id: if i % 2 == 0 { P1 } else { P2 },
            when: Timestamp { micros: i as i64 },
            position: *position,
        });
    }
    moves
}

fn swap_marks(board: [u8; 9]) -> [u8; 9] {
    let mut swapped = [0u8; 9];
    for i in 0..9 {
        swapped[i] = match board[i] {
            1 => 2,
            2 => 1,
            other => other,
        };
    }
    swapped
}

const LINES: [[usize; 3]; 8] = [
    [0, 1, 2],
    [3, 4, 5],
    [6, 7, 8],
    [0, 3, 6],
    [1, 4, 7],
    [2, 5, 8],
    [0, 4, 8],
    [2, 4, 6],
];

#[test]
fn no_moves_give_the_empty_board() {
    assert_eq!(get_board(&log(&[])), Ok([0; 9]));
}

#[test]
fn moves_alternate_marks_by_their_index() {
    assert_eq!(get_board(&log(&[0, 4, 1])), Ok([1, 1, 0, 0, 2, 0, 0, 0, 0]));
    assert_eq!(get_board(&log(&[8])), Ok([0, 0, 0, 0, 0, 0, 0, 0, 1]));
    assert_eq!(
        get_board(&log(&[0, 1, 2, 4, 3, 5, 7, 6, 8])),
        Ok([1, 2, 1, 1, 2, 2, 2, 1, 1])
    );
}

#[test]
fn the_recorded_player_does_not_decide_the_mark() {
    let mut moves = log(&[0, 4, 1]);
    for m in moves.iter_mut() {
        m.player_id = P2;
        m.game_id = 99;
    }
    assert_eq!(get_board(&moves), Ok([1, 1, 0, 0, 2, 0, 0, 0, 0]));
}

#[test]
fn a_cell_off_the_board_is_reported() {
    assert_eq!(get_board(&log(&[9])), Err(BoardError::OutOfRange { index: 0 }));
    assert_eq!(get_board(&log(&[0, 1, 255, 2])), Err(BoardError::OutOfRange { index: 2 }));
    assert_eq!(get_board(&log(&[0, 1, 255, 2])).unwrap_err().index(), 2);
}

#[test]
fn a_cell_played_twice_is_reported() {
    assert_eq!(get_board(&log(&[3, 3])), Err(BoardError::Repeated { index: 1 }));
    assert_eq!(get_board(&log(&[0, 1, 2, 0, 5])), Err(BoardError::Repeated { index: 3 }));
}

#[test]
fn the_first_fault_is_the_one_reported() {
    assert_eq!(get_board(&log(&[0, 0, 9])), Err(BoardError::Repeated { index: 1 }));
    assert_eq!(get_board(&log(&[0, 9, 0])), Err(BoardError::OutOfRange { index: 1 }));
    assert_eq!(get_board(&log(&[0, 1, 2, 3, 4, 5, 6, 7, 8, 0])), Err(BoardError::Repeated { index: 9 }));
}

#[test]
fn filled_cells_counts_marks() {
    assert_eq!(filled_cells([0; 9]), 0);
    assert_eq!(filled_cells([1, 1, 0, 0, 2, 0, 0, 0, 0]), 3);
    assert_eq!(filled_cells([0, 0, 0, 0, 0, 0, 0, 0, 2]), 1);
    assert_eq!(filled_cells([1, 2, 1, 1, 2, 2, 2, 1, 1]), 9);
}

#[test]
fn filled_cells_counts_whatever_is_not_empty() {
    assert_eq!(filled_cells([7, 0, 255, 0, 0, 0, 0, 0, 0]), 2);
}

#[test]
fn is_full_only_with_nine_marks() {
    assert!(is_full([1, 2, 1, 1, 2, 2, 2, 1, 1]));
    assert!(!is_full([1, 2, 1, 1, 2, 2, 2, 1, 0]));
    assert!(!is_full([0; 9]));
}

#[test]
fn each_of_the_eight_lines_wins() {
    for mark in [1u8, 2u8] {
        for line in LINES {
            let mut board = [0u8; 9];
            for cell in line {
                board[cell] = mark;
            }
            assert!(has_won(board, mark), "line {:?} of {}", line, mark);
            assert!(!has_won(board, 3 - mark), "line {:?} of {}", line, mark);
        }
    }
}

#[test]
fn a_line_with_a_gap_or_a_foreign_mark_does_not_win() {
    for line in LINES {
        for spoiled in line {
            let mut board = [0u8; 9];
            for cell in line {
                board[cell] = 1;
            }
            board[spoiled] = 0;
            assert!(!has_won(board, 1));
            board[spoiled] = 2;
            assert!(!has_won(board, 1));
        }
    }
}

#[test]
fn three_marks_off_a_line_do_not_win() {
    assert!(!has_won([1, 1, 0, 1, 0, 0, 0, 0, 0], 1));
    assert!(!has_won([0, 1, 0, 1, 0, 1, 0, 0, 0], 1));
    assert!(!has_won([1, 2, 1, 1, 2, 2, 2, 1, 1], 1));
    assert!(!has_won([1, 2, 1, 1, 2, 2, 2, 1, 1], 2));
}

#[test]
fn the_empty_board_has_lines_of_empty_cells_only() {
    assert!(has_won([0; 9], 0));
    assert!(!has_won([0; 9], 1));
    assert!(!has_won([0; 9], 2));
}

#[test]
fn top_row_after_five_moves() {
    let board = get_board(&log(&[0, 3, 1, 4, 2])).unwrap();
    assert_eq!(board, [1, 1, 1, 2, 2, 0, 0, 0, 0]);
    assert!(has_won(board, 1));
    assert!(!has_won(board, 2));
    assert!(!is_full(board));
}

#[test]
fn every_move_takes_one_more_cell() {
    let positions = [4u8, 0, 8, 2, 1, 7, 3, 5, 6];
    let mut before = [0u8; 9];
    for n in 0..positions.len() {
        let after = get_board(&log(&positions[..n + 1])).unwrap();
        assert_eq!(filled_cells(after), filled_cells(before) + 1);
        assert_eq!(filled_cells(after) as usize, n + 1);
        assert_eq!(before[positions[n] as usize], 0);
        assert_eq!(after[positions[n] as usize], if n % 2 == 0 { 1 } else { 2 });
        for c in 0..9 {
            if before[c] != 0 {
                assert_eq!(after[c], before[c]);
            }
        }
        before = after;
    }
}

#[test]
fn winning_does_not_depend_on_the_name_of_the_mark() {
    let boards = [
        [1, 1, 1, 2, 2, 0, 0, 0, 0],
        [1, 2, 1, 1, 2, 2, 2, 1, 1],
        [2, 1, 1, 1, 2, 0, 0, 0, 2],
        [0; 9],
    ];
    for board in boards {
        assert_eq!(has_won(swap_marks(board), 2), has_won(board, 1));
        assert_eq!(has_won(swap_marks(board), 1), has_won(board, 2));
        assert!(!(has_won(board, 1) && has_won(swap_marks(board), 1)));
    }
}
