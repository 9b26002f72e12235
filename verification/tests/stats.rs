use tictactoe::{update_stats, Identity, PlayerStats, Timestamp};

const P1: Identity = Identity { hi: 0, lo: 1 };

fn row() -> PlayerStats {
    PlayerStats {
        id: P1,
        starts: 10,
        left_early: 1,
        wins: 4,
        ties: 3,
        losses: 2,
        created_at: Timestamp { micros: 100 },
        updated_at: Timestamp { micros: 200 },
    }
}

#[test]
fn nothing_is_added_where_there_is_no_row() {
    assert_eq!(update_stats(None, Timestamp { micros: 300 }, 1, 1, 1, 1, 1), None);
}

#[test]
fn each_counter_rises_by_its_amount() {
    let updated = update_stats(Some(row()), Timestamp { micros: 300 }, 1, 2, 3, 4, 5);
    assert_eq!(
        updated,
        Some(PlayerStats {
            id: P1,
            starts: 11,
            left_early: 3,
            wins: 7,
            ties: 7,
            losses: 7,
            created_at: Timestamp { micros: 100 },
            updated_at: Timestamp { micros: 300 },
        })
    );
}

#[test]
fn a_win_is_one_win_more() {
    let updated = update_stats(Some(row()), Timestamp { micros: 300 }, 0, 0, 1, 0, 0).unwrap();
    assert_eq!(updated, PlayerStats { wins: 5, updated_at: Timestamp { micros: 300 }, ..row() });
}

#[test]
fn adding_nothing_still_marks_the_row() {
    let updated = update_stats(Some(row()), Timestamp { micros: 300 }, 0, 0, 0, 0, 0).unwrap();
    assert_eq!(updated, PlayerStats { updated_at: Timestamp { micros: 300 }, ..row() });
}

#[test]
fn a_counter_can_reach_its_limit() {
    let full = PlayerStats { ties: u32::MAX - 1, ..row() };
    let updated = update_stats(Some(full), Timestamp { micros: 300 }, 0, 0, 0, 1, 0).unwrap();
    assert_eq!(updated.ties, u32::MAX);
}

#[test]
fn no_counter_goes_down() {
    let before = row();
    let after = update_stats(Some(before), Timestamp { micros: 300 }, 2, 0, 1, 0, 7).unwrap();
    assert!(after.starts >= before.starts);
    assert!(after.left_early >= before.left_early);
    assert!(after.wins >= before.wins);
    assert!(after.ties >= before.ties);
    assert!(after.losses >= before.losses);
}
