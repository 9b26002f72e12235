//! The counters kept for each player.

use vstd::prelude::*;

use crate::types::{Identity, PlayerStats, Timestamp};

verus! {

/// The row of a player of whom nothing has been counted yet.
pub open spec fn fresh_stats(player_id: Identity, now: Timestamp) -> PlayerStats {
    PlayerStats {
        id: player_id,
        starts: 0,
        left_early: 0,
        wins: 0,
        ties: 0,
        losses: 0,
        created_at: now,
        updated_at: now,
    }
}

/// Whether the given amounts can be added to the counters of `ps`.
pub open spec fn can_credit(
    ps: PlayerStats,
    starts: u32,
    left_early: u32,
    wins: u32,
    ties: u32,
    losses: u32,
) -> bool {
    &&& ps.starts + starts <= u32::MAX
    &&& ps.left_early + left_early <= u32::MAX
    &&& ps.wins + wins <= u32::MAX
    &&& ps.ties + ties <= u32::MAX
    &&& ps.losses + losses <= u32::MAX
}

/// The row `ps` with the given amounts added to its counters at `now`.
pub open spec fn credited(
    ps: PlayerStats,
    now: Timestamp,
    starts: u32,
    left_early: u32,
    wins: u32,
    ties: u32,
    losses: u32,
) -> PlayerStats {
    PlayerStats {
        starts: (ps.starts + starts) as u32,
        left_early: (ps.left_early + left_early) as u32,
        wins: (ps.wins + wins) as u32,
        ties: (ps.ties + ties) as u32,
        losses: (ps.losses + losses) as u32,
        updated_at: now,
        ..ps
    }
}

/// Makes the row of a player who connects for the first time.
pub fn new_stats(player_id: Identity, now: Timestamp) -> (row: PlayerStats)
    ensures
        row == fresh_stats(player_id, now),
{
    PlayerStats {
        id: player_id,
        starts: 0,
        left_early: 0,
        wins: 0,
        ties: 0,
        losses: 0,
        created_at: now,
        updated_at: now,
    }
}

/// Adds the given amounts to the counters of a player. `row` is what the
/// store holds for that player. With no row there is nothing to add to, and
/// the answer is `None`; making the row is left to the caller. Else the
/// answer is the row to write back: each counter raised by its amount, and
/// `updated_at` set to `now`. No counter ever goes down.
pub fn update_stats(
    row: Option<PlayerStats>,
    now: Timestamp,
    starts: u32,
    left_early: u32,
    wins: u32,
    ties: u32,
    losses: u32,
) -> (updated: Option<PlayerStats>)
    requires
        row matches Some(ps) ==> can_credit(ps, starts, left_early, wins, ties, losses),
    ensures
        updated == match row {
            Some(ps) => Some(credited(ps, now, starts, left_early, wins, ties, losses)),
            None => None,
        },
{
    if let Some(mut ps) = row {
        ps.starts += starts;
        ps.left_early += left_early;
        ps.wins += wins;
        ps.ties += ties;
        ps.losses += losses;
        ps.updated_at = now;
        return Some(ps);
    }
    None
}

/// Adding to the counters lowers none of them, and leaves the row with its
/// player and the time it was made.
pub proof fn lemma_counters_never_fall(
    ps: PlayerStats,
    now: Timestamp,
    starts: u32,
    left_early: u32,
    wins: u32,
    ties: u32,
    losses: u32,
)
    requires
        can_credit(ps, starts, left_early, wins, ties, losses),
    ensures
        ({
            let after = credited(ps, now, starts, left_early, wins, ties, losses);
            &&& after.id == ps.id
            &&& after.created_at == ps.created_at
            &&& after.starts >= ps.starts
            &&& after.left_early >= ps.left_early
            &&& after.wins >= ps.wins
            &&& after.ties >= ps.ties
            &&& after.losses >= ps.losses
        }),
{
}

} // verus!
