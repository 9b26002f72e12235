//! Deferred removal of a session that has ended.

use vstd::prelude::*;

use crate::action::Action;
use crate::types::{DeleteGameTimer, Feedback, GameMove, Timestamp};

verus! {

/// How long an ended session stays before it is removed, in microseconds:
/// long enough for the players to see how it ended.
pub const DELETE_DELAY_MICROS: i64 = 250_000;

/// `spacetimedb::Timestamp::checked_add`, on a timestamp and a
/// `spacetimedb::TimeDuration` that are both given in microseconds.
///
/// Claimed of it: the sum of the two, where that is a 64-bit signed number
/// of microseconds, and `None` where it is not.
#[verifier::external_body]
fn timestamp_checked_add(at: Timestamp, micros: i64) -> (later: Option<Timestamp>)
    ensures
        later == (if i64::MIN <= at.micros + micros <= i64::MAX {
            Some(Timestamp { micros: (at.micros + micros) as i64 })
        } else {
            None
        }),
{
    let at = spacetimedb::Timestamp::from_micros_since_unix_epoch(at.micros);
    match at.checked_add(spacetimedb::TimeDuration::from_micros(micros)) {
        Some(later) => Some(Timestamp { micros: later.to_micros_since_unix_epoch() }),
        None => None,
    }
}

/// The timer that removes the session `game_id`, armed at `now`.
pub open spec fn timer_for(now: Timestamp, game_id: u32) -> DeleteGameTimer {
    DeleteGameTimer {
        scheduled_id: 0,
        scheduled_at: Timestamp { micros: (now.micros + DELETE_DELAY_MICROS) as i64 },
        game_id,
    }
}

/// Whether a removal of the session `game_id` is among `timers`.
pub open spec fn is_pending(timers: Seq<DeleteGameTimer>, game_id: u32) -> bool {
    exists|i: int| 0 <= i < timers.len() && (#[trigger] timers[i]).game_id == game_id
}

/// Whether no session has two removals among `timers`.
pub open spec fn one_timer_each(timers: Seq<DeleteGameTimer>) -> bool {
    forall|i: int, j: int|
        0 <= i < j < timers.len() ==> (#[trigger] timers[i]).game_id != (#[trigger] timers[j]).game_id
}

/// The time at which a removal armed at `now` would fire is more than a
/// timestamp can hold.
#[derive(Clone, Copy, Debug, PartialEq, Eq)]
pub struct TimeOverflow;

/// Arms the removal of the session `game_id`, a fixed delay after `now`.
/// `pending` are the timers that the store holds.
///
/// A session has one pending removal at most: where `pending` has one for
/// this session, there is nothing to arm, and that is no error. Else the
/// answer is the timer to hand to the store, which numbers it.
pub fn schedule_delete_game(
    pending: &Vec<DeleteGameTimer>,
    now: Timestamp,
    game_id: u32,
) -> (armed: Result<Option<DeleteGameTimer>, TimeOverflow>)
    ensures
        armed is Err <==> now.micros + DELETE_DELAY_MICROS > i64::MAX,
        armed matches Ok(timer) ==> timer == (if is_pending(pending@, game_id) {
            None
        } else {
            Some(timer_for(now, game_id))
        }),
        armed matches Ok(Some(timer)) ==> (one_timer_each(pending@) ==> one_timer_each(
            pending@.push(timer),
        )),
{
    let scheduled_at = match timestamp_checked_add(now, DELETE_DELAY_MICROS) {
        Some(at) => at,
        None => {
            return Err(TimeOverflow);
        },
    };
    let mut i: usize = 0;
    while i < pending.len()
        invariant
            i <= pending.len(),
            now.micros + DELETE_DELAY_MICROS <= i64::MAX,
            forall|k: int| 0 <= k < i ==> (#[trigger] pending@[k]).game_id != game_id,
        decreases pending.len() - i,
    {
        if pending[i].game_id == game_id {
            return Ok(None);
        }
        i += 1;
    }
    Ok(Some(DeleteGameTimer { scheduled_id: 0, scheduled_at, game_id }))
}

/// The removals of those of `moves` that belong to the session `game_id`,
/// in their order.
pub open spec fn move_removals(moves: Seq<GameMove>, game_id: u32) -> Seq<Action> {
    moves.filter(|m: GameMove| m.game_id == game_id).map_values(
        |m: GameMove| Action::DeleteMove { id: m.id },
    )
}

/// The removals of those of `notices` that belong to the session `game_id`,
/// in their order.
pub open spec fn feedback_removals(notices: Seq<Feedback>, game_id: u32) -> Seq<Action> {
    notices.filter(|f: Feedback| f.game_id == game_id).map_values(
        |f: Feedback| Action::DeleteFeedback { id: f.id },
    )
}

/// A timer has fired: the session it names goes, and with it every move and
/// every notice that belongs to it. Rows of other sessions among `moves`
/// and `feedback` are left alone. Where the session and its rows are gone
/// already, all that is asked for is the removal of a session that is not
/// there, which changes nothing.
pub fn delete_game(
    timer: &DeleteGameTimer,
    moves: &Vec<GameMove>,
    feedback: &Vec<Feedback>,
) -> (actions: Vec<Action>)
    ensures
        actions@ == seq![Action::DeleteGame { game_id: timer.game_id }] + move_removals(
            moves@,
            timer.game_id,
        ) + feedback_removals(feedback@, timer.game_id),
{
    let game_id = timer.game_id;
    let ghost of_game = |m: GameMove| m.game_id == game_id;
    let ghost about_game = |f: Feedback| f.game_id == game_id;
    let ghost head = seq![Action::DeleteGame { game_id }];
    let mut actions: Vec<Action> = Vec::new();
    actions.push(Action::DeleteGame { game_id });
    let mut i: usize = 0;
    proof {
        reveal(Seq::filter);
        assert(moves@.take(0) =~= Seq::<GameMove>::empty());
        assert(actions@ =~= head + move_removals(moves@.take(0), game_id));
    }
    while i < moves.len()
        invariant
            i <= moves.len(),
            game_id == timer.game_id,
            head == seq![Action::DeleteGame { game_id }],
            actions@ == head + move_removals(moves@.take(i as int), game_id),
        decreases moves.len() - i,
    {
        let gm = moves[i];
        proof {
            reveal(Seq::filter);
            assert(moves@.take(i + 1).drop_last() =~= moves@.take(i as int));
            assert(moves@.take(i + 1).last() == gm);
        }
        if gm.game_id == game_id {
            actions.push(Action::DeleteMove { id: gm.id });
        }
        i += 1;
        proof {
            assert(actions@ =~= head + move_removals(moves@.take(i as int), game_id));
        }
    }
    let ghost front = actions@;
    let mut j: usize = 0;
    proof {
        reveal(Seq::filter);
        assert(moves@.take(i as int) =~= moves@);
        assert(feedback@.take(0) =~= Seq::<Feedback>::empty());
        assert(actions@ =~= front + feedback_removals(feedback@.take(0), game_id));
    }
    while j < feedback.len()
        invariant
            j <= feedback.len(),
            game_id == timer.game_id,
            front == head + move_removals(moves@, game_id),
            actions@ == front + feedback_removals(feedback@.take(j as int), game_id),
        decreases feedback.len() - j,
    {
        proof {
            reveal(Seq::filter);
            assert(feedback@.take(j + 1).drop_last() =~= feedback@.take(j as int));
            assert(feedback@.take(j + 1).last() == feedback@[j as int]);
        }
        if feedback[j].game_id == game_id {
            actions.push(Action::DeleteFeedback { id: feedback[j].id });
        }
        j += 1;
        proof {
            assert(actions@ =~= front + feedback_removals(feedback@.take(j as int), game_id));
        }
    }
    proof {
        assert(feedback@.take(j as int) =~= feedback@);
    }
    actions
}

} // verus!
