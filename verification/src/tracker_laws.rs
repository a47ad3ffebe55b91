//! What holds of every decision, and of every cycle of recovery.

use crate::sessions::{SessionErrorKind, SessionView};
use crate::settings::AppSettings;
use crate::tracker;
use crate::tracker::{CycleView, SessionDecision, TrackerView, EPISODE, SECOND};
use vstd::prelude::*;

verus! {

/// A turn that was retried is not retried again, and not taken for another attempt, at any time
/// and under any settings: while the log still ends with it, its session is passed over.
pub proof fn turn_is_retried_once(
    session: SessionView,
    before: TrackerView,
    settings: AppSettings,
    now: int,
    later_settings: AppSettings,
    later: int,
)
    requires
        tracker::decision_for(session, before, settings, now) is Retry,
    ensures
        ({
            let after = tracker::tracker_after(session, before, settings, now);
            tracker::decision_for(session, after, later_settings, later) is Pass
        }),
{
}

/// The decision for one session leaves what is remembered of another as it is.
pub proof fn sessions_are_tracked_apart(
    session: SessionView,
    other: Seq<char>,
    before: TrackerView,
    settings: AppSettings,
    now: int,
)
    requires
        other != session.session_id,
    ensures
        ({
            let after = tracker::tracker_after(session, before, settings, now);
            &&& after.retries.contains_key(other) == before.retries.contains_key(other)
            &&& before.retries.contains_key(other) ==> after.retries[other]
                == before.retries[other]
            &&& after.attempts_at(other, now) == before.attempts_at(other, now)
        }),
{
}

/// Attempts are counted from one, up to the most that are allowed.
pub proof fn attempts_are_bounded(
    session: SessionView,
    before: TrackerView,
    settings: AppSettings,
    now: int,
)
    requires
        before.attempts_at(session.session_id, now).attempts >= 0,
    ensures
        tracker::decision_for(session, before, settings, now) matches SessionDecision::Retry(n)
            ==> 1 <= n <= settings.auto_retry_capacity_max_attempts,
{
}

/// Between two attempts in a row at least the initial delay passes as often as the second of them
/// is an attempt in a row, and at least that many seconds.
pub proof fn attempts_are_spaced(
    session: SessionView,
    before: TrackerView,
    settings: AppSettings,
    now: int,
)
    requires
        before.attempts_at(session.session_id, now).attempts >= 0,
    ensures
        tracker::decision_for(session, before, settings, now) matches SessionDecision::Retry(n)
            ==> ({
            let passed = tracker::elapsed(now, before.attempts_at(session.session_id, now).at);
            &&& passed >= settings.auto_retry_capacity_initial_delay_sec * n * SECOND
            &&& passed >= n * SECOND
        }),
{
    let initial = settings.auto_retry_capacity_initial_delay_sec;
    if let SessionDecision::Retry(n) = tracker::decision_for(session, before, settings, now) {
        if initial > 0 {
            assert(initial * n * SECOND >= n * SECOND) by (nonlinear_arith)
                requires
                    initial >= 1,
                    n >= 0,
            ;
        } else {
            assert(initial * n * SECOND == 0) by (nonlinear_arith)
                requires
                    initial == 0,
            ;
            assert(1 * n * SECOND == n * SECOND);
        }
    }
}

/// A session is retried under the next number as long as the attempts follow one another, and as
/// the first again after a long while.
pub proof fn attempts_are_counted_in_a_row(
    session: SessionView,
    before: TrackerView,
    settings: AppSettings,
    now: int,
)
    requires
        before.retries.contains_key(session.session_id),
    ensures
        tracker::decision_for(session, before, settings, now) matches SessionDecision::Retry(n)
            ==> n == 1 + if tracker::elapsed(now, before.retries[session.session_id].at)
            > EPISODE {
            0
        } else {
            before.retries[session.session_id].attempts
        },
{
}

/// The account of a session that found the servers overloaded is switched only after the most
/// attempts that are allowed, and where that is wanted; the attempts are forgotten with it.
pub proof fn escalation_comes_last(
    session: SessionView,
    before: TrackerView,
    settings: AppSettings,
    now: int,
)
    requires
        session.last_error matches Some(error) && error.kind == SessionErrorKind::ServerOverloaded,
        tracker::decision_for(session, before, settings, now) is Switch,
    ensures
        before.attempts_at(session.session_id, now).attempts
            >= settings.auto_retry_capacity_max_attempts,
        settings.auto_retry_capacity_escalate_to_switch,
        !tracker::tracker_after(session, before, settings, now).retries.contains_key(
            session.session_id,
        ),
{
}

/// A usage limit that was dealt with is not dealt with again while the log still ends with it.
pub proof fn handled_limit_is_passed_over(
    session: SessionView,
    before: TrackerView,
    settings: AppSettings,
    now: int,
)
    requires
        session.last_error matches Some(error) && error.kind
            == SessionErrorKind::UsageLimitExceeded,
    ensures
        tracker::decision_for(session, before.with_handled(session), settings, now) is Pass,
{
}

/// A new turn that hits the limit is dealt with, whatever turn was dealt with before.
pub proof fn new_limit_is_dealt_with(
    session: SessionView,
    turn: Seq<char>,
    before: TrackerView,
    settings: AppSettings,
    now: int,
)
    requires
        session.last_error matches Some(error) && error.kind
            == SessionErrorKind::UsageLimitExceeded,
        settings.auto_switch_limit_enabled,
        before.is_handled(session.session_id, turn),
        session.turn_key() != turn,
    ensures
        tracker::decision_for(session, before, settings, now) is Switch,
{
}

/// What is switched off is not done.
pub proof fn disabled_recovery_does_nothing(
    session: SessionView,
    before: TrackerView,
    settings: AppSettings,
    now: int,
)
    requires
        !settings.auto_retry_capacity_enabled,
        !settings.auto_switch_limit_enabled,
    ensures
        tracker::decision_for(session, before, settings, now) is Pass,
        tracker::tracker_after(session, before, settings, now) == before,
{
}

/// A session without an error is left alone, and so is what is remembered of it: a running turn
/// does not start the count of attempts anew.
pub proof fn healthy_session_is_left_alone(
    session: SessionView,
    before: TrackerView,
    settings: AppSettings,
    now: int,
)
    requires
        session.last_error is None,
    ensures
        tracker::decision_for(session, before, settings, now) is Pass,
        tracker::tracker_after(session, before, settings, now) == before,
{
}

/// The session that a cycle does something for.
pub open spec fn acted_on(decision: CycleView) -> Option<int> {
    match decision {
        CycleView::Nothing => None,
        CycleView::Retry(index, _) => Some(index),
        CycleView::Switch(index) => Some(index),
    }
}

/// A cycle does something for at most one session, which is one of the given ones and has an
/// error, and changes only what is remembered of attempts.
pub proof fn cycle_acts_on_a_failed_session(
    list: Seq<SessionView>,
    from: int,
    before: TrackerView,
    settings: AppSettings,
    now: int,
)
    requires
        0 <= from,
    ensures
        ({
            let (decision, after) = tracker::cycle(list, from, before, settings, now);
            &&& acted_on(decision) matches Some(index) ==> from <= index < list.len()
                && list[index].last_error is Some
            &&& after == (TrackerView { retries: after.retries, ..before })
        }),
    decreases list.len() - from,
{
    if from < list.len() {
        let after = tracker::tracker_after(list[from], before, settings, now);
        cycle_acts_on_a_failed_session(list, from + 1, after, settings, now);
    }
}

/// Where no session has an error, a cycle does nothing and remembers nothing new.
pub proof fn cycle_rests_on_healthy_sessions(
    list: Seq<SessionView>,
    from: int,
    before: TrackerView,
    settings: AppSettings,
    now: int,
)
    requires
        0 <= from,
        forall|i: int| from <= i < list.len() ==> (#[trigger] list[i]).last_error is None,
    ensures
        tracker::cycle(list, from, before, settings, now) == (CycleView::Nothing, before),
    decreases list.len() - from,
{
    if from < list.len() {
        assert(list[from].last_error is None);
        cycle_rests_on_healthy_sessions(list, from + 1, before, settings, now);
    }
}

} // verus!
