//! What is remembered from one recovery to the next, and what is reported of it.

use crate::retrying;
use crate::retrying::AutoRecoveryStatus;
use crate::sessions;
use crate::sessions::{ActiveCodexSession, DetectedSessionError, RecoveryEventNotification};
use crate::tracker;
use crate::tracker::SessionTracker;
use vstd::prelude::*;

verus! {

/// The turn that ended in the last error of a session, which is `default` where none is named.
pub open spec fn failed_turn(session: ActiveCodexSession) -> Seq<char> {
    match session.last_error {
        Some(error) => match error.turn_id {
            Some(turn) => turn@,
            None => "default"@,
        },
        None => "default"@,
    }
}

/// The turn of a session is the one that ended in its last error.
pub proof fn turn_is_that_of_the_error(session: &ActiveCodexSession, r: String)
    requires
        call_ensures(ActiveCodexSession::turn_key, (session,), r),
    ensures
        r@ == failed_turn(*session),
{
}

/// A new tracker remembers nothing: no limit is taken for dealt with, no attempt was made, no
/// process was launched, and nothing has happened.
pub proof fn nothing_is_remembered_at_first(
    tracker: SessionTracker,
    session: &ActiveCodexSession,
    handled: bool,
)
    requires
        call_ensures(SessionTracker::new, (), tracker),
        call_ensures(SessionTracker::handled, (&tracker, session), handled),
    ensures
        !handled,
        forall|id: Seq<char>| !#[trigger] tracker@.retries.contains_key(id),
        tracker.managed_pids@.len() == 0,
        tracker.last_event is None,
        tracker.last_account_switch is None,
{
}

/// Once the limit of a session was dealt with, it is known to be for the same turn of the session,
/// and for no other turn of it. What is known of another session stays.
pub proof fn handled_limit_is_remembered(
    tracker: &mut SessionTracker,
    session: &ActiveCodexSession,
    other: &ActiveCodexSession,
    before: bool,
    after: bool,
)
    requires
        call_ensures(SessionTracker::mark_handled, (tracker, session), ()),
        call_ensures(SessionTracker::handled, (old(tracker), other), before),
        call_ensures(SessionTracker::handled, (final(tracker), other), after),
    ensures
        other.session_id@ == session.session_id@ ==> (after <==> failed_turn(*other)
            == failed_turn(*session)),
        other.session_id@ != session.session_id@ ==> after == before,
        final(tracker)@.retries == old(tracker)@.retries,
        final(tracker)@.managed == old(tracker)@.managed,
        final(tracker)@.last_event == old(tracker)@.last_event,
        final(tracker)@.last_switch == old(tracker)@.last_switch,
{
}

/// The last change of account is remembered with its time, its account and how it came about; the
/// rest stays.
pub proof fn last_change_is_remembered(
    tracker: &mut SessionTracker,
    at: u64,
    account_id: String,
    by_reset_credit: bool,
)
    requires
        call_ensures(SessionTracker::note_switch, (tracker, at, account_id, by_reset_credit), ()),
    ensures
        final(tracker).last_account_switch matches Some(change) && change.at == at
            && change.account_id@ == account_id@ && change.by_reset_credit == by_reset_credit,
        final(tracker)@.retries == old(tracker)@.retries,
        final(tracker)@.handled == old(tracker)@.handled,
        final(tracker)@.managed == old(tracker)@.managed,
        final(tracker)@.last_event == old(tracker)@.last_event,
{
    let change = final(tracker).last_account_switch;
    assert(final(tracker)@.last_switch == tracker::opt_switch(change));
}

/// The last event is remembered; the rest stays.
pub proof fn last_event_is_remembered(
    tracker: &mut SessionTracker,
    event: &RecoveryEventNotification,
)
    requires
        call_ensures(SessionTracker::note_event, (tracker, event), ()),
    ensures
        final(tracker).last_event matches Some(last) && last.event_type@ == event.event_type@
            && last.session_id@ == event.session_id@ && last.message@ == event.message@
            && last.timestamp == event.timestamp,
        final(tracker)@.retries == old(tracker)@.retries,
        final(tracker)@.handled == old(tracker)@.handled,
        final(tracker)@.managed == old(tracker)@.managed,
        final(tracker)@.last_switch == old(tracker)@.last_switch,
{
    let last = final(tracker).last_event;
    assert(final(tracker)@.last_event == sessions::opt_event(last));
}

/// The processes that were launched are remembered in their order; the rest stays.
pub proof fn launched_process_is_remembered(tracker: &mut SessionTracker, pid: u32)
    requires
        call_ensures(SessionTracker::note_launched, (tracker, pid), ()),
    ensures
        final(tracker).managed_pids@ == old(tracker).managed_pids@ + seq![pid],
        final(tracker)@.retries == old(tracker)@.retries,
        final(tracker)@.handled == old(tracker)@.handled,
        final(tracker)@.last_event == old(tracker)@.last_event,
        final(tracker)@.last_switch == old(tracker)@.last_switch,
{
    assert(old(tracker)@.managed.push(pid) =~= old(tracker)@.managed + seq![pid]);
}

/// Time passes from a reading of the clock to a later one, and none from a later one.
pub proof fn time_passes(now: u64, at: i128, r: i128)
    requires
        call_ensures(tracker::time_since, (now, at), r),
    ensures
        r >= 0,
        now >= at ==> at + r == now,
        now < at ==> r == 0,
{
}

/// The state that is reported counts the sessions, lists them, and names the last event.
pub proof fn state_is_reported(
    list: Vec<ActiveCodexSession>,
    tracker: &SessionTracker,
    r: AutoRecoveryStatus,
)
    requires
        call_ensures(retrying::get_auto_recovery_status, (list, tracker), r),
    ensures
        r.active_sessions_count == list@.len(),
        r.monitored_sessions@ == list@,
        r.last_recovery_event == tracker.last_event,
{
}

/// A copy of an optional text is the text.
pub proof fn copy_is_the_same(s: &Option<String>, r: Option<String>)
    requires
        call_ensures(sessions::clone_text, (s,), r),
    ensures
        r == *s,
{
}

/// What is told of a session, an error or an event is all that is known of it.
pub proof fn nothing_is_left_untold(
    session: ActiveCodexSession,
    error: DetectedSessionError,
    event: RecoveryEventNotification,
    tracker: SessionTracker,
    id: Seq<char>,
)
    ensures
        session@.session_id == session.session_id@,
        session@.pid == session.pid,
        session.cwd is Some <==> session@.cwd is Some,
        session.cwd matches Some(dir) ==> session@.cwd == Some(dir@),
        session.rollout_path is Some <==> session@.rollout_path is Some,
        session.rollout_path matches Some(path) ==> session@.rollout_path == Some(path@),
        session.last_error is Some <==> session@.last_error is Some,
        session.last_error matches Some(last) ==> session@.last_error == Some(last@),
        session@.is_managed == session.is_managed,
        session@.is_desktop == session.is_desktop,
        error@.kind == error.kind,
        error@.session_id == error.session_id@,
        error.turn_id is Some <==> error@.turn_id is Some,
        error.turn_id matches Some(turn) ==> error@.turn_id == Some(turn@),
        error@.message == error.message@,
        error@.detected_at == error.detected_at,
        event@.event_type == event.event_type@,
        event@.session_id == event.session_id@,
        event@.message == event.message@,
        event@.timestamp == event.timestamp,
        tracker@.retries.contains_key(id) == tracker.capacity_retries@.contains_key(id),
        tracker.capacity_retries@.contains_key(id) ==> {
            let known = tracker@.retries[id];
            let kept = tracker.capacity_retries@[id];
            known.attempts == kept.attempts && known.at == kept.at
        },
        tracker@.handled.contains_key(id) == tracker.handled_usage_limits@.contains_key(id),
        tracker.handled_usage_limits@.contains_key(id) ==> tracker@.handled[id]
            == tracker.handled_usage_limits@[id]@,
{
}

} // verus!
