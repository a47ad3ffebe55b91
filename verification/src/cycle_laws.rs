//! For which session a cycle of recovery does something, and what.

use crate::moment::Moment;
use crate::errors::RecoveryError;
use crate::retrying::{RetryQueueStage, RetryStage};
use crate::sessions::{
    ActiveCodexSession, RecoveryEventNotification, SessionErrorKind, SessionView,
};
use crate::settings::AppSettings;
use crate::text;
use crate::tracker;
use crate::tracker::{CycleDecision, CycleView, RetryView, SessionTracker, TrackerView};
use vstd::prelude::*;

verus! {

// ---------------------------------------------------------------------------
// What a session is in need of
// ---------------------------------------------------------------------------

/// The last turn of the session ended because the servers were overloaded.
pub open spec fn is_overloaded(session: SessionView) -> bool {
    session.last_error matches Some(error) && error.kind == SessionErrorKind::ServerOverloaded
}

/// The last turn of the session ended at the usage limit.
pub open spec fn is_limited(session: SessionView) -> bool {
    session.last_error matches Some(error) && error.kind == SessionErrorKind::UsageLimitExceeded
}

/// The turn that ended because the servers were overloaded.
pub open spec fn overloaded_turn(session: SessionView) -> Seq<char> {
    match session.last_error->0.turn_id {
        Some(turn) => turn,
        None => "unknown_turn"@,
    }
}

/// When the session was last retried, on the monotonic clock; five minutes ago where it never was.
pub open spec fn last_attempt(tracker: TrackerView, id: Seq<char>, now: int) -> int {
    if tracker.retries.contains_key(id) {
        tracker.retries[id].at
    } else {
        now - 300_000_000_000
    }
}

/// How often in a row the session was retried: the count starts anew three minutes after the last
/// time.
pub open spec fn attempts_in_a_row(tracker: TrackerView, id: Seq<char>, now: int) -> int {
    if tracker.retries.contains_key(id) && now - tracker.retries[id].at <= 180_000_000_000 {
        tracker.retries[id].attempts
    } else {
        0
    }
}

/// The turn that ended was retried already.
pub open spec fn was_retried(tracker: TrackerView, session: SessionView) -> bool {
    tracker.retries.contains_key(session.session_id) && tracker.retries[session.session_id].turn
        == Some(overloaded_turn(session))
}

/// The initial delay, of at least a second, has passed since the last attempt: as often as the
/// next one is an attempt in a row.
pub open spec fn delay_has_passed(
    tracker: TrackerView,
    session: SessionView,
    settings: AppSettings,
    now: int,
) -> bool {
    let initial: int = if settings.auto_retry_capacity_initial_delay_sec == 0 {
        1
    } else {
        settings.auto_retry_capacity_initial_delay_sec as int
    };
    now - last_attempt(tracker, session.session_id, now) >= initial * (attempts_in_a_row(
        tracker,
        session.session_id,
        now,
    ) + 1) * 1_000_000_000
}

/// Something is to be done for a session that found the servers overloaded.
pub open spec fn is_due(
    tracker: TrackerView,
    session: SessionView,
    settings: AppSettings,
    now: int,
) -> bool {
    &&& is_overloaded(session)
    &&& settings.auto_retry_capacity_enabled
    &&& !was_retried(tracker, session)
    &&& delay_has_passed(tracker, session, settings, now)
}

/// The session is to be told to continue: it is due, and fewer than the allowed attempts were made.
pub open spec fn needs_retry(
    tracker: TrackerView,
    session: SessionView,
    settings: AppSettings,
    now: int,
) -> bool {
    is_due(tracker, session, settings, now) && attempts_in_a_row(tracker, session.session_id, now)
        < settings.auto_retry_capacity_max_attempts
}

/// The account of the session is to be switched: it is due, the allowed attempts are used up, and
/// that is wanted then; or it hit its usage limit in a turn that was not dealt with, and that is
/// wanted then.
pub open spec fn needs_switch(
    tracker: TrackerView,
    session: SessionView,
    settings: AppSettings,
    now: int,
) -> bool {
    ||| {
        &&& is_due(tracker, session, settings, now)
        &&& attempts_in_a_row(tracker, session.session_id, now)
            >= settings.auto_retry_capacity_max_attempts
        &&& settings.auto_retry_capacity_escalate_to_switch
    }
    ||| {
        &&& is_limited(session)
        &&& settings.auto_switch_limit_enabled
        &&& !(tracker.handled.contains_key(session.session_id)
            && tracker.handled[session.session_id] == match session.last_error->0.turn_id {
            Some(turn) => turn,
            None => "default"@,
        })
    }
}

/// No two of the sessions have the same id.
pub open spec fn are_distinct(list: Seq<SessionView>) -> bool {
    forall|i: int, j: int|
        0 <= i < j < list.len() ==> (#[trigger] list[i]).session_id != (
        #[trigger] list[j]).session_id
}

/// The same is remembered of a session.
spec fn agree(a: TrackerView, b: TrackerView, id: Seq<char>) -> bool {
    &&& a.retries.contains_key(id) == b.retries.contains_key(id)
    &&& b.retries.contains_key(id) ==> a.retries[id] == b.retries[id]
    &&& a.handled == b.handled
}

proof fn lemma_decision(
    session: SessionView,
    before: TrackerView,
    settings: AppSettings,
    now: int,
)
    requires
        before.retries.contains_key(session.session_id)
            ==> before.retries[session.session_id].attempts >= 0,
    ensures
        tracker::decision_for(session, before, settings, now) == (if needs_retry(
            before,
            session,
            settings,
            now,
        ) {
            tracker::SessionDecision::Retry(
                attempts_in_a_row(before, session.session_id, now) + 1,
            )
        } else if needs_switch(before, session, settings, now) {
            tracker::SessionDecision::Switch
        } else {
            tracker::SessionDecision::Pass
        }),
        is_overloaded(session) && settings.auto_retry_capacity_enabled ==> {
            let known = before.attempts_at(session.session_id, now);
            &&& known.attempts == attempts_in_a_row(before, session.session_id, now)
            &&& known.at == last_attempt(before, session.session_id, now)
            &&& known.turn == (if before.retries.contains_key(session.session_id) {
                before.retries[session.session_id].turn
            } else {
                None
            })
        },
{
    let id = session.session_id;
    let known = before.attempts_at(id, now);
    assert(known.attempts == attempts_in_a_row(before, id, now));
    assert(known.at == last_attempt(before, id, now));
    if is_overloaded(session) {
        let initial: int = if settings.auto_retry_capacity_initial_delay_sec == 0 {
            1
        } else {
            settings.auto_retry_capacity_initial_delay_sec as int
        };
        let times = known.attempts + 1;
        assert(initial * times * 1_000_000_000 > 0) by (nonlinear_arith)
            requires
                initial >= 1,
                times >= 1,
        ;
        assert(tracker::retry_delay(settings, known.attempts) == initial * times * 1_000_000_000);
    }
}

/// What a cycle does is what the first session in need is in need of.
spec fn serves_first(
    list: Seq<SessionView>,
    from: int,
    before: TrackerView,
    settings: AppSettings,
    now: int,
    decision: CycleView,
) -> bool {
    match decision {
        CycleView::Nothing => forall|k: int|
            from <= k < list.len() ==> !needs_retry(before, #[trigger] list[k], settings, now)
                && !needs_switch(before, list[k], settings, now),
        CycleView::Retry(i, n) => {
            &&& from <= i < list.len()
            &&& needs_retry(before, list[i], settings, now)
            &&& n == attempts_in_a_row(before, list[i].session_id, now) + 1
            &&& forall|k: int|
                from <= k < i ==> !needs_retry(before, #[trigger] list[k], settings, now)
                    && !needs_switch(before, list[k], settings, now)
        },
        CycleView::Switch(i) => {
            &&& from <= i < list.len()
            &&& needs_switch(before, list[i], settings, now)
            &&& forall|k: int|
                from <= k < i ==> !needs_retry(before, #[trigger] list[k], settings, now)
                    && !needs_switch(before, list[k], settings, now)
        },
    }
}

proof fn lemma_same_needs(
    a: TrackerView,
    b: TrackerView,
    session: SessionView,
    settings: AppSettings,
    now: int,
)
    requires
        agree(a, b, session.session_id),
    ensures
        needs_retry(a, session, settings, now) == needs_retry(b, session, settings, now),
        needs_switch(a, session, settings, now) == needs_switch(b, session, settings, now),
        attempts_in_a_row(a, session.session_id, now) == attempts_in_a_row(
            b,
            session.session_id,
            now,
        ),
{
}

proof fn lemma_cycle(
    list: Seq<SessionView>,
    from: int,
    current: TrackerView,
    before: TrackerView,
    settings: AppSettings,
    now: int,
)
    requires
        0 <= from,
        are_distinct(list),
        forall|id: Seq<char>| #[trigger]
            before.retries.contains_key(id) ==> before.retries[id].attempts >= 0,
        forall|k: int|
            from <= k < list.len() ==> agree(current, before, (#[trigger] list[k]).session_id),
    ensures
        serves_first(
            list,
            from,
            before,
            settings,
            now,
            tracker::cycle(list, from, current, settings, now).0,
        ),
    decreases list.len() - from,
{
    if from < list.len() {
        let session = list[from];
        let after = tracker::tracker_after(session, current, settings, now);
        assert(agree(current, before, session.session_id));
        lemma_same_needs(current, before, session, settings, now);
        lemma_decision(session, current, settings, now);
        assert forall|k: int| from + 1 <= k < list.len() implies agree(
            after,
            before,
            (#[trigger] list[k]).session_id,
        ) by {
            assert(list[from].session_id != list[k].session_id);
            assert(agree(current, before, list[k].session_id));
        }
        lemma_cycle(list, from + 1, after, before, settings, now);
        let rest = tracker::cycle(list, from + 1, after, settings, now).0;
        if tracker::decision_for(session, current, settings, now) is Pass {
            assert(serves_first(list, from + 1, before, settings, now, rest));
            assert(!needs_retry(before, session, settings, now));
            assert(!needs_switch(before, session, settings, now));
        }
    }
}

/// The function that recovers decides this.
pub open spec fn decided(
    tracker: &mut SessionTracker,
    list: &Vec<ActiveCodexSession>,
    settings: &AppSettings,
    now: u64,
    r: CycleDecision,
) -> bool {
    call_ensures(tracker::check_and_recover_sessions, (tracker, list, settings, now), r)
}

proof fn lemma_views(list: &Vec<ActiveCodexSession>)
    ensures
        tracker::session_views(list@).len() == list@.len(),
        forall|k: int|
            0 <= k < list@.len() ==> #[trigger] tracker::session_views(list@)[k] == list@[k]@,
{
}

/// A session that is to be told to continue is told to, for the next time in a row, if no session
/// before it is in need; and no session is told to that is not to be.
pub proof fn first_session_to_retry_is_retried(
    tracker: &mut SessionTracker,
    list: &Vec<ActiveCodexSession>,
    settings: &AppSettings,
    now: u64,
    r: CycleDecision,
    i: int,
)
    requires
        decided(tracker, list, settings, now, r),
        are_distinct(tracker::session_views(list@)),
        0 <= i < list@.len(),
        forall|k: int|
            0 <= k < i ==> !needs_retry(
                old(tracker)@,
                (#[trigger] list@[k])@,
                *settings,
                now as int,
            ) && !needs_switch(old(tracker)@, list@[k]@, *settings, now as int),
    ensures
        needs_retry(old(tracker)@, list@[i]@, *settings, now as int) <==> (
        r matches CycleDecision::Retry { index, attempt } && index == i),
        r matches CycleDecision::Retry { index, attempt } ==> (index == i ==> attempt
            == attempts_in_a_row(old(tracker)@, list@[i].session_id@, now as int) + 1),
        needs_switch(old(tracker)@, list@[i]@, *settings, now as int) && !needs_retry(
            old(tracker)@,
            list@[i]@,
            *settings,
            now as int,
        ) <==> r == (CycleDecision::Switch { index: i as usize }),
{
    let views = tracker::session_views(list@);
    let before = old(tracker)@;
    lemma_views(list);
    lemma_known_attempts(*old(tracker));
    lemma_cycle(views, 0, before, before, *settings, now as int);
    assert(views[i] == list@[i]@);
    assert(i as usize == i) by {
        assert(list@.len() == list.len());
    }
    let decision = r@;
    assert(serves_first(views, 0, before, *settings, now as int, decision));
    match decision {
        CycleView::Nothing => {},
        CycleView::Retry(k, _) => {
            assert(views[k] == list@[k]@);
            if k < i {
                assert(!needs_retry(before, list@[k]@, *settings, now as int));
            }
        },
        CycleView::Switch(k) => {
            assert(views[k] == list@[k]@);
            if k < i {
                assert(!needs_switch(before, list@[k]@, *settings, now as int));
            }
        },
    }
}

proof fn lemma_known_attempts(tracker: SessionTracker)
    ensures
        forall|id: Seq<char>| #[trigger]
            tracker@.retries.contains_key(id) ==> tracker@.retries[id].attempts >= 0,
{
}

/// A cycle does nothing if no session is in need, and only then.
pub proof fn cycle_rests_where_no_session_is_in_need(
    tracker: &mut SessionTracker,
    list: &Vec<ActiveCodexSession>,
    settings: &AppSettings,
    now: u64,
    r: CycleDecision,
)
    requires
        decided(tracker, list, settings, now, r),
        are_distinct(tracker::session_views(list@)),
    ensures
        r == CycleDecision::Nothing <==> forall|k: int|
            0 <= k < list@.len() ==> !needs_retry(
                old(tracker)@,
                (#[trigger] list@[k])@,
                *settings,
                now as int,
            ) && !needs_switch(old(tracker)@, list@[k]@, *settings, now as int),
{
    let views = tracker::session_views(list@);
    let before = old(tracker)@;
    lemma_views(list);
    lemma_known_attempts(*old(tracker));
    lemma_cycle(views, 0, before, before, *settings, now as int);
    assert(serves_first(views, 0, before, *settings, now as int, r@));
    match r@ {
        CycleView::Nothing => {
            assert forall|k: int| 0 <= k < list@.len() implies !needs_retry(
                before,
                (#[trigger] list@[k])@,
                *settings,
                now as int,
            ) && !needs_switch(before, list@[k]@, *settings, now as int) by {
                assert(views[k] == list@[k]@);
            }
        },
        CycleView::Retry(k, _) => {
            assert(views[k] == list@[k]@);
            assert(needs_retry(before, list@[k]@, *settings, now as int));
        },
        CycleView::Switch(k) => {
            assert(views[k] == list@[k]@);
            assert(needs_switch(before, list@[k]@, *settings, now as int));
        },
    }
}

// ---------------------------------------------------------------------------
// What is remembered
// ---------------------------------------------------------------------------

proof fn lemma_unseen(
    list: Seq<SessionView>,
    from: int,
    current: TrackerView,
    settings: AppSettings,
    now: int,
    id: Seq<char>,
)
    requires
        0 <= from,
        forall|k: int| from <= k < list.len() ==> (#[trigger] list[k]).session_id != id,
    ensures
        ({
            let after = tracker::cycle(list, from, current, settings, now).1;
            &&& after == (TrackerView { retries: after.retries, ..current })
            &&& after.retries.contains_key(id) == current.retries.contains_key(id)
            &&& current.retries.contains_key(id) ==> after.retries[id] == current.retries[id]
        }),
    decreases list.len() - from,
{
    if from < list.len() {
        assert(list[from].session_id != id);
        let after = tracker::tracker_after(list[from], current, settings, now);
        lemma_unseen(list, from + 1, after, settings, now, id);
    }
}

proof fn lemma_remembered(
    list: Seq<SessionView>,
    from: int,
    current: TrackerView,
    before: TrackerView,
    settings: AppSettings,
    now: int,
    i: int,
)
    requires
        0 <= from <= i < list.len(),
        are_distinct(list),
        forall|id: Seq<char>| #[trigger]
            before.retries.contains_key(id) ==> before.retries[id].attempts >= 0,
        agree(current, before, list[i].session_id),
    ensures
        ({
            let (decision, after) = tracker::cycle(list, from, current, settings, now);
            let id = list[i].session_id;
            &&& decision == CycleView::Retry(i, attempts_in_a_row(before, id, now) + 1)
                ==> after.retries.contains_key(id) && after.retries[id] == (RetryView {
                turn: Some(overloaded_turn(list[i])),
                attempts: attempts_in_a_row(before, id, now) + 1,
                at: now,
            })
            &&& decision == CycleView::Switch(i) && is_overloaded(list[i])
                ==> !after.retries.contains_key(id)
            &&& !is_overloaded(list[i]) ==> after.retries.contains_key(id)
                == before.retries.contains_key(id) && (before.retries.contains_key(id)
                ==> after.retries[id] == before.retries[id])
        }),
    decreases list.len() - from,
{
    let session = list[from];
    let after = tracker::tracker_after(session, current, settings, now);
    if from < i {
        assert(list[from].session_id != list[i].session_id);
        lemma_remembered(list, from + 1, after, before, settings, now, i);
    } else {
        lemma_decision(session, current, settings, now);
        lemma_same_needs(current, before, session, settings, now);
        assert forall|k: int| from + 1 <= k < list.len() implies (#[trigger] list[k]).session_id
            != session.session_id by {
            assert(list[from].session_id != list[k].session_id);
        }
        lemma_unseen(list, from + 1, after, settings, now, session.session_id);
        if tracker::decision_for(session, current, settings, now) is Pass {
            lemma_index(list, from + 1, after, settings, now);
        }
    }
}

proof fn lemma_index(
    list: Seq<SessionView>,
    from: int,
    current: TrackerView,
    settings: AppSettings,
    now: int,
)
    requires
        0 <= from,
    ensures
        match tracker::cycle(list, from, current, settings, now).0 {
            CycleView::Nothing => true,
            CycleView::Retry(i, _) => i >= from,
            CycleView::Switch(i) => i >= from,
        },
    decreases list.len() - from,
{
    if from < list.len() {
        let after = tracker::tracker_after(list[from], current, settings, now);
        lemma_index(list, from + 1, after, settings, now);
    }
}

/// A session that is told to continue is remembered with the turn, the time and how often in a row
/// that was; one whose account is switched because the attempts are used up is forgotten; what is
/// remembered of one that did not find the servers overloaded stays. Nothing else is remembered
/// than attempts.
pub proof fn attempts_are_remembered(
    tracker: &mut SessionTracker,
    list: &Vec<ActiveCodexSession>,
    settings: &AppSettings,
    now: u64,
    r: CycleDecision,
    i: int,
)
    requires
        decided(tracker, list, settings, now, r),
        are_distinct(tracker::session_views(list@)),
        0 <= i < list@.len(),
    ensures
        ({
            let id = list@[i].session_id@;
            let before = old(tracker)@;
            let after = final(tracker)@;
            &&& r matches CycleDecision::Retry { index, attempt } ==> (index == i
                ==> after.retries.contains_key(id) && after.retries[id] == (RetryView {
                turn: Some(overloaded_turn(list@[i]@)),
                attempts: attempt as int,
                at: now as int,
            }))
            &&& r == (CycleDecision::Switch { index: i as usize }) && is_overloaded(list@[i]@)
                ==> !after.retries.contains_key(id)
            &&& !is_overloaded(list@[i]@) ==> after.retries.contains_key(id)
                == before.retries.contains_key(id) && (before.retries.contains_key(id)
                ==> after.retries[id] == before.retries[id])
            &&& after == (TrackerView { retries: after.retries, ..before })
        }),
{
    let views = tracker::session_views(list@);
    let before = old(tracker)@;
    lemma_views(list);
    lemma_known_attempts(*old(tracker));
    assert(views[i] == list@[i]@);
    assert(i as usize == i) by {
        assert(list@.len() == list.len());
    }
    lemma_remembered(views, 0, before, before, *settings, now as int, i);
    lemma_cycle(views, 0, before, before, *settings, now as int);
    assert(serves_first(views, 0, before, *settings, now as int, r@));
    crate::tracker_laws::cycle_acts_on_a_failed_session(views, 0, before, *settings, now as int);
}

// ---------------------------------------------------------------------------
// Telling a session to continue
// ---------------------------------------------------------------------------

/// A session that is retried is told to resume its goal, where it has an unfinished one; else what
/// the user said, without the white space around it, and `continue` where nothing is left of that.
pub proof fn retried_session_is_told_to_continue(
    stage: RetryStage,
    goal_active: bool,
    r: RetryQueueStage,
)
    requires
        call_ensures(RetryStage::looked_up, (stage, goal_active), r),
    ensures
        r.retry == stage,
        goal_active && stage.session.session_id@.len() > 0 ==> r.phrase@ == "/goal resume"@,
        !(goal_active && stage.session.session_id@.len() > 0) ==> {
            let phrase = text::trimmed(stage.settings.continue_phrase@);
            r.phrase@ == if phrase.len() > 0 {
                phrase
            } else {
                "continue"@
            }
        },
{
}

/// A session that was told to continue is reported, with how often in a row that was and how often
/// it may be; if it could not be told, that is an error, and nothing is remembered.
pub proof fn retry_is_reported(
    stage: RetryQueueStage,
    outcome: Result<(), String>,
    tracker: &mut SessionTracker,
    now: Moment,
    r: Result<RecoveryEventNotification, RecoveryError>,
)
    requires
        call_ensures(RetryQueueStage::queued_at, (stage, outcome, tracker, now), r),
    ensures
        match outcome {
            Err(message) => {
                &&& r == Err::<RecoveryEventNotification, RecoveryError>(
                    RecoveryError::Outside(message),
                )
                &&& final(tracker)@ == old(tracker)@
            },
            Ok(_) => r matches Ok(event) && {
                &&& event.event_type@ == "capacity_retry"@
                &&& event.session_id@ == stage.retry.session.session_id@
                &&& event.timestamp == now
                &&& event.message@ == "Server overloaded. Sent automatic retry (attempt "@
                    + text::decimal_of(stage.retry.attempt as nat) + "/"@ + text::decimal_of(
                    stage.retry.settings.auto_retry_capacity_max_attempts as nat,
                ) + ") with '"@ + stage.phrase@ + "'"@
                &&& final(tracker)@ == (TrackerView { last_event: Some(event@), ..old(tracker)@ })
            },
        },
{
}

// ---------------------------------------------------------------------------
// Sessions in turn
// ---------------------------------------------------------------------------

proof fn lemma_first_sessions(
    a: Seq<SessionView>,
    b: Seq<SessionView>,
    from: int,
    current: TrackerView,
    settings: AppSettings,
    now: int,
)
    requires
        0 <= from <= a.len(),
    ensures
        ({
            let (first, after) = tracker::cycle(a, from, current, settings, now);
            let whole = tracker::cycle(a + b, from, current, settings, now);
            if first is Nothing {
                whole == tracker::cycle(a + b, a.len() as int, after, settings, now)
            } else {
                whole == (first, after)
            }
        }),
    decreases a.len() - from,
{
    if from < a.len() {
        assert((a + b)[from] == a[from]);
        let after = tracker::tracker_after(a[from], current, settings, now);
        lemma_first_sessions(a, b, from + 1, after, settings, now);
    }
}

/// The decision, for sessions that stand so many places later.
spec fn moved(decision: CycleView, places: int) -> CycleView {
    match decision {
        CycleView::Nothing => CycleView::Nothing,
        CycleView::Retry(i, n) => CycleView::Retry(i + places, n),
        CycleView::Switch(i) => CycleView::Switch(i + places),
    }
}

proof fn lemma_other_sessions(
    a: Seq<SessionView>,
    b: Seq<SessionView>,
    from: int,
    current: TrackerView,
    settings: AppSettings,
    now: int,
)
    requires
        0 <= from <= b.len(),
    ensures
        ({
            let (rest, after) = tracker::cycle(b, from, current, settings, now);
            tracker::cycle(a + b, a.len() + from, current, settings, now) == (
                moved(rest, a.len() as int),
                after,
            )
        }),
    decreases b.len() - from,
{
    if from < b.len() {
        assert((a + b)[a.len() + from] == b[from]);
        let after = tracker::tracker_after(b[from], current, settings, now);
        lemma_other_sessions(a, b, from + 1, after, settings, now);
    }
}

/// Sessions are looked at in turn, whatever their ids: what is done for the first ones of a list is
/// what would be done for them alone. Where that is nothing, the others are looked at, as they would
/// be alone after that.
pub proof fn sessions_are_looked_at_in_turn(
    tracker: &mut SessionTracker,
    list: &Vec<ActiveCodexSession>,
    r: CycleDecision,
    of_first: &mut SessionTracker,
    first: &Vec<ActiveCodexSession>,
    in_first: CycleDecision,
    of_others: &mut SessionTracker,
    others: &Vec<ActiveCodexSession>,
    in_others: CycleDecision,
    settings: &AppSettings,
    now: u64,
)
    requires
        list@ == first@ + others@,
        decided(tracker, list, settings, now, r),
        decided(of_first, first, settings, now, in_first),
        decided(of_others, others, settings, now, in_others),
        old(of_first)@ == old(tracker)@,
        old(of_others)@ == final(of_first)@,
    ensures
        in_first != CycleDecision::Nothing ==> r == in_first,
        in_first != CycleDecision::Nothing ==> final(tracker)@ == final(of_first)@,
        in_first == CycleDecision::Nothing ==> final(tracker)@ == final(of_others)@
            && match in_others {
            CycleDecision::Nothing => r == CycleDecision::Nothing,
            CycleDecision::Retry { index, attempt } => r matches CycleDecision::Retry {
                index: place,
                attempt: time,
            } && place == first@.len() + index && time == attempt,
            CycleDecision::Switch { index } => r matches CycleDecision::Switch { index: place }
                && place == first@.len() + index,
        },
{
    let a = tracker::session_views(first@);
    let b = tracker::session_views(others@);
    assert(tracker::session_views(list@) =~= a + b);
    lemma_first_sessions(a, b, 0, old(tracker)@, *settings, now as int);
    lemma_other_sessions(a, b, 0, old(of_others)@, *settings, now as int);
    let view = r@;
}

/// A retry is reported in the same way just now, with the time of the report.
pub proof fn retry_is_reported_now(
    stage: RetryQueueStage,
    outcome: Result<(), String>,
    tracker: &mut SessionTracker,
    r: Result<RecoveryEventNotification, RecoveryError>,
)
    requires
        call_ensures(RetryQueueStage::queued, (stage, outcome, tracker), r),
    ensures
        match outcome {
            Err(message) => {
                &&& r == Err::<RecoveryEventNotification, RecoveryError>(
                    RecoveryError::Outside(message),
                )
                &&& final(tracker)@ == old(tracker)@
            },
            Ok(_) => r matches Ok(event) && {
                &&& event.event_type@ == "capacity_retry"@
                &&& event.session_id@ == stage.retry.session.session_id@
                &&& event.message@ == "Server overloaded. Sent automatic retry (attempt "@
                    + text::decimal_of(stage.retry.attempt as nat) + "/"@ + text::decimal_of(
                    stage.retry.settings.auto_retry_capacity_max_attempts as nat,
                ) + ") with '"@ + stage.phrase@ + "'"@
                &&& final(tracker)@ == (TrackerView { last_event: Some(event@), ..old(tracker)@ })
            },
        },
{
}

} // verus!
