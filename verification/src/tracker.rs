//! What is remembered from one recovery to the next, and what a cycle of recovery decides from it.

use crate::sessions;
use crate::sessions::{
    ActiveCodexSession, ErrorView, EventView, RecoveryEventNotification, SessionErrorKind,
    SessionView,
};
use crate::settings::AppSettings;
use crate::text;
use vstd::hash_map::StringHashMap;
use vstd::prelude::*;

verus! {

/// A second on the monotonic clock, which counts nanoseconds.
pub const SECOND: u64 = 1_000_000_000;

/// So long after the last attempt, attempts are counted anew.
pub const EPISODE: u64 = 180_000_000_000;

/// So long ago a session that was never retried counts as having been.
pub const LONG_AGO: u64 = 300_000_000_000;

/// So long after an account was switched, errors of sessions are those of the account before.
pub const SETTLING: u64 = 20_000_000_000;

/// The time since a reading of the monotonic clock; none where that reading is the later one.
pub open spec fn elapsed(now: int, at: int) -> int {
    if now > at {
        now - at
    } else {
        0
    }
}

/// The attempts to retry a session that found the servers overloaded.
#[derive(Debug)]
pub struct CapacityRetry {
    /// The turn that was retried last.
    pub turn_id: Option<String>,
    /// How often in a row a turn was retried.
    pub attempts: u32,
    /// When that was, on the monotonic clock.
    pub at: i128,
}

/// What a `CapacityRetry` says.
pub struct RetryView {
    pub turn: Option<Seq<char>>,
    pub attempts: int,
    pub at: int,
}

impl View for CapacityRetry {
    type V = RetryView;

    open spec fn view(&self) -> RetryView {
        RetryView {
            turn: text::opt_text(self.turn_id),
            attempts: self.attempts as int,
            at: self.at as int,
        }
    }
}

/// The last change of what the sessions run on.
#[derive(Debug)]
pub struct AccountSwitch {
    /// When it was, on the monotonic clock.
    pub at: u64,
    /// The account that is in use since.
    pub account_id: String,
    /// The account was not changed: a reset credit restored its limits.
    pub by_reset_credit: bool,
}

/// What an `AccountSwitch` says.
pub struct SwitchView {
    pub at: int,
    pub account_id: Seq<char>,
    pub by_reset_credit: bool,
}

impl View for AccountSwitch {
    type V = SwitchView;

    open spec fn view(&self) -> SwitchView {
        SwitchView {
            at: self.at as int,
            account_id: self.account_id@,
            by_reset_credit: self.by_reset_credit,
        }
    }
}

impl Clone for AccountSwitch {
    fn clone(&self) -> (r: Self)
        ensures
            r == *self,
    {
        AccountSwitch {
            at: self.at,
            account_id: self.account_id.clone(),
            by_reset_credit: self.by_reset_credit,
        }
    }
}

/// What is remembered from one recovery to the next.
pub struct SessionTracker {
    /// The attempts to retry, by session.
    pub capacity_retries: StringHashMap<CapacityRetry>,
    /// The turn whose usage limit was dealt with last, by session.
    pub handled_usage_limits: StringHashMap<String>,
    /// The processes that were launched from here.
    pub managed_pids: Vec<u32>,
    pub last_event: Option<RecoveryEventNotification>,
    pub last_account_switch: Option<AccountSwitch>,
}

/// What a `SessionTracker` holds.
#[verifier::ext_equal]
pub struct TrackerView {
    pub retries: Map<Seq<char>, RetryView>,
    pub handled: Map<Seq<char>, Seq<char>>,
    pub managed: Seq<u32>,
    pub last_event: Option<EventView>,
    pub last_switch: Option<SwitchView>,
}

/// What an optional change says.
pub open spec fn opt_switch(change: Option<AccountSwitch>) -> Option<SwitchView> {
    match change {
        Some(c) => Some(c@),
        None => None,
    }
}

impl View for SessionTracker {
    type V = TrackerView;

    open spec fn view(&self) -> TrackerView {
        TrackerView {
            retries: self.capacity_retries@.map_values(|retry: CapacityRetry| retry@),
            handled: self.handled_usage_limits@.map_values(|turn: String| turn@),
            managed: self.managed_pids@,
            last_event: sessions::opt_event(self.last_event),
            last_switch: opt_switch(self.last_account_switch),
        }
    }
}

impl TrackerView {
    /// Nothing is remembered.
    pub open spec fn empty() -> TrackerView {
        TrackerView {
            retries: Map::empty(),
            handled: Map::empty(),
            managed: Seq::empty(),
            last_event: None,
            last_switch: None,
        }
    }

    /// The usage limit that ended the given turn of a session was dealt with.
    pub open spec fn is_handled(self, session_id: Seq<char>, turn: Seq<char>) -> bool {
        self.handled.contains_key(session_id) && self.handled[session_id] == turn
    }

    /// The usage limit of the session is dealt with.
    pub open spec fn with_handled(self, session: SessionView) -> TrackerView {
        TrackerView {
            handled: self.handled.insert(session.session_id, session.turn_key()),
            ..self
        }
    }

    /// The change is the last one.
    pub open spec fn with_switch(self, change: SwitchView) -> TrackerView {
        TrackerView { last_switch: Some(change), ..self }
    }

    /// The event is the last one.
    pub open spec fn with_event(self, event: EventView) -> TrackerView {
        TrackerView { last_event: Some(event), ..self }
    }

    /// The attempts of a session at the given time, counted anew after a long while.
    pub open spec fn attempts_at(self, session_id: Seq<char>, now: int) -> RetryView {
        let known = if self.retries.contains_key(session_id) {
            self.retries[session_id]
        } else {
            RetryView { turn: None, attempts: 0, at: now - LONG_AGO }
        };
        if elapsed(now, known.at) > EPISODE {
            RetryView { attempts: 0, ..known }
        } else {
            known
        }
    }
}

// ---------------------------------------------------------------------------
// The decision for one session
// ---------------------------------------------------------------------------

/// What is done for a session.
pub enum SessionDecision {
    /// Nothing.
    Pass,
    /// It is told to continue, for the given time in a row.
    Retry(int),
    /// Its account is switched.
    Switch,
}

/// The turn that an error ended; `unknown_turn` where the log does not name it.
pub open spec fn failed_turn(error: ErrorView) -> Seq<char> {
    match error.turn_id {
        Some(turn) => turn,
        None => "unknown_turn"@,
    }
}

/// The time that must have passed before the next attempt: so many times the initial delay, of
/// at least a second, as it is an attempt in a row.
pub open spec fn retry_delay(settings: AppSettings, attempts: int) -> int {
    let initial = settings.auto_retry_capacity_initial_delay_sec;
    (if initial == 0 {
        1
    } else {
        initial as int
    }) * (attempts + 1) * SECOND
}

/// What is done for a session that found the servers overloaded, after the given attempts.
pub open spec fn capacity_decision(
    retry: RetryView,
    turn: Seq<char>,
    settings: AppSettings,
    now: int,
) -> SessionDecision {
    if retry.turn == Some(turn) || elapsed(now, retry.at) < retry_delay(settings, retry.attempts) {
        SessionDecision::Pass
    } else if retry.attempts < settings.auto_retry_capacity_max_attempts {
        SessionDecision::Retry(retry.attempts + 1)
    } else if settings.auto_retry_capacity_escalate_to_switch {
        SessionDecision::Switch
    } else {
        SessionDecision::Pass
    }
}

/// What is remembered of the attempts of a session after a decision.
pub open spec fn retries_after(
    tracker: TrackerView,
    session_id: Seq<char>,
    turn: Seq<char>,
    decision: SessionDecision,
    now: int,
) -> Map<Seq<char>, RetryView> {
    match decision {
        SessionDecision::Pass => tracker.retries.insert(
            session_id,
            tracker.attempts_at(session_id, now),
        ),
        SessionDecision::Retry(attempt) => tracker.retries.insert(
            session_id,
            RetryView { turn: Some(turn), attempts: attempt, at: now },
        ),
        SessionDecision::Switch => tracker.retries.remove(session_id),
    }
}

/// What is done for a session.
pub open spec fn decision_for(
    session: SessionView,
    tracker: TrackerView,
    settings: AppSettings,
    now: int,
) -> SessionDecision {
    match session.last_error {
        None => SessionDecision::Pass,
        Some(error) => match error.kind {
            SessionErrorKind::ServerOverloaded => if settings.auto_retry_capacity_enabled {
                capacity_decision(
                    tracker.attempts_at(session.session_id, now),
                    failed_turn(error),
                    settings,
                    now,
                )
            } else {
                SessionDecision::Pass
            },
            SessionErrorKind::UsageLimitExceeded => if settings.auto_switch_limit_enabled
                && !tracker.is_handled(session.session_id, session.turn_key()) {
                SessionDecision::Switch
            } else {
                SessionDecision::Pass
            },
        },
    }
}

/// What is remembered after the decision for a session.
pub open spec fn tracker_after(
    session: SessionView,
    tracker: TrackerView,
    settings: AppSettings,
    now: int,
) -> TrackerView {
    match session.last_error {
        Some(error) if error.kind == SessionErrorKind::ServerOverloaded
            && settings.auto_retry_capacity_enabled => TrackerView {
            retries: retries_after(
                tracker,
                session.session_id,
                failed_turn(error),
                decision_for(session, tracker, settings, now),
                now,
            ),
            ..tracker
        },
        _ => tracker,
    }
}

// ---------------------------------------------------------------------------
// A cycle
// ---------------------------------------------------------------------------

/// What a cycle decides: for which session something is done, and what.
pub enum CycleView {
    Nothing,
    Retry(int, int),
    Switch(int),
}

/// What the sessions say.
pub open spec fn session_views(list: Seq<ActiveCodexSession>) -> Seq<SessionView> {
    list.map_values(|session: ActiveCodexSession| session@)
}

/// What a cycle decides for the sessions from a position on, and what is remembered after it: the
/// first session for which there is something to do ends it.
pub open spec fn cycle(
    list: Seq<SessionView>,
    from: int,
    tracker: TrackerView,
    settings: AppSettings,
    now: int,
) -> (CycleView, TrackerView)
    decreases list.len() - from,
{
    if from < 0 || from >= list.len() {
        (CycleView::Nothing, tracker)
    } else {
        let after = tracker_after(list[from], tracker, settings, now);
        match decision_for(list[from], tracker, settings, now) {
            SessionDecision::Pass => cycle(list, from + 1, after, settings, now),
            SessionDecision::Retry(attempt) => (CycleView::Retry(from, attempt), after),
            SessionDecision::Switch => (CycleView::Switch(from), after),
        }
    }
}

/// What a cycle decides.
#[derive(Clone, Copy, Debug, PartialEq, Eq, Structural)]
pub enum CycleDecision {
    /// There is nothing to do.
    Nothing,
    /// The session at the position is told to continue, for the given time in a row.
    Retry { index: usize, attempt: u32 },
    /// The account of the session at the position is switched.
    Switch { index: usize },
}

impl CycleDecision {
    /// What the decision says.
    pub open spec fn view(self) -> CycleView {
        match self {
            CycleDecision::Nothing => CycleView::Nothing,
            CycleDecision::Retry { index, attempt } => CycleView::Retry(
                index as int,
                attempt as int,
            ),
            CycleDecision::Switch { index } => CycleView::Switch(index as int),
        }
    }
}

/// What is done for a session.
enum Step {
    Pass,
    Retry(u32),
    Switch,
}

impl Step {
    spec fn view(self) -> SessionDecision {
        match self {
            Step::Pass => SessionDecision::Pass,
            Step::Retry(attempt) => SessionDecision::Retry(attempt as int),
            Step::Switch => SessionDecision::Switch,
        }
    }
}

/// The time since a reading of the monotonic clock.
pub fn time_since(now: u64, at: i128) -> (r: i128)
    requires
        at >= -0x1_0000_0000_0000_0000,
    ensures
        r == elapsed(now as int, at as int),
{
    if now as i128 > at {
        now as i128 - at
    } else {
        0
    }
}

impl SessionTracker {
    /// Every reading of the clock is one that can be compared with.
    pub open spec fn wf(&self) -> bool {
        forall|id: Seq<char>| #[trigger]
            self.capacity_retries@.contains_key(id) ==> self.capacity_retries@[id].at
                >= -(LONG_AGO as int)
    }

    /// A tracker that remembers nothing.
    pub fn new() -> (r: Self)
        ensures
            r.wf(),
            r@ == TrackerView::empty(),
    {
        let r = SessionTracker {
            capacity_retries: StringHashMap::new(),
            handled_usage_limits: StringHashMap::new(),
            managed_pids: Vec::new(),
            last_event: None,
            last_account_switch: None,
        };
        assert(r@.retries =~= Map::empty());
        assert(r@.handled =~= Map::empty());
        r
    }

    /// Remembers the attempts of a session.
    fn keep_attempts(&mut self, session_id: &String, retry: CapacityRetry)
        requires
            old(self).wf(),
            retry.at >= -(LONG_AGO as int),
        ensures
            final(self).wf(),
            final(self)@ == (TrackerView {
                retries: old(self)@.retries.insert(session_id@, retry@),
                ..old(self)@
            }),
    {
        self.capacity_retries.insert(session_id.clone(), retry);
        assert(self@.retries =~= old(self)@.retries.insert(session_id@, retry@));
    }

    /// Forgets the attempts of a session.
    fn forget_attempts(&mut self, session_id: &String)
        requires
            old(self).wf(),
        ensures
            final(self).wf(),
            final(self)@ == (TrackerView {
                retries: old(self)@.retries.remove(session_id@),
                ..old(self)@
            }),
    {
        self.capacity_retries.remove(session_id.as_str());
        assert(self@.retries =~= old(self)@.retries.remove(session_id@));
    }

    /// The attempts of a session at the given time, counted anew after a long while.
    fn attempts(&self, session_id: &String, now: u64) -> (r: CapacityRetry)
        requires
            self.wf(),
        ensures
            r@ == self@.attempts_at(session_id@, now as int),
            r.at >= -(LONG_AGO as int),
    {
        let known = match self.capacity_retries.get(session_id.as_str()) {
            Some(retry) => CapacityRetry {
                turn_id: sessions::clone_text(&retry.turn_id),
                attempts: retry.attempts,
                at: retry.at,
            },
            None => CapacityRetry {
                turn_id: None,
                attempts: 0,
                at: now as i128 - LONG_AGO as i128,
            },
        };
        if time_since(now, known.at) > EPISODE as i128 {
            CapacityRetry { turn_id: known.turn_id, attempts: 0, at: known.at }
        } else {
            known
        }
    }

    /// Remembers that the usage limit of a session is dealt with.
    pub fn mark_handled(&mut self, session: &ActiveCodexSession)
        requires
            old(self).wf(),
        ensures
            final(self).wf(),
            final(self)@ == old(self)@.with_handled(session@),
    {
        let turn = session.turn_key();
        let id = session.session_id.clone();
        self.handled_usage_limits.insert(id, turn);
        assert(self@.handled =~= old(self)@.handled.insert(
            session@.session_id,
            session@.turn_key(),
        ));
    }

    /// Whether the usage limit that ended the last turn of a session was dealt with.
    pub fn handled(&self, session: &ActiveCodexSession) -> (r: bool)
        ensures
            r == self@.is_handled(session@.session_id, session@.turn_key()),
    {
        let turn = session.turn_key();
        match self.handled_usage_limits.get(session.session_id.as_str()) {
            Some(known) => text::same_text(known.as_str(), turn.as_str()),
            None => false,
        }
    }

    /// Remembers the last change of what the sessions run on.
    pub fn note_switch(&mut self, at: u64, account_id: String, by_reset_credit: bool)
        requires
            old(self).wf(),
        ensures
            final(self).wf(),
            final(self)@ == old(self)@.with_switch(
                SwitchView { at: at as int, account_id: account_id@, by_reset_credit },
            ),
    {
        self.last_account_switch = Some(AccountSwitch { at, account_id, by_reset_credit });
    }

    /// Remembers the last event.
    pub fn note_event(&mut self, event: &RecoveryEventNotification)
        requires
            old(self).wf(),
        ensures
            final(self).wf(),
            final(self)@ == old(self)@.with_event(event@),
    {
        self.last_event = Some(event.clone());
    }

    /// Remembers a process that was launched from here.
    pub fn note_launched(&mut self, pid: u32)
        requires
            old(self).wf(),
        ensures
            final(self).wf(),
            final(self)@ == (TrackerView { managed: old(self)@.managed.push(pid), ..old(self)@ }),
    {
        self.managed_pids.push(pid);
    }
}

/// The time that must have passed before the next attempt.
fn delay_before(settings: &AppSettings, attempts: u32) -> (r: i128)
    ensures
        r == retry_delay(*settings, attempts as int),
{
    let initial: i128 = if settings.auto_retry_capacity_initial_delay_sec == 0 {
        1
    } else {
        settings.auto_retry_capacity_initial_delay_sec as i128
    };
    let times: i128 = attempts as i128 + 1;
    assert(0 <= initial * times <= 0x1_0000_0000_0000_0000) by (nonlinear_arith)
        requires
            0 <= initial <= 0x1_0000_0000,
            0 <= times <= 0x1_0000_0000,
    ;
    let seconds: i128 = initial * times;
    seconds * 1_000_000_000
}

/// Decides for a session that found the servers overloaded.
fn decide_capacity(
    tracker: &mut SessionTracker,
    session_id: &String,
    turn: String,
    settings: &AppSettings,
    now: u64,
) -> (r: Step)
    requires
        old(tracker).wf(),
    ensures
        final(tracker).wf(),
        r@ == capacity_decision(
            old(tracker)@.attempts_at(session_id@, now as int),
            turn@,
            *settings,
            now as int,
        ),
        final(tracker)@ == (TrackerView {
            retries: retries_after(old(tracker)@, session_id@, turn@, r@, now as int),
            ..old(tracker)@
        }),
{
    let retry = tracker.attempts(session_id, now);
    let same_turn = match &retry.turn_id {
        Some(known) => text::same_text(known.as_str(), turn.as_str()),
        None => false,
    };
    if same_turn || time_since(now, retry.at) < delay_before(settings, retry.attempts) {
        tracker.keep_attempts(session_id, retry);
        return Step::Pass;
    }
    if retry.attempts < settings.auto_retry_capacity_max_attempts {
        let attempt: u32 = retry.attempts + 1;
        tracker.keep_attempts(
            session_id,
            CapacityRetry { turn_id: Some(turn), attempts: attempt, at: now as i128 },
        );
        Step::Retry(attempt)
    } else if settings.auto_retry_capacity_escalate_to_switch {
        tracker.forget_attempts(session_id);
        Step::Switch
    } else {
        tracker.keep_attempts(session_id, retry);
        Step::Pass
    }
}

/// Decides for a session.
fn decide(
    tracker: &mut SessionTracker,
    session: &ActiveCodexSession,
    settings: &AppSettings,
    now: u64,
) -> (r: Step)
    requires
        old(tracker).wf(),
    ensures
        final(tracker).wf(),
        r@ == decision_for(session@, old(tracker)@, *settings, now as int),
        final(tracker)@ == tracker_after(session@, old(tracker)@, *settings, now as int),
{
    match &session.last_error {
        None => Step::Pass,
        Some(error) => match error.kind {
            SessionErrorKind::ServerOverloaded => {
                if !settings.auto_retry_capacity_enabled {
                    return Step::Pass;
                }
                let turn = match &error.turn_id {
                    Some(turn) => turn.clone(),
                    None => "unknown_turn".to_owned(),
                };
                decide_capacity(tracker, &session.session_id, turn, settings, now)
            },
            SessionErrorKind::UsageLimitExceeded => {
                if settings.auto_switch_limit_enabled && !tracker.handled(session) {
                    Step::Switch
                } else {
                    Step::Pass
                }
            },
        },
    }
}

/// Decides what a cycle of recovery does, at a reading of the monotonic clock.
pub fn check_and_recover_sessions(
    tracker: &mut SessionTracker,
    list: &Vec<ActiveCodexSession>,
    settings: &AppSettings,
    now: u64,
) -> (r: CycleDecision)
    requires
        old(tracker).wf(),
    ensures
        final(tracker).wf(),
        (r@, final(tracker)@) == cycle(
            session_views(list@),
            0,
            old(tracker)@,
            *settings,
            now as int,
        ),
{
    let ghost views = session_views(list@);
    for i in 0..list.len()
        invariant
            tracker.wf(),
            views == session_views(list@),
            cycle(views, 0, old(tracker)@, *settings, now as int) == cycle(
                views,
                i as int,
                tracker@,
                *settings,
                now as int,
            ),
    {
        assert(views[i as int] == list@[i as int]@);
        match decide(tracker, &list[i], settings, now) {
            Step::Pass => {},
            Step::Retry(attempt) => {
                return CycleDecision::Retry { index: i, attempt };
            },
            Step::Switch => {
                return CycleDecision::Switch { index: i };
            },
        }
    }
    CycleDecision::Nothing
}

} // verus!
