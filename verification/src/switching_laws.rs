//! What holds of every recovery.

use crate::errors::RecoveryError;
use crate::moment::Moment;
use crate::sessions::ActiveCodexSession;
use crate::switching;
use crate::switching::{
    AnnounceStage, AwaitStage, ClosedDesktop, GoalStage, Held, Recovery, RedeemStage,
    RelaunchStage, RestoreStage, Snapshot, SwitchStep,
};
use crate::text;
use crate::tracker;
use crate::tracker::{AccountSwitch, TrackerView, SETTLING};
use vstd::prelude::*;

verus! {

// ---------------------------------------------------------------------------
// No cascade of switches
// ---------------------------------------------------------------------------

/// From here on the account in use stays in use: no credit is redeemed, no other account is asked
/// about, and no credentials are swapped.
pub open spec fn keeps_account(step: SwitchStep) -> bool {
    match step {
        SwitchStep::LookUpGoal(stage) => stage.plan is Requeue || stage.plan is Reconnect,
        SwitchStep::QueueResume(_) => true,
        SwitchStep::WriteRestart(stage) => stage.reason is Reconnect,
        SwitchStep::Terminate(stage) => stage.reason is Reconnect,
        SwitchStep::AwaitRestart(stage) => stage.relaunch.reason is Reconnect,
        SwitchStep::Launch(stage) => stage.reason is Reconnect,
        SwitchStep::Announce(stage) => stage.relaunch.reason is Reconnect,
        SwitchStep::Finished(_) => true,
        _ => false,
    }
}

/// An account that was switched to a moment ago is not switched away from for the error of
/// another session, which is still one of the account before.
pub proof fn fresh_account_is_kept(case: Recovery, since: AccountSwitch, clock: int)
    requires
        tracker::elapsed(clock, since.at as int) < SETTLING,
    ensures
        keeps_account(switching::first_step(case, Some(since), clock)),
{
}

/// A recovery that keeps the account keeps it to its end.
pub proof fn account_is_kept_to_the_end(
    stage: GoalStage,
    goal_active: bool,
    next: SwitchStep,
    relaunch: RelaunchStage,
    waiting: AwaitStage,
    present: bool,
)
    ensures
        keeps_account(SwitchStep::LookUpGoal(stage)) && stage.leads_to(goal_active, next)
            ==> keeps_account(next),
        keeps_account(SwitchStep::WriteRestart(relaunch)) ==> keeps_account(
            relaunch.after_writing(),
        ),
        keeps_account(SwitchStep::Terminate(relaunch)) ==> keeps_account(
            relaunch.after_terminating(),
        ),
        keeps_account(SwitchStep::AwaitRestart(waiting)) ==> keeps_account(
            waiting.after_looking(present),
        ),
        keeps_account(SwitchStep::Launch(relaunch)) ==> keeps_account(relaunch.after_launching()),
{
}

/// Once the account was switched for a session, other sessions go on with it for a while.
pub proof fn switch_shields_other_sessions(
    stage: AnnounceStage,
    before: TrackerView,
    clock: int,
    now: Moment,
    other: Recovery,
    last: Option<AccountSwitch>,
    later: int,
)
    requires
        stage.relaunch.reason is Switched,
        tracker::opt_switch(last) == stage.remembered(before, clock, now).last_switch,
        tracker::elapsed(later, clock) < SETTLING,
    ensures
        keeps_account(switching::first_step(other, last, later)),
{
}

/// Reconnecting a session to an account does not count as another switch.
pub proof fn reconnecting_is_no_switch(
    stage: AnnounceStage,
    before: TrackerView,
    clock: int,
    now: Moment,
)
    requires
        stage.relaunch.reason is Reconnect,
    ensures
        stage.remembered(before, clock, now).last_switch == before.last_switch,
        stage.remembered(before, clock, now).last_event == before.last_event,
{
}

/// A session that was started anew is dealt with: the same error does not start it again.
pub proof fn restarted_session_is_handled(
    stage: AnnounceStage,
    before: TrackerView,
    clock: int,
    now: Moment,
)
    ensures
        ({
            let session = stage.relaunch.case.session@;
            stage.remembered(before, clock, now).is_handled(session.session_id, session.turn_key())
        }),
{
}

// ---------------------------------------------------------------------------
// Restored limits
// ---------------------------------------------------------------------------

/// From here on the process of the session is left running: it is neither ended nor launched
/// anew.
pub open spec fn leaves_running(step: SwitchStep) -> bool {
    match step {
        SwitchStep::LookUpGoal(stage) => stage.plan is Requeue || stage.plan is Restored,
        SwitchStep::QueueResume(_) => true,
        SwitchStep::QueueRestored(_) => true,
        SwitchStep::Finished(_) => true,
        _ => false,
    }
}

/// Where a reset credit restored the limits of the account, the session is told to continue where
/// it runs.
pub proof fn restored_session_keeps_running(stage: RedeemStage)
    ensures
        leaves_running(stage.after_redeeming(true)),
{
}

/// A moment after a reset credit restored the limits, a session that ran into them before is told
/// to continue where it runs; in the desktop app also after the account was switched.
pub proof fn other_sessions_keep_running(case: Recovery, since: AccountSwitch, clock: int)
    requires
        tracker::elapsed(clock, since.at as int) < SETTLING,
        since.by_reset_credit || case.session.is_desktop,
    ensures
        leaves_running(switching::first_step(case, Some(since), clock)),
{
}

/// A session that is left running is left running to the end of its recovery.
pub proof fn running_session_is_left_alone(stage: GoalStage, goal_active: bool, next: SwitchStep)
    requires
        leaves_running(SwitchStep::LookUpGoal(stage)),
        stage.leads_to(goal_active, next),
    ensures
        leaves_running(next),
{
}

/// A session that runs on a new account is started anew, with the credentials of that account: no
/// phrase is queued for the process that holds the old ones.
pub proof fn switched_session_is_started_anew(
    stage: GoalStage,
    goal_active: bool,
    next: SwitchStep,
)
    requires
        stage.plan is Switched || stage.plan is Reconnect,
        stage.leads_to(goal_active, next),
    ensures
        next is WriteRestart || next is OpenApp,
{
}

/// A process that is known is ended before the session is launched anew.
pub proof fn old_process_is_ended(stage: RelaunchStage)
    requires
        stage.case.session.pid > 0,
    ensures
        stage.after_writing() == SwitchStep::Terminate(stage),
{
}

/// So often a terminal is waited for at most.
pub open spec fn looks_left(step: SwitchStep) -> int {
    match step {
        SwitchStep::AwaitRestart(stage) => if stage.left == 0 {
            1
        } else {
            stage.left as int
        },
        _ => 0,
    }
}

/// A terminal is waited for at most twelve times: each look is one less.
pub proof fn waiting_ends(relaunch: RelaunchStage, waiting: AwaitStage, present: bool)
    ensures
        looks_left(relaunch.after_terminating()) == switching::RESTART_LOOKS,
        looks_left(waiting.after_looking(present)) < looks_left(SwitchStep::AwaitRestart(waiting)),
{
}

// ---------------------------------------------------------------------------
// The desktop app
// ---------------------------------------------------------------------------

/// An app that was closed for a switch that failed is opened again.
pub proof fn closed_app_is_opened_again(closed: ClosedDesktop, error: RecoveryError)
    ensures
        switching::undone(Held::Desktop(closed), error) matches SwitchStep::ReopenDesktop(stage)
            && stage.token == closed.token && stage.error == error,
        switching::undone(Held::IdleDesktop, error) matches SwitchStep::OpenAppAndFail(stage)
            && stage.error == error,
{
}

/// The session that is moved is among those that go on.
pub proof fn moved_session_goes_on(
    list: Seq<ActiveCodexSession>,
    session: ActiveCodexSession,
)
    ensures
        switching::has_session(
            switching::affected_sessions(list, session),
            session.session_id@,
        ),
{
    let found = list.filter(|other: ActiveCodexSession| switching::is_affected(other));
    if !switching::has_session(found, session.session_id@) {
        assert(found.push(session)[found.len() as int].session_id@ == session.session_id@);
    }
}

/// A session of the app that goes on is dealt with.
pub proof fn started_session_is_handled(
    before: TrackerView,
    affected: Seq<ActiveCodexSession>,
    started: Seq<String>,
    i: int,
)
    requires
        0 <= i < affected.len(),
        switching::has_id(started, affected[i].session_id@),
    ensures
        switching::with_started(before, affected, started).handled.contains_key(
            affected[i].session_id@,
        ),
    decreases affected.len(),
{
    if i < affected.len() - 1 {
        started_session_is_handled(before, affected.drop_last(), started, i);
    }
}

/// A session that does not go on is not dealt with: what is remembered of it stays as it is.
pub proof fn other_session_stays_open(
    before: TrackerView,
    affected: Seq<ActiveCodexSession>,
    started: Seq<String>,
    id: Seq<char>,
)
    requires
        !switching::has_id(started, id),
    ensures
        ({
            let after = switching::with_started(before, affected, started);
            &&& after.handled.contains_key(id) == before.handled.contains_key(id)
            &&& before.handled.contains_key(id) ==> after.handled[id] == before.handled[id]
            &&& after.retries == before.retries
            &&& after.last_switch == before.last_switch
        }),
    decreases affected.len(),
{
    if affected.len() > 0 {
        other_session_stays_open(before, affected.drop_last(), started, id);
    }
}

// ---------------------------------------------------------------------------
// The choice
// ---------------------------------------------------------------------------

/// The account that is switched to is one of the accounts, and not the one in use.
pub proof fn target_is_another_account(
    case: Recovery,
    snapshots: Seq<Snapshot>,
    i: int,
    now: Moment,
)
    requires
        switching::choice_of(case, snapshots).chooses(i, now),
    ensures
        0 <= i < case.accounts@.len(),
        case.active_id matches Some(id) ==> case.accounts@[i].id@ != id@,
{
    assert(switching::choice_of(case, snapshots).candidate(i));
    assert(case.active_id matches Some(id) ==> text::opt_text(case.active_id) == Some(id@));
}

/// An account whose limits were restored counts as just switched to, and the session as dealt
/// with.
pub proof fn restored_account_is_kept(
    stage: RestoreStage,
    before: TrackerView,
    other: Recovery,
    last: Option<AccountSwitch>,
    clock: int,
    now: Moment,
    later: int,
)
    requires
        tracker::opt_switch(last) == stage.remembered(before, clock, now).last_switch,
        tracker::elapsed(later, clock) < SETTLING,
    ensures
        keeps_account(switching::first_step(other, last, later)),
        leaves_running(switching::first_step(other, last, later)),
        stage.remembered(before, clock, now).is_handled(
            stage.case.session@.session_id,
            stage.case.session@.turn_key(),
        ),
{
}

} // verus!
