//! What each step of a recovery does with what it was handed.

use crate::accounts::{AccountResetCredit, AccountResetCredits, StoredAccount, UsageInfo};
use crate::credits;
use crate::desktop;
use crate::desktop::{RunningProcess, SessionLog};
use crate::errors::RecoveryError;
use crate::moment::Moment;
use crate::platform::Platform;
use crate::rollout;
use crate::rollout::TurnUnknown;
use crate::scoring;
use crate::sessions::{
    ActiveCodexSession, RecoveryEventNotification, SessionErrorKind,
};
use crate::switching;
use crate::switching::{
    AffectedStage, AnnounceStage, AwaitQuitStage, AwaitStage, CandidateStage, CloseStage,
    ClosedDesktop, ClosingReport, CountStage, CreditStage, DesktopStage, FailStage, GoalStage,
    HandoffStage, Held, IdleHandoffStage, IdleStage, Notice, OpenAppStage, Plan, QueueStage,
    QuitStage, Reason, Recovery, RedeemStage, RelaunchStage, ReopenStage, RestoreStage, Snapshot,
    StoreStage, SwapStage, SwitchStep,
};
use crate::text;
use crate::tracker::{SessionTracker, SwitchView, TrackerView};
use vstd::hash_map::StringHashMap;
use vstd::prelude::*;

verus! {

// ---------------------------------------------------------------------------
// The start
// ---------------------------------------------------------------------------

/// The last change of account was less than twenty seconds ago, on the monotonic clock.
pub open spec fn is_fresh(tracker: SessionTracker, clock: u64) -> bool {
    tracker.last_account_switch matches Some(since) && clock - since.at < 20_000_000_000
}

/// The account at the position is the first of the id of the one in use.
pub open spec fn is_in_use(case: Recovery, i: int) -> bool {
    &&& 0 <= i < case.accounts@.len()
    &&& case.active_id matches Some(id) && case.accounts@[i].id@ == id@ && forall|j: int|
        0 <= j < i ==> (#[trigger] case.accounts@[j]).id@ != id@
}

proof fn lemma_position(accounts: Seq<StoredAccount>, id: Seq<char>, from: int)
    requires
        0 <= from,
    ensures
        match switching::account_position(accounts, id, from) {
            Some(i) => from <= i < accounts.len() && accounts[i].id@ == id && forall|j: int|
                from <= j < i ==> (#[trigger] accounts[j]).id@ != id,
            None => forall|i: int|
                from <= i < accounts.len() ==> (#[trigger] accounts[i]).id@ != id,
        },
    decreases accounts.len() - from,
{
    if from < accounts.len() {
        lemma_position(accounts, id, from + 1);
    }
}

/// The account whose reset credits are fetched is the one in use: it is the first of the accounts
/// that bears the id of the account in use. Where credits are to be redeemed, the last change of
/// account is not fresh, and an account of that id is known, its credits are fetched; else they are
/// not.
pub proof fn credits_of_the_account_in_use_are_fetched(
    case: Recovery,
    tracker: &SessionTracker,
    clock: u64,
    r: SwitchStep,
)
    requires
        call_ensures(switching::handle_account_switch_for_session, (case, tracker, clock), r),
    ensures
        r matches SwitchStep::FetchCredits(stage) ==> stage.case == case && exists|i: int|
            #[trigger] is_in_use(case, i) && stage.account == case.accounts@[i],
        r is FetchCredits <==> case.settings.auto_redeem_reset_credits && !is_fresh(
            *tracker,
            clock,
        ) && exists|i: int| #[trigger] is_in_use(case, i),
{
    if let Some(id) = case.active_id {
        lemma_position(case.accounts@, id@, 0);
        if let Some(i) = switching::account_position(case.accounts@, id@, 0) {
            assert(is_in_use(case, i));
        } else if exists|i: int| #[trigger] is_in_use(case, i) {
            let i = choose|i: int| #[trigger] is_in_use(case, i);
            assert(case.accounts@[i].id@ == id@);
        }
    }
}

/// Less than twenty seconds after a change of account, nothing is redeemed and no account is
/// looked for: the session goes on with what is in use since. It is told to continue if its limits
/// were restored or it runs in the desktop app, and started anew if not.
pub proof fn fresh_change_is_used(
    case: Recovery,
    tracker: &SessionTracker,
    clock: u64,
    r: SwitchStep,
)
    requires
        call_ensures(switching::handle_account_switch_for_session, (case, tracker, clock), r),
    ensures
        is_fresh(*tracker, clock) <==> r is LookUpGoal,
        r matches SwitchStep::LookUpGoal(stage) ==> {
            let since = tracker.last_account_switch->0;
            &&& stage.case == case
            &&& (since.by_reset_credit || case.session.is_desktop) ==> stage.plan
                == Plan::Requeue(since)
            &&& !(since.by_reset_credit || case.session.is_desktop) ==> stage.plan
                == Plan::Reconnect(since)
        },
{
}

/// Where the last change of account is not fresh and no credits are fetched, what the other
/// accounts have used is.
pub proof fn other_accounts_are_asked_about(
    case: Recovery,
    tracker: &SessionTracker,
    clock: u64,
    r: SwitchStep,
)
    requires
        call_ensures(switching::handle_account_switch_for_session, (case, tracker, clock), r),
        !is_fresh(*tracker, clock),
    ensures
        r is FetchCredits || r == SwitchStep::FetchCandidates(CandidateStage { case }),
{
}

// ---------------------------------------------------------------------------
// Redeeming a reset credit
// ---------------------------------------------------------------------------

/// A credit is redeemed whenever one is available, in whatever letters, and it is one that is:
/// for the same session and the same account. Where none is, the account is switched.
pub proof fn available_credit_is_redeemed(
    stage: CreditStage,
    known: Option<AccountResetCredits>,
    r: SwitchStep,
)
    requires
        call_ensures(CreditStage::fetched, (stage, known), r),
    ensures
        r is Redeem <==> (known matches Some(resets) && exists|i: int|
            0 <= i < resets.credits@.len() && text::lowercase(
                (#[trigger] resets.credits@[i]).status@,
            ) == "available"@),
        r matches SwitchStep::Redeem(next) ==> {
            &&& next.case == stage.case
            &&& next.account == stage.account
            &&& exists|i: int|
                0 <= i < known->0.credits@.len() && (#[trigger] known->0.credits@[i]).id
                    == next.credit_id && text::lowercase(known->0.credits@[i].status@)
                    == "available"@
        },
        !(r is Redeem) ==> r == SwitchStep::FetchCandidates(CandidateStage { case: stage.case }),
{
    let credits = scoring::credits_of(known);
    if let SwitchStep::Redeem(next) = r {
        let i = choose|i: int|
            #[trigger] credits::is_next_to_redeem(credits, i) && next.credit_id
                == credits[i].id;
        assert(scoring::is_available(credits[i]));
        assert(known->0.credits@[i].id == next.credit_id);
    } else {
        if let Some(resets) = known {
            assert forall|i: int| 0 <= i < resets.credits@.len() implies text::lowercase(
                (#[trigger] resets.credits@[i]).status@,
            ) != "available"@ by {
                assert(!scoring::is_available(credits[i]));
            }
        }
    }
}

/// The credit that is redeemed is the one that expires first.
pub proof fn credit_that_expires_first_is_taken(
    stage: CreditStage,
    known: AccountResetCredits,
    list: &Vec<AccountResetCredit>,
    first: Option<usize>,
    r: SwitchStep,
)
    requires
        call_ensures(CreditStage::fetched, (stage, Some(known)), r),
        list@ == known.credits@,
        call_ensures(credits::next_to_redeem, (list,), first),
    ensures
        r is Redeem <==> first is Some,
        r matches SwitchStep::Redeem(next) ==> next.credit_id
            == known.credits@[first->0 as int].id,
{
    let all = scoring::credits_of(Some(known));
    assert(all == known.credits@);
    if let SwitchStep::Redeem(next) = r {
        let i = choose|i: int|
            #[trigger] credits::is_next_to_redeem(all, i) && next.credit_id == all[i].id;
        assert(credits::can_be_taken(all[i]));
        credits::credit_that_expires_first_is_redeemed(list, first, i);
        if let Some(k) = first {
            credits::credit_to_redeem_is_unique(all, i, k as int);
        }
    } else if let Some(k) = first {
        assert(scoring::is_available(all[k as int]));
    }
}

/// Once the credit is redeemed, the session goes on where it runs, with the account whose limits
/// were restored; if it is not, the account is switched.
pub proof fn redeemed_credit_restores_the_account(
    stage: RedeemStage,
    success: bool,
    r: SwitchStep,
)
    requires
        call_ensures(RedeemStage::redeemed, (stage, success), r),
    ensures
        success ==> (r matches SwitchStep::LookUpGoal(next) && next.case == stage.case && next.plan
            == Plan::Restored(stage.account)),
        !success ==> (r matches SwitchStep::FetchCandidates(next) && next.case == stage.case),
{
}

// ---------------------------------------------------------------------------
// Choosing an account
// ---------------------------------------------------------------------------

/// An account is not the one in use.
pub open spec fn is_another(case: Recovery, account: StoredAccount) -> bool {
    case.active_id matches Some(id) ==> account.id@ != id@
}

/// The accounts that are asked about are all that are not in use, in the order of the list.
pub proof fn every_other_account_is_asked_about(stage: CandidateStage, r: Vec<String>)
    requires
        call_ensures(CandidateStage::candidates, (&stage,), r),
    ensures
        r@ == stage.case.accounts@.filter(
            |account: StoredAccount| is_another(stage.case, account),
        ).map_values(|account: StoredAccount| account.id),
{
    lemma_others(stage.case, stage.case.accounts@);
}

proof fn lemma_others(case: Recovery, accounts: Seq<StoredAccount>)
    ensures
        accounts.filter(
            |account: StoredAccount|
                scoring::is_candidate(account, text::opt_text(case.active_id)),
        ) == accounts.filter(|account: StoredAccount| is_another(case, account)),
    decreases accounts.len(),
{
    reveal(Seq::filter);
    if accounts.len() > 0 {
        lemma_others(case, accounts.drop_last());
    }
}

/// The account that was chosen is the target from here on, for the same session. A session in the
/// desktop app is moved on macOS, and on no other platform. A session in a terminal is moved on
/// every platform; on macOS it is first looked whether a desktop app is idle beside it. The
/// recovery is given up for want of an account only where every account is the one in use.
pub proof fn chosen_account_is_the_target(
    stage: CandidateStage,
    snapshots: Vec<Snapshot>,
    now: Moment,
    r: SwitchStep,
)
    requires
        call_ensures(CandidateStage::fetched, (stage, snapshots, now), r),
    ensures
        r == SwitchStep::Finished(Err(RecoveryError::NoEligibleAccount)) <==> forall|i: int|
            0 <= i < stage.case.accounts@.len() ==> !is_another(
                stage.case,
                #[trigger] stage.case.accounts@[i],
            ),
        r != SwitchStep::Finished(Err(RecoveryError::NoEligibleAccount)) ==> exists|i: int|
            {
                let target = #[trigger] stage.case.accounts@[i];
                &&& 0 <= i < stage.case.accounts@.len()
                &&& is_another(stage.case, target)
                &&& match (stage.case.session.is_desktop, stage.case.platform) {
                    (true, Platform::MacOs) => r matches SwitchStep::ListAffected(next)
                        && next.case == stage.case && next.target == target,
                    (true, _) => r == SwitchStep::Finished(
                        Err(RecoveryError::DesktopUnsupported),
                    ),
                    (false, Platform::MacOs) => r matches SwitchStep::CheckIdle(next) && next.case
                        == stage.case && next.target == target,
                    (false, _) => r matches SwitchStep::OpenStore(next) && next.case == stage.case
                        && next.target == target && next.held is Nothing,
                }
            },
{
    let all = switching::choice_of(stage.case, snapshots@);
    assert forall|i: int| 0 <= i < stage.case.accounts@.len() implies is_another(
        stage.case,
        #[trigger] stage.case.accounts@[i],
    ) == all.candidate(i) by {}
    if exists|i: int| #[trigger]
        all.chooses(i, now) && r == switching::step_to(stage.case, all.accounts[i]) {
        let i = choose|i: int| #[trigger]
            all.chooses(i, now) && r == switching::step_to(stage.case, all.accounts[i]);
        assert(all.candidate(i));
        assert(is_another(stage.case, stage.case.accounts@[i]));
    } else {
        assert forall|i: int| 0 <= i < stage.case.accounts@.len() implies !is_another(
            stage.case,
            #[trigger] stage.case.accounts@[i],
        ) by {
            assert(!all.candidate(i));
        }
    }
}

/// What was found out about an account in time is known of it, under its id; where it was found out
/// twice, the last finding counts. A later finding without it takes nothing back.
pub proof fn findings_are_known_by_account(
    snapshots: Vec<Snapshot>,
    r: (StringHashMap<UsageInfo>, StringHashMap<AccountResetCredits>),
    i: int,
)
    requires
        call_ensures(switching::collect_snapshots, (snapshots,), r),
        0 <= i < snapshots@.len(),
    ensures
        ({
            let id = snapshots@[i].account_id@;
            &&& snapshots@[i].usage matches Some(usage) ==> ((forall|j: int|
                i < j < snapshots@.len() && (#[trigger] snapshots@[j]).account_id@ == id
                    ==> snapshots@[j].usage is None) ==> r.0@.contains_key(id) && r.0@[id] == usage)
            &&& snapshots@[i].resets matches Some(resets) ==> ((forall|j: int|
                i < j < snapshots@.len() && (#[trigger] snapshots@[j]).account_id@ == id
                    ==> snapshots@[j].resets is None) ==> r.1@.contains_key(id) && r.1@[id]
                == resets)
        }),
{
    lemma_known(snapshots@, i);
}

proof fn lemma_known(snapshots: Seq<Snapshot>, i: int)
    requires
        0 <= i < snapshots.len(),
    ensures
        snapshots[i].usage is Some && (forall|j: int|
            i < j < snapshots.len() && (#[trigger] snapshots[j]).account_id@
                == snapshots[i].account_id@ ==> snapshots[j].usage is None)
            ==> switching::usage_known(snapshots).contains_key(snapshots[i].account_id@)
            && switching::usage_known(snapshots)[snapshots[i].account_id@] == snapshots[i].usage->0,
        snapshots[i].resets is Some && (forall|j: int|
            i < j < snapshots.len() && (#[trigger] snapshots[j]).account_id@
                == snapshots[i].account_id@ ==> snapshots[j].resets is None)
            ==> switching::resets_known(snapshots).contains_key(snapshots[i].account_id@)
            && switching::resets_known(snapshots)[snapshots[i].account_id@]
            == snapshots[i].resets->0,
    decreases snapshots.len(),
{
    let n = snapshots.len() - 1;
    if i < n {
        let before = snapshots.drop_last();
        assert(snapshots.last() == snapshots[n]);
        assert(before[i] == snapshots[i]);
        lemma_known(before, i);
        let id = snapshots[i].account_id@;
        if forall|j: int|
            i < j < snapshots.len() && (#[trigger] snapshots[j]).account_id@ == id
                ==> snapshots[j].usage is None {
            assert forall|j: int|
                i < j < before.len() && (#[trigger] before[j]).account_id@
                    == id implies before[j].usage is None by {
                assert(before[j] == snapshots[j]);
            }
        }
        if forall|j: int|
            i < j < snapshots.len() && (#[trigger] snapshots[j]).account_id@ == id
                ==> snapshots[j].resets is None {
            assert forall|j: int|
                i < j < before.len() && (#[trigger] before[j]).account_id@
                    == id implies before[j].resets is None by {
                assert(before[j] == snapshots[j]);
            }
        }
    }
}

/// Nothing is known of an account that was not found out about it.
pub proof fn nothing_else_is_known(
    snapshots: Vec<Snapshot>,
    r: (StringHashMap<UsageInfo>, StringHashMap<AccountResetCredits>),
    id: Seq<char>,
)
    requires
        call_ensures(switching::collect_snapshots, (snapshots,), r),
    ensures
        (forall|j: int|
            0 <= j < snapshots@.len() && (#[trigger] snapshots@[j]).account_id@ == id
                ==> snapshots@[j].usage is None) ==> !r.0@.contains_key(id),
        (forall|j: int|
            0 <= j < snapshots@.len() && (#[trigger] snapshots@[j]).account_id@ == id
                ==> snapshots@[j].resets is None) ==> !r.1@.contains_key(id),
{
    lemma_unknown(snapshots@, id);
}

proof fn lemma_unknown(snapshots: Seq<Snapshot>, id: Seq<char>)
    ensures
        (forall|j: int|
            0 <= j < snapshots.len() && (#[trigger] snapshots[j]).account_id@ == id
                ==> snapshots[j].usage is None) ==> !switching::usage_known(
            snapshots,
        ).contains_key(id),
        (forall|j: int|
            0 <= j < snapshots.len() && (#[trigger] snapshots[j]).account_id@ == id
                ==> snapshots[j].resets is None) ==> !switching::resets_known(
            snapshots,
        ).contains_key(id),
    decreases snapshots.len(),
{
    if snapshots.len() > 0 {
        let before = snapshots.drop_last();
        assert(snapshots.last() == snapshots[snapshots.len() - 1]);
        if forall|j: int|
            0 <= j < snapshots.len() && (#[trigger] snapshots[j]).account_id@ == id
                ==> snapshots[j].usage is None {
            assert forall|j: int|
                0 <= j < before.len() && (#[trigger] before[j]).account_id@
                    == id implies before[j].usage is None by {
                assert(before[j] == snapshots[j]);
            }
        }
        if forall|j: int|
            0 <= j < snapshots.len() && (#[trigger] snapshots[j]).account_id@ == id
                ==> snapshots[j].resets is None {
            assert forall|j: int|
                0 <= j < before.len() && (#[trigger] before[j]).account_id@
                    == id implies before[j].resets is None by {
                assert(before[j] == snapshots[j]);
            }
        }
        lemma_unknown(before, id);
    }
}

/// The account that is switched to is the one that is selected from what was found out.
pub proof fn target_is_the_selected_account(
    stage: CandidateStage,
    snapshots: Vec<Snapshot>,
    now: Moment,
    r: SwitchStep,
)
    requires
        call_ensures(CandidateStage::fetched, (stage, snapshots, now), r),
    ensures
        r matches SwitchStep::OpenStore(next) ==> exists|i: int| #[trigger]
            switching::choice_of(stage.case, snapshots@).chooses(i, now) && next.target
                == stage.case.accounts@[i],
        r matches SwitchStep::CheckIdle(next) ==> exists|i: int| #[trigger]
            switching::choice_of(stage.case, snapshots@).chooses(i, now) && next.target
                == stage.case.accounts@[i],
        r matches SwitchStep::ListAffected(next) ==> exists|i: int| #[trigger]
            switching::choice_of(stage.case, snapshots@).chooses(i, now) && next.target
                == stage.case.accounts@[i],
        ({
            let choice = switching::choice_of(stage.case, snapshots@);
            &&& choice.accounts == stage.case.accounts@
            &&& choice.strategy == stage.case.settings.auto_switch_strategy
            &&& choice.warning_days == stage.case.settings.reset_credit_warning_days
            &&& choice.usage == switching::usage_known(snapshots@)
            &&& choice.resets == switching::resets_known(snapshots@)
            &&& match stage.case.active_id {
                Some(id) => choice.current == Some(id@),
                None => choice.current is None,
            }
        }),
{
}

// ---------------------------------------------------------------------------
// Closing the desktop app with the session
// ---------------------------------------------------------------------------

/// The session runs in the desktop app, and its last turn ended at the usage limit.
pub open spec fn hit_the_limit_in_the_app(session: ActiveCodexSession) -> bool {
    session.is_desktop && (session.last_error matches Some(error) && error.kind
        == SessionErrorKind::UsageLimitExceeded)
}

/// Every session of the desktop app that hit the limit goes on together with the one that is moved,
/// in the order of the list; no other does, but for that one, which comes last if it is not among
/// them.
pub proof fn sessions_of_the_app_go_on_together(
    stage: AffectedStage,
    list: Vec<ActiveCodexSession>,
    r: SwitchStep,
)
    requires
        call_ensures(AffectedStage::listed, (stage, Ok::<_, String>(list)), r),
    ensures
        r matches SwitchStep::CheckHandoff(next) && {
            let limited = list@.filter(
                |other: ActiveCodexSession| hit_the_limit_in_the_app(other),
            );
            &&& next.case == stage.case
            &&& next.target == stage.target
            &&& if exists|i: int|
                0 <= i < limited.len() && (#[trigger] limited[i]).session_id@
                    == stage.case.session.session_id@ {
                next.affected@ == limited
            } else {
                next.affected@ == limited.push(stage.case.session)
            }
        },
{
    lemma_limited(list@);
    let limited = list@.filter(|other: ActiveCodexSession| hit_the_limit_in_the_app(other));
    assert(switching::has_session(limited, stage.case.session.session_id@) == exists|i: int|
        0 <= i < limited.len() && (#[trigger] limited[i]).session_id@
            == stage.case.session.session_id@);
}

proof fn lemma_limited(list: Seq<ActiveCodexSession>)
    ensures
        list.filter(|other: ActiveCodexSession| switching::is_affected(other)) == list.filter(
            |other: ActiveCodexSession| hit_the_limit_in_the_app(other),
        ),
    decreases list.len(),
{
    reveal(Seq::filter);
    if list.len() > 0 {
        lemma_limited(list.drop_last());
    }
}

/// A session that nothing is lost of when the app is closed: it is the one that is moved, or it runs
/// in the app, its log was found and read, and the newest turn in it has ended.
pub open spec fn can_be_interrupted(other: SessionLog, session_id: Seq<char>) -> bool {
    ||| other.session.session_id@ == session_id
    ||| {
        &&& other.session.is_desktop
        &&& other.session.rollout_path is Some
        &&& other.tail matches Ok(tail) && rollout::turn_running(tail@)
            == Ok::<bool, TurnUnknown>(false)
    }
}

proof fn lemma_obstacles(others: Seq<SessionLog>, from: int, session_id: Seq<char>)
    requires
        0 <= from,
    ensures
        desktop::first_obstacle(others, from, session_id) is None <==> forall|i: int|
            from <= i < others.len() ==> can_be_interrupted(#[trigger] others[i], session_id),
    decreases others.len() - from,
{
    if from < others.len() {
        lemma_obstacles(others, from + 1, session_id);
        assert(desktop::obstacle(others[from], session_id) is None == can_be_interrupted(
            others[from],
            session_id,
        ));
        if can_be_interrupted(others[from], session_id) {
            if forall|i: int|
                from + 1 <= i < others.len() ==> can_be_interrupted(
                    #[trigger] others[i],
                    session_id,
                ) {
                assert forall|i: int| from <= i < others.len() implies can_be_interrupted(
                    #[trigger] others[i],
                    session_id,
                ) by {
                    if i > from {
                        assert(from + 1 <= i);
                    }
                }
            }
        }
    }
}

/// The app is closed only where it interrupts nothing, and then it is: the processes are counted
/// next, for the same session, target and sessions that go on. Else the recovery is given up.
pub proof fn app_is_closed_where_nothing_is_lost(
    stage: HandoffStage,
    others: Vec<SessionLog>,
    r: SwitchStep,
)
    requires
        call_ensures(HandoffStage::listed, (stage, Ok::<_, String>(others)), r),
    ensures
        if forall|i: int|
            0 <= i < others@.len() ==> can_be_interrupted(
                #[trigger] others@[i],
                stage.case.session.session_id@,
            ) {
            r matches SwitchStep::CountDesktop(next) && next.case == stage.case && next.target
                == stage.target && next.affected == stage.affected
        } else {
            r matches SwitchStep::Finished(result) && result is Err
        },
{
    lemma_obstacles(others@, 0, stage.case.session.session_id@);
}

/// The recovery is given up for the reason why the app may not be closed. An idle app that may be
/// closed, but beside which something else runs, is another reason.
pub proof fn recovery_is_given_up_for_the_reason(
    stage: HandoffStage,
    idle: IdleHandoffStage,
    session_id: &str,
    others: Vec<SessionLog>,
    allowed: Result<(), RecoveryError>,
    r: SwitchStep,
    s: SwitchStep,
)
    requires
        session_id@ == stage.case.session.session_id@,
        session_id@ == idle.case.session.session_id@,
        call_ensures(desktop::desktop_handoff_is_exclusive, (session_id, others), allowed),
        call_ensures(HandoffStage::listed, (stage, Ok::<_, String>(others)), r),
        call_ensures(IdleHandoffStage::listed, (idle, Ok::<_, String>(others)), s),
    ensures
        allowed matches Err(error) ==> r == SwitchStep::Finished(Err(error)) && s
            == SwitchStep::Finished(Err(error)),
        allowed is Ok ==> r is CountDesktop,
        allowed is Ok ==> s is QuitDesktop || s == SwitchStep::Finished(
            Err(RecoveryError::AnotherProcess),
        ),
{
}

/// The desktop app is closed if it is the one process that runs, and only then.
pub proof fn sole_app_is_closed(
    stage: CountStage,
    count: usize,
    first_is_desktop: bool,
    r: SwitchStep,
)
    requires
        call_ensures(CountStage::counted, (stage, Ok::<_, String>((count, first_is_desktop))), r),
    ensures
        if count == 1 && first_is_desktop {
            r matches SwitchStep::CloseDesktop(next) && next.case == stage.case && next.target
                == stage.target && next.affected == stage.affected
        } else {
            r == SwitchStep::Finished(Err(RecoveryError::NotOneDesktop))
        },
{
}

/// The account is switched after the app was closed if it can be opened again and no process of it
/// is left. If one is left, the app is opened again.
pub proof fn closed_app_can_be_opened_again(
    stage: CloseStage,
    report: ClosingReport,
    r: SwitchStep,
)
    requires
        call_ensures(CloseStage::closed, (stage, Ok::<_, String>(report)), r),
    ensures
        match report.reopen_token {
            None => r == SwitchStep::Finished(Err(RecoveryError::DesktopNotRecorded)),
            Some(token) => if report.failed_pids@.len() == 0 {
                r matches SwitchStep::OpenStore(next) && next.case == stage.case && next.target
                    == stage.target && next.held == Held::Desktop(
                    ClosedDesktop { token, affected: stage.affected },
                )
            } else {
                r matches SwitchStep::ReopenDesktop(next) && next.token == token && next.error
                    == RecoveryError::DesktopNotClean
            },
        },
{
}

// ---------------------------------------------------------------------------
// Closing an idle desktop app beside the session
// ---------------------------------------------------------------------------

/// The process of the session is all that runs.
pub open spec fn is_all_that_runs(processes: Seq<RunningProcess>, pid: u32) -> bool {
    processes.len() == 1 && processes[0].pid == pid
}

/// Where the session runs alone, the account is switched at once; where it does not, it is looked
/// what runs beside it.
pub proof fn lone_session_is_moved_at_once(
    stage: IdleStage,
    processes: Vec<RunningProcess>,
    r: SwitchStep,
)
    requires
        call_ensures(IdleStage::listed, (stage, Ok::<_, String>(processes)), r),
    ensures
        if is_all_that_runs(processes@, stage.case.session.pid) {
            r matches SwitchStep::OpenStore(next) && next.case == stage.case && next.target
                == stage.target && next.held is Nothing
        } else {
            r matches SwitchStep::CheckIdleHandoff(next) && next.case == stage.case && next.target
                == stage.target && next.processes == processes
        },
{
}

/// An app beside the session is asked to quit if that interrupts nothing, and the session and the
/// app are all that runs; and only then.
pub proof fn idle_app_is_asked_to_quit(
    stage: IdleHandoffStage,
    others: Vec<SessionLog>,
    r: SwitchStep,
)
    requires
        call_ensures(IdleHandoffStage::listed, (stage, Ok::<_, String>(others)), r),
    ensures
        r is QuitDesktop <==> {
            let processes = stage.processes@;
            let pid = stage.case.session.pid;
            &&& forall|i: int|
                0 <= i < others@.len() ==> can_be_interrupted(
                    #[trigger] others@[i],
                    stage.case.session.session_id@,
                )
            &&& processes.len() == 2
            &&& (processes[0].pid == pid && processes[1].pid != pid && processes[1].is_desktop_root)
                || (processes[1].pid == pid && processes[0].pid != pid
                && processes[0].is_desktop_root)
        },
        r matches SwitchStep::QuitDesktop(next) ==> next.case == stage.case && next.target
            == stage.target,
        !(r is QuitDesktop) ==> (r matches SwitchStep::Finished(result) && result is Err),
{
    lemma_obstacles(others@, 0, stage.case.session.session_id@);
}

/// An app that agrees to quit is waited for, up to forty times; one that does not ends the
/// recovery.
pub proof fn quitting_app_is_waited_for(stage: QuitStage, agreed: bool, r: SwitchStep)
    requires
        call_ensures(QuitStage::asked, (stage, Ok::<_, String>(agreed)), r),
    ensures
        agreed ==> (r matches SwitchStep::AwaitQuit(next) && next.case == stage.case && next.target
            == stage.target && next.left == 40),
        !agreed ==> r == SwitchStep::Finished(Err(RecoveryError::DesktopNotQuit)),
{
}

/// Once the session runs alone, the account is switched, and it is known that an app was closed. As
/// long as it does not, it is looked once less; the last time the recovery is given up.
pub proof fn app_that_quit_lets_the_session_move(
    stage: AwaitQuitStage,
    processes: Vec<RunningProcess>,
    r: SwitchStep,
)
    requires
        call_ensures(AwaitQuitStage::listed, (stage, Ok::<_, String>(processes)), r),
    ensures
        if is_all_that_runs(processes@, stage.case.session.pid) {
            r matches SwitchStep::OpenStore(next) && next.case == stage.case && next.target
                == stage.target && next.held is IdleDesktop
        } else if stage.left > 1 {
            r matches SwitchStep::AwaitQuit(next) && next.case == stage.case && next.target
                == stage.target && next.left == stage.left - 1
        } else {
            r == SwitchStep::Finished(Err(RecoveryError::DesktopNotClosed))
        },
{
}

// ---------------------------------------------------------------------------
// Switching the account
// ---------------------------------------------------------------------------

/// Why the recovery is given up: what was closed before is opened again first.
pub open spec fn gives_up_and_reopens(held: Held, error: RecoveryError, r: SwitchStep) -> bool {
    match held {
        Held::Nothing => r == SwitchStep::Finished(Err(error)),
        Held::Desktop(closed) => r matches SwitchStep::ReopenDesktop(next) && next.token
            == closed.token && next.error == error,
        Held::IdleDesktop => r matches SwitchStep::OpenAppAndFail(next) && next.error == error,
    }
}

/// The credentials are swapped if the account in use is still the one with which the recovery
/// began, and only then.
pub proof fn account_in_use_must_not_have_changed(
    stage: StoreStage,
    active_id: Result<Option<String>, String>,
    r: SwitchStep,
)
    requires
        call_ensures(StoreStage::opened, (stage, active_id), r),
    ensures
        match active_id {
            Err(message) => gives_up_and_reopens(stage.held, RecoveryError::Outside(message), r),
            Ok(id) => if (id is None && stage.case.active_id is None) || (id is Some
                && stage.case.active_id is Some && id->0@ == stage.case.active_id->0@) {
                r matches SwitchStep::SwapCredentials(next) && next.case == stage.case
                    && next.target == stage.target && next.held == stage.held
            } else {
                gives_up_and_reopens(stage.held, RecoveryError::ActiveAccountChanged, r)
            },
        },
{
}

/// After the credentials were swapped, the sessions of an app that was closed with the session go
/// on; otherwise the session is started anew, and an idle app that was closed is opened again.
pub proof fn session_goes_on_with_the_target(
    stage: SwapStage,
    target: Result<StoredAccount, String>,
    r: SwitchStep,
)
    requires
        call_ensures(SwapStage::swapped, (stage, target), r),
    ensures
        match target {
            Err(message) => gives_up_and_reopens(stage.held, RecoveryError::Outside(message), r),
            Ok(target) => r matches SwitchStep::LookUpGoal(next) && next.case == stage.case
                && match stage.held {
                Held::Nothing => next.plan == Plan::Switched(target, false),
                Held::IdleDesktop => next.plan == Plan::Switched(target, true),
                Held::Desktop(closed) => next.plan == Plan::Desktop(target, closed),
            },
        },
{
}

/// A step whose work failed outside ends the recovery with what was reported of it.
pub proof fn outside_failure_ends_the_recovery(
    message: String,
    affected: AffectedStage,
    handoff: HandoffStage,
    count: CountStage,
    close: CloseStage,
    idle: IdleStage,
    idle_handoff: IdleHandoffStage,
    quit: QuitStage,
    wait: AwaitQuitStage,
    r: SwitchStep,
)
    requires
        call_ensures(
            AffectedStage::listed,
            (affected, Err::<Vec<ActiveCodexSession>, String>(message)),
            r,
        ) || call_ensures(
            HandoffStage::listed,
            (handoff, Err::<Vec<SessionLog>, String>(message)),
            r,
        ) || call_ensures(CountStage::counted, (count, Err::<(usize, bool), String>(message)), r)
            || call_ensures(
            CloseStage::closed,
            (close, Err::<ClosingReport, String>(message)),
            r,
        ) || call_ensures(
            IdleStage::listed,
            (idle, Err::<Vec<RunningProcess>, String>(message)),
            r,
        ) || call_ensures(
            IdleHandoffStage::listed,
            (idle_handoff, Err::<Vec<SessionLog>, String>(message)),
            r,
        ) || call_ensures(QuitStage::asked, (quit, Err::<bool, String>(message)), r)
            || call_ensures(
            AwaitQuitStage::listed,
            (wait, Err::<Vec<RunningProcess>, String>(message)),
            r,
        ),
    ensures
        r == SwitchStep::Finished(Err(RecoveryError::Outside(message))),
{
}

/// A recovery that opened the app again is over, with the error for which it did.
pub proof fn reopening_ends_the_recovery(
    reopen: ReopenStage,
    fail: FailStage,
    r: SwitchStep,
    s: SwitchStep,
)
    requires
        call_ensures(ReopenStage::tried, (reopen,), r),
        call_ensures(FailStage::tried, (fail,), s),
    ensures
        r == SwitchStep::Finished(Err(reopen.error)),
        s == SwitchStep::Finished(Err(fail.error)),
{
}

// ---------------------------------------------------------------------------
// Going on
// ---------------------------------------------------------------------------

/// What a session is told to continue: its goal, where it has an unfinished one; else the phrase of
/// the user without the white space around it, and `continue` where nothing is left of that.
pub open spec fn is_told(case: Recovery, goal_active: bool, phrase: Seq<char>) -> bool {
    if goal_active && case.session.session_id@.len() > 0 {
        phrase == "/goal resume"@
    } else if text::trimmed(case.settings.continue_phrase@).len() > 0 {
        phrase == text::trimmed(case.settings.continue_phrase@)
    } else {
        phrase == "continue"@
    }
}

/// Once it is known whether the session has an unfinished goal, each plan is carried out: for the
/// same session, with the same account, and with what the session is told to continue. Only where
/// sessions of the desktop app go on, the change of account is remembered already.
pub proof fn plan_is_carried_out(
    stage: GoalStage,
    goal_active: bool,
    tracker: &mut SessionTracker,
    clock: u64,
    r: SwitchStep,
)
    requires
        call_ensures(GoalStage::looked_up, (stage, goal_active, tracker, clock), r),
    ensures
        match stage.plan {
            Plan::Requeue(since) => r matches SwitchStep::QueueResume(next) && next.case
                == stage.case && next.since == since && is_told(
                stage.case,
                goal_active,
                next.phrase@,
            ),
            Plan::Reconnect(since) => r matches SwitchStep::WriteRestart(next) && next.case
                == stage.case && next.reason == Reason::Reconnect(since) && is_told(
                stage.case,
                goal_active,
                next.phrase@,
            ),
            Plan::Restored(account) => r matches SwitchStep::QueueRestored(next) && next.case
                == stage.case && next.account == account && is_told(
                stage.case,
                goal_active,
                next.phrase@,
            ),
            Plan::Desktop(target, closed) => r matches SwitchStep::ResumeDesktop(next)
                && next.case == stage.case && next.target == target && next.closed == closed,
            Plan::Switched(target, true) => r matches SwitchStep::OpenApp(next)
                && next.relaunch.case == stage.case && next.relaunch.reason == Reason::Switched(
                target,
            ) && is_told(stage.case, goal_active, next.relaunch.phrase@),
            Plan::Switched(target, false) => r matches SwitchStep::WriteRestart(next) && next.case
                == stage.case && next.reason == Reason::Switched(target) && is_told(
                stage.case,
                goal_active,
                next.phrase@,
            ),
        },
        match stage.plan {
            Plan::Desktop(target, _) => final(tracker)@ == (TrackerView {
                last_switch: Some(
                    SwitchView { at: clock as int, account_id: target.id@, by_reset_credit: false },
                ),
                ..old(tracker)@
            }),
            _ => final(tracker)@ == old(tracker)@,
        },
{
}

/// The turn by which the usage limit of a session is remembered as dealt with.
pub open spec fn limited_turn(session: ActiveCodexSession) -> Seq<char> {
    match session.last_error {
        Some(error) => match error.turn_id {
            Some(turn) => turn@,
            None => "default"@,
        },
        None => "default"@,
    }
}

/// The report says that, of the session, at the time.
pub open spec fn reports(
    event: RecoveryEventNotification,
    kind: Seq<char>,
    session: ActiveCodexSession,
    message: Seq<char>,
    now: Moment,
) -> bool {
    &&& event.event_type@ == kind
    &&& event.session_id@ == session.session_id@
    &&& event.message@ == message
    &&& event.timestamp == now
}

/// Once the phrase was queued, the session is dealt with, and that is reported; nothing else is
/// remembered. If it was not, nothing is remembered at all.
pub proof fn queued_session_is_dealt_with(
    stage: QueueStage,
    outcome: Result<(), String>,
    tracker: &mut SessionTracker,
    clock: u64,
    now: Moment,
    r: Result<RecoveryEventNotification, RecoveryError>,
)
    requires
        call_ensures(QueueStage::queued, (stage, outcome, tracker, clock, now), r),
    ensures
        match outcome {
            Err(message) => r == Err::<RecoveryEventNotification, RecoveryError>(
                RecoveryError::Outside(message),
            ) && final(tracker)@ == old(tracker)@,
            Ok(_) => r matches Ok(event) && {
                let seconds: int = if clock > stage.since.at {
                    (clock - stage.since.at) / 1_000_000_000
                } else {
                    0
                };
                &&& reports(
                    event,
                    if stage.since.by_reset_credit {
                        "reset_credit_redeemed"@
                    } else {
                        "account_switched"@
                    },
                    stage.case.session,
                    "Resumed session with '"@ + stage.phrase@ + "' on account '"@
                        + stage.since.account_id@ + "' after "@ + text::decimal_of(seconds as nat)
                        + "s"@,
                    now,
                )
                &&& final(tracker)@ == (TrackerView {
                    handled: old(tracker)@.handled.insert(
                        stage.case.session.session_id@,
                        limited_turn(stage.case.session),
                    ),
                    last_event: Some(event@),
                    ..old(tracker)@
                })
            },
        },
{
}

/// Once the limits were restored, the session is dealt with, the account counts as just taken into
/// use, by a reset credit, and that is reported.
pub proof fn restored_session_is_dealt_with(
    stage: RestoreStage,
    tracker: &mut SessionTracker,
    clock: u64,
    now: Moment,
    r: RecoveryEventNotification,
)
    requires
        call_ensures(RestoreStage::announced, (stage, tracker, clock, now), r),
    ensures
        reports(
            r,
            "reset_credit_redeemed"@,
            stage.case.session,
            "Auto-redeemed reset credit on active account '"@ + stage.account.name@
                + "' (limits refreshed). Resumed session in-place."@,
            now,
        ),
        final(tracker)@ == (TrackerView {
            handled: old(tracker)@.handled.insert(
                stage.case.session.session_id@,
                limited_turn(stage.case.session),
            ),
            last_event: Some(r@),
            last_switch: Some(
                SwitchView {
                    at: clock as int,
                    account_id: stage.account.id@,
                    by_reset_credit: true,
                },
            ),
            ..old(tracker)@
        }),
{
}

/// An id is among those of the sessions that go on.
pub open spec fn goes_on(started: Seq<String>, id: Seq<char>) -> bool {
    exists|i: int| 0 <= i < started.len() && (#[trigger] started[i])@ == id
}

proof fn lemma_started(
    before: TrackerView,
    affected: Seq<ActiveCodexSession>,
    started: Seq<String>,
    i: int,
)
    requires
        0 <= i < affected.len(),
        forall|j: int|
            i < j < affected.len() ==> (#[trigger] affected[j]).session_id@
                != affected[i].session_id@,
        goes_on(started, affected[i].session_id@),
    ensures
        switching::with_started(before, affected, started).handled.contains_key(
            affected[i].session_id@,
        ),
        switching::with_started(before, affected, started).handled[affected[i].session_id@]
            == limited_turn(affected[i]),
    decreases affected.len(),
{
    let n = affected.len() - 1;
    assert(affected.last() == affected[n]);
    assert(switching::has_id(started, affected[i].session_id@));
    if i < n {
        let rest = affected.drop_last();
        assert forall|j: int| i < j < rest.len() implies (#[trigger] rest[j]).session_id@
            != rest[i].session_id@ by {
            assert(rest[j] == affected[j]);
        }
        lemma_started(before, rest, started, i);
    }
}

proof fn lemma_not_started(
    before: TrackerView,
    affected: Seq<ActiveCodexSession>,
    started: Seq<String>,
)
    ensures
        ({
            let after = switching::with_started(before, affected, started);
            &&& after == (TrackerView { handled: after.handled, ..before })
            &&& forall|id: Seq<char>|
                !goes_on(started, id) ==> (#[trigger] after.handled.contains_key(id)
                    == before.handled.contains_key(id)) && (before.handled.contains_key(id)
                    ==> after.handled[id] == before.handled[id])
        }),
    decreases affected.len(),
{
    if affected.len() > 0 {
        lemma_not_started(before, affected.drop_last(), started);
        assert(switching::has_id(started, affected.last().session_id@) == goes_on(
            started,
            affected.last().session_id@,
        ));
    }
}

/// Each session of the app that goes on is dealt with, and no other; that is reported, with the
/// account and how many go on. If none could go on, nothing is remembered.
pub proof fn started_sessions_are_dealt_with(
    stage: DesktopStage,
    outcome: Result<Vec<String>, RecoveryError>,
    tracker: &mut SessionTracker,
    now: Moment,
    r: Result<RecoveryEventNotification, RecoveryError>,
    i: int,
)
    requires
        call_ensures(DesktopStage::resumed, (stage, outcome, tracker, now), r),
        0 <= i < stage.closed.affected@.len(),
        forall|j: int|
            i < j < stage.closed.affected@.len() ==> (
            #[trigger] stage.closed.affected@[j]).session_id@
                != stage.closed.affected@[i].session_id@,
    ensures
        match outcome {
            Err(error) => {
                &&& r == Err::<RecoveryEventNotification, RecoveryError>(error)
                &&& final(tracker)@ == old(tracker)@
            },
            Ok(started) => r matches Ok(event) && {
                let id = stage.closed.affected@[i].session_id@;
                let handled = final(tracker)@.handled;
                &&& reports(
                    event,
                    "account_switched"@,
                    stage.case.session,
                    "Switched to '"@ + stage.target.name@ + "' and started continuations in "@
                        + text::decimal_of(started@.len()) + " desktop sessions"@,
                    now,
                )
                &&& goes_on(started@, id) ==> handled.contains_key(id) && handled[id]
                    == limited_turn(stage.closed.affected@[i])
                &&& forall|other: Seq<char>|
                    !goes_on(started@, other) ==> (#[trigger] handled.contains_key(other)
                        == old(tracker)@.handled.contains_key(other)) && (
                    old(tracker)@.handled.contains_key(other) ==> handled[other]
                        == old(tracker)@.handled[other])
                &&& final(tracker)@ == (TrackerView {
                    handled,
                    last_event: Some(event@),
                    ..old(tracker)@
                })
            },
        },
{
    if let Ok(started) = outcome {
        lemma_not_started(old(tracker)@, stage.closed.affected@, started@);
        if goes_on(started@, stage.closed.affected@[i].session_id@) {
            lemma_started(old(tracker)@, stage.closed.affected@, started@, i);
        }
    }
}

// ---------------------------------------------------------------------------
// Starting the session anew
// ---------------------------------------------------------------------------

/// A session is started anew in this order: the restart file is written, its process is ended if
/// it is known, a terminal is waited for up to twelve times, and the session is launched if none
/// took up the restart.
pub proof fn session_is_started_anew_in_order(
    open: OpenAppStage,
    relaunch: RelaunchStage,
    wait: AwaitStage,
    present: bool,
    opened: SwitchStep,
    written: SwitchStep,
    terminated: SwitchStep,
    looked: SwitchStep,
    launched: SwitchStep,
)
    requires
        call_ensures(OpenAppStage::tried, (open,), opened),
        call_ensures(RelaunchStage::written, (relaunch,), written),
        call_ensures(RelaunchStage::terminated, (relaunch,), terminated),
        call_ensures(AwaitStage::looked, (wait, present), looked),
        call_ensures(RelaunchStage::launched, (relaunch,), launched),
    ensures
        opened == SwitchStep::WriteRestart(open.relaunch),
        relaunch.case.session.pid > 0 ==> written == SwitchStep::Terminate(relaunch),
        relaunch.case.session.pid == 0 ==> written == terminated,
        terminated matches SwitchStep::AwaitRestart(next) && next.relaunch == relaunch && next.left
            == 12,
        !present ==> (looked matches SwitchStep::Announce(next) && next.relaunch == wait.relaunch
            && next.consumed),
        present && wait.left > 1 ==> (looked matches SwitchStep::AwaitRestart(next)
            && next.relaunch == wait.relaunch && next.left == wait.left - 1),
        present && wait.left <= 1 ==> looked == SwitchStep::Launch(wait.relaunch),
        launched matches SwitchStep::Announce(next) && next.relaunch == relaunch
            && !next.consumed,
{
}

/// A session that was started anew is dealt with. Where the account was switched for it, that is
/// remembered, and so is the report; where it was switched for another session, neither is.
pub proof fn restarted_session_is_dealt_with(
    stage: AnnounceStage,
    tracker: &mut SessionTracker,
    clock: u64,
    now: Moment,
    r: RecoveryEventNotification,
)
    requires
        call_ensures(AnnounceStage::announced, (stage, tracker, clock, now), r),
    ensures
        ({
            let session = stage.relaunch.case.session;
            let phrase = stage.relaunch.phrase@;
            let handled = old(tracker)@.handled.insert(session.session_id@, limited_turn(session));
            match stage.relaunch.reason {
                Reason::Switched(target) => {
                    &&& reports(
                        r,
                        "account_switched"@,
                        session,
                        "Switched to account '"@ + target.name@ + (if stage.consumed {
                            "' and resumed session in-place with '"@
                        } else {
                            "' and relaunched session with '"@
                        }) + phrase + "'"@,
                        now,
                    )
                    &&& final(tracker)@ == (TrackerView {
                        handled,
                        last_event: Some(r@),
                        last_switch: Some(
                            SwitchView {
                                at: clock as int,
                                account_id: target.id@,
                                by_reset_credit: false,
                            },
                        ),
                        ..old(tracker)@
                    })
                },
                Reason::Reconnect(since) => {
                    let seconds: int = if clock > since.at {
                        (clock - since.at) / 1_000_000_000
                    } else {
                        0
                    };
                    &&& reports(
                        r,
                        "account_switched"@,
                        session,
                        (if stage.consumed {
                            "Resumed session in-place with '"@
                        } else {
                            "Relaunched session with '"@
                        }) + phrase + "' on newly active account (switched "@ + text::decimal_of(
                            seconds as nat,
                        ) + "s ago)"@,
                        now,
                    )
                    &&& final(tracker)@ == (TrackerView { handled, ..old(tracker)@ })
                },
            }
        }),
{
}

// ---------------------------------------------------------------------------
// What the user is shown
// ---------------------------------------------------------------------------

/// The user is told the account whose credit was redeemed; and that the session goes on with the
/// phrase where it found itself on a new account, or the account that was switched to.
pub proof fn user_is_told(
    restored: &RestoreStage,
    of_restored: Notice,
    announced: &AnnounceStage,
    of_announced: Notice,
)
    requires
        call_ensures(RestoreStage::notice, (restored,), of_restored),
        call_ensures(AnnounceStage::notice, (announced,), of_announced),
    ensures
        of_restored.title@ == "Reset Credit Redeemed"@,
        of_restored.body@ == "Auto-redeemed 1 reset credit for '"@ + restored.account.name@
            + "'. Limits restored to 100%."@,
        announced.relaunch.reason is Reconnect ==> of_announced.title@
            == "Codex Session Reconnected"@ && of_announced.body@ == "Reconnected with '"@
            + announced.relaunch.phrase@ + "' on newly active account"@,
        announced.relaunch.reason matches Reason::Switched(target) ==> of_announced.title@
            == "Codex Account Switched"@ && of_announced.body@ == "Switched to '"@ + target.name@
            + "'. Resuming session..."@,
{
}

} // verus!
