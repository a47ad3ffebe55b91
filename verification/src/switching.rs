//! Moving a session that hit its limits to where it can go on.
//!
//! A recovery alternates decisions, which are made here, with work on accounts, processes and
//! files, which is not. Each stage is a value that says what work is to be done next; what came
//! of the work is handed to a method of the stage, which decides on the next step.

use crate::accounts::{AccountResetCredits, StoredAccount, UsageInfo};
use crate::credits;
use crate::desktop;
use crate::desktop::{RunningProcess, SessionLog};
use crate::errors::RecoveryError;
use crate::moment::Moment;
use crate::platform::Platform;
use crate::scoring;
use crate::scoring::Choice;
use crate::sessions::{
    ActiveCodexSession, EventView, RecoveryEventNotification, SessionErrorKind, SessionView,
};
use crate::settings;
use crate::settings::AppSettings;
use crate::text;
use crate::tracker;
use crate::tracker::{AccountSwitch, SessionTracker, SwitchView, TrackerView, SECOND, SETTLING};
use vstd::hash_map::StringHashMap;
use vstd::prelude::*;

verus! {

/// How often it is looked whether a terminal has taken up the restart of a session.
pub const RESTART_LOOKS: u32 = 12;

/// How often it is looked whether the desktop app has quit.
pub const QUIT_LOOKS: u32 = 40;

/// A session that is to be recovered, and what that depends on.
pub struct Recovery {
    pub session: ActiveCodexSession,
    pub settings: AppSettings,
    pub accounts: Vec<StoredAccount>,
    /// The account in use.
    pub active_id: Option<String>,
    pub platform: Platform,
}

/// The position of the first account of the given id from a position on.
pub open spec fn account_position(
    accounts: Seq<StoredAccount>,
    id: Seq<char>,
    from: int,
) -> Option<int>
    decreases accounts.len() - from,
{
    if from < 0 || from >= accounts.len() {
        None
    } else if accounts[from].id@ == id {
        Some(from)
    } else {
        account_position(accounts, id, from + 1)
    }
}

impl Recovery {
    /// The ends of the subscriptions are dates of the calendar.
    pub open spec fn wf(self) -> bool {
        forall|i: int| 0 <= i < self.accounts@.len() ==> (#[trigger] self.accounts@[i]).wf()
    }

    /// The account in use, where its reset credits may be redeemed.
    pub open spec fn redeeming_account(self) -> Option<StoredAccount> {
        if self.settings.auto_redeem_reset_credits {
            match self.active_id {
                Some(id) => match account_position(self.accounts@, id@, 0) {
                    Some(i) => Some(self.accounts@[i]),
                    None => None,
                },
                None => None,
            }
        } else {
            None
        }
    }

    /// What the session is told to continue.
    pub open spec fn phrase(self, goal_active: bool) -> Seq<char> {
        settings::resume_phrase(
            self.session.session_id@,
            self.settings.continue_phrase@,
            goal_active,
        )
    }

    /// The account in use, where its reset credits may be redeemed.
    fn find_redeeming_account(&self) -> (r: Option<StoredAccount>)
        ensures
            r == self.redeeming_account(),
    {
        if !self.settings.auto_redeem_reset_credits {
            return None;
        }
        let id = match &self.active_id {
            Some(id) => id,
            None => {
                return None;
            },
        };
        for i in 0..self.accounts.len()
            invariant
                account_position(self.accounts@, id@, 0) == account_position(
                    self.accounts@,
                    id@,
                    i as int,
                ),
                self.settings.auto_redeem_reset_credits,
                self.active_id == Some(*id),
        {
            if text::same_text(self.accounts[i].id.as_str(), id.as_str()) {
                return Some(self.accounts[i].clone());
            }
        }
        None
    }

    /// What the session is told to continue.
    fn resolve_phrase(&self, goal_active: bool) -> (r: String)
        ensures
            r@ == self.phrase(goal_active),
    {
        settings::resolve_session_resume_phrase(
            self.session.session_id.as_str(),
            self.settings.continue_phrase.as_str(),
            goal_active,
        )
    }
}

// ---------------------------------------------------------------------------
// Stages
// ---------------------------------------------------------------------------

/// What is to be done next.
pub enum SwitchStep {
    /// Fetch the reset credits of the account in use.
    FetchCredits(CreditStage),
    /// Redeem a reset credit.
    Redeem(RedeemStage),
    /// Fetch what the other accounts have used and banked.
    FetchCandidates(CandidateStage),
    /// List the running sessions, to find those in the desktop app that hit the limit too.
    ListAffected(AffectedStage),
    /// List the running sessions with the ends of their logs, before the desktop app is closed.
    CheckHandoff(HandoffStage),
    /// Count the processes, before the desktop app is closed.
    CountDesktop(CountStage),
    /// Close the desktop app.
    CloseDesktop(CloseStage),
    /// List the processes, to find an idle desktop app beside the session.
    CheckIdle(IdleStage),
    /// List the running sessions with the ends of their logs, before an idle app is quit.
    CheckIdleHandoff(IdleHandoffStage),
    /// Ask the idle desktop app to quit.
    QuitDesktop(QuitStage),
    /// Wait a little and list the processes again.
    AwaitQuit(AwaitQuitStage),
    /// Lock the store of accounts against other changes, and read which account is in use.
    OpenStore(StoreStage),
    /// Put the credentials of the target in the place of those in use.
    SwapCredentials(SwapStage),
    /// Open the desktop app again as it was, and give up.
    ReopenDesktop(ReopenStage),
    /// Open the desktop app again, and give up.
    OpenAppAndFail(FailStage),
    /// Look up whether the session has an unfinished goal.
    LookUpGoal(GoalStage),
    /// Queue the phrase for the running session.
    QueueResume(QueueStage),
    /// Queue the phrase for the running session, whether that succeeds or not, and announce that
    /// the limits are restored.
    QueueRestored(RestoreStage),
    /// Let the sessions of the desktop app continue, and open it again.
    ResumeDesktop(DesktopStage),
    /// Open the desktop app again, whether that succeeds or not.
    OpenApp(OpenAppStage),
    /// Write the phrase to the restart file of the session.
    WriteRestart(RelaunchStage),
    /// End the process of the session, which still holds the old credentials.
    Terminate(RelaunchStage),
    /// Wait a little and look whether the restart file is still there.
    AwaitRestart(AwaitStage),
    /// Remove the restart file and launch the session in a terminal.
    Launch(RelaunchStage),
    /// Announce that the session goes on.
    Announce(AnnounceStage),
    /// The recovery is over.
    Finished(Result<RecoveryEventNotification, RecoveryError>),
}

/// What follows once the phrase is known.
pub enum Plan {
    /// The session is told to continue: its account was switched or restored meanwhile.
    Requeue(AccountSwitch),
    /// The session is started anew: its account was switched meanwhile.
    Reconnect(AccountSwitch),
    /// The session is told to continue: the limits of the account were restored.
    Restored(StoredAccount),
    /// The sessions of the desktop app go on with the account.
    Desktop(StoredAccount, ClosedDesktop),
    /// The session is started anew with the account; an idle desktop app was closed for that.
    Switched(StoredAccount, bool),
}

/// A desktop app that was closed, and its sessions that hit the limit.
pub struct ClosedDesktop {
    pub token: String,
    pub affected: Vec<ActiveCodexSession>,
}

/// What was closed before the account is switched.
pub enum Held {
    Nothing,
    /// The desktop app with the session.
    Desktop(ClosedDesktop),
    /// An idle desktop app beside the session.
    IdleDesktop,
}

/// Why a session is started anew.
pub enum Reason {
    /// The account was switched for another session.
    Reconnect(AccountSwitch),
    /// The account was switched for this session.
    Switched(StoredAccount),
}

pub struct CreditStage {
    pub case: Recovery,
    pub account: StoredAccount,
}

pub struct RedeemStage {
    pub case: Recovery,
    pub account: StoredAccount,
    pub credit_id: String,
}

pub struct CandidateStage {
    pub case: Recovery,
}

pub struct AffectedStage {
    pub case: Recovery,
    pub target: StoredAccount,
}

pub struct HandoffStage {
    pub case: Recovery,
    pub target: StoredAccount,
    pub affected: Vec<ActiveCodexSession>,
}

pub struct CountStage {
    pub case: Recovery,
    pub target: StoredAccount,
    pub affected: Vec<ActiveCodexSession>,
}

pub struct CloseStage {
    pub case: Recovery,
    pub target: StoredAccount,
    pub affected: Vec<ActiveCodexSession>,
}

pub struct IdleStage {
    pub case: Recovery,
    pub target: StoredAccount,
}

pub struct IdleHandoffStage {
    pub case: Recovery,
    pub target: StoredAccount,
    pub processes: Vec<RunningProcess>,
}

pub struct QuitStage {
    pub case: Recovery,
    pub target: StoredAccount,
}

pub struct AwaitQuitStage {
    pub case: Recovery,
    pub target: StoredAccount,
    /// How often it is still looked.
    pub left: u32,
}

pub struct StoreStage {
    pub case: Recovery,
    pub target: StoredAccount,
    pub held: Held,
}

pub struct SwapStage {
    pub case: Recovery,
    pub target: StoredAccount,
    pub held: Held,
}

pub struct ReopenStage {
    pub token: String,
    pub error: RecoveryError,
}

pub struct FailStage {
    pub error: RecoveryError,
}

pub struct GoalStage {
    pub case: Recovery,
    pub plan: Plan,
}

pub struct QueueStage {
    pub case: Recovery,
    pub since: AccountSwitch,
    pub phrase: String,
}

pub struct RestoreStage {
    pub case: Recovery,
    pub account: StoredAccount,
    pub phrase: String,
}

pub struct DesktopStage {
    pub case: Recovery,
    pub target: StoredAccount,
    pub closed: ClosedDesktop,
}

pub struct OpenAppStage {
    pub relaunch: RelaunchStage,
}

pub struct RelaunchStage {
    pub case: Recovery,
    pub reason: Reason,
    pub phrase: String,
}

pub struct AwaitStage {
    pub relaunch: RelaunchStage,
    /// How often it is still looked.
    pub left: u32,
}

pub struct AnnounceStage {
    pub relaunch: RelaunchStage,
    /// A terminal took up the restart: the session was not launched in another one.
    pub consumed: bool,
}

/// What is shown to the user.
pub struct Notice {
    pub title: String,
    pub body: String,
}

// ---------------------------------------------------------------------------
// The start
// ---------------------------------------------------------------------------

/// The first step of a recovery, at a reading of the monotonic clock. Where the account was
/// switched a moment ago, the error is still one of the account before, and no other account is
/// switched to.
pub open spec fn first_step(
    case: Recovery,
    last: Option<AccountSwitch>,
    clock: int,
) -> SwitchStep {
    match last {
        Some(since) if tracker::elapsed(clock, since.at as int) < SETTLING =>
            SwitchStep::LookUpGoal(
            GoalStage {
                case,
                plan: if since.by_reset_credit || case.session.is_desktop {
                    Plan::Requeue(since)
                } else {
                    Plan::Reconnect(since)
                },
            },
        ),
        _ => match case.redeeming_account() {
            Some(account) => SwitchStep::FetchCredits(CreditStage { case, account }),
            None => SwitchStep::FetchCandidates(CandidateStage { case }),
        },
    }
}

/// Begins the recovery of a session.
pub fn handle_account_switch_for_session(
    case: Recovery,
    tracker: &SessionTracker,
    clock: u64,
) -> (r: SwitchStep)
    ensures
        r == first_step(case, tracker.last_account_switch, clock as int),
{
    if let Some(since) = &tracker.last_account_switch {
        if tracker::time_since(clock, since.at as i128) < SETTLING as i128 {
            let since = since.clone();
            let plan = if since.by_reset_credit || case.session.is_desktop {
                Plan::Requeue(since)
            } else {
                Plan::Reconnect(since)
            };
            return SwitchStep::LookUpGoal(GoalStage { case, plan });
        }
    }
    match case.find_redeeming_account() {
        Some(account) => SwitchStep::FetchCredits(CreditStage { case, account }),
        None => SwitchStep::FetchCandidates(CandidateStage { case }),
    }
}

// ---------------------------------------------------------------------------
// Redeeming a reset credit
// ---------------------------------------------------------------------------

impl CreditStage {
    /// The reset credits of the account were fetched, as far as that succeeded: the one that
    /// expires first is redeemed.
    pub fn fetched(self, known: Option<AccountResetCredits>) -> (r: SwitchStep)
        ensures
            match r {
                SwitchStep::Redeem(stage) => stage.case == self.case && stage.account
                    == self.account && exists|i: int|
                    #[trigger] credits::is_next_to_redeem(scoring::credits_of(known), i)
                        && stage.credit_id == scoring::credits_of(known)[i].id,
                _ => r == SwitchStep::FetchCandidates(CandidateStage { case: self.case })
                    && !scoring::has_available_reset(known),
            },
    {
        if let Some(resets) = known {
            assert(scoring::credits_of(known) == resets.credits@);
            if let Some(i) = credits::next_to_redeem(&resets.credits) {
                let credit_id = resets.credits[i].id.clone();
                return SwitchStep::Redeem(
                    RedeemStage { case: self.case, account: self.account, credit_id },
                );
            }
        }
        SwitchStep::FetchCandidates(CandidateStage { case: self.case })
    }
}

impl RedeemStage {
    /// The step after the credit was redeemed, or not: then the account is switched.
    pub open spec fn after_redeeming(self, success: bool) -> SwitchStep {
        if success {
            SwitchStep::LookUpGoal(
                GoalStage { case: self.case, plan: Plan::Restored(self.account) },
            )
        } else {
            SwitchStep::FetchCandidates(CandidateStage { case: self.case })
        }
    }

    /// The credit was redeemed, or not.
    pub fn redeemed(self, success: bool) -> (r: SwitchStep)
        ensures
            r == self.after_redeeming(success),
    {
        if success {
            SwitchStep::LookUpGoal(
                GoalStage { case: self.case, plan: Plan::Restored(self.account) },
            )
        } else {
            SwitchStep::FetchCandidates(CandidateStage { case: self.case })
        }
    }
}

// ---------------------------------------------------------------------------
// Choosing an account
// ---------------------------------------------------------------------------

/// What was found out about an account in time.
pub struct Snapshot {
    pub account_id: String,
    pub usage: Option<UsageInfo>,
    pub resets: Option<AccountResetCredits>,
}

/// What the accounts have used, by id.
pub open spec fn usage_known(snapshots: Seq<Snapshot>) -> Map<Seq<char>, UsageInfo>
    decreases snapshots.len(),
{
    if snapshots.len() == 0 {
        Map::empty()
    } else {
        let before = usage_known(snapshots.drop_last());
        match snapshots.last().usage {
            Some(usage) => before.insert(snapshots.last().account_id@, usage),
            None => before,
        }
    }
}

/// What is banked for the accounts, by id.
pub open spec fn resets_known(snapshots: Seq<Snapshot>) -> Map<Seq<char>, AccountResetCredits>
    decreases snapshots.len(),
{
    if snapshots.len() == 0 {
        Map::empty()
    } else {
        let before = resets_known(snapshots.drop_last());
        match snapshots.last().resets {
            Some(resets) => before.insert(snapshots.last().account_id@, resets),
            None => before,
        }
    }
}

/// No account has more credits than 32 bits count.
pub open spec fn countable(snapshots: Seq<Snapshot>) -> bool {
    forall|i: int|
        0 <= i < snapshots.len() ==> ((#[trigger] snapshots[i]).resets matches Some(resets)
            ==> resets.credits@.len() <= u32::MAX)
}

/// What the choice of an account is made from.
pub open spec fn choice_of(case: Recovery, snapshots: Seq<Snapshot>) -> Choice {
    Choice {
        accounts: case.accounts@,
        current: text::opt_text(case.active_id),
        strategy: case.settings.auto_switch_strategy,
        usage: usage_known(snapshots),
        resets: resets_known(snapshots),
        warning_days: case.settings.reset_credit_warning_days,
    }
}

/// The step after an account was chosen. A session in the desktop app can be moved on macOS
/// alone; there an idle app is closed beside a session in a terminal.
pub open spec fn step_to(case: Recovery, target: StoredAccount) -> SwitchStep {
    if case.session.is_desktop {
        if case.platform == Platform::MacOs {
            SwitchStep::ListAffected(AffectedStage { case, target })
        } else {
            SwitchStep::Finished(Err(RecoveryError::DesktopUnsupported))
        }
    } else if case.platform == Platform::MacOs {
        SwitchStep::CheckIdle(IdleStage { case, target })
    } else {
        SwitchStep::OpenStore(StoreStage { case, target, held: Held::Nothing })
    }
}

/// The step after an account was chosen.
fn move_to(case: Recovery, target: StoredAccount) -> (r: SwitchStep)
    ensures
        r == step_to(case, target),
{
    if case.session.is_desktop {
        if case.platform == Platform::MacOs {
            SwitchStep::ListAffected(AffectedStage { case, target })
        } else {
            SwitchStep::Finished(Err(RecoveryError::DesktopUnsupported))
        }
    } else if case.platform == Platform::MacOs {
        SwitchStep::CheckIdle(IdleStage { case, target })
    } else {
        SwitchStep::OpenStore(StoreStage { case, target, held: Held::Nothing })
    }
}

proof fn lemma_choice_wf(case: Recovery, snapshots: Seq<Snapshot>)
    requires
        case.wf(),
        countable(snapshots),
    ensures
        choice_of(case, snapshots).wf(),
    decreases snapshots.len(),
{
    if snapshots.len() > 0 {
        let before = snapshots.drop_last();
        assert forall|i: int| 0 <= i < before.len() implies ((#[trigger] before[i]).resets matches
            Some(resets) ==> resets.credits@.len() <= u32::MAX) by {
            assert(before[i] == snapshots[i]);
        }
        lemma_choice_wf(case, before);
        assert(snapshots.last() == snapshots[snapshots.len() - 1]);
        assert forall|id: Seq<char>| #[trigger]
            resets_known(snapshots).contains_key(id) implies resets_known(
            snapshots,
        )[id].credits@.len() <= u32::MAX by {
            assert(choice_of(case, before).resets == resets_known(before));
        }
    }
}

impl CandidateStage {
    /// The accounts to ask about: all but the one in use.
    pub fn candidates(&self) -> (r: Vec<String>)
        ensures
            r@ == self.case.accounts@.filter(
                |account: StoredAccount|
                    scoring::is_candidate(account, text::opt_text(self.case.active_id)),
            ).map_values(|account: StoredAccount| account.id),
    {
        let ghost keep = |account: StoredAccount|
            scoring::is_candidate(account, text::opt_text(self.case.active_id));
        let ghost id_of = |account: StoredAccount| account.id;
        let ghost all = self.case.accounts@;
        let mut ids: Vec<String> = Vec::new();
        reveal(Seq::filter);
        assert(all.take(0) =~= Seq::empty());
        assert(ids@ =~= all.take(0).filter(keep).map_values(id_of));
        for i in 0..self.case.accounts.len()
            invariant
                all == self.case.accounts@,
                keep == (|account: StoredAccount|
                    scoring::is_candidate(account, text::opt_text(self.case.active_id))),
                id_of == (|account: StoredAccount| account.id),
                ids@ == all.take(i as int).filter(keep).map_values(id_of),
        {
            proof {
                reveal(Seq::filter);
                assert(all.take(i + 1).drop_last() =~= all.take(i as int));
                assert(all.take(i + 1).last() == all[i as int]);
            }
            let account = &self.case.accounts[i];
            let in_use = match &self.case.active_id {
                Some(id) => text::same_text(account.id.as_str(), id.as_str()),
                None => false,
            };
            let ghost before = all.take(i as int).filter(keep);
            if !in_use {
                assert(keep(*account));
                ids.push(account.id.clone());
                assert(all.take(i + 1).filter(keep) == before.push(*account));
                assert(before.push(*account).map_values(id_of) =~= before.map_values(id_of).push(
                    account.id,
                ));
            } else {
                assert(!keep(*account));
                assert(all.take(i + 1).filter(keep) == before);
            }
        }
        assert(all.take(all.len() as int) =~= all);
        ids
    }

    /// What could be found out about the other accounts in time is known: one of them is chosen.
    pub fn fetched(self, snapshots: Vec<Snapshot>, now: Moment) -> (r: SwitchStep)
        requires
            self.case.wf(),
            countable(snapshots@),
            now.wf(),
        ensures
            ({
                let choice = choice_of(self.case, snapshots@);
                ||| r == SwitchStep::Finished(Err(RecoveryError::NoEligibleAccount)) && forall|
                    i: int,
                | !#[trigger] choice.candidate(i)
                ||| exists|i: int| #[trigger]
                    choice.chooses(i, now) && r == step_to(self.case, choice.accounts[i])
            }),
    {
        let ghost all = snapshots@;
        proof {
            lemma_choice_wf(self.case, all);
        }
        let (usage_map, resets_map) = collect_snapshots(snapshots);
        let case = self.case;
        let current = match &case.active_id {
            Some(id) => Some(id.as_str()),
            None => None,
        };
        let chosen = scoring::select_best_account_at(
            case.accounts.as_slice(),
            current,
            case.settings.auto_switch_strategy,
            &usage_map,
            &resets_map,
            case.settings.reset_credit_warning_days,
            now,
        );
        match chosen {
            None => SwitchStep::Finished(Err(RecoveryError::NoEligibleAccount)),
            Some(target) => move_to(case, target),
        }
    }
}

/// Sorts what was found out by account.
pub fn collect_snapshots(snapshots: Vec<Snapshot>) -> (r: (
    StringHashMap<UsageInfo>,
    StringHashMap<AccountResetCredits>,
))
    ensures
        r.0@ == usage_known(snapshots@),
        r.1@ == resets_known(snapshots@),
{
    let mut usage_map: StringHashMap<UsageInfo> = StringHashMap::new();
    let mut resets_map: StringHashMap<AccountResetCredits> = StringHashMap::new();
    let ghost all = snapshots@;
    assert(all.take(0) =~= Seq::empty());
    for snapshot in it: snapshots
        invariant
            it.seq() == all,
            usage_map@ == usage_known(all.take(it.index() as int)),
            resets_map@ == resets_known(all.take(it.index() as int)),
    {
        proof {
            let i = it.index() as int;
            assert(all.take(i + 1).drop_last() =~= all.take(i));
            assert(all.take(i + 1).last() == snapshot);
        }
        if let Some(usage) = snapshot.usage {
            usage_map.insert(snapshot.account_id.clone(), usage);
        }
        if let Some(resets) = snapshot.resets {
            resets_map.insert(snapshot.account_id, resets);
        }
    }
    assert(all.take(all.len() as int) =~= all);
    (usage_map, resets_map)
}

// ---------------------------------------------------------------------------
// Closing the desktop app with the session
// ---------------------------------------------------------------------------

/// The session runs in the desktop app and hit its usage limit.
pub open spec fn is_affected(session: ActiveCodexSession) -> bool {
    session.is_desktop && (session.last_error matches Some(error) && error.kind
        == SessionErrorKind::UsageLimitExceeded)
}

/// A session of the given id is among the sessions.
pub open spec fn has_session(list: Seq<ActiveCodexSession>, id: Seq<char>) -> bool {
    exists|i: int| 0 <= i < list.len() && (#[trigger] list[i]).session_id@ == id
}

/// The sessions that go on together with the given one: all in the desktop app that hit the
/// limit, and the given one in any case.
pub open spec fn affected_sessions(
    list: Seq<ActiveCodexSession>,
    session: ActiveCodexSession,
) -> Seq<ActiveCodexSession> {
    let found = list.filter(|other: ActiveCodexSession| is_affected(other));
    if has_session(found, session.session_id@) {
        found
    } else {
        found.push(session)
    }
}

/// Whether a session runs in the desktop app and hit its usage limit.
fn hit_limit_in_desktop(session: &ActiveCodexSession) -> (r: bool)
    ensures
        r == is_affected(*session),
{
    session.is_desktop && match &session.last_error {
        Some(error) => error.kind == SessionErrorKind::UsageLimitExceeded,
        None => false,
    }
}

/// The sessions that go on together with the given one.
fn gather_affected(list: Vec<ActiveCodexSession>, session: &ActiveCodexSession) -> (r: Vec<
    ActiveCodexSession,
>)
    ensures
        r@ == affected_sessions(list@, *session),
{
    let ghost keep = |other: ActiveCodexSession| is_affected(other);
    let ghost all = list@;
    let mut found: Vec<ActiveCodexSession> = Vec::new();
    let mut present: bool = false;
    reveal(Seq::filter);
    assert(all.take(0) =~= Seq::empty());
    for i in 0..list.len()
        invariant
            all == list@,
            keep == (|other: ActiveCodexSession| is_affected(other)),
            found@ == all.take(i as int).filter(keep),
            present == has_session(found@, session.session_id@),
    {
        proof {
            reveal(Seq::filter);
            assert(all.take(i + 1).drop_last() =~= all.take(i as int));
            assert(all.take(i + 1).last() == all[i as int]);
        }
        let ghost before = found@;
        let other = &list[i];
        if hit_limit_in_desktop(other) {
            assert(keep(*other));
            found.push(other.clone());
            assert(found@ == all.take(i + 1).filter(keep));
            if text::same_text(other.session_id.as_str(), session.session_id.as_str()) {
                assert(found@[before.len() as int].session_id@ == session.session_id@);
                present = true;
            }
            proof {
                if has_session(before, session.session_id@) {
                    let k = choose|k: int|
                        0 <= k < before.len() && (#[trigger] before[k]).session_id@
                            == session.session_id@;
                    assert(found@[k] == before[k]);
                }
                if has_session(found@, session.session_id@) {
                    let k = choose|k: int|
                        0 <= k < found@.len() && (#[trigger] found@[k]).session_id@
                            == session.session_id@;
                    if k < before.len() {
                        assert(before[k] == found@[k]);
                    }
                }
            }
        } else {
            assert(!keep(*other));
        }
    }
    assert(all.take(all.len() as int) =~= all);
    if !present {
        found.push(session.clone());
    }
    found
}

/// The recovery is given up for what an outside service or program reported.
pub open spec fn gives_up(step: SwitchStep, error: RecoveryError) -> bool {
    step == SwitchStep::Finished(Err(error))
}

impl AffectedStage {
    /// The running sessions were listed.
    pub fn listed(self, list: Result<Vec<ActiveCodexSession>, String>) -> (r: SwitchStep)
        ensures
            match list {
                Err(message) => gives_up(r, RecoveryError::Outside(message)),
                Ok(list) => {
                    &&& r matches SwitchStep::CheckHandoff(stage)
                    &&& stage.case == self.case
                    &&& stage.target == self.target
                    &&& stage.affected@ == affected_sessions(list@, self.case.session)
                },
            },
    {
        match list {
            Err(message) => SwitchStep::Finished(Err(RecoveryError::Outside(message))),
            Ok(list) => {
                let affected = gather_affected(list, &self.case.session);
                SwitchStep::CheckHandoff(
                    HandoffStage { case: self.case, target: self.target, affected },
                )
            },
        }
    }
}

impl HandoffStage {
    /// The running sessions were listed with the ends of their logs: the app may be closed, or
    /// not.
    pub fn listed(self, others: Result<Vec<SessionLog>, String>) -> (r: SwitchStep)
        ensures
            match others {
                Err(message) => gives_up(r, RecoveryError::Outside(message)),
                Ok(others) => match desktop::first_obstacle(
                    others@,
                    0,
                    self.case.session.session_id@,
                ) {
                    Some(error) => gives_up(r, error),
                    None => r == SwitchStep::CountDesktop(
                        CountStage {
                            case: self.case,
                            target: self.target,
                            affected: self.affected,
                        },
                    ),
                },
            },
    {
        match others {
            Err(message) => SwitchStep::Finished(Err(RecoveryError::Outside(message))),
            Ok(others) => match desktop::desktop_handoff_is_exclusive(
                self.case.session.session_id.as_str(),
                others,
            ) {
                Err(error) => SwitchStep::Finished(Err(error)),
                Ok(()) => SwitchStep::CountDesktop(
                    CountStage { case: self.case, target: self.target, affected: self.affected },
                ),
            },
        }
    }
}

impl CountStage {
    /// The processes were counted, and it was looked whether the first is that of the desktop
    /// app: it is closed only where it is the only one.
    pub fn counted(self, found: Result<(usize, bool), String>) -> (r: SwitchStep)
        ensures
            match found {
                Err(message) => gives_up(r, RecoveryError::Outside(message)),
                Ok((count, first_is_desktop)) => if count == 1 && first_is_desktop {
                    r == SwitchStep::CloseDesktop(
                        CloseStage {
                            case: self.case,
                            target: self.target,
                            affected: self.affected,
                        },
                    )
                } else {
                    gives_up(r, RecoveryError::NotOneDesktop)
                },
            },
    {
        match found {
            Err(message) => SwitchStep::Finished(Err(RecoveryError::Outside(message))),
            Ok((count, first_is_desktop)) => if desktop::is_sole_desktop(count, first_is_desktop) {
                SwitchStep::CloseDesktop(
                    CloseStage { case: self.case, target: self.target, affected: self.affected },
                )
            } else {
                SwitchStep::Finished(Err(RecoveryError::NotOneDesktop))
            },
        }
    }
}

/// What came of closing the desktop app.
pub struct ClosingReport {
    /// By what it can be opened again as it was.
    pub reopen_token: Option<String>,
    /// The processes that did not end.
    pub failed_pids: Vec<u32>,
}

impl CloseStage {
    /// The desktop app was closed: it must be possible to open it again, and no process may be
    /// left.
    pub fn closed(self, report: Result<ClosingReport, String>) -> (r: SwitchStep)
        ensures
            match report {
                Err(message) => gives_up(r, RecoveryError::Outside(message)),
                Ok(report) => match report.reopen_token {
                    None => gives_up(r, RecoveryError::DesktopNotRecorded),
                    Some(token) => if report.failed_pids@.len() > 0 {
                        r == SwitchStep::ReopenDesktop(
                            ReopenStage { token, error: RecoveryError::DesktopNotClean },
                        )
                    } else {
                        r == SwitchStep::OpenStore(
                            StoreStage {
                                case: self.case,
                                target: self.target,
                                held: Held::Desktop(
                                    ClosedDesktop { token, affected: self.affected },
                                ),
                            },
                        )
                    },
                },
            },
    {
        match report {
            Err(message) => SwitchStep::Finished(Err(RecoveryError::Outside(message))),
            Ok(report) => match report.reopen_token {
                None => SwitchStep::Finished(Err(RecoveryError::DesktopNotRecorded)),
                Some(token) => if report.failed_pids.len() > 0 {
                    SwitchStep::ReopenDesktop(
                        ReopenStage { token, error: RecoveryError::DesktopNotClean },
                    )
                } else {
                    SwitchStep::OpenStore(
                        StoreStage {
                            case: self.case,
                            target: self.target,
                            held: Held::Desktop(ClosedDesktop { token, affected: self.affected }),
                        },
                    )
                },
            },
        }
    }
}

impl ReopenStage {
    /// It was tried to open the desktop app again: the recovery is given up.
    pub fn tried(self) -> (r: SwitchStep)
        ensures
            gives_up(r, self.error),
    {
        SwitchStep::Finished(Err(self.error))
    }
}

impl FailStage {
    /// It was tried to open the desktop app again: the recovery is given up.
    pub fn tried(self) -> (r: SwitchStep)
        ensures
            gives_up(r, self.error),
    {
        SwitchStep::Finished(Err(self.error))
    }
}

// ---------------------------------------------------------------------------
// Closing an idle desktop app beside the session
// ---------------------------------------------------------------------------

impl IdleStage {
    /// The processes were listed: where the session runs alone, nothing is to be closed.
    pub fn listed(self, processes: Result<Vec<RunningProcess>, String>) -> (r: SwitchStep)
        ensures
            match processes {
                Err(message) => gives_up(r, RecoveryError::Outside(message)),
                Ok(processes) => if desktop::runs_alone(processes@, self.case.session.pid) {
                    r == SwitchStep::OpenStore(
                        StoreStage { case: self.case, target: self.target, held: Held::Nothing },
                    )
                } else {
                    r == SwitchStep::CheckIdleHandoff(
                        IdleHandoffStage { case: self.case, target: self.target, processes },
                    )
                },
            },
    {
        match processes {
            Err(message) => SwitchStep::Finished(Err(RecoveryError::Outside(message))),
            Ok(processes) => if desktop::is_alone(&processes, self.case.session.pid) {
                SwitchStep::OpenStore(
                    StoreStage { case: self.case, target: self.target, held: Held::Nothing },
                )
            } else {
                SwitchStep::CheckIdleHandoff(
                    IdleHandoffStage { case: self.case, target: self.target, processes },
                )
            },
        }
    }
}

impl IdleHandoffStage {
    /// The running sessions were listed with the ends of their logs: the app is quit only where
    /// nothing is lost, and nothing else runs beside the session.
    pub fn listed(self, others: Result<Vec<SessionLog>, String>) -> (r: SwitchStep)
        ensures
            match others {
                Err(message) => gives_up(r, RecoveryError::Outside(message)),
                Ok(others) => match desktop::first_obstacle(
                    others@,
                    0,
                    self.case.session.session_id@,
                ) {
                    Some(error) => gives_up(r, error),
                    None => if desktop::runs_beside_desktop(
                        self.processes@,
                        self.case.session.pid,
                    ) {
                        r == SwitchStep::QuitDesktop(
                            QuitStage { case: self.case, target: self.target },
                        )
                    } else {
                        gives_up(r, RecoveryError::AnotherProcess)
                    },
                },
            },
    {
        match others {
            Err(message) => SwitchStep::Finished(Err(RecoveryError::Outside(message))),
            Ok(others) => match desktop::desktop_handoff_is_exclusive(
                self.case.session.session_id.as_str(),
                others,
            ) {
                Err(error) => SwitchStep::Finished(Err(error)),
                Ok(()) => if desktop::is_beside_desktop(&self.processes, self.case.session.pid) {
                    SwitchStep::QuitDesktop(QuitStage { case: self.case, target: self.target })
                } else {
                    SwitchStep::Finished(Err(RecoveryError::AnotherProcess))
                },
            },
        }
    }
}

impl QuitStage {
    /// The app was asked to quit, and agreed, or not.
    pub fn asked(self, agreed: Result<bool, String>) -> (r: SwitchStep)
        ensures
            match agreed {
                Err(message) => gives_up(r, RecoveryError::Outside(message)),
                Ok(false) => gives_up(r, RecoveryError::DesktopNotQuit),
                Ok(true) => r == SwitchStep::AwaitQuit(
                    AwaitQuitStage { case: self.case, target: self.target, left: QUIT_LOOKS },
                ),
            },
    {
        match agreed {
            Err(message) => SwitchStep::Finished(Err(RecoveryError::Outside(message))),
            Ok(false) => SwitchStep::Finished(Err(RecoveryError::DesktopNotQuit)),
            Ok(true) => SwitchStep::AwaitQuit(
                AwaitQuitStage { case: self.case, target: self.target, left: QUIT_LOOKS },
            ),
        }
    }
}

impl AwaitQuitStage {
    /// The processes were listed again: once the session runs alone, the app has quit.
    pub fn listed(self, processes: Result<Vec<RunningProcess>, String>) -> (r: SwitchStep)
        ensures
            match processes {
                Err(message) => gives_up(r, RecoveryError::Outside(message)),
                Ok(processes) => if desktop::runs_alone(processes@, self.case.session.pid) {
                    r == SwitchStep::OpenStore(
                        StoreStage {
                            case: self.case,
                            target: self.target,
                            held: Held::IdleDesktop,
                        },
                    )
                } else if self.left <= 1 {
                    gives_up(r, RecoveryError::DesktopNotClosed)
                } else {
                    r == SwitchStep::AwaitQuit(
                        AwaitQuitStage {
                            case: self.case,
                            target: self.target,
                            left: (self.left - 1) as u32,
                        },
                    )
                },
            },
    {
        match processes {
            Err(message) => SwitchStep::Finished(Err(RecoveryError::Outside(message))),
            Ok(processes) => if desktop::is_alone(&processes, self.case.session.pid) {
                SwitchStep::OpenStore(
                    StoreStage { case: self.case, target: self.target, held: Held::IdleDesktop },
                )
            } else if self.left <= 1 {
                SwitchStep::Finished(Err(RecoveryError::DesktopNotClosed))
            } else {
                SwitchStep::AwaitQuit(
                    AwaitQuitStage { case: self.case, target: self.target, left: self.left - 1 },
                )
            },
        }
    }
}

// ---------------------------------------------------------------------------
// Switching the account
// ---------------------------------------------------------------------------

/// The step after the account could not be switched: what was closed is opened again.
pub open spec fn undone(held: Held, error: RecoveryError) -> SwitchStep {
    match held {
        Held::Nothing => SwitchStep::Finished(Err(error)),
        Held::Desktop(closed) => SwitchStep::ReopenDesktop(
            ReopenStage { token: closed.token, error },
        ),
        Held::IdleDesktop => SwitchStep::OpenAppAndFail(FailStage { error }),
    }
}

/// The step after the account could not be switched.
fn undo(held: Held, error: RecoveryError) -> (r: SwitchStep)
    ensures
        r == undone(held, error),
{
    match held {
        Held::Nothing => SwitchStep::Finished(Err(error)),
        Held::Desktop(closed) => SwitchStep::ReopenDesktop(
            ReopenStage { token: closed.token, error },
        ),
        Held::IdleDesktop => SwitchStep::OpenAppAndFail(FailStage { error }),
    }
}

/// Whether two optional ids are the same.
fn same_id(a: &Option<String>, b: &Option<String>) -> (r: bool)
    ensures
        r == (text::opt_text(*a) == text::opt_text(*b)),
{
    match (a, b) {
        (Some(x), Some(y)) => text::same_text(x.as_str(), y.as_str()),
        (None, None) => true,
        _ => false,
    }
}

impl StoreStage {
    /// The store was locked, and it was read which account is in use: it must be the one with
    /// which the recovery began.
    pub fn opened(self, active_id: Result<Option<String>, String>) -> (r: SwitchStep)
        ensures
            match active_id {
                Err(message) => r == undone(self.held, RecoveryError::Outside(message)),
                Ok(active_id) => if text::opt_text(active_id) == text::opt_text(
                    self.case.active_id,
                ) {
                    r == SwitchStep::SwapCredentials(
                        SwapStage { case: self.case, target: self.target, held: self.held },
                    )
                } else {
                    r == undone(self.held, RecoveryError::ActiveAccountChanged)
                },
            },
    {
        match active_id {
            Err(message) => undo(self.held, RecoveryError::Outside(message)),
            Ok(active_id) => if same_id(&active_id, &self.case.active_id) {
                SwitchStep::SwapCredentials(
                    SwapStage { case: self.case, target: self.target, held: self.held },
                )
            } else {
                undo(self.held, RecoveryError::ActiveAccountChanged)
            },
        }
    }
}

impl SwapStage {
    /// The credentials were put in place, and the target is the account in use, with the tokens
    /// that it has by now; or not.
    pub fn swapped(self, target: Result<StoredAccount, String>) -> (r: SwitchStep)
        ensures
            match target {
                Err(message) => r == undone(self.held, RecoveryError::Outside(message)),
                Ok(target) => r == SwitchStep::LookUpGoal(
                    GoalStage {
                        case: self.case,
                        plan: match self.held {
                            Held::Nothing => Plan::Switched(target, false),
                            Held::Desktop(closed) => Plan::Desktop(target, closed),
                            Held::IdleDesktop => Plan::Switched(target, true),
                        },
                    },
                ),
            },
    {
        match target {
            Err(message) => undo(self.held, RecoveryError::Outside(message)),
            Ok(target) => {
                let plan = match self.held {
                    Held::Nothing => Plan::Switched(target, false),
                    Held::Desktop(closed) => Plan::Desktop(target, closed),
                    Held::IdleDesktop => Plan::Switched(target, true),
                };
                SwitchStep::LookUpGoal(GoalStage { case: self.case, plan })
            },
        }
    }
}

// ---------------------------------------------------------------------------
// Going on
// ---------------------------------------------------------------------------

/// The session is to be started anew for a reason, with a phrase.
pub open spec fn starts_anew(
    relaunch: RelaunchStage,
    case: Recovery,
    reason: Reason,
    phrase: Seq<char>,
) -> bool {
    relaunch.case == case && relaunch.reason == reason && relaunch.phrase@ == phrase
}

impl GoalStage {
    /// The step that follows once it is known whether the session has an unfinished goal.
    pub open spec fn leads_to(self, goal_active: bool, r: SwitchStep) -> bool {
        let phrase = self.case.phrase(goal_active);
        match self.plan {
            Plan::Requeue(since) => {
                &&& r matches SwitchStep::QueueResume(stage)
                &&& stage.case == self.case
                &&& stage.since == since
                &&& stage.phrase@ == phrase
            },
            Plan::Reconnect(since) => {
                &&& r matches SwitchStep::WriteRestart(stage)
                &&& starts_anew(stage, self.case, Reason::Reconnect(since), phrase)
            },
            Plan::Restored(account) => {
                &&& r matches SwitchStep::QueueRestored(stage)
                &&& stage.case == self.case
                &&& stage.account == account
                &&& stage.phrase@ == phrase
            },
            Plan::Desktop(target, closed) => r == SwitchStep::ResumeDesktop(
                DesktopStage { case: self.case, target, closed },
            ),
            Plan::Switched(target, true) => {
                &&& r matches SwitchStep::OpenApp(stage)
                &&& starts_anew(stage.relaunch, self.case, Reason::Switched(target), phrase)
            },
            Plan::Switched(target, false) => {
                &&& r matches SwitchStep::WriteRestart(stage)
                &&& starts_anew(stage, self.case, Reason::Switched(target), phrase)
            },
        }
    }

    /// What is remembered once it is known whether the session has an unfinished goal: for
    /// sessions in the desktop app, that the account was switched.
    pub open spec fn remembered(self, before: TrackerView, clock: int) -> TrackerView {
        match self.plan {
            Plan::Desktop(target, _) => before.with_switch(
                SwitchView { at: clock, account_id: target.id@, by_reset_credit: false },
            ),
            _ => before,
        }
    }

    /// It was looked up whether the session has an unfinished goal.
    pub fn looked_up(
        self,
        goal_active: bool,
        tracker: &mut SessionTracker,
        clock: u64,
    ) -> (r: SwitchStep)
        requires
            old(tracker).wf(),
        ensures
            self.leads_to(goal_active, r),
            final(tracker).wf(),
            final(tracker)@ == self.remembered(old(tracker)@, clock as int),
    {
        let case = self.case;
        let phrase = case.resolve_phrase(goal_active);
        match self.plan {
            Plan::Requeue(since) => SwitchStep::QueueResume(QueueStage { case, since, phrase }),
            Plan::Reconnect(since) => SwitchStep::WriteRestart(
                RelaunchStage { case, reason: Reason::Reconnect(since), phrase },
            ),
            Plan::Restored(account) => SwitchStep::QueueRestored(
                RestoreStage { case, account, phrase },
            ),
            Plan::Desktop(target, closed) => {
                tracker.note_switch(clock, target.id.clone(), false);
                SwitchStep::ResumeDesktop(DesktopStage { case, target, closed })
            },
            Plan::Switched(target, closed) => {
                let relaunch = RelaunchStage { case, reason: Reason::Switched(target), phrase };
                if closed {
                    SwitchStep::OpenApp(OpenAppStage { relaunch })
                } else {
                    SwitchStep::WriteRestart(relaunch)
                }
            },
        }
    }
}

/// What is reported of a recovery.
pub open spec fn event_of(
    kind: Seq<char>,
    session: SessionView,
    message: Seq<char>,
    now: Moment,
) -> EventView {
    EventView {
        event_type: kind,
        session_id: session.session_id,
        message,
        timestamp: now,
    }
}

/// The whole seconds since a change, at a reading of the monotonic clock.
pub open spec fn seconds_since(since: AccountSwitch, clock: int) -> nat {
    (tracker::elapsed(clock, since.at as int) / SECOND as int) as nat
}

/// The whole seconds since a change, at a reading of the monotonic clock.
fn whole_seconds_since(since: &AccountSwitch, clock: u64) -> (r: u64)
    ensures
        r == seconds_since(*since, clock as int),
{
    if clock > since.at {
        (clock - since.at) / SECOND
    } else {
        0
    }
}

impl QueueStage {
    /// What is reported: the session goes on with what is in use since.
    pub open spec fn event(self, clock: int, now: Moment) -> EventView {
        event_of(
            if self.since.by_reset_credit {
                "reset_credit_redeemed"@
            } else {
                "account_switched"@
            },
            self.case.session@,
            "Resumed session with '"@ + self.phrase@ + "' on account '"@ + self.since.account_id@
                + "' after "@ + text::decimal_of(seconds_since(self.since, clock)) + "s"@,
            now,
        )
    }

    /// The phrase was queued, or not: the session is dealt with once it was.
    pub fn queued(
        self,
        outcome: Result<(), String>,
        tracker: &mut SessionTracker,
        clock: u64,
        now: Moment,
    ) -> (r: Result<RecoveryEventNotification, RecoveryError>)
        requires
            old(tracker).wf(),
        ensures
            final(tracker).wf(),
            match outcome {
                Err(message) => r == Err::<RecoveryEventNotification, RecoveryError>(
                    RecoveryError::Outside(message),
                ) && final(tracker)@ == old(tracker)@,
                Ok(_) => {
                    &&& r matches Ok(event)
                    &&& event@ == self.event(clock as int, now)
                    &&& final(tracker)@ == old(tracker)@.with_handled(
                        self.case.session@,
                    ).with_event(event@)
                },
            },
    {
        if let Err(message) = outcome {
            return Err(RecoveryError::Outside(message));
        }
        tracker.mark_handled(&self.case.session);
        let mut message = "Resumed session with '".to_owned();
        message.append(self.phrase.as_str());
        message.append("' on account '");
        message.append(self.since.account_id.as_str());
        message.append("' after ");
        message.append(text::decimal(whole_seconds_since(&self.since, clock)).as_str());
        message.append("s");
        let event = RecoveryEventNotification {
            event_type: if self.since.by_reset_credit {
                "reset_credit_redeemed".to_owned()
            } else {
                "account_switched".to_owned()
            },
            session_id: self.case.session.session_id,
            message,
            timestamp: now,
        };
        tracker.note_event(&event);
        Ok(event)
    }
}

impl RestoreStage {
    /// What is shown to the user.
    pub fn notice(&self) -> (r: Notice)
        ensures
            r.title@ == "Reset Credit Redeemed"@,
            r.body@ == "Auto-redeemed 1 reset credit for '"@ + self.account.name@
                + "'. Limits restored to 100%."@,
    {
        let mut body = "Auto-redeemed 1 reset credit for '".to_owned();
        body.append(self.account.name.as_str());
        body.append("'. Limits restored to 100%.");
        Notice { title: "Reset Credit Redeemed".to_owned(), body }
    }

    /// What is reported.
    pub open spec fn event(self, now: Moment) -> EventView {
        event_of(
            "reset_credit_redeemed"@,
            self.case.session@,
            "Auto-redeemed reset credit on active account '"@ + self.account.name@
                + "' (limits refreshed). Resumed session in-place."@,
            now,
        )
    }

    /// What is remembered: the session is dealt with, and the account counts as having been
    /// switched to.
    pub open spec fn remembered(
        self,
        before: TrackerView,
        clock: int,
        now: Moment,
    ) -> TrackerView {
        before.with_handled(self.case.session@).with_switch(
            SwitchView { at: clock, account_id: self.account.id@, by_reset_credit: true },
        ).with_event(self.event(now))
    }

    /// The phrase was queued and the user told.
    pub fn announced(self, tracker: &mut SessionTracker, clock: u64, now: Moment) -> (r:
        RecoveryEventNotification)
        requires
            old(tracker).wf(),
        ensures
            final(tracker).wf(),
            r@ == self.event(now),
            final(tracker)@ == self.remembered(old(tracker)@, clock as int, now),
    {
        tracker.mark_handled(&self.case.session);
        tracker.note_switch(clock, self.account.id, true);
        let mut message = "Auto-redeemed reset credit on active account '".to_owned();
        message.append(self.account.name.as_str());
        message.append("' (limits refreshed). Resumed session in-place.");
        let event = RecoveryEventNotification {
            event_type: "reset_credit_redeemed".to_owned(),
            session_id: self.case.session.session_id,
            message,
            timestamp: now,
        };
        tracker.note_event(&event);
        event
    }
}

// ---------------------------------------------------------------------------
// Going on in the desktop app
// ---------------------------------------------------------------------------

/// One of the ids is the given one.
pub open spec fn has_id(ids: Seq<String>, id: Seq<char>) -> bool {
    exists|i: int| 0 <= i < ids.len() && (#[trigger] ids[i])@ == id
}

/// What is remembered once the sessions of the given ids go on.
pub open spec fn with_started(
    before: TrackerView,
    affected: Seq<ActiveCodexSession>,
    started: Seq<String>,
) -> TrackerView
    decreases affected.len(),
{
    if affected.len() == 0 {
        before
    } else {
        let rest = with_started(before, affected.drop_last(), started);
        if has_id(started, affected.last().session_id@) {
            rest.with_handled(affected.last()@)
        } else {
            rest
        }
    }
}

/// Whether one of the ids is the given one.
fn contains_id(ids: &Vec<String>, id: &str) -> (r: bool)
    ensures
        r == has_id(ids@, id@),
{
    for i in 0..ids.len()
        invariant
            forall|k: int| 0 <= k < i ==> (#[trigger] ids@[k])@ != id@,
    {
        if text::same_text(ids[i].as_str(), id) {
            return true;
        }
    }
    false
}

impl DesktopStage {
    /// What is reported.
    pub open spec fn event(self, started: nat, now: Moment) -> EventView {
        event_of(
            "account_switched"@,
            self.case.session@,
            "Switched to '"@ + self.target.name@ + "' and started continuations in "@
                + text::decimal_of(started) + " desktop sessions"@,
            now,
        )
    }

    /// The sessions of the given ids go on: those are dealt with.
    pub fn resumed(
        self,
        outcome: Result<Vec<String>, RecoveryError>,
        tracker: &mut SessionTracker,
        now: Moment,
    ) -> (r: Result<RecoveryEventNotification, RecoveryError>)
        requires
            old(tracker).wf(),
        ensures
            final(tracker).wf(),
            match outcome {
                Err(error) => r == Err::<RecoveryEventNotification, RecoveryError>(error)
                    && final(tracker)@ == old(tracker)@,
                Ok(started) => {
                    &&& r matches Ok(event)
                    &&& event@ == self.event(started@.len(), now)
                    &&& final(tracker)@ == with_started(
                        old(tracker)@,
                        self.closed.affected@,
                        started@,
                    ).with_event(event@)
                },
            },
    {
        let started = match outcome {
            Err(error) => {
                return Err(error);
            },
            Ok(started) => started,
        };
        let ghost all = self.closed.affected@;
        assert(all.take(0) =~= Seq::empty());
        for i in 0..self.closed.affected.len()
            invariant
                tracker.wf(),
                all == self.closed.affected@,
                tracker@ == with_started(old(tracker)@, all.take(i as int), started@),
        {
            assert(all.take(i + 1).drop_last() =~= all.take(i as int));
            assert(all.take(i + 1).last() == all[i as int]);
            let recovered = &self.closed.affected[i];
            if contains_id(&started, recovered.session_id.as_str()) {
                tracker.mark_handled(recovered);
            }
        }
        assert(all.take(all.len() as int) =~= all);
        let mut message = "Switched to '".to_owned();
        message.append(self.target.name.as_str());
        message.append("' and started continuations in ");
        message.append(text::decimal(started.len() as u64).as_str());
        message.append(" desktop sessions");
        let event = RecoveryEventNotification {
            event_type: "account_switched".to_owned(),
            session_id: self.case.session.session_id,
            message,
            timestamp: now,
        };
        tracker.note_event(&event);
        Ok(event)
    }
}

// ---------------------------------------------------------------------------
// Starting the session anew
// ---------------------------------------------------------------------------

impl OpenAppStage {
    /// It was tried to open the desktop app again.
    pub fn tried(self) -> (r: SwitchStep)
        ensures
            r == SwitchStep::WriteRestart(self.relaunch),
    {
        SwitchStep::WriteRestart(self.relaunch)
    }
}

impl RelaunchStage {
    /// The step after the restart file was written: the process of the session is ended, where it
    /// is known.
    pub open spec fn after_writing(self) -> SwitchStep {
        if self.case.session.pid > 0 {
            SwitchStep::Terminate(self)
        } else {
            self.after_terminating()
        }
    }

    /// The step after the process of the session was ended.
    pub open spec fn after_terminating(self) -> SwitchStep {
        SwitchStep::AwaitRestart(AwaitStage { relaunch: self, left: RESTART_LOOKS })
    }

    /// The step after the session was launched in a terminal.
    pub open spec fn after_launching(self) -> SwitchStep {
        SwitchStep::Announce(AnnounceStage { relaunch: self, consumed: false })
    }

    /// The restart file was written.
    pub fn written(self) -> (r: SwitchStep)
        ensures
            r == self.after_writing(),
    {
        if self.case.session.pid > 0 {
            SwitchStep::Terminate(self)
        } else {
            SwitchStep::AwaitRestart(AwaitStage { relaunch: self, left: RESTART_LOOKS })
        }
    }

    /// The process of the session was ended.
    pub fn terminated(self) -> (r: SwitchStep)
        ensures
            r == self.after_terminating(),
    {
        SwitchStep::AwaitRestart(AwaitStage { relaunch: self, left: RESTART_LOOKS })
    }

    /// The session was launched in a terminal, or that was tried.
    pub fn launched(self) -> (r: SwitchStep)
        ensures
            r == self.after_launching(),
    {
        SwitchStep::Announce(AnnounceStage { relaunch: self, consumed: false })
    }
}

impl AwaitStage {
    /// The step after it was looked whether the restart file is still there. Once it is gone, a
    /// terminal has taken up the restart; where it stays, the session is launched in another one.
    pub open spec fn after_looking(self, present: bool) -> SwitchStep {
        if !present {
            SwitchStep::Announce(AnnounceStage { relaunch: self.relaunch, consumed: true })
        } else if self.left <= 1 {
            SwitchStep::Launch(self.relaunch)
        } else {
            SwitchStep::AwaitRestart(
                AwaitStage { relaunch: self.relaunch, left: (self.left - 1) as u32 },
            )
        }
    }

    /// It was looked whether the restart file is still there.
    pub fn looked(self, present: bool) -> (r: SwitchStep)
        ensures
            r == self.after_looking(present),
    {
        if !present {
            SwitchStep::Announce(AnnounceStage { relaunch: self.relaunch, consumed: true })
        } else if self.left <= 1 {
            SwitchStep::Launch(self.relaunch)
        } else {
            SwitchStep::AwaitRestart(
                AwaitStage { relaunch: self.relaunch, left: self.left - 1 },
            )
        }
    }
}

impl AnnounceStage {
    /// What is shown to the user.
    pub fn notice(&self) -> (r: Notice)
        ensures
            match self.relaunch.reason {
                Reason::Reconnect(_) => r.title@ == "Codex Session Reconnected"@ && r.body@
                    == "Reconnected with '"@ + self.relaunch.phrase@
                    + "' on newly active account"@,
                Reason::Switched(target) => r.title@ == "Codex Account Switched"@ && r.body@
                    == "Switched to '"@ + target.name@ + "'. Resuming session..."@,
            },
    {
        match &self.relaunch.reason {
            Reason::Reconnect(_) => {
                let mut body = "Reconnected with '".to_owned();
                body.append(self.relaunch.phrase.as_str());
                body.append("' on newly active account");
                Notice { title: "Codex Session Reconnected".to_owned(), body }
            },
            Reason::Switched(target) => {
                let mut body = "Switched to '".to_owned();
                body.append(target.name.as_str());
                body.append("'. Resuming session...");
                Notice { title: "Codex Account Switched".to_owned(), body }
            },
        }
    }

    /// What is said of the session.
    pub open spec fn report(self, clock: int) -> Seq<char> {
        let phrase = self.relaunch.phrase@;
        match self.relaunch.reason {
            Reason::Reconnect(since) => (if self.consumed {
                "Resumed session in-place with '"@
            } else {
                "Relaunched session with '"@
            }) + phrase + "' on newly active account (switched "@ + text::decimal_of(
                seconds_since(since, clock),
            ) + "s ago)"@,
            Reason::Switched(target) => "Switched to account '"@ + target.name@ + (
            if self.consumed {
                "' and resumed session in-place with '"@
            } else {
                "' and relaunched session with '"@
            }) + phrase + "'"@,
        }
    }

    /// What is reported.
    pub open spec fn event(self, clock: int, now: Moment) -> EventView {
        event_of("account_switched"@, self.relaunch.case.session@, self.report(clock), now)
    }

    /// What is remembered: the session is dealt with, and where the account was switched for it,
    /// that it was.
    pub open spec fn remembered(
        self,
        before: TrackerView,
        clock: int,
        now: Moment,
    ) -> TrackerView {
        let handled = before.with_handled(self.relaunch.case.session@);
        match self.relaunch.reason {
            Reason::Reconnect(_) => handled,
            Reason::Switched(target) => handled.with_switch(
                SwitchView { at: clock, account_id: target.id@, by_reset_credit: false },
            ).with_event(self.event(clock, now)),
        }
    }

    /// What is said of the session.
    fn write_report(&self, clock: u64) -> (r: String)
        ensures
            r@ == self.report(clock as int),
    {
        match &self.relaunch.reason {
            Reason::Reconnect(since) => {
                let mut message = if self.consumed {
                    "Resumed session in-place with '".to_owned()
                } else {
                    "Relaunched session with '".to_owned()
                };
                message.append(self.relaunch.phrase.as_str());
                message.append("' on newly active account (switched ");
                message.append(text::decimal(whole_seconds_since(since, clock)).as_str());
                message.append("s ago)");
                message
            },
            Reason::Switched(target) => {
                let mut message = "Switched to account '".to_owned();
                message.append(target.name.as_str());
                if self.consumed {
                    message.append("' and resumed session in-place with '");
                } else {
                    message.append("' and relaunched session with '");
                }
                message.append(self.relaunch.phrase.as_str());
                message.append("'");
                message
            },
        }
    }

    /// The user was told.
    pub fn announced(self, tracker: &mut SessionTracker, clock: u64, now: Moment) -> (r:
        RecoveryEventNotification)
        requires
            old(tracker).wf(),
        ensures
            final(tracker).wf(),
            r@ == self.event(clock as int, now),
            final(tracker)@ == self.remembered(old(tracker)@, clock as int, now),
    {
        let message = self.write_report(clock);
        tracker.mark_handled(&self.relaunch.case.session);
        let event = RecoveryEventNotification {
            event_type: "account_switched".to_owned(),
            session_id: self.relaunch.case.session.session_id.clone(),
            message,
            timestamp: now,
        };
        match self.relaunch.reason {
            Reason::Reconnect(_) => {},
            Reason::Switched(target) => {
                tracker.note_switch(clock, target.id, false);
                tracker.note_event(&event);
            },
        }
        event
    }
}

} // verus!
