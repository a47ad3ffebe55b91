use auto_recovery::accounts::{
    AccountResetCredit, AccountResetCredits, AutoSwitchStrategy, StoredAccount,
};
use auto_recovery::credits::next_to_redeem;
use auto_recovery::desktop::{RunningProcess, SessionLog};
use auto_recovery::errors::RecoveryError;
use auto_recovery::moment::Moment;
use auto_recovery::platform::Platform;
use auto_recovery::retrying::{get_auto_recovery_status, RetryStage};
use auto_recovery::sessions::{
    ActiveCodexSession, DetectedSessionError, RecoveryEventNotification, SessionErrorKind,
};
use auto_recovery::settings::AppSettings;
use auto_recovery::switching::{
    handle_account_switch_for_session, ClosingReport, Recovery, Snapshot, SwitchStep,
};
use auto_recovery::tracker::{
    check_and_recover_sessions, AccountSwitch, CycleDecision, SessionTracker, SECOND,
};

const NOW: Moment = Moment { secs: 1_790_000_000, nanos: 0 };

fn settings() -> AppSettings {
    AppSettings {
        auto_retry_capacity_enabled: true,
        auto_retry_capacity_max_attempts: 2,
        auto_retry_capacity_initial_delay_sec: 10,
        auto_retry_capacity_escalate_to_switch: true,
        auto_switch_limit_enabled: true,
        auto_switch_strategy: AutoSwitchStrategy::SmartBalanced,
        auto_redeem_reset_credits: false,
        continue_phrase: "go on".to_string(),
        reset_credit_warning_days: 3,
        preferred_terminal: None,
    }
}

fn session(id: &str, error: Option<(SessionErrorKind, Option<&str>)>) -> ActiveCodexSession {
    ActiveCodexSession {
        session_id: id.to_string(),
        pid: 77,
        cwd: Some("/work".to_string()),
        rollout_path: None,
        last_error: error.map(|(kind, turn)| DetectedSessionError {
            kind,
            session_id: id.to_string(),
            turn_id: turn.map(|t| t.to_string()),
            message: "m".to_string(),
            detected_at: NOW,
        }),
        is_managed: false,
        is_desktop: false,
    }
}

fn overloaded(id: &str, turn: &str) -> ActiveCodexSession {
    session(id, Some((SessionErrorKind::ServerOverloaded, Some(turn))))
}

fn limited(id: &str, turn: Option<&str>) -> ActiveCodexSession {
    session(id, Some((SessionErrorKind::UsageLimitExceeded, turn)))
}

// ---------------------------------------------------------------------------
// Cycles
// ---------------------------------------------------------------------------

#[test]
fn overloaded_session_is_retried_with_growing_delays() {
    let mut tracker = SessionTracker::new();
    let settings = settings();
    let mut cycle = |turn: &str, at: u64| {
        check_and_recover_sessions(&mut tracker, &vec![overloaded("s", turn)], &settings, at * SECOND)
    };
    assert_eq!(cycle("t1", 1_000), CycleDecision::Retry { index: 0, attempt: 1 });
    // The same turn is not retried again.
    assert_eq!(cycle("t1", 1_001), CycleDecision::Nothing);
    assert_eq!(cycle("t1", 1_100), CycleDecision::Nothing);
    // The second attempt waits for twice the delay.
    assert_eq!(cycle("t2", 1_019), CycleDecision::Nothing);
    assert_eq!(cycle("t2", 1_020), CycleDecision::Retry { index: 0, attempt: 2 });
    // After the last attempt the account is switched, once the delay has passed again.
    assert_eq!(cycle("t3", 1_049), CycleDecision::Nothing);
    assert_eq!(cycle("t3", 1_050), CycleDecision::Switch { index: 0 });
    // The attempts are forgotten with that.
    assert_eq!(cycle("t3", 1_051), CycleDecision::Retry { index: 0, attempt: 1 });
}

#[test]
fn attempts_are_counted_anew_after_a_while() {
    let mut tracker = SessionTracker::new();
    let mut settings = settings();
    settings.auto_retry_capacity_escalate_to_switch = false;
    let mut cycle = |turn: &str, at: u64| {
        check_and_recover_sessions(&mut tracker, &vec![overloaded("s", turn)], &settings, at * SECOND)
    };
    assert_eq!(cycle("t1", 0), CycleDecision::Retry { index: 0, attempt: 1 });
    assert_eq!(cycle("t2", 20), CycleDecision::Retry { index: 0, attempt: 2 });
    assert_eq!(cycle("t3", 200), CycleDecision::Nothing);
    assert_eq!(cycle("t3", 201), CycleDecision::Retry { index: 0, attempt: 1 });
}

#[test]
fn delay_is_at_least_a_second() {
    let mut tracker = SessionTracker::new();
    let mut settings = settings();
    settings.auto_retry_capacity_initial_delay_sec = 0;
    let mut cycle = |turn: &str, at: u64| {
        check_and_recover_sessions(&mut tracker, &vec![overloaded("s", turn)], &settings, at)
    };
    assert_eq!(cycle("t1", 5 * SECOND), CycleDecision::Retry { index: 0, attempt: 1 });
    assert_eq!(cycle("t2", 7 * SECOND - 1), CycleDecision::Nothing);
    assert_eq!(cycle("t2", 7 * SECOND), CycleDecision::Retry { index: 0, attempt: 2 });
}

#[test]
fn turn_without_a_name_is_retried_once() {
    let mut tracker = SessionTracker::new();
    let list = vec![session("s", Some((SessionErrorKind::ServerOverloaded, None)))];
    let settings = settings();
    let first = check_and_recover_sessions(&mut tracker, &list, &settings, 0);
    assert_eq!(first, CycleDecision::Retry { index: 0, attempt: 1 });
    let second = check_and_recover_sessions(&mut tracker, &list, &settings, 900 * SECOND);
    assert_eq!(second, CycleDecision::Nothing);
}

#[test]
fn usage_limit_is_dealt_with_once_a_turn() {
    let mut tracker = SessionTracker::new();
    let settings = settings();
    let list = vec![session("ok", None), limited("s", Some("t1"))];
    let decision = check_and_recover_sessions(&mut tracker, &list, &settings, 0);
    assert_eq!(decision, CycleDecision::Switch { index: 1 });
    tracker.mark_handled(&list[1]);
    assert!(tracker.handled(&list[1]));
    let decision = check_and_recover_sessions(&mut tracker, &list, &settings, 0);
    assert_eq!(decision, CycleDecision::Nothing);
    let list = vec![limited("s", Some("t2"))];
    assert!(!tracker.handled(&list[0]));
    let decision = check_and_recover_sessions(&mut tracker, &list, &settings, 0);
    assert_eq!(decision, CycleDecision::Switch { index: 0 });
    // A turn without a name goes by a common one.
    tracker.mark_handled(&limited("u", None));
    assert!(tracker.handled(&limited("u", Some("default"))));
}

#[test]
fn what_is_switched_off_is_not_done() {
    let mut tracker = SessionTracker::new();
    let mut settings = settings();
    settings.auto_retry_capacity_enabled = false;
    settings.auto_switch_limit_enabled = false;
    let list = vec![overloaded("a", "t"), limited("b", Some("t"))];
    let decision = check_and_recover_sessions(&mut tracker, &list, &settings, 0);
    assert_eq!(decision, CycleDecision::Nothing);
    settings.auto_switch_limit_enabled = true;
    let decision = check_and_recover_sessions(&mut tracker, &list, &settings, 0);
    assert_eq!(decision, CycleDecision::Switch { index: 1 });
    settings.auto_retry_capacity_enabled = true;
    let decision = check_and_recover_sessions(&mut tracker, &list, &settings, 0);
    assert_eq!(decision, CycleDecision::Retry { index: 0, attempt: 1 });
}

#[test]
fn sessions_are_counted_apart() {
    let mut tracker = SessionTracker::new();
    let settings = settings();
    let mut cycle = |list: Vec<ActiveCodexSession>, at: u64| {
        check_and_recover_sessions(&mut tracker, &list, &settings, at * SECOND)
    };
    let both = |a: &str, b: &str| vec![overloaded("a", a), overloaded("b", b)];
    // One session a cycle: the first for which there is something to do.
    assert_eq!(cycle(both("t1", "t1"), 0), CycleDecision::Retry { index: 0, attempt: 1 });
    assert_eq!(cycle(both("t1", "t1"), 0), CycleDecision::Retry { index: 1, attempt: 1 });
    assert_eq!(cycle(both("t1", "t1"), 0), CycleDecision::Nothing);
    assert_eq!(cycle(both("t1", "t2"), 20), CycleDecision::Retry { index: 1, attempt: 2 });
    // A running turn does not start the count anew.
    assert_eq!(cycle(vec![session("a", None)], 21), CycleDecision::Nothing);
    assert_eq!(cycle(both("t2", "t2"), 22), CycleDecision::Retry { index: 0, attempt: 2 });
}

#[test]
fn retry_is_queued_and_reported() {
    let mut tracker = SessionTracker::new();
    let stage = || RetryStage { session: overloaded("s", "t"), settings: settings(), attempt: 1 };
    let event = stage().looked_up(false).queued_at(Ok(()), &mut tracker, NOW).unwrap();
    assert_eq!(event.event_type, "capacity_retry");
    assert_eq!(event.session_id, "s");
    assert_eq!(
        event.message,
        "Server overloaded. Sent automatic retry (attempt 1/2) with 'go on'"
    );
    assert_eq!(event.timestamp, NOW);
    assert_eq!(tracker.last_event.as_ref().unwrap().message, event.message);
    let event = stage().looked_up(true).queued(Ok(()), &mut tracker).unwrap();
    assert!(event.message.ends_with("with '/goal resume'"));
    assert!(event.timestamp.is_valid());
    let failed = stage().looked_up(true).queued(Err("no queue".to_string()), &mut tracker);
    assert_eq!(failed.unwrap_err().message(), "no queue");

    let status = get_auto_recovery_status(vec![overloaded("s", "t")], &tracker);
    assert_eq!(status.active_sessions_count, 1);
    assert_eq!(status.monitored_sessions[0].session_id, "s");
    assert_eq!(status.last_recovery_event.unwrap().event_type, "capacity_retry");
}

// ---------------------------------------------------------------------------
// Switching
// ---------------------------------------------------------------------------

fn account(id: &str) -> StoredAccount {
    StoredAccount {
        id: id.to_string(),
        name: format!("Name of {id}"),
        plan_type: None,
        subscription_expires_at: None,
    }
}

fn case(platform: Platform) -> Recovery {
    Recovery {
        session: limited("s", Some("turn")),
        settings: settings(),
        accounts: vec![account("a"), account("b"), account("c")],
        active_id: Some("a".to_string()),
        platform,
    }
}

fn desktop_case() -> Recovery {
    let mut case = case(Platform::MacOs);
    case.session.is_desktop = true;
    case
}

fn begin(case: Recovery, tracker: &SessionTracker, clock: u64) -> SwitchStep {
    handle_account_switch_for_session(case, tracker, clock)
}

fn failure(step: SwitchStep) -> String {
    match step {
        SwitchStep::Finished(Err(error)) => error.message(),
        _ => panic!("the recovery goes on"),
    }
}

/// Asks about the other accounts, of which nothing is found out.
fn pick_account(step: SwitchStep) -> SwitchStep {
    match step {
        SwitchStep::FetchCandidates(stage) => {
            assert_eq!(stage.candidates(), vec!["b", "c"]);
            stage.fetched(vec![], NOW)
        },
        _ => panic!("the accounts are asked about"),
    }
}

/// Switches to the first of the other accounts.
fn swap(step: SwitchStep) -> SwitchStep {
    match step {
        SwitchStep::OpenStore(stage) => match stage.opened(Ok(Some("a".to_string()))) {
            SwitchStep::SwapCredentials(stage) => {
                assert_eq!(stage.target.id, "b");
                let mut fresh = stage.target.clone();
                fresh.name = "Fresh".to_string();
                stage.swapped(Ok(fresh))
            },
            _ => panic!("the account in use is the same"),
        },
        _ => panic!("the store is opened"),
    }
}

/// Starts the session anew; the restart file is gone after so many looks, or stays.
fn relaunch(step: SwitchStep, looks: Option<u32>, tracker: &mut SessionTracker, clock: u64) -> (
    RecoveryEventNotification,
    String,
) {
    let stage = match step {
        SwitchStep::WriteRestart(stage) => stage,
        _ => panic!("the restart file is written"),
    };
    assert_eq!(stage.phrase, "go on");
    let stage = match stage.written() {
        SwitchStep::Terminate(stage) => stage,
        _ => panic!("the process is ended"),
    };
    assert_eq!(stage.case.session.pid, 77);
    let mut step = stage.terminated();
    let mut count = 0;
    loop {
        step = match step {
            SwitchStep::AwaitRestart(stage) => {
                count += 1;
                stage.looked(looks.map_or(true, |n| count < n))
            },
            SwitchStep::Launch(stage) => {
                assert_eq!(count, 12);
                assert!(looks.is_none());
                stage.launched()
            },
            SwitchStep::Announce(stage) => {
                assert_eq!(stage.consumed, looks.is_some());
                let notice = stage.notice();
                let text = format!("{}: {}", notice.title, notice.body);
                return (stage.announced(tracker, clock, NOW), text);
            },
            _ => panic!("the session is waited for"),
        };
    }
}

#[test]
fn account_is_switched_and_session_started_anew() {
    let mut tracker = SessionTracker::new();
    let step = swap(pick_account(begin(case(Platform::Linux), &tracker, 0)));
    let step = match step {
        SwitchStep::LookUpGoal(stage) => stage.looked_up(false, &mut tracker, 0),
        _ => panic!("the goal is looked up"),
    };
    let (event, notice) = relaunch(step, Some(3), &mut tracker, 40 * SECOND);
    assert_eq!(notice, "Codex Account Switched: Switched to 'Fresh'. Resuming session...");
    assert_eq!(event.event_type, "account_switched");
    assert_eq!(event.session_id, "s");
    assert_eq!(
        event.message,
        "Switched to account 'Fresh' and resumed session in-place with 'go on'"
    );
    assert!(tracker.handled(&limited("s", Some("turn"))));
    let change = tracker.last_account_switch.as_ref().unwrap();
    assert_eq!(change.at, 40 * SECOND);
    assert_eq!(change.account_id, "b");
    assert!(!change.by_reset_credit);
    assert_eq!(tracker.last_event.as_ref().unwrap().message, event.message);
}

#[test]
fn session_is_launched_where_no_terminal_takes_it_up() {
    let mut tracker = SessionTracker::new();
    let step = match swap(pick_account(begin(case(Platform::Windows), &tracker, 0))) {
        SwitchStep::LookUpGoal(stage) => stage.looked_up(false, &mut tracker, 0),
        _ => panic!("the goal is looked up"),
    };
    let (event, _) = relaunch(step, None, &mut tracker, 0);
    assert_eq!(
        event.message,
        "Switched to account 'Fresh' and relaunched session with 'go on'"
    );
}

#[test]
fn session_without_a_process_is_not_ended() {
    let mut tracker = SessionTracker::new();
    let mut lost = case(Platform::Linux);
    lost.session.pid = 0;
    let step = match swap(pick_account(begin(lost, &tracker, 0))) {
        SwitchStep::LookUpGoal(stage) => stage.looked_up(true, &mut tracker, 0),
        _ => panic!("the goal is looked up"),
    };
    match step {
        SwitchStep::WriteRestart(stage) => {
            assert_eq!(stage.phrase, "/goal resume");
            assert!(matches!(stage.written(), SwitchStep::AwaitRestart(_)));
        },
        _ => panic!("the restart file is written"),
    }
}

fn switched(at: u64, by_reset_credit: bool) -> SessionTracker {
    let mut tracker = SessionTracker::new();
    tracker.last_account_switch =
        Some(AccountSwitch { at, account_id: "b".to_string(), by_reset_credit });
    tracker
}

#[test]
fn fresh_switch_is_not_followed_by_another() {
    let mut tracker = switched(100 * SECOND, false);
    let step = match begin(case(Platform::Linux), &tracker, 119 * SECOND) {
        SwitchStep::LookUpGoal(stage) => stage.looked_up(false, &mut tracker, 119 * SECOND),
        _ => panic!("no other account is asked about"),
    };
    let (event, notice) = relaunch(step, Some(1), &mut tracker, 122 * SECOND);
    assert_eq!(
        notice,
        "Codex Session Reconnected: Reconnected with 'go on' on newly active account"
    );
    assert_eq!(
        event.message,
        "Resumed session in-place with 'go on' on newly active account (switched 22s ago)"
    );
    // That is no switch of its own, and is not kept as the last event.
    assert_eq!(tracker.last_account_switch.as_ref().unwrap().at, 100 * SECOND);
    assert!(tracker.last_event.is_none());
    assert!(tracker.handled(&limited("s", Some("turn"))));

    // Twenty seconds later it is over.
    let step = begin(case(Platform::Linux), &tracker, 120 * SECOND);
    assert!(matches!(step, SwitchStep::FetchCandidates(_)));
    // A clock that seems to run backwards counts as no time at all.
    let step = begin(case(Platform::Linux), &tracker, 0);
    assert!(matches!(step, SwitchStep::LookUpGoal(_)));
}

#[test]
fn unconsumed_reconnection_is_reported_as_a_relaunch() {
    let mut tracker = switched(0, false);
    let step = match begin(case(Platform::Linux), &tracker, SECOND) {
        SwitchStep::LookUpGoal(stage) => stage.looked_up(false, &mut tracker, SECOND),
        _ => panic!("no other account is asked about"),
    };
    let (event, _) = relaunch(step, None, &mut tracker, 3 * SECOND - 1);
    assert_eq!(
        event.message,
        "Relaunched session with 'go on' on newly active account (switched 2s ago)"
    );
}

#[test]
fn session_of_a_restored_account_is_told_to_continue() {
    let mut tracker = switched(10 * SECOND, true);
    let stage = match begin(case(Platform::Linux), &tracker, 15 * SECOND) {
        SwitchStep::LookUpGoal(stage) => match stage.looked_up(false, &mut tracker, 15 * SECOND) {
            SwitchStep::QueueResume(stage) => stage,
            _ => panic!("the phrase is queued"),
        },
        _ => panic!("no other account is asked about"),
    };
    let event = stage.queued(Ok(()), &mut tracker, 17 * SECOND, NOW).unwrap();
    assert_eq!(event.event_type, "reset_credit_redeemed");
    assert_eq!(event.message, "Resumed session with 'go on' on account 'b' after 7s");
    assert_eq!(tracker.last_event.as_ref().unwrap().message, event.message);
    assert!(tracker.handled(&limited("s", Some("turn"))));
}

#[test]
fn desktop_session_is_told_to_continue_after_a_switch() {
    let mut tracker = switched(0, false);
    let stage = match begin(desktop_case(), &tracker, 0) {
        SwitchStep::LookUpGoal(stage) => match stage.looked_up(true, &mut tracker, 0) {
            SwitchStep::QueueResume(stage) => stage,
            _ => panic!("the phrase is queued"),
        },
        _ => panic!("no other account is asked about"),
    };
    assert_eq!(stage.phrase, "/goal resume");
    let failed = stage.queued(Err("codex queue failed".to_string()), &mut tracker, 0, NOW);
    assert_eq!(failed.unwrap_err().message(), "codex queue failed");
    assert!(!tracker.handled(&limited("s", Some("turn"))));
    assert!(tracker.last_event.is_none());
}

fn credit(id: &str, status: &str, expires_at: Option<&str>) -> AccountResetCredit {
    AccountResetCredit {
        id: id.to_string(),
        reset_type: "standard".to_string(),
        status: status.to_string(),
        expires_at: expires_at.map(|e| e.to_string()),
    }
}

fn credits(list: Vec<AccountResetCredit>) -> AccountResetCredits {
    AccountResetCredits { available_count: 0, next_expires_at: None, credits: list }
}

#[test]
fn credit_that_expires_first_is_redeemed() {
    let list = vec![
        credit("never", "available", None),
        credit("used", "redeemed", Some("2026-01-01")),
        credit("late", "available", Some("2026-10-01")),
        credit("soon", "Available", Some("2026-09-30")),
        credit("too", "available", Some("2026-09-30")),
    ];
    assert_eq!(next_to_redeem(&list), Some(3));
    assert_eq!(next_to_redeem(&vec![credit("never", "available", None)]), Some(0));
    assert_eq!(next_to_redeem(&vec![credit("used", "redeemed", None)]), None);
    assert_eq!(next_to_redeem(&vec![]), None);
}

#[test]
fn credits_are_compared_by_their_moments() {
    let expiring = |list: &[Option<&str>]| {
        next_to_redeem(&list.iter().map(|at| credit("rc", "available", *at)).collect())
    };
    let east = Some("2026-09-30T10:00:00+05:00");
    let utc = Some("2026-09-30T08:00:00Z");
    let same = Some("2026-09-30T05:00:00Z");
    // The first expires at five o'clock in UTC.
    assert_eq!(expiring(&[utc, east]), Some(1));
    assert_eq!(expiring(&[east, utc]), Some(0));
    // Of those of one moment the text that comes first, and then the place in the list.
    assert_eq!(expiring(&[east, same]), Some(1));
    assert_eq!(expiring(&[same, same]), Some(0));
    assert_eq!(expiring(&[None, utc]), Some(1));
    // A text that names no moment is compared as a text with the first that names one.
    assert_eq!(expiring(&[utc, Some("2026-09-30"), None]), Some(1));
    assert_eq!(expiring(&[Some("soon"), utc]), Some(1));
    assert_eq!(expiring(&[Some("soon"), None]), Some(0));
    for list in [[utc, Some("2026-09-30T09"), east], [east, utc, Some("2026-09-30T09")]] {
        let chosen = expiring(&list).unwrap();
        assert_eq!(list[chosen], Some("2026-09-30T09"));
    }
}

#[test]
fn reset_credit_is_redeemed_before_a_switch() {
    let mut tracker = SessionTracker::new();
    let mut redeeming = case(Platform::Linux);
    redeeming.settings.auto_redeem_reset_credits = true;
    let stage = match begin(redeeming, &tracker, 0) {
        SwitchStep::FetchCredits(stage) => stage,
        _ => panic!("the credits are fetched"),
    };
    assert_eq!(stage.account.id, "a");
    let known = credits(vec![credit("x", "available", None), credit("y", "available", Some("2026"))]);
    let stage = match stage.fetched(Some(known)) {
        SwitchStep::Redeem(stage) => stage,
        _ => panic!("a credit is redeemed"),
    };
    assert_eq!(stage.credit_id, "y");
    let stage = match stage.redeemed(true) {
        SwitchStep::LookUpGoal(stage) => match stage.looked_up(false, &mut tracker, 0) {
            SwitchStep::QueueRestored(stage) => stage,
            _ => panic!("the phrase is queued"),
        },
        _ => panic!("the goal is looked up"),
    };
    assert_eq!(stage.phrase, "go on");
    let notice = stage.notice();
    assert_eq!(notice.title, "Reset Credit Redeemed");
    assert_eq!(
        notice.body,
        "Auto-redeemed 1 reset credit for 'Name of a'. Limits restored to 100%."
    );
    let event = stage.announced(&mut tracker, 5 * SECOND, NOW);
    assert_eq!(event.event_type, "reset_credit_redeemed");
    assert_eq!(
        event.message,
        "Auto-redeemed reset credit on active account 'Name of a' (limits refreshed). Resumed session in-place."
    );
    let change = tracker.last_account_switch.as_ref().unwrap();
    assert_eq!((change.at, change.account_id.as_str(), change.by_reset_credit), (5 * SECOND, "a", true));
    assert!(tracker.handled(&limited("s", Some("turn"))));
    assert!(tracker.last_event.is_some());
}

#[test]
fn account_is_switched_where_no_credit_can_be_redeemed() {
    let tracker = SessionTracker::new();
    let redeeming = || {
        let mut case = case(Platform::Linux);
        case.settings.auto_redeem_reset_credits = true;
        match begin(case, &tracker, 0) {
            SwitchStep::FetchCredits(stage) => stage,
            _ => panic!("the credits are fetched"),
        }
    };
    assert!(matches!(redeeming().fetched(None), SwitchStep::FetchCandidates(_)));
    let none = credits(vec![credit("x", "expired", None)]);
    assert!(matches!(redeeming().fetched(Some(none)), SwitchStep::FetchCandidates(_)));
    let one = credits(vec![credit("x", "available", None)]);
    match redeeming().fetched(Some(one)) {
        SwitchStep::Redeem(stage) => {
            assert!(matches!(stage.redeemed(false), SwitchStep::FetchCandidates(_)))
        },
        _ => panic!("a credit is redeemed"),
    }
    // An account that is not known has no credits to fetch.
    let mut unknown = case(Platform::Linux);
    unknown.settings.auto_redeem_reset_credits = true;
    unknown.active_id = Some("z".to_string());
    assert!(matches!(begin(unknown, &tracker, 0), SwitchStep::FetchCandidates(_)));
}

#[test]
fn recovery_needs_another_account() {
    let tracker = SessionTracker::new();
    let mut alone = case(Platform::Linux);
    alone.accounts = vec![account("a")];
    let step = match begin(alone, &tracker, 0) {
        SwitchStep::FetchCandidates(stage) => stage.fetched(vec![], NOW),
        _ => panic!("the accounts are asked about"),
    };
    assert_eq!(failure(step), "No eligible fallback account found with available limits");
}

#[test]
fn account_with_a_banked_reset_is_chosen() {
    let tracker = SessionTracker::new();
    let step = match begin(case(Platform::Linux), &tracker, 0) {
        SwitchStep::FetchCandidates(stage) => stage.fetched(
            vec![
                Snapshot { account_id: "b".to_string(), usage: None, resets: None },
                Snapshot {
                    account_id: "c".to_string(),
                    usage: None,
                    resets: Some(credits(vec![credit("x", "available", None)])),
                },
            ],
            NOW,
        ),
        _ => panic!("the accounts are asked about"),
    };
    match step {
        SwitchStep::OpenStore(stage) => assert_eq!(stage.target.id, "c"),
        _ => panic!("the store is opened"),
    }
}

#[test]
fn account_that_changed_meanwhile_is_left_alone() {
    let tracker = SessionTracker::new();
    let open = || match pick_account(begin(case(Platform::Linux), &tracker, 0)) {
        SwitchStep::OpenStore(stage) => stage,
        _ => panic!("the store is opened"),
    };
    assert_eq!(
        failure(open().opened(Ok(Some("b".to_string())))),
        "Active account changed during auto recovery"
    );
    assert_eq!(
        failure(open().opened(Ok(None))),
        "Active account changed during auto recovery"
    );
    assert_eq!(failure(open().opened(Err("no store".to_string()))), "no store");
    match open().opened(Ok(Some("a".to_string()))) {
        SwitchStep::SwapCredentials(stage) => {
            assert_eq!(failure(stage.swapped(Err("no tokens".to_string()))), "no tokens")
        },
        _ => panic!("the account in use is the same"),
    }
}

#[test]
fn desktop_session_is_moved_on_macos_alone() {
    let tracker = SessionTracker::new();
    let mut elsewhere = desktop_case();
    elsewhere.platform = Platform::Linux;
    assert_eq!(
        failure(pick_account(begin(elsewhere, &tracker, 0))),
        "Desktop recovery is not supported on this platform"
    );
}

fn log_of(mut session: ActiveCodexSession, tail: &[u8]) -> SessionLog {
    session.is_desktop = true;
    session.rollout_path = Some("/log".to_string());
    SessionLog { session, tail: Ok(tail.to_vec()) }
}

#[test]
fn desktop_app_is_closed_for_its_sessions() {
    let mut tracker = SessionTracker::new();
    let stage = match pick_account(begin(desktop_case(), &tracker, 0)) {
        SwitchStep::ListAffected(stage) => stage,
        _ => panic!("the sessions are listed"),
    };
    let mut other = limited("o", None);
    other.is_desktop = true;
    let mut healthy = session("h", None);
    healthy.is_desktop = true;
    let stage = match stage.listed(Ok(vec![other, limited("cli", Some("t")), healthy])) {
        SwitchStep::CheckHandoff(stage) => stage,
        _ => panic!("the handoff is checked"),
    };
    let ids: Vec<&str> = stage.affected.iter().map(|s| s.session_id.as_str()).collect();
    assert_eq!(ids, vec!["o", "s"]);
    let ended = b"{\"payload\":{\"type\":\"task_complete\"}}";
    let others = vec![log_of(limited("o", None), ended), log_of(limited("s", None), b"")];
    let stage = match stage.listed(Ok(others)) {
        SwitchStep::CountDesktop(stage) => stage,
        _ => panic!("the processes are counted"),
    };
    let stage = match stage.counted(Ok((1, true))) {
        SwitchStep::CloseDesktop(stage) => stage,
        _ => panic!("the app is closed"),
    };
    let report = ClosingReport { reopen_token: Some("token".to_string()), failed_pids: vec![] };
    let step = swap(stage.closed(Ok(report)));
    let stage = match step {
        SwitchStep::LookUpGoal(stage) => match stage.looked_up(false, &mut tracker, 9 * SECOND) {
            SwitchStep::ResumeDesktop(stage) => stage,
            _ => panic!("the sessions go on"),
        },
        _ => panic!("the goal is looked up"),
    };
    // The switch counts from here on.
    assert_eq!(tracker.last_account_switch.as_ref().unwrap().at, 9 * SECOND);
    assert_eq!(stage.closed.token, "token");
    let event = stage.resumed(Ok(vec!["o".to_string()]), &mut tracker, NOW).unwrap();
    assert_eq!(
        event.message,
        "Switched to 'Fresh' and started continuations in 1 desktop sessions"
    );
    assert!(tracker.handled(&limited("o", None)));
    assert!(!tracker.handled(&limited("s", Some("turn"))));
    assert_eq!(tracker.last_event.as_ref().unwrap().event_type, "account_switched");
}

#[test]
fn closing_the_desktop_app_can_fail() {
    let tracker = SessionTracker::new();
    let listing = || match pick_account(begin(desktop_case(), &tracker, 0)) {
        SwitchStep::ListAffected(stage) => stage,
        _ => panic!("the sessions are listed"),
    };
    assert_eq!(failure(listing().listed(Err("no home".to_string()))), "no home");
    let handoff = || match listing().listed(Ok(vec![])) {
        SwitchStep::CheckHandoff(stage) => stage,
        _ => panic!("the handoff is checked"),
    };
    assert_eq!(failure(handoff().listed(Err("no list".to_string()))), "no list");
    let busy = log_of(session("x", None), b"{\"payload\":{\"type\":\"task_started\"}}");
    assert_eq!(
        failure(handoff().listed(Ok(vec![busy]))),
        "Another desktop turn is active; deferring account handoff"
    );
    let count = || match handoff().listed(Ok(vec![])) {
        SwitchStep::CountDesktop(stage) => stage,
        _ => panic!("the processes are counted"),
    };
    let message = "Expected one Codex desktop process; deferring account handoff";
    assert_eq!(failure(count().counted(Ok((2, true)))), message);
    assert_eq!(failure(count().counted(Ok((1, false)))), message);
    assert_eq!(failure(count().counted(Err("no ps".to_string()))), "no ps");
    let close = || match count().counted(Ok((1, true))) {
        SwitchStep::CloseDesktop(stage) => stage,
        _ => panic!("the app is closed"),
    };
    assert_eq!(failure(close().closed(Err("no kill".to_string()))), "no kill");
    let report = ClosingReport { reopen_token: None, failed_pids: vec![1] };
    assert_eq!(
        failure(close().closed(Ok(report))),
        "Could not record Codex desktop for reopening"
    );
    let report = ClosingReport { reopen_token: Some("t".to_string()), failed_pids: vec![1] };
    match close().closed(Ok(report)) {
        SwitchStep::ReopenDesktop(stage) => {
            assert_eq!(stage.token, "t");
            assert_eq!(
                failure(stage.tried()),
                "Codex desktop did not close cleanly; account was not switched"
            );
        },
        _ => panic!("the app is opened again"),
    }
    // A switch that fails opens the app again too.
    let report = ClosingReport { reopen_token: Some("t".to_string()), failed_pids: vec![] };
    match close().closed(Ok(report)) {
        SwitchStep::OpenStore(stage) => match stage.opened(Ok(None)) {
            SwitchStep::ReopenDesktop(stage) => {
                assert_eq!(stage.token, "t");
                assert_eq!(failure(stage.tried()), "Active account changed during auto recovery");
            },
            _ => panic!("the app is opened again"),
        },
        _ => panic!("the store is opened"),
    }
}

#[test]
fn sessions_that_cannot_go_on_are_an_error() {
    let mut tracker = SessionTracker::new();
    let step = match pick_account(begin(desktop_case(), &tracker, 0)) {
        SwitchStep::ListAffected(stage) => match stage.listed(Ok(vec![])) {
            SwitchStep::CheckHandoff(stage) => stage.listed(Ok(vec![])),
            _ => panic!("the handoff is checked"),
        },
        _ => panic!("the sessions are listed"),
    };
    let step = match step {
        SwitchStep::CountDesktop(stage) => stage.counted(Ok((1, true))),
        _ => panic!("the processes are counted"),
    };
    let report = ClosingReport { reopen_token: Some("t".to_string()), failed_pids: vec![] };
    let step = match step {
        SwitchStep::CloseDesktop(stage) => swap(stage.closed(Ok(report))),
        _ => panic!("the app is closed"),
    };
    let stage = match step {
        SwitchStep::LookUpGoal(stage) => match stage.looked_up(false, &mut tracker, 0) {
            SwitchStep::ResumeDesktop(stage) => stage,
            _ => panic!("the sessions go on"),
        },
        _ => panic!("the goal is looked up"),
    };
    let failed = stage.resumed(Err(RecoveryError::NothingStarted), &mut tracker, NOW);
    assert!(matches!(failed, Err(RecoveryError::NothingStarted)));
    assert!(tracker.last_event.is_none());
    assert!(tracker.last_account_switch.is_some());
}

fn process(pid: u32, is_desktop_root: bool) -> RunningProcess {
    RunningProcess { pid, is_desktop_root }
}

#[test]
fn idle_desktop_app_is_quit_beside_a_session() {
    let mut tracker = SessionTracker::new();
    let idle = || match pick_account(begin(case(Platform::MacOs), &SessionTracker::new(), 0)) {
        SwitchStep::CheckIdle(stage) => stage,
        _ => panic!("the processes are listed"),
    };
    // A session alone needs nothing closed.
    match idle().listed(Ok(vec![process(77, false)])) {
        SwitchStep::OpenStore(_) => {},
        _ => panic!("the store is opened"),
    }
    assert_eq!(failure(idle().listed(Err("no ps".to_string()))), "no ps");
    let handoff = |processes: Vec<RunningProcess>| match idle().listed(Ok(processes)) {
        SwitchStep::CheckIdleHandoff(stage) => stage,
        _ => panic!("the handoff is checked"),
    };
    let both = || vec![process(77, false), process(5, true)];
    assert_eq!(failure(handoff(both()).listed(Err("no list".to_string()))), "no list");
    let cli = SessionLog { session: session("x", None), tail: Err(String::new()) };
    assert_eq!(
        failure(handoff(both()).listed(Ok(vec![cli]))),
        "Another CLI session is open; deferring desktop account handoff"
    );
    assert_eq!(
        failure(handoff(vec![process(77, false), process(5, false)]).listed(Ok(vec![]))),
        "Another Codex process is running; deferring CLI account handoff"
    );
    let quit = || match handoff(both()).listed(Ok(vec![])) {
        SwitchStep::QuitDesktop(stage) => stage,
        _ => panic!("the app is quit"),
    };
    assert_eq!(failure(quit().asked(Err("no script".to_string()))), "no script");
    assert_eq!(failure(quit().asked(Ok(false))), "Could not gracefully close Codex desktop");
    // The app is waited for forty times.
    let mut step = quit().asked(Ok(true));
    let mut looks = 0;
    let message = loop {
        step = match step {
            SwitchStep::AwaitQuit(stage) => {
                looks += 1;
                stage.listed(Ok(both()))
            },
            other => break failure(other),
        };
    };
    assert_eq!(looks, 40);
    assert_eq!(message, "Codex desktop did not close; account was not switched");
    // Once it has quit, the account is switched, and the app opened again.
    let step = match quit().asked(Ok(true)) {
        SwitchStep::AwaitQuit(stage) => match stage.listed(Ok(both())) {
            SwitchStep::AwaitQuit(stage) => stage.listed(Ok(vec![process(77, false)])),
            _ => panic!("the app is waited for"),
        },
        _ => panic!("the app is waited for"),
    };
    let step = match swap(step) {
        SwitchStep::LookUpGoal(stage) => match stage.looked_up(false, &mut tracker, 0) {
            SwitchStep::OpenApp(stage) => stage.tried(),
            _ => panic!("the app is opened again"),
        },
        _ => panic!("the goal is looked up"),
    };
    let (event, _) = relaunch(step, Some(12), &mut tracker, 0);
    assert!(event.message.contains("in-place"));
}

#[test]
fn idle_desktop_app_is_opened_again_after_a_failure() {
    let tracker = SessionTracker::new();
    let step = match pick_account(begin(case(Platform::MacOs), &tracker, 0)) {
        SwitchStep::CheckIdle(stage) => stage.listed(Ok(vec![process(77, false), process(5, true)])),
        _ => panic!("the processes are listed"),
    };
    let step = match step {
        SwitchStep::CheckIdleHandoff(stage) => stage.listed(Ok(vec![])),
        _ => panic!("the handoff is checked"),
    };
    let step = match step {
        SwitchStep::QuitDesktop(stage) => stage.asked(Ok(true)),
        _ => panic!("the app is quit"),
    };
    let step = match step {
        SwitchStep::AwaitQuit(stage) => stage.listed(Ok(vec![process(77, false)])),
        _ => panic!("the app is waited for"),
    };
    let step = match step {
        SwitchStep::OpenStore(stage) => stage.opened(Err("locked".to_string())),
        _ => panic!("the store is opened"),
    };
    match step {
        SwitchStep::OpenAppAndFail(stage) => assert_eq!(failure(stage.tried()), "locked"),
        _ => panic!("the app is opened again"),
    }
}

#[test]
fn launched_processes_are_remembered() {
    let mut tracker = SessionTracker::new();
    tracker.note_launched(5);
    tracker.note_launched(6);
    assert_eq!(tracker.managed_pids, vec![5, 6]);
}
