use auto_recovery::accounts::{
    AccountResetCredit, AccountResetCredits, AutoSwitchStrategy, Percent, StoredAccount, UsageInfo,
    PERCENT,
};
use auto_recovery::moment::Moment;
use auto_recovery::scoring::{
    calculate_account_score, credit_counts, gather_facts, plan_reserve, score_from_facts,
    select_best_account, select_best_account_at, AccountFacts, ResetSummary, POINT,
};
use auto_recovery::switching::{collect_snapshots, Snapshot};
use chrono::{DateTime, Duration as ChronoDuration, TimeZone, Utc};

fn moment(date: DateTime<Utc>) -> Moment {
    Moment { secs: date.timestamp(), nanos: date.timestamp_subsec_nanos() }
}

fn percent(value: i128) -> Option<Percent> {
    Some(Percent { units: value * PERCENT })
}

fn make_test_account(id: &str, name: &str, expires_at: Option<DateTime<Utc>>) -> StoredAccount {
    StoredAccount {
        id: id.to_string(),
        name: name.to_string(),
        plan_type: Some("plus".to_string()),
        subscription_expires_at: expires_at.map(moment),
    }
}

fn make_test_account_with_plan(
    id: &str,
    name: &str,
    plan: &str,
    expires_at: Option<DateTime<Utc>>,
) -> StoredAccount {
    let mut acc = make_test_account(id, name, expires_at);
    acc.plan_type = Some(plan.to_string());
    acc
}

fn credit(id: &str, expires_at: DateTime<Utc>) -> AccountResetCredit {
    AccountResetCredit {
        id: id.to_string(),
        reset_type: "standard".to_string(),
        status: "available".to_string(),
        expires_at: Some(expires_at.to_rfc3339()),
    }
}

fn one_credit(id: &str, expires_at: DateTime<Utc>) -> AccountResetCredits {
    AccountResetCredits {
        available_count: 1,
        next_expires_at: Some(expires_at.to_rfc3339()),
        credits: vec![credit(id, expires_at)],
    }
}

fn usage(
    id: &str,
    plan: Option<&str>,
    primary: Option<(i128, Option<i64>)>,
    secondary: i128,
    secondary_resets_at: Option<i64>,
) -> UsageInfo {
    UsageInfo {
        account_id: id.to_string(),
        plan_type: plan.map(|p| p.to_string()),
        primary_used_percent: primary.and_then(|(used, _)| percent(used)),
        primary_window_minutes: primary.map(|_| 300),
        primary_resets_at: primary.and_then(|(_, at)| at),
        secondary_used_percent: percent(secondary),
        secondary_window_minutes: Some(10080),
        secondary_resets_at,
    }
}

fn snapshot(usage: UsageInfo, resets: Option<AccountResetCredits>) -> Snapshot {
    Snapshot { account_id: usage.account_id.clone(), usage: Some(usage), resets }
}

#[test]
fn test_smart_balanced_prioritizes_urgent_resets() {
    let now = Utc.with_ymd_and_hms(2026, 9, 19, 12, 0, 0).unwrap();
    let acc1 = make_test_account("acc1", "Acc 1", None);
    let acc2 = make_test_account("acc2", "Acc 2", None);
    let resets2 = one_credit("rc1", now + ChronoDuration::days(1));
    let score1 = calculate_account_score(
        &acc1,
        AutoSwitchStrategy::SmartBalanced,
        None,
        None,
        3,
        moment(now),
    );
    let score2 = calculate_account_score(
        &acc2,
        AutoSwitchStrategy::SmartBalanced,
        None,
        Some(&resets2),
        3,
        moment(now),
    );
    assert!(score2 > score1, "Account with urgent reset should score significantly higher");
    assert_eq!(score1, 100 * POINT);
    assert_eq!(score2, (200 + 20_000 + 59 * 100 + 10_000) * POINT);
}

#[test]
fn test_smart_balanced_prioritizes_expired_subscriptions_over_distant() {
    let now = Utc.with_ymd_and_hms(2026, 9, 19, 12, 0, 0).unwrap();
    let acc_expired = make_test_account("acc1", "Expired", Some(now - ChronoDuration::days(1)));
    let acc_future = make_test_account("acc2", "Future", Some(now + ChronoDuration::days(30)));
    let score_exp = calculate_account_score(
        &acc_expired,
        AutoSwitchStrategy::SmartBalanced,
        None,
        None,
        3,
        moment(now),
    );
    let score_fut = calculate_account_score(
        &acc_future,
        AutoSwitchStrategy::SmartBalanced,
        None,
        None,
        3,
        moment(now),
    );
    assert!(score_exp > score_fut, "Expiring/expired subscription should be utilized first");
    assert_eq!(score_exp, 10_100 * POINT);
    assert_eq!(score_fut, 100 * POINT);
}

#[test]
fn test_smart_balanced_prioritizes_account_with_banked_reset_over_fresh_account() {
    let now = Utc.with_ymd_and_hms(2026, 9, 23, 14, 0, 0).unwrap();
    let at = now.timestamp();
    let acc_with_reset = make_test_account("acc1", "WithReset", None);
    let usage_with_reset =
        usage("acc1", Some("plus"), Some((0, Some(at + 18000))), 93, Some(at + 104 * 3600));
    let resets = one_credit("rc1", now + ChronoDuration::days(29));
    let acc_fresh = make_test_account("acc2", "Fresh", None);
    let usage_fresh =
        usage("acc2", Some("plus"), Some((0, Some(at + 18000))), 16, Some(at + 160 * 3600));
    let score_reset = calculate_account_score(
        &acc_with_reset,
        AutoSwitchStrategy::SmartBalanced,
        Some(&usage_with_reset),
        Some(&resets),
        3,
        moment(now),
    );
    let score_fresh = calculate_account_score(
        &acc_fresh,
        AutoSwitchStrategy::SmartBalanced,
        Some(&usage_fresh),
        None,
        3,
        moment(now),
    );
    assert!(
        score_reset > score_fresh,
        "Account with banked reset should be prioritized to burn and reset first (score_reset={score_reset}, score_fresh={score_fresh})"
    );
    assert_eq!(score_reset, (107 + 20_000 + 31 * 100) * POINT);
    assert_eq!(score_fresh, 84 * POINT);
}

#[test]
fn test_starvation_guard_penalizes_low_quota_without_resets() {
    let now = Utc.with_ymd_and_hms(2026, 9, 23, 14, 0, 0).unwrap();
    let at = now.timestamp();
    let acc_starving = make_test_account("acc1", "Starving", None);
    let usage_starving =
        usage("acc1", Some("plus"), Some((0, Some(at + 18000))), 93, Some(at + 104 * 3600));
    let acc_fresh = make_test_account("acc2", "Fresh", None);
    let usage_fresh =
        usage("acc2", Some("plus"), Some((0, Some(at + 18000))), 16, Some(at + 160 * 3600));
    let score_starving = calculate_account_score(
        &acc_starving,
        AutoSwitchStrategy::SmartBalanced,
        Some(&usage_starving),
        None,
        3,
        moment(now),
    );
    let score_fresh = calculate_account_score(
        &acc_fresh,
        AutoSwitchStrategy::SmartBalanced,
        Some(&usage_fresh),
        None,
        3,
        moment(now),
    );
    assert!(
        score_fresh > score_starving,
        "Starving account without resets should be heavily penalized against fresh account (score_fresh={score_fresh}, score_starving={score_starving})"
    );
    assert_eq!(score_starving, (7 - 15_000) * POINT);
}

#[test]
fn test_burn_before_reset_prioritizes_expiring_weekly_quota() {
    let now = Utc.with_ymd_and_hms(2026, 9, 23, 14, 0, 0).unwrap();
    let at = now.timestamp();
    let acc_soon = make_test_account("acc1", "SoonReset", None);
    let usage_soon =
        usage("acc1", Some("plus"), Some((0, Some(at + 18000))), 50, Some(at + 10 * 3600));
    let acc_later = make_test_account("acc2", "LaterReset", None);
    let usage_later =
        usage("acc2", Some("plus"), Some((0, Some(at + 18000))), 50, Some(at + 120 * 3600));
    let score_soon = calculate_account_score(
        &acc_soon,
        AutoSwitchStrategy::SmartBalanced,
        Some(&usage_soon),
        None,
        3,
        moment(now),
    );
    let score_later = calculate_account_score(
        &acc_later,
        AutoSwitchStrategy::SmartBalanced,
        Some(&usage_later),
        None,
        3,
        moment(now),
    );
    assert!(
        score_soon > score_later,
        "Account with weekly reset in <24h should have burn-before-reset priority (score_soon={score_soon}, score_later={score_later})"
    );
    assert_eq!(score_soon, (50 + 3_000 + 1_500) * POINT);
}

#[test]
fn test_screenshot_scenario_selects_account_with_banked_reset() {
    let now = Utc.with_ymd_and_hms(2026, 9, 23, 14, 0, 0).unwrap();
    let at = now.timestamp();
    let accounts = vec![
        make_test_account("acc_active", "rjandjf", Some(now + ChronoDuration::days(26))),
        make_test_account("acc_tl", "lqslhdcghu", Some(now + ChronoDuration::days(25))),
        make_test_account("acc_bl", "rqmboyj", Some(now + ChronoDuration::days(25))),
        make_test_account("acc_br", "sonyamcmillan", Some(now + ChronoDuration::days(27))),
    ];
    let primary = Some((0, Some(at + 18000)));
    let scenario = || {
        vec![
            snapshot(usage("acc_tl", Some("plus"), primary, 16, Some(at + 161 * 3600)), None),
            snapshot(
                usage("acc_bl", Some("plus"), primary, 93, Some(at + 104 * 3600)),
                Some(one_credit("rc_bl", now + ChronoDuration::days(29))),
            ),
            snapshot(usage("acc_br", Some("plus"), primary, 16, Some(at + 159 * 3600)), None),
        ]
    };
    let (usage_map, resets_map) = collect_snapshots(scenario());
    let selected = select_best_account_at(
        &accounts,
        Some("acc_active"),
        AutoSwitchStrategy::SmartBalanced,
        &usage_map,
        &resets_map,
        3,
        moment(now),
    );
    assert!(selected.is_some());
    let target = selected.unwrap();
    assert_eq!(
        target.id, "acc_bl",
        "Must choose Bottom-Left (acc_bl) because it has a banked reset to burn and redeem first!"
    );
    // The same choice by the system clock, as long as the credit has not expired.
    if Utc::now() < now + ChronoDuration::days(29) {
        let by_clock = select_best_account(
            &accounts,
            Some("acc_active"),
            AutoSwitchStrategy::SmartBalanced,
            &usage_map,
            &resets_map,
            3,
        );
        assert_eq!(by_clock.unwrap().id, "acc_bl");
    }
}

#[test]
fn test_screenshot_scenario_avoids_starving_account_when_no_resets() {
    let now = Utc.with_ymd_and_hms(2026, 9, 23, 14, 0, 0).unwrap();
    let at = now.timestamp();
    let accounts = vec![
        make_test_account("acc_active", "rjandjf", None),
        make_test_account("acc_tl", "lqslhdcghu", None),
        make_test_account("acc_bl", "rqmboyj", None),
        make_test_account("acc_br", "sonyamcmillan", None),
    ];
    let primary = Some((0, Some(at + 18000)));
    let (usage_map, resets_map) = collect_snapshots(vec![
        snapshot(usage("acc_tl", Some("plus"), primary, 16, Some(at + 161 * 3600)), None),
        snapshot(usage("acc_bl", Some("plus"), primary, 93, Some(at + 104 * 3600)), None),
        snapshot(usage("acc_br", Some("plus"), primary, 16, Some(at + 159 * 3600)), None),
    ]);
    let selected = select_best_account_at(
        &accounts,
        Some("acc_active"),
        AutoSwitchStrategy::SmartBalanced,
        &usage_map,
        &resets_map,
        3,
        moment(now),
    );
    assert!(selected.is_some());
    let target = selected.unwrap();
    assert_ne!(
        target.id, "acc_bl",
        "Must NOT choose starving Bottom-Left (acc_bl) when it has 0 resets and reset is >48h away!"
    );
    assert!(
        target.id == "acc_tl" || target.id == "acc_br",
        "Must choose one of the fresh accounts (acc_tl or acc_br)"
    );
    let by_clock = select_best_account(
        &accounts,
        Some("acc_active"),
        AutoSwitchStrategy::SmartBalanced,
        &usage_map,
        &resets_map,
        3,
    )
    .unwrap();
    assert_ne!(by_clock.id, "acc_bl");
    assert!(by_clock.id == "acc_tl" || by_clock.id == "acc_br");
}

#[test]
fn test_fifo_expiry_prioritizes_soonest_expiring_credit() {
    let now = Utc.with_ymd_and_hms(2026, 9, 23, 14, 0, 0).unwrap();
    let acc_urgent = make_test_account("acc1", "UrgentCredit", None);
    let acc_distant = make_test_account("acc2", "DistantCredit", None);
    let resets_urgent = one_credit("rc_urgent", now + ChronoDuration::days(2));
    let resets_distant = one_credit("rc_distant", now + ChronoDuration::days(25));
    let score_urgent = calculate_account_score(
        &acc_urgent,
        AutoSwitchStrategy::SmartBalanced,
        None,
        Some(&resets_urgent),
        3,
        moment(now),
    );
    let score_distant = calculate_account_score(
        &acc_distant,
        AutoSwitchStrategy::SmartBalanced,
        None,
        Some(&resets_distant),
        3,
        moment(now),
    );
    assert!(
        score_urgent > score_distant,
        "Reset credit expiring in 2 days must score higher than credit expiring in 25 days (FIFO)"
    );
}

#[test]
fn test_exhausted_weekly_without_resets_is_heavily_penalized() {
    let now = Utc.with_ymd_and_hms(2026, 9, 23, 14, 0, 0).unwrap();
    let at = now.timestamp();
    let acc_exhausted = make_test_account("acc1", "WeeklyExhausted", None);
    let usage_exhausted =
        usage("acc1", Some("plus"), Some((0, Some(at + 18000))), 100, Some(at + 72 * 3600));
    let score = calculate_account_score(
        &acc_exhausted,
        AutoSwitchStrategy::SmartBalanced,
        Some(&usage_exhausted),
        None,
        3,
        moment(now),
    );
    assert!(
        score < -40000 * POINT,
        "Account with 100% weekly usage and no resets must receive severe penalty (score={score})"
    );
    assert_eq!(score, -65_000 * POINT);
}

#[test]
fn test_exhausted_weekly_with_banked_reset_is_not_penalized() {
    let now = Utc.with_ymd_and_hms(2026, 9, 23, 14, 0, 0).unwrap();
    let at = now.timestamp();
    let acc_with_reset = make_test_account("acc1", "CanReset", None);
    let usage_exhausted =
        usage("acc1", Some("plus"), Some((0, Some(at + 18000))), 100, Some(at + 72 * 3600));
    let resets = one_credit("rc1", now + ChronoDuration::days(10));
    let score = calculate_account_score(
        &acc_with_reset,
        AutoSwitchStrategy::SmartBalanced,
        Some(&usage_exhausted),
        Some(&resets),
        3,
        moment(now),
    );
    assert!(
        score > 0,
        "Account with 100% weekly usage but having banked reset must NOT be penalized (score={score})"
    );
}

#[test]
fn test_most_remaining_quota_includes_banked_resets() {
    let now = Utc.with_ymd_and_hms(2026, 9, 23, 14, 0, 0).unwrap();
    let at = now.timestamp();
    let acc_a = make_test_account("acc1", "LowWithTwoResets", None);
    let usage_a =
        usage("acc1", Some("plus"), Some((0, Some(at + 18000))), 90, Some(at + 72 * 3600));
    let resets_a = AccountResetCredits {
        available_count: 2,
        next_expires_at: Some((now + ChronoDuration::days(10)).to_rfc3339()),
        credits: vec![
            credit("rc1", now + ChronoDuration::days(10)),
            credit("rc2", now + ChronoDuration::days(20)),
        ],
    };
    let acc_b = make_test_account("acc2", "HighNoResets", None);
    let usage_b =
        usage("acc2", Some("plus"), Some((0, Some(at + 18000))), 10, Some(at + 72 * 3600));
    let score_a = calculate_account_score(
        &acc_a,
        AutoSwitchStrategy::MostRemainingQuota,
        Some(&usage_a),
        Some(&resets_a),
        3,
        moment(now),
    );
    let score_b = calculate_account_score(
        &acc_b,
        AutoSwitchStrategy::MostRemainingQuota,
        Some(&usage_b),
        None,
        3,
        moment(now),
    );
    assert!(
        score_a > score_b,
        "Account A with 2 banked resets (210% effective) must beat Account B (90% effective) under MostRemainingQuota"
    );
    assert_eq!(score_a, 2_100 * POINT);
    assert_eq!(score_b, 900 * POINT);
}

#[test]
fn test_round_robin_skips_exhausted_weekly_accounts_unless_banked_resets() {
    let accounts =
        [make_test_account("acc1", "LockedWeekly", None), make_test_account("acc2", "HealthyWeekly", None)];
    let (usage_map, resets_map) = collect_snapshots(vec![
        snapshot(usage("acc1", Some("plus"), Some((0, None)), 99, None), None),
        snapshot(usage("acc2", Some("plus"), Some((0, None)), 20, None), None),
    ]);
    let selected = select_best_account(
        &accounts,
        None,
        AutoSwitchStrategy::RoundRobin,
        &usage_map,
        &resets_map,
        3,
    );
    assert_eq!(
        selected.unwrap().id,
        "acc2",
        "RoundRobin must skip acc1 because its weekly quota is 99% exhausted and it has no resets"
    );
}

#[test]
fn test_tier_priority_healthy_plus_beats_prolite_and_pro() {
    let now = Utc.with_ymd_and_hms(2026, 9, 23, 12, 0, 0).unwrap();
    let at = now.timestamp();
    let acc_plus = make_test_account_with_plan("acc_plus", "PlusAcc", "plus", None);
    let acc_prolite = make_test_account_with_plan("acc_prolite", "ProLiteAcc", "prolite", None);
    let acc_pro = make_test_account_with_plan("acc_pro", "ProAcc", "pro", None);
    let healthy = usage("any", None, Some((0, Some(at + 5 * 3600))), 0, Some(at + 120 * 3600));
    let strategy = AutoSwitchStrategy::SmartBalanced;
    let score_plus =
        calculate_account_score(&acc_plus, strategy, Some(&healthy), None, 3, moment(now));
    let score_prolite =
        calculate_account_score(&acc_prolite, strategy, Some(&healthy), None, 3, moment(now));
    let score_pro =
        calculate_account_score(&acc_pro, strategy, Some(&healthy), None, 3, moment(now));
    assert!(
        score_plus > score_prolite,
        "Plus account ({score_plus}) must have higher score than Pro Lite ({score_prolite}) to preserve expensive tier"
    );
    assert!(
        score_prolite > score_pro,
        "Pro Lite account ({score_prolite}) must have higher score than $200 Pro ({score_pro}) to preserve most expensive tier"
    );
}

#[test]
fn test_tier_priority_prolite_beats_pro_when_plus_exhausted() {
    let now = Utc.with_ymd_and_hms(2026, 9, 23, 12, 0, 0).unwrap();
    let at = now.timestamp();
    let accounts = [
        make_test_account_with_plan("acc_plus", "PlusAcc", "plus", None),
        make_test_account_with_plan("acc_prolite", "ProLiteAcc", "prolite", None),
        make_test_account_with_plan("acc_pro", "ProAcc", "pro", None),
    ];
    let (usage_map, resets_map) = collect_snapshots(vec![
        snapshot(
            usage("acc_plus", Some("plus"), Some((100, Some(at + 3600))), 50, Some(at + 72 * 3600)),
            None,
        ),
        snapshot(usage("acc_prolite", Some("prolite"), None, 20, Some(at + 158 * 3600)), None),
        snapshot(usage("acc_pro", Some("pro"), None, 20, Some(at + 158 * 3600)), None),
    ]);
    let selected = select_best_account_at(
        &accounts,
        None,
        AutoSwitchStrategy::SmartBalanced,
        &usage_map,
        &resets_map,
        3,
        moment(now),
    );
    assert_eq!(
        selected.unwrap().id,
        "acc_prolite",
        "When Plus accounts are exhausted, Pro Lite should be chosen as the next reserve before $200 Pro"
    );
    let by_clock = select_best_account(
        &accounts,
        None,
        AutoSwitchStrategy::SmartBalanced,
        &usage_map,
        &resets_map,
        3,
    );
    assert_eq!(by_clock.unwrap().id, "acc_prolite");
}

#[test]
fn test_tier_priority_prolite_with_banked_reset_beats_healthy_plus() {
    let now = Utc.with_ymd_and_hms(2026, 9, 23, 12, 0, 0).unwrap();
    let at = now.timestamp();
    let acc_plus = make_test_account_with_plan("acc_plus", "PlusAcc", "plus", None);
    let acc_prolite = make_test_account_with_plan("acc_prolite", "ProLiteAcc", "prolite", None);
    let usage_plus =
        usage("acc_plus", Some("plus"), Some((0, Some(at + 5 * 3600))), 0, Some(at + 120 * 3600));
    let usage_prolite = usage("acc_prolite", Some("prolite"), None, 20, Some(at + 120 * 3600));
    let resets_prolite = one_credit("rc_prolite", now + ChronoDuration::days(10));
    let strategy = AutoSwitchStrategy::SmartBalanced;
    let score_plus =
        calculate_account_score(&acc_plus, strategy, Some(&usage_plus), None, 3, moment(now));
    let score_prolite = calculate_account_score(
        &acc_prolite,
        strategy,
        Some(&usage_prolite),
        Some(&resets_prolite),
        3,
        moment(now),
    );
    assert!(
        score_prolite > score_plus,
        "Pro Lite with banked reset ({score_prolite}) must beat healthy Plus ({score_plus}) so banked reset is utilized"
    );
}

#[test]
fn test_tier_priority_prolite_with_expiring_weekly_burns_before_plus() {
    let now = Utc.with_ymd_and_hms(2026, 9, 23, 12, 0, 0).unwrap();
    let at = now.timestamp();
    let acc_plus = make_test_account_with_plan("acc_plus", "PlusAcc", "plus", None);
    let acc_prolite = make_test_account_with_plan("acc_prolite", "ProLiteAcc", "prolite", None);
    let usage_plus =
        usage("acc_plus", Some("plus"), Some((0, Some(at + 5 * 3600))), 0, Some(at + 120 * 3600));
    let usage_prolite = usage("acc_prolite", Some("prolite"), None, 20, Some(at + 8 * 3600));
    let strategy = AutoSwitchStrategy::SmartBalanced;
    let score_plus =
        calculate_account_score(&acc_plus, strategy, Some(&usage_plus), None, 3, moment(now));
    let score_prolite =
        calculate_account_score(&acc_prolite, strategy, Some(&usage_prolite), None, 3, moment(now));
    assert!(
        score_prolite > score_plus,
        "Pro Lite with expiring weekly reset ({score_prolite}) must beat healthy Plus ({score_plus}) to burn quota before week rollover"
    );
}

#[test]
fn test_weekly_only_prolite_account_quota_calculation() {
    let now = Utc.with_ymd_and_hms(2026, 9, 23, 12, 0, 0).unwrap();
    let at = now.timestamp();
    let acc_prolite = make_test_account_with_plan("acc_prolite", "ProLiteAcc", "prolite", None);
    let usage_prolite = usage("acc_prolite", Some("prolite"), None, 20, Some(at + 158 * 3600));
    let score = calculate_account_score(
        &acc_prolite,
        AutoSwitchStrategy::SmartBalanced,
        Some(&usage_prolite),
        None,
        3,
        moment(now),
    );
    // Immediate left is 80, tier penalty is -3000 -> score is 80 - 3000 = -2920
    assert_eq!(score, (80 - 3000) * POINT);
    assert_eq!(score as f64 / POINT as f64, 80.0 - 3000.0);
}

#[test]
fn no_account_is_selected_where_none_is_left() {
    let accounts = [make_test_account("acc1", "Only", None)];
    let (usage_map, resets_map) = collect_snapshots(vec![]);
    for strategy in [AutoSwitchStrategy::SmartBalanced, AutoSwitchStrategy::RoundRobin] {
        assert!(select_best_account(&accounts, Some("acc1"), strategy, &usage_map, &resets_map, 3)
            .is_none());
        assert!(select_best_account(&[], None, strategy, &usage_map, &resets_map, 3).is_none());
        let other = select_best_account(&accounts, Some("acc2"), strategy, &usage_map, &resets_map, 3);
        assert_eq!(other.unwrap().id, "acc1");
    }
}

#[test]
fn first_of_equal_accounts_is_selected() {
    let accounts = [
        make_test_account("acc1", "One", None),
        make_test_account("acc2", "Two", None),
        make_test_account("acc3", "Three", None),
    ];
    let (usage_map, resets_map) = collect_snapshots(vec![]);
    let selected = select_best_account(
        &accounts,
        Some("acc1"),
        AutoSwitchStrategy::SmartBalanced,
        &usage_map,
        &resets_map,
        3,
    );
    assert_eq!(selected.unwrap().id, "acc2");
}

#[test]
fn round_robin_takes_the_first_account_where_none_has_room() {
    let accounts = [
        make_test_account("acc1", "One", None),
        make_test_account("acc2", "Two", None),
    ];
    let full = |id: &str| snapshot(usage(id, None, Some((96, None)), 10, None), None);
    let (usage_map, resets_map) = collect_snapshots(vec![full("acc1"), full("acc2")]);
    let strategy = AutoSwitchStrategy::RoundRobin;
    let selected = select_best_account(&accounts, None, strategy, &usage_map, &resets_map, 3);
    assert_eq!(selected.unwrap().id, "acc1");

    // A banked reset makes room, also one that is written in capital letters.
    let now = Utc.with_ymd_and_hms(2026, 9, 23, 12, 0, 0).unwrap();
    let mut resets = one_credit("rc", now);
    resets.credits[0].status = "AVAILABLE".to_string();
    let (usage_map, resets_map) = collect_snapshots(vec![
        full("acc1"),
        snapshot(usage("acc2", None, Some((96, None)), 10, None), Some(resets)),
    ]);
    let selected = select_best_account(&accounts, None, strategy, &usage_map, &resets_map, 3);
    assert_eq!(selected.unwrap().id, "acc2");
}

#[test]
fn expired_and_used_credits_do_not_count() {
    let now = Utc.with_ymd_and_hms(2026, 9, 23, 12, 0, 0).unwrap();
    let account = make_test_account("acc", "Acc", None);
    let mut resets = AccountResetCredits {
        available_count: 4,
        next_expires_at: None,
        credits: vec![
            credit("expired", now),
            credit("redeemed", now + ChronoDuration::days(5)),
            credit("kept", now + ChronoDuration::days(70)),
            credit("undated", now),
        ],
    };
    resets.credits[1].status = "redeemed".to_string();
    resets.credits[2].status = "Available".to_string();
    resets.credits[3].expires_at = Some("soon".to_string());
    let facts = gather_facts(&account, None, Some(&resets), 3, moment(now));
    assert_eq!(
        facts.resets,
        ResetSummary { count: 2, soonest: Some(70 * 86_400), urgent: false }
    );
    let strategy = AutoSwitchStrategy::SmartBalanced;
    assert_eq!(score_from_facts(&facts, strategy), (300 + 40_000) * POINT);
    let strategy = AutoSwitchStrategy::ResetsFirst;
    assert_eq!(score_from_facts(&facts, strategy), (300 + 70_000) * POINT);
}

#[test]
fn order_of_credits_leaves_the_score_alone() {
    let now = Utc.with_ymd_and_hms(2026, 9, 23, 12, 0, 0).unwrap();
    let account = make_test_account("acc", "Acc", None);
    let days = |list: &[i64]| AccountResetCredits {
        available_count: 0,
        next_expires_at: None,
        credits: list.iter().map(|d| credit("rc", now + ChronoDuration::days(*d))).collect(),
    };
    let facts = |list: &[i64]| gather_facts(&account, None, Some(&days(list)), 3, moment(now));
    let expected = ResetSummary { count: 3, soonest: Some(2 * 86_400), urgent: true };
    // Those of zero days and of the day before have expired.
    for list in [[2, 5, 40, 0, -1], [40, 2, 5, -1, 0], [0, -1, 5, 40, 2], [5, 0, 2, -1, 40]] {
        assert_eq!(facts(&list), facts(&[2, 5, 40]));
        assert_eq!(facts(&list).resets, expected);
    }
}

#[test]
fn credit_expires_with_the_second() {
    assert!(credit_counts("available", None));
    assert!(credit_counts("available", Some(1)));
    assert!(!credit_counts("available", Some(0)));
    assert!(!credit_counts("available", Some(-1)));
    assert!(!credit_counts("redeemed", None));

    // A credit that expires within the next second has no whole second left.
    let now = Utc.with_ymd_and_hms(2026, 9, 23, 12, 0, 0).unwrap();
    let account = make_test_account("acc", "Acc", None);
    let resets = one_credit("rc", now + ChronoDuration::milliseconds(999));
    assert_eq!(gather_facts(&account, None, Some(&resets), 3, moment(now)).resets.count, 0);
    let resets = one_credit("rc", now + ChronoDuration::milliseconds(1999));
    let summary = gather_facts(&account, None, Some(&resets), 3, moment(now)).resets;
    assert_eq!(summary, ResetSummary { count: 1, soonest: Some(1), urgent: true });
}

fn blank_facts() -> AccountFacts {
    AccountFacts {
        primary_used: None,
        secondary_used: None,
        weekly_reset_in: None,
        resets: ResetSummary { count: 0, soonest: None, urgent: false },
        subscription_ends_in: None,
        reserve: 0,
    }
}

#[test]
fn subscription_that_ends_soon_raises_the_score() {
    let mut facts = blank_facts();
    facts.subscription_ends_in = Some(86_400);
    let smart = AutoSwitchStrategy::SmartBalanced;
    let expiring = AutoSwitchStrategy::ExpiringSubscriptionFirst;
    assert_eq!(score_from_facts(&facts, smart), (100 + 8_500) * POINT);
    assert_eq!(score_from_facts(&facts, expiring), (100 + 20_000 - 50) * POINT);
    facts.subscription_ends_in = Some(2 * 86_400 + 1);
    assert_eq!(score_from_facts(&facts, smart), 100 * POINT);
    facts.subscription_ends_in = Some(0);
    assert_eq!(score_from_facts(&facts, smart), 10_100 * POINT);
    assert_eq!(score_from_facts(&facts, expiring), 25_100 * POINT);
    facts.subscription_ends_in = None;
    assert_eq!(score_from_facts(&facts, expiring), 100 * POINT);
    assert_eq!(score_from_facts(&facts, AutoSwitchStrategy::RoundRobin), 100 * POINT);
}

#[test]
fn banked_reset_without_a_date_counts_less() {
    let mut facts = blank_facts();
    facts.resets = ResetSummary { count: 1, soonest: None, urgent: false };
    assert_eq!(
        score_from_facts(&facts, AutoSwitchStrategy::SmartBalanced),
        (200 + 25_000) * POINT
    );
    assert_eq!(
        score_from_facts(&facts, AutoSwitchStrategy::ResetsFirst),
        (200 + 35_000) * POINT
    );
}

#[test]
fn reserve_depends_on_the_plan() {
    assert_eq!(plan_reserve(Some("prolite")), 3_000);
    assert_eq!(plan_reserve(Some("pro")), 6_000);
    assert_eq!(plan_reserve(Some("enterprise")), 4_000);
    assert_eq!(plan_reserve(Some("team")), 2_000);
    assert_eq!(plan_reserve(Some("plus")), 0);
    assert_eq!(plan_reserve(None), 0);
    // The plan of an account is compared in small letters.
    let now = Utc.with_ymd_and_hms(2026, 9, 23, 12, 0, 0).unwrap();
    let account = make_test_account_with_plan("acc", "Acc", "ProLite", None);
    assert_eq!(gather_facts(&account, None, None, 3, moment(now)).reserve, 3_000);
}

#[test]
fn exhausted_account_comes_after_every_other_one() {
    let mut exhausted = blank_facts();
    exhausted.primary_used = percent(100);
    exhausted.subscription_ends_in = Some(-5);
    let mut poor = blank_facts();
    poor.primary_used = percent(99);
    poor.secondary_used = percent(99);
    poor.weekly_reset_in = Some(200_000);
    poor.reserve = 6_000;
    for strategy in [
        AutoSwitchStrategy::SmartBalanced,
        AutoSwitchStrategy::ResetsFirst,
        AutoSwitchStrategy::MostRemainingQuota,
        AutoSwitchStrategy::RoundRobin,
    ] {
        assert!(score_from_facts(&exhausted, strategy) < score_from_facts(&poor, strategy));
    }
    // The end of the subscription can outweigh it where that comes first.
    let strategy = AutoSwitchStrategy::ExpiringSubscriptionFirst;
    poor.subscription_ends_in = Some(3_000 * 86_400);
    assert!(score_from_facts(&exhausted, strategy) > score_from_facts(&poor, strategy));
}

#[test]
fn quota_is_kept_within_its_bounds() {
    let mut facts = blank_facts();
    facts.primary_used = Some(Percent { units: -5 * PERCENT });
    facts.secondary_used = Some(Percent { units: 50 * PERCENT + PERCENT / 2 });
    assert_eq!(
        2 * score_from_facts(&facts, AutoSwitchStrategy::RoundRobin),
        99 * POINT
    );
    facts.secondary_used = Some(Percent { units: 250 * PERCENT });
    assert_eq!(
        score_from_facts(&facts, AutoSwitchStrategy::MostRemainingQuota),
        -50_000 * POINT
    );
}

#[test]
fn further_banked_reset_raises_the_score() {
    let mut fewer = blank_facts();
    fewer.primary_used = percent(100);
    let mut one = fewer;
    one.resets = ResetSummary { count: 1, soonest: Some(86_400), urgent: true };
    let mut two = one;
    two.resets.count = 2;
    for strategy in [
        AutoSwitchStrategy::SmartBalanced,
        AutoSwitchStrategy::ResetsFirst,
        AutoSwitchStrategy::ExpiringSubscriptionFirst,
        AutoSwitchStrategy::MostRemainingQuota,
        AutoSwitchStrategy::RoundRobin,
    ] {
        let scores = [fewer, one, two].map(|facts| score_from_facts(&facts, strategy));
        assert!(scores[0] < scores[1] && scores[1] < scores[2]);
    }
}
