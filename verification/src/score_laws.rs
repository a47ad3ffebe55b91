//! What each fact that is known of an account is worth under each strategy.
//!
//! Two accounts of which the same is known but for one fact are compared. Taken together, the
//! comparisons lead from every account to an unused one without a subscription end, a banked reset
//! or a reserve, whose score is known.

use crate::accounts::{AutoSwitchStrategy, Percent, PERCENT};
use crate::moment::DAY;
use crate::scoring;
use crate::scoring::{AccountFacts, ResetSummary, POINT};
use vstd::prelude::*;

verus! {

/// The function that scores gives these units for the facts.
pub open spec fn scored(facts: AccountFacts, strategy: AutoSwitchStrategy, units: i128) -> bool {
    call_ensures(scoring::score_from_facts, (&facts, strategy), units)
}

/// An account that has used nothing, with nothing banked and no subscription end, has 100 points,
/// less its reserve; 1000 where the remaining quota is all that counts. In turn the reserve does
/// not count.
pub proof fn unused_account_scores_a_hundred(
    facts: AccountFacts,
    strategy: AutoSwitchStrategy,
    units: i128,
)
    requires
        facts.primary_used is None,
        facts.secondary_used is None,
        facts.weekly_reset_in is None,
        facts.resets.count == 0,
        facts.subscription_ends_in is None,
        scored(facts, strategy, units),
    ensures
        match strategy {
            AutoSwitchStrategy::RoundRobin => units == 100 * POINT,
            AutoSwitchStrategy::MostRemainingQuota => units == (1_000 - facts.reserve) * POINT,
            _ => units == (100 - facts.reserve) * POINT,
        },
{
}

/// An account that is held in reserve by a point more has a point less, but in turn.
pub proof fn reserve_counts_against_an_account(
    facts: AccountFacts,
    other: AccountFacts,
    strategy: AutoSwitchStrategy,
    units: i128,
    other_units: i128,
)
    requires
        other == (AccountFacts { reserve: other.reserve, ..facts }),
        scored(facts, strategy, units),
        scored(other, strategy, other_units),
    ensures
        if strategy == AutoSwitchStrategy::RoundRobin {
            units == other_units
        } else {
            units - other_units == (other.reserve - facts.reserve) * POINT
        },
{
    assert(facts.quota_score() == other.quota_score());
    assert(facts.weekly_score() == other.weekly_score());
    assert(facts.reset_bonus() == other.reset_bonus());
    assert(facts.expiry_score(150) == other.expiry_score(150));
    assert(facts.subscription_bonus() == other.subscription_bonus());
    assert(facts.effective_quota() == other.effective_quota());
}

// ---------------------------------------------------------------------------
// Subscriptions
// ---------------------------------------------------------------------------

/// Where expiring subscriptions go first, of two accounts whose subscriptions both run the one
/// that ends sooner goes first, by fifty points for each day.
pub proof fn sooner_end_goes_first(
    sooner: AccountFacts,
    later: AccountFacts,
    end: i64,
    later_end: i64,
    units: i128,
    later_units: i128,
)
    requires
        later == (AccountFacts { subscription_ends_in: Some(later_end), ..sooner }),
        sooner.subscription_ends_in == Some(end),
        0 < end < later_end,
        scored(sooner, AutoSwitchStrategy::ExpiringSubscriptionFirst, units),
        scored(later, AutoSwitchStrategy::ExpiringSubscriptionFirst, later_units),
    ensures
        units > later_units,
        (units - later_units) * DAY == (later_end - end) * 50 * POINT,
{
    assert(sooner.quota_score() == later.quota_score());
    assert(sooner.weekly_score() == later.weekly_score());
}

/// Where expiring subscriptions go first, an account whose subscription ends within 400 days goes
/// before the same account without an end: by 20000 points, less fifty for each day that is left,
/// and by 25000 once it has ended.
pub proof fn end_in_sight_goes_before_none(
    ending: AccountFacts,
    endless: AccountFacts,
    end: i64,
    units: i128,
    endless_units: i128,
)
    requires
        endless == (AccountFacts { subscription_ends_in: None, ..ending }),
        ending.subscription_ends_in == Some(end),
        scored(ending, AutoSwitchStrategy::ExpiringSubscriptionFirst, units),
        scored(endless, AutoSwitchStrategy::ExpiringSubscriptionFirst, endless_units),
    ensures
        end <= 0 ==> units - endless_units == 25_000 * POINT,
        end > 0 ==> (units - endless_units) * DAY == (20_000 * DAY - 50 * end) * POINT,
        end < 400 * DAY ==> units > endless_units,
        end > 400 * DAY ==> units < endless_units,
{
    assert(ending.quota_score() == endless.quota_score());
    assert(ending.weekly_score() == endless.weekly_score());
}

/// Where expiring subscriptions go first, one that has ended goes before every one that runs.
pub proof fn ended_subscription_goes_first(
    ended: AccountFacts,
    running: AccountFacts,
    end: i64,
    running_end: i64,
    units: i128,
    running_units: i128,
)
    requires
        running == (AccountFacts { subscription_ends_in: Some(running_end), ..ended }),
        ended.subscription_ends_in == Some(end),
        end <= 0 < running_end,
        scored(ended, AutoSwitchStrategy::ExpiringSubscriptionFirst, units),
        scored(running, AutoSwitchStrategy::ExpiringSubscriptionFirst, running_units),
    ensures
        units > running_units + 5_000 * POINT,
{
    assert(ended.quota_score() == running.quota_score());
    assert(ended.weekly_score() == running.weekly_score());
}

/// In the balance, a subscription that ends within two days adds 8000 points, and 500 for each day
/// that is missing from two; one that has ended adds 10000; one that runs longer adds nothing.
pub proof fn last_days_count_in_the_balance(
    ending: AccountFacts,
    endless: AccountFacts,
    end: i64,
    units: i128,
    endless_units: i128,
)
    requires
        endless == (AccountFacts { subscription_ends_in: None, ..ending }),
        ending.subscription_ends_in == Some(end),
        scored(ending, AutoSwitchStrategy::SmartBalanced, units),
        scored(endless, AutoSwitchStrategy::SmartBalanced, endless_units),
    ensures
        end <= 0 ==> units - endless_units == 10_000 * POINT,
        0 < end <= 2 * DAY ==> (units - endless_units) * DAY == (8_000 * DAY + 500 * (2 * DAY
            - end)) * POINT,
        end > 2 * DAY ==> units == endless_units,
{
    assert(ending.quota_score() == endless.quota_score());
    assert(ending.weekly_score() == endless.weekly_score());
    assert(ending.reset_bonus() == endless.reset_bonus());
}

/// Under the other strategies it does not count when a subscription ends.
pub proof fn subscription_counts_for_two_strategies(
    facts: AccountFacts,
    other: AccountFacts,
    strategy: AutoSwitchStrategy,
    units: i128,
    other_units: i128,
)
    requires
        other == (AccountFacts { subscription_ends_in: other.subscription_ends_in, ..facts }),
        strategy != AutoSwitchStrategy::ExpiringSubscriptionFirst,
        strategy != AutoSwitchStrategy::SmartBalanced,
        scored(facts, strategy, units),
        scored(other, strategy, other_units),
    ensures
        units == other_units,
{
    assert(facts.quota_score() == other.quota_score());
    assert(facts.weekly_score() == other.weekly_score());
    assert(facts.expiry_score(150) == other.expiry_score(150));
    assert(facts.effective_quota() == other.effective_quota());
}

// ---------------------------------------------------------------------------
// Banked resets
// ---------------------------------------------------------------------------

/// The first banked reset without a date, on an account of which no weekly reset is known and no
/// window is used up.
pub proof fn first_reset_counts(
    with: AccountFacts,
    without: AccountFacts,
    strategy: AutoSwitchStrategy,
    units: i128,
    bare_units: i128,
)
    requires
        without == (AccountFacts { resets: without.resets, ..with }),
        with.resets.count == 1,
        with.resets.soonest is None,
        without.resets.count == 0,
        with.weekly_reset_in is None,
        with.primary_used matches Some(used) ==> used.units < 100 * PERCENT,
        with.secondary_used matches Some(used) ==> used.units < 100 * PERCENT,
        scored(with, strategy, units),
        scored(without, strategy, bare_units),
    ensures
        units - bare_units == POINT * match strategy {
            AutoSwitchStrategy::SmartBalanced => 25_100,
            AutoSwitchStrategy::ResetsFirst => 35_100,
            AutoSwitchStrategy::MostRemainingQuota => 1_000,
            _ => 100int,
        },
{
    assert(with.immediate_quota() == without.immediate_quota());
    assert(with.subscription_bonus() == without.subscription_bonus());
    assert(with.effective_quota() == without.effective_quota() + 100 * POINT);
}

/// Each further banked reset counts for a full quota, and in the balance for 20000 points more;
/// where resets go first, for 35000 more.
pub proof fn further_reset_counts(
    facts: AccountFacts,
    other: AccountFacts,
    strategy: AutoSwitchStrategy,
    units: i128,
    other_units: i128,
)
    requires
        other == (AccountFacts {
            resets: ResetSummary { count: other.resets.count, ..facts.resets },
            ..facts
        }),
        facts.resets.count > 0,
        other.resets.count > 0,
        scored(facts, strategy, units),
        scored(other, strategy, other_units),
    ensures
        units - other_units == (facts.resets.count - other.resets.count) * match strategy {
            AutoSwitchStrategy::SmartBalanced => 20_100 * POINT,
            AutoSwitchStrategy::ResetsFirst => 35_100 * POINT,
            AutoSwitchStrategy::MostRemainingQuota => 1_000 * POINT,
            _ => 100 * POINT,
        },
{
    assert(facts.immediate_quota() == other.immediate_quota());
    assert(facts.weekly_score() == other.weekly_score());
    assert(facts.subscription_bonus() == other.subscription_bonus());
    assert(facts.expiry_score(100) == other.expiry_score(100));
    assert(facts.expiry_score(150) == other.expiry_score(150));
    let n = facts.resets.count as int;
    let m = other.resets.count as int;
    assert(n * 100 * POINT - m * 100 * POINT == (n - m) * (100 * POINT)) by (nonlinear_arith);
    assert(n * 20_000 * POINT - m * 20_000 * POINT == (n - m) * (20_000 * POINT))
        by (nonlinear_arith);
    assert(n * 35_000 * POINT - m * 35_000 * POINT == (n - m) * (35_000 * POINT))
        by (nonlinear_arith);
    assert((n - m) * (20_100 * POINT) == (n - m) * (100 * POINT) + (n - m) * (20_000 * POINT))
        by (nonlinear_arith);
    assert((n - m) * (35_100 * POINT) == (n - m) * (100 * POINT) + (n - m) * (35_000 * POINT))
        by (nonlinear_arith);
    assert((n - m) * (1_000 * POINT) == 10 * ((n - m) * (100 * POINT))) by (nonlinear_arith);
}

/// The seconds until an expiry, as far as they lie within sixty days.
pub open spec fn within_sixty_days(seconds: i64) -> int {
    if seconds < 60 * DAY {
        seconds as int
    } else {
        60 * DAY
    }
}

/// A banked reset that expires a day sooner, within sixty days, counts for 100 points in the
/// balance, and for 150 where resets go first.
pub proof fn sooner_expiry_counts(
    facts: AccountFacts,
    other: AccountFacts,
    expiry: i64,
    other_expiry: i64,
    strategy: AutoSwitchStrategy,
    units: i128,
    other_units: i128,
)
    requires
        other == (AccountFacts {
            resets: ResetSummary { soonest: Some(other_expiry), ..facts.resets },
            ..facts
        }),
        facts.resets.soonest == Some(expiry),
        facts.resets.count > 0,
        scored(facts, strategy, units),
        scored(other, strategy, other_units),
    ensures
        ({
            let seconds = within_sixty_days(other_expiry) - within_sixty_days(expiry);
            match strategy {
                AutoSwitchStrategy::SmartBalanced => (units - other_units) * DAY == seconds * 100
                    * POINT,
                AutoSwitchStrategy::ResetsFirst => (units - other_units) * DAY == seconds * 150
                    * POINT,
                _ => units == other_units,
            }
        }),
{
    assert(facts.immediate_quota() == other.immediate_quota());
    assert(facts.effective_quota() == other.effective_quota());
    assert(facts.quota_score() == other.quota_score());
    assert(facts.weekly_score() == other.weekly_score());
    assert(facts.subscription_bonus() == other.subscription_bonus());
    let d = within_sixty_days(other_expiry) - within_sixty_days(expiry);
    assert(facts.expiry_score(100) - other.expiry_score(100) == d * 100 * PERCENT);
    assert(facts.expiry_score(150) - other.expiry_score(150) == d * 150 * PERCENT);
}

/// In the balance, a banked reset without a date counts for 5000 points more than one that expires
/// in sixty days or later; elsewhere for as much.
pub proof fn undated_reset_counts(
    undated: AccountFacts,
    dated: AccountFacts,
    expiry: i64,
    strategy: AutoSwitchStrategy,
    units: i128,
    dated_units: i128,
)
    requires
        undated == (AccountFacts {
            resets: ResetSummary { soonest: None, ..dated.resets },
            ..dated
        }),
        dated.resets.soonest == Some(expiry),
        expiry >= 60 * DAY,
        !dated.resets.urgent,
        dated.resets.count > 0,
        scored(undated, strategy, units),
        scored(dated, strategy, dated_units),
    ensures
        units - dated_units == (if strategy == AutoSwitchStrategy::SmartBalanced {
            5_000 * POINT
        } else {
            0
        }),
{
    assert(undated.effective_quota() == dated.effective_quota());
    assert(undated.quota_score() == dated.quota_score());
    assert(undated.weekly_score() == dated.weekly_score());
    assert(undated.subscription_bonus() == dated.subscription_bonus());
    assert(undated.expiry_score(150) == 0);
    assert(dated.expiry_score(150) == 0);
    assert(dated.expiry_score(100) == 0);
}

/// In the balance, a banked reset that expires within the days of warning counts for 10000 points
/// more; elsewhere the warning does not count.
pub proof fn urgent_reset_counts(
    urgent: AccountFacts,
    other: AccountFacts,
    strategy: AutoSwitchStrategy,
    units: i128,
    other_units: i128,
)
    requires
        other == (AccountFacts {
            resets: ResetSummary { urgent: false, ..urgent.resets },
            ..urgent
        }),
        urgent.resets.urgent,
        scored(urgent, strategy, units),
        scored(other, strategy, other_units),
    ensures
        units - other_units == (if strategy == AutoSwitchStrategy::SmartBalanced
            && urgent.resets.count > 0 && urgent.resets.soonest is Some {
            10_000 * POINT
        } else {
            0
        }),
{
    assert(urgent.effective_quota() == other.effective_quota());
    assert(urgent.quota_score() == other.quota_score());
    assert(urgent.weekly_score() == other.weekly_score());
    assert(urgent.subscription_bonus() == other.subscription_bonus());
    assert(urgent.expiry_score(100) == other.expiry_score(100));
    assert(urgent.expiry_score(150) == other.expiry_score(150));
}

// ---------------------------------------------------------------------------
// Quota
// ---------------------------------------------------------------------------

/// What is used of a window, in the units of `Percent`: nothing where nothing is known or less
/// than nothing is told, and all of it where more is.
pub open spec fn share_used(used: Option<Percent>) -> int {
    match used {
        Some(share) => if share.units < 0 {
            0
        } else if share.units > 100 * PERCENT {
            100 * PERCENT
        } else {
            share.units as int
        },
        None => 0,
    }
}

/// What is used of the window of which more is used.
pub open spec fn more_used(facts: AccountFacts) -> int {
    if share_used(facts.primary_used) < share_used(facts.secondary_used) {
        share_used(facts.secondary_used)
    } else {
        share_used(facts.primary_used)
    }
}

/// A percent more that is left of the window of which less is left is worth a point, and ten where
/// the remaining quota is all that counts. That holds of accounts that are not exhausted, and of
/// which no weekly reset is known.
pub proof fn percent_left_is_a_point(
    facts: AccountFacts,
    other: AccountFacts,
    strategy: AutoSwitchStrategy,
    units: i128,
    other_units: i128,
)
    requires
        other == (AccountFacts {
            primary_used: other.primary_used,
            secondary_used: other.secondary_used,
            ..facts
        }),
        facts.weekly_reset_in is None,
        facts.resets.count > 0 || (more_used(facts) < 100 * PERCENT && more_used(other) < 100
            * PERCENT),
        scored(facts, strategy, units),
        scored(other, strategy, other_units),
    ensures
        units - other_units == (more_used(other) - more_used(facts)) * 86_400 * (if strategy
            == AutoSwitchStrategy::MostRemainingQuota {
            10int
        } else {
            1
        }),
{
    assert(facts.reset_bonus() == other.reset_bonus());
    assert(facts.subscription_bonus() == other.subscription_bonus());
    assert(facts.expiry_score(150) == other.expiry_score(150));
    assert(facts.immediate_quota() == 86_400 * (100 * PERCENT - more_used(facts)));
    assert(other.immediate_quota() == 86_400 * (100 * PERCENT - more_used(other)));
    assert(!facts.exhausted() && !other.exhausted());
}

/// An account of which a window is used up, with no banked reset, has 50100 points less than the
/// same account unused, and 51000 less where the remaining quota is all that counts. That holds of
/// accounts of which no weekly reset is known.
pub proof fn exhaustion_counts(
    exhausted: AccountFacts,
    unused: AccountFacts,
    strategy: AutoSwitchStrategy,
    units: i128,
    unused_units: i128,
)
    requires
        unused == (AccountFacts { primary_used: None, secondary_used: None, ..exhausted }),
        more_used(exhausted) == 100 * PERCENT,
        exhausted.resets.count == 0,
        exhausted.weekly_reset_in is None,
        scored(exhausted, strategy, units),
        scored(unused, strategy, unused_units),
    ensures
        unused_units - units == (if strategy == AutoSwitchStrategy::MostRemainingQuota {
            51_000 * POINT
        } else {
            50_100 * POINT
        }),
{
    assert(exhausted.reset_bonus() == unused.reset_bonus());
    assert(exhausted.subscription_bonus() == unused.subscription_bonus());
    assert(exhausted.immediate_quota() == 0);
    assert(exhausted.exhausted());
}

/// When the weekly window starts anew counts in two ways, but where the remaining quota is all
/// that counts. With at least 15 percent left and at most a day to go, an account has 3000 points
/// more, and 30 for each percent that is left. With less left, more than two days to go and no
/// banked reset, it has 15000 points less.
pub proof fn weekly_reset_counts(
    facts: AccountFacts,
    unknown: AccountFacts,
    seconds: i128,
    strategy: AutoSwitchStrategy,
    units: i128,
    unknown_units: i128,
)
    requires
        unknown == (AccountFacts { weekly_reset_in: None, ..facts }),
        facts.weekly_reset_in == Some(seconds),
        scored(facts, strategy, units),
        scored(unknown, strategy, unknown_units),
    ensures
        ({
            let left = 100 * PERCENT - share_used(facts.secondary_used);
            units - unknown_units == (if strategy == AutoSwitchStrategy::MostRemainingQuota {
                0
            } else if left >= 15 * PERCENT && 0 < seconds <= DAY {
                3_000 * POINT + left * 30 * 86_400
            } else if left < 15 * PERCENT && seconds > 2 * DAY && facts.resets.count == 0 {
                -15_000 * POINT
            } else {
                0
            })
        }),
{
    assert(facts.reset_bonus() == unknown.reset_bonus());
    assert(facts.subscription_bonus() == unknown.subscription_bonus());
    assert(facts.expiry_score(150) == unknown.expiry_score(150));
    assert(facts.quota_score() == unknown.quota_score());
    assert(facts.effective_quota() == unknown.effective_quota());
    assert(scoring::left_of(facts.secondary_used) == 100 * PERCENT - share_used(
        facts.secondary_used,
    ));
}

} // verus!
