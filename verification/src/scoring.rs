//! Which account a session is moved to.
//!
//! A score is counted in units so small that every term of it is a whole number of them: a
//! percent of quota is a point, and a rate of one point a day is `PERCENT` units a second.

use crate::accounts::{
    AccountResetCredit, AccountResetCredits, AutoSwitchStrategy, Percent, StoredAccount, UsageInfo,
    PERCENT,
};
use crate::moment;
use crate::moment::{Moment, DAY};
use crate::text;
use vstd::hash_map::StringHashMap;
use vstd::prelude::*;

verus! {

/// One point of a score, in units.
pub const POINT: i128 = 86_400 * PERCENT;

// ---------------------------------------------------------------------------
// Reset credits
// ---------------------------------------------------------------------------

/// The status says that the credit can be used.
pub open spec fn is_available(credit: AccountResetCredit) -> bool {
    text::lowercase(credit.status@) == "available"@
}

/// The whole seconds until the credit expires, where it names a moment for that.
pub open spec fn expires_in(credit: AccountResetCredit, now: Moment) -> Option<int> {
    match credit.expires_at {
        Some(text) => match moment::rfc3339_moment(text@) {
            Some(end) => Some(moment::seconds_from(now, end)),
            None => None,
        },
        None => None,
    }
}

/// A credit of the given status, in small letters, that expires in the given time, still counts.
pub open spec fn counts_as_banked(status: Seq<char>, expires_in: Option<int>) -> bool {
    status == "available"@ && (expires_in matches Some(seconds) ==> seconds > 0)
}

/// The credit is available and has not expired.
pub open spec fn is_banked(credit: AccountResetCredit, now: Moment) -> bool {
    counts_as_banked(text::lowercase(credit.status@), expires_in(credit, now))
}

/// The credits that are available and have not expired.
pub open spec fn banked(credits: Seq<AccountResetCredit>, now: Moment) -> Seq<AccountResetCredit> {
    credits.filter(|credit: AccountResetCredit| is_banked(credit, now))
}

/// The smaller of two spans, of which the first may be unknown.
pub open spec fn sooner(known: Option<int>, seconds: int) -> int {
    match known {
        Some(other) => if other < seconds {
            other
        } else {
            seconds
        },
        None => seconds,
    }
}

/// The seconds until the first of the credits expires, among those that name a moment for it.
pub open spec fn soonest_expiry(credits: Seq<AccountResetCredit>, now: Moment) -> Option<int>
    decreases credits.len(),
{
    if credits.len() == 0 {
        None
    } else {
        let before = soonest_expiry(credits.drop_last(), now);
        match expires_in(credits.last(), now) {
            Some(seconds) => Some(sooner(before, seconds)),
            None => before,
        }
    }
}

/// One of the credits expires within the given days.
pub open spec fn expires_within(
    credits: Seq<AccountResetCredit>,
    days: u32,
    now: Moment,
) -> bool {
    soonest_expiry(credits, now) matches Some(seconds) && seconds <= days * DAY
}

/// The banked credits of an account in short.
#[derive(Clone, Copy, Debug, PartialEq, Eq, Structural)]
pub struct ResetSummary {
    /// How many there are.
    pub count: u32,
    /// The seconds until the first of them expires, where that is known.
    pub soonest: Option<i64>,
    /// Whether one of them expires within the days of warning.
    pub urgent: bool,
}

/// A span in seconds as an integer.
pub open spec fn opt_seconds(seconds: Option<i64>) -> Option<int> {
    match seconds {
        Some(s) => Some(s as int),
        None => None,
    }
}

impl ResetSummary {
    /// The summary is that of the given credits.
    pub open spec fn sums_up(
        self,
        credits: Seq<AccountResetCredit>,
        warning_days: u32,
        now: Moment,
    ) -> bool {
        &&& self.count == banked(credits, now).len()
        &&& opt_seconds(self.soonest) == soonest_expiry(banked(credits, now), now)
        &&& self.urgent == expires_within(banked(credits, now), warning_days, now)
    }
}

/// Whether a credit of the given status, in small letters, that expires in the given seconds,
/// still counts.
pub fn credit_counts(status: &str, expires_in: Option<i64>) -> (r: bool)
    ensures
        r == counts_as_banked(status@, opt_seconds(expires_in)),
{
    if !text::same_text(status, "available") {
        return false;
    }
    match expires_in {
        Some(seconds) => seconds > 0,
        None => true,
    }
}

/// The whole seconds until the credit expires, where it names a moment for that.
fn seconds_to_expiry(credit: &AccountResetCredit, now: Moment) -> (r: Option<i64>)
    requires
        now.wf(),
    ensures
        opt_seconds(r) == expires_in(*credit, now),
{
    match &credit.expires_at {
        Some(text) => match moment::parse_rfc3339(text.as_str()) {
            Some(end) => Some(moment::whole_seconds_from(now, end)),
            None => None,
        },
        None => None,
    }
}

/// The banked credits among `credits` in short.
pub fn summarize_resets(
    credits: &Vec<AccountResetCredit>,
    warning_days: u32,
    now: Moment,
) -> (r: ResetSummary)
    requires
        now.wf(),
        credits@.len() <= u32::MAX,
    ensures
        r.sums_up(credits@, warning_days, now),
        r.soonest matches Some(seconds) ==> seconds > 0,
{
    let mut count: u32 = 0;
    let mut soonest: Option<i64> = None;
    let mut urgent: bool = false;
    let limit: i64 = warning_days as i64 * DAY;
    let ghost keep = |credit: AccountResetCredit| is_banked(credit, now);
    reveal(Seq::filter);
    assert(credits@.take(0) =~= Seq::empty());
    for i in 0..credits.len()
        invariant
            now.wf(),
            credits@.len() <= u32::MAX,
            limit == warning_days * DAY,
            keep == (|credit: AccountResetCredit| is_banked(credit, now)),
            count <= i,
            soonest matches Some(seconds) ==> seconds > 0,
            count == credits@.take(i as int).filter(keep).len(),
            opt_seconds(soonest) == soonest_expiry(credits@.take(i as int).filter(keep), now),
            urgent == expires_within(credits@.take(i as int).filter(keep), warning_days, now),
    {
        let ghost before = credits@.take(i as int).filter(keep);
        let ghost credit_now = credits@[i as int];
        proof {
            reveal(Seq::filter);
            assert(credits@.take(i + 1).drop_last() =~= credits@.take(i as int));
            assert(credits@.take(i + 1).last() == credit_now);
        }
        let status = text::to_lowercase(credits[i].status.as_str());
        let left = seconds_to_expiry(&credits[i], now);
        if credit_counts(status.as_str(), left) {
            assert(keep(credit_now));
            assert(before.push(credit_now).drop_last() =~= before);
            assert(credits@.take(i + 1).filter(keep) == before.push(credit_now));
            count = count + 1;
            if let Some(seconds) = left {
                if seconds <= limit {
                    urgent = true;
                }
                soonest = match soonest {
                    Some(other) => if other < seconds {
                        Some(other)
                    } else {
                        Some(seconds)
                    },
                    None => Some(seconds),
                };
            }
        } else {
            assert(!keep(credit_now));
        }
    }
    assert(credits@.take(credits@.len() as int) =~= credits@);
    ResetSummary { count, soonest, urgent }
}

// ---------------------------------------------------------------------------
// Quota
// ---------------------------------------------------------------------------

/// What is left of a window, in the units of `Percent`: nothing is used where nothing is known,
/// and no more than all of it can be used or left.
pub open spec fn left_of(used: Option<Percent>) -> int {
    match used {
        Some(share) => if share.units <= 0 {
            100 * PERCENT
        } else if share.units >= 100 * PERCENT {
            0
        } else {
            100 * PERCENT - share.units
        },
        None => 100 * PERCENT,
    }
}

/// A window is known to be used up.
pub open spec fn used_up(used: Option<Percent>) -> bool {
    used matches Some(share) && share.units >= 100 * PERCENT
}

/// What is left of a window.
pub fn quota_left(used: Option<Percent>) -> (r: i128)
    ensures
        r == left_of(used),
        0 <= r <= 100 * PERCENT,
{
    match used {
        Some(share) => if share.units <= 0 {
            100 * PERCENT
        } else if share.units >= 100 * PERCENT {
            0
        } else {
            100 * PERCENT - share.units
        },
        None => 100 * PERCENT,
    }
}

/// Whether a window is known to be used up.
pub fn is_used_up(used: Option<Percent>) -> (r: bool)
    ensures
        r == used_up(used),
{
    match used {
        Some(share) => share.units >= 100 * PERCENT,
        None => false,
    }
}

// ---------------------------------------------------------------------------
// Scores
// ---------------------------------------------------------------------------

/// The points by which an account of a plan, named in small letters, is held in reserve.
pub open spec fn reserve_of(plan: Option<Seq<char>>) -> int {
    match plan {
        Some(name) => if name == "prolite"@ {
            3_000
        } else if name == "pro"@ {
            6_000
        } else if name == "enterprise"@ {
            4_000
        } else if name == "team"@ {
            2_000
        } else {
            0
        },
        None => 0,
    }
}

/// The points by which an account of a plan, named in small letters, is held in reserve.
pub fn plan_reserve(plan: Option<&str>) -> (r: u32)
    ensures
        r == reserve_of(crate::json::opt_str(plan)),
        r <= 6_000,
{
    match plan {
        Some(name) => if text::same_text(name, "prolite") {
            3_000
        } else if text::same_text(name, "pro") {
            6_000
        } else if text::same_text(name, "enterprise") {
            4_000
        } else if text::same_text(name, "team") {
            2_000
        } else {
            0
        },
        None => 0,
    }
}

/// All that a score depends on, besides the strategy.
#[derive(Clone, Copy, Debug, PartialEq, Eq, Structural)]
pub struct AccountFacts {
    pub primary_used: Option<Percent>,
    pub secondary_used: Option<Percent>,
    /// The seconds until the weekly window starts anew.
    pub weekly_reset_in: Option<i128>,
    pub resets: ResetSummary,
    /// The seconds until the subscription ends; negative once it has ended.
    pub subscription_ends_in: Option<i64>,
    /// The points by which the plan is held in reserve.
    pub reserve: u32,
}

/// The longest span between two dates of the calendar, in seconds.
pub const CALENDAR_SPAN: i64 = 16_544_868_105_602;

impl AccountFacts {
    /// The subscription ends at a date of the calendar, a banked reset has not expired, and no
    /// plan is held in reserve by more than the dearest one.
    pub open spec fn wf(self) -> bool {
        &&& self.reserve <= 6_000
        &&& self.resets.soonest matches Some(seconds) ==> seconds > 0
        &&& self.subscription_ends_in matches Some(seconds) ==> -CALENDAR_SPAN <= seconds
            <= CALENDAR_SPAN
    }

    /// A window is used up and no reset is banked that could restore it.
    pub open spec fn exhausted(self) -> bool {
        (used_up(self.primary_used) || used_up(self.secondary_used)) && self.resets.count == 0
    }

    /// The quota at hand: what is left of the window of which less is left. A point is a percent.
    pub open spec fn immediate_quota(self) -> int {
        let primary = left_of(self.primary_used);
        let secondary = left_of(self.secondary_used);
        86_400 * if primary < secondary {
            primary
        } else {
            secondary
        }
    }

    /// The quota at hand, and a full one for each banked reset.
    pub open spec fn effective_quota(self) -> int {
        self.immediate_quota() + self.resets.count * 100 * POINT
    }

    /// The effective quota; a heavy penalty in its place for an exhausted account.
    pub open spec fn quota_score(self) -> int {
        if self.exhausted() {
            -50_000 * POINT
        } else {
            self.effective_quota()
        }
    }

    /// A weekly quota worth spending is lost within a day.
    pub open spec fn burns_before_reset(self) -> bool {
        &&& self.weekly_reset_in matches Some(seconds)
        &&& 0 < seconds <= DAY
        &&& left_of(self.secondary_used) >= 15 * PERCENT
    }

    /// Little of the weekly quota is left, for more than two days, and no reset is banked.
    pub open spec fn starving(self) -> bool {
        &&& self.weekly_reset_in matches Some(seconds)
        &&& seconds > 2 * DAY
        &&& left_of(self.secondary_used) < 15 * PERCENT
        &&& self.resets.count == 0
    }

    /// What the time until the weekly reset adds.
    pub open spec fn weekly_score(self) -> int {
        let burn = if self.burns_before_reset() {
            3_000 * POINT + left_of(self.secondary_used) * 30 * 86_400
        } else {
            0
        };
        let starve = if self.starving() {
            15_000 * POINT
        } else {
            0
        };
        burn - starve
    }

    /// The days until the first banked reset expires that are missing from sixty, at the given
    /// points a day.
    pub open spec fn expiry_score(self, rate: int) -> int {
        match self.resets.soonest {
            Some(seconds) => if seconds < 60 * DAY {
                (60 * DAY - seconds) * rate * PERCENT
            } else {
                0
            },
            None => 0,
        }
    }

    /// What banked resets add: the more of them there are, and the sooner one expires, the more.
    pub open spec fn reset_bonus(self) -> int {
        if self.resets.count == 0 {
            0
        } else {
            self.resets.count * 20_000 * POINT + match self.resets.soonest {
                Some(_) => self.expiry_score(100) + if self.resets.urgent {
                    10_000 * POINT
                } else {
                    0
                },
                None => 5_000 * POINT,
            }
        }
    }

    /// What a subscription adds that has ended or ends within two days.
    pub open spec fn subscription_bonus(self) -> int {
        match self.subscription_ends_in {
            Some(seconds) => if seconds <= 0 {
                10_000 * POINT
            } else if seconds <= 2 * DAY {
                8_000 * POINT + (2 * DAY - seconds) * 500 * PERCENT
            } else {
                0
            },
            None => 0,
        }
    }

    /// The score of the account under a strategy, in units. The higher, the rather it is chosen.
    pub open spec fn score(self, strategy: AutoSwitchStrategy) -> int {
        let reserve = self.reserve * POINT;
        match strategy {
            AutoSwitchStrategy::SmartBalanced => self.quota_score() + self.weekly_score()
                + self.reset_bonus() - reserve + self.subscription_bonus(),
            AutoSwitchStrategy::ResetsFirst => self.quota_score() + self.weekly_score() + (
            if self.resets.count > 0 {
                self.resets.count * 35_000 * POINT + self.expiry_score(150)
            } else {
                0
            }) - reserve,
            AutoSwitchStrategy::ExpiringSubscriptionFirst => self.quota_score()
                + self.weekly_score() + (match self.subscription_ends_in {
                Some(seconds) => if seconds <= 0 {
                    25_000 * POINT
                } else {
                    20_000 * POINT - seconds * 50 * PERCENT
                },
                None => 0,
            }) - reserve,
            AutoSwitchStrategy::MostRemainingQuota => self.effective_quota() * 10 - (
            if self.exhausted() {
                50_000 * POINT
            } else {
                0
            }) - reserve,
            AutoSwitchStrategy::RoundRobin => self.quota_score() + self.weekly_score(),
        }
    }
}

/// The whole seconds between two dates of the calendar are fewer than those of all of it.
proof fn lemma_calendar_span(earlier: Moment, later: Moment)
    requires
        earlier.wf(),
        later.wf(),
    ensures
        -CALENDAR_SPAN <= moment::seconds_from(earlier, later) <= CALENDAR_SPAN,
{
}

/// The quota at hand, and a full one for each banked reset.
fn effective_quota(facts: &AccountFacts) -> (r: i128)
    ensures
        r == facts.effective_quota(),
        0 <= r <= 500_000_000_000 * POINT,
{
    let primary = quota_left(facts.primary_used);
    let secondary = quota_left(facts.secondary_used);
    let least = if primary < secondary {
        primary
    } else {
        secondary
    };
    86_400 * least + facts.resets.count as i128 * 100 * POINT
}

/// Whether a window is used up and no reset is banked that could restore it.
fn is_exhausted(facts: &AccountFacts) -> (r: bool)
    ensures
        r == facts.exhausted(),
{
    (is_used_up(facts.primary_used) || is_used_up(facts.secondary_used)) && facts.resets.count == 0
}

/// What the time until the weekly reset adds.
fn weekly_score(facts: &AccountFacts) -> (r: i128)
    ensures
        r == facts.weekly_score(),
        -15_000 * POINT <= r <= 6_000 * POINT,
{
    let left = quota_left(facts.secondary_used);
    match facts.weekly_reset_in {
        Some(seconds) => if left >= 15 * PERCENT {
            if 0 < seconds && seconds <= DAY as i128 {
                3_000 * POINT + left * 30 * 86_400
            } else {
                0
            }
        } else if facts.resets.count == 0 && seconds > 2 * DAY as i128 {
            -15_000 * POINT
        } else {
            0
        },
        None => 0,
    }
}

/// The seconds until the first banked reset expires that are missing from sixty days.
fn expiry_shortfall(facts: &AccountFacts) -> (r: i128)
    requires
        facts.wf(),
    ensures
        0 <= r <= 60 * DAY,
        facts.expiry_score(100) == r * 100 * PERCENT,
        facts.expiry_score(150) == r * 150 * PERCENT,
{
    match facts.resets.soonest {
        Some(seconds) => if seconds < 60 * DAY {
            60 * DAY as i128 - seconds as i128
        } else {
            0
        },
        None => 0,
    }
}

/// What banked resets add.
fn reset_bonus(facts: &AccountFacts) -> (r: i128)
    requires
        facts.wf(),
    ensures
        r == facts.reset_bonus(),
        0 <= r <= 90_000_000_000_000 * POINT,
{
    if facts.resets.count == 0 {
        return 0;
    }
    let shortfall = expiry_shortfall(facts);
    let urgency: i128 = match facts.resets.soonest {
        Some(_) => shortfall * 100 * PERCENT + (if facts.resets.urgent {
            10_000 * POINT
        } else {
            0
        }),
        None => 5_000 * POINT,
    };
    facts.resets.count as i128 * 20_000 * POINT + urgency
}

/// What a subscription adds that has ended or ends soon.
fn subscription_bonus(facts: &AccountFacts) -> (r: i128)
    ensures
        r == facts.subscription_bonus(),
        0 <= r <= 10_000 * POINT,
{
    match facts.subscription_ends_in {
        Some(seconds) => if seconds <= 0 {
            10_000 * POINT
        } else if seconds <= 2 * DAY {
            8_000 * POINT + (2 * DAY as i128 - seconds as i128) * 500 * PERCENT
        } else {
            0
        },
        None => 0,
    }
}

/// The score of an account of which the given is known.
pub fn score_from_facts(facts: &AccountFacts, strategy: AutoSwitchStrategy) -> (r: i128)
    requires
        facts.wf(),
    ensures
        r == facts.score(strategy),
{
    let effective = effective_quota(facts);
    let exhausted = is_exhausted(facts);
    let weekly = weekly_score(facts);
    let reserve: i128 = facts.reserve as i128 * POINT;
    let count: i128 = facts.resets.count as i128;
    let base: i128 = weekly + if exhausted {
        -50_000 * POINT
    } else {
        effective
    };
    match strategy {
        AutoSwitchStrategy::SmartBalanced => base + reset_bonus(facts) - reserve
            + subscription_bonus(facts),
        AutoSwitchStrategy::ResetsFirst => {
            let bonus: i128 = if count > 0 {
                count * 35_000 * POINT + expiry_shortfall(facts) * 150 * PERCENT
            } else {
                0
            };
            base + bonus - reserve
        },
        AutoSwitchStrategy::ExpiringSubscriptionFirst => {
            let bonus: i128 = match facts.subscription_ends_in {
                Some(seconds) => if seconds <= 0 {
                    25_000 * POINT
                } else {
                    20_000 * POINT - seconds as i128 * 50 * PERCENT
                },
                None => 0,
            };
            base + bonus - reserve
        },
        AutoSwitchStrategy::MostRemainingQuota => {
            let penalty: i128 = if exhausted {
                50_000 * POINT
            } else {
                0
            };
            effective * 10 - penalty - reserve
        },
        AutoSwitchStrategy::RoundRobin => base,
    }
}

/// The credits of an account of which they may be unknown.
pub open spec fn credits_of(resets: Option<AccountResetCredits>) -> Seq<AccountResetCredit> {
    match resets {
        Some(known) => known.credits@,
        None => Seq::empty(),
    }
}

/// What an optional reference refers to.
pub open spec fn opt_ref<T>(value: Option<&T>) -> Option<T> {
    match value {
        Some(v) => Some(*v),
        None => None,
    }
}

/// What is known of an account at the given time.
pub open spec fn facts_of(
    account: StoredAccount,
    usage: Option<UsageInfo>,
    resets: Option<AccountResetCredits>,
    warning_days: u32,
    now: Moment,
) -> AccountFacts {
    let kept = banked(credits_of(resets), now);
    AccountFacts {
        primary_used: match usage {
            Some(known) => known.primary_used_percent,
            None => None,
        },
        secondary_used: match usage {
            Some(known) => known.secondary_used_percent,
            None => None,
        },
        weekly_reset_in: match usage {
            Some(known) => match known.secondary_resets_at {
                Some(at) => Some((at - now.secs) as i128),
                None => None,
            },
            None => None,
        },
        resets: ResetSummary {
            count: kept.len() as u32,
            soonest: match soonest_expiry(kept, now) {
                Some(seconds) => Some(seconds as i64),
                None => None,
            },
            urgent: expires_within(kept, warning_days, now),
        },
        subscription_ends_in: match account.subscription_expires_at {
            Some(end) => Some(moment::seconds_from(now, end) as i64),
            None => None,
        },
        reserve: reserve_of(
            match account.plan_type {
                Some(plan) => Some(text::lowercase(plan@)),
                None => None,
            },
        ) as u32,
    }
}

proof fn lemma_kept_credits(credits: Seq<AccountResetCredit>, now: Moment)
    requires
        now.wf(),
    ensures
        banked(credits, now).len() <= credits.len(),
        forall|i: int|
            0 <= i < banked(credits, now).len() ==> is_banked(
                #[trigger] banked(credits, now)[i],
                now,
            ),
    decreases credits.len(),
{
    reveal(Seq::filter);
    if credits.len() > 0 {
        lemma_kept_credits(credits.drop_last(), now);
    }
}

proof fn lemma_soonest_is_ahead(credits: Seq<AccountResetCredit>, now: Moment)
    requires
        now.wf(),
        forall|i: int| 0 <= i < credits.len() ==> is_banked(#[trigger] credits[i], now),
    ensures
        soonest_expiry(credits, now) matches Some(seconds) ==> 0 < seconds <= CALENDAR_SPAN,
    decreases credits.len(),
{
    if credits.len() > 0 {
        assert(is_banked(credits[credits.len() - 1], now));
        if let Some(text) = credits.last().expires_at {
            if let Some(end) = moment::rfc3339_moment(text@) {
                lemma_calendar_span(now, end);
            }
        }
        lemma_soonest_is_ahead(credits.drop_last(), now);
    }
}

/// The time until the first banked credit expires is one that 64 bits hold.
pub proof fn lemma_soonest_fits(credits: Seq<AccountResetCredit>, now: Moment)
    requires
        now.wf(),
    ensures
        banked(credits, now).len() <= credits.len(),
        soonest_expiry(banked(credits, now), now) matches Some(seconds) ==> 0 < seconds
            <= CALENDAR_SPAN,
{
    lemma_kept_credits(credits, now);
    lemma_soonest_is_ahead(banked(credits, now), now);
}

/// What is known of an account is within the bounds of `AccountFacts`.
pub proof fn lemma_facts_are_sound(
    account: StoredAccount,
    usage: Option<UsageInfo>,
    resets: Option<AccountResetCredits>,
    warning_days: u32,
    now: Moment,
)
    requires
        now.wf(),
        account.wf(),
        credits_of(resets).len() <= u32::MAX,
    ensures
        facts_of(account, usage, resets, warning_days, now).wf(),
{
    let kept = banked(credits_of(resets), now);
    lemma_kept_credits(credits_of(resets), now);
    lemma_soonest_is_ahead(kept, now);
    if let Some(end) = account.subscription_expires_at {
        lemma_calendar_span(now, end);
    }
}

/// Gathers what is known of an account at the given time.
pub fn gather_facts(
    account: &StoredAccount,
    usage: Option<&UsageInfo>,
    resets: Option<&AccountResetCredits>,
    warning_days: u32,
    now: Moment,
) -> (r: AccountFacts)
    requires
        now.wf(),
        account.wf(),
        credits_of(opt_ref(resets)).len() <= u32::MAX,
    ensures
        r == facts_of(*account, opt_ref(usage), opt_ref(resets), warning_days, now),
        r.wf(),
{
    let summary = match resets {
        Some(known) => summarize_resets(&known.credits, warning_days, now),
        None => summarize_resets(&Vec::new(), warning_days, now),
    };
    let (primary_used, secondary_used, weekly_reset_in) = match usage {
        Some(known) => (
            known.primary_used_percent,
            known.secondary_used_percent,
            match known.secondary_resets_at {
                Some(at) => Some(at as i128 - now.secs as i128),
                None => None,
            },
        ),
        None => (None, None, None),
    };
    let subscription_ends_in = match account.subscription_expires_at {
        Some(end) => {
            proof {
                lemma_calendar_span(now, end);
            }
            Some(moment::whole_seconds_from(now, end))
        },
        None => None,
    };
    let reserve = match &account.plan_type {
        Some(plan) => {
            let name = text::to_lowercase(plan.as_str());
            plan_reserve(Some(name.as_str()))
        },
        None => plan_reserve(None),
    };
    AccountFacts {
        primary_used,
        secondary_used,
        weekly_reset_in,
        resets: summary,
        subscription_ends_in,
        reserve,
    }
}

/// The score of an account at the given time, in units.
pub open spec fn account_score(
    account: StoredAccount,
    strategy: AutoSwitchStrategy,
    usage: Option<UsageInfo>,
    resets: Option<AccountResetCredits>,
    warning_days: u32,
    now: Moment,
) -> int {
    facts_of(account, usage, resets, warning_days, now).score(strategy)
}

/// Scores an account as a candidate to switch to. The higher, the rather it is chosen.
pub fn calculate_account_score(
    account: &StoredAccount,
    strategy: AutoSwitchStrategy,
    usage: Option<&UsageInfo>,
    resets: Option<&AccountResetCredits>,
    warning_days: u32,
    now: Moment,
) -> (r: i128)
    requires
        now.wf(),
        account.wf(),
        credits_of(opt_ref(resets)).len() <= u32::MAX,
    ensures
        r == account_score(
            *account,
            strategy,
            opt_ref(usage),
            opt_ref(resets),
            warning_days,
            now,
        ),
{
    let facts = gather_facts(account, usage, resets, warning_days, now);
    score_from_facts(&facts, strategy)
}

// ---------------------------------------------------------------------------
// Selection
// ---------------------------------------------------------------------------

/// Any account but the one in use can be switched to.
pub open spec fn is_candidate(account: StoredAccount, current: Option<Seq<char>>) -> bool {
    current matches Some(id) ==> account.id@ != id
}

/// The entry of a map for an account, where there is one.
pub open spec fn entry_of<T>(map: Map<Seq<char>, T>, account: StoredAccount) -> Option<T> {
    if map.contains_key(account.id@) {
        Some(map[account.id@])
    } else {
        None
    }
}

/// Less than 95 percent of a window is known to be used.
pub open spec fn has_room(used: Option<Percent>) -> bool {
    used matches Some(share) ==> share.units < 95 * PERCENT
}

/// A reset credit of the account is available.
pub open spec fn has_available_reset(resets: Option<AccountResetCredits>) -> bool {
    exists|i: int|
        0 <= i < credits_of(resets).len() && is_available(#[trigger] credits_of(resets)[i])
}

/// The account has room in both windows, or a reset that makes room.
pub open spec fn is_usable(usage: Option<UsageInfo>, resets: Option<AccountResetCredits>) -> bool {
    ||| has_available_reset(resets)
    ||| usage matches Some(known) ==> has_room(known.primary_used_percent) && has_room(
        known.secondary_used_percent,
    )
}

/// What the choice of an account is made from.
pub struct Choice {
    pub accounts: Seq<StoredAccount>,
    pub current: Option<Seq<char>>,
    pub strategy: AutoSwitchStrategy,
    pub usage: Map<Seq<char>, UsageInfo>,
    pub resets: Map<Seq<char>, AccountResetCredits>,
    pub warning_days: u32,
}

impl Choice {
    /// The account at a position can be switched to.
    pub open spec fn candidate(self, i: int) -> bool {
        0 <= i < self.accounts.len() && is_candidate(self.accounts[i], self.current)
    }

    /// The account at a position can be switched to and used at once.
    pub open spec fn usable(self, i: int) -> bool {
        self.candidate(i) && is_usable(
            entry_of(self.usage, self.accounts[i]),
            entry_of(self.resets, self.accounts[i]),
        )
    }

    /// What is known of the account at a position.
    pub open spec fn facts(self, i: int, now: Moment) -> AccountFacts {
        facts_of(
            self.accounts[i],
            entry_of(self.usage, self.accounts[i]),
            entry_of(self.resets, self.accounts[i]),
            self.warning_days,
            now,
        )
    }

    /// The score of the account at a position.
    pub open spec fn score(self, i: int, now: Moment) -> int {
        self.facts(i, now).score(self.strategy)
    }

    /// In turn: the first account that can be used at once; where there is none, the first one.
    pub open spec fn is_next_in_turn(self, i: int) -> bool {
        &&& self.candidate(i)
        &&& if exists|j: int| self.usable(j) {
            self.usable(i) && forall|j: int| #[trigger] self.usable(j) ==> i <= j
        } else {
            forall|j: int| #[trigger] self.candidate(j) ==> i <= j
        }
    }

    /// By score: an account of the highest score, and the first of those.
    pub open spec fn is_best(self, i: int, now: Moment) -> bool {
        &&& self.candidate(i)
        &&& forall|j: int| #[trigger]
            self.candidate(j) ==> self.score(j, now) <= self.score(i, now) && (j < i ==> self.score(
                j,
                now,
            ) < self.score(i, now))
    }

    /// The account at the position is the one to switch to.
    pub open spec fn chooses(self, i: int, now: Moment) -> bool {
        if self.strategy == AutoSwitchStrategy::RoundRobin {
            self.is_next_in_turn(i)
        } else {
            self.is_best(i, now)
        }
    }

    /// The ends of the subscriptions are dates of the calendar, and no account has more credits
    /// than 32 bits count.
    pub open spec fn wf(self) -> bool {
        &&& forall|i: int| 0 <= i < self.accounts.len() ==> (#[trigger] self.accounts[i]).wf()
        &&& forall|id: Seq<char>| #[trigger]
            self.resets.contains_key(id) ==> self.resets[id].credits@.len() <= u32::MAX
    }
}

/// Whether an account can be switched to.
fn can_switch_to(account: &StoredAccount, current: Option<&str>) -> (r: bool)
    ensures
        r == is_candidate(*account, crate::json::opt_str(current)),
{
    match current {
        Some(id) => !text::same_text(account.id.as_str(), id),
        None => true,
    }
}

/// Whether less than 95 percent of a window is known to be used.
fn room_left(used: Option<Percent>) -> (r: bool)
    ensures
        r == has_room(used),
{
    match used {
        Some(share) => share.units < 95 * PERCENT,
        None => true,
    }
}

/// Whether a reset credit is available.
fn any_available(credits: &Vec<AccountResetCredit>) -> (r: bool)
    ensures
        r == exists|i: int| 0 <= i < credits@.len() && is_available(#[trigger] credits@[i]),
{
    for i in 0..credits.len()
        invariant
            forall|k: int| 0 <= k < i ==> !is_available(#[trigger] credits@[k]),
    {
        let status = text::to_lowercase(credits[i].status.as_str());
        if text::same_text(status.as_str(), "available") {
            assert(is_available(credits@[i as int]));
            return true;
        }
    }
    false
}

/// Whether an account has room in both windows, or a reset that makes room.
fn can_use(usage: Option<&UsageInfo>, resets: Option<&AccountResetCredits>) -> (r: bool)
    ensures
        r == is_usable(opt_ref(usage), opt_ref(resets)),
{
    if let Some(known) = resets {
        assert(credits_of(opt_ref(resets)) == known.credits@);
        if any_available(&known.credits) {
            return true;
        }
    }
    match usage {
        Some(known) => room_left(known.primary_used_percent) && room_left(
            known.secondary_used_percent,
        ),
        None => true,
    }
}

/// Selects the account to switch to at the given time.
pub fn select_best_account_at(
    accounts: &[StoredAccount],
    current_account_id: Option<&str>,
    strategy: AutoSwitchStrategy,
    usage_map: &StringHashMap<UsageInfo>,
    resets_map: &StringHashMap<AccountResetCredits>,
    warning_days: u32,
    now: Moment,
) -> (r: Option<StoredAccount>)
    requires
        now.wf(),
        (Choice {
            accounts: accounts@,
            current: crate::json::opt_str(current_account_id),
            strategy,
            usage: usage_map@,
            resets: resets_map@,
            warning_days,
        }).wf(),
    ensures
        ({
            let choice = Choice {
                accounts: accounts@,
                current: crate::json::opt_str(current_account_id),
                strategy,
                usage: usage_map@,
                resets: resets_map@,
                warning_days,
            };
            match r {
                Some(account) => exists|i: int|
                    #[trigger] choice.chooses(i, now) && account == accounts@[i],
                None => forall|i: int| !#[trigger] choice.candidate(i),
            }
        }),
{
    let ghost choice = Choice {
        accounts: accounts@,
        current: crate::json::opt_str(current_account_id),
        strategy,
        usage: usage_map@,
        resets: resets_map@,
        warning_days,
    };
    let mut first: Option<usize> = None;
    let mut best: Option<(usize, i128)> = None;
    for i in 0..accounts.len()
        invariant
            now.wf(),
            choice == (Choice {
                accounts: accounts@,
                current: crate::json::opt_str(current_account_id),
                strategy,
                usage: usage_map@,
                resets: resets_map@,
                warning_days,
            }),
            choice.wf(),
            match first {
                Some(k) => k < i && choice.candidate(k as int) && forall|j: int|
                    0 <= j < k ==> !#[trigger] choice.candidate(j),
                None => forall|j: int| 0 <= j < i ==> !#[trigger] choice.candidate(j),
            },
            strategy == AutoSwitchStrategy::RoundRobin ==> forall|j: int|
                0 <= j < i ==> !#[trigger] choice.usable(j),
            strategy != AutoSwitchStrategy::RoundRobin ==> match best {
                Some((k, score)) => k < i && choice.candidate(k as int) && score == choice.score(
                    k as int,
                    now,
                ) && forall|j: int|
                    0 <= j < i && #[trigger] choice.candidate(j) ==> choice.score(j, now) <= score
                        && (j < k ==> choice.score(j, now) < score),
                None => first is None,
            },
    {
        let account = &accounts[i];
        assert(choice.accounts[i as int].wf());
        if can_switch_to(account, current_account_id) {
            assert(choice.candidate(i as int));
            if first.is_none() {
                first = Some(i);
            }
            let usage = usage_map.get(account.id.as_str());
            let resets = resets_map.get(account.id.as_str());
            assert(opt_ref(usage) == entry_of(choice.usage, *account));
            assert(opt_ref(resets) == entry_of(choice.resets, *account));
            if strategy == AutoSwitchStrategy::RoundRobin {
                if can_use(usage, resets) {
                    assert(choice.usable(i as int));
                    assert(choice.chooses(i as int, now));
                    return Some(account.clone());
                }
            } else {
                let score = calculate_account_score(
                    account,
                    strategy,
                    usage,
                    resets,
                    warning_days,
                    now,
                );
                best = match best {
                    Some((k, high)) => if score > high {
                        Some((i, score))
                    } else {
                        Some((k, high))
                    },
                    None => Some((i, score)),
                };
            }
        } else {
            assert(!choice.candidate(i as int));
        }
    }
    let chosen = if strategy == AutoSwitchStrategy::RoundRobin {
        first
    } else {
        match best {
            Some((k, _)) => Some(k),
            None => None,
        }
    };
    match chosen {
        Some(k) => {
            assert(choice.chooses(k as int, now));
            Some(accounts[k].clone())
        },
        None => None,
    }
}

/// Selects the account to switch to, now.
pub fn select_best_account(
    accounts: &[StoredAccount],
    current_account_id: Option<&str>,
    strategy: AutoSwitchStrategy,
    usage_map: &StringHashMap<UsageInfo>,
    resets_map: &StringHashMap<AccountResetCredits>,
    warning_days: u32,
) -> (r: Option<StoredAccount>)
    requires
        (Choice {
            accounts: accounts@,
            current: crate::json::opt_str(current_account_id),
            strategy,
            usage: usage_map@,
            resets: resets_map@,
            warning_days,
        }).wf(),
    ensures
        ({
            let choice = Choice {
                accounts: accounts@,
                current: crate::json::opt_str(current_account_id),
                strategy,
                usage: usage_map@,
                resets: resets_map@,
                warning_days,
            };
            match r {
                Some(account) => exists|i: int, now: Moment|
                    now.wf() && #[trigger] choice.chooses(i, now) && account == accounts@[i],
                None => forall|i: int| !#[trigger] choice.candidate(i),
            }
        }),
{
    let now = moment::utc_now();
    select_best_account_at(
        accounts,
        current_account_id,
        strategy,
        usage_map,
        resets_map,
        warning_days,
        now,
    )
}

} // verus!
