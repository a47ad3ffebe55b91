//! What holds of every score and of every choice of an account.

use crate::accounts::{AccountResetCredit, AutoSwitchStrategy};
use crate::moment::{Moment, DAY};
use crate::scoring;
use crate::scoring::{AccountFacts, Choice, POINT};
use vstd::prelude::*;

verus! {

/// Under the balanced strategy an account with a banked reset goes before every account without
/// one, unless its plan is held in reserve by 4000 points more.
pub proof fn banked_reset_goes_first(with: AccountFacts, without: AccountFacts)
    requires
        with.wf(),
        without.wf(),
        with.resets.count > 0,
        without.resets.count == 0,
        with.reserve < without.reserve + 4_000,
    ensures
        with.score(AutoSwitchStrategy::SmartBalanced) > without.score(
            AutoSwitchStrategy::SmartBalanced,
        ),
{
    assert(with.reset_bonus() >= 20_000 * POINT);
    assert(with.quota_score() >= 100 * POINT);
    assert(with.weekly_score() >= 0);
    assert(with.subscription_bonus() >= 0);
    assert(without.reset_bonus() == 0);
    assert(without.quota_score() <= 100 * POINT);
    assert(without.weekly_score() <= 6_000 * POINT);
    assert(without.subscription_bonus() <= 10_000 * POINT);
}

/// An exhausted account without a banked reset comes after every account that is not exhausted,
/// whatever else is known of the two. Only where the end of the subscription comes before all
/// else can it be otherwise.
pub proof fn exhausted_account_comes_last(
    exhausted: AccountFacts,
    other: AccountFacts,
    strategy: AutoSwitchStrategy,
)
    requires
        exhausted.wf(),
        other.wf(),
        exhausted.exhausted(),
        !other.exhausted(),
        strategy != AutoSwitchStrategy::ExpiringSubscriptionFirst,
    ensures
        exhausted.score(strategy) < other.score(strategy),
{
    assert(exhausted.quota_score() == -50_000 * POINT);
    assert(exhausted.effective_quota() == 0);
    assert(exhausted.weekly_score() <= 6_000 * POINT);
    assert(exhausted.reset_bonus() == 0);
    assert(exhausted.subscription_bonus() <= 10_000 * POINT);
    assert(other.effective_quota() >= 0);
    assert(other.quota_score() >= 0);
    assert(other.weekly_score() >= -15_000 * POINT);
    assert(other.reset_bonus() >= 0);
    assert(other.expiry_score(150) >= 0);
    assert(other.subscription_bonus() >= 0);
}

/// The reserve of a plan is taken off in full: of two accounts that differ in nothing else, the
/// dearer one comes later by the points of its reserve.
pub proof fn dearer_plan_is_kept_in_reserve(
    facts: AccountFacts,
    dearer: AccountFacts,
    strategy: AutoSwitchStrategy,
)
    requires
        dearer == (AccountFacts { reserve: dearer.reserve, ..facts }),
        strategy != AutoSwitchStrategy::RoundRobin,
    ensures
        facts.score(strategy) - dearer.score(strategy) == (dearer.reserve - facts.reserve) * POINT,
{
    assert(facts.quota_score() == dearer.quota_score());
    assert(facts.effective_quota() == dearer.effective_quota());
    assert(facts.weekly_score() == dearer.weekly_score());
    assert(facts.reset_bonus() == dearer.reset_bonus());
    assert(facts.expiry_score(150) == dearer.expiry_score(150));
    assert(facts.subscription_bonus() == dearer.subscription_bonus());
}

/// Of two accounts that differ only in when their first banked reset expires, the one whose
/// reset expires sooner does not come later; within sixty days it comes first.
pub proof fn sooner_expiry_goes_first(
    sooner: AccountFacts,
    later: AccountFacts,
    strategy: AutoSwitchStrategy,
)
    requires
        sooner.wf(),
        later.wf(),
        sooner.resets.count > 0,
        later == (AccountFacts { resets: later.resets, ..sooner }),
        later.resets.count == sooner.resets.count,
        sooner.resets.soonest is Some,
        later.resets.soonest is Some,
        sooner.resets.soonest->0 < later.resets.soonest->0,
        later.resets.urgent ==> sooner.resets.urgent,
        strategy == AutoSwitchStrategy::SmartBalanced || strategy
            == AutoSwitchStrategy::ResetsFirst,
    ensures
        sooner.score(strategy) >= later.score(strategy),
        sooner.resets.soonest->0 < 60 * DAY ==> sooner.score(strategy) > later.score(strategy),
{
    assert(sooner.quota_score() == later.quota_score());
    assert(sooner.weekly_score() == later.weekly_score());
}

/// A further banked reset raises the score, under every strategy.
pub proof fn further_reset_raises_the_score(
    fewer: AccountFacts,
    more: AccountFacts,
    strategy: AutoSwitchStrategy,
)
    requires
        fewer.wf(),
        more.wf(),
        more == (AccountFacts { resets: more.resets, ..fewer }),
        fewer.resets.count < more.resets.count,
        fewer.resets.count > 0 ==> fewer.resets.soonest == more.resets.soonest
            && fewer.resets.urgent == more.resets.urgent,
    ensures
        fewer.score(strategy) < more.score(strategy),
{
    let (few, many) = (fewer.resets.count as int, more.resets.count as int);
    assert(many * 100 * POINT >= few * 100 * POINT + 100 * POINT) by (nonlinear_arith)
        requires
            few + 1 <= many,
            POINT > 0,
    ;
    assert(more.effective_quota() >= fewer.effective_quota() + 100 * POINT);
    assert(fewer.effective_quota() >= 0);
    assert(more.quota_score() > fewer.quota_score());
    assert(more.weekly_score() >= fewer.weekly_score());
    assert(more.expiry_score(100) >= 0);
    assert(more.expiry_score(150) >= 0);
    if fewer.resets.count > 0 {
        assert(more.reset_bonus() >= fewer.reset_bonus());
    } else {
        assert(more.reset_bonus() >= 0);
    }
}

/// A weekly quota that is lost within a day and worth spending raises the score by at least 3450
/// points over that of the same account with its reset at any other time.
pub proof fn expiring_quota_is_burned_first(
    burning: AccountFacts,
    other: AccountFacts,
    strategy: AutoSwitchStrategy,
)
    requires
        other == (AccountFacts { weekly_reset_in: other.weekly_reset_in, ..burning }),
        burning.burns_before_reset(),
        !other.burns_before_reset(),
        strategy != AutoSwitchStrategy::MostRemainingQuota,
    ensures
        burning.score(strategy) >= other.score(strategy) + 3_450 * POINT,
{
}

/// An account whose little weekly quota has to last for more than two days comes 15000 points
/// after what it would have with its reset at any other time.
pub proof fn starving_account_is_spared(
    starving: AccountFacts,
    other: AccountFacts,
    strategy: AutoSwitchStrategy,
)
    requires
        other == (AccountFacts { weekly_reset_in: other.weekly_reset_in, ..starving }),
        starving.starving(),
        !other.starving(),
        strategy != AutoSwitchStrategy::MostRemainingQuota,
    ensures
        starving.score(strategy) == other.score(strategy) - 15_000 * POINT,
{
}

/// Where the most quota counts and neither account is exhausted, of two accounts of one reserve
/// the one with more effective quota goes first.
pub proof fn more_quota_goes_first(more: AccountFacts, less: AccountFacts)
    requires
        more.reserve == less.reserve,
        !more.exhausted(),
        more.effective_quota() > less.effective_quota(),
    ensures
        more.score(AutoSwitchStrategy::MostRemainingQuota) > less.score(
            AutoSwitchStrategy::MostRemainingQuota,
        ),
{
}

/// The soonest expiry is that of one of the credits, and none expires sooner.
pub proof fn soonest_expiry_is_the_least(credits: Seq<AccountResetCredit>, now: Moment)
    ensures
        match scoring::soonest_expiry(credits, now) {
            Some(least) => {
                &&& exists|i: int|
                    0 <= i < credits.len() && #[trigger] scoring::expires_in(credits[i], now)
                        == Some(least)
                &&& forall|i: int|
                    0 <= i < credits.len() ==> ((#[trigger] scoring::expires_in(
                        credits[i],
                        now,
                    )) matches Some(seconds) ==> least <= seconds)
            },
            None => forall|i: int|
                0 <= i < credits.len() ==> #[trigger] scoring::expires_in(credits[i], now) is None,
        },
    decreases credits.len(),
{
    if credits.len() > 0 {
        let init = credits.drop_last();
        soonest_expiry_is_the_least(init, now);
        assert forall|i: int| 0 <= i < init.len() implies scoring::expires_in(credits[i], now)
            == #[trigger] scoring::expires_in(init[i], now) by {}
        assert(scoring::expires_in(credits.last(), now) == scoring::expires_in(
            credits[credits.len() - 1],
            now,
        ));
        if let Some(least) = scoring::soonest_expiry(credits, now) {
            if scoring::soonest_expiry(init, now) == Some(least) {
                let i = choose|i: int|
                    0 <= i < init.len() && #[trigger] scoring::expires_in(init[i], now) == Some(
                        least,
                    );
                assert(scoring::expires_in(credits[i], now) == Some(least));
            }
        }
        assert forall|i: int| 0 <= i < credits.len() implies match scoring::soonest_expiry(
            credits,
            now,
        ) {
            Some(least) => ((#[trigger] scoring::expires_in(credits[i], now)) matches Some(seconds)
                ==> least <= seconds),
            None => scoring::expires_in(credits[i], now) is None,
        } by {
            if i < init.len() {
                assert(scoring::expires_in(init[i], now) == scoring::expires_in(credits[i], now));
            }
        }
    }
}

/// At a given time at most one account is chosen, and it is not the one in use.
pub proof fn choice_is_unique(choice: Choice, i: int, j: int, now: Moment)
    requires
        choice.chooses(i, now),
        choice.chooses(j, now),
    ensures
        i == j,
        0 <= i < choice.accounts.len(),
        choice.current matches Some(id) ==> choice.accounts[i].id@ != id,
{
    assert(choice.candidate(i) && choice.candidate(j));
    if choice.strategy == AutoSwitchStrategy::RoundRobin {
        if exists|k: int| choice.usable(k) {
            assert(choice.usable(i) && choice.usable(j));
        }
    }
}

/// The balanced choice is never an exhausted account where one is at hand that is not.
pub proof fn exhausted_account_is_not_chosen(choice: Choice, chosen: int, other: int, now: Moment)
    requires
        now.wf(),
        choice.wf(),
        choice.strategy == AutoSwitchStrategy::SmartBalanced,
        choice.chooses(chosen, now),
        choice.candidate(other),
        !choice.facts(other, now).exhausted(),
    ensures
        !choice.facts(chosen, now).exhausted(),
{
    let a = choice.facts(chosen, now);
    let b = choice.facts(other, now);
    lemma_facts_wf(choice, chosen, now);
    lemma_facts_wf(choice, other, now);
    if a.exhausted() {
        exhausted_account_comes_last(a, b, choice.strategy);
        assert(choice.score(other, now) <= choice.score(chosen, now));
    }
}

proof fn lemma_facts_wf(choice: Choice, i: int, now: Moment)
    requires
        now.wf(),
        choice.wf(),
        choice.candidate(i),
    ensures
        choice.facts(i, now).wf(),
{
    let account = choice.accounts[i];
    assert(account.wf());
    scoring::lemma_facts_are_sound(
        account,
        scoring::entry_of(choice.usage, account),
        scoring::entry_of(choice.resets, account),
        choice.warning_days,
        now,
    );
}

} // verus!
