//! What of the reset credits of an account counts for its score.

use crate::accounts::{
    AccountResetCredit, AccountResetCredits, AutoSwitchStrategy, StoredAccount, UsageInfo,
};
use crate::moment::Moment;
use crate::scoring;
use crate::scoring_laws;
use vstd::prelude::*;

verus! {

/// The same credits in another order expire first at the same time.
proof fn lemma_soonest_of_same(
    credits: Seq<AccountResetCredit>,
    others: Seq<AccountResetCredit>,
    now: Moment,
)
    requires
        credits.to_multiset() == others.to_multiset(),
    ensures
        scoring::soonest_expiry(credits, now) == scoring::soonest_expiry(others, now),
{
    scoring_laws::soonest_expiry_is_the_least(credits, now);
    scoring_laws::soonest_expiry_is_the_least(others, now);
    assert forall|i: int| 0 <= i < credits.len() implies exists|j: int|
        0 <= j < others.len() && others[j] == #[trigger] credits[i] by {
        vstd::seq_lib::to_multiset_contains(credits, credits[i]);
        vstd::seq_lib::to_multiset_contains(others, credits[i]);
        assert(credits.contains(credits[i]));
    }
    assert forall|j: int| 0 <= j < others.len() implies exists|i: int|
        0 <= i < credits.len() && credits[i] == #[trigger] others[j] by {
        vstd::seq_lib::to_multiset_contains(credits, others[j]);
        vstd::seq_lib::to_multiset_contains(others, others[j]);
        assert(others.contains(others[j]));
    }
    if let Some(least) = scoring::soonest_expiry(credits, now) {
        let i = choose|i: int|
            0 <= i < credits.len() && #[trigger] scoring::expires_in(credits[i], now) == Some(
                least,
            );
        let j = choose|j: int| 0 <= j < others.len() && others[j] == credits[i];
        assert(scoring::expires_in(others[j], now) == Some(least));
    }
    if let Some(least) = scoring::soonest_expiry(others, now) {
        let j = choose|j: int|
            0 <= j < others.len() && #[trigger] scoring::expires_in(others[j], now) == Some(
                least,
            );
        let i = choose|i: int| 0 <= i < credits.len() && credits[i] == others[j];
        assert(scoring::expires_in(credits[i], now) == Some(least));
    }
}

proof fn lemma_banked_multiset(credits: Seq<AccountResetCredit>, now: Moment)
    ensures
        scoring::banked(credits, now).to_multiset() == credits.to_multiset().filter(
            |credit: AccountResetCredit| scoring::is_banked(credit, now),
        ),
    decreases credits.len(),
{
    broadcast use vstd::seq_lib::group_to_multiset_ensures;

    reveal(Seq::filter);
    let keep = |credit: AccountResetCredit| scoring::is_banked(credit, now);
    if credits.len() == 0 {
        assert(credits =~= Seq::empty());
        assert(credits.filter(keep) =~= credits);
        assert(credits.to_multiset().len() == 0);
        assert(credits.to_multiset().filter(keep) =~= credits.to_multiset());
    } else {
        let init = credits.drop_last();
        lemma_banked_multiset(init, now);
        assert(credits =~= init.push(credits.last()));
        assert(credits.to_multiset() =~= init.to_multiset().insert(credits.last()));
        assert(credits.filter(keep).to_multiset() =~= credits.to_multiset().filter(keep));
    }
}

/// Which credits are banked decides over what is known of an account, and nothing else of them.
pub proof fn banked_credits_alone_count(
    account: StoredAccount,
    usage: Option<UsageInfo>,
    resets: Option<AccountResetCredits>,
    others: Option<AccountResetCredits>,
    warning_days: u32,
    now: Moment,
)
    requires
        scoring::banked(scoring::credits_of(resets), now).to_multiset() == scoring::banked(
            scoring::credits_of(others),
            now,
        ).to_multiset(),
    ensures
        scoring::facts_of(account, usage, resets, warning_days, now) == scoring::facts_of(
            account,
            usage,
            others,
            warning_days,
            now,
        ),
{
    let kept = scoring::banked(scoring::credits_of(resets), now);
    let kept_others = scoring::banked(scoring::credits_of(others), now);
    lemma_soonest_of_same(kept, kept_others, now);
    vstd::seq_lib::to_multiset_len(kept);
    vstd::seq_lib::to_multiset_len(kept_others);
}

/// The order in which the credits of an account stand leaves its score alone, under every
/// strategy.
pub proof fn order_of_credits_does_not_matter(
    account: StoredAccount,
    usage: Option<UsageInfo>,
    resets: Option<AccountResetCredits>,
    others: Option<AccountResetCredits>,
    warning_days: u32,
    now: Moment,
    strategy: AutoSwitchStrategy,
)
    requires
        scoring::credits_of(resets).to_multiset() == scoring::credits_of(others).to_multiset(),
    ensures
        scoring::facts_of(account, usage, resets, warning_days, now).score(strategy)
            == scoring::facts_of(account, usage, others, warning_days, now).score(strategy),
{
    lemma_banked_multiset(scoring::credits_of(resets), now);
    lemma_banked_multiset(scoring::credits_of(others), now);
    banked_credits_alone_count(account, usage, resets, others, warning_days, now);
}

/// A credit that is not available, or has expired, leaves the score of an account alone, under
/// every strategy, wherever it stands.
pub proof fn spent_credit_does_not_count(
    account: StoredAccount,
    usage: Option<UsageInfo>,
    resets: Option<AccountResetCredits>,
    others: Option<AccountResetCredits>,
    position: int,
    spent: AccountResetCredit,
    warning_days: u32,
    now: Moment,
    strategy: AutoSwitchStrategy,
)
    requires
        0 <= position <= scoring::credits_of(resets).len(),
        scoring::credits_of(others) == scoring::credits_of(resets).insert(position, spent),
        !scoring::is_banked(spent, now),
    ensures
        scoring::facts_of(account, usage, resets, warning_days, now).score(strategy)
            == scoring::facts_of(account, usage, others, warning_days, now).score(strategy),
{
    let credits = scoring::credits_of(resets);
    let more = scoring::credits_of(others);
    let keep = |credit: AccountResetCredit| scoring::is_banked(credit, now);
    assert(credits =~= credits.take(position) + credits.skip(position));
    assert(more =~= credits.take(position) + seq![spent] + credits.skip(position));
    Seq::filter_distributes_over_add(credits.take(position), credits.skip(position), keep);
    Seq::filter_distributes_over_add(credits.take(position), seq![spent], keep);
    Seq::filter_distributes_over_add(
        credits.take(position) + seq![spent],
        credits.skip(position),
        keep,
    );
    assert(seq![spent].filter(keep) =~= Seq::empty()) by {
        reveal_with_fuel(Seq::filter, 2);
    }
    assert(more.filter(keep) =~= credits.filter(keep));
    banked_credits_alone_count(account, usage, resets, others, warning_days, now);
}

} // verus!
