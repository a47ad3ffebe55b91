//! What is known of an account, and which of several accounts is chosen.

use crate::accounts::{
    AccountResetCredit, AccountResetCredits, AutoSwitchStrategy, Percent, StoredAccount, UsageInfo,
    PERCENT,
};
use crate::json;
use crate::moment;
use crate::moment::{Moment, DAY};
use crate::scoring;
use crate::scoring::{AccountFacts, Choice, ResetSummary};
use crate::scoring_laws;
use crate::text;
use vstd::hash_map::StringHashMap;
use vstd::prelude::*;

verus! {

// ---------------------------------------------------------------------------
// What is known of an account
// ---------------------------------------------------------------------------

/// What the account has used is what was told of it, and nothing where nothing was. The weekly
/// window starts anew so many seconds after the second of now as was told. The subscription ends
/// when the account says.
pub proof fn facts_are_those_of_the_account(
    account: StoredAccount,
    usage: Option<&UsageInfo>,
    resets: Option<&AccountResetCredits>,
    warning_days: u32,
    now: Moment,
    facts: AccountFacts,
)
    requires
        call_ensures(scoring::gather_facts, (&account, usage, resets, warning_days, now), facts),
    ensures
        usage is None ==> facts.primary_used is None && facts.secondary_used is None
            && facts.weekly_reset_in is None,
        usage matches Some(known) ==> {
            &&& facts.primary_used == known.primary_used_percent
            &&& facts.secondary_used == known.secondary_used_percent
            &&& match known.secondary_resets_at {
                Some(at) => facts.weekly_reset_in == Some((at - now.secs) as i128),
                None => facts.weekly_reset_in is None,
            }
        },
        match account.subscription_expires_at {
            Some(end) => facts.subscription_ends_in == Some(
                moment::seconds_from(now, end) as i64,
            ),
            None => facts.subscription_ends_in is None,
        },
{
}

/// The dearer plans are held in reserve: pro by 6000 points, enterprise by 4000, prolite by 3000
/// and team by 2000, in whatever letters they are written. Every other plan, and none, is not.
pub proof fn plans_are_held_in_reserve(
    account: StoredAccount,
    usage: Option<&UsageInfo>,
    resets: Option<&AccountResetCredits>,
    warning_days: u32,
    now: Moment,
    facts: AccountFacts,
)
    requires
        call_ensures(scoring::gather_facts, (&account, usage, resets, warning_days, now), facts),
    ensures
        match account.plan_type {
            Some(plan) => {
                let name = text::lowercase(plan@);
                &&& name == "pro"@ ==> facts.reserve == 6_000
                &&& name == "enterprise"@ ==> facts.reserve == 4_000
                &&& name == "prolite"@ ==> facts.reserve == 3_000
                &&& name == "team"@ ==> facts.reserve == 2_000
                &&& facts.reserve > 0 ==> name == "pro"@ || name == "enterprise"@ || name
                    == "prolite"@ || name == "team"@
            },
            None => facts.reserve == 0,
        },
{
    reveal_strlit("pro");
    reveal_strlit("enterprise");
    reveal_strlit("prolite");
    reveal_strlit("team");
    assert("pro"@.len() == 3 && "enterprise"@.len() == 10 && "prolite"@.len() == 7
        && "team"@.len() == 4);
}

/// A credit counts that is available, in whatever letters, and does not name a moment that has
/// come.
pub open spec fn can_be_redeemed(credit: AccountResetCredit, now: Moment) -> bool {
    &&& text::lowercase(credit.status@) == "available"@
    &&& credit.expires_at matches Some(at) ==> (moment::rfc3339_moment(at@) matches Some(end)
        ==> moment::seconds_from(now, end) > 0)
}

/// The seconds until the moment that a credit names for its expiry.
pub open spec fn time_left(credit: AccountResetCredit, now: Moment) -> Option<int> {
    match credit.expires_at {
        Some(at) => match moment::rfc3339_moment(at@) {
            Some(end) => Some(moment::seconds_from(now, end)),
            None => None,
        },
        None => None,
    }
}

proof fn lemma_banked(credits: Seq<AccountResetCredit>, now: Moment)
    ensures
        scoring::banked(credits, now) == credits.filter(
            |credit: AccountResetCredit| can_be_redeemed(credit, now),
        ),
    decreases credits.len(),
{
    reveal(Seq::filter);
    if credits.len() > 0 {
        lemma_banked(credits.drop_last(), now);
    }
}

proof fn lemma_kept(credits: Seq<AccountResetCredit>, now: Moment, i: int) -> (k: int)
    requires
        0 <= i < credits.len(),
        can_be_redeemed(credits[i], now),
    ensures
        0 <= k < scoring::banked(credits, now).len(),
        scoring::banked(credits, now)[k] == credits[i],
    decreases credits.len(),
{
    reveal(Seq::filter);
    let before = scoring::banked(credits.drop_last(), now);
    if i < credits.len() - 1 {
        let k = lemma_kept(credits.drop_last(), now, i);
        assert(scoring::banked(credits, now)[k] == before[k]);
        k
    } else {
        before.len() as int
    }
}

proof fn lemma_keeper(credits: Seq<AccountResetCredit>, now: Moment, k: int) -> (i: int)
    requires
        0 <= k < scoring::banked(credits, now).len(),
    ensures
        0 <= i < credits.len(),
        can_be_redeemed(credits[i], now),
        scoring::banked(credits, now)[k] == credits[i],
    decreases credits.len(),
{
    reveal(Seq::filter);
    let n = credits.len() - 1;
    if credits.len() == 0 {
        0
    } else {
        let before = scoring::banked(credits.drop_last(), now);
        if k < before.len() {
            let i = lemma_keeper(credits.drop_last(), now, k);
            assert(credits[i] == credits.drop_last()[i]);
            i
        } else {
            n
        }
    }
}

/// As many resets are banked as there are credits that can be redeemed. The first of them expires
/// when none expires sooner, and a warning is due if one expires within the days of warning.
pub open spec fn is_summary_of(
    summary: ResetSummary,
    credits: Seq<AccountResetCredit>,
    warning_days: u32,
    now: Moment,
) -> bool {
    &&& summary.count == credits.filter(
        |credit: AccountResetCredit| can_be_redeemed(credit, now),
    ).len()
    &&& summary.soonest is None <==> forall|i: int|
        0 <= i < credits.len() && can_be_redeemed(#[trigger] credits[i], now) ==> time_left(
            credits[i],
            now,
        ) is None
    &&& summary.soonest matches Some(least) ==> {
        &&& exists|i: int|
            0 <= i < credits.len() && can_be_redeemed(#[trigger] credits[i], now) && time_left(
                credits[i],
                now,
            ) == Some(least as int)
        &&& forall|i: int|
            0 <= i < credits.len() && can_be_redeemed(#[trigger] credits[i], now) ==> (time_left(
                credits[i],
                now,
            ) matches Some(seconds) ==> least <= seconds)
    }
    &&& summary.urgent <==> (summary.soonest matches Some(least) && least <= warning_days * 86_400)
}

/// What is banked for an account is the sum of its credits.
pub proof fn banked_resets_are_counted(
    account: StoredAccount,
    usage: Option<&UsageInfo>,
    resets: &AccountResetCredits,
    warning_days: u32,
    now: Moment,
    facts: AccountFacts,
)
    requires
        now.wf(),
        resets.credits@.len() <= u32::MAX,
        call_ensures(
            scoring::gather_facts,
            (&account, usage, Some(resets), warning_days, now),
            facts,
        ),
    ensures
        is_summary_of(facts.resets, resets.credits@, warning_days, now),
{
    assert(scoring::credits_of(scoring::opt_ref(Some(resets))) == resets.credits@);
    scoring::lemma_soonest_fits(resets.credits@, now);
    lemma_summed(facts.resets, resets.credits@, warning_days, now);
}

/// Credits are summed up as those of an account are.
pub proof fn credits_are_summed_up(
    credits: &Vec<AccountResetCredit>,
    warning_days: u32,
    now: Moment,
    r: ResetSummary,
)
    requires
        now.wf(),
        credits@.len() <= u32::MAX,
        call_ensures(scoring::summarize_resets, (credits, warning_days, now), r),
    ensures
        is_summary_of(r, credits@, warning_days, now),
{
    lemma_summed(r, credits@, warning_days, now);
}

proof fn lemma_summed(
    summary: ResetSummary,
    credits: Seq<AccountResetCredit>,
    warning_days: u32,
    now: Moment,
)
    requires
        now.wf(),
        summary.sums_up(credits, warning_days, now),
    ensures
        is_summary_of(summary, credits, warning_days, now),
{
    let kept = scoring::banked(credits, now);
    lemma_banked(credits, now);
    scoring_laws::soonest_expiry_is_the_least(kept, now);
    scoring::lemma_soonest_fits(credits, now);
    match scoring::soonest_expiry(kept, now) {
        Some(least) => {
            let k = choose|k: int|
                0 <= k < kept.len() && #[trigger] scoring::expires_in(kept[k], now) == Some(least);
            let i = lemma_keeper(credits, now, k);
            assert(scoring::expires_in(credits[i], now) == Some(least));
            assert forall|i: int|
                0 <= i < credits.len() && can_be_redeemed(#[trigger] credits[i], now) implies (
            scoring::expires_in(credits[i], now) matches Some(seconds) ==> least <= seconds) by {
                let k = lemma_kept(credits, now, i);
                assert(scoring::expires_in(kept[k], now) == scoring::expires_in(credits[i], now));
            }
        },
        None => {
            assert forall|i: int|
                0 <= i < credits.len() && can_be_redeemed(
                    #[trigger] credits[i],
                    now,
                ) implies scoring::expires_in(credits[i], now) is None by {
                let k = lemma_kept(credits, now, i);
                assert(scoring::expires_in(kept[k], now) is None);
            }
        },
    }
}

/// Where nothing is known of the credits of an account, no reset is banked.
pub proof fn unknown_credits_are_not_banked(
    account: StoredAccount,
    usage: Option<&UsageInfo>,
    warning_days: u32,
    now: Moment,
    facts: AccountFacts,
)
    requires
        call_ensures(
            scoring::gather_facts,
            (&account, usage, None::<&AccountResetCredits>, warning_days, now),
            facts,
        ),
    ensures
        facts.resets.count == 0,
        facts.resets.soonest is None,
        !facts.resets.urgent,
{
    reveal(Seq::filter);
}

/// The score of an account is that of what is known of it.
pub proof fn account_is_scored_by_its_facts(
    account: StoredAccount,
    strategy: AutoSwitchStrategy,
    usage: Option<&UsageInfo>,
    resets: Option<&AccountResetCredits>,
    warning_days: u32,
    now: Moment,
    facts: AccountFacts,
    units: i128,
    facts_units: i128,
)
    requires
        call_ensures(
            scoring::calculate_account_score,
            (&account, strategy, usage, resets, warning_days, now),
            units,
        ),
        call_ensures(scoring::gather_facts, (&account, usage, resets, warning_days, now), facts),
        call_ensures(scoring::score_from_facts, (&facts, strategy), facts_units),
    ensures
        units == facts_units,
{
}

// ---------------------------------------------------------------------------
// The choice
// ---------------------------------------------------------------------------

/// The function that selects gives this account.
pub open spec fn selected(
    accounts: &[StoredAccount],
    current: Option<&str>,
    strategy: AutoSwitchStrategy,
    usage: &StringHashMap<UsageInfo>,
    resets: &StringHashMap<AccountResetCredits>,
    warning_days: u32,
    now: Moment,
    r: Option<StoredAccount>,
) -> bool {
    call_ensures(
        scoring::select_best_account_at,
        (accounts, current, strategy, usage, resets, warning_days, now),
        r,
    )
}

/// The account at the position is not the one in use.
pub open spec fn is_another(
    accounts: &[StoredAccount],
    current: Option<&str>,
    i: int,
) -> bool {
    0 <= i < accounts@.len() && (current matches Some(id) ==> accounts@[i].id@ != id@)
}

/// What the choice is made from.
spec fn choice(
    accounts: &[StoredAccount],
    current: Option<&str>,
    strategy: AutoSwitchStrategy,
    usage: &StringHashMap<UsageInfo>,
    resets: &StringHashMap<AccountResetCredits>,
    warning_days: u32,
) -> Choice {
    Choice {
        accounts: accounts@,
        current: json::opt_str(current),
        strategy,
        usage: usage@,
        resets: resets@,
        warning_days,
    }
}

/// An account is chosen whenever there is one that is not in use, and the one that is chosen is
/// such an account.
pub proof fn another_account_is_chosen(
    accounts: &[StoredAccount],
    current: Option<&str>,
    strategy: AutoSwitchStrategy,
    usage: &StringHashMap<UsageInfo>,
    resets: &StringHashMap<AccountResetCredits>,
    warning_days: u32,
    now: Moment,
    r: Option<StoredAccount>,
)
    requires
        selected(accounts, current, strategy, usage, resets, warning_days, now, r),
    ensures
        r is Some <==> exists|i: int| #[trigger] is_another(accounts, current, i),
        r matches Some(account) ==> exists|i: int|
            #[trigger] is_another(accounts, current, i) && account == accounts@[i],
{
    let all = choice(accounts, current, strategy, usage, resets, warning_days);
    assert forall|i: int| is_another(accounts, current, i) == #[trigger] all.candidate(i) by {}
    if let Some(account) = r {
        let i = choose|i: int| #[trigger] all.chooses(i, now) && account == accounts@[i];
        assert(all.candidate(i));
        assert(is_another(accounts, current, i));
    } else {
        assert forall|i: int| !#[trigger] is_another(accounts, current, i) by {
            assert(!all.candidate(i));
        }
    }
}

/// What is known of an account, by its id.
pub open spec fn is_entry<T>(map: Map<Seq<char>, T>, id: Seq<char>, entry: Option<&T>) -> bool {
    match entry {
        Some(known) => map.contains_key(id) && map[id] == *known,
        None => !map.contains_key(id),
    }
}

/// But in turn, no account that is not in use has a higher score than the one that is chosen; and
/// of those of the highest score it is the first in the list.
pub proof fn account_of_the_highest_score_is_chosen(
    accounts: &[StoredAccount],
    current: Option<&str>,
    strategy: AutoSwitchStrategy,
    usage: &StringHashMap<UsageInfo>,
    resets: &StringHashMap<AccountResetCredits>,
    warning_days: u32,
    now: Moment,
    chosen: StoredAccount,
    chosen_usage: Option<&UsageInfo>,
    chosen_resets: Option<&AccountResetCredits>,
    units: i128,
    j: int,
    other_usage: Option<&UsageInfo>,
    other_resets: Option<&AccountResetCredits>,
    other_units: i128,
)
    requires
        strategy != AutoSwitchStrategy::RoundRobin,
        selected(accounts, current, strategy, usage, resets, warning_days, now, Some(chosen)),
        is_entry(usage@, chosen.id@, chosen_usage),
        is_entry(resets@, chosen.id@, chosen_resets),
        call_ensures(
            scoring::calculate_account_score,
            (&chosen, strategy, chosen_usage, chosen_resets, warning_days, now),
            units,
        ),
        is_another(accounts, current, j),
        is_entry(usage@, accounts@[j].id@, other_usage),
        is_entry(resets@, accounts@[j].id@, other_resets),
        call_ensures(
            scoring::calculate_account_score,
            (&accounts@[j], strategy, other_usage, other_resets, warning_days, now),
            other_units,
        ),
    ensures
        other_units <= units,
        other_units == units ==> exists|i: int|
            0 <= i <= j && #[trigger] accounts@[i] == chosen,
{
    let all = choice(accounts, current, strategy, usage, resets, warning_days);
    let i = choose|i: int| #[trigger] all.chooses(i, now) && chosen == accounts@[i];
    assert(all.candidate(i));
    assert(all.candidate(j));
    assert(scoring::opt_ref(chosen_usage) == scoring::entry_of(usage@, chosen));
    assert(scoring::opt_ref(chosen_resets) == scoring::entry_of(resets@, chosen));
    assert(scoring::opt_ref(other_usage) == scoring::entry_of(usage@, accounts@[j]));
    assert(scoring::opt_ref(other_resets) == scoring::entry_of(resets@, accounts@[j]));
    assert(all.score(i, now) == units);
    assert(all.score(j, now) == other_units);
    assert(accounts@[i] == chosen);
}

/// An account can be used at once if it has a credit that is available, in whatever letters, or
/// less than 95 percent of each of its windows is known to be used.
pub open spec fn can_be_used_at_once(
    account: StoredAccount,
    usage: Map<Seq<char>, UsageInfo>,
    resets: Map<Seq<char>, AccountResetCredits>,
) -> bool {
    ||| resets.contains_key(account.id@) && exists|k: int|
        0 <= k < resets[account.id@].credits@.len() && text::lowercase(
            (#[trigger] resets[account.id@].credits@[k]).status@,
        ) == "available"@
    ||| usage.contains_key(account.id@) ==> {
        &&& usage[account.id@].primary_used_percent matches Some(used) ==> used.units < 95
            * PERCENT
        &&& usage[account.id@].secondary_used_percent matches Some(used) ==> used.units < 95
            * PERCENT
    }
}

proof fn lemma_usable(all: Choice, i: int)
    ensures
        all.usable(i) == (all.candidate(i) && can_be_used_at_once(
            all.accounts[i],
            all.usage,
            all.resets,
        )),
{
    let account = all.accounts[i];
    if all.resets.contains_key(account.id@) {
        let credits = all.resets[account.id@].credits@;
        assert(scoring::credits_of(scoring::entry_of(all.resets, account)) == credits);
        if exists|k: int|
            0 <= k < credits.len() && text::lowercase((#[trigger] credits[k]).status@)
                == "available"@ {
            let k = choose|k: int|
                0 <= k < credits.len() && text::lowercase((#[trigger] credits[k]).status@)
                    == "available"@;
            assert(scoring::is_available(credits[k]));
        }
    }
}

/// In turn, the first account in the list is chosen that is not in use and can be used at once;
/// where there is none, the first that is not in use.
pub proof fn first_usable_account_is_chosen_in_turn(
    accounts: &[StoredAccount],
    current: Option<&str>,
    usage: &StringHashMap<UsageInfo>,
    resets: &StringHashMap<AccountResetCredits>,
    warning_days: u32,
    now: Moment,
    chosen: StoredAccount,
    j: int,
)
    requires
        selected(
            accounts,
            current,
            AutoSwitchStrategy::RoundRobin,
            usage,
            resets,
            warning_days,
            now,
            Some(chosen),
        ),
        is_another(accounts, current, j),
    ensures
        can_be_used_at_once(accounts@[j], usage@, resets@) ==> can_be_used_at_once(
            chosen,
            usage@,
            resets@,
        ) && exists|i: int| 0 <= i <= j && #[trigger] accounts@[i] == chosen,
        !can_be_used_at_once(chosen, usage@, resets@) ==> exists|i: int|
            0 <= i <= j && #[trigger] accounts@[i] == chosen,
{
    let all = choice(
        accounts,
        current,
        AutoSwitchStrategy::RoundRobin,
        usage,
        resets,
        warning_days,
    );
    let i = choose|i: int| #[trigger] all.chooses(i, now) && chosen == accounts@[i];
    assert(all.candidate(i));
    assert(all.candidate(j));
    lemma_usable(all, i);
    lemma_usable(all, j);
    assert(accounts@[i] == chosen);
    if can_be_used_at_once(accounts@[j], usage@, resets@) {
        assert(all.usable(j));
    }
}

// ---------------------------------------------------------------------------
// Now
// ---------------------------------------------------------------------------

/// Whatever the time is, an account is chosen whenever there is one that is not in use, and the one
/// that is chosen is such an account.
pub proof fn another_account_is_chosen_now(
    accounts: &[StoredAccount],
    current: Option<&str>,
    strategy: AutoSwitchStrategy,
    usage: &StringHashMap<UsageInfo>,
    resets: &StringHashMap<AccountResetCredits>,
    warning_days: u32,
    r: Option<StoredAccount>,
)
    requires
        call_ensures(
            scoring::select_best_account,
            (accounts, current, strategy, usage, resets, warning_days),
            r,
        ),
    ensures
        r is Some <==> exists|i: int| #[trigger] is_another(accounts, current, i),
        r matches Some(account) ==> exists|i: int|
            #[trigger] is_another(accounts, current, i) && account == accounts@[i],
{
    let all = choice(accounts, current, strategy, usage, resets, warning_days);
    assert forall|i: int| is_another(accounts, current, i) == #[trigger] all.candidate(i) by {}
    if let Some(account) = r {
        let (i, now) = choose|i: int, now: Moment|
            now.wf() && #[trigger] all.chooses(i, now) && account == accounts@[i];
        assert(all.candidate(i));
        assert(is_another(accounts, current, i));
    } else {
        assert forall|i: int| !#[trigger] is_another(accounts, current, i) by {
            assert(!all.candidate(i));
        }
    }
}

/// Of a window that is used by a share, the rest is left, but no more than all of it and no less
/// than nothing. All of it is left where nothing is known. It is used up where nothing is left.
pub proof fn rest_of_the_window_is_left(used: Option<Percent>, left: i128, used_up: bool)
    requires
        call_ensures(scoring::quota_left, (used,), left),
        call_ensures(scoring::is_used_up, (used,), used_up),
    ensures
        used is None ==> left == 100 * PERCENT,
        used matches Some(share) ==> {
            &&& 0 <= share.units <= 100 * PERCENT ==> left + share.units == 100 * PERCENT
            &&& share.units < 0 ==> left == 100 * PERCENT
            &&& share.units > 100 * PERCENT ==> left == 0
        },
        used_up <==> left == 0,
{
}

/// A credit counts that is available and does not expire, or not yet. The plans are held in reserve
/// by what is said of an account of theirs.
pub proof fn credits_and_plans_count(
    status: &str,
    expires_in: Option<i64>,
    counts: bool,
    plan: Option<&str>,
    reserve: u32,
)
    requires
        call_ensures(scoring::credit_counts, (status, expires_in), counts),
        call_ensures(scoring::plan_reserve, (plan,), reserve),
    ensures
        counts <==> status@ == "available"@ && (expires_in is None || expires_in->0 > 0),
        plan matches Some(name) ==> {
            &&& name@ == "pro"@ ==> reserve == 6_000
            &&& name@ == "enterprise"@ ==> reserve == 4_000
            &&& name@ == "prolite"@ ==> reserve == 3_000
            &&& name@ == "team"@ ==> reserve == 2_000
            &&& reserve > 0 ==> name@ == "pro"@ || name@ == "enterprise"@ || name@ == "prolite"@
                || name@ == "team"@
        },
        plan is None ==> reserve == 0,
{
    reveal_strlit("pro");
    reveal_strlit("enterprise");
    reveal_strlit("prolite");
    reveal_strlit("team");
    assert("pro"@.len() == 3 && "enterprise"@.len() == 10 && "prolite"@.len() == 7
        && "team"@.len() == 4);
}

/// One moment lies before another by its second, and in one second by its nanosecond. A moment is
/// valid if it lies between the years that a date can name, in a second of a thousand million
/// nanoseconds; the last second of a minute may have twice as many.
pub proof fn moments_are_told_apart(a: &Moment, b: &Moment, before: bool, valid: bool)
    requires
        call_ensures(Moment::precedes, (a, b), before),
        call_ensures(Moment::is_valid, (a,), valid),
    ensures
        before <==> a.secs < b.secs || a.secs == b.secs && a.nanos < b.nanos,
        valid <==> -8_334_601_228_800 <= a.secs <= 8_210_266_876_799 && (a.nanos < 1_000_000_000
            || a.nanos < 2_000_000_000 && a.secs as int % 60 == 59),
{
}

/// A day has 86400 seconds, a percent has two to the sixtieth units, and a point of the score is a
/// percent for a day.
pub proof fn units_are_fixed()
    ensures
        DAY == 86_400,
        PERCENT == 0x1000_0000_0000_0000,
        scoring::POINT == 86_400 * PERCENT,
{
}

} // verus!
