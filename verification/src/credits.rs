//! Which reset credit is redeemed.

use crate::accounts::AccountResetCredit;
use crate::moment;
use crate::moment::Moment;
use crate::scoring;
use crate::text;
use vstd::prelude::*;

verus! {

/// The moment at which a credit expires, where its text names one.
pub open spec fn expiry_of(credit: AccountResetCredit) -> Option<Moment> {
    match credit.expires_at {
        Some(text) => moment::rfc3339_moment(text@),
        None => None,
    }
}

/// The text of a credit names the moment at which it expires.
pub open spec fn is_dated(credit: AccountResetCredit) -> bool {
    expiry_of(credit) is Some
}

/// One credit expires before another: by the moments that their texts name, and by the texts
/// themselves where one of them names none, or both name the same. One without a text expires
/// last.
pub open spec fn expires_before(a: AccountResetCredit, b: AccountResetCredit) -> bool {
    match (a.expires_at, b.expires_at) {
        (Some(x), Some(y)) => match (expiry_of(a), expiry_of(b)) {
            (Some(m), Some(n)) => m.is_before(n) || (m == n && text::comes_before(x@, y@)),
            _ => text::comes_before(x@, y@),
        },
        (Some(_), None) => true,
        (None, _) => false,
    }
}

/// Among the available credits that name a moment, or among those that name none, the one at the
/// position is the first to expire, and the first in the list of those that expire together.
pub open spec fn is_first_of_its_kind(credits: Seq<AccountResetCredit>, i: int) -> bool {
    &&& 0 <= i < credits.len()
    &&& scoring::is_available(credits[i])
    &&& forall|j: int|
        0 <= j < credits.len() && scoring::is_available(#[trigger] credits[j]) && is_dated(
            credits[j],
        ) == is_dated(credits[i]) ==> !expires_before(credits[j], credits[i]) && (j < i
            ==> expires_before(credits[i], credits[j]))
}

/// The credit at the position is the one to redeem: of the first that names a moment and the first
/// that names none, the one that expires before the other.
///
/// Moments and texts are compared one after the other because together they order nothing: of two
/// moments the later one can have the text that comes first, and a third text can stand between
/// those of the two.
pub open spec fn is_next_to_redeem(credits: Seq<AccountResetCredit>, i: int) -> bool {
    &&& is_first_of_its_kind(credits, i)
    &&& forall|j: int|
        #[trigger] is_first_of_its_kind(credits, j) && is_dated(credits[j]) != is_dated(credits[i])
            ==> expires_before(credits[i], credits[j])
}

/// Of three credits of one kind, one that expires before the second, which the third does not,
/// expires before the third.
proof fn lemma_expires_before(
    a: AccountResetCredit,
    b: AccountResetCredit,
    c: AccountResetCredit,
)
    requires
        is_dated(a) == is_dated(b),
        is_dated(b) == is_dated(c),
        expires_before(a, b),
        !expires_before(c, b),
    ensures
        expires_before(a, c),
        !expires_before(c, a),
{
    if a.expires_at is Some && c.expires_at is Some {
        let x = a.expires_at->0@;
        let z = c.expires_at->0@;
        text::order_is_strict(x, z);
        if b.expires_at is Some {
            let y = b.expires_at->0@;
            text::order_is_strict(x, y);
            if y != z {
                text::order_is_total(y, z);
                if text::comes_before(x, y) && text::comes_before(y, z) {
                    text::order_is_transitive(x, y, z);
                }
            }
        }
    }
}

proof fn lemma_not_before_itself(a: AccountResetCredit)
    ensures
        !expires_before(a, a),
{
    if a.expires_at is Some {
        text::order_is_strict(a.expires_at->0@, a.expires_at->0@);
    }
}

/// Of two credits of which one names a moment and the other none, one expires before the other.
proof fn lemma_kinds_differ(a: AccountResetCredit, b: AccountResetCredit)
    requires
        is_dated(a) != is_dated(b),
    ensures
        expires_before(a, b) != expires_before(b, a),
{
    if a.expires_at is Some && b.expires_at is Some {
        let x = a.expires_at->0@;
        let y = b.expires_at->0@;
        text::order_is_total(x, y);
        text::order_is_strict(x, y);
    }
}

/// The moment at which a credit expires, where its text names one.
fn find_expiry(credit: &AccountResetCredit) -> (r: Option<Moment>)
    ensures
        r == expiry_of(*credit),
{
    match &credit.expires_at {
        Some(text) => moment::parse_rfc3339(text.as_str()),
        None => None,
    }
}

/// Whether one credit expires before another.
fn is_earlier(a: &AccountResetCredit, b: &AccountResetCredit) -> (r: bool)
    ensures
        r == expires_before(*a, *b),
{
    match (&a.expires_at, &b.expires_at) {
        (Some(x), Some(y)) => {
            if let (Some(m), Some(n)) = (find_expiry(a), find_expiry(b)) {
                if m.precedes(&n) {
                    return true;
                }
                if n.precedes(&m) {
                    return false;
                }
            }
            text::precedes(x.as_str(), y.as_str())
        },
        (Some(_), None) => true,
        (None, _) => false,
    }
}

/// Among the first `n` credits, those of one kind have been looked through.
spec fn best_of_kind(
    credits: Seq<AccountResetCredit>,
    dated: bool,
    n: int,
    best: Option<usize>,
) -> bool {
    match best {
        Some(k) => {
            &&& k < n
            &&& scoring::is_available(credits[k as int])
            &&& is_dated(credits[k as int]) == dated
            &&& forall|j: int|
                0 <= j < n && scoring::is_available(#[trigger] credits[j]) && is_dated(credits[j])
                    == dated ==> !expires_before(credits[j], credits[k as int]) && (j < k
                    ==> expires_before(credits[k as int], credits[j]))
        },
        None => forall|j: int|
            0 <= j < n && scoring::is_available(#[trigger] credits[j]) ==> is_dated(credits[j])
                != dated,
    }
}

/// The position of the first to expire of the available credits that name a moment, or of those
/// that name none.
fn first_of_kind(credits: &Vec<AccountResetCredit>, dated: bool) -> (r: Option<usize>)
    ensures
        best_of_kind(credits@, dated, credits@.len() as int, r),
{
    let mut best: Option<usize> = None;
    for i in 0..credits.len()
        invariant
            best_of_kind(credits@, dated, i as int, best),
    {
        let status = text::to_lowercase(credits[i].status.as_str());
        let ghost this = credits@[i as int];
        assert(scoring::is_available(this) == (status@ == "available"@));
        if text::same_text(status.as_str(), "available") && find_expiry(&credits[i]).is_some()
            == dated {
            proof {
                lemma_not_before_itself(this);
            }
            match best {
                Some(k) => {
                    if is_earlier(&credits[i], &credits[k]) {
                        assert forall|j: int|
                            0 <= j <= i && scoring::is_available(#[trigger] credits@[j])
                                && is_dated(credits@[j]) == dated implies !expires_before(
                            credits@[j],
                            this,
                        ) && (j < i ==> expires_before(this, credits@[j])) by {
                            if j < i {
                                lemma_expires_before(this, credits@[k as int], credits@[j]);
                            }
                        }
                        best = Some(i);
                    }
                },
                None => {
                    best = Some(i);
                },
            }
        }
    }
    best
}

/// The position of the credit to redeem, where one is available.
pub fn next_to_redeem(credits: &Vec<AccountResetCredit>) -> (r: Option<usize>)
    ensures
        match r {
            Some(i) => is_next_to_redeem(credits@, i as int),
            None => forall|j: int|
                0 <= j < credits@.len() ==> !scoring::is_available(#[trigger] credits@[j]),
        },
{
    let dated = first_of_kind(credits, true);
    let other = first_of_kind(credits, false);
    proof {
        if let Some(k) = dated {
            assert forall|j: int|
                #[trigger] is_first_of_its_kind(credits@, j) && is_dated(credits@[j]) implies j
                == k by {
                lemma_first_is_unique(credits@, j, k as int);
            }
        }
        if let Some(k) = other {
            assert forall|j: int|
                #[trigger] is_first_of_its_kind(credits@, j) && !is_dated(credits@[j]) implies j
                == k by {
                lemma_first_is_unique(credits@, j, k as int);
            }
        }
    }
    match (dated, other) {
        (Some(i), Some(j)) => {
            proof {
                lemma_kinds_differ(credits@[i as int], credits@[j as int]);
            }
            if is_earlier(&credits[j], &credits[i]) {
                Some(j)
            } else {
                Some(i)
            }
        },
        (Some(i), None) => Some(i),
        (None, other) => other,
    }
}

proof fn lemma_first_is_unique(credits: Seq<AccountResetCredit>, i: int, j: int)
    requires
        is_first_of_its_kind(credits, i),
        is_first_of_its_kind(credits, j),
        is_dated(credits[i]) == is_dated(credits[j]),
    ensures
        i == j,
{
    if i < j {
        assert(expires_before(credits[j], credits[i]));
    }
    if j < i {
        assert(expires_before(credits[i], credits[j]));
    }
}

/// At most one credit is the one to redeem.
pub proof fn credit_to_redeem_is_unique(credits: Seq<AccountResetCredit>, i: int, j: int)
    requires
        is_next_to_redeem(credits, i),
        is_next_to_redeem(credits, j),
    ensures
        i == j,
{
    if is_dated(credits[i]) == is_dated(credits[j]) {
        lemma_first_is_unique(credits, i, j);
    } else {
        lemma_kinds_differ(credits[i], credits[j]);
    }
}

/// Of the available credits that name a moment none expires at an earlier one than the credit to
/// redeem, where that names one, in whatever offset from UTC the moments are written.
pub proof fn earliest_credit_is_redeemed(credits: Seq<AccountResetCredit>, i: int, j: int)
    requires
        is_next_to_redeem(credits, i),
        is_dated(credits[i]),
        0 <= j < credits.len(),
        scoring::is_available(credits[j]),
        is_dated(credits[j]),
    ensures
        !expiry_of(credits[j])->0.is_before(expiry_of(credits[i])->0),
{
}

/// Of the available credits of a kind one is the first to expire.
proof fn lemma_first_exists(
    credits: Seq<AccountResetCredit>,
    dated: bool,
    n: int,
    known: int,
) -> (k: int)
    requires
        0 <= known < n <= credits.len(),
        scoring::is_available(credits[known]),
        is_dated(credits[known]) == dated,
    ensures
        0 <= k < n,
        scoring::is_available(credits[k]),
        is_dated(credits[k]) == dated,
        forall|j: int|
            0 <= j < n && scoring::is_available(#[trigger] credits[j]) && is_dated(credits[j])
                == dated ==> !expires_before(credits[j], credits[k]) && (j < k ==> expires_before(
                credits[k],
                credits[j],
            )),
    decreases n,
{
    let last = n - 1;
    let this = credits[last];
    lemma_not_before_itself(this);
    if !(scoring::is_available(this) && is_dated(this) == dated) {
        lemma_first_exists(credits, dated, last, known)
    } else if exists|j: int|
        0 <= j < last && scoring::is_available(#[trigger] credits[j]) && is_dated(credits[j])
            == dated {
        let j = choose|j: int|
            0 <= j < last && scoring::is_available(#[trigger] credits[j]) && is_dated(credits[j])
                == dated;
        let k = lemma_first_exists(credits, dated, last, j);
        if expires_before(this, credits[k]) {
            assert forall|j: int|
                0 <= j < n && scoring::is_available(#[trigger] credits[j]) && is_dated(credits[j])
                    == dated implies !expires_before(credits[j], this) && (j < last
                ==> expires_before(this, credits[j])) by {
                if j < last {
                    lemma_expires_before(this, credits[k], credits[j]);
                }
            }
            last
        } else {
            k
        }
    } else {
        last
    }
}

/// The credit is available, in whatever letters that is written.
pub open spec fn can_be_taken(credit: AccountResetCredit) -> bool {
    text::lowercase(credit.status@) == "available"@
}

/// The text of the credit comes before that of an available one at the position, which names a
/// moment, and none later than the other credit names.
pub open spec fn comes_before_a_sooner_one(
    credits: Seq<AccountResetCredit>,
    chosen: AccountResetCredit,
    other: AccountResetCredit,
    d: int,
) -> bool {
    &&& 0 <= d < credits.len()
    &&& can_be_taken(credits[d])
    &&& chosen.expires_at matches Some(chosen_text) && credits[d].expires_at matches Some(text)
        && other.expires_at matches Some(other_text) && text::comes_before(chosen_text@, text@)
        && (moment::rfc3339_moment(text@) matches Some(sooner) && moment::rfc3339_moment(
        other_text@,
    ) matches Some(later) && (sooner.secs < later.secs || sooner.secs == later.secs && sooner.nanos
        <= later.nanos))
}

/// A credit is redeemed whenever one is available, and it is an available one. None that is
/// available comes before it: neither one of an earlier moment, nor, of those of one moment or of
/// none, one of an earlier text, nor, of those of one text or of none, one that stands before it in
/// the list. Of one that names a moment and one that does not, the text decides, where the former
/// is the first of those that name one. One without a text comes last.
pub proof fn credit_that_expires_first_is_redeemed(
    credits: &Vec<AccountResetCredit>,
    r: Option<usize>,
    j: int,
)
    requires
        call_ensures(next_to_redeem, (credits,), r),
        0 <= j < credits@.len(),
        can_be_taken(credits@[j]),
    ensures
        r matches Some(i) && i < credits@.len() && {
            let chosen = credits@[i as int];
            let other = credits@[j];
            &&& can_be_taken(chosen)
            &&& other.expires_at matches Some(text) ==> chosen.expires_at matches Some(chosen_text)
                && {
                let moment = moment::rfc3339_moment(chosen_text@);
                let other_moment = moment::rfc3339_moment(text@);
                &&& moment is Some && other_moment is Some ==> {
                    ||| moment->0.secs < other_moment->0.secs
                    ||| moment->0.secs == other_moment->0.secs && moment->0.nanos
                        < other_moment->0.nanos
                    ||| moment == other_moment && !text::comes_before(text@, chosen_text@)
                }
                &&& moment is Some == other_moment is Some && moment is None
                    ==> !text::comes_before(text@, chosen_text@)
                &&& moment is Some && other_moment is None ==> text::comes_before(
                    chosen_text@,
                    text@,
                )
                &&& moment is None && other_moment is Some ==> exists|d: int| #[trigger]
                    comes_before_a_sooner_one(credits@, chosen, other, d)
                &&& text@ == chosen_text@ ==> i <= j
            }
            &&& other.expires_at is None && chosen.expires_at is None ==> i <= j
        },
{
    assert(scoring::is_available(credits@[j]));
    let i = r->0 as int;
    let chosen = credits@[i];
    let other = credits@[j];
    let n = credits@.len() as int;
    let k = lemma_first_exists(credits@, is_dated(other), n, j);
    assert(is_first_of_its_kind(credits@, k));
    if is_dated(other) != is_dated(chosen) {
        assert(expires_before(chosen, credits@[k]));
        if let (Some(x), Some(y), Some(z)) = (
            chosen.expires_at,
            credits@[k].expires_at,
            other.expires_at,
        ) {
            text::order_is_strict(x@, z@);
            if is_dated(other) {
                assert(comes_before_a_sooner_one(credits@, chosen, other, k));
            }
            if !is_dated(other) {
                if y@ != z@ {
                    text::order_is_total(y@, z@);
                    text::order_is_transitive(x@, y@, z@);
                }
            }
        }
    } else {
        if let (Some(x), Some(z)) = (chosen.expires_at, other.expires_at) {
            text::order_is_strict(x@, z@);
        }
    }
}

/// Where no credit is available, none is redeemed.
pub proof fn no_credit_is_redeemed_that_is_not_available(
    credits: &Vec<AccountResetCredit>,
    r: Option<usize>,
)
    requires
        call_ensures(next_to_redeem, (credits,), r),
        forall|j: int| 0 <= j < credits@.len() ==> !can_be_taken(#[trigger] credits@[j]),
    ensures
        r is None,
{
    if let Some(i) = r {
        assert(scoring::is_available(credits@[i as int]));
        assert(can_be_taken(credits@[i as int]));
    }
}

} // verus!
