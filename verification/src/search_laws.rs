//! What holds of every search for the event log of a session: it finds the newest one.

use crate::search;
use crate::search::{FoundView, ListStage, Outcome, Place, PlaceView, SearchStep, Tree};
use crate::text;
use crate::versions;
use vstd::prelude::*;

verus! {

/// The directory can be read and holds the name.
pub open spec fn lists(tree: Tree, place: PlaceView, name: Seq<char>) -> bool {
    tree(place) matches Some(names) && names.contains(name)
}

/// The directory of a day is listed below those of its year and its month.
pub open spec fn day_is_listed(
    tree: Tree,
    year: Seq<char>,
    month: Seq<char>,
    day: Seq<char>,
) -> bool {
    &&& lists(tree, PlaceView::Base, year)
    &&& lists(tree, PlaceView::Year(year), month)
    &&& lists(tree, PlaceView::Month(year, month), day)
}

/// The directory can be read and holds an event log of the session.
pub open spec fn holds_log(tree: Tree, place: PlaceView, session_id: Seq<char>) -> bool {
    tree(place) matches Some(names) && exists|i: int|
        0 <= i < names.len() && text::contains_text(#[trigger] names[i], session_id + ".jsonl"@)
}

/// The name at the position holds the text, and none before it does.
pub open spec fn is_first_holding(names: Seq<Seq<char>>, i: int, needle: Seq<char>) -> bool {
    &&& 0 <= i < names.len()
    &&& text::contains_text(names[i], needle)
    &&& forall|j: int| 0 <= j < i ==> !text::contains_text(#[trigger] names[j], needle)
}

/// The name is that of the first file in the directory whose name holds the id of the session and
/// the ending of a log.
pub open spec fn is_first_log(
    tree: Tree,
    place: PlaceView,
    name: Seq<char>,
    session_id: Seq<char>,
) -> bool {
    tree(place) matches Some(names) && exists|i: int| #[trigger]
        is_first_holding(names, i, session_id + ".jsonl"@) && names[i] == name
}

/// One day comes after another, by the names of the year, the month and the day.
pub open spec fn is_later(
    year: Seq<char>,
    month: Seq<char>,
    day: Seq<char>,
    than_year: Seq<char>,
    than_month: Seq<char>,
    than_day: Seq<char>,
) -> bool {
    ||| text::comes_before(than_year, year)
    ||| year == than_year && text::comes_before(than_month, month)
    ||| year == than_year && month == than_month && text::comes_before(than_day, day)
}

proof fn lemma_first_holding(names: Seq<Seq<char>>, needle: Seq<char>, from: int)
    requires
        0 <= from,
    ensures
        match search::first_holding(names, needle, from) {
            Some(i) => from <= i < names.len() && text::contains_text(names[i], needle)
                && forall|j: int|
                    from <= j < i ==> !text::contains_text(#[trigger] names[j], needle),
            None => forall|i: int|
                from <= i < names.len() ==> !text::contains_text(#[trigger] names[i], needle),
        },
    decreases names.len() - from,
{
    if from < names.len() {
        lemma_first_holding(names, needle, from + 1);
    }
}

/// The search in the directories of days stops at the last of them that holds a log.
proof fn lemma_days(tree: Tree, needle: Seq<char>, days: Seq<PlaceView>) -> (k: int)
    ensures
        match search::log_of_days(tree, needle, days) {
            Some(found) => {
                &&& 0 <= k < days.len()
                &&& search::log_of_day(tree, needle, days[k]) == Some(found)
                &&& forall|j: int|
                    k < j < days.len() ==> search::log_of_day(tree, needle, #[trigger] days[j])
                        is None
            },
            None => forall|j: int|
                0 <= j < days.len() ==> search::log_of_day(tree, needle, #[trigger] days[j])
                    is None,
        },
    decreases days.len(),
{
    if days.len() == 0 {
        0
    } else {
        let n = days.len() - 1;
        let rest = days.drop_last();
        if search::log_of_day(tree, needle, days[n]) is Some {
            n
        } else {
            let k = lemma_days(tree, needle, rest);
            assert forall|j: int| 0 <= j < n implies #[trigger] days[j] == rest[j] by {}
            k
        }
    }
}

/// The directories in one, in the order from whose end they are searched.
spec fn below(place: PlaceView, names: Seq<Seq<char>>) -> Seq<PlaceView> {
    search::places_in(place, search::oldest_first(names))
}

/// The month can be read, and none of its days holds a log.
spec fn month_is_bare(tree: Tree, needle: Seq<char>, month: PlaceView) -> bool {
    tree(month) matches Some(names) && search::log_of_days(tree, needle, below(month, names))
        is None
}

/// The search in the directories of months stops at the last of them that holds a log.
proof fn lemma_months(tree: Tree, needle: Seq<char>, months: Seq<PlaceView>) -> (k: int)
    ensures
        match search::search_months(tree, needle, months) {
            Outcome::Found(found) => {
                &&& 0 <= k < months.len()
                &&& tree(months[k]) matches Some(names) && search::log_of_days(
                    tree,
                    needle,
                    below(months[k], names),
                ) == Some(found)
                &&& forall|j: int|
                    k < j < months.len() ==> month_is_bare(tree, needle, #[trigger] months[j])
            },
            Outcome::GoesOn => forall|j: int|
                0 <= j < months.len() ==> month_is_bare(tree, needle, #[trigger] months[j]),
            Outcome::Ends => 0 <= k < months.len() && tree(months[k]) is None,
        },
    decreases months.len(),
{
    if months.len() == 0 {
        0
    } else {
        let n = months.len() - 1;
        let rest = months.drop_last();
        if month_is_bare(tree, needle, months[n]) {
            let k = lemma_months(tree, needle, rest);
            assert forall|j: int| 0 <= j < n implies #[trigger] months[j] == rest[j] by {}
            k
        } else {
            n
        }
    }
}

/// The year can be read, and so can its months, and none of them holds a log.
spec fn year_is_bare(tree: Tree, needle: Seq<char>, year: PlaceView) -> bool {
    tree(year) matches Some(names) && search::search_months(tree, needle, below(year, names))
        == Outcome::GoesOn
}

/// The search in the directories of years stops at the last of them that holds a log.
proof fn lemma_years(tree: Tree, needle: Seq<char>, years: Seq<PlaceView>) -> (k: int)
    ensures
        match search::search_years(tree, needle, years) {
            Outcome::Found(found) => {
                &&& 0 <= k < years.len()
                &&& tree(years[k]) matches Some(names) && search::search_months(
                    tree,
                    needle,
                    below(years[k], names),
                ) == Outcome::Found(found)
                &&& forall|j: int|
                    k < j < years.len() ==> year_is_bare(tree, needle, #[trigger] years[j])
            },
            Outcome::GoesOn => forall|j: int|
                0 <= j < years.len() ==> year_is_bare(tree, needle, #[trigger] years[j]),
            Outcome::Ends => 0 <= k < years.len() && (tree(years[k]) matches Some(names)
                ==> search::search_months(tree, needle, below(years[k], names))
                == Outcome::Ends),
        },
    decreases years.len(),
{
    if years.len() == 0 {
        0
    } else {
        let n = years.len() - 1;
        let rest = years.drop_last();
        if year_is_bare(tree, needle, years[n]) {
            let k = lemma_years(tree, needle, rest);
            assert forall|j: int| 0 <= j < n implies #[trigger] years[j] == rest[j] by {}
            k
        } else {
            n
        }
    }
}

/// The place of a name among the directories as they are searched: behind that of every name that
/// comes before it.
proof fn lemma_place_of(names: Seq<Seq<char>>, name: Seq<char>) -> (j: int)
    requires
        names.contains(name),
    ensures
        0 <= j < search::oldest_first(names).len(),
        search::oldest_first(names)[j] == name,
        forall|k: int|
            j <= k < search::oldest_first(names).len() ==> !text::comes_before(
                #[trigger] search::oldest_first(names)[k],
                name,
            ),
{
    let sorted = search::oldest_first(names);
    search::oldest_come_first(names);
    assert(sorted.contains(name));
    let j = choose|j: int| 0 <= j < sorted.len() && sorted[j] == name;
    assert forall|k: int| j <= k < sorted.len() implies !text::comes_before(
        #[trigger] sorted[k],
        name,
    ) by {
        text::order_is_strict(name, name);
        if j < k {
            assert(search::in_order(sorted[j], sorted[k]));
        }
    }
    j
}

/// A day that holds a log is found in its directory.
proof fn lemma_log_of_day(tree: Tree, session_id: Seq<char>, day: PlaceView)
    ensures
        search::log_of_day(tree, search::log_needle(session_id), day) is Some <==> holds_log(
            tree,
            day,
            session_id,
        ),
        search::log_of_day(tree, search::log_needle(session_id), day) matches Some(found)
            ==> found.day == day && is_first_log(tree, day, found.name, session_id),
{
    if let Some(names) = tree(day) {
        lemma_first_holding(names, search::log_needle(session_id), 0);
        if let Some(i) = search::first_holding(names, search::log_needle(session_id), 0) {
            assert(is_first_holding(names, i, session_id + ".jsonl"@));
        }
    }
}

/// None of the days of a month that is bare holds a log.
proof fn lemma_bare_month(
    tree: Tree,
    session_id: Seq<char>,
    year: Seq<char>,
    month: Seq<char>,
    day: Seq<char>,
)
    requires
        month_is_bare(tree, search::log_needle(session_id), PlaceView::Month(year, month)),
        lists(tree, PlaceView::Month(year, month), day),
    ensures
        !holds_log(tree, PlaceView::Day(year, month, day), session_id),
{
    let place = PlaceView::Month(year, month);
    let needle = search::log_needle(session_id);
    if let Some(names) = tree(place) {
        lemma_days(tree, needle, below(place, names));
        let j = lemma_place_of(names, day);
        assert(below(place, names)[j] == PlaceView::Day(year, month, day));
        lemma_log_of_day(tree, session_id, PlaceView::Day(year, month, day));
    }
}

/// None of the days of a year that is bare holds a log.
proof fn lemma_bare_year(
    tree: Tree,
    session_id: Seq<char>,
    year: Seq<char>,
    month: Seq<char>,
    day: Seq<char>,
)
    requires
        year_is_bare(tree, search::log_needle(session_id), PlaceView::Year(year)),
        lists(tree, PlaceView::Year(year), month),
        lists(tree, PlaceView::Month(year, month), day),
    ensures
        !holds_log(tree, PlaceView::Day(year, month, day), session_id),
{
    let place = PlaceView::Year(year);
    if let Some(names) = tree(place) {
        lemma_months(tree, search::log_needle(session_id), below(place, names));
        let j = lemma_place_of(names, month);
        assert(below(place, names)[j] == PlaceView::Month(year, month));
        lemma_bare_month(tree, session_id, year, month, day);
    }
}

/// A log that is found is the first in its directory whose name holds the id of the session. It
/// stands in a directory of a day that is listed, and no later day that is listed holds a log of
/// the session. No later year, and no later month of its year, is one that cannot be read.
pub proof fn newest_log_is_found(
    tree: Tree,
    session_id: Seq<char>,
    found: FoundView,
    year: Seq<char>,
    month: Seq<char>,
    day: Seq<char>,
)
    requires
        search::rollout_in(tree, session_id) == Some(found),
    ensures
        text::contains_text(found.name, session_id + ".jsonl"@),
        lists(tree, found.day, found.name),
        is_first_log(tree, found.day, found.name, session_id),
        found.day matches PlaceView::Day(found_year, found_month, found_day) && day_is_listed(
            tree,
            found_year,
            found_month,
            found_day,
        ) && (day_is_listed(tree, year, month, day) && is_later(
            year,
            month,
            day,
            found_year,
            found_month,
            found_day,
        ) ==> !holds_log(tree, PlaceView::Day(year, month, day), session_id)) && (lists(
            tree,
            PlaceView::Base,
            year,
        ) && text::comes_before(found_year, year) ==> tree(PlaceView::Year(year)) is Some) && (
        lists(tree, PlaceView::Base, year) && text::comes_before(found_year, year) && lists(
            tree,
            PlaceView::Year(year),
            month,
        ) ==> tree(PlaceView::Month(year, month)) is Some) && (lists(
            tree,
            PlaceView::Year(found_year),
            month,
        ) && text::comes_before(found_month, month) ==> tree(PlaceView::Month(found_year, month))
            is Some),
{
    let needle = search::log_needle(session_id);
    let years = tree(PlaceView::Base)->0;
    let year_names = search::oldest_first(years);
    let k = lemma_years(tree, needle, below(PlaceView::Base, years));
    let found_year = year_names[k];
    let year_place = PlaceView::Year(found_year);
    assert(below(PlaceView::Base, years)[k] == year_place);
    let months = tree(year_place)->0;
    let month_names = search::oldest_first(months);
    let l = lemma_months(tree, needle, below(year_place, months));
    let found_month = month_names[l];
    let month_place = PlaceView::Month(found_year, found_month);
    assert(below(year_place, months)[l] == month_place);
    let days = tree(month_place)->0;
    let day_names = search::oldest_first(days);
    let m = lemma_days(tree, needle, below(month_place, days));
    let found_day = day_names[m];
    assert(below(month_place, days)[m] == PlaceView::Day(found_year, found_month, found_day));
    lemma_log_of_day(tree, session_id, found.day);
    search::oldest_come_first(years);
    search::oldest_come_first(months);
    search::oldest_come_first(days);
    assert(year_names.contains(found_year));
    assert(month_names.contains(found_month));
    assert(day_names.contains(found_day));
    if lists(tree, PlaceView::Base, year) && text::comes_before(found_year, year) {
        let j = lemma_place_of(years, year);
        assert(k < j) by {
            if j <= k {
                assert(!text::comes_before(year_names[k], year));
            }
        }
        assert(below(PlaceView::Base, years)[j] == PlaceView::Year(year));
        if lists(tree, PlaceView::Year(year), month) {
            let names = tree(PlaceView::Year(year))->0;
            lemma_months(tree, needle, below(PlaceView::Year(year), names));
            let i = lemma_place_of(names, month);
            assert(below(PlaceView::Year(year), names)[i] == PlaceView::Month(year, month));
        }
    }
    if lists(tree, PlaceView::Year(found_year), month) && text::comes_before(found_month, month) {
        let j = lemma_place_of(months, month);
        assert(l < j) by {
            if j <= l {
                assert(!text::comes_before(month_names[l], month));
            }
        }
        assert(below(year_place, months)[j] == PlaceView::Month(found_year, month));
    }
    if day_is_listed(tree, year, month, day) {
        if text::comes_before(found_year, year) {
            let j = lemma_place_of(years, year);
            assert(k < j) by {
                if j <= k {
                    assert(!text::comes_before(year_names[k], year));
                }
            }
            assert(below(PlaceView::Base, years)[j] == PlaceView::Year(year));
            lemma_bare_year(tree, session_id, year, month, day);
        } else if year == found_year && text::comes_before(found_month, month) {
            let j = lemma_place_of(months, month);
            assert(l < j) by {
                if j <= l {
                    assert(!text::comes_before(month_names[l], month));
                }
            }
            assert(below(year_place, months)[j] == PlaceView::Month(year, month));
            lemma_bare_month(tree, session_id, year, month, day);
        } else if year == found_year && month == found_month && text::comes_before(
            found_day,
            day,
        ) {
            let j = lemma_place_of(days, day);
            assert(m < j) by {
                if j <= m {
                    assert(!text::comes_before(day_names[m], day));
                }
            }
            assert(below(month_place, days)[j] == PlaceView::Day(year, month, day));
            lemma_log_of_day(tree, session_id, PlaceView::Day(year, month, day));
        }
    }
}

/// Where every year and every month that is listed can be read, and a day holds a log of the
/// session, one is found.
pub proof fn log_is_found_where_there_is_one(
    tree: Tree,
    session_id: Seq<char>,
    year: Seq<char>,
    month: Seq<char>,
    day: Seq<char>,
)
    requires
        forall|y: Seq<char>|
            #[trigger] lists(tree, PlaceView::Base, y) ==> tree(PlaceView::Year(y)) is Some,
        forall|y: Seq<char>, m: Seq<char>|
            lists(tree, PlaceView::Base, y) && #[trigger] lists(tree, PlaceView::Year(y), m)
                ==> tree(PlaceView::Month(y, m)) is Some,
        day_is_listed(tree, year, month, day),
        holds_log(tree, PlaceView::Day(year, month, day), session_id),
    ensures
        search::rollout_in(tree, session_id) is Some,
{
    let needle = search::log_needle(session_id);
    let years = tree(PlaceView::Base)->0;
    let k = lemma_years(tree, needle, below(PlaceView::Base, years));
    match search::search_years(tree, needle, below(PlaceView::Base, years)) {
        Outcome::Found(_) => {},
        Outcome::GoesOn => {
            let j = lemma_place_of(years, year);
            assert(below(PlaceView::Base, years)[j] == PlaceView::Year(year));
            lemma_bare_year(tree, session_id, year, month, day);
        },
        Outcome::Ends => {
            let y = search::oldest_first(years)[k];
            let place = PlaceView::Year(y);
            assert(below(PlaceView::Base, years)[k] == place);
            search::oldest_come_first(years);
            assert(search::oldest_first(years).contains(y));
            assert(lists(tree, PlaceView::Base, y));
            let months = tree(place)->0;
            let l = lemma_months(tree, needle, below(place, months));
            let m = search::oldest_first(months)[l];
            assert(below(place, months)[l] == PlaceView::Month(y, m));
            search::oldest_come_first(months);
            assert(search::oldest_first(months).contains(m));
            assert(lists(tree, place, m));
        },
    }
}

// ---------------------------------------------------------------------------
// The search step by step
// ---------------------------------------------------------------------------

/// What was listed is what the directory holds.
pub open spec fn is_listing(names: Option<Vec<String>>, held: Option<Seq<Seq<char>>>) -> bool {
    match (names, held) {
        (Some(list), Some(all)) => text::texts(list@) == all,
        (None, None) => true,
        _ => false,
    }
}

/// A directory was to be listed, was listed, and the search went on from there.
pub open spec fn goes_on(
    step: SearchStep,
    names: Option<Vec<String>>,
    next: SearchStep,
    tree: Tree,
) -> bool {
    step matches SearchStep::List(stage) && is_listing(names, tree(stage.place@)) && call_ensures(
        ListStage::listed,
        (stage, names),
        next,
    )
}

/// The steps are those of a search for the log of a session, with what was listed at each.
pub open spec fn is_search(
    steps: Seq<SearchStep>,
    listings: Seq<Option<Vec<String>>>,
    tree: Tree,
    session_id: &str,
) -> bool {
    &&& steps.len() == listings.len() + 1
    &&& call_ensures(search::locate_rollout_file, (session_id,), steps[0])
    &&& forall|i: int|
        0 <= i < listings.len() ==> goes_on(steps[i], #[trigger] listings[i], steps[i + 1], tree)
}

proof fn lemma_search(
    steps: Seq<SearchStep>,
    listings: Seq<Option<Vec<String>>>,
    tree: Tree,
    session_id: &str,
    i: int,
)
    requires
        is_search(steps, listings, tree, session_id),
        0 <= i < steps.len(),
    ensures
        steps[i]@.outcome(tree) == search::rollout_in(tree, session_id@),
    decreases i,
{
    if i > 0 {
        lemma_search(steps, listings, tree, session_id, i - 1);
        assert(goes_on(steps[i - 1], listings[i - 1], steps[i], tree));
        if let SearchStep::List(stage) = steps[i - 1] {
            assert(tree(stage.place@) == search::listing(listings[i - 1]));
            assert(steps[i]@.outcome(tree) == stage.search@.outcome(stage.place@, tree));
        }
    }
}

/// A search that is over has found the newest log of the session: the first in the directory of a
/// day, with none in that of a later day. Where every year and every month that is listed can be
/// read, it has found one if there is one.
pub proof fn search_ends_with_the_newest_log(
    steps: Seq<SearchStep>,
    listings: Seq<Option<Vec<String>>>,
    tree: Tree,
    session_id: &str,
    result: Option<(Place, String)>,
    year: Seq<char>,
    month: Seq<char>,
    day: Seq<char>,
)
    requires
        is_search(steps, listings, tree, session_id),
        steps.last() == SearchStep::Finished(result),
        day_is_listed(tree, year, month, day),
        holds_log(tree, PlaceView::Day(year, month, day), session_id@),
    ensures
        result matches Some((place, name)) ==> is_first_log(tree, place@, name@, session_id@) && (
        place matches Place::Day(found_year, found_month, found_day) && day_is_listed(
            tree,
            found_year@,
            found_month@,
            found_day@,
        ) && !is_later(year, month, day, found_year@, found_month@, found_day@)),
        (forall|y: Seq<char>|
            #[trigger] lists(tree, PlaceView::Base, y) ==> tree(PlaceView::Year(y)) is Some) && (
        forall|y: Seq<char>, m: Seq<char>|
            lists(tree, PlaceView::Base, y) && #[trigger] lists(tree, PlaceView::Year(y), m)
                ==> tree(PlaceView::Month(y, m)) is Some) ==> result is Some,
{
    lemma_search(steps, listings, tree, session_id, steps.len() - 1);
    if let Some((place, name)) = result {
        let found = FoundView { day: place@, name: name@ };
        assert(steps.last()@ == search::StepView::Finished(Some(found)));
        newest_log_is_found(tree, session_id@, found, year, month, day);
    } else {
        assert(search::rollout_in(tree, session_id@) is None);
        if (forall|y: Seq<char>|
            #[trigger] lists(tree, PlaceView::Base, y) ==> tree(PlaceView::Year(y)) is Some) && (
        forall|y: Seq<char>, m: Seq<char>|
            lists(tree, PlaceView::Base, y) && #[trigger] lists(tree, PlaceView::Year(y), m)
                ==> tree(PlaceView::Month(y, m)) is Some) {
            log_is_found_where_there_is_one(tree, session_id@, year, month, day);
        }
    }
}

/// The directory of a day is that of its year, of its month and of the day.
pub proof fn place_is_named_from_the_year_on(place: &Place, r: Vec<String>)
    requires
        call_ensures(Place::path, (place,), r),
    ensures
        text::texts(r@) == match place {
            Place::Base => Seq::empty(),
            Place::Year(year) => seq![year@],
            Place::Month(year, month) => seq![year@, month@],
            Place::Day(year, month, day) => seq![year@, month@, day@],
        },
{
}

/// Sorted names are the same names, none of them behind one that comes after it.
pub proof fn names_are_put_in_order(names: Vec<String>, r: Vec<String>)
    requires
        call_ensures(search::sort_names, (names,), r),
    ensures
        forall|name: Seq<char>| #[trigger]
            text::texts(r@).contains(name) <==> text::texts(names@).contains(name),
        forall|i: int, j: int|
            0 <= i < j < r@.len() ==> !text::comes_before(
                (#[trigger] r@[j])@,
                (#[trigger] r@[i])@,
            ),
{
    let all = text::texts(r@);
    search::oldest_come_first(text::texts(names@));
    assert(all.len() == r@.len());
    assert forall|i: int, j: int| 0 <= i < j < r@.len() implies !text::comes_before(
        (#[trigger] r@[j])@,
        (#[trigger] r@[i])@,
    ) by {
        assert(all[i] == r@[i]@ && all[j] == r@[j]@);
        assert(search::in_order(all[i], all[j]));
    }
}

/// Sorted versions are the same versions, none of them behind one that is newer.
pub proof fn versions_are_put_in_order(names: Vec<String>, r: Vec<String>)
    requires
        call_ensures(search::sort_versions, (names,), r),
    ensures
        r@.len() == names@.len(),
        forall|name: Seq<char>| #[trigger]
            text::texts(r@).contains(name) <==> text::texts(names@).contains(name),
        forall|i: int, j: int|
            0 <= i < j < r@.len() ==> !versions::is_older(
                (#[trigger] r@[j])@,
                (#[trigger] r@[i])@,
            ),
{
    let all = text::texts(r@);
    let given = text::texts(names@);
    search::oldest_versions_come_first(given);
    assert(all.len() == r@.len());
    assert(given.len() == names@.len());
    assert forall|i: int, j: int| 0 <= i < j < r@.len() implies !versions::is_older(
        (#[trigger] r@[j])@,
        (#[trigger] r@[i])@,
    ) by {
        assert(all[i] == r@[i]@ && all[j] == r@[j]@);
        assert(!versions::is_older(all[j], all[i]));
    }
}

} // verus!
