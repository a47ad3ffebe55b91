//! Where the command line tool and the event logs of its sessions are found.

use crate::json;
use crate::text;
use crate::versions;
use vstd::prelude::*;
use vstd::relations;
use vstd::seq_lib;

verus! {

// ---------------------------------------------------------------------------
// Sorting names
// ---------------------------------------------------------------------------

/// `a` comes before `b` as a text, or is the same.
pub open spec fn in_order(a: Seq<char>, b: Seq<char>) -> bool {
    !text::comes_before(b, a)
}

/// The version `a` is older than `b`, or is the same.
pub open spec fn in_order_of_age(a: Seq<char>, b: Seq<char>) -> bool {
    !versions::is_older(b, a)
}

/// The names in the order of texts. Dates are named so that the newer one comes later.
pub open spec fn oldest_first(names: Seq<Seq<char>>) -> Seq<Seq<char>> {
    names.sort_by(|a: Seq<char>, b: Seq<char>| in_order(a, b))
}

/// The names of versions in the order of their age, the oldest first.
pub open spec fn oldest_version_first(names: Seq<Seq<char>>) -> Seq<Seq<char>> {
    names.sort_by(|a: Seq<char>, b: Seq<char>| in_order_of_age(a, b))
}

/// `b` comes strictly before `a`, as a text or as a version.
spec fn strictly(by_age: bool, b: Seq<char>, a: Seq<char>) -> bool {
    if by_age {
        versions::is_older(b, a)
    } else {
        text::comes_before(b, a)
    }
}

/// The order of texts or that of versions.
spec fn order(by_age: bool) -> spec_fn(Seq<char>, Seq<char>) -> bool {
    if by_age {
        |a: Seq<char>, b: Seq<char>| in_order_of_age(a, b)
    } else {
        |a: Seq<char>, b: Seq<char>| in_order(a, b)
    }
}

proof fn lemma_strictly(by_age: bool, a: Seq<char>, b: Seq<char>)
    ensures
        !(strictly(by_age, a, b) && strictly(by_age, b, a)),
        a == b ==> !strictly(by_age, a, b),
        a != b ==> strictly(by_age, a, b) || strictly(by_age, b, a),
{
    text::order_is_strict(a, b);
    versions::age_is_strict(a, b);
    if a != b {
        text::order_is_total(a, b);
        versions::age_is_total(a, b);
    }
}

proof fn lemma_in_order(by_age: bool, a: Seq<char>, b: Seq<char>, c: Seq<char>)
    requires
        !strictly(by_age, b, a),
        !strictly(by_age, c, b),
    ensures
        !strictly(by_age, c, a),
{
    lemma_strictly(by_age, a, b);
    lemma_strictly(by_age, b, c);
    lemma_strictly(by_age, a, c);
    if a != b && b != c {
        if by_age {
            versions::age_is_transitive(a, b, c);
        } else {
            text::order_is_transitive(a, b, c);
        }
    }
}

proof fn lemma_order_is_total(by_age: bool)
    ensures
        relations::total_ordering(order(by_age)),
{
    let leq = order(by_age);
    assert forall|a: Seq<char>| #[trigger] leq(a, a) by {
        lemma_strictly(by_age, a, a);
    }
    assert forall|a: Seq<char>, b: Seq<char>| #[trigger] leq(a, b) && #[trigger] leq(
        b,
        a,
    ) implies a == b by {
        lemma_strictly(by_age, a, b);
    }
    assert forall|a: Seq<char>, b: Seq<char>, c: Seq<char>| #[trigger] leq(a, b) && #[trigger] leq(
        b,
        c,
    ) implies leq(a, c) by {
        lemma_in_order(by_age, a, b, c);
    }
    assert forall|a: Seq<char>, b: Seq<char>| #[trigger] leq(a, b) || #[trigger] leq(b, a) by {
        lemma_strictly(by_age, a, b);
    }
}

/// What is put in order are the names, and none stands behind one that comes after it.
pub proof fn oldest_come_first(names: Seq<Seq<char>>)
    ensures
        forall|name: Seq<char>| #[trigger] oldest_first(names).contains(name) <==> names.contains(
            name,
        ),
        forall|i: int, j: int|
            0 <= i < j < oldest_first(names).len() ==> in_order(
                #[trigger] oldest_first(names)[i],
                #[trigger] oldest_first(names)[j],
            ),
{
    let leq = |a: Seq<char>, b: Seq<char>| in_order(a, b);
    let sorted = oldest_first(names);
    lemma_order_is_total(false);
    assert(order(false) == leq);
    names.lemma_sort_by_ensures(leq);
    assert forall|name: Seq<char>| #[trigger] sorted.contains(name) <==> names.contains(name) by {
        seq_lib::to_multiset_contains(names, name);
        seq_lib::to_multiset_contains(sorted, name);
    }
    assert forall|i: int, j: int| 0 <= i < j < sorted.len() implies in_order(
        #[trigger] sorted[i],
        #[trigger] sorted[j],
    ) by {
        assert(leq(sorted[i], sorted[j]));
    }
}

/// What is put in order are the versions, and none stands behind one that is newer.
pub proof fn oldest_versions_come_first(names: Seq<Seq<char>>)
    ensures
        oldest_version_first(names).len() == names.len(),
        forall|name: Seq<char>| #[trigger]
            oldest_version_first(names).contains(name) <==> names.contains(name),
        forall|i: int, j: int|
            0 <= i < j < oldest_version_first(names).len() ==> !versions::is_older(
                #[trigger] oldest_version_first(names)[j],
                #[trigger] oldest_version_first(names)[i],
            ),
{
    let leq = |a: Seq<char>, b: Seq<char>| in_order_of_age(a, b);
    let sorted = oldest_version_first(names);
    lemma_order_is_total(true);
    assert(order(true) == leq);
    names.lemma_sort_by_ensures(leq);
    seq_lib::to_multiset_len(names);
    seq_lib::to_multiset_len(sorted);
    assert forall|name: Seq<char>| #[trigger] sorted.contains(name) <==> names.contains(name) by {
        seq_lib::to_multiset_contains(names, name);
        seq_lib::to_multiset_contains(sorted, name);
    }
    assert forall|i: int, j: int| 0 <= i < j < sorted.len() implies !versions::is_older(
        #[trigger] sorted[j],
        #[trigger] sorted[i],
    ) by {
        assert(leq(sorted[i], sorted[j]));
    }
}

/// Whether `b` comes strictly before `a`, as a text or as a version.
fn goes_before(by_age: bool, b: &str, a: &str) -> (r: bool)
    ensures
        r == strictly(by_age, b@, a@),
{
    if by_age {
        versions::older(b, a)
    } else {
        text::precedes(b, a)
    }
}

/// The names in the order of texts or of versions.
fn sort_in_order(by_age: bool, names: Vec<String>) -> (r: Vec<String>)
    ensures
        text::texts(r@) == text::texts(names@).sort_by(order(by_age)),
{
    let ghost leq = order(by_age);
    let ghost all = text::texts(names@);
    let mut r: Vec<String> = Vec::new();
    assert(text::texts(r@) =~= all.take(0));
    for name in it: names
        invariant
            it.seq() == names@,
            all == text::texts(names@),
            leq == order(by_age),
            relations::sorted_by(text::texts(r@), leq),
            text::texts(r@).to_multiset() == all.take(it.index() as int).to_multiset(),
    {
        let ghost before = text::texts(r@);
        let ghost i = it.index() as int;
        let mut p: usize = 0;
        while p < r.len() && !goes_before(by_age, name.as_str(), r[p].as_str())
            invariant
                p <= r@.len(),
                before == text::texts(r@),
                forall|k: int| 0 <= k < p ==> !strictly(by_age, name@, #[trigger] before[k]),
            decreases r@.len() - p,
        {
            assert(before[p as int] == r@[p as int]@);
            p = p + 1;
        }
        proof {
            if p < r@.len() {
                assert(before[p as int] == r@[p as int]@);
                lemma_strictly(by_age, name@, before[p as int]);
            }
            let after = before.insert(p as int, name@);
            assert forall|a: int, b: int| 0 <= a < b < after.len() implies #[trigger] leq(
                after[a],
                after[b],
            ) by {
                let x = if a < p {
                    a
                } else {
                    a - 1
                };
                let y = if b < p {
                    b
                } else {
                    b - 1
                };
                if a != p && b != p {
                    assert(leq(before[x], before[y]));
                } else if b == p {
                    assert(!strictly(by_age, name@, before[a]));
                } else {
                    if y > p {
                        assert(leq(before[p as int], before[y]));
                    }
                    lemma_strictly(by_age, before[y], before[y]);
                    lemma_in_order(by_age, name@, before[p as int], before[y]);
                }
            }
            seq_lib::to_multiset_insert(before, p as int, name@);
            assert(all.take(i + 1) =~= all.take(i).push(name@));
            seq_lib::to_multiset_build(all.take(i), name@);
        }
        r.insert(p, name);
        assert(text::texts(r@) =~= before.insert(p as int, name@));
    }
    proof {
        assert(all.take(all.len() as int) =~= all);
        lemma_order_is_total(by_age);
        all.lemma_sort_by_ensures(leq);
        seq_lib::lemma_sorted_unique(text::texts(r@), all.sort_by(leq), leq);
    }
    r
}

/// The names in the order of texts.
pub fn sort_names(names: Vec<String>) -> (r: Vec<String>)
    ensures
        text::texts(r@) == oldest_first(text::texts(names@)),
{
    sort_in_order(false, names)
}

/// The names of versions in the order of their age, the oldest first.
pub fn sort_versions(names: Vec<String>) -> (r: Vec<String>)
    ensures
        text::texts(r@) == oldest_version_first(text::texts(names@)),
{
    sort_in_order(true, names)
}

// ---------------------------------------------------------------------------
// The command line tool
// ---------------------------------------------------------------------------

/// Where the tool may be in the home directory, in the order in which it is looked for: with the
/// newest version of Node first, then where tools are commonly installed.
pub open spec fn home_candidates(home: Seq<char>, node_versions: Seq<Seq<char>>) -> Seq<Seq<char>> {
    node_candidates(home, oldest_version_first(node_versions)) + seq![
        home + "/.local/bin/codex"@,
        home + "/.npm-global/bin/codex"@,
    ]
}

/// The tool with each of the versions of Node, from the last to the first.
pub open spec fn node_candidates(home: Seq<char>, versions: Seq<Seq<char>>) -> Seq<Seq<char>>
    decreases versions.len(),
{
    if versions.len() == 0 {
        Seq::empty()
    } else {
        seq![home + "/.nvm/versions/node/"@ + versions.last() + "/bin/codex"@] + node_candidates(
            home,
            versions.drop_last(),
        )
    }
}

/// Where the tool may be outside of the home directory.
pub open spec fn system_candidates() -> Seq<Seq<char>> {
    seq!["/usr/local/bin/codex"@, "/usr/bin/codex"@, "/opt/homebrew/bin/codex"@]
}

/// Where the tool may be, in the order in which it is looked for.
pub open spec fn candidates(home: Option<Seq<char>>, node_versions: Seq<Seq<char>>) -> Seq<
    Seq<char>,
> {
    match home {
        Some(dir) => home_candidates(dir, node_versions) + system_candidates(),
        None => system_candidates(),
    }
}

/// Where the tool may be, in the order in which it is looked for. `node_versions` are the names
/// of the versions of Node that are installed in the home directory.
pub fn codex_candidates(home: Option<&str>, node_versions: Vec<String>) -> (r: Vec<String>)
    ensures
        text::texts(r@) == candidates(json::opt_str(home), text::texts(node_versions@)),
{
    let mut r: Vec<String> = Vec::new();
    if let Some(dir) = home {
        let mut sorted = sort_versions(node_versions);
        let ghost wanted = node_candidates(dir@, text::texts(sorted@));
        assert(text::texts(r@) + wanted =~= wanted);
        while sorted.len() > 0
            invariant
                text::texts(r@) + node_candidates(dir@, text::texts(sorted@)) == wanted,
            decreases sorted@.len(),
        {
            let ghost before = text::texts(sorted@);
            let ghost found = text::texts(r@);
            let version = sorted.pop().unwrap();
            assert(before.last() == version@);
            assert(before.drop_last() =~= text::texts(sorted@));
            let mut path = dir.to_owned();
            path.append("/.nvm/versions/node/");
            path.append(version.as_str());
            path.append("/bin/codex");
            r.push(path);
            assert(text::texts(r@) =~= found.push(path@));
            assert(text::texts(r@) + node_candidates(dir@, text::texts(sorted@)) =~= found
                + node_candidates(dir@, before));
        }
        assert(text::texts(r@) =~= wanted);
        let mut local = dir.to_owned();
        local.append("/.local/bin/codex");
        let mut npm = dir.to_owned();
        npm.append("/.npm-global/bin/codex");
        r.push(local);
        r.push(npm);
        assert(text::texts(r@) =~= wanted + seq![
            dir@ + "/.local/bin/codex"@,
            dir@ + "/.npm-global/bin/codex"@,
        ]);
    }
    let ghost found = text::texts(r@);
    r.push("/usr/local/bin/codex".to_owned());
    r.push("/usr/bin/codex".to_owned());
    r.push("/opt/homebrew/bin/codex".to_owned());
    assert(text::texts(r@) =~= found + system_candidates());
    assert(home is None ==> text::texts(r@) =~= system_candidates());
    r
}

/// The first position from the given one on that is marked.
pub open spec fn first_marked(marks: Seq<bool>, from: int) -> Option<int>
    decreases marks.len() - from,
{
    if from < 0 || from >= marks.len() {
        None
    } else if marks[from] {
        Some(from)
    } else {
        first_marked(marks, from + 1)
    }
}

/// Where the tool is: where the search path leads, else the first of the candidates that is a
/// file, else it is left to the system to find it by name.
pub fn find_codex_binary(
    on_path: Option<String>,
    places: &Vec<String>,
    is_file: &Vec<bool>,
) -> (r: String)
    requires
        places@.len() == is_file@.len(),
    ensures
        r@ == (match on_path {
            Some(path) => path@,
            None => match first_marked(is_file@, 0) {
                Some(i) => places@[i]@,
                None => "codex"@,
            },
        }),
{
    if let Some(path) = on_path {
        return path;
    }
    for i in 0..places.len()
        invariant
            places@.len() == is_file@.len(),
            first_marked(is_file@, 0) == first_marked(is_file@, i as int),
            on_path is None,
    {
        if is_file[i] {
            return places[i].clone();
        }
    }
    "codex".to_owned()
}

/// The path of the tool that was installed with a version of Node.
pub open spec fn node_path(home: Seq<char>, version: Seq<char>) -> Seq<char> {
    home + "/.nvm/versions/node/"@ + version + "/bin/codex"@
}

/// The tool of every version of Node is looked for, and that of a newer version before that of an
/// older one; the other places come after all of them.
pub proof fn newest_node_goes_first(
    home: Seq<char>,
    installed: Seq<Seq<char>>,
    older: Seq<char>,
    newer: Seq<char>,
)
    requires
        installed.contains(older),
        installed.contains(newer),
        versions::is_older(older, newer),
    ensures
        exists|i: int, j: int|
            0 <= i < j < installed.len() && #[trigger] home_candidates(home, installed)[i]
                == node_path(home, newer) && #[trigger] home_candidates(home, installed)[j]
                == node_path(home, older),
        home_candidates(home, installed).len() == installed.len() + 2,
{
    let leq = |a: Seq<char>, b: Seq<char>| in_order_of_age(a, b);
    let sorted = oldest_version_first(installed);
    let n = installed.len() as int;
    lemma_order_is_total(true);
    assert(order(true) == leq);
    installed.lemma_sort_by_ensures(leq);
    seq_lib::to_multiset_len(installed);
    seq_lib::to_multiset_len(sorted);
    seq_lib::to_multiset_contains(installed, older);
    seq_lib::to_multiset_contains(sorted, older);
    seq_lib::to_multiset_contains(installed, newer);
    seq_lib::to_multiset_contains(sorted, newer);
    let p = choose|p: int| 0 <= p < sorted.len() && sorted[p] == older;
    let q = choose|q: int| 0 <= q < sorted.len() && sorted[q] == newer;
    versions::age_is_strict(older, newer);
    if q < p {
        assert(leq(sorted[q], sorted[p]));
    }
    assert(p < q);
    lemma_node_candidates(home, sorted, n - 1 - q);
    lemma_node_candidates(home, sorted, n - 1 - p);
    assert(home_candidates(home, installed)[n - 1 - q] == node_path(home, newer));
    assert(home_candidates(home, installed)[n - 1 - p] == node_path(home, older));
}

proof fn lemma_node_candidates(home: Seq<char>, versions: Seq<Seq<char>>, k: int)
    requires
        0 <= k < versions.len(),
    ensures
        node_candidates(home, versions).len() == versions.len(),
        node_candidates(home, versions)[k] == node_path(home, versions[versions.len() - 1 - k]),
    decreases versions.len(),
{
    if versions.len() > 1 {
        lemma_node_candidates(
            home,
            versions.drop_last(),
            if k > 0 {
                k - 1
            } else {
                0
            },
        );
    } else {
        assert(node_candidates(home, versions.drop_last()).len() == 0);
    }
}

// ---------------------------------------------------------------------------
// The event log of a session
// ---------------------------------------------------------------------------

/// A directory of the event logs: that of all of them, or that of a year, a month or a day.
#[derive(Debug)]
pub enum Place {
    Base,
    Year(String),
    Month(String, String),
    Day(String, String, String),
}

/// What a `Place` says.
pub enum PlaceView {
    Base,
    Year(Seq<char>),
    Month(Seq<char>, Seq<char>),
    Day(Seq<char>, Seq<char>, Seq<char>),
}

impl View for Place {
    type V = PlaceView;

    open spec fn view(&self) -> PlaceView {
        match self {
            Place::Base => PlaceView::Base,
            Place::Year(year) => PlaceView::Year(year@),
            Place::Month(year, month) => PlaceView::Month(year@, month@),
            Place::Day(year, month, day) => PlaceView::Day(year@, month@, day@),
        }
    }
}

impl Place {
    /// The directory below that of all event logs.
    pub fn path(&self) -> (r: Vec<String>)
        ensures
            text::texts(r@) == (match self@ {
                PlaceView::Base => Seq::empty(),
                PlaceView::Year(year) => seq![year],
                PlaceView::Month(year, month) => seq![year, month],
                PlaceView::Day(year, month, day) => seq![year, month, day],
            }),
    {
        let mut r: Vec<String> = Vec::new();
        match self {
            Place::Base => {
                assert(text::texts(r@) =~= Seq::empty());
            },
            Place::Year(year) => {
                r.push(year.clone());
                assert(text::texts(r@) =~= seq![year@]);
            },
            Place::Month(year, month) => {
                r.push(year.clone());
                r.push(month.clone());
                assert(text::texts(r@) =~= seq![year@, month@]);
            },
            Place::Day(year, month, day) => {
                r.push(year.clone());
                r.push(month.clone());
                r.push(day.clone());
                assert(text::texts(r@) =~= seq![year@, month@, day@]);
            },
        }
        r
    }
}

/// The name of a file with the event log of a session holds this.
pub open spec fn log_needle(session_id: Seq<char>) -> Seq<char> {
    session_id + ".jsonl"@
}

/// The position of the first name from a position on that holds the needle.
pub open spec fn first_holding(names: Seq<Seq<char>>, needle: Seq<char>, from: int) -> Option<int>
    decreases names.len() - from,
{
    if from < 0 || from >= names.len() {
        None
    } else if text::contains_text(names[from], needle) {
        Some(from)
    } else {
        first_holding(names, needle, from + 1)
    }
}

/// A file in the directory of a day.
pub struct FoundView {
    pub day: PlaceView,
    pub name: Seq<char>,
}

/// What the directories hold: the names in each, or nothing where it cannot be read.
pub type Tree = spec_fn(PlaceView) -> Option<Seq<Seq<char>>>;

/// The event log in the directory of a day. A day that cannot be read is passed over.
pub open spec fn log_of_day(tree: Tree, needle: Seq<char>, day: PlaceView) -> Option<FoundView> {
    match tree(day) {
        Some(names) => match first_holding(names, needle, 0) {
            Some(i) => Some(FoundView { day, name: names[i] }),
            None => None,
        },
        None => None,
    }
}

/// The event log in the directories of days, from the last to the first.
pub open spec fn log_of_days(tree: Tree, needle: Seq<char>, days: Seq<PlaceView>) -> Option<
    FoundView,
>
    decreases days.len(),
{
    if days.len() == 0 {
        None
    } else {
        match log_of_day(tree, needle, days.last()) {
            Some(found) => Some(found),
            None => log_of_days(tree, needle, days.drop_last()),
        }
    }
}

/// The directories in the directory of a place.
pub open spec fn places_in(place: PlaceView, names: Seq<Seq<char>>) -> Seq<PlaceView> {
    names.map_values(
        |name: Seq<char>|
            match place {
                PlaceView::Base => PlaceView::Year(name),
                PlaceView::Year(year) => PlaceView::Month(year, name),
                PlaceView::Month(year, month) => PlaceView::Day(year, month, name),
                PlaceView::Day(_, _, _) => place,
            },
    )
}

/// The search goes on, has found the log, or ends because a directory cannot be read.
pub enum Outcome {
    GoesOn,
    Found(FoundView),
    Ends,
}

/// What the search in the directories of months comes to, from the last to the first.
pub open spec fn search_months(tree: Tree, needle: Seq<char>, months: Seq<PlaceView>) -> Outcome
    decreases months.len(),
{
    if months.len() == 0 {
        Outcome::GoesOn
    } else {
        match tree(months.last()) {
            None => Outcome::Ends,
            Some(names) => match log_of_days(
                tree,
                needle,
                places_in(months.last(), oldest_first(names)),
            ) {
                Some(found) => Outcome::Found(found),
                None => search_months(tree, needle, months.drop_last()),
            },
        }
    }
}

/// What the search in the directories of years comes to, from the last to the first.
pub open spec fn search_years(tree: Tree, needle: Seq<char>, years: Seq<PlaceView>) -> Outcome
    decreases years.len(),
{
    if years.len() == 0 {
        Outcome::GoesOn
    } else {
        match tree(years.last()) {
            None => Outcome::Ends,
            Some(names) => match search_months(
                tree,
                needle,
                places_in(years.last(), oldest_first(names)),
            ) {
                Outcome::GoesOn => search_years(tree, needle, years.drop_last()),
                ended => ended,
            },
        }
    }
}

/// The event log of a session: the newest years, months and days are searched first. A year or a
/// month that cannot be read ends the search.
pub open spec fn rollout_in(tree: Tree, session_id: Seq<char>) -> Option<FoundView> {
    match tree(PlaceView::Base) {
        None => None,
        Some(names) => match search_years(
            tree,
            log_needle(session_id),
            places_in(PlaceView::Base, oldest_first(names)),
        ) {
            Outcome::Found(found) => Some(found),
            _ => None,
        },
    }
}

/// What is still to be searched: each list from its end on, first the days, then the months, then
/// the years.
pub struct RolloutSearch {
    pub needle: String,
    pub years: Vec<Place>,
    pub months: Vec<Place>,
    pub days: Vec<Place>,
}

/// What is to be done next.
pub enum SearchStep {
    /// The names in a directory are to be listed.
    List(ListStage),
    /// The search is over: the file is in the directory of a day, or there is none.
    Finished(Option<(Place, String)>),
}

/// The names in the directory are to be listed.
pub struct ListStage {
    pub search: RolloutSearch,
    pub place: Place,
}

/// What a `RolloutSearch` says.
#[verifier::ext_equal]
pub struct SearchView {
    pub needle: Seq<char>,
    pub years: Seq<PlaceView>,
    pub months: Seq<PlaceView>,
    pub days: Seq<PlaceView>,
}

/// What a `SearchStep` says.
pub enum StepView {
    List(SearchView, PlaceView),
    Finished(Option<FoundView>),
}

/// What the places say.
pub open spec fn place_views(places: Seq<Place>) -> Seq<PlaceView> {
    places.map_values(|place: Place| place@)
}

impl View for RolloutSearch {
    type V = SearchView;

    open spec fn view(&self) -> SearchView {
        SearchView {
            needle: self.needle@,
            years: place_views(self.years@),
            months: place_views(self.months@),
            days: place_views(self.days@),
        }
    }
}

impl View for SearchStep {
    type V = StepView;

    open spec fn view(&self) -> StepView {
        match self {
            SearchStep::List(stage) => StepView::List(stage.search@, stage.place@),
            SearchStep::Finished(Some((place, name))) => StepView::Finished(
                Some(FoundView { day: place@, name: name@ }),
            ),
            SearchStep::Finished(None) => StepView::Finished(None),
        }
    }
}

impl SearchView {
    /// The search for the event log of a session, before anything is listed.
    pub open spec fn start(session_id: Seq<char>) -> SearchView {
        SearchView {
            needle: log_needle(session_id),
            years: Seq::empty(),
            months: Seq::empty(),
            days: Seq::empty(),
        }
    }

    /// Each list holds directories of its kind.
    pub open spec fn wf(self) -> bool {
        &&& forall|i: int| 0 <= i < self.years.len() ==> (#[trigger] self.years[i]) is Year
        &&& forall|i: int| 0 <= i < self.months.len() ==> (#[trigger] self.months[i]) is Month
        &&& forall|i: int| 0 <= i < self.days.len() ==> (#[trigger] self.days[i]) is Day
    }

    /// The directory is the newest that is left: those of its kind that are newer have been
    /// searched, and so has what they hold.
    pub open spec fn wf_at(self, place: PlaceView) -> bool {
        &&& self.wf()
        &&& match place {
            PlaceView::Base => self.years.len() == 0 && self.months.len() == 0
                && self.days.len() == 0,
            PlaceView::Year(_) => self.months.len() == 0 && self.days.len() == 0,
            PlaceView::Month(_, _) => self.days.len() == 0,
            PlaceView::Day(_, _, _) => true,
        }
    }

    /// Goes on with the newest directory that is left.
    pub open spec fn newest_left(self) -> StepView {
        if self.days.len() > 0 {
            StepView::List(
                SearchView { days: self.days.drop_last(), ..self },
                self.days.last(),
            )
        } else if self.months.len() > 0 {
            StepView::List(
                SearchView { months: self.months.drop_last(), ..self },
                self.months.last(),
            )
        } else if self.years.len() > 0 {
            StepView::List(
                SearchView { years: self.years.drop_last(), ..self },
                self.years.last(),
            )
        } else {
            StepView::Finished(None)
        }
    }

    /// The step after the names in a directory were listed, or it turned out that it cannot be
    /// read. In the directory of a day the first name that holds the needle is the log; what is in
    /// another directory is searched next. A day that cannot be read is passed over, another
    /// directory ends the search.
    pub open spec fn after_listing(
        self,
        place: PlaceView,
        names: Option<Seq<Seq<char>>>,
    ) -> StepView {
        match (place, names) {
            (PlaceView::Day(_, _, _), None) => self.newest_left(),
            (_, None) => StepView::Finished(None),
            (PlaceView::Day(_, _, _), Some(found)) => match first_holding(found, self.needle, 0) {
                Some(i) => StepView::Finished(Some(FoundView { day: place, name: found[i] })),
                None => self.newest_left(),
            },
            (PlaceView::Base, Some(found)) => (SearchView {
                years: places_in(place, oldest_first(found)),
                ..self
            }).newest_left(),
            (PlaceView::Year(_), Some(found)) => (SearchView {
                months: places_in(place, oldest_first(found)),
                ..self
            }).newest_left(),
            (PlaceView::Month(_, _), Some(found)) => (SearchView {
                days: places_in(place, oldest_first(found)),
                ..self
            }).newest_left(),
        }
    }

    /// What the rest of the search comes to.
    pub open spec fn rest(self, tree: Tree) -> Option<FoundView> {
        match log_of_days(tree, self.needle, self.days) {
            Some(found) => Some(found),
            None => match search_months(tree, self.needle, self.months) {
                Outcome::Found(found) => Some(found),
                Outcome::Ends => None,
                Outcome::GoesOn => match search_years(tree, self.needle, self.years) {
                    Outcome::Found(found) => Some(found),
                    _ => None,
                },
            },
        }
    }

    /// What the search comes to, where the given directory is the next.
    pub open spec fn outcome(self, place: PlaceView, tree: Tree) -> Option<FoundView> {
        match place {
            PlaceView::Base => match tree(place) {
                None => None,
                Some(names) => (SearchView {
                    years: places_in(place, oldest_first(names)),
                    ..self
                }).rest(tree),
            },
            PlaceView::Year(_) => (SearchView { years: self.years.push(place), ..self }).rest(tree),
            PlaceView::Month(_, _) => (SearchView {
                months: self.months.push(place),
                ..self
            }).rest(tree),
            PlaceView::Day(_, _, _) => (SearchView { days: self.days.push(place), ..self }).rest(
                tree,
            ),
        }
    }

    /// How much is left to list: whether the directory of all logs is, and how many directories
    /// of years, of months and of days are, the given one counted.
    pub open spec fn left(self, place: PlaceView) -> (nat, nat, nat, nat) {
        (
            if place is Base {
                1
            } else {
                0
            },
            self.years.len() + if place is Year {
                1nat
            } else {
                0
            },
            self.months.len() + if place is Month {
                1nat
            } else {
                0
            },
            self.days.len() + if place is Day {
                1nat
            } else {
                0
            },
        )
    }
}

/// Less is left: compared part by part, from the first on.
pub open spec fn less_left(a: (nat, nat, nat, nat), b: (nat, nat, nat, nat)) -> bool {
    ||| a.0 < b.0
    ||| a.0 == b.0 && a.1 < b.1
    ||| a.0 == b.0 && a.1 == b.1 && a.2 < b.2
    ||| a.0 == b.0 && a.1 == b.1 && a.2 == b.2 && a.3 < b.3
}

impl StepView {
    /// A directory that is to be listed is the newest that is left.
    pub open spec fn wf(self) -> bool {
        match self {
            StepView::List(search, place) => search.wf_at(place),
            StepView::Finished(_) => true,
        }
    }

    /// What the search comes to.
    pub open spec fn outcome(self, tree: Tree) -> Option<FoundView> {
        match self {
            StepView::List(search, place) => search.outcome(place, tree),
            StepView::Finished(found) => found,
        }
    }
}

proof fn lemma_pushed(places: Seq<PlaceView>)
    requires
        places.len() > 0,
    ensures
        places.drop_last().push(places.last()) == places,
{
    assert(places.drop_last().push(places.last()) =~= places);
}

/// Going on with the newest directory that is left comes to what the rest does.
proof fn lemma_newest_left(search: SearchView, tree: Tree)
    requires
        search.wf(),
    ensures
        search.newest_left().wf(),
        search.newest_left().outcome(tree) == search.rest(tree),
{
    if search.days.len() > 0 {
        lemma_pushed(search.days);
        assert(search.days[search.days.len() - 1] is Day);
        let next = SearchView { days: search.days.drop_last(), ..search };
        assert(next.wf());
    } else if search.months.len() > 0 {
        lemma_pushed(search.months);
        assert(search.months[search.months.len() - 1] is Month);
        let next = SearchView { months: search.months.drop_last(), ..search };
        assert(next.wf());
    } else if search.years.len() > 0 {
        lemma_pushed(search.years);
        assert(search.years[search.years.len() - 1] is Year);
        let next = SearchView { years: search.years.drop_last(), ..search };
        assert(next.wf());
    }
}

/// Whatever the directories hold, a listing of one of them leaves what the search comes to as it
/// is.
pub proof fn listing_keeps_the_outcome(search: SearchView, place: PlaceView, tree: Tree)
    requires
        search.wf_at(place),
    ensures
        search.after_listing(place, tree(place)).wf(),
        search.after_listing(place, tree(place)).outcome(tree) == search.outcome(place, tree),
{
    assert(search.years.push(place).last() == place);
    assert(search.years.push(place).drop_last() =~= search.years);
    assert(search.months.push(place).last() == place);
    assert(search.months.push(place).drop_last() =~= search.months);
    assert(search.days.push(place).last() == place);
    assert(search.days.push(place).drop_last() =~= search.days);
    match tree(place) {
        None => {
            if place is Day {
                lemma_newest_left(search, tree);
            }
        },
        Some(names) => {
            let found = places_in(place, oldest_first(names));
            match place {
                PlaceView::Day(_, _, _) => {
                    lemma_newest_left(search, tree);
                },
                PlaceView::Base => {
                    let next = SearchView { years: found, ..search };
                    assert(next.wf());
                    lemma_newest_left(next, tree);
                },
                PlaceView::Year(_) => {
                    let next = SearchView { months: found, ..search };
                    assert(next.wf());
                    lemma_newest_left(next, tree);
                },
                PlaceView::Month(_, _) => {
                    let next = SearchView { days: found, ..search };
                    assert(next.wf());
                    lemma_newest_left(next, tree);
                },
            }
        },
    }
}

/// With every listing less is left to list.
pub proof fn listing_makes_progress(
    search: SearchView,
    place: PlaceView,
    names: Option<Seq<Seq<char>>>,
)
    requires
        search.wf_at(place),
    ensures
        search.after_listing(place, names).wf(),
        search.after_listing(place, names) matches StepView::List(next, inner) ==> less_left(
            next.left(inner),
            search.left(place),
        ),
{
    let tree: Tree = |p: PlaceView| names;
    listing_keeps_the_outcome(search, place, tree);
    assert(tree(place) == names);
    if search.years.len() > 0 {
        assert(search.years[search.years.len() - 1] is Year);
    }
    if search.months.len() > 0 {
        assert(search.months[search.months.len() - 1] is Month);
    }
    if search.days.len() > 0 {
        assert(search.days[search.days.len() - 1] is Day);
    }
}

/// What a search comes to in which every directory is listed in turn.
pub open spec fn searched(search: SearchView, place: PlaceView, tree: Tree) -> Option<FoundView>
    decreases
            search.left(place).0,
            search.left(place).1,
            search.left(place).2,
            search.left(place).3,
        when search.wf_at(place)
{
    proof {
        listing_makes_progress(search, place, tree(place));
    }
    match search.after_listing(place, tree(place)) {
        StepView::List(next, inner) => searched(next, inner, tree),
        StepView::Finished(found) => found,
    }
}

proof fn lemma_searched(search: SearchView, place: PlaceView, tree: Tree)
    requires
        search.wf_at(place),
    ensures
        searched(search, place, tree) == search.outcome(place, tree),
    decreases
            search.left(place).0,
            search.left(place).1,
            search.left(place).2,
            search.left(place).3,
{
    listing_keeps_the_outcome(search, place, tree);
    listing_makes_progress(search, place, tree(place));
    if let StepView::List(next, inner) = search.after_listing(place, tree(place)) {
        lemma_searched(next, inner, tree);
    }
}

/// A search, with each listing answered as the directories stand, comes to an end, and finds the
/// event log that `rollout_in` says they hold for the session.
pub proof fn search_ends_with_the_log(tree: Tree, session_id: Seq<char>)
    ensures
        searched(SearchView::start(session_id), PlaceView::Base, tree) == rollout_in(
            tree,
            session_id,
        ),
{
    let start = SearchView::start(session_id);
    lemma_searched(start, PlaceView::Base, tree);
    assert(start.days.len() == 0 && start.months.len() == 0);
}

impl RolloutSearch {
    /// Goes on with the newest directory that is left.
    fn next(self) -> (r: SearchStep)
        ensures
            r@ == self@.newest_left(),
    {
        let mut search = self;
        let ghost before = self@;
        if let Some(place) = search.days.pop() {
            assert(place@ == before.days.last());
            assert(search@ =~= (SearchView { days: before.days.drop_last(), ..before }));
            SearchStep::List(ListStage { search, place })
        } else if let Some(place) = search.months.pop() {
            assert(place@ == before.months.last());
            assert(search@ =~= (SearchView { months: before.months.drop_last(), ..before }));
            SearchStep::List(ListStage { search, place })
        } else if let Some(place) = search.years.pop() {
            assert(place@ == before.years.last());
            assert(search@ =~= (SearchView { years: before.years.drop_last(), ..before }));
            SearchStep::List(ListStage { search, place })
        } else {
            SearchStep::Finished(None)
        }
    }
}

impl ListStage {
    /// The directory is the newest that is left.
    pub open spec fn wf(self) -> bool {
        self.search@.wf_at(self.place@)
    }

    /// The names in the directory were listed, or it cannot be read.
    pub fn listed(self, names: Option<Vec<String>>) -> (r: SearchStep)
        requires
            self.wf(),
        ensures
            r@ == self.search@.after_listing(self.place@, listing(names)),
            r@.wf(),
            r@ matches StepView::List(next, inner) ==> less_left(
                next.left(inner),
                self.search@.left(self.place@),
            ),
            forall|tree: Tree| #[trigger]
                tree(self.place@) == listing(names) ==> r@.outcome(tree) == self.search@.outcome(
                    self.place@,
                    tree,
                ),
    {
        proof {
            listing_makes_progress(self.search@, self.place@, listing(names));
            assert forall|tree: Tree| #[trigger]
                tree(self.place@) == listing(names) implies self.search@.after_listing(
                self.place@,
                listing(names),
            ).outcome(tree) == self.search@.outcome(self.place@, tree) by {
                listing_keeps_the_outcome(self.search@, self.place@, tree);
            }
        }
        match self.place {
            Place::Day(_, _, _) => self.listed_day(names),
            _ => self.listed_directories(names),
        }
    }

    /// The names in the directory of a day were listed.
    fn listed_day(self, names: Option<Vec<String>>) -> (r: SearchStep)
        requires
            self.place is Day,
        ensures
            r@ == self.search@.after_listing(self.place@, listing(names)),
    {
        if let Some(found) = names {
            let ghost all = text::texts(found@);
            for i in 0..found.len()
                invariant
                    all == text::texts(found@),
                    names == Some(found),
                    self.place is Day,
                    first_holding(all, self.search.needle@, 0) == first_holding(
                        all,
                        self.search.needle@,
                        i as int,
                    ),
            {
                assert(all[i as int] == found@[i as int]@);
                if text::contains(found[i].as_str(), self.search.needle.as_str()) {
                    return SearchStep::Finished(Some((self.place, found[i].clone())));
                }
            }
        }
        self.search.next()
    }

    /// The names in another directory were listed.
    fn listed_directories(self, names: Option<Vec<String>>) -> (r: SearchStep)
        requires
            !(self.place is Day),
        ensures
            r@ == self.search@.after_listing(self.place@, listing(names)),
    {
        let found = match names {
            Some(found) => found,
            None => {
                return SearchStep::Finished(None);
            },
        };
        let sorted = sort_names(found);
        let places = enter(&self.place, sorted);
        let mut search = self.search;
        match self.place {
            Place::Base => {
                search.years = places;
            },
            Place::Year(_) => {
                search.months = places;
            },
            _ => {
                search.days = places;
            },
        }
        search.next()
    }
}

/// The names that were listed.
pub open spec fn listing(names: Option<Vec<String>>) -> Option<Seq<Seq<char>>> {
    match names {
        Some(found) => Some(text::texts(found@)),
        None => None,
    }
}

/// The directories of the given names in a directory.
fn enter(place: &Place, names: Vec<String>) -> (r: Vec<Place>)
    requires
        !(place is Day),
    ensures
        place_views(r@) == places_in(place@, text::texts(names@)),
{
    let ghost wanted = places_in(place@, text::texts(names@));
    let mut r: Vec<Place> = Vec::new();
    for name in it: names
        invariant
            !(place is Day),
            it.seq() == names@,
            wanted == places_in(place@, text::texts(names@)),
            place_views(r@) == wanted.take(it.index() as int),
    {
        let ghost before = r@;
        let inner = match place {
            Place::Base => Place::Year(name),
            Place::Year(year) => Place::Month(year.clone(), name),
            Place::Month(year, month) => Place::Day(year.clone(), month.clone(), name),
            Place::Day(year, month, day) => Place::Day(year.clone(), month.clone(), day.clone()),
        };
        assert(inner@ == wanted[it.index() as int]);
        r.push(inner);
        assert(place_views(r@) =~= place_views(before).push(inner@));
        assert(wanted.take(it.index() + 1) =~= wanted.take(it.index() as int).push(inner@));
    }
    assert(wanted.take(wanted.len() as int) =~= wanted);
    r
}

/// Begins the search for the event log of a session, below the directory of all event logs.
pub fn locate_rollout_file(session_id: &str) -> (r: SearchStep)
    ensures
        r@ == StepView::List(SearchView::start(session_id@), PlaceView::Base),
        r@.wf(),
        forall|tree: Tree| #[trigger] r@.outcome(tree) == rollout_in(tree, session_id@),
{
    let mut needle = session_id.to_owned();
    needle.append(".jsonl");
    let search = RolloutSearch {
        needle,
        years: Vec::new(),
        months: Vec::new(),
        days: Vec::new(),
    };
    assert(search@ =~= SearchView::start(session_id@));
    SearchStep::List(ListStage { search, place: Place::Base })
}

} // verus!
