//! Which of two versions is the newer one.

use crate::text;
use vstd::prelude::*;

verus! {

// ---------------------------------------------------------------------------
// The numbers of a version
// ---------------------------------------------------------------------------

/// The parts of a text between dots.
pub open spec fn parts_of(s: Seq<char>) -> Seq<Seq<char>>
    decreases s.len(),
{
    let end = text::first_position(s, '.');
    if 0 <= end < s.len() {
        seq![s.take(end)] + parts_of(s.skip(end + 1))
    } else {
        seq![s]
    }
}

/// The decimal digits that a text begins with.
pub open spec fn leading_digits(s: Seq<char>) -> Seq<char>
    decreases s.len(),
{
    if s.len() > 0 && text::is_digit(s[0]) {
        seq![s[0]] + leading_digits(s.drop_first())
    } else {
        Seq::empty()
    }
}

/// The name of a version without the `v` before it.
pub open spec fn without_v(name: Seq<char>) -> Seq<char> {
    if name.len() > 0 && name[0] == 'v' {
        name.drop_first()
    } else {
        name
    }
}

/// The number that a part of a version begins with; zero where it begins with none.
pub open spec fn number_of(part: Seq<char>) -> nat {
    text::digits_value(leading_digits(part))
}

/// The numbers of a version: those between the dots, after the `v`.
pub open spec fn numbers_of(name: Seq<char>) -> Seq<nat> {
    parts_of(without_v(name)).map_values(|part: Seq<char>| number_of(part))
}

// ---------------------------------------------------------------------------
// The order of versions
// ---------------------------------------------------------------------------

/// One list of numbers comes before another, compared one by one from the first on.
pub open spec fn numbers_before(a: Seq<nat>, b: Seq<nat>) -> bool
    decreases a.len(),
{
    if b.len() == 0 {
        false
    } else if a.len() == 0 {
        true
    } else if a[0] != b[0] {
        a[0] < b[0]
    } else {
        numbers_before(a.drop_first(), b.drop_first())
    }
}

/// One version is older than another: by its numbers, or by its name where these are the same.
pub open spec fn is_older(a: Seq<char>, b: Seq<char>) -> bool {
    ||| numbers_before(numbers_of(a), numbers_of(b))
    ||| numbers_of(a) == numbers_of(b) && text::comes_before(a, b)
}

proof fn lemma_numbers_strict(a: Seq<nat>, b: Seq<nat>)
    ensures
        !(numbers_before(a, b) && numbers_before(b, a)),
        a == b ==> !numbers_before(a, b),
    decreases a.len(),
{
    if a.len() > 0 && b.len() > 0 {
        lemma_numbers_strict(a.drop_first(), b.drop_first());
    }
}

proof fn lemma_numbers_total(a: Seq<nat>, b: Seq<nat>)
    requires
        a != b,
    ensures
        numbers_before(a, b) || numbers_before(b, a),
    decreases a.len(),
{
    if a.len() == 0 || b.len() == 0 {
        assert(a.len() == 0 && b.len() == 0 ==> a =~= b);
    } else if a[0] == b[0] {
        if a.drop_first() == b.drop_first() {
            assert(a =~= seq![a[0]] + a.drop_first());
            assert(b =~= seq![b[0]] + b.drop_first());
        }
        lemma_numbers_total(a.drop_first(), b.drop_first());
    }
}

proof fn lemma_numbers_transitive(a: Seq<nat>, b: Seq<nat>, c: Seq<nat>)
    requires
        numbers_before(a, b),
        numbers_before(b, c),
    ensures
        numbers_before(a, c),
    decreases a.len(),
{
    if a.len() > 0 && a[0] == b[0] && b[0] == c[0] {
        lemma_numbers_transitive(a.drop_first(), b.drop_first(), c.drop_first());
    }
}

/// No version is older than itself, and of two versions only one is older than the other.
pub proof fn age_is_strict(a: Seq<char>, b: Seq<char>)
    ensures
        !(is_older(a, b) && is_older(b, a)),
        a == b ==> !is_older(a, b),
{
    lemma_numbers_strict(numbers_of(a), numbers_of(b));
    lemma_numbers_strict(numbers_of(b), numbers_of(a));
    text::order_is_strict(a, b);
}

/// Of two different versions one is older than the other.
pub proof fn age_is_total(a: Seq<char>, b: Seq<char>)
    requires
        a != b,
    ensures
        is_older(a, b) || is_older(b, a),
{
    if numbers_of(a) != numbers_of(b) {
        lemma_numbers_total(numbers_of(a), numbers_of(b));
    } else {
        text::order_is_total(a, b);
    }
}

/// What is older than a version is older than all that the version is older than.
pub proof fn age_is_transitive(a: Seq<char>, b: Seq<char>, c: Seq<char>)
    requires
        is_older(a, b),
        is_older(b, c),
    ensures
        is_older(a, c),
{
    let (x, y, z) = (numbers_of(a), numbers_of(b), numbers_of(c));
    if numbers_before(x, y) && numbers_before(y, z) {
        lemma_numbers_transitive(x, y, z);
    } else if x == y && y == z {
        text::order_is_transitive(a, b, c);
    }
}

// ---------------------------------------------------------------------------
// Comparing versions
// ---------------------------------------------------------------------------

/// How one number is to another.
#[derive(Clone, Copy, Debug, PartialEq, Eq, Structural)]
enum Relation {
    Less,
    Same,
    More,
}

impl Relation {
    /// The first number is so to the second.
    spec fn holds(self, a: nat, b: nat) -> bool {
        match self {
            Relation::Less => a < b,
            Relation::Same => a == b,
            Relation::More => a > b,
        }
    }
}

/// All characters are decimal digits.
spec fn all_digits(s: Seq<char>) -> bool {
    forall|i: int| 0 <= i < s.len() ==> text::is_digit(#[trigger] s[i])
}

/// How far into digits one is that are moved to the right by so many places.
spec fn reached(k: int, moved: int) -> int {
    if k > moved {
        k - moved
    } else {
        0
    }
}

/// The digit at a place, where the digits are moved to the right by so many places; zero before
/// them.
fn digit_at(digits: &Vec<char>, moved: usize, k: usize) -> (r: u8)
    requires
        all_digits(digits@),
        k < digits@.len() + moved,
    ensures
        r <= 9,
        text::digits_value(digits@.take(reached(k + 1, moved as int))) == text::digits_value(
            digits@.take(reached(k as int, moved as int)),
        ) * 10 + r,
{
    if k < moved {
        assert(digits@.take(0) =~= Seq::empty());
        0
    } else {
        let i: usize = k - moved;
        let c = digits[i];
        assert(text::is_digit(digits@[i as int]));
        assert(digits@.take(i + 1).drop_last() =~= digits@.take(i as int));
        (c as u8) - 48
    }
}

/// How the number of one text of digits is to that of another.
fn relate_numbers(a: &Vec<char>, b: &Vec<char>) -> (r: Relation)
    requires
        all_digits(a@),
        all_digits(b@),
    ensures
        r.holds(text::digits_value(a@), text::digits_value(b@)),
{
    let length: usize = if a.len() > b.len() {
        a.len()
    } else {
        b.len()
    };
    let moved_a: usize = length - a.len();
    let moved_b: usize = length - b.len();
    let mut r = Relation::Same;
    assert(a@.take(0) =~= b@.take(0));
    for k in 0..length
        invariant
            all_digits(a@),
            all_digits(b@),
            moved_a + a@.len() == length,
            moved_b + b@.len() == length,
            r.holds(
                text::digits_value(a@.take(reached(k as int, moved_a as int))),
                text::digits_value(b@.take(reached(k as int, moved_b as int))),
            ),
    {
        let x = digit_at(a, moved_a, k);
        let y = digit_at(b, moved_b, k);
        if let Relation::Same = r {
            r = if x < y {
                Relation::Less
            } else if x > y {
                Relation::More
            } else {
                Relation::Same
            };
        }
    }
    assert(a@.take(reached(length as int, moved_a as int)) =~= a@);
    assert(b@.take(reached(length as int, moved_b as int)) =~= b@);
    r
}

/// The characters from a position on, as far as they are decimal digits.
fn digits_from(chars: &Vec<char>, from: usize, to: usize) -> (r: Vec<char>)
    requires
        from <= to <= chars@.len(),
    ensures
        r@ == leading_digits(chars@.subrange(from as int, to as int)),
        all_digits(r@),
{
    let ghost part = chars@.subrange(from as int, to as int);
    let mut r: Vec<char> = Vec::new();
    let mut i: usize = from;
    assert(part.skip(0) =~= part);
    assert(r@ + leading_digits(part) =~= leading_digits(part));
    while i < to && '0' <= chars[i] && chars[i] <= '9'
        invariant
            from <= i <= to <= chars@.len(),
            part == chars@.subrange(from as int, to as int),
            all_digits(r@),
            r@ + leading_digits(part.skip(i - from)) == leading_digits(part),
        decreases to - i,
    {
        let ghost rest = part.skip(i - from);
        let ghost before = r@;
        assert(rest[0] == chars@[i as int]);
        assert(rest.drop_first() =~= part.skip(i - from + 1));
        r.push(chars[i]);
        assert(r@ + leading_digits(rest.drop_first()) =~= before + leading_digits(rest));
        i = i + 1;
    }
    assert(leading_digits(part.skip(i - from)) =~= Seq::empty());
    assert(r@ =~= leading_digits(part));
    r
}

/// The digits that each part of a version begins with.
fn digit_parts(name: &str) -> (r: Vec<Vec<char>>)
    ensures
        r@.len() == numbers_of(name@).len(),
        forall|i: int|
            0 <= i < r@.len() ==> all_digits((#[trigger] r@[i])@) && text::digits_value(r@[i]@)
                == numbers_of(name@)[i],
{
    let chars = text::chars_of(name);
    let start: usize = if chars.len() > 0 && chars[0] == 'v' {
        1
    } else {
        0
    };
    let ghost all = parts_of(without_v(name@));
    let ghost mut done: Seq<Seq<char>> = Seq::empty();
    let mut r: Vec<Vec<char>> = Vec::new();
    let mut from: usize = start;
    let mut more: bool = true;
    assert(chars@.skip(start as int) =~= without_v(name@));
    assert(done + parts_of(without_v(name@)) =~= all);
    while more
        invariant
            from <= chars@.len(),
            all == parts_of(without_v(name@)),
            more ==> done + parts_of(chars@.skip(from as int)) == all,
            !more ==> done == all,
            r@.len() == done.len(),
            forall|i: int|
                0 <= i < r@.len() ==> all_digits((#[trigger] r@[i])@) && r@[i]@ == leading_digits(
                    done[i],
                ),
        decreases chars@.len() - from + if more {
            1int
        } else {
            0
        },
    {
        let ghost rest = chars@.skip(from as int);
        let ghost before = done;
        let mut end: usize = from;
        while end < chars.len() && chars[end] != '.'
            invariant
                from <= end <= chars@.len(),
                forall|k: int| from <= k < end ==> chars@[k] != '.',
            decreases chars@.len() - end,
        {
            end = end + 1;
        }
        let digits = digits_from(&chars, from, end);
        let ghost part = chars@.subrange(from as int, end as int);
        proof {
            text::lemma_first_position(rest, '.', end - from);
            assert(rest.take(end - from) =~= part);
            done = done.push(part);
        }
        let ghost kept = r@;
        r.push(digits);
        assert forall|i: int| 0 <= i < r@.len() implies all_digits((#[trigger] r@[i])@) && r@[i]@
            == leading_digits(done[i]) by {
            if i < kept.len() {
                assert(r@[i] == kept[i]);
                assert(done[i] == before[i]);
            }
        }
        if end < chars.len() {
            assert(rest.skip(end - from + 1) =~= chars@.skip(end + 1));
            assert(before + parts_of(rest) =~= done + parts_of(chars@.skip(end + 1)));
            from = end + 1;
        } else {
            assert(rest =~= part);
            assert(before + parts_of(rest) =~= done);
            more = false;
        }
    }
    assert(numbers_of(name@) =~= all.map_values(|part: Seq<char>| number_of(part)));
    r
}

/// Whether one version is older than another.
pub fn older(a: &str, b: &str) -> (r: bool)
    ensures
        r == is_older(a@, b@),
{
    let x = digit_parts(a);
    let y = digit_parts(b);
    let ghost na = numbers_of(a@);
    let ghost nb = numbers_of(b@);
    let mut i: usize = 0;
    assert(na.skip(0) =~= na);
    assert(nb.skip(0) =~= nb);
    while i < x.len() && i < y.len()
        invariant
            i <= x@.len(),
            i <= y@.len(),
            na == numbers_of(a@),
            nb == numbers_of(b@),
            x@.len() == na.len(),
            y@.len() == nb.len(),
            forall|k: int|
                0 <= k < x@.len() ==> all_digits((#[trigger] x@[k])@) && text::digits_value(
                    x@[k]@,
                ) == na[k],
            forall|k: int|
                0 <= k < y@.len() ==> all_digits((#[trigger] y@[k])@) && text::digits_value(
                    y@[k]@,
                ) == nb[k],
            forall|k: int| 0 <= k < i ==> na[k] == nb[k],
            numbers_before(na.skip(i as int), nb.skip(i as int)) == numbers_before(na, nb),
        decreases x@.len() - i,
    {
        assert(na.skip(i as int)[0] == na[i as int]);
        assert(nb.skip(i as int)[0] == nb[i as int]);
        match relate_numbers(&x[i], &y[i]) {
            Relation::Less => {
                return true;
            },
            Relation::More => {
                return false;
            },
            Relation::Same => {},
        }
        assert(na.skip(i as int).drop_first() =~= na.skip(i + 1));
        assert(nb.skip(i as int).drop_first() =~= nb.skip(i + 1));
        i = i + 1;
    }
    if x.len() != y.len() {
        return x.len() < y.len();
    }
    assert(na =~= nb);
    text::precedes(a, b)
}

proof fn lemma_all_leading(s: Seq<char>)
    requires
        forall|i: int| 0 <= i < s.len() ==> text::is_digit(#[trigger] s[i]),
    ensures
        leading_digits(s) == s,
    decreases s.len(),
{
    if s.len() > 0 {
        assert(text::is_digit(s[0]));
        assert forall|i: int| 0 <= i < s.drop_first().len() implies text::is_digit(
            #[trigger] s.drop_first()[i],
        ) by {
            assert(s.drop_first()[i] == s[i + 1]);
        }
        lemma_all_leading(s.drop_first());
        assert(seq![s[0]] + s.drop_first() =~= s);
    } else {
        assert(s =~= Seq::empty());
    }
}

proof fn lemma_digits_of(n: nat)
    ensures
        forall|i: int|
            0 <= i < text::decimal_of(n).len() ==> text::is_digit(
                #[trigger] text::decimal_of(n)[i],
            ),
        forall|i: int| 0 <= i < text::decimal_of(n).len() ==> text::decimal_of(n)[i] != '.',
        text::decimal_of(n).len() > 0,
        number_of(text::decimal_of(n)) == n,
    decreases n,
{
    text::lemma_decimal_digits(n);
    lemma_all_leading(text::decimal_of(n));
    assert forall|i: int| 0 <= i < text::decimal_of(n).len() implies text::decimal_of(n)[i]
        != '.' by {
        assert(text::is_digit(text::decimal_of(n)[i]));
    }
}

proof fn lemma_parts(first: Seq<char>, rest: Seq<char>)
    requires
        forall|i: int| 0 <= i < first.len() ==> first[i] != '.',
    ensures
        parts_of(first + seq!['.'] + rest) == seq![first] + parts_of(rest),
        parts_of(first) == seq![first],
{
    let s = first + seq!['.'] + rest;
    let n = first.len() as int;
    assert forall|k: int| 0 <= k < n implies s[k] != '.' by {
        assert(s[k] == first[k]);
    }
    text::lemma_first_position(s, '.', n);
    text::lemma_first_position(first, '.', n);
    assert(s.take(n) =~= first);
    assert(s.skip(n + 1) =~= rest);
}

/// The name of a version of three numbers.
pub open spec fn version_name(major: nat, minor: nat, patch: nat) -> Seq<char> {
    seq!['v'] + (text::decimal_of(major) + seq!['.'] + (text::decimal_of(minor) + seq!['.']
        + text::decimal_of(patch)))
}

proof fn lemma_three_numbers(major: nat, minor: nat, patch: nat)
    ensures
        numbers_of(version_name(major, minor, patch)) == seq![major, minor, patch],
{
    let name = version_name(major, minor, patch);
    lemma_digits_of(major);
    lemma_digits_of(minor);
    lemma_digits_of(patch);
    let behind = text::decimal_of(minor) + seq!['.'] + text::decimal_of(patch);
    assert(without_v(name) =~= text::decimal_of(major) + seq!['.'] + behind);
    lemma_parts(text::decimal_of(major), behind);
    lemma_parts(text::decimal_of(minor), text::decimal_of(patch));
    lemma_parts(text::decimal_of(patch), Seq::empty());
    assert(parts_of(without_v(name)) =~= seq![
        text::decimal_of(major),
        text::decimal_of(minor),
        text::decimal_of(patch),
    ]);
    assert(numbers_of(name) =~= seq![major, minor, patch]);
}

/// Of two versions of three numbers the one is older whose first number is smaller; where these are
/// the same, whose second is; and then whose third is.
pub proof fn smaller_numbers_are_older(
    a: &str,
    b: &str,
    r: bool,
    major: nat,
    minor: nat,
    patch: nat,
    other_major: nat,
    other_minor: nat,
    other_patch: nat,
)
    requires
        call_ensures(older, (a, b), r),
        a@ == version_name(major, minor, patch),
        b@ == version_name(other_major, other_minor, other_patch),
    ensures
        r <==> {
            ||| major < other_major
            ||| major == other_major && minor < other_minor
            ||| major == other_major && minor == other_minor && patch < other_patch
        },
{
    lemma_three_numbers(major, minor, patch);
    lemma_three_numbers(other_major, other_minor, other_patch);
    let x = seq![major, minor, patch];
    let y = seq![other_major, other_minor, other_patch];
    reveal_with_fuel(numbers_before, 4);
    assert(x.drop_first() =~= seq![minor, patch]);
    assert(y.drop_first() =~= seq![other_minor, other_patch]);
    assert(seq![minor, patch].drop_first() =~= seq![patch]);
    assert(seq![other_minor, other_patch].drop_first() =~= seq![other_patch]);
    assert(seq![patch].drop_first() =~= Seq::empty());
    assert(seq![other_patch].drop_first() =~= Seq::empty());
    if x == y {
        assert(x[0] == y[0] && x[1] == y[1] && x[2] == y[2]);
        text::order_is_strict(a@, b@);
        assert(a@ == b@);
    }
}

/// A part of a version: the digits that it begins with, and what stands behind them.
pub struct Part {
    pub digits: Seq<char>,
    pub rest: Seq<char>,
}

impl Part {
    /// There is no dot in the part, and the digits are all that it begins with.
    pub open spec fn wf(self) -> bool {
        &&& forall|i: int| 0 <= i < self.digits.len() ==> text::is_digit(#[trigger] self.digits[i])
        &&& forall|i: int| 0 <= i < self.rest.len() ==> self.rest[i] != '.'
        &&& self.rest.len() > 0 ==> !text::is_digit(self.rest[0])
    }
}

/// The parts with dots between them.
pub open spec fn written(parts: Seq<Part>) -> Seq<char>
    decreases parts.len(),
{
    if parts.len() == 0 {
        Seq::empty()
    } else if parts.len() == 1 {
        parts[0].digits + parts[0].rest
    } else {
        parts[0].digits + parts[0].rest + seq!['.'] + written(parts.drop_first())
    }
}

/// The name is that of a version of these parts, with or without a `v` before them.
pub open spec fn is_named(name: Seq<char>, parts: Seq<Part>) -> bool {
    &&& parts.len() > 0
    &&& forall|i: int| 0 <= i < parts.len() ==> (#[trigger] parts[i]).wf()
    &&& name == seq!['v'] + written(parts) || (name == written(parts) && (name.len() > 0
        ==> name[0] != 'v'))
}

proof fn lemma_leading(part: Part)
    requires
        part.wf(),
    ensures
        leading_digits(part.digits + part.rest) == part.digits,
    decreases part.digits.len(),
{
    let all = part.digits + part.rest;
    if part.digits.len() > 0 {
        assert(text::is_digit(part.digits[0]));
        let less = Part { digits: part.digits.drop_first(), rest: part.rest };
        assert forall|i: int| 0 <= i < less.digits.len() implies text::is_digit(
            #[trigger] less.digits[i],
        ) by {
            assert(less.digits[i] == part.digits[i + 1]);
        }
        lemma_leading(less);
        assert(all.drop_first() =~= less.digits + less.rest);
        assert(all[0] == part.digits[0]);
        assert(seq![part.digits[0]] + less.digits =~= part.digits);
    } else {
        assert(all =~= part.rest);
        assert(part.digits =~= Seq::empty());
    }
}

proof fn lemma_written(parts: Seq<Part>)
    requires
        parts.len() > 0,
        forall|i: int| 0 <= i < parts.len() ==> (#[trigger] parts[i]).wf(),
    ensures
        parts_of(written(parts)).len() == parts.len(),
        forall|i: int|
            0 <= i < parts.len() ==> #[trigger] parts_of(written(parts))[i] == parts[i].digits
                + parts[i].rest,
    decreases parts.len(),
{
    let first = parts[0].digits + parts[0].rest;
    assert(parts[0].wf());
    assert forall|i: int| 0 <= i < first.len() implies first[i] != '.' by {
        if i < parts[0].digits.len() {
            assert(text::is_digit(parts[0].digits[i]));
        } else {
            assert(first[i] == parts[0].rest[i - parts[0].digits.len()]);
        }
    }
    if parts.len() == 1 {
        lemma_parts(first, Seq::empty());
    } else {
        let others = parts.drop_first();
        assert forall|i: int| 0 <= i < others.len() implies (#[trigger] others[i]).wf() by {
            assert(others[i] == parts[i + 1]);
        }
        lemma_written(others);
        lemma_parts(first, written(others));
        assert forall|i: int| 0 <= i < parts.len() implies #[trigger] parts_of(written(parts))[i]
            == parts[i].digits + parts[i].rest by {
            if i > 0 {
                assert(parts_of(written(others))[i - 1] == others[i - 1].digits + others[i
                    - 1].rest);
            }
        }
    }
}

proof fn lemma_numbers_named(name: Seq<char>, parts: Seq<Part>)
    requires
        is_named(name, parts),
    ensures
        numbers_of(name).len() == parts.len(),
        forall|i: int|
            0 <= i < parts.len() ==> #[trigger] numbers_of(name)[i] == text::digits_value(
                parts[i].digits,
            ),
{
    lemma_written(parts);
    assert((seq!['v'] + written(parts)).drop_first() =~= written(parts));
    assert(without_v(name) == written(parts));
    assert forall|i: int| 0 <= i < parts.len() implies #[trigger] numbers_of(name)[i]
        == text::digits_value(parts[i].digits) by {
        lemma_leading(parts[i]);
        assert(parts_of(written(parts))[i] == parts[i].digits + parts[i].rest);
    }
}

proof fn lemma_first_number(a: Seq<nat>, b: Seq<nat>, i: int)
    requires
        0 <= i <= a.len(),
        i <= b.len(),
        forall|j: int| 0 <= j < i ==> a[j] == b[j],
        i < a.len() && i < b.len() ==> a[i] != b[i],
    ensures
        numbers_before(a, b) <==> i < b.len() && (i == a.len() || a[i] < b[i]),
        a == b <==> i == a.len() && i == b.len(),
    decreases i,
{
    if i > 0 {
        assert(a[0] == b[0]);
        lemma_first_number(a.drop_first(), b.drop_first(), i - 1);
    }
    if i == a.len() && i == b.len() {
        assert(a =~= b);
    } else if a == b {
        assert(a[i] == b[i]);
    }
}

/// The first number that differs decides which of two versions is older, whatever stands behind the
/// numbers, and with or without a `v` before them. Where none differs, the version of fewer numbers
/// is older; where there are as many, the one whose name comes first.
pub proof fn first_number_that_differs_decides(
    a: &str,
    b: &str,
    r: bool,
    of_a: Seq<Part>,
    of_b: Seq<Part>,
    i: int,
)
    requires
        call_ensures(older, (a, b), r),
        is_named(a@, of_a),
        is_named(b@, of_b),
        0 <= i <= of_a.len(),
        i <= of_b.len(),
        forall|j: int|
            0 <= j < i ==> text::digits_value((#[trigger] of_a[j]).digits) == text::digits_value(
                of_b[j].digits,
            ),
        i < of_a.len() && i < of_b.len() ==> text::digits_value(of_a[i].digits)
            != text::digits_value(of_b[i].digits),
    ensures
        i < of_a.len() && i < of_b.len() ==> (r <==> text::digits_value(of_a[i].digits)
            < text::digits_value(of_b[i].digits)),
        i == of_a.len() && i < of_b.len() ==> r,
        i < of_a.len() && i == of_b.len() ==> !r,
        i == of_a.len() && i == of_b.len() ==> (r <==> text::comes_before(a@, b@)),
{
    lemma_numbers_named(a@, of_a);
    lemma_numbers_named(b@, of_b);
    let x = numbers_of(a@);
    let y = numbers_of(b@);
    assert forall|j: int| 0 <= j < i implies x[j] == y[j] by {
        assert(x[j] == text::digits_value(of_a[j].digits));
        assert(y[j] == text::digits_value(of_b[j].digits));
    }
    lemma_first_number(x, y, i);
}

} // verus!
