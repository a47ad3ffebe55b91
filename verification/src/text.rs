//! Text handling on Unicode scalar values.
//!
//! Every function here is specified on the sequence of characters of a string.

use vstd::prelude::*;

verus! {

/// `String::push`: the character is appended at the end of the string.
pub assume_specification[ String::push ](s: &mut String, c: char)
    ensures
        final(s)@ == old(s)@.push(c),
;

// ---------------------------------------------------------------------------
// Characters
// ---------------------------------------------------------------------------

/// The characters with the Unicode property `White_Space`.
pub open spec fn is_white_space(c: char) -> bool {
    ||| '\u{9}' <= c <= '\u{d}'
    ||| c == '\u{20}'
    ||| c == '\u{85}'
    ||| c == '\u{a0}'
    ||| c == '\u{1680}'
    ||| '\u{2000}' <= c <= '\u{200a}'
    ||| c == '\u{2028}'
    ||| c == '\u{2029}'
    ||| c == '\u{202f}'
    ||| c == '\u{205f}'
    ||| c == '\u{3000}'
}

/// Whether `c` has the Unicode property `White_Space`.
pub fn white_space(c: char) -> (r: bool)
    ensures
        r == is_white_space(c),
{
    ('\u{9}' <= c && c <= '\u{d}') || c == '\u{20}' || c == '\u{85}' || c == '\u{a0}' || c
        == '\u{1680}' || ('\u{2000}' <= c && c <= '\u{200a}') || c == '\u{2028}' || c == '\u{2029}'
        || c == '\u{202f}' || c == '\u{205f}' || c == '\u{3000}'
}

/// `c` with an ASCII capital letter made small; every other character as it is.
pub open spec fn ascii_small(c: char) -> char {
    if 'A' <= c <= 'Z' {
        (c as u8 + 32) as char
    } else {
        c
    }
}

/// `s` with its ASCII capital letters made small.
pub open spec fn ascii_lower(s: Seq<char>) -> Seq<char> {
    s.map_values(|c: char| ascii_small(c))
}

// ---------------------------------------------------------------------------
// Conversions
// ---------------------------------------------------------------------------

/// The characters of `s`, in order.
pub fn chars_of(s: &str) -> (r: Vec<char>)
    ensures
        r@ == s@,
{
    let mut r: Vec<char> = Vec::new();
    for c in it: s.chars()
        invariant
            r@ == it.seq().take(it.index() as int),
            it.seq() == s@,
    {
        r.push(c);
    }
    r
}

/// The string whose characters are those of `v` from `from` up to, not including, `to`.
pub fn text_of(v: &Vec<char>, from: usize, to: usize) -> (r: String)
    requires
        from <= to <= v@.len(),
    ensures
        r@ == v@.subrange(from as int, to as int),
{
    let mut r = String::new();
    for i in from..to
        invariant
            from <= to <= v@.len(),
            r@ == v@.subrange(from as int, i as int),
    {
        r.push(v[i]);
    }
    r
}

/// The characters of `s` with its ASCII capital letters made small.
pub fn ascii_lower_chars(s: &str) -> (r: Vec<char>)
    ensures
        r@ == ascii_lower(s@),
{
    let mut r: Vec<char> = Vec::new();
    for c in it: s.chars()
        invariant
            r@ == ascii_lower(it.seq().take(it.index() as int)),
            it.seq() == s@,
    {
        let small = if 'A' <= c && c <= 'Z' {
            (c as u8 + 32) as char
        } else {
            c
        };
        r.push(small);
    }
    assert(s@.take(s@.len() as int) =~= s@);
    r
}

/// What `str::to_lowercase` makes of a text.
pub uninterp spec fn lowercase(s: Seq<char>) -> Seq<char>;

/// `str::to_lowercase`: the text in small letters, by the rules of Unicode. In a text of ASCII
/// characters that is the capital letters made small.
#[verifier::external_body]
pub(crate) fn to_lowercase(s: &str) -> (r: String)
    ensures
        r@ == lowercase(s@),
        (forall|i: int| 0 <= i < s@.len() ==> #[trigger] s@[i] <= '\u{7f}') ==> r@ == ascii_lower(
            s@,
        ),
{
    s.to_lowercase()
}

/// What `String::from_utf8_lossy` makes of bytes.
pub uninterp spec fn mended_text(bytes: Seq<u8>) -> Seq<char>;

/// `String::from_utf8_lossy`: the text that the bytes encode in UTF-8. Where they do not, the
/// replacement character stands for what is no part of a text; how often is left unsaid.
#[verifier::external_body]
fn mend_text(bytes: &[u8]) -> (r: String)
    ensures
        r@ == mended_text(bytes@),
        vstd::utf8::valid_utf8(bytes@) ==> r@ == vstd::utf8::decode_utf8(bytes@),
{
    String::from_utf8_lossy(bytes).into_owned()
}

/// The text that the bytes of one line encode in UTF-8, mended where they do not.
pub open spec fn line_text(bytes: Seq<u8>) -> Seq<char> {
    if vstd::utf8::valid_utf8(bytes) {
        vstd::utf8::decode_utf8(bytes)
    } else {
        mended_text(bytes)
    }
}

/// The position of the first line feed, or the length where there is none.
pub open spec fn first_feed(bytes: Seq<u8>) -> int
    decreases bytes.len(),
{
    if bytes.len() == 0 || bytes[0] == 10 {
        0
    } else {
        1 + first_feed(bytes.drop_first())
    }
}

/// The text that bytes encode in UTF-8, with each line that they do not encode mended by itself:
/// the byte of a line feed is part of no other character.
pub open spec fn lossy_text(bytes: Seq<u8>) -> Seq<char>
    decreases bytes.len(),
{
    let end = first_feed(bytes);
    if 0 <= end < bytes.len() {
        line_text(bytes.take(end)) + seq!['\n'] + lossy_text(bytes.skip(end + 1))
    } else {
        line_text(bytes)
    }
}

proof fn lemma_first_feed(bytes: Seq<u8>, at: int)
    requires
        0 <= at <= bytes.len(),
        forall|k: int| 0 <= k < at ==> bytes[k] != 10,
        at < bytes.len() ==> bytes[at] == 10,
    ensures
        first_feed(bytes) == at,
    decreases bytes.len(),
{
    if bytes.len() > 0 && at > 0 {
        lemma_first_feed(bytes.drop_first(), at - 1);
    }
}

proof fn lemma_at_first_feed(bytes: Seq<u8>)
    ensures
        0 <= first_feed(bytes) <= bytes.len(),
        first_feed(bytes) < bytes.len() ==> bytes[first_feed(bytes)] == 10,
        forall|k: int| 0 <= k < first_feed(bytes) ==> bytes[k] != 10,
    decreases bytes.len(),
{
    if bytes.len() > 0 && bytes[0] != 10 {
        let rest = bytes.drop_first();
        lemma_at_first_feed(rest);
        assert forall|k: int| 0 <= k < first_feed(bytes) implies bytes[k] != 10 by {
            if k > 0 {
                assert(bytes[k] == rest[k - 1]);
            }
        }
    }
}

/// The text that bytes encode in UTF-8, with each line mended that they do not encode.
pub fn decode_lossy(bytes: &[u8]) -> (r: String)
    ensures
        r@ == lossy_text(bytes@),
{
    let mut r = String::new();
    let mut from: usize = 0;
    assert(bytes@.skip(0) =~= bytes@);
    assert(r@ + lossy_text(bytes@) =~= lossy_text(bytes@));
    loop
        invariant
            from <= bytes@.len(),
            r@ + lossy_text(bytes@.skip(from as int)) == lossy_text(bytes@),
        decreases bytes@.len() - from,
    {
        let ghost before = r@;
        let ghost rest = bytes@.skip(from as int);
        let mut end: usize = from;
        while end < bytes.len() && bytes[end] != 10
            invariant
                from <= end <= bytes@.len(),
                forall|k: int| from <= k < end ==> bytes@[k] != 10,
            decreases bytes@.len() - end,
        {
            end = end + 1;
        }
        proof {
            lemma_first_feed(rest, end - from);
            assert(rest.take(end - from) =~= bytes@.subrange(from as int, end as int));
        }
        let line = mend_text(vstd::slice::slice_subrange(bytes, from, end));
        r.append(line.as_str());
        if end == bytes.len() {
            assert(rest.take(end - from) =~= rest);
            return r;
        }
        r.push('\n');
        proof {
            assert(rest.skip(end - from + 1) =~= bytes@.skip(end + 1));
            assert(r@ + lossy_text(bytes@.skip(end + 1)) =~= before + lossy_text(rest));
        }
        from = end + 1;
    }
}

/// The text that bytes encode in UTF-8, where they encode one.
pub open spec fn strict_text(bytes: Seq<u8>) -> Option<Seq<char>> {
    if vstd::utf8::valid_utf8(bytes) {
        Some(vstd::utf8::decode_utf8(bytes))
    } else {
        None
    }
}

/// `String::from_utf8`: the text that the bytes encode in UTF-8, where they encode one.
#[verifier::external_body]
pub(crate) fn decode_strict(bytes: Vec<u8>) -> (r: Option<String>)
    ensures
        opt_text(r) == strict_text(bytes@),
{
    String::from_utf8(bytes).ok()
}

/// Whether the two texts hold the same characters.
pub fn same_text(a: &str, b: &str) -> (r: bool)
    ensures
        r == (a@ == b@),
{
    let x = chars_of(a);
    let y = chars_of(b);
    if x.len() != y.len() {
        return false;
    }
    for i in 0..x.len()
        invariant
            x@ == a@,
            y@ == b@,
            x@.len() == y@.len(),
            forall|k: int| 0 <= k < i ==> x@[k] == y@[k],
    {
        if x[i] != y[i] {
            return false;
        }
    }
    assert(a@ =~= b@);
    true
}

// ---------------------------------------------------------------------------
// Searching
// ---------------------------------------------------------------------------

/// `needle` stands in `s` from position `i` on.
pub open spec fn occurs_at(s: Seq<char>, needle: Seq<char>, i: int) -> bool {
    0 <= i && i + needle.len() <= s.len() && s.subrange(i, i + needle.len()) == needle
}

/// `needle` stands somewhere in `s`.
pub open spec fn contains_text(s: Seq<char>, needle: Seq<char>) -> bool {
    exists|i: int| occurs_at(s, needle, i)
}

/// `s` begins with `prefix`.
pub open spec fn starts_with_text(s: Seq<char>, prefix: Seq<char>) -> bool {
    occurs_at(s, prefix, 0)
}

/// `s` ends with `suffix`.
pub open spec fn ends_with_text(s: Seq<char>, suffix: Seq<char>) -> bool {
    occurs_at(s, suffix, s.len() - suffix.len())
}

/// Whether `needle` stands in `s` from position `i` on.
pub fn matches_at(s: &Vec<char>, needle: &Vec<char>, i: usize) -> (r: bool)
    requires
        i + needle@.len() <= s@.len(),
    ensures
        r == occurs_at(s@, needle@, i as int),
{
    let length: usize = s.len();
    for k in 0..needle.len()
        invariant
            length == s@.len(),
            i + needle@.len() <= s@.len(),
            forall|j: int| 0 <= j < k ==> s@[i + j] == needle@[j],
    {
        if s[i + k] != needle[k] {
            assert(s@.subrange(i as int, i + needle@.len())[k as int] != needle@[k as int]);
            return false;
        }
    }
    assert(s@.subrange(i as int, i + needle@.len()) =~= needle@);
    true
}

/// Whether `needle` stands somewhere in `s`.
pub fn has_chars(s: &Vec<char>, needle: &Vec<char>) -> (r: bool)
    ensures
        r == contains_text(s@, needle@),
{
    if needle.len() > s.len() {
        return false;
    }
    let last: usize = s.len() - needle.len();
    let mut i: usize = 0;
    while i < last
        invariant
            i <= last == s@.len() - needle@.len(),
            forall|k: int| 0 <= k < i ==> !occurs_at(s@, needle@, k),
        decreases last - i,
    {
        if matches_at(s, needle, i) {
            return true;
        }
        i = i + 1;
    }
    matches_at(s, needle, last)
}

/// Whether `needle` stands somewhere in the characters `s`.
pub fn has_text(s: &Vec<char>, needle: &str) -> (r: bool)
    ensures
        r == contains_text(s@, needle@),
{
    has_chars(s, &chars_of(needle))
}

/// Whether `needle` stands somewhere in `s`.
pub fn contains(s: &str, needle: &str) -> (r: bool)
    ensures
        r == contains_text(s@, needle@),
{
    has_text(&chars_of(s), needle)
}

/// Whether `s` begins with `prefix`.
pub fn starts_with(s: &str, prefix: &str) -> (r: bool)
    ensures
        r == starts_with_text(s@, prefix@),
{
    let chars = chars_of(s);
    let wanted = chars_of(prefix);
    wanted.len() <= chars.len() && matches_at(&chars, &wanted, 0)
}

/// Whether `s` ends with `suffix`.
pub fn ends_with(s: &str, suffix: &str) -> (r: bool)
    ensures
        r == ends_with_text(s@, suffix@),
{
    let chars = chars_of(s);
    let wanted = chars_of(suffix);
    wanted.len() <= chars.len() && matches_at(&chars, &wanted, chars.len() - wanted.len())
}

// ---------------------------------------------------------------------------
// Order
// ---------------------------------------------------------------------------

/// `a` comes before `b`, compared by their characters from the first on.
pub open spec fn comes_before(a: Seq<char>, b: Seq<char>) -> bool
    decreases a.len(),
{
    if b.len() == 0 {
        false
    } else if a.len() == 0 {
        true
    } else if a[0] != b[0] {
        a[0] < b[0]
    } else {
        comes_before(a.drop_first(), b.drop_first())
    }
}

/// Whether `a` comes before `b`.
pub fn precedes(a: &str, b: &str) -> (r: bool)
    ensures
        r == comes_before(a@, b@),
{
    let x = chars_of(a);
    let y = chars_of(b);
    let mut i: usize = 0;
    assert(x@.skip(0) =~= x@);
    assert(y@.skip(0) =~= y@);
    while i < x.len() && i < y.len() && x[i] == y[i]
        invariant
            i <= x@.len(),
            i <= y@.len(),
            comes_before(x@.skip(i as int), y@.skip(i as int)) == comes_before(x@, y@),
        decreases x@.len() - i,
    {
        assert(x@.skip(i as int).drop_first() =~= x@.skip(i + 1));
        assert(y@.skip(i as int).drop_first() =~= y@.skip(i + 1));
        i = i + 1;
    }
    if i < x.len() && i < y.len() {
        x[i] < y[i]
    } else {
        i < y.len()
    }
}

/// No text comes before itself, and of two texts only one comes before the other.
pub proof fn order_is_strict(a: Seq<char>, b: Seq<char>)
    ensures
        !(comes_before(a, b) && comes_before(b, a)),
        a == b ==> !comes_before(a, b),
    decreases a.len(),
{
    if a.len() > 0 && b.len() > 0 {
        order_is_strict(a.drop_first(), b.drop_first());
    }
}

/// Of two different texts one comes before the other.
pub proof fn order_is_total(a: Seq<char>, b: Seq<char>)
    requires
        a != b,
    ensures
        comes_before(a, b) || comes_before(b, a),
    decreases a.len(),
{
    if a.len() == 0 || b.len() == 0 {
        assert(a.len() == 0 && b.len() == 0 ==> a =~= b);
    } else if a[0] == b[0] {
        if a.drop_first() == b.drop_first() {
            assert(a =~= seq![a[0]] + a.drop_first());
            assert(b =~= seq![b[0]] + b.drop_first());
        }
        order_is_total(a.drop_first(), b.drop_first());
    }
}

/// What comes before a text comes before all that the text comes before.
pub proof fn order_is_transitive(a: Seq<char>, b: Seq<char>, c: Seq<char>)
    requires
        comes_before(a, b),
        comes_before(b, c),
    ensures
        comes_before(a, c),
    decreases a.len(),
{
    if a.len() > 0 && a[0] == b[0] && b[0] == c[0] {
        order_is_transitive(a.drop_first(), b.drop_first(), c.drop_first());
    }
}

// ---------------------------------------------------------------------------
// White space
// ---------------------------------------------------------------------------

/// `s` without the white space at its start.
pub open spec fn without_leading_space(s: Seq<char>) -> Seq<char>
    decreases s.len(),
{
    if s.len() > 0 && is_white_space(s[0]) {
        without_leading_space(s.drop_first())
    } else {
        s
    }
}

/// `s` without the white space at its end.
pub open spec fn without_trailing_space(s: Seq<char>) -> Seq<char>
    decreases s.len(),
{
    if s.len() > 0 && is_white_space(s.last()) {
        without_trailing_space(s.drop_last())
    } else {
        s
    }
}

/// `s` without the white space at its two ends.
pub open spec fn trimmed(s: Seq<char>) -> Seq<char> {
    without_trailing_space(without_leading_space(s))
}

/// Where the text of `v` begins and ends once the white space at its two ends is left out.
pub fn trim_bounds(v: &Vec<char>) -> (r: (usize, usize))
    ensures
        r.0 <= r.1 <= v@.len(),
        v@.subrange(r.0 as int, r.1 as int) == trimmed(v@),
{
    let mut from: usize = 0;
    assert(v@.skip(0) =~= v@);
    while from < v.len() && white_space(v[from])
        invariant
            from <= v@.len(),
            without_leading_space(v@.skip(from as int)) == without_leading_space(v@),
        decreases v@.len() - from,
    {
        assert(v@.skip(from as int).drop_first() =~= v@.skip(from + 1));
        from = from + 1;
    }
    let ghost rest = v@.skip(from as int);
    assert(without_leading_space(v@) == rest);
    let mut to: usize = v.len();
    assert(v@.subrange(from as int, to as int) =~= rest);
    while from < to && white_space(v[to - 1])
        invariant
            from <= to <= v@.len(),
            without_trailing_space(v@.subrange(from as int, to as int)) == without_trailing_space(
                rest,
            ),
        decreases to,
    {
        assert(v@.subrange(from as int, to as int).drop_last() =~= v@.subrange(
            from as int,
            to - 1,
        ));
        to = to - 1;
    }
    (from, to)
}

/// `s` without the white space at its two ends.
pub fn trim(s: &str) -> (r: String)
    ensures
        r@ == trimmed(s@),
{
    let v = chars_of(s);
    let (from, to) = trim_bounds(&v);
    text_of(&v, from, to)
}

/// A trimmed text is no longer than the text, and has no white space at its two ends.
pub proof fn lemma_trimmed_ends(s: Seq<char>)
    ensures
        trimmed(s).len() <= s.len(),
        trimmed(s).len() > 0 ==> !is_white_space(trimmed(s)[0]) && !is_white_space(
            trimmed(s).last(),
        ),
{
    lemma_leading(s);
    lemma_trailing(without_leading_space(s));
}

proof fn lemma_leading(s: Seq<char>)
    ensures
        without_leading_space(s).len() <= s.len(),
        without_leading_space(s).len() > 0 ==> !is_white_space(without_leading_space(s)[0]),
    decreases s.len(),
{
    if s.len() > 0 && is_white_space(s[0]) {
        lemma_leading(s.drop_first());
    }
}

proof fn lemma_trailing(s: Seq<char>)
    ensures
        without_trailing_space(s).len() <= s.len(),
        without_trailing_space(s).len() > 0 ==> !is_white_space(without_trailing_space(s).last()),
        without_trailing_space(s).len() > 0 ==> without_trailing_space(s)[0] == s[0],
    decreases s.len(),
{
    if s.len() > 0 && is_white_space(s.last()) {
        lemma_trailing(s.drop_last());
    }
}

/// Trimming twice is trimming once.
pub proof fn trimming_is_idempotent(s: Seq<char>)
    ensures
        trimmed(trimmed(s)) == trimmed(s),
{
    lemma_trimmed_ends(s);
}

// ---------------------------------------------------------------------------
// Lines and words
// ---------------------------------------------------------------------------

/// The position of the first `c` in `s`, or the length of `s` where there is none.
pub open spec fn first_position(s: Seq<char>, c: char) -> int
    decreases s.len(),
{
    if s.len() == 0 || s[0] == c {
        0
    } else {
        1 + first_position(s.drop_first(), c)
    }
}

/// `line` without a carriage return at its end.
pub open spec fn without_carriage_return(line: Seq<char>) -> Seq<char> {
    if line.len() > 0 && line.last() == '\r' {
        line.drop_last()
    } else {
        line
    }
}

/// The lines of `s`. A line ends with a line feed, or with a carriage return and a line feed;
/// the end of the last one may be left out.
pub open spec fn lines_of(s: Seq<char>) -> Seq<Seq<char>>
    decreases s.len(),
{
    let end = first_position(s, '\n');
    if s.len() == 0 {
        Seq::empty()
    } else if 0 <= end < s.len() {
        seq![without_carriage_return(s.take(end))] + lines_of(s.skip(end + 1))
    } else {
        seq![s]
    }
}

/// The position of the first white space in `s`, or the length of `s` where there is none.
pub open spec fn first_space(s: Seq<char>) -> int
    decreases s.len(),
{
    if s.len() == 0 || is_white_space(s[0]) {
        0
    } else {
        1 + first_space(s.drop_first())
    }
}

/// The parts of `s` between white space.
pub open spec fn words_of(s: Seq<char>) -> Seq<Seq<char>>
    decreases s.len(),
{
    if s.len() == 0 {
        Seq::empty()
    } else if is_white_space(s[0]) {
        words_of(s.drop_first())
    } else {
        let end = first_space(s);
        if 0 < end <= s.len() {
            seq![s.take(end)] + words_of(s.skip(end))
        } else {
            Seq::empty()
        }
    }
}

/// The text of an optional string.
pub open spec fn opt_text(s: Option<String>) -> Option<Seq<char>> {
    match s {
        Some(t) => Some(t@),
        None => None,
    }
}

/// The texts of a vector of strings.
pub open spec fn texts(v: Seq<String>) -> Seq<Seq<char>> {
    v.map_values(|s: String| s@)
}

/// The first position of a character is where it stands and did not stand before.
pub proof fn lemma_first_position(s: Seq<char>, c: char, at: int)
    requires
        0 <= at <= s.len(),
        forall|k: int| 0 <= k < at ==> s[k] != c,
        at < s.len() ==> s[at] == c,
    ensures
        first_position(s, c) == at,
    decreases s.len(),
{
    if s.len() > 0 && at > 0 {
        lemma_first_position(s.drop_first(), c, at - 1);
    }
}

proof fn lemma_first_space(s: Seq<char>, at: int)
    requires
        0 <= at <= s.len(),
        forall|k: int| 0 <= k < at ==> !is_white_space(s[k]),
        at < s.len() ==> is_white_space(s[at]),
    ensures
        first_space(s) == at,
    decreases s.len(),
{
    if s.len() > 0 && at > 0 {
        lemma_first_space(s.drop_first(), at - 1);
    }
}

proof fn lemma_at_first_position(s: Seq<char>, c: char)
    ensures
        0 <= first_position(s, c) <= s.len(),
        first_position(s, c) < s.len() ==> s[first_position(s, c)] == c,
        forall|k: int| 0 <= k < first_position(s, c) ==> s[k] != c,
    decreases s.len(),
{
    if s.len() > 0 && s[0] != c {
        let rest = s.drop_first();
        lemma_at_first_position(rest, c);
        assert forall|k: int| 0 <= k < first_position(s, c) implies s[k] != c by {
            if k > 0 {
                assert(s[k] == rest[k - 1]);
            }
        }
    }
}

/// Lines that are put behind a text of whole lines come behind its lines.
pub proof fn lines_are_put_behind_lines(a: Seq<char>, b: Seq<char>)
    requires
        a.len() == 0 || a.last() == '\n',
    ensures
        lines_of(a + b) == lines_of(a) + lines_of(b),
    decreases a.len(),
{
    if a.len() == 0 {
        assert(a + b =~= b);
        assert(lines_of(a) + lines_of(b) =~= lines_of(b));
    } else {
        let end = first_position(a, '\n');
        lemma_at_first_position(a, '\n');
        assert(end < a.len()) by {
            if end == a.len() {
                assert(a[a.len() - 1] != '\n');
            }
        }
        lemma_first_position(a + b, '\n', end);
        let rest = a.skip(end + 1);
        assert((a + b).take(end) =~= a.take(end));
        assert((a + b).skip(end + 1) =~= rest + b);
        assert(rest.len() > 0 ==> rest.last() == a.last());
        lines_are_put_behind_lines(rest, b);
        let first = seq![without_carriage_return(a.take(end))];
        assert(first + (lines_of(rest) + lines_of(b)) =~= (first + lines_of(rest)) + lines_of(b));
    }
}

/// Bytes that are put behind whole lines are mended apart from them.
pub proof fn lines_are_mended_apart(a: Seq<u8>, b: Seq<u8>)
    requires
        a.len() == 0 || a.last() == 10,
    ensures
        lossy_text(a + b) == lossy_text(a) + lossy_text(b),
        lossy_text(a).len() == 0 || lossy_text(a).last() == '\n',
    decreases a.len(),
{
    if a.len() == 0 {
        assert(a + b =~= b);
        assert(a =~= Seq::empty());
        assert(lossy_text(a) =~= Seq::empty());
        assert(lossy_text(a) + lossy_text(b) =~= lossy_text(b));
    } else {
        let end = first_feed(a);
        lemma_at_first_feed(a);
        assert(end < a.len()) by {
            if end == a.len() {
                assert(a[a.len() - 1] != 10);
            }
        }
        lemma_first_feed(a + b, end);
        let rest = a.skip(end + 1);
        assert((a + b).take(end) =~= a.take(end));
        assert((a + b).skip(end + 1) =~= rest + b);
        assert(rest.len() > 0 ==> rest.last() == a.last());
        lines_are_mended_apart(rest, b);
        let first = line_text(a.take(end)) + seq!['\n'];
        assert(first + (lossy_text(rest) + lossy_text(b)) =~= (first + lossy_text(rest))
            + lossy_text(b));
        assert(lossy_text(a) == first + lossy_text(rest));
    }
}

/// Bytes without a line feed are those of one line.
pub proof fn line_without_a_feed_is_one(bytes: Seq<u8>)
    requires
        forall|i: int| 0 <= i < bytes.len() ==> bytes[i] != 10,
    ensures
        lossy_text(bytes) == line_text(bytes),
{
    lemma_first_feed(bytes, bytes.len() as int);
}

/// A line feed stays where it is.
pub proof fn line_feed_is_kept(a: Seq<u8>)
    ensures
        lossy_text(a + seq![10u8]) == lossy_text(a) + seq!['\n'],
    decreases a.len(),
{
    let end = first_feed(a);
    let all = a + seq![10u8];
    lemma_at_first_feed(a);
    if end < a.len() {
        lemma_first_feed(all, end);
        let rest = a.skip(end + 1);
        assert(all.take(end) =~= a.take(end));
        assert(all.skip(end + 1) =~= rest + seq![10u8]);
        line_feed_is_kept(rest);
        let first = line_text(a.take(end)) + seq!['\n'];
        assert(first + (lossy_text(rest) + seq!['\n']) =~= (first + lossy_text(rest)) + seq!['\n']);
    } else {
        lemma_first_feed(all, a.len() as int);
        assert(all.take(a.len() as int) =~= a);
        assert(all.skip(a.len() as int + 1) =~= Seq::empty());
        assert(lossy_text(Seq::empty()) =~= Seq::empty()) by {
            lines_are_mended_apart(Seq::empty(), Seq::empty());
        }
        assert(line_text(a) + seq!['\n'] + Seq::<char>::empty() =~= line_text(a) + seq!['\n']);
    }
}

/// Bytes that encode a text are not mended.
pub proof fn text_is_not_mended(bytes: Seq<u8>)
    requires
        vstd::utf8::valid_utf8(bytes),
    ensures
        lossy_text(bytes) == vstd::utf8::decode_utf8(bytes),
    decreases bytes.len(),
{
    let end = first_feed(bytes);
    lemma_at_first_feed(bytes);
    if end < bytes.len() {
        let head = bytes.take(end);
        let tail = bytes.skip(end);
        let rest = bytes.skip(end + 1);
        assert(head =~= bytes.subrange(0, end));
        assert(tail =~= bytes.subrange(end, bytes.len() as int));
        vstd::utf8::is_char_boundary_iff_not_is_continuation_byte(bytes, end);
        vstd::utf8::valid_utf8_split(bytes, end);
        vstd::utf8::decode_utf8_split(bytes, end);
        assert(tail[0] == 10);
        assert(vstd::utf8::pop_first_scalar(tail) =~= rest);
        assert(10u8 & 0x7F == 10) by (bit_vector);
        assert(vstd::utf8::decode_utf8(tail) =~= seq!['\n'] + vstd::utf8::decode_utf8(rest));
        text_is_not_mended(rest);
        assert(lossy_text(bytes) =~= vstd::utf8::decode_utf8(bytes));
    }
}

/// The lines of `s`, without their ends.
pub fn lines(s: &str) -> (r: Vec<String>)
    ensures
        texts(r@) == lines_of(s@),
{
    let v = chars_of(s);
    let mut r: Vec<String> = Vec::new();
    let mut from: usize = 0;
    assert(v@.skip(0) =~= v@);
    assert(texts(r@) + lines_of(v@) =~= lines_of(v@));
    while from < v.len()
        invariant
            from <= v@.len(),
            texts(r@) + lines_of(v@.skip(from as int)) == lines_of(v@),
        decreases v@.len() - from,
    {
        let mut end: usize = from;
        while end < v.len() && v[end] != '\n'
            invariant
                from <= end <= v@.len(),
                forall|k: int| from <= k < end ==> v@[k] != '\n',
            decreases v@.len() - end,
        {
            end = end + 1;
        }
        let ghost rest = v@.skip(from as int);
        let ghost before = texts(r@);
        proof {
            lemma_first_position(rest, '\n', end - from);
            assert(rest.take(end - from) =~= v@.subrange(from as int, end as int));
        }
        if end < v.len() {
            let stop = if end > from && v[end - 1] == '\r' {
                end - 1
            } else {
                end
            };
            let line = text_of(&v, from, stop);
            assert(line@ =~= without_carriage_return(rest.take(end - from)));
            r.push(line);
            assert(texts(r@) =~= before.push(line@));
            assert(v@.skip(end + 1) =~= rest.skip(end - from + 1));
            assert(before + lines_of(rest) =~= texts(r@) + lines_of(v@.skip(end + 1)));
            from = end + 1;
        } else {
            let line = text_of(&v, from, end);
            assert(line@ =~= rest);
            r.push(line);
            assert(texts(r@) =~= before.push(line@));
            assert(before + lines_of(rest) =~= texts(r@) + lines_of(v@.skip(end as int)));
            from = end;
        }
    }
    assert(texts(r@) + lines_of(v@.skip(from as int)) =~= texts(r@));
    r
}

/// The parts of `s` between white space.
pub fn words(s: &str) -> (r: Vec<String>)
    ensures
        texts(r@) == words_of(s@),
{
    let v = chars_of(s);
    let mut r: Vec<String> = Vec::new();
    let mut from: usize = 0;
    assert(v@.skip(0) =~= v@);
    assert(texts(r@) + words_of(v@) =~= words_of(v@));
    while from < v.len()
        invariant
            from <= v@.len(),
            texts(r@) + words_of(v@.skip(from as int)) == words_of(v@),
        decreases v@.len() - from,
    {
        let ghost rest = v@.skip(from as int);
        if white_space(v[from]) {
            assert(rest.drop_first() =~= v@.skip(from + 1));
            from = from + 1;
        } else {
            let mut end: usize = from;
            while end < v.len() && !white_space(v[end])
                invariant
                    from <= end <= v@.len(),
                    forall|k: int| from <= k < end ==> !is_white_space(v@[k]),
                decreases v@.len() - end,
            {
                end = end + 1;
            }
            let ghost before = texts(r@);
            proof {
                lemma_first_space(rest, end - from);
                assert(rest[0] == v@[from as int]);
                assert(end > from);
                assert(rest.take(end - from) =~= v@.subrange(from as int, end as int));
                assert(rest.skip(end - from) =~= v@.skip(end as int));
            }
            let word = text_of(&v, from, end);
            r.push(word);
            assert(texts(r@) =~= before.push(word@));
            assert(before + words_of(rest) =~= texts(r@) + words_of(v@.skip(end as int)));
            from = end;
        }
    }
    assert(texts(r@) + words_of(v@.skip(from as int)) =~= texts(r@));
    r
}

// ---------------------------------------------------------------------------
// Numbers
// ---------------------------------------------------------------------------

/// The decimal digit for a number below ten.
pub open spec fn digit_char(d: int) -> char {
    (48 + d) as char
}

/// The decimal digits of `n`, without leading zeros.
pub open spec fn decimal_of(n: nat) -> Seq<char>
    decreases n,
{
    if n < 10 {
        seq![digit_char(n as int)]
    } else {
        decimal_of(n / 10).push(digit_char((n % 10) as int))
    }
}

/// `n` in decimal digits.
pub fn decimal(n: u64) -> (r: String)
    ensures
        r@ == decimal_of(n as nat),
    decreases n,
{
    let last = (48u8 + (n % 10) as u8) as char;
    let mut r = if n < 10 {
        String::new()
    } else {
        decimal(n / 10)
    };
    r.push(last);
    assert(n < 10 ==> r@ =~= decimal_of(n as nat));
    r
}

/// A decimal digit.
pub open spec fn is_digit(c: char) -> bool {
    '0' <= c <= '9'
}

/// The number that a text of decimal digits writes.
pub open spec fn digits_value(s: Seq<char>) -> nat
    decreases s.len(),
{
    if s.len() == 0 {
        0
    } else {
        digits_value(s.drop_last()) * 10 + ((s.last() as int - 48) as nat)
    }
}

/// The digits of a number text: what follows a leading plus sign.
pub open spec fn without_plus(s: Seq<char>) -> Seq<char> {
    if s.len() > 0 && s[0] == '+' {
        s.drop_first()
    } else {
        s
    }
}

/// The 32-bit number that `s` writes: decimal digits, at least one, after at most one plus sign.
pub open spec fn u32_of(s: Seq<char>) -> Option<u32> {
    let digits = without_plus(s);
    if digits.len() > 0 && (forall|i: int| 0 <= i < digits.len() ==> is_digit(#[trigger] digits[i]))
        && digits_value(digits) <= u32::MAX {
        Some(digits_value(digits) as u32)
    } else {
        None
    }
}

proof fn lemma_digits_grow(s: Seq<char>, i: int)
    requires
        0 <= i <= s.len(),
    ensures
        digits_value(s.take(i)) <= digits_value(s),
    decreases s.len(),
{
    if i < s.len() {
        lemma_digits_grow(s.drop_last(), i);
        assert(s.drop_last().take(i) =~= s.take(i));
    } else {
        assert(s.take(i) =~= s);
    }
}

/// The number that `s` writes, if it writes one that 32 bits hold.
pub fn parse_u32(s: &str) -> (r: Option<u32>)
    ensures
        r == u32_of(s@),
{
    let v = chars_of(s);
    let from: usize = if v.len() > 0 && v[0] == '+' {
        1
    } else {
        0
    };
    let ghost digits = without_plus(s@);
    assert(digits =~= v@.skip(from as int));
    if v.len() == from {
        return None;
    }
    let mut value: u64 = 0;
    assert(digits.take(0) =~= Seq::empty());
    for i in from..v.len()
        invariant
            from <= v@.len(),
            digits == v@.skip(from as int),
            digits == without_plus(s@),
            value == digits_value(digits.take(i - from)),
            value <= u32::MAX,
            forall|k: int| 0 <= k < i - from ==> is_digit(#[trigger] digits[k]),
    {
        let c = v[i];
        assert(digits[i - from] == c);
        if c < '0' || c > '9' {
            return None;
        }
        assert(digits.take(i - from + 1).drop_last() =~= digits.take(i - from));
        value = value * 10 + (c as u64 - 48);
        assert(value == digits_value(digits.take(i - from + 1)));
        if value > u32::MAX as u64 {
            proof {
                lemma_digits_grow(digits, i - from + 1);
            }
            return None;
        }
    }
    assert(digits.take(digits.len() as int) =~= digits);
    Some(value as u32)
}

/// The digits of a number are digits, and write it.
pub proof fn lemma_decimal_digits(n: nat)
    ensures
        decimal_of(n).len() > 0,
        forall|i: int| 0 <= i < decimal_of(n).len() ==> is_digit(#[trigger] decimal_of(n)[i]),
        digits_value(decimal_of(n)) == n,
    decreases n,
{
    if n < 10 {
        assert(decimal_of(n).drop_last() =~= Seq::empty());
        assert(digits_value(decimal_of(n).drop_last()) == 0);
    } else {
        lemma_decimal_digits(n / 10);
        assert(decimal_of(n).drop_last() =~= decimal_of(n / 10));
    }
}

/// A number that was written in digits is read back.
pub proof fn decimal_is_read_back(n: u32)
    ensures
        u32_of(decimal_of(n as nat)) == Some(n),
{
    lemma_decimal_digits(n as nat);
    assert(is_digit(decimal_of(n as nat)[0]));
    assert(without_plus(decimal_of(n as nat)) == decimal_of(n as nat));
}

// ---------------------------------------------------------------------------
// Replacing
// ---------------------------------------------------------------------------

/// `s` with `with` in the place of every `from`.
pub open spec fn replaced(s: Seq<char>, from: char, with: Seq<char>) -> Seq<char>
    decreases s.len(),
{
    if s.len() == 0 {
        Seq::empty()
    } else {
        replaced(s.drop_last(), from, with) + if s.last() == from {
            with
        } else {
            seq![s.last()]
        }
    }
}

/// `s` with `with` in the place of every `from`.
pub fn replace_char(s: &str, from: char, with: &str) -> (r: String)
    ensures
        r@ == replaced(s@, from, with@),
{
    let v = chars_of(s);
    let mut r = String::new();
    assert(v@.take(0) =~= Seq::empty());
    for i in 0..v.len()
        invariant
            r@ == replaced(v@.take(i as int), from, with@),
    {
        let c = v[i];
        let ghost before = r@;
        assert(v@.take(i + 1).drop_last() =~= v@.take(i as int));
        if c == from {
            r.append(with);
        } else {
            r.push(c);
            assert(r@ =~= before + seq![c]);
        }
    }
    assert(v@.take(v@.len() as int) =~= v@);
    r
}

} // verus!
