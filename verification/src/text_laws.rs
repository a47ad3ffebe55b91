//! What holds of every text that is searched, trimmed, parted, compared or written.

use crate::json;
use crate::json::{Json, JsonView};
use crate::text;
use vstd::prelude::*;

verus! {

// ---------------------------------------------------------------------------
// Searching
// ---------------------------------------------------------------------------

/// A text is found in what stands around it, wherever that is.
pub proof fn text_is_found_where_it_stands(
    before: Seq<char>,
    needle: Seq<char>,
    after: Seq<char>,
    s: &str,
    wanted: &str,
    found: bool,
    leads: bool,
    ends: bool,
)
    requires
        s@ == before + needle + after,
        wanted@ == needle,
        call_ensures(text::contains, (s, wanted), found),
        call_ensures(text::starts_with, (s, wanted), leads),
        call_ensures(text::ends_with, (s, wanted), ends),
    ensures
        found,
        before.len() == 0 ==> leads,
        after.len() == 0 ==> ends,
{
    let i = before.len() as int;
    assert(s@.subrange(i, i + needle.len()) =~= needle);
    assert(text::occurs_at(s@, needle, i));
}

/// A text that is found stands there: what it is found in is something before it, the text, and
/// something after it; nothing before it where it is found at the start, and nothing after it where
/// it is found at the end.
pub proof fn text_that_is_found_stands_there(
    s: &str,
    wanted: &str,
    found: bool,
    leads: bool,
    ends: bool,
)
    requires
        call_ensures(text::contains, (s, wanted), found),
        call_ensures(text::starts_with, (s, wanted), leads),
        call_ensures(text::ends_with, (s, wanted), ends),
    ensures
        found ==> exists|before: Seq<char>, after: Seq<char>|
            s@ == #[trigger] (before + wanted@ + after),
        leads ==> exists|after: Seq<char>| s@ == #[trigger] (wanted@ + after),
        ends ==> exists|before: Seq<char>| s@ == #[trigger] (before + wanted@),
{
    if found {
        let i = choose|i: int| text::occurs_at(s@, wanted@, i);
        let before = s@.take(i);
        let after = s@.skip(i + wanted@.len());
        assert(s@ =~= before + wanted@ + after);
    }
    if leads {
        assert(s@ =~= wanted@ + s@.skip(wanted@.len() as int));
    }
    if ends {
        assert(s@ =~= s@.take(s@.len() - wanted@.len()) + wanted@);
    }
}

// ---------------------------------------------------------------------------
// White space
// ---------------------------------------------------------------------------

/// All of the characters are white space.
pub open spec fn is_blank(s: Seq<char>) -> bool {
    forall|i: int| 0 <= i < s.len() ==> text::is_white_space(#[trigger] s[i])
}

proof fn lemma_leading(s: Seq<char>) -> (lead: Seq<char>)
    ensures
        is_blank(lead),
        s == lead + text::without_leading_space(s),
        text::without_leading_space(s).len() > 0 ==> !text::is_white_space(
            text::without_leading_space(s)[0],
        ),
    decreases s.len(),
{
    if s.len() > 0 && text::is_white_space(s[0]) {
        let rest = lemma_leading(s.drop_first());
        let lead = seq![s[0]] + rest;
        assert(text::without_leading_space(s) == text::without_leading_space(s.drop_first()));
        assert(s =~= seq![s[0]] + s.drop_first());
        assert(s.drop_first() == rest + text::without_leading_space(s));
        assert(s =~= lead + text::without_leading_space(s));
        lead
    } else {
        assert(s =~= Seq::<char>::empty() + s);
        Seq::empty()
    }
}

proof fn lemma_trailing(s: Seq<char>) -> (trail: Seq<char>)
    ensures
        is_blank(trail),
        s == text::without_trailing_space(s) + trail,
        text::without_trailing_space(s).len() > 0 ==> !text::is_white_space(
            text::without_trailing_space(s).last(),
        ),
    decreases s.len(),
{
    if s.len() > 0 && text::is_white_space(s.last()) {
        let rest = lemma_trailing(s.drop_last());
        let trail = rest.push(s.last());
        assert(text::without_trailing_space(s) == text::without_trailing_space(s.drop_last()));
        assert(s =~= s.drop_last().push(s.last()));
        assert(s.drop_last() == text::without_trailing_space(s) + rest);
        assert(s =~= text::without_trailing_space(s) + trail);
        trail
    } else {
        assert(s =~= s + Seq::<char>::empty());
        Seq::empty()
    }
}

/// Trimming takes the white space at the two ends away, all of it, and nothing else.
pub proof fn trimming_takes_blanks_away(s: Seq<char>)
    ensures
        exists|lead: Seq<char>, trail: Seq<char>|
            is_blank(lead) && is_blank(trail) && s == #[trigger] (lead + text::trimmed(s) + trail),
        text::trimmed(s).len() > 0 ==> !text::is_white_space(text::trimmed(s)[0])
            && !text::is_white_space(text::trimmed(s).last()),
{
    let lead = lemma_leading(s);
    let middle = text::without_leading_space(s);
    let trail = lemma_trailing(middle);
    assert(s =~= lead + text::trimmed(s) + trail);
    text::lemma_trimmed_ends(s);
}

/// The ASCII blanks, tab, line feed, vertical tab, form feed, carriage return and space, are white
/// space; no other ASCII character is.
pub proof fn ascii_blanks_are_white_space(c: char)
    requires
        c <= '\u{7f}',
    ensures
        text::is_white_space(c) <==> c == '\t' || c == '\n' || c == '\u{b}' || c == '\u{c}' || c
            == '\r' || c == ' ',
{
}

// ---------------------------------------------------------------------------
// Lines and words
// ---------------------------------------------------------------------------

/// The first line of a text is what stands before its first line feed, without a carriage return
/// at its end; the other lines are those of what stands behind the line feed. A text without a line
/// feed is one line, and an empty text none.
pub proof fn lines_end_with_line_feeds(line: Seq<char>, rest: Seq<char>)
    requires
        forall|i: int| 0 <= i < line.len() ==> line[i] != '\n',
    ensures
        ({
            let kept = if line.len() > 0 && line.last() == '\r' {
                line.drop_last()
            } else {
                line
            };
            text::lines_of(line + seq!['\n'] + rest) == seq![kept] + text::lines_of(rest)
        }),
        line.len() > 0 ==> text::lines_of(line) == seq![line],
        text::lines_of(Seq::empty()) == Seq::<Seq<char>>::empty(),
{
    let s = line + seq!['\n'] + rest;
    let n = line.len() as int;
    text::lemma_first_position(s, '\n', n);
    text::lemma_first_position(line, '\n', n);
    assert(s.take(n) =~= line);
    assert(s.skip(n + 1) =~= rest);
}

/// The first word of a text is what stands before its first white space, and the other words are
/// those of what stands behind it. White space at the start parts nothing.
pub proof fn words_end_with_blanks(word: Seq<char>, blank: char, rest: Seq<char>)
    requires
        text::is_white_space(blank),
        forall|i: int| 0 <= i < word.len() ==> !text::is_white_space(#[trigger] word[i]),
    ensures
        word.len() > 0 ==> text::words_of(word + seq![blank] + rest) == seq![word]
            + text::words_of(rest),
        word.len() > 0 ==> text::words_of(word) == seq![word],
        text::words_of(seq![blank] + rest) == text::words_of(rest),
        text::words_of(Seq::empty()) == Seq::<Seq<char>>::empty(),
{
    let behind = seq![blank] + rest;
    assert(behind.drop_first() =~= rest);
    if word.len() > 0 {
        let s = word + seq![blank] + rest;
        let n = word.len() as int;
        lemma_first_space(s, n);
        lemma_first_space(word, n);
        assert(s.take(n) =~= word);
        assert(s.skip(n) =~= behind);
        assert(word.take(n) =~= word);
        assert(word.skip(n) =~= Seq::empty());
        assert(seq![word] + Seq::<Seq<char>>::empty() =~= seq![word]);
        assert(s[0] == word[0]);
        assert(!text::is_white_space(word[0]));
        assert(text::words_of(word.skip(n)) =~= Seq::empty());
        assert(text::words_of(s.skip(n)) == text::words_of(rest));
        assert(text::words_of(s) == seq![s.take(n)] + text::words_of(s.skip(n)));
        assert(text::words_of(word) == seq![word.take(n)] + text::words_of(word.skip(n)));
    }
}

proof fn lemma_first_space(s: Seq<char>, at: int)
    requires
        0 <= at <= s.len(),
        forall|k: int| 0 <= k < at ==> !text::is_white_space(#[trigger] s[k]),
        at < s.len() ==> text::is_white_space(s[at]),
    ensures
        text::first_space(s) == at,
    decreases s.len(),
{
    if s.len() > 0 && at > 0 {
        assert(!text::is_white_space(s[0]));
        assert forall|k: int| 0 <= k < at - 1 implies !text::is_white_space(
            #[trigger] s.drop_first()[k],
        ) by {
            assert(s.drop_first()[k] == s[k + 1]);
        }
        lemma_first_space(s.drop_first(), at - 1);
    }
}

// ---------------------------------------------------------------------------
// Order
// ---------------------------------------------------------------------------

/// The first character in which two texts differ decides which comes first; where one goes on, the
/// shorter one does.
pub proof fn first_difference_decides(
    common: Seq<char>,
    x: char,
    y: char,
    a: Seq<char>,
    b: Seq<char>,
)
    ensures
        x < y ==> text::comes_before(common + seq![x] + a, common + seq![y] + b),
        text::comes_before(common, common + seq![x] + a),
        !text::comes_before(common + seq![x] + a, common),
    decreases common.len(),
{
    let s = common + seq![x] + a;
    let t = common + seq![y] + b;
    if common.len() > 0 {
        first_difference_decides(common.drop_first(), x, y, a, b);
        assert(s.drop_first() =~= common.drop_first() + seq![x] + a);
        assert(t.drop_first() =~= common.drop_first() + seq![y] + b);
    }
}

// ---------------------------------------------------------------------------
// Letters, numbers and replacements
// ---------------------------------------------------------------------------

/// Making letters small changes the capital letters of ASCII into their small ones, and no other
/// character.
pub proof fn capitals_are_made_small(s: Seq<char>, i: int)
    requires
        0 <= i < s.len(),
    ensures
        text::ascii_lower(s).len() == s.len(),
        'A' <= s[i] <= 'Z' ==> text::ascii_lower(s)[i] as int == s[i] as int + 32,
        !('A' <= s[i] <= 'Z') ==> text::ascii_lower(s)[i] == s[i],
{
}

/// The digits of a number are decimal, begin with zero only where the number is zero, and write the
/// number: the last digit is its remainder by ten, and those before it write its tenth.
pub proof fn digits_write_the_number(n: nat)
    ensures
        n < 10 ==> text::decimal_of(n).len() == 1 && text::decimal_of(n)[0] as int == 48 + n,
        n >= 10 ==> text::decimal_of(n).drop_last() == text::decimal_of(n / 10)
            && text::decimal_of(n).last() as int == 48 + n % 10,
        n > 0 ==> text::decimal_of(n)[0] != '0',
    decreases n,
{
    if n >= 10 {
        digits_write_the_number(n / 10);
        assert(text::decimal_of(n).drop_last() =~= text::decimal_of(n / 10));
        assert(text::decimal_of(n / 10).len() > 0) by {
            lemma_some_digit(n / 10);
        }
        assert(text::decimal_of(n)[0] == text::decimal_of(n / 10)[0]);
    }
}

proof fn lemma_some_digit(n: nat)
    ensures
        text::decimal_of(n).len() > 0,
    decreases n,
{
}

/// A number is read from its digits, with a plus sign before them or not; a further digit is worth
/// ten times what is before it. Nothing is read where there is no digit, another character, or a
/// number that 32 bits do not hold.
pub proof fn numbers_are_read_from_digits(s: &str, r: Option<u32>, n: nat)
    requires
        call_ensures(text::parse_u32, (s,), r),
    ensures
        s@ == text::decimal_of(n) || s@ == seq!['+'] + text::decimal_of(n) ==> (if n <= u32::MAX {
            r == Some(n as u32)
        } else {
            r is None
        }),
        s@.len() == 0 || s@ == seq!['+'] ==> r is None,
        (exists|i: int| 0 < i < s@.len() && !('0' <= #[trigger] s@[i] <= '9')) ==> r is None,
        s@.len() > 0 && s@[0] != '+' && !('0' <= s@[0] <= '9') ==> r is None,
{
    lemma_digits(n);
    let digits = text::decimal_of(n);
    if s@ == seq!['+'] + digits {
        assert(text::without_plus(s@) =~= digits);
    }
    if s@ == digits {
        assert(text::is_digit(digits[0]));
    }
    if exists|i: int| 0 < i < s@.len() && !('0' <= #[trigger] s@[i] <= '9') {
        let i = choose|i: int| 0 < i < s@.len() && !('0' <= #[trigger] s@[i] <= '9');
        let rest = text::without_plus(s@);
        if s@[0] == '+' {
            assert(rest[i - 1] == s@[i]);
            assert(!text::is_digit(rest[i - 1]));
        } else {
            assert(!text::is_digit(rest[i]));
        }
    }
    if s@.len() > 0 && s@[0] != '+' && !('0' <= s@[0] <= '9') {
        assert(!text::is_digit(text::without_plus(s@)[0]));
    }
}

proof fn lemma_digits(n: nat)
    ensures
        text::decimal_of(n).len() > 0,
        forall|i: int|
            0 <= i < text::decimal_of(n).len() ==> text::is_digit(
                #[trigger] text::decimal_of(n)[i],
            ),
        text::digits_value(text::decimal_of(n)) == n,
    decreases n,
{
    if n < 10 {
        assert(text::decimal_of(n).drop_last() =~= Seq::empty());
        assert(text::digits_value(text::decimal_of(n).drop_last()) == 0);
    } else {
        lemma_digits(n / 10);
        assert(text::decimal_of(n).drop_last() =~= text::decimal_of(n / 10));
    }
}

/// What stands for a character stands in every place of it, and nothing else changes.
pub proof fn every_character_is_replaced(a: Seq<char>, b: Seq<char>, from: char, with: Seq<char>)
    ensures
        text::replaced(a + b, from, with) == text::replaced(a, from, with) + text::replaced(
            b,
            from,
            with,
        ),
        text::replaced(seq![from], from, with) == with,
        forall|c: char|
            c != from ==> #[trigger] text::replaced(seq![c], from, with) == seq![c],
    decreases b.len(),
{
    reveal_with_fuel(text::replaced, 2);
    assert(seq![from].drop_last() =~= Seq::empty());
    assert(Seq::<char>::empty() + with =~= with);
    assert forall|c: char| c != from implies #[trigger] text::replaced(seq![c], from, with)
        == seq![c] by {
        assert(seq![c].drop_last() =~= Seq::empty());
        assert(Seq::<char>::empty() + seq![c] =~= seq![c]);
    }
    if b.len() == 0 {
        assert(a + b =~= a);
        assert(text::replaced(a, from, with) + text::replaced(b, from, with) =~= text::replaced(
            a,
            from,
            with,
        ));
    } else {
        every_character_is_replaced(a, b.drop_last(), from, with);
        assert((a + b).drop_last() =~= a + b.drop_last());
        assert((a + b).last() == b.last());
        let last = if b.last() == from {
            with
        } else {
            seq![b.last()]
        };
        assert((text::replaced(a, from, with) + text::replaced(b.drop_last(), from, with)) + last
            =~= text::replaced(a, from, with) + (text::replaced(b.drop_last(), from, with)
            + last));
    }
}

// ---------------------------------------------------------------------------
// JSON
// ---------------------------------------------------------------------------

/// A member of an object is found by its name; of two of one name the last.
pub proof fn member_is_found_by_its_name(
    members: Vec<(String, Json)>,
    name: &str,
    r: Option<&Json>,
    i: int,
)
    requires
        call_ensures(Json::member, (&Json::Object(members), name), r),
        -1 <= i < members@.len(),
        i >= 0 ==> members@[i].0@ == name@,
        forall|j: int| i < j < members@.len() ==> (#[trigger] members@[j]).0@ != name@,
    ensures
        i < 0 ==> r is None,
        i >= 0 ==> (r matches Some(value) && value@ == members@[i].1@),
{
    lemma_members(members@, name@, i);
}

proof fn lemma_members(members: Seq<(String, Json)>, name: Seq<char>, i: int)
    requires
        -1 <= i < members.len(),
        i >= 0 ==> members[i].0@ == name,
        forall|j: int| i < j < members.len() ==> (#[trigger] members[j]).0@ != name,
    ensures
        i < 0 ==> !json::members_view(members).contains_key(name),
        i >= 0 ==> json::members_view(members).contains_key(name) && json::members_view(
            members,
        )[name] == members[i].1@,
    decreases members.len(),
{
    reveal_with_fuel(json::members_view, 2);
    if members.len() > 0 {
        let n = members.len() - 1;
        assert(members.last() == members[n]);
        if i < n {
            let rest = members.drop_last();
            assert forall|j: int| i < j < rest.len() implies (#[trigger] rest[j]).0@ != name by {
                assert(rest[j] == members[j]);
            }
            lemma_members(rest, name, i);
        }
    }
}

/// What is no object has no members, and only a text has characters.
pub proof fn only_objects_have_members(value: &Json, name: &str, r: Option<&Json>, s: Option<&str>)
    requires
        call_ensures(Json::member, (value, name), r),
        call_ensures(Json::text, (value,), s),
    ensures
        !(value is Object) ==> r is None,
        value matches Json::Text(chars) ==> (s matches Some(found) && found@ == chars@),
        !(value is Text) ==> s is None,
{
}

// ---------------------------------------------------------------------------
// What is made of a text
// ---------------------------------------------------------------------------

/// White space is what Unicode calls so, and nothing else.
pub proof fn white_space_is_that_of_unicode(c: char, r: bool)
    requires
        call_ensures(text::white_space, (c,), r),
    ensures
        r <==> {
            ||| 0x9 <= c as u32 <= 0xd
            ||| c as u32 == 0x20
            ||| c as u32 == 0x85
            ||| c as u32 == 0xa0
            ||| c as u32 == 0x1680
            ||| 0x2000 <= c as u32 <= 0x200a
            ||| c as u32 == 0x2028
            ||| c as u32 == 0x2029
            ||| c as u32 == 0x202f
            ||| c as u32 == 0x205f
            ||| c as u32 == 0x3000
        },
{
}

/// A trimmed text is the text without white space at its ends, and with all that stands between.
pub proof fn trimmed_text_stands_between_blanks(s: &str, r: String)
    requires
        call_ensures(text::trim, (s,), r),
    ensures
        exists|lead: Seq<char>, trail: Seq<char>|
            is_blank(lead) && is_blank(trail) && s@ == #[trigger] (lead + r@ + trail),
        r@.len() > 0 ==> !text::is_white_space(r@[0]) && !text::is_white_space(r@.last()),
{
    trimming_takes_blanks_away(s@);
}

/// Two texts are the same if they are of one length and agree at every place.
pub proof fn texts_are_the_same_character_by_character(a: &str, b: &str, r: bool)
    requires
        call_ensures(text::same_text, (a, b), r),
    ensures
        r <==> a@.len() == b@.len() && forall|i: int| 0 <= i < a@.len() ==> a@[i] == b@[i],
{
    if a@.len() == b@.len() && forall|i: int| 0 <= i < a@.len() ==> a@[i] == b@[i] {
        assert(a@ =~= b@);
    }
}

/// The lines of a text are its first line, and then the lines of what stands behind it.
pub proof fn lines_are_read_one_by_one(
    s: &str,
    behind: &str,
    line: Seq<char>,
    r: Vec<String>,
    others: Vec<String>,
)
    requires
        forall|i: int| 0 <= i < line.len() ==> line[i] != '\n',
        s@ == line + seq!['\n'] + behind@,
        call_ensures(text::lines, (s,), r),
        call_ensures(text::lines, (behind,), others),
    ensures
        r@.len() == others@.len() + 1,
        r@[0]@ == if line.len() > 0 && line.last() == '\r' {
            line.drop_last()
        } else {
            line
        },
        forall|i: int| 0 <= i < others@.len() ==> r@[i + 1]@ == (#[trigger] others@[i])@,
{
    lines_end_with_line_feeds(line, behind@);
    let all = text::texts(r@);
    let rest = text::texts(others@);
    assert(all.len() == r@.len());
    assert(rest.len() == others@.len());
    assert(all[0] == r@[0]@);
    assert forall|i: int| 0 <= i < others@.len() implies r@[i + 1]@ == (#[trigger] others@[i])@ by {
        assert(all[i + 1] == rest[i]);
        assert(all[i + 1] == r@[i + 1]@);
    }
}

/// The words of a text are its first word, and then the words of what stands behind it.
pub proof fn words_are_read_one_by_one(
    s: &str,
    behind: &str,
    word: Seq<char>,
    blank: char,
    r: Vec<String>,
    others: Vec<String>,
)
    requires
        word.len() > 0,
        forall|i: int| 0 <= i < word.len() ==> !text::is_white_space(#[trigger] word[i]),
        text::is_white_space(blank),
        s@ == word + seq![blank] + behind@,
        call_ensures(text::words, (s,), r),
        call_ensures(text::words, (behind,), others),
    ensures
        r@.len() == others@.len() + 1,
        r@[0]@ == word,
        forall|i: int| 0 <= i < others@.len() ==> r@[i + 1]@ == (#[trigger] others@[i])@,
{
    words_end_with_blanks(word, blank, behind@);
    let all = text::texts(r@);
    let rest = text::texts(others@);
    assert(all.len() == r@.len());
    assert(rest.len() == others@.len());
    assert(all[0] == r@[0]@);
    assert forall|i: int| 0 <= i < others@.len() implies r@[i + 1]@ == (#[trigger] others@[i])@ by {
        assert(all[i + 1] == rest[i]);
        assert(all[i + 1] == r@[i + 1]@);
    }
}

/// A number is written in digits from which it is read again.
pub proof fn written_number_is_read_again(
    n: u32,
    written: String,
    s: &str,
    read: Option<u32>,
)
    requires
        call_ensures(text::decimal, (n as u64,), written),
        s@ == written@,
        call_ensures(text::parse_u32, (s,), read),
    ensures
        read == Some(n),
        written@.len() > 1 ==> written@[0] != '0',
{
    digits_write_the_number(n as nat);
    text::decimal_is_read_back(n);
}

/// In two texts that are put together the characters are replaced in each; a character that is not
/// to be replaced stays.
pub proof fn characters_are_replaced_in_each_part(
    a: &str,
    b: &str,
    s: &str,
    from: char,
    with: &str,
    in_a: String,
    in_b: String,
    r: String,
)
    requires
        s@ == a@ + b@,
        call_ensures(text::replace_char, (a, from, with), in_a),
        call_ensures(text::replace_char, (b, from, with), in_b),
        call_ensures(text::replace_char, (s, from, with), r),
    ensures
        r@ == in_a@ + in_b@,
        a@ == seq![from] ==> in_a@ == with@,
        forall|c: char| a@ == #[trigger] seq![c] && c != from ==> in_a@ == a@,
        a@.len() == 0 ==> in_a@.len() == 0,
{
    every_character_is_replaced(a@, b@, from, with@);
    reveal_with_fuel(text::replaced, 3);
    if a@.len() == 1 {
        assert(a@.drop_last() =~= Seq::empty());
        assert(a@.last() == a@[0]);
        assert(a@ =~= seq![a@[0]]);
        assert(Seq::<char>::empty() + with@ =~= with@);
        assert(Seq::<char>::empty() + a@ =~= a@);
        assert forall|c: char| a@ == #[trigger] seq![c] && c != from implies in_a@ == a@ by {
            assert(a@[0] == seq![c][0]);
        }
        if a@ == seq![from] {
            assert(a@[0] == seq![from][0]);
        }
    }
}

/// Bytes that encode a text are read as the text. Of bytes that do not, the part before a line feed
/// and the part behind it are read apart.
pub proof fn bytes_are_read_line_by_line(
    bytes: &[u8],
    before: &[u8],
    behind: &[u8],
    r: String,
    first: String,
    second: String,
)
    requires
        bytes@ == before@ + seq![10u8] + behind@,
        call_ensures(text::decode_lossy, (bytes,), r),
        call_ensures(text::decode_lossy, (before,), first),
        call_ensures(text::decode_lossy, (behind,), second),
    ensures
        r@ == first@ + seq!['\n'] + second@,
        vstd::utf8::valid_utf8(bytes@) ==> r@ == vstd::utf8::decode_utf8(bytes@),
{
    let line = before@ + seq![10u8];
    text::line_feed_is_kept(before@);
    text::lines_are_mended_apart(line, behind@);
    assert(bytes@ =~= line + behind@);
    if vstd::utf8::valid_utf8(bytes@) {
        text::text_is_not_mended(bytes@);
    }
}

/// The characters of a text are its characters, in their order; a part of them is from one place up
/// to another; with the capital letters made small, all others are as they were.
pub proof fn characters_are_kept(
    s: &str,
    all: Vec<char>,
    from: usize,
    to: usize,
    part: String,
    small: Vec<char>,
    i: int,
)
    requires
        call_ensures(text::chars_of, (s,), all),
        call_ensures(text::text_of, (&all, from, to), part),
        call_ensures(text::ascii_lower_chars, (s,), small),
        from <= to <= s@.len(),
        0 <= i < s@.len(),
    ensures
        all@.len() == s@.len(),
        all@[i] == s@[i],
        part@.len() == to - from,
        from <= i < to ==> part@[i - from] == s@[i],
        small@.len() == s@.len(),
        'A' <= s@[i] <= 'Z' ==> small@[i] as int == s@[i] as int + 32,
        !('A' <= s@[i] <= 'Z') ==> small@[i] == s@[i],
{
}

/// A text is found in characters as it is found in the text of these characters.
pub proof fn text_is_found_in_characters(
    s: &str,
    wanted: &str,
    chars: &Vec<char>,
    needle: &Vec<char>,
    found: bool,
    has_text: bool,
    has_chars: bool,
    i: usize,
    here: bool,
)
    requires
        chars@ == s@,
        needle@ == wanted@,
        call_ensures(text::contains, (s, wanted), found),
        call_ensures(text::has_text, (chars, wanted), has_text),
        call_ensures(text::has_chars, (chars, needle), has_chars),
        i + wanted@.len() <= s@.len(),
        call_ensures(text::matches_at, (chars, needle, i), here),
    ensures
        has_text == found,
        has_chars == found,
        here ==> found,
        here <==> forall|k: int| 0 <= k < wanted@.len() ==> s@[i + k] == wanted@[k],
{
    if here {
        assert(text::occurs_at(s@, wanted@, i as int));
        assert forall|k: int| 0 <= k < wanted@.len() implies s@[i + k] == wanted@[k] by {
            assert(s@.subrange(i as int, i + wanted@.len())[k] == wanted@[k]);
        }
    }
    if forall|k: int| 0 <= k < wanted@.len() ==> s@[i + k] == wanted@[k] {
        assert(s@.subrange(i as int, i + wanted@.len()) =~= wanted@);
    }
}

/// What stands between the bounds is the trimmed text.
pub proof fn bounds_are_those_of_the_trimmed_text(
    s: &str,
    chars: &Vec<char>,
    bounds: (usize, usize),
    r: String,
)
    requires
        chars@ == s@,
        call_ensures(text::trim_bounds, (chars,), bounds),
        call_ensures(text::trim, (s,), r),
    ensures
        bounds.0 <= bounds.1 <= s@.len(),
        s@.subrange(bounds.0 as int, bounds.1 as int) == r@,
{
}

/// The characters of a member are those of the member that is found, where it is a text; and only
/// null is null.
pub proof fn member_has_its_characters(
    value: &Json,
    name: &str,
    member: Option<&Json>,
    r: Option<&str>,
    null: bool,
)
    requires
        call_ensures(Json::member, (value, name), member),
        call_ensures(Json::text_member, (value, name), r),
        call_ensures(Json::is_null, (value,), null),
    ensures
        match r {
            Some(found) => member matches Some(inner) && inner@ == JsonView::Text(found@),
            None => member matches Some(inner) ==> !(inner@ is Text),
        },
        null <==> value is Null,
{
    let found = json::opt_json(member);
    let chars = json::opt_str(r);
}

proof fn lemma_zero_before(s: Seq<char>)
    ensures
        text::digits_value(seq!['0'] + s) == text::digits_value(s),
    decreases s.len(),
{
    let all = seq!['0'] + s;
    if s.len() == 0 {
        assert(all.drop_last() =~= Seq::empty());
        assert(all.last() == '0');
        assert(text::digits_value(all.drop_last()) == 0);
    } else {
        lemma_zero_before(s.drop_last());
        assert(all.drop_last() =~= seq!['0'] + s.drop_last());
        assert(all.last() == s.last());
    }
}

/// A zero before the digits of a number changes nothing.
pub proof fn zero_before_a_number_changes_nothing(
    s: &str,
    longer: &str,
    r: Option<u32>,
    of_longer: Option<u32>,
)
    requires
        s@.len() > 0,
        s@[0] != '+',
        longer@ == seq!['0'] + s@,
        call_ensures(text::parse_u32, (s,), r),
        call_ensures(text::parse_u32, (longer,), of_longer),
    ensures
        r == of_longer,
{
    lemma_zero_before(s@);
    let all = longer@;
    assert(all[0] == '0');
    assert(text::without_plus(all) == all);
    assert(text::without_plus(s@) == s@);
    if forall|i: int| 0 <= i < s@.len() ==> text::is_digit(#[trigger] s@[i]) {
        assert forall|i: int| 0 <= i < all.len() implies text::is_digit(#[trigger] all[i]) by {
            if i > 0 {
                assert(all[i] == s@[i - 1]);
            }
        }
    } else {
        let i = choose|i: int| 0 <= i < s@.len() && !text::is_digit(#[trigger] s@[i]);
        assert(all[i + 1] == s@[i]);
        assert(!text::is_digit(all[i + 1]));
    }
}

/// A line of bytes that encode no text is mended, as a whole.
pub proof fn line_that_is_no_text_is_mended(bytes: &[u8], r: String)
    requires
        forall|i: int| 0 <= i < bytes@.len() ==> bytes@[i] != 10,
        !vstd::utf8::valid_utf8(bytes@),
        call_ensures(text::decode_lossy, (bytes,), r),
    ensures
        r@ == text::mended_text(bytes@),
{
    text::line_without_a_feed_is_one(bytes@);
}

proof fn lemma_order(a: Seq<char>, b: Seq<char>, i: int)
    requires
        0 <= i <= a.len(),
        i <= b.len(),
        forall|j: int| 0 <= j < i ==> a[j] == b[j],
        i < a.len() && i < b.len() ==> a[i] != b[i],
    ensures
        text::comes_before(a, b) <==> i < b.len() && (i == a.len() || a[i] < b[i]),
    decreases i,
{
    if i > 0 {
        assert(a[0] == b[0]);
        lemma_order(a.drop_first(), b.drop_first(), i - 1);
    }
}

/// Which of two texts comes first is decided by the first character that differs; where none does,
/// the shorter one comes first, and of two that are the same neither.
pub proof fn texts_are_compared_from_the_first_character_on(a: &str, b: &str, r: bool, i: int)
    requires
        call_ensures(text::precedes, (a, b), r),
        0 <= i <= a@.len(),
        i <= b@.len(),
        forall|j: int| 0 <= j < i ==> a@[j] == b@[j],
        i < a@.len() && i < b@.len() ==> a@[i] != b@[i],
    ensures
        r <==> i < b@.len() && (i == a@.len() || a@[i] < b@[i]),
{
    lemma_order(a@, b@, i);
}

/// A text is read as JSON if it is JSON, as the value that it writes.
pub proof fn json_is_read(s: &str, r: Option<Json>)
    requires
        call_ensures(json::parse_json, (s,), r),
    ensures
        match r {
            Some(value) => json::json_of(s@) == Some(value@),
            None => json::json_of(s@) is None,
        },
{
}

} // verus!
