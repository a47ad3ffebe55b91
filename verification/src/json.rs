//! JSON values, as far as the event log and the app server need them.

use crate::text;
use vstd::prelude::*;

verus! {

/// A JSON value.
pub enum Json {
    Null,
    Bool(bool),
    /// A number, with its value where it is an integer of 64 bits and not negative.
    Number(Option<u64>),
    Text(String),
    /// A list. What it holds is not kept.
    List,
    /// The members of an object, each with its name.
    Object(Vec<(String, Json)>),
}

/// What a JSON value says.
pub enum JsonView {
    Null,
    Bool(bool),
    Number(Option<u64>),
    Text(Seq<char>),
    List,
    Object(Map<Seq<char>, JsonView>),
}

/// The members of an object, by name. The last of two members of one name counts.
pub open spec fn members_view(members: Seq<(String, Json)>) -> Map<Seq<char>, JsonView>
    decreases members,
{
    if members.len() == 0 {
        Map::empty()
    } else {
        members_view(members.drop_last()).insert(members.last().0@, members.last().1.view())
    }
}

impl View for Json {
    type V = JsonView;

    open spec fn view(&self) -> JsonView
        decreases self,
    {
        match self {
            Json::Null => JsonView::Null,
            Json::Bool(b) => JsonView::Bool(*b),
            Json::Number(n) => JsonView::Number(*n),
            Json::Text(s) => JsonView::Text(s@),
            Json::List => JsonView::List,
            Json::Object(members) => JsonView::Object(members_view(members@)),
        }
    }
}

impl JsonView {
    /// The member of an object with the given name.
    pub open spec fn member(self, name: Seq<char>) -> Option<JsonView> {
        match self {
            JsonView::Object(members) => if members.contains_key(name) {
                Some(members[name])
            } else {
                None
            },
            _ => None,
        }
    }

    /// The characters of a string.
    pub open spec fn text(self) -> Option<Seq<char>> {
        match self {
            JsonView::Text(s) => Some(s),
            _ => None,
        }
    }

    /// The characters of the member with the given name, where it is a string.
    pub open spec fn text_member(self, name: Seq<char>) -> Option<Seq<char>> {
        match self.member(name) {
            Some(value) => value.text(),
            None => None,
        }
    }
}

/// The value of an optional JSON value.
pub open spec fn opt_json(value: Option<&Json>) -> Option<JsonView> {
    match value {
        Some(json) => Some(json@),
        None => None,
    }
}

/// The characters of an optional string.
pub open spec fn opt_str(value: Option<&str>) -> Option<Seq<char>> {
    match value {
        Some(s) => Some(s@),
        None => None,
    }
}

proof fn lemma_member_found(members: Seq<(String, Json)>, at: int, name: Seq<char>)
    requires
        0 <= at < members.len(),
        members[at].0@ == name,
        forall|k: int| at < k < members.len() ==> (#[trigger] members[k]).0@ != name,
    ensures
        members_view(members).contains_key(name),
        members_view(members)[name] == members[at].1@,
    decreases members.len(),
{
    reveal_with_fuel(members_view, 2);
    assert(members.last() == members[members.len() - 1]);
    if at < members.len() - 1 {
        lemma_member_found(members.drop_last(), at, name);
    }
}

proof fn lemma_member_missing(members: Seq<(String, Json)>, name: Seq<char>)
    requires
        forall|k: int| 0 <= k < members.len() ==> (#[trigger] members[k]).0@ != name,
    ensures
        !members_view(members).contains_key(name),
    decreases members.len(),
{
    reveal_with_fuel(members_view, 2);
    if members.len() > 0 {
        assert(members.last() == members[members.len() - 1]);
        lemma_member_missing(members.drop_last(), name);
    }
}

impl Json {
    /// The member of an object with the given name.
    pub fn member(&self, name: &str) -> (r: Option<&Json>)
        ensures
            opt_json(r) == self@.member(name@),
    {
        match self {
            Json::Object(members) => {
                let mut i: usize = members.len();
                while i > 0
                    invariant
                        i <= members@.len(),
                        self@ == JsonView::Object(members_view(members@)),
                        forall|k: int|
                            i <= k < members@.len() ==> (#[trigger] members@[k]).0@ != name@,
                    decreases i,
                {
                    i = i - 1;
                    if text::same_text(members[i].0.as_str(), name) {
                        proof {
                            lemma_member_found(members@, i as int, name@);
                        }
                        return Some(&members[i].1);
                    }
                }
                proof {
                    lemma_member_missing(members@, name@);
                }
                None
            },
            _ => None,
        }
    }

    /// The characters of a string.
    pub fn text(&self) -> (r: Option<&str>)
        ensures
            opt_str(r) == self@.text(),
    {
        match self {
            Json::Text(s) => Some(s.as_str()),
            _ => None,
        }
    }

    /// The characters of the member with the given name, where it is a string.
    pub fn text_member(&self, name: &str) -> (r: Option<&str>)
        ensures
            opt_str(r) == self@.text_member(name@),
    {
        match self.member(name) {
            Some(value) => value.text(),
            None => None,
        }
    }

    /// Whether the value is null.
    pub fn is_null(&self) -> (r: bool)
        ensures
            r == (self@ == JsonView::Null),
    {
        matches!(self, Json::Null)
    }
}

/// The JSON values of `serde_json`.
#[verifier::external_type_specification]
#[verifier::external_body]
pub struct ExValue(serde_json::Value);

/// What a `serde_json::Value` holds, lists aside: a member of an object by its name.
pub uninterp spec fn value_view(value: serde_json::Value) -> JsonView;

/// What `serde_json::from_str` reads from a text: the JSON value that it writes, or nothing where
/// it writes none.
pub uninterp spec fn json_of(text: Seq<char>) -> Option<JsonView>;

/// `serde_json::from_str` into a `serde_json::Value`: the value that the text writes. Which texts
/// write a value, and which value, is left to the parser.
#[verifier::external_body]
fn read_value(text: &str) -> (r: Option<serde_json::Value>)
    ensures
        r is Some <==> json_of(text@) is Some,
        r matches Some(value) ==> json_of(text@) == Some(value_view(value)),
{
    serde_json::from_str(text).ok()
}

/// How deep the objects in a `serde_json::Value` are nested.
pub uninterp spec fn value_depth(value: serde_json::Value) -> nat;

/// A `serde_json::Value`, taken apart.
enum Opened {
    Null,
    Bool(bool),
    Number(Option<u64>),
    Text(String),
    List,
    Object(Vec<(String, serde_json::Value)>),
}

/// The members of an object, by name.
spec fn opened_members(members: Seq<(String, serde_json::Value)>) -> Map<Seq<char>, JsonView>
    decreases members.len(),
{
    if members.len() == 0 {
        Map::empty()
    } else {
        opened_members(members.drop_last()).insert(
            members.last().0@,
            value_view(members.last().1),
        )
    }
}

impl Opened {
    /// What the value says.
    spec fn view(self) -> JsonView {
        match self {
            Opened::Null => JsonView::Null,
            Opened::Bool(b) => JsonView::Bool(b),
            Opened::Number(n) => JsonView::Number(n),
            Opened::Text(s) => JsonView::Text(s@),
            Opened::List => JsonView::List,
            Opened::Object(members) => JsonView::Object(opened_members(members@)),
        }
    }
}

/// The variants of `serde_json::Value`, told apart: a number by `serde_json::Number::as_u64`, an
/// object as the list of its members. What a member holds is nested less deep than the object.
#[verifier::external_body]
fn open_value(value: serde_json::Value) -> (r: Opened)
    ensures
        r@ == value_view(value),
        r matches Opened::Object(members) ==> forall|i: int|
            0 <= i < members@.len() ==> value_depth((#[trigger] members@[i]).1) < value_depth(
                value,
            ),
{
    match value {
        serde_json::Value::Null => Opened::Null,
        serde_json::Value::Bool(b) => Opened::Bool(b),
        serde_json::Value::Number(n) => Opened::Number(n.as_u64()),
        serde_json::Value::String(s) => Opened::Text(s),
        serde_json::Value::Array(_) => Opened::List,
        serde_json::Value::Object(members) => Opened::Object(members.into_iter().collect()),
    }
}

/// A `serde_json::Value` as a value of this crate.
fn json_from_value(value: serde_json::Value) -> (r: Json)
    ensures
        r@ == value_view(value),
    decreases value_depth(value),
{
    match open_value(value) {
        Opened::Null => Json::Null,
        Opened::Bool(b) => Json::Bool(b),
        Opened::Number(n) => Json::Number(n),
        Opened::Text(s) => Json::Text(s),
        Opened::List => Json::List,
        Opened::Object(members) => {
            let ghost all = members@;
            let mut r: Vec<(String, Json)> = Vec::new();
            for member in it: members
                invariant
                    it.seq() == all,
                    r@.len() == it.index(),
                    forall|i: int|
                        0 <= i < all.len() ==> value_depth((#[trigger] all[i]).1) < value_depth(
                            value,
                        ),
                    forall|i: int|
                        0 <= i < r@.len() ==> (#[trigger] r@[i]).0 == all[i].0 && r@[i].1@
                            == value_view(all[i].1),
            {
                let (name, inner) = member;
                let ghost before = r@;
                assert(all[it.index() as int].1 == inner);
                r.push((name, json_from_value(inner)));
                assert forall|i: int| 0 <= i < r@.len() implies (#[trigger] r@[i]).0 == all[i].0
                    && r@[i].1@ == value_view(all[i].1) by {
                    if i < before.len() {
                        assert(r@[i] == before[i]);
                    }
                }
            }
            proof {
                lemma_members_opened(r@, all);
            }
            Json::Object(r)
        },
    }
}

proof fn lemma_members_opened(
    members: Seq<(String, Json)>,
    opened: Seq<(String, serde_json::Value)>,
)
    requires
        members.len() == opened.len(),
        forall|i: int|
            0 <= i < members.len() ==> (#[trigger] members[i]).0 == opened[i].0 && members[i].1@
                == value_view(opened[i].1),
    ensures
        members_view(members) == opened_members(opened),
    decreases members.len(),
{
    reveal_with_fuel(members_view, 2);
    if members.len() > 0 {
        assert(members.last() == members[members.len() - 1]);
        assert forall|i: int| 0 <= i < members.drop_last().len() implies (
        #[trigger] members.drop_last()[i]).0 == opened.drop_last()[i].0
            && members.drop_last()[i].1@ == value_view(opened.drop_last()[i].1) by {
            assert(members.drop_last()[i] == members[i]);
        }
        lemma_members_opened(members.drop_last(), opened.drop_last());
    }
}

/// The value that a text writes in JSON.
pub fn parse_json(text: &str) -> (r: Option<Json>)
    ensures
        r is Some <==> json_of(text@) is Some,
        r matches Some(value) ==> json_of(text@) == Some(value@),
{
    match read_value(text) {
        Some(value) => Some(json_from_value(value)),
        None => None,
    }
}

/// How `serde_json` writes the member of the given name of the object that a text writes.
pub uninterp spec fn member_json(text: Seq<char>, name: Seq<char>) -> Option<Seq<char>>;

/// `serde_json::from_str`, `serde_json::Value::get` and `serde_json::Value::to_string`: how the
/// member of the given name is written, of the object that the text writes, where the text writes
/// one that has it.
#[verifier::external_body]
pub(crate) fn write_member(text: &str, name: &str) -> (r: Option<String>)
    ensures
        text::opt_text(r) == member_json(text@, name@),
        r is Some <==> (json_of(text@) matches Some(value) && value.member(name@) is Some),
{
    let value: serde_json::Value = serde_json::from_str(text).ok()?;
    value.get(name).map(|member| member.to_string())
}

// ---------------------------------------------------------------------------
// Writing strings
// ---------------------------------------------------------------------------

/// The hexadecimal digit for a number below sixteen.
pub open spec fn hex_digit(d: int) -> char {
    if d < 10 {
        (48 + d) as char
    } else {
        (87 + d) as char
    }
}

/// A character inside a JSON string.
pub open spec fn json_escaped(c: char) -> Seq<char> {
    if c == '"' {
        seq!['\\', '"']
    } else if c == '\\' {
        seq!['\\', '\\']
    } else if c == '\u{8}' {
        seq!['\\', 'b']
    } else if c == '\t' {
        seq!['\\', 't']
    } else if c == '\n' {
        seq!['\\', 'n']
    } else if c == '\u{c}' {
        seq!['\\', 'f']
    } else if c == '\r' {
        seq!['\\', 'r']
    } else if c <= '\u{1f}' {
        seq!['\\', 'u', '0', '0', hex_digit(c as int / 16), hex_digit(c as int % 16)]
    } else {
        seq![c]
    }
}

/// The characters of a text inside a JSON string.
pub open spec fn json_escaped_text(s: Seq<char>) -> Seq<char>
    decreases s.len(),
{
    if s.len() == 0 {
        Seq::empty()
    } else {
        json_escaped_text(s.drop_last()) + json_escaped(s.last())
    }
}

/// A text as a JSON string, with its quotation marks.
pub open spec fn json_quoted(s: Seq<char>) -> Seq<char> {
    seq!['"'] + json_escaped_text(s) + seq!['"']
}

/// `serde_json::to_string` of a string: the text in quotation marks, with the quotation mark, the
/// backslash and the control characters below the space escaped.
#[verifier::external_body]
pub(crate) fn quote_json(s: &str) -> (r: String)
    ensures
        r@ == json_quoted(s@),
{
    serde_json::to_string(s).unwrap()
}

} // verus!
