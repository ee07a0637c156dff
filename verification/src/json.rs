//! JSON values as the decoders read them.

use crate::text::{decimal_digits, decimal_text, str_eq};
use crate::traits::exchange::ExchangeError;
use serde_json::Value;
use vstd::prelude::*;

verus! {

/// A JSON number.
#[derive(Debug)]
pub enum Number {
    /// An integer that is not negative.
    Unsigned(u64),
    /// A negative integer.
    Signed(i64),
    /// Any other number, as decimal text.
    Real(String),
}

/// A [`Number`] as contracts see it.
pub enum NumberView {
    Unsigned(u64),
    Signed(i64),
    Real(Seq<char>),
}

impl View for Number {
    type V = NumberView;

    open spec fn view(&self) -> NumberView {
        match self {
            Number::Unsigned(n) => NumberView::Unsigned(*n),
            Number::Signed(n) => NumberView::Signed(*n),
            Number::Real(text) => NumberView::Real(text@),
        }
    }
}

/// The decimal text of a number.
pub open spec fn number_text(number: NumberView) -> Seq<char> {
    match number {
        NumberView::Unsigned(n) => decimal_digits(n as nat),
        NumberView::Signed(n) => decimal_text(n as int),
        NumberView::Real(text) => text,
    }
}

/// A JSON value.  The members of an object are kept as a list of names and
/// values; a name is looked up from the front.
#[derive(Debug)]
pub enum Json {
    Null,
    Bool(bool),
    Number(Number),
    Text(String),
    Array(Vec<Json>),
    Object(Vec<(String, Json)>),
}

/// A [`Json`] value as contracts see it.
pub enum JsonView {
    Null,
    Bool(bool),
    Number(NumberView),
    Text(Seq<char>),
    Array(Seq<JsonView>),
    Object(Seq<(Seq<char>, JsonView)>),
}

impl View for Json {
    type V = JsonView;

    open spec fn view(&self) -> JsonView
        decreases self, 0nat,
    {
        match self {
            Json::Null => JsonView::Null,
            Json::Bool(b) => JsonView::Bool(*b),
            Json::Number(n) => JsonView::Number(n@),
            Json::Text(text) => JsonView::Text(text@),
            Json::Array(items) => JsonView::Array(items_view(items@, items@.len())),
            Json::Object(members) => JsonView::Object(members_view(members@, members@.len())),
        }
    }
}

/// The views of the first `n` of `items`.
pub open spec fn items_view(items: Seq<Json>, n: nat) -> Seq<JsonView>
    decreases items, n,
{
    if n == 0 || n > items.len() {
        Seq::empty()
    } else {
        items_view(items, (n - 1) as nat).push(items[n - 1].view())
    }
}

/// The views of the first `n` of `members`.
pub open spec fn members_view(members: Seq<(String, Json)>, n: nat) -> Seq<(Seq<char>, JsonView)>
    decreases members, n,
{
    if n == 0 || n > members.len() {
        Seq::empty()
    } else {
        members_view(members, (n - 1) as nat).push((members[n - 1].0@, members[n - 1].1.view()))
    }
}

/// The view of an array holds the views of its items, one for one.
pub proof fn lemma_items_view(items: Seq<Json>, n: nat)
    requires
        n <= items.len(),
    ensures
        items_view(items, n).len() == n,
        forall|i: int| 0 <= i < n ==> #[trigger] items_view(items, n)[i] == items[i]@,
    decreases n,
{
    if n > 0 {
        lemma_items_view(items, (n - 1) as nat);
        assert(items_view(items, n) == items_view(items, (n - 1) as nat).push(items[n - 1].view()));
    } else {
        assert(items_view(items, 0) =~= Seq::empty());
    }
}

/// The view of an object holds the names and the views of its members, one
/// for one.
pub proof fn lemma_members_view(members: Seq<(String, Json)>, n: nat)
    requires
        n <= members.len(),
    ensures
        members_view(members, n).len() == n,
        forall|i: int|
            0 <= i < n ==> #[trigger] members_view(members, n)[i] == (members[i].0@, members[i].1@),
    decreases n,
{
    if n > 0 {
        lemma_members_view(members, (n - 1) as nat);
        assert(members_view(members, n) == members_view(members, (n - 1) as nat).push(
            (members[n - 1].0@, members[n - 1].1.view()),
        ));
    } else {
        assert(members_view(members, 0) =~= Seq::empty());
    }
}

impl DeepView for Json {
    type V = JsonView;

    open spec fn deep_view(&self) -> JsonView {
        self.view()
    }
}

/// The value of the first member called `name`, if there is one.
pub open spec fn lookup(members: Seq<(Seq<char>, JsonView)>, name: Seq<char>) -> Option<JsonView>
    decreases members.len(),
{
    if members.len() == 0 {
        None
    } else if members[0].0 == name {
        Some(members[0].1)
    } else {
        lookup(members.drop_first(), name)
    }
}

impl JsonView {
    /// The member `name` of an object; nothing for a value that is no
    /// object or has no such member.
    pub open spec fn member(self, name: Seq<char>) -> Option<JsonView> {
        match self {
            JsonView::Object(members) => lookup(members, name),
            _ => None,
        }
    }

    /// The items of an array; nothing for any other value.
    pub open spec fn items(self) -> Option<Seq<JsonView>> {
        match self {
            JsonView::Array(items) => Some(items),
            _ => None,
        }
    }

    /// The characters of a string; nothing for any other value.
    pub open spec fn text(self) -> Option<Seq<char>> {
        match self {
            JsonView::Text(text) => Some(text),
            _ => None,
        }
    }

    /// A number; nothing for any other value.
    pub open spec fn number(self) -> Option<NumberView> {
        match self {
            JsonView::Number(number) => Some(number),
            _ => None,
        }
    }

    /// An integer that is not negative; nothing for any other value.
    pub open spec fn unsigned(self) -> Option<u64> {
        match self {
            JsonView::Number(NumberView::Unsigned(n)) => Some(n),
            _ => None,
        }
    }
}

impl Json {
    /// Looks up the member `name` of an object.
    pub fn get(&self, name: &str) -> (found: Option<&Json>)
        ensures
            match found {
                Some(value) => self@.member(name@) == Some(value@),
                None => self@.member(name@) is None,
            },
    {
        match self {
            Json::Object(members) => {
                let ghost all = self@->Object_0;
                let mut i: usize = 0;
                proof {
                    lemma_members_view(members@, members@.len());
                    assert(all.skip(0) =~= all);
                }
                while i < members.len()
                    invariant
                        i <= members.len(),
                        all.len() == members.len(),
                        self@.member(name@) == lookup(all, name@),
                        forall|k: int|
                            0 <= k < all.len() ==> #[trigger] all[k] == (
                                members@[k].0@,
                                members@[k].1@,
                            ),
                        lookup(all, name@) == lookup(all.skip(i as int), name@),
                    decreases members.len() - i,
                {
                    assert(all.skip(i as int).drop_first() =~= all.skip(i as int + 1));
                    if str_eq(members[i].0.as_str(), name) {
                        return Some(&members[i].1);
                    }
                    i = i + 1;
                }
                None
            },
            _ => None,
        }
    }

    /// The items of an array.
    pub fn as_array(&self) -> (found: Option<&Vec<Json>>)
        ensures
            match found {
                Some(items) => self@.items() == Some(items.deep_view()),
                None => self@.items() is None,
            },
    {
        match self {
            Json::Array(items) => {
                proof {
                    lemma_items_view(items@, items@.len());
                    assert(self@->Array_0 =~= items.deep_view());
                }
                Some(items)
            },
            _ => None,
        }
    }

    /// The characters of a string.
    pub fn as_str(&self) -> (found: Option<&str>)
        ensures
            match found {
                Some(text) => self@.text() == Some(text@),
                None => self@.text() is None,
            },
    {
        match self {
            Json::Text(text) => Some(text.as_str()),
            _ => None,
        }
    }

    /// A number.
    pub fn as_number(&self) -> (found: Option<&Number>)
        ensures
            match found {
                Some(number) => self@.number() == Some(number@),
                None => self@.number() is None,
            },
    {
        match self {
            Json::Number(number) => Some(number),
            _ => None,
        }
    }

    /// An integer that is not negative.
    pub fn as_u64(&self) -> (found: Option<u64>)
        ensures
            found == self@.unsigned(),
    {
        match self {
            Json::Number(Number::Unsigned(n)) => Some(*n),
            _ => None,
        }
    }
}

/// `serde_json::Value`, of which nothing is known but what [`value_view`]
/// names.
#[verifier::external_type_specification]
#[verifier::external_body]
pub struct ExValue(serde_json::Value);

/// `serde_json::Error`, which is only passed on.
#[verifier::external_type_specification]
#[verifier::external_body]
pub struct ExJsonError(serde_json::Error);

/// What a value of `serde_json` holds: its variants one for one, the
/// members of an object in the order in which its map walks them.
pub uninterp spec fn value_view(value: Value) -> JsonView;

/// The value that `text` denotes, if `text` is one JSON value with nothing
/// but blanks around it.
pub uninterp spec fn json_value(text: Seq<char>) -> Option<JsonView>;

/// Calls `serde_json::from_str` for a `Value`.  Trusted to return the value
/// that the text denotes, and an error for a text that denotes none.
#[verifier::external_body]
fn from_str(text: &str) -> (parsed: Result<Value, serde_json::Error>)
    ensures
        match parsed {
            Ok(value) => json_value(text@) == Some(value_view(value)),
            Err(_) => json_value(text@) is None,
        },
{
    serde_json::from_str::<Value>(text)
}

/// Copies a `serde_json::Value` into a [`Json`], variant by variant.  A
/// number becomes `Unsigned` where `as_u64` gives it, `Signed` where only
/// `as_i64` does, and otherwise `Real` with the text that its `Display`
/// writes.
#[verifier::external_body]
fn from_value(value: &Value) -> (json: Json)
    ensures
        json@ == value_view(*value),
{
    match value {
        Value::Null => Json::Null,
        Value::Bool(b) => Json::Bool(*b),
        Value::Number(n) => Json::Number(match (n.as_u64(), n.as_i64()) {
            (Some(u), _) => Number::Unsigned(u),
            (None, Some(i)) => Number::Signed(i),
            (None, None) => Number::Real(n.to_string()),
        }),
        Value::String(s) => Json::Text(s.clone()),
        Value::Array(items) => Json::Array(items.iter().map(from_value).collect()),
        Value::Object(map) => Json::Object(
            map.iter().map(|(k, v)| (k.clone(), from_value(v))).collect(),
        ),
    }
}

/// Reads `text` as one JSON value.
pub fn parse(text: &str) -> (parsed: Result<Json, ExchangeError>)
    ensures
        match parsed {
            Ok(json) => json_value(text@) == Some(json@),
            Err(e) => e == ExchangeError::Decode && json_value(text@) is None,
        },
{
    match from_str(text) {
        Ok(value) => Ok(from_value(&value)),
        Err(_) => Err(ExchangeError::Decode),
    }
}

} // verus!
