//! JSON values, as far as the protocol reads and writes them.
use vstd::prelude::*;
use vstd::string::*;

use crate::text::same_text;

verus! {

/// A JSON number: a whole number that fits in 64 bits, or else a double, given by its bits.
#[derive(Clone, Copy, Debug, PartialEq, Eq, Structural)]
pub enum JsonNumber {
    PosInt(u64),
    NegInt(i64),
    Float(u64),
}

/// A JSON value. Of two members of an object with one name, the first is the one that is read.
#[derive(Debug)]
pub enum Json {
    Null,
    Bool(bool),
    Number(JsonNumber),
    String(String),
    Array(Vec<Json>),
    Object(Vec<(String, Json)>),
}

/// A JSON value, with texts as sequences of characters.
pub enum JsonView {
    Null,
    Bool(bool),
    Number(JsonNumber),
    String(Seq<char>),
    Array(Seq<JsonView>),
    Object(Seq<(Seq<char>, JsonView)>),
}

impl View for Json {
    type V = JsonView;

    open spec fn view(&self) -> JsonView {
        json_view(*self)
    }
}

/// A JSON value's view.
pub open spec fn json_view(json: Json) -> JsonView
    decreases json,
{
    match json {
        Json::Null => JsonView::Null,
        Json::Bool(b) => JsonView::Bool(b),
        Json::Number(n) => JsonView::Number(n),
        Json::String(s) => JsonView::String(s@),
        Json::Array(items) => JsonView::Array(
            Seq::new(
                items@.len(),
                |i: int|
                    if 0 <= i < items@.len() {
                        json_view(items@[i])
                    } else {
                        JsonView::Null
                    },
            ),
        ),
        Json::Object(members) => JsonView::Object(
            Seq::new(
                members@.len(),
                |i: int|
                    if 0 <= i < members@.len() {
                        (members@[i].0@, json_view(members@[i].1))
                    } else {
                        (Seq::empty(), JsonView::Null)
                    },
            ),
        ),
    }
}

/// The values of some JSON values.
pub open spec fn json_views(items: Seq<Json>) -> Seq<JsonView> {
    Seq::new(items.len(), |i: int| items[i]@)
}

/// The first member of this name.
pub open spec fn member(members: Seq<(Seq<char>, JsonView)>, name: Seq<char>) -> Option<JsonView>
    decreases members.len(),
{
    if members.len() == 0 {
        None
    } else if members[0].0 == name {
        Some(members[0].1)
    } else {
        member(members.drop_first(), name)
    }
}

impl JsonView {
    /// The member of this name, where the value is an object that has one.
    pub open spec fn get(self, name: Seq<char>) -> Option<JsonView> {
        match self {
            JsonView::Object(members) => member(members, name),
            _ => None,
        }
    }

    /// The member of this name, or null where there is none.
    pub open spec fn at(self, name: Seq<char>) -> JsonView {
        match self.get(name) {
            Some(value) => value,
            None => JsonView::Null,
        }
    }

    /// The text, where the value is one.
    pub open spec fn as_text(self) -> Option<Seq<char>> {
        match self {
            JsonView::String(s) => Some(s),
            _ => None,
        }
    }

    /// The whole number, where the value is one that is not negative.
    pub open spec fn as_u64(self) -> Option<u64> {
        match self {
            JsonView::Number(JsonNumber::PosInt(n)) => Some(n),
            _ => None,
        }
    }

    /// The numbers among the items of an array, in their order; none where the value is no array.
    pub open spec fn numbers(self) -> Seq<JsonNumber> {
        match self {
            JsonView::Array(items) => numbers_in(items),
            _ => Seq::empty(),
        }
    }
}

/// The numbers among some values, in their order.
pub open spec fn numbers_in(items: Seq<JsonView>) -> Seq<JsonNumber>
    decreases items.len(),
{
    if items.len() == 0 {
        Seq::empty()
    } else {
        match items.last() {
            JsonView::Number(n) => numbers_in(items.drop_last()).push(n),
            _ => numbers_in(items.drop_last()),
        }
    }
}

impl Json {
    /// Tells whether the value is null.
    pub fn is_null(&self) -> (r: bool)
        ensures
            r == (self@ == JsonView::Null),
    {
        match self {
            Json::Null => true,
            _ => false,
        }
    }

    /// The text, where the value is one.
    pub fn as_str(&self) -> (r: Option<&str>)
        ensures
            match (r, self@.as_text()) {
                (Some(s), Some(text)) => s@ == text,
                (None, None) => true,
                _ => false,
            },
    {
        match self {
            Json::String(s) => Some(s.as_str()),
            _ => None,
        }
    }

    /// The whole number, where the value is one that is not negative.
    pub fn as_u64(&self) -> (r: Option<u64>)
        ensures
            r == self@.as_u64(),
    {
        match self {
            Json::Number(JsonNumber::PosInt(n)) => Some(*n),
            _ => None,
        }
    }

    /// The items, where the value is an array.
    pub fn as_array(&self) -> (r: Option<&Vec<Json>>)
        ensures
            match r {
                Some(items) => self@ == JsonView::Array(json_views(items@)),
                None => !(self@ is Array),
            },
    {
        match self {
            Json::Array(items) => {
                assert(self@->Array_0 == json_views(items@));
                Some(items)
            },
            _ => None,
        }
    }

    /// Tells whether the value is an object.
    pub fn is_object(&self) -> (r: bool)
        ensures
            r == (self@ is Object),
    {
        match self {
            Json::Object(_) => true,
            _ => false,
        }
    }

    /// The member of this name, where the value is an object that has one.
    pub fn get(&self, name: &str) -> (r: Option<&Json>)
        ensures
            match (r, self@.get(name@)) {
                (Some(value), Some(expected)) => value@ == expected,
                (None, None) => true,
                _ => false,
            },
    {
        match self {
            Json::Object(members) => {
                let ghost views = self@->Object_0;
                let mut i: usize = 0;
                assert(views.skip(0) == views);
                while i < members.len()
                    invariant
                        i <= members@.len(),
                        views.len() == members@.len(),
                        forall|j: int|
                            0 <= j < views.len() ==> #[trigger] views[j] == (
                                members@[j].0@,
                                members@[j].1@,
                            ),
                        self@ == JsonView::Object(views),
                        member(views, name@) == member(views.skip(i as int), name@),
                    decreases members.len() - i,
                {
                    assert(views.skip(i as int)[0] == views[i as int]);
                    if same_text(members[i].0.as_str(), name) {
                        return Some(&members[i].1);
                    }
                    assert(views.skip(i as int).drop_first() == views.skip(i + 1));
                    i = i + 1;
                }
                None
            },
            _ => None,
        }
    }

    /// The member of this name, or null where there is none.
    pub fn at(&self, name: &str) -> (r: &Json)
        ensures
            r@ == self@.at(name@),
    {
        match self.get(name) {
            Some(value) => value,
            None => &Json::Null,
        }
    }

    /// The numbers among the items of an array, in their order; none where the value is no array.
    pub fn numbers(&self) -> (r: Vec<JsonNumber>)
        ensures
            r@ == self@.numbers(),
    {
        let mut r: Vec<JsonNumber> = Vec::new();
        match self.as_array() {
            Some(items) => {
                let ghost views = json_views(items@);
                let mut i: usize = 0;
                while i < items.len()
                    invariant
                        i <= items@.len(),
                        views == json_views(items@),
                        r@ == numbers_in(views.take(i as int)),
                    decreases items.len() - i,
                {
                    assert(views.take(i + 1).drop_last() == views.take(i as int));
                    assert(views.take(i + 1).last() == items@[i as int]@);
                    match &items[i] {
                        Json::Number(n) => r.push(*n),
                        _ => {},
                    }
                    i = i + 1;
                }
                assert(views.take(i as int) == views);
            },
            None => {},
        }
        r
    }

    /// A text.
    pub fn text(s: &str) -> (r: Json)
        ensures
            r@ == JsonView::String(s@),
    {
        Json::String(s.to_owned())
    }

    /// A whole number.
    pub fn whole(n: u64) -> (r: Json)
        ensures
            r@ == JsonView::Number(JsonNumber::PosInt(n)),
    {
        Json::Number(JsonNumber::PosInt(n))
    }

    /// An array.
    pub fn array(items: Vec<Json>) -> (r: Json)
        ensures
            r@ == JsonView::Array(json_views(items@)),
    {
        let r = Json::Array(items);
        assert(r@->Array_0 == json_views(items@));
        r
    }

    /// An object.
    pub fn object(members: Vec<(String, Json)>) -> (r: Json)
        ensures
            r@ == JsonView::Object(
                Seq::new(members@.len(), |i: int| (members@[i].0@, members@[i].1@)),
            ),
    {
        let r = Json::Object(members);
        assert(r@->Object_0 == Seq::new(
            members@.len(),
            |i: int| (members@[i].0@, members@[i].1@),
        ));
        r
    }
}

// ---------------------------------------------------------------------------------------------
// Laws
// ---------------------------------------------------------------------------------------------
/// The member of a name is the first that has it, and there is none exactly where none has it.
pub proof fn members_by_name(
    before: Seq<(Seq<char>, JsonView)>,
    name: Seq<char>,
    value: JsonView,
    behind: Seq<(Seq<char>, JsonView)>,
)
    requires
        forall|i: int| 0 <= i < before.len() ==> (#[trigger] before[i]).0 != name,
    ensures
        JsonView::Object(before).get(name) is None,
        JsonView::Object(before).at(name) == JsonView::Null,
        JsonView::Object(before.push((name, value)) + behind).get(name) == Some(value),
        JsonView::Object(before.push((name, value)) + behind).at(name) == value,
    decreases before.len(),
{
    let members = before.push((name, value)) + behind;
    if before.len() > 0 {
        let rest = before.drop_first();
        assert forall|i: int| 0 <= i < rest.len() implies (#[trigger] rest[i]).0 != name by {
            assert(rest[i] == before[i + 1]);
        }
        members_by_name(rest, name, value, behind);
        assert(members[0] == before[0]);
        assert(members.drop_first() == rest.push((name, value)) + behind);
    } else {
        assert(members[0] == (name, value));
    }
}

/// Only objects have members, only texts are texts, and only whole numbers that are not negative
/// are such numbers.
pub proof fn kinds_of_values(value: JsonView, name: Seq<char>)
    ensures
        !(value is Object) ==> value.get(name) is None && value.at(name) == JsonView::Null,
        value.as_text() matches Some(s) ==> value == JsonView::String(s),
        value matches JsonView::String(s) ==> value.as_text() == Some(s),
        value.as_u64() matches Some(n) ==> value == JsonView::Number(JsonNumber::PosInt(n)),
        value matches JsonView::Number(JsonNumber::PosInt(n)) ==> value.as_u64() == Some(n),
{
}

/// The numbers of two lists are those of the first and then those of the second; a number is its
/// own list of numbers, and any other value gives none; what is no array has none.
pub proof fn numbers_of_arrays(
    a: Seq<JsonView>,
    b: Seq<JsonView>,
    n: JsonNumber,
    other: JsonView,
)
    ensures
        JsonView::Array(a + b).numbers() == JsonView::Array(a).numbers() + JsonView::Array(
            b,
        ).numbers(),
        JsonView::Array(seq![JsonView::Number(n)]).numbers() == seq![n],
        !(other is Number) ==> JsonView::Array(seq![other]).numbers() == Seq::<JsonNumber>::empty(),
        JsonView::Array(Seq::empty()).numbers() == Seq::<JsonNumber>::empty(),
        !(other is Array) ==> other.numbers() == Seq::<JsonNumber>::empty(),
    decreases b.len(),
{
    reveal_with_fuel(numbers_in, 2);
    assert(seq![JsonView::Number(n)].drop_last() == Seq::<JsonView>::empty());
    assert(seq![other].drop_last() == Seq::<JsonView>::empty());
    if b.len() == 0 {
        assert(a + b == a);
    } else {
        numbers_of_arrays(a, b.drop_last(), n, other);
        assert((a + b).drop_last() == a + b.drop_last());
        assert((a + b).last() == b.last());
    }
}

/// A value keeps what it holds.
pub proof fn values_keep_what_they_hold(
    b: bool,
    n: JsonNumber,
    s: String,
    items: Vec<Json>,
    members: Vec<(String, Json)>,
    i: int,
)
    ensures
        Json::Null@ == JsonView::Null,
        Json::Bool(b)@ == JsonView::Bool(b),
        Json::Number(n)@ == JsonView::Number(n),
        Json::String(s)@ == JsonView::String(s@),
        Json::Array(items)@ matches JsonView::Array(views) && views.len() == items@.len() && (0 <= i
            < views.len() ==> views[i] == items@[i]@),
        Json::Object(members)@ matches JsonView::Object(views) && views.len() == members@.len() && (
        0 <= i < views.len() ==> views[i] == (members@[i].0@, members@[i].1@)),
{
}

} // verus!
