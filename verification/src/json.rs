//! JSON values as the services hand them out, and what is read from them.

use crate::text::same_text;
use crate::value::Decimal;
use crate::views::text_view;
use vstd::prelude::*;

verus! {

/// A JSON value. An object lists its members; of two members with the same
/// name the first one counts.
pub enum Json {
    Null,
    Bool(bool),
    /// A number without a fraction or an exponent, from zero on.
    Unsigned(u64),
    /// A number without a fraction or an exponent.
    Signed(i64),
    /// Any other number.
    Decimal(Decimal),
    Text(String),
    Array(Vec<Json>),
    Object(Vec<(String, Json)>),
}

/// What a JSON value is, apart from how it is stored.
pub enum JsonView {
    Null,
    Bool(bool),
    Integer(int),
    /// What the number is written as.
    Decimal(Seq<char>),
    Text(Seq<char>),
    Array(Seq<JsonView>),
    Object(Seq<(Seq<char>, JsonView)>),
}

/// The view of a JSON value.
pub open spec fn json_view(value: Json) -> JsonView
    decreases value,
{
    match value {
        Json::Null => JsonView::Null,
        Json::Bool(b) => JsonView::Bool(b),
        Json::Unsigned(n) => JsonView::Integer(n as int),
        Json::Signed(n) => JsonView::Integer(n as int),
        Json::Decimal(number) => JsonView::Decimal(number@),
        Json::Text(s) => JsonView::Text(s@),
        Json::Array(items) => JsonView::Array(
            Seq::new(
                items@.len(),
                |i: int|
                    if 0 <= i < items@.len() {
                        json_view(items@[i])
                    } else {
                        JsonView::Null
                    },
            ),
        ),
        Json::Object(members) => JsonView::Object(
            Seq::new(
                members@.len(),
                |i: int|
                    if 0 <= i < members@.len() {
                        (members@[i].0@, json_view(members@[i].1))
                    } else {
                        (Seq::empty(), JsonView::Null)
                    },
            ),
        ),
    }
}

impl View for Json {
    type V = JsonView;

    open spec fn view(&self) -> JsonView {
        json_view(*self)
    }
}

/// The views of the members of an object.
pub open spec fn members_view(members: Seq<(String, Json)>) -> Seq<(Seq<char>, JsonView)> {
    Seq::new(members.len(), |i: int| (members[i].0@, members[i].1@))
}

/// The first of `members` that has the given name.
pub open spec fn member(members: Seq<(Seq<char>, JsonView)>, name: Seq<char>) -> Option<JsonView>
    decreases members.len(),
{
    if members.len() == 0 {
        None
    } else if members.first().0 == name {
        Some(members.first().1)
    } else {
        member(members.drop_first(), name)
    }
}

impl JsonView {
    /// The member of that name, where the value is an object that has one.
    pub open spec fn get(self, name: Seq<char>) -> Option<JsonView> {
        match self {
            JsonView::Object(members) => member(members, name),
            _ => None,
        }
    }

    /// The truth value, where the value is one.
    pub open spec fn as_bool(self) -> Option<bool> {
        match self {
            JsonView::Bool(b) => Some(b),
            _ => None,
        }
    }

    /// The text, where the value is one.
    pub open spec fn as_str(self) -> Option<Seq<char>> {
        match self {
            JsonView::Text(s) => Some(s),
            _ => None,
        }
    }

    /// The number, where the value is an integer that an `i64` can hold.
    pub open spec fn as_i64(self) -> Option<i64> {
        match self {
            JsonView::Integer(n) => if i64::MIN <= n <= i64::MAX {
                Some(n as i64)
            } else {
                None
            },
            _ => None,
        }
    }

    /// The number, where the value is an integer that a `u64` can hold.
    pub open spec fn as_u64(self) -> Option<u64> {
        match self {
            JsonView::Integer(n) => if 0 <= n <= u64::MAX {
                Some(n as u64)
            } else {
                None
            },
            _ => None,
        }
    }

    /// The truth value of the member of that name.
    pub open spec fn bool_at(self, name: Seq<char>) -> Option<bool> {
        match self.get(name) {
            Some(v) => v.as_bool(),
            None => None,
        }
    }

    /// The text of the member of that name.
    pub open spec fn str_at(self, name: Seq<char>) -> Option<Seq<char>> {
        match self.get(name) {
            Some(v) => v.as_str(),
            None => None,
        }
    }

    /// The number, of type `i64`, of the member of that name.
    pub open spec fn i64_at(self, name: Seq<char>) -> Option<i64> {
        match self.get(name) {
            Some(v) => v.as_i64(),
            None => None,
        }
    }

    /// The number, of type `u64`, of the member of that name.
    pub open spec fn u64_at(self, name: Seq<char>) -> Option<u64> {
        match self.get(name) {
            Some(v) => v.as_u64(),
            None => None,
        }
    }
}

impl Json {
    /// The place of the first member that has the given name.
    fn position(members: &Vec<(String, Json)>, name: &str) -> (r: Option<usize>)
        ensures
            match r {
                Some(i) => i < members@.len() && member(members_view(members@), name@) == Some(
                    members@[i as int].1@,
                ),
                None => member(members_view(members@), name@) is None,
            },
    {
        let ghost all = members_view(members@);
        assert(all.skip(0) == all);
        let mut i: usize = 0;
        while i < members.len()
            invariant
                i <= members@.len(),
                all == members_view(members@),
                member(all.skip(i as int), name@) == member(all, name@),
            decreases members@.len() - i,
        {
            assert(all.skip(i as int).first() == all[i as int]);
            if same_text(members[i].0.as_str(), name) {
                return Some(i);
            }
            assert(all.skip(i as int).drop_first() == all.skip(i + 1));
            i += 1;
        }
        None
    }

    /// The member of that name, where the value is an object that has one.
    pub fn get(&self, name: &str) -> (r: Option<&Json>)
        ensures
            match r {
                Some(v) => self@.get(name@) == Some(v@),
                None => self@.get(name@) is None,
            },
    {
        match self {
            Json::Object(members) => {
                assert(self@->Object_0 =~= members_view(members@));
                match Self::position(members, name) {
                    Some(i) => Some(&members[i].1),
                    None => None,
                }
            },
            _ => None,
        }
    }

    /// Takes the member of that name out of the value.
    pub fn into_member(self, name: &str) -> (r: Option<Json>)
        ensures
            match r {
                Some(v) => self@.get(name@) == Some(v@),
                None => self@.get(name@) is None,
            },
    {
        match self {
            Json::Object(members) => {
                assert(self@->Object_0 =~= members_view(members@));
                let mut members = members;
                match Self::position(&members, name) {
                    Some(i) => {
                        let (_, value) = members.remove(i);
                        Some(value)
                    },
                    None => None,
                }
            },
            _ => None,
        }
    }

    /// The truth value of the member of that name.
    pub fn bool_at(&self, name: &str) -> (r: Option<bool>)
        ensures
            r == self@.bool_at(name@),
    {
        match self.get(name) {
            Some(Json::Bool(b)) => Some(*b),
            _ => None,
        }
    }

    /// The text of the member of that name.
    pub fn str_at(&self, name: &str) -> (r: Option<&str>)
        ensures
            text_view(r) == self@.str_at(name@),
    {
        match self.get(name) {
            Some(Json::Text(s)) => Some(s.as_str()),
            _ => None,
        }
    }

    /// The number, of type `i64`, of the member of that name.
    pub fn i64_at(&self, name: &str) -> (r: Option<i64>)
        ensures
            r == self@.i64_at(name@),
    {
        match self.get(name) {
            Some(Json::Unsigned(n)) => if *n <= i64::MAX as u64 {
                Some(*n as i64)
            } else {
                None
            },
            Some(Json::Signed(n)) => Some(*n),
            _ => None,
        }
    }

    /// The number, of type `u64`, of the member of that name.
    pub fn u64_at(&self, name: &str) -> (r: Option<u64>)
        ensures
            r == self@.u64_at(name@),
    {
        match self.get(name) {
            Some(Json::Unsigned(n)) => Some(*n),
            Some(Json::Signed(n)) => if 0 <= *n {
                Some(*n as u64)
            } else {
                None
            },
            _ => None,
        }
    }
}

/// Adds a member to an object.
pub(crate) fn put(members: &mut Vec<(String, Json)>, name: &str, value: Json)
    ensures
        members_view(final(members)@) == members_view(old(members)@).push((name@, value@)),
{
    members.push((name.to_owned(), value));
    assert(members_view(members@) =~= members_view(old(members)@).push((name@, value@)));
}

/// The object with those members.
pub(crate) fn object(members: Vec<(String, Json)>) -> (r: Json)
    ensures
        r@ == JsonView::Object(members_view(members@)),
{
    let r = Json::Object(members);
    assert(r@->Object_0 =~= members_view(members@));
    r
}

/// A text as JSON.
pub(crate) fn text(s: &str) -> (r: Json)
    ensures
        r@ == JsonView::Text(s@),
{
    Json::Text(s.to_owned())
}

/// A member of an object is the first one with its name, and there is none
/// where no member has that name.
pub proof fn law_first_member_counts(members: Seq<(Seq<char>, JsonView)>, name: Seq<char>, i: int)
    ensures
        0 <= i < members.len() && members[i].0 == name && (forall|j: int|
            0 <= j < i ==> (#[trigger] members[j]).0 != name) ==> JsonView::Object(members).get(name)
            == Some(members[i].1),
        (forall|j: int| 0 <= j < members.len() ==> (#[trigger] members[j]).0 != name)
            ==> JsonView::Object(members).get(name) is None,
    decreases members.len(),
{
    if members.len() > 0 {
        let rest = members.drop_first();
        assert(members.first() == members[0]);
        law_first_member_counts(rest, name, i - 1);
        if forall|j: int| 0 <= j < members.len() ==> (#[trigger] members[j]).0 != name {
            assert forall|j: int| 0 <= j < rest.len() implies (#[trigger] rest[j]).0 != name by {
                assert(rest[j] == members[j + 1]);
            }
        }
        if 0 < i < members.len() && members[i].0 == name && (forall|j: int|
            0 <= j < i ==> (#[trigger] members[j]).0 != name) {
            assert(members[0].0 != name);
            assert(rest[i - 1] == members[i]);
            assert forall|j: int| 0 <= j < i - 1 implies (#[trigger] rest[j]).0 != name by {
                assert(rest[j] == members[j + 1]);
            }
        }
    }
}

/// Only objects have members, and a member is read as a truth value, a text or
/// a number exactly where it is that one; a number has to fit.
pub proof fn law_members_are_read_as_what_they_are(
    value: JsonView,
    name: Seq<char>,
    b: bool,
    s: Seq<char>,
    n: i64,
    u: u64,
)
    ensures
        !(value is Object) ==> value.get(name) is None,
        value.bool_at(name) == Some(b) <==> value.get(name) == Some(JsonView::Bool(b)),
        value.str_at(name) == Some(s) <==> value.get(name) == Some(JsonView::Text(s)),
        value.i64_at(name) == Some(n) <==> value.get(name) == Some(JsonView::Integer(n as int)),
        value.u64_at(name) == Some(u) <==> value.get(name) == Some(JsonView::Integer(u as int)),
{
}

/// The view of a value is the value: the same kind, the same truth value,
/// number or text, and the same items or members in the same order.
pub proof fn law_view_is_the_value(value: Json)
    ensures
        match value {
            Json::Null => value@ == JsonView::Null,
            Json::Bool(b) => value@ == JsonView::Bool(b),
            Json::Unsigned(n) => value@ == JsonView::Integer(n as int),
            Json::Signed(n) => value@ == JsonView::Integer(n as int),
            Json::Decimal(number) => value@ == JsonView::Decimal(number@),
            Json::Text(s) => value@ == JsonView::Text(s@),
            Json::Array(items) => value@ matches JsonView::Array(v) && v.len() == items@.len() && (
            forall|i: int| 0 <= i < items@.len() ==> #[trigger] v[i] == items@[i]@),
            Json::Object(members) => value@ matches JsonView::Object(v) && v.len() == members@.len()
                && (forall|i: int|
                0 <= i < members@.len() ==> #[trigger] v[i] == (
                    members@[i].0@,
                    members@[i].1@,
                )),
        },
{
}

} // verus!
