//! JSON values in the form that `serde_json` has, and the bytes that it writes
//! them as.

use crate::json::{law_first_member_counts, members_view, Json, JsonView};
use vstd::prelude::*;

verus! {

/// What a value of `serde_json` holds. A number that is not kept as a whole one
/// is what it is written as, and an object binds names to values.
pub enum ValueView {
    Null,
    Flag(bool),
    Integer(int),
    Decimal(Seq<char>),
    Text(Seq<char>),
    Array(Seq<ValueView>),
    Object(Map<Seq<char>, ValueView>),
}

/// A value of `serde_json`.
#[verifier::external_type_specification]
#[verifier::external_body]
pub struct ExValue(serde_json::Value);

/// An object of `serde_json`.
#[verifier::external_type_specification]
#[verifier::external_body]
#[verifier::reject_recursive_types(K)]
#[verifier::reject_recursive_types(V)]
pub struct ExMap<K, V>(serde_json::Map<K, V>);

/// What a value of `serde_json` holds.
pub uninterp spec fn value_contents(value: serde_json::Value) -> ValueView;

/// The members of an object of `serde_json`.
pub uninterp spec fn object_members(
    object: serde_json::Map<String, serde_json::Value>,
) -> Map<Seq<char>, ValueView>;

/// The bytes that `serde_json::to_vec` writes a value as that holds this.
pub uninterp spec fn json_bytes(contents: ValueView) -> Seq<u8>;

/// A value without parts.
enum Leaf {
    Null,
    Flag(bool),
    Unsigned(u64),
    Signed(i64),
    Text(String),
}

/// What a value without parts holds.
spec fn leaf_contents(leaf: Leaf) -> ValueView {
    match leaf {
        Leaf::Null => ValueView::Null,
        Leaf::Flag(b) => ValueView::Flag(b),
        Leaf::Unsigned(n) => ValueView::Integer(n as int),
        Leaf::Signed(n) => ValueView::Integer(n as int),
        Leaf::Text(s) => ValueView::Text(s@),
    }
}

/// Calls `serde_json::Value::from`, which makes a value of `serde_json` of a
/// unit, a truth value, a whole number or a string: a null for the unit, a
/// value that holds it for any other.
#[verifier::external_body]
fn leaf_value(leaf: Leaf) -> (r: serde_json::Value)
    ensures
        value_contents(r) == leaf_contents(leaf),
{
    match leaf {
        Leaf::Null => serde_json::Value::from(()),
        Leaf::Flag(b) => serde_json::Value::from(b),
        Leaf::Unsigned(n) => serde_json::Value::from(n),
        Leaf::Signed(n) => serde_json::Value::from(n),
        Leaf::Text(s) => serde_json::Value::from(s),
    }
}

/// Calls `serde_json::Value::is_f64`, which tells whether a value is a number
/// that is not kept as a whole one.
#[verifier::external_body]
fn is_decimal(value: &serde_json::Value) -> (r: bool)
    ensures
        r == (value_contents(*value) is Decimal),
{
    value.is_f64()
}

/// Calls `clone` of `serde_json::Value`, which makes a value that holds the
/// same.
#[verifier::external_body]
fn copy_value(value: &serde_json::Value) -> (r: serde_json::Value)
    ensures
        value_contents(r) == value_contents(*value),
{
    value.clone()
}

/// Calls `serde_json::Value::from` on values, which makes an array of them.
#[verifier::external_body]
fn array_value(items: Vec<serde_json::Value>) -> (r: serde_json::Value)
    ensures
        value_contents(r) == ValueView::Array(
            items@.map_values(|v: serde_json::Value| value_contents(v)),
        ),
{
    serde_json::Value::from(items)
}

/// Calls `serde_json::Map::new`, which makes an object without members.
#[verifier::external_body]
fn new_object() -> (r: serde_json::Map<String, serde_json::Value>)
    ensures
        (object_members(r) == Map::<Seq<char>, ValueView>::empty()),
{
    serde_json::Map::new()
}

/// Calls `serde_json::Map::insert`, which gives the member of that name the
/// value, in place of the one that it had, and leaves the other members alone.
#[verifier::external_body]
fn set_member(
    object: &mut serde_json::Map<String, serde_json::Value>,
    name: &String,
    value: serde_json::Value,
)
    ensures
        object_members(*final(object)) == object_members(*old(object)).insert(
            name@,
            value_contents(value),
        ),
{
    object.insert(name.clone(), value);
}

/// Calls `serde_json::Value::from` on an object, which makes a value of it.
#[verifier::external_body]
fn object_value(object: serde_json::Map<String, serde_json::Value>) -> (r: serde_json::Value)
    ensures
        value_contents(r) == ValueView::Object(object_members(object)),
{
    serde_json::Value::from(object)
}

/// Calls `serde_json::to_vec` on a value, and `to_string` on its error. An
/// object keeps its members sorted by name, so the bytes are a function of what
/// the value holds. Writing fails only where a value refuses to be written or a
/// map has keys other than texts, and neither is so of a value of `serde_json`.
#[verifier::external_body]
fn value_to_vec(value: &serde_json::Value) -> (r: Result<Vec<u8>, String>)
    ensures
        match r {
            Ok(bytes) => bytes@ == json_bytes(value_contents(*value)),
            Err(_) => false,
        },
{
    serde_json::to_vec(value).map_err(|error| error.to_string())
}

/// A number that is not kept as a whole one.
pub struct Decimal {
    value: serde_json::Value,
}

impl View for Decimal {
    type V = Seq<char>;

    /// What the number is written as.
    closed spec fn view(&self) -> Seq<char> {
        value_contents(self.value)->Decimal_0
    }
}

impl Decimal {
    #[verifier::type_invariant]
    spec fn inv(self) -> bool {
        value_contents(self.value) is Decimal
    }

    /// The number that a value is, or the value itself where it is no such
    /// number.
    pub fn new(value: serde_json::Value) -> (r: Result<Decimal, serde_json::Value>)
        ensures
            match r {
                Ok(number) => value_contents(value) == ValueView::Decimal(number@),
                Err(other) => other == value && !(value_contents(value) is Decimal),
            },
    {
        if is_decimal(&value) {
            Ok(Decimal { value })
        } else {
            Err(value)
        }
    }

    /// The value that the number is.
    pub fn to_value(&self) -> (r: serde_json::Value)
        ensures
            value_contents(r) == ValueView::Decimal(self@),
    {
        proof {
            use_type_invariant(self);
        }
        copy_value(&self.value)
    }
}

/// What the members of a JSON object bind; of two with the same name the first
/// one counts.
pub open spec fn bound_members(members: Seq<(Seq<char>, JsonView)>) -> Map<Seq<char>, ValueView>
    decreases members,
{
    if members.len() == 0 {
        Map::empty()
    } else {
        bound_members(members.drop_first()).insert(members[0].0, contents(members[0].1))
    }
}

/// What a JSON value holds.
pub open spec fn contents(value: JsonView) -> ValueView
    decreases value,
{
    match value {
        JsonView::Null => ValueView::Null,
        JsonView::Bool(b) => ValueView::Flag(b),
        JsonView::Integer(n) => ValueView::Integer(n),
        JsonView::Decimal(text) => ValueView::Decimal(text),
        JsonView::Text(s) => ValueView::Text(s),
        JsonView::Array(items) => ValueView::Array(
            Seq::new(
                items.len(),
                |i: int|
                    if 0 <= i < items.len() {
                        contents(items[i])
                    } else {
                        ValueView::Null
                    },
            ),
        ),
        JsonView::Object(members) => ValueView::Object(bound_members(members)),
    }
}

/// What is written of an object is what is read from it: the same names, each
/// with the same value.
pub proof fn law_written_members_are_those_read(
    members: Seq<(Seq<char>, JsonView)>,
    name: Seq<char>,
)
    ensures
        match JsonView::Object(members).get(name) {
            Some(v) => bound_members(members).contains_key(name) && bound_members(members)[name]
                == contents(v),
            None => !bound_members(members).contains_key(name),
        },
    decreases members.len(),
{
    if members.len() > 0 {
        law_written_members_are_those_read(members.drop_first(), name);
    }
}

/// Makes a value of `serde_json` of a JSON value.
fn to_value(json: &Json) -> (r: serde_json::Value)
    ensures
        value_contents(r) == contents(json@),
    decreases json,
{
    match json {
        Json::Null => leaf_value(Leaf::Null),
        Json::Bool(b) => leaf_value(Leaf::Flag(*b)),
        Json::Unsigned(n) => leaf_value(Leaf::Unsigned(*n)),
        Json::Signed(n) => leaf_value(Leaf::Signed(*n)),
        Json::Decimal(number) => number.to_value(),
        Json::Text(s) => leaf_value(Leaf::Text(s.clone())),
        Json::Array(items) => {
            let mut values: Vec<serde_json::Value> = Vec::new();
            let mut i: usize = 0;
            while i < items.len()
                invariant
                    i <= items@.len(),
                    json == Json::Array(*items),
                    values@.len() == i,
                    forall|j: int|
                        0 <= j < i ==> value_contents(#[trigger] values@[j]) == contents(
                            items@[j]@,
                        ),
                decreases items@.len() - i,
            {
                assert(decreases_to!(json => json->Array_0));
                assert(decreases_to!(*items => items[i as int]));
                let value = to_value(&items[i]);
                values.push(value);
                i += 1;
            }
            let ghost parts = json@->Array_0;
            assert(values@.map_values(|v: serde_json::Value| value_contents(v))
                =~= contents(json@)->Array_0) by {
                assert forall|j: int| 0 <= j < parts.len() implies #[trigger] parts[j]
                    == items@[j]@ by {}
            }
            array_value(values)
        },
        Json::Object(members) => {
            let ghost all = members_view(members@);
            assert(json@->Object_0 =~= all);
            let mut object = new_object();
            let mut i: usize = members.len();
            assert(all.skip(i as int) == Seq::<(Seq<char>, JsonView)>::empty());
            while i > 0
                invariant
                    i <= members@.len(),
                    json == Json::Object(*members),
                    all == members_view(members@),
                    object_members(object) == bound_members(all.skip(i as int)),
                decreases i,
            {
                i -= 1;
                assert(decreases_to!(json => json->Object_0));
                assert(decreases_to!(*members => members[i as int]));
                let value = to_value(&members[i].1);
                set_member(&mut object, &members[i].0, value);
                assert(all.skip(i as int).drop_first() == all.skip(i + 1));
                assert(all.skip(i as int)[0] == all[i as int]);
            }
            assert(all.skip(0) == all);
            object_value(object)
        },
    }
}

/// Writes a JSON value.
pub fn json_to_vec(value: &Json) -> (r: Result<Vec<u8>, String>)
    ensures
        r matches Ok(bytes) && bytes@ == json_bytes(contents(value@)),
{
    value_to_vec(&to_value(value))
}

/// What is written of a value is what the value is: of the same kind, with the
/// same truth value, number or text, and the same items in the same order.
pub proof fn law_contents_are_those_of_the_value(b: bool, n: int, s: Seq<char>, items: Seq<JsonView>)
    ensures
        contents(JsonView::Null) == ValueView::Null,
        contents(JsonView::Bool(b)) == ValueView::Flag(b),
        contents(JsonView::Integer(n)) == ValueView::Integer(n),
        contents(JsonView::Decimal(s)) == ValueView::Decimal(s),
        contents(JsonView::Text(s)) == ValueView::Text(s),
        contents(JsonView::Array(items)) matches ValueView::Array(v) && v.len() == items.len() && (
        forall|i: int| 0 <= i < items.len() ==> #[trigger] v[i] == contents(items[i])),
{
}

/// An object is written with the members that it has: under each name that a
/// member has, the value of the first member with that name; and nothing else.
pub proof fn law_object_contents(members: Seq<(Seq<char>, JsonView)>, name: Seq<char>, i: int)
    ensures
        contents(JsonView::Object(members)) is Object,
        0 <= i < members.len() && members[i].0 == name && (forall|j: int|
            0 <= j < i ==> (#[trigger] members[j]).0 != name) ==> contents(
            JsonView::Object(members),
        )->Object_0.contains_key(name) && contents(JsonView::Object(members))->Object_0[name]
            == contents(members[i].1),
        (forall|j: int| 0 <= j < members.len() ==> (#[trigger] members[j]).0 != name) ==> !contents(
            JsonView::Object(members),
        )->Object_0.contains_key(name),
{
    law_written_members_are_those_read(members, name);
    law_first_member_counts(members, name, i);
}

} // verus!
