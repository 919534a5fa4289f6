//! JSON values, and their text.

use vstd::prelude::*;
use vstd::string::*;

use crate::chars;
use crate::chars::{chars_of, same_text};
use crate::number;
use crate::number::parse_u64;

verus! {

/// A JSON number: an integer that fits 64 bits, or the text of any other number.
#[derive(Debug, PartialEq, Eq)]
pub enum JsonNumber {
    Unsigned(u64),
    Negative(i64),
    Other(String),
}

/// A JSON value. The members of an object keep their order.
#[derive(Debug, PartialEq, Eq)]
pub enum Json {
    Null,
    Bool(bool),
    Number(JsonNumber),
    Str(String),
    Array(Vec<Json>),
    Object(Vec<(String, Json)>),
}

/// What a [`JsonNumber`] stands for.
pub enum NumberView {
    Unsigned(u64),
    Negative(i64),
    Other(Seq<char>),
}

/// What a [`Json`] value stands for.
pub enum JsonView {
    Null,
    Bool(bool),
    Number(NumberView),
    Str(Seq<char>),
    Array(Seq<JsonView>),
    Object(Seq<(Seq<char>, JsonView)>),
}

impl JsonNumber {
    pub open spec fn view(&self) -> NumberView {
        match self {
            JsonNumber::Unsigned(n) => NumberView::Unsigned(*n),
            JsonNumber::Negative(n) => NumberView::Negative(*n),
            JsonNumber::Other(t) => NumberView::Other(t@),
        }
    }
}

impl Json {
    pub open spec fn view(&self) -> JsonView
        decreases self,
    {
        match self {
            Json::Null => JsonView::Null,
            Json::Bool(b) => JsonView::Bool(*b),
            Json::Number(n) => JsonView::Number(n@),
            Json::Str(s) => JsonView::Str(s@),
            Json::Array(items) => JsonView::Array(
                Seq::new(
                    items@.len(),
                    |i: int|
                        if 0 <= i < items@.len() {
                            items@[i].view()
                        } else {
                            JsonView::Null
                        },
                ),
            ),
            Json::Object(members) => JsonView::Object(
                Seq::new(
                    members@.len(),
                    |i: int|
                        if 0 <= i < members@.len() {
                            (members@[i].0@, members@[i].1.view())
                        } else {
                            (Seq::<char>::empty(), JsonView::Null)
                        },
                ),
            ),
        }
    }
}

// ---- Reading ----

/// The value of the first member of `v` that is called `key`, if `v` is an object.
pub open spec fn member(v: JsonView, key: Seq<char>) -> Option<JsonView> {
    match v {
        JsonView::Object(members) => first_named(members, key),
        _ => None,
    }
}

/// The value of the first of `members` that is called `key`.
pub open spec fn first_named(members: Seq<(Seq<char>, JsonView)>, key: Seq<char>) -> Option<
    JsonView,
>
    decreases members.len(),
{
    if members.len() == 0 {
        None
    } else if members[0].0 == key {
        Some(members[0].1)
    } else {
        first_named(members.drop_first(), key)
    }
}

pub open spec fn string_of(v: JsonView) -> Option<Seq<char>> {
    match v {
        JsonView::Str(s) => Some(s),
        _ => None,
    }
}

pub open spec fn bool_of(v: JsonView) -> Option<bool> {
    match v {
        JsonView::Bool(b) => Some(b),
        _ => None,
    }
}

pub open spec fn u64_of(v: JsonView) -> Option<u64> {
    match v {
        JsonView::Number(NumberView::Unsigned(n)) => Some(n),
        _ => None,
    }
}

pub open spec fn items_of(v: JsonView) -> Option<Seq<JsonView>> {
    match v {
        JsonView::Array(items) => Some(items),
        _ => None,
    }
}

/// The text of the member `key` of `v`, if it is a string.
pub open spec fn string_member(v: JsonView, key: Seq<char>) -> Option<Seq<char>> {
    match member(v, key) {
        Some(m) => string_of(m),
        None => None,
    }
}

/// The position that a path token stands for: digits without a leading zero.
pub open spec fn index_token(t: Seq<char>) -> Option<nat> {
    if t.len() > 0 && (t[0] == '+' || (t[0] == '0' && t.len() != 1)) {
        None
    } else {
        number::parsed_number(t, u64::MAX as nat)
    }
}

/// What a path token leads to: a member of an object, or an item of an array.
pub open spec fn step_into(v: JsonView, token: Seq<char>) -> Option<JsonView> {
    match v {
        JsonView::Object(members) => first_named(members, token),
        JsonView::Array(items) => match index_token(token) {
            Some(i) => if i < items.len() {
                Some(items[i as int])
            } else {
                None
            },
            None => None,
        },
        _ => None,
    }
}

/// What a path leads to, token by token.
pub open spec fn path_into(v: JsonView, tokens: Seq<Seq<char>>) -> Option<JsonView>
    decreases tokens.len(),
{
    if tokens.len() == 0 {
        Some(v)
    } else {
        match path_into(v, tokens.drop_last()) {
            Some(w) => step_into(w, tokens.last()),
            None => None,
        }
    }
}

/// A string at a path of a value.
pub open spec fn string_at(v: JsonView, path: Seq<Seq<char>>) -> Option<Seq<char>> {
    match path_into(v, path) {
        Some(x) => string_of(x),
        None => None,
    }
}

/// An unsigned integer at a path of a value.
pub open spec fn u64_at(v: JsonView, path: Seq<Seq<char>>) -> Option<u64> {
    match path_into(v, path) {
        Some(x) => u64_of(x),
        None => None,
    }
}

impl Json {
    /// The value of the member called `key`, if this is an object that has one.
    pub fn get(&self, key: &str) -> (r: Option<&Json>)
        ensures
            r is Some <==> member(self@, key@) is Some,
            r matches Some(j) ==> member(self@, key@) == Some(j@),
    {
        match self {
            Json::Object(members) => {
                let ghost all = self@->Object_0;
                let mut i: usize = 0;
                assert(all.skip(0) =~= all);
                while i < members.len()
                    invariant
                        self@ == JsonView::Object(all),
                        all.len() == members@.len(),
                        forall|k: int|
                            0 <= k < members@.len() ==> #[trigger] all[k] == (
                                members@[k].0@,
                                members@[k].1@,
                            ),
                        i <= members@.len(),
                        first_named(all.skip(i as int), key@) == first_named(all, key@),
                    decreases members@.len() - i,
                {
                    assert(all.skip(i as int)[0] == all[i as int]);
                    assert(all.skip(i as int).drop_first() =~= all.skip(i + 1));
                    if same_text(members[i].0.as_str(), key) {
                        return Some(&members[i].1);
                    }
                    i += 1;
                }
                None
            },
            _ => None,
        }
    }

    /// The text, if this is a string.
    pub fn as_str(&self) -> (r: Option<&str>)
        ensures
            r is Some <==> string_of(self@) is Some,
            r matches Some(s) ==> string_of(self@) == Some(s@),
    {
        match self {
            Json::Str(s) => Some(s.as_str()),
            _ => None,
        }
    }

    pub fn as_bool(&self) -> (r: Option<bool>)
        ensures
            r == bool_of(self@),
    {
        match self {
            Json::Bool(b) => Some(*b),
            _ => None,
        }
    }

    /// The number, if this is one from 0 on that fits 64 bits.
    pub fn as_u64(&self) -> (r: Option<u64>)
        ensures
            r == u64_of(self@),
    {
        match self {
            Json::Number(JsonNumber::Unsigned(n)) => Some(*n),
            _ => None,
        }
    }

    pub fn as_array(&self) -> (r: Option<&Vec<Json>>)
        ensures
            r is Some <==> items_of(self@) is Some,
            r matches Some(items) ==> items_of(self@) == Some(views(items@)),
    {
        match self {
            Json::Array(items) => {
                assert(self@->Array_0 =~= views(items@));
                Some(items)
            },
            _ => None,
        }
    }

    /// What the path token `token` leads to from here.
    pub fn step(&self, token: &str) -> (r: Option<&Json>)
        ensures
            r is Some <==> step_into(self@, token@) is Some,
            r matches Some(j) ==> step_into(self@, token@) == Some(j@),
    {
        match self {
            Json::Object(_) => self.get(token),
            Json::Array(items) => {
                let v = chars_of(token);
                if v.len() > 0 && (v[0] == '+' || (v[0] == '0' && v.len() != 1)) {
                    return None;
                }
                match parse_u64(token) {
                    Some(i) => {
                        if i < items.len() as u64 {
                            Some(&items[i as usize])
                        } else {
                            None
                        }
                    },
                    None => None,
                }
            },
            _ => None,
        }
    }

    /// What the path `tokens` leads to from here.
    pub fn pointer(&self, tokens: &Vec<&str>) -> (r: Option<&Json>)
        ensures
            r is Some <==> path_into(self@, str_views(tokens@)) is Some,
            r matches Some(j) ==> path_into(self@, str_views(tokens@)) == Some(j@),
    {
        let mut here: Option<&Json> = Some(self);
        let ghost all = str_views(tokens@);
        let mut i: usize = 0;
        while i < tokens.len()
            invariant
                i <= tokens@.len(),
                all == str_views(tokens@),
                here is Some <==> path_into(self@, all.take(i as int)) is Some,
                here matches Some(j) ==> path_into(self@, all.take(i as int)) == Some(j@),
            decreases tokens@.len() - i,
        {
            assert(all.take(i + 1).drop_last() =~= all.take(i as int));
            assert(all.take(i + 1).last() == tokens@[i as int]@);
            here = match here {
                Some(j) => j.step(tokens[i]),
                None => None,
            };
            i += 1;
        }
        assert(all.take(all.len() as int) =~= all);
        here
    }

    /// The text at a path of two steps.
    pub fn str_at(&self, first: &str, second: &str) -> (r: Option<&str>)
        ensures
            r is Some <==> string_at(self@, seq![first@, second@]) is Some,
            r matches Some(s) ==> string_at(self@, seq![first@, second@]) == Some(s@),
    {
        let mut path: Vec<&str> = Vec::new();
        path.push(first);
        path.push(second);
        assert(str_views(path@) =~= seq![first@, second@]);
        match self.pointer(&path) {
            Some(x) => x.as_str(),
            None => None,
        }
    }

    /// The unsigned integer at a path of two steps.
    pub fn u64_at_path(&self, first: &str, second: &str) -> (r: Option<u64>)
        ensures
            r == u64_at(self@, seq![first@, second@]),
    {
        let mut path: Vec<&str> = Vec::new();
        path.push(first);
        path.push(second);
        assert(str_views(path@) =~= seq![first@, second@]);
        match self.pointer(&path) {
            Some(x) => x.as_u64(),
            None => None,
        }
    }

    /// The text of the member called `key`, if there is one and it is a string.
    pub fn get_str(&self, key: &str) -> (r: Option<&str>)
        ensures
            r is Some <==> string_member(self@, key@) is Some,
            r matches Some(s) ==> string_member(self@, key@) == Some(s@),
    {
        match self.get(key) {
            Some(m) => m.as_str(),
            None => None,
        }
    }
}

/// The views of some string slices.
pub open spec fn str_views(tokens: Seq<&str>) -> Seq<Seq<char>> {
    tokens.map_values(|t: &str| t@)
}

/// The views of some values.
pub open spec fn views(items: Seq<Json>) -> Seq<JsonView> {
    items.map_values(|j: Json| j@)
}

// ---- Text ----

/// A value of the `serde_json` crate.
#[verifier::external_type_specification]
#[verifier::external_body]
pub struct ExValue(serde_json::Value);

/// What a `serde_json` value holds, with the members of an object in the order in which
/// it hands them out.
pub uninterp spec fn value_view(v: serde_json::Value) -> JsonView;

/// What reading a text as JSON gives.
pub uninterp spec fn parsed_json(t: Seq<char>) -> Option<JsonView>;

/// The compact text of a value.
pub uninterp spec fn json_text(v: JsonView) -> Seq<char>;

/// A `serde_json` value taken apart by one level.
pub enum ValueShape {
    Null,
    Bool(bool),
    Number(JsonNumber),
    Str(String),
    Array(Vec<serde_json::Value>),
    Object(Vec<(String, serde_json::Value)>),
}

impl ValueShape {
    pub open spec fn view(&self) -> JsonView {
        match self {
            ValueShape::Null => JsonView::Null,
            ValueShape::Bool(b) => JsonView::Bool(*b),
            ValueShape::Number(n) => JsonView::Number(n@),
            ValueShape::Str(s) => JsonView::Str(s@),
            ValueShape::Array(items) => JsonView::Array(
                items@.map_values(|v: serde_json::Value| value_view(v)),
            ),
            ValueShape::Object(members) => JsonView::Object(
                members@.map_values(|m: (String, serde_json::Value)| (m.0@, value_view(m.1))),
            ),
        }
    }
}

/// Whether each name comes before the next in dictionary order.
pub open spec fn names_ascend(members: Seq<(Seq<char>, JsonView)>) -> bool {
    forall|i: int|
        0 <= i < members.len() - 1 ==> chars::text_less(#[trigger] members[i].0, members[i + 1].0)
}

/// Whether a number is an integer, in the variant for its sign.
pub open spec fn is_integer(n: NumberView) -> bool {
    match n {
        NumberView::Unsigned(_) => true,
        NumberView::Negative(i) => i < 0,
        NumberView::Other(_) => false,
    }
}

/// Whether a value is a string or an integer.
pub open spec fn is_plain(v: JsonView) -> bool {
    match v {
        JsonView::Str(_) => true,
        JsonView::Number(n) => is_integer(n),
        _ => false,
    }
}

/// Whether a value is an object whose members are strings and integers.
pub open spec fn is_flat(v: JsonView) -> bool {
    v matches JsonView::Object(members) && forall|i: int|
        0 <= i < members.len() ==> is_plain((#[trigger] members[i]).1)
}

/// The first names of objects that `serde_json` reads as something else than an object.
pub const RAW_VALUE_NAME: &'static str = "$serde_json::private::RawValue";

pub const NUMBER_NAME: &'static str = "$serde_json::private::Number";

/// Whether a value is an object of strings and integers that is read as one: its first
/// member has neither of the names that `serde_json` keeps for itself.
pub open spec fn is_read_back(v: JsonView) -> bool {
    is_flat(v) && (v->Object_0.len() > 0 ==> v->Object_0[0].0 != RAW_VALUE_NAME@
        && v->Object_0[0].0 != NUMBER_NAME@)
}

/// A name that does not start with a dollar sign is none that `serde_json` keeps for itself.
pub proof fn lemma_name_is_free(name: Seq<char>)
    requires
        name.len() > 0,
        name[0] != '$',
    ensures
        name != RAW_VALUE_NAME@,
        name != NUMBER_NAME@,
{
    reveal_strlit("$serde_json::private::RawValue");
    reveal_strlit("$serde_json::private::Number");
    assert(RAW_VALUE_NAME@[0] == '$');
    assert(NUMBER_NAME@[0] == '$');
}

/// `serde_json::from_str`: the value that `text` is JSON for, or nothing where it is not
/// JSON. What comes out is named [`parsed_json`].
#[verifier::external_body]
fn value_from_text(text: &str) -> (r: Option<serde_json::Value>)
    ensures
        r is Some <==> parsed_json(text@) is Some,
        r matches Some(v) ==> parsed_json(text@) == Some(value_view(v)),
{
    serde_json::from_str::<serde_json::Value>(text).ok()
}

/// The variants of `serde_json::Value`, with the number told apart by `as_u64` and
/// `as_i64`: the shape holds what the value holds.
#[verifier::external_body]
fn take_apart(v: serde_json::Value) -> (r: ValueShape)
    ensures
        r@ == value_view(v),
{
    match v {
        serde_json::Value::Null => ValueShape::Null,
        serde_json::Value::Bool(b) => ValueShape::Bool(b),
        serde_json::Value::Number(n) => ValueShape::Number(match (n.as_u64(), n.as_i64()) {
            (Some(u), _) => JsonNumber::Unsigned(u),
            (None, Some(i)) => JsonNumber::Negative(i),
            (None, None) => JsonNumber::Other(n.to_string()),
        }),
        serde_json::Value::String(s) => ValueShape::Str(s),
        serde_json::Value::Array(items) => ValueShape::Array(items),
        serde_json::Value::Object(map) => ValueShape::Object(map.into_iter().collect()),
    }
}

/// The variants of `serde_json::Value` the other way round. A `serde_json::Map` hands its
/// members out in dictionary order of their names, so the value holds what the shape
/// holds where the names are in that order already.
#[verifier::external_body]
fn put_together(shape: ValueShape) -> (r: serde_json::Value)
    requires
        shape@ matches JsonView::Object(members) ==> names_ascend(members),
        shape@ matches JsonView::Number(n) ==> is_integer(n),
    ensures
        value_view(r) == shape@,
{
    match shape {
        ValueShape::Null => serde_json::Value::Null,
        ValueShape::Bool(b) => serde_json::Value::Bool(b),
        ValueShape::Number(JsonNumber::Unsigned(u)) => serde_json::Value::from(u),
        ValueShape::Number(JsonNumber::Negative(i)) => serde_json::Value::from(i),
        ValueShape::Number(JsonNumber::Other(_)) => serde_json::Value::Null,
        ValueShape::Str(s) => serde_json::Value::String(s),
        ValueShape::Array(items) => serde_json::Value::Array(items),
        ValueShape::Object(members) => serde_json::Value::Object(members.into_iter().collect()),
    }
}

/// `to_string` of a `serde_json::Value`: its compact text, named [`json_text`]. An object
/// of strings and integers comes back whole when that text is read, unless its first member
/// has a name that `serde_json` keeps for itself.
#[verifier::external_body]
fn value_to_text(v: &serde_json::Value) -> (r: String)
    ensures
        r@ == json_text(value_view(*v)),
        is_read_back(value_view(*v)) ==> parsed_json(r@) == Some(value_view(*v)),
{
    v.to_string()
}

/// The library's own form of a `serde_json` value.
fn from_value(v: serde_json::Value) -> (r: Json)
    ensures
        r@ == value_view(v),
    decreases value_view(v),
{
    let ghost whole = value_view(v);
    match take_apart(v) {
        ValueShape::Null => Json::Null,
        ValueShape::Bool(b) => Json::Bool(b),
        ValueShape::Number(n) => Json::Number(n),
        ValueShape::Str(s) => Json::Str(s),
        ValueShape::Array(items) => {
            let ghost held = items@.map_values(|v: serde_json::Value| value_view(v));
            let mut rest = items;
            let mut out: Vec<Json> = Vec::new();
            let ghost n = rest@.len();
            while rest.len() > 0
                invariant
                    whole == value_view(v),
                    whole == JsonView::Array(held),
                    held.len() == n,
                    n == out@.len() + rest@.len(),
                    forall|i: int|
                        0 <= i < rest@.len() ==> value_view(#[trigger] rest@[i]) == held[out@.len()
                            + i],
                    forall|i: int| 0 <= i < out@.len() ==> (#[trigger] out@[i])@ == held[i],
                decreases rest@.len(),
            {
                let ghost before = rest@;
                let first = rest.remove(0);
                assert(first == before[0]);
                assert(value_view(first) == held[out@.len() as int]);
                assert(decreases_to!(whole => whole->Array_0[out@.len() as int]));
                out.push(from_value(first));
                assert forall|i: int| 0 <= i < rest@.len() implies value_view(#[trigger] rest@[i])
                    == held[out@.len() + i] by {
                    assert(rest@[i] == before[i + 1]);
                }
            }
            let r = Json::Array(out);
            assert(r@->Array_0 =~= held);
            r
        },
        ValueShape::Object(members) => {
            let ghost held = members@.map_values(
                |m: (String, serde_json::Value)| (m.0@, value_view(m.1)),
            );
            let mut rest = members;
            let mut out: Vec<(String, Json)> = Vec::new();
            let ghost n = rest@.len();
            while rest.len() > 0
                invariant
                    whole == value_view(v),
                    whole == JsonView::Object(held),
                    held.len() == n,
                    n == out@.len() + rest@.len(),
                    forall|i: int|
                        0 <= i < rest@.len() ==> (
                            (#[trigger] rest@[i]).0@,
                            value_view(rest@[i].1),
                        ) == held[out@.len() + i],
                    forall|i: int|
                        0 <= i < out@.len() ==> ((#[trigger] out@[i]).0@, out@[i].1@) == held[i],
                decreases rest@.len(),
            {
                let ghost before = rest@;
                let (name, first) = rest.remove(0);
                assert((name, first) == before[0]);
                let ghost k = out@.len() as int;
                assert(held[k] == (name@, value_view(first)));
                assert(decreases_to!(whole => whole->Object_0[k].1));
                out.push((name, from_value(first)));
                assert forall|i: int| 0 <= i < rest@.len() implies (
                    (#[trigger] rest@[i]).0@,
                    value_view(rest@[i].1),
                ) == held[out@.len() + i] by {
                    assert(rest@[i] == before[i + 1]);
                }
            }
            let r = Json::Object(out);
            assert(r@->Object_0 =~= held);
            r
        },
    }
}

/// Reads a text as JSON.
pub fn parse_json(text: &str) -> (r: Option<Json>)
    ensures
        r is Some <==> parsed_json(text@) is Some,
        r matches Some(j) ==> parsed_json(text@) == Some(j@),
{
    match value_from_text(text) {
        Some(v) => Some(from_value(v)),
        None => None,
    }
}

/// Whether a value can be written as text: its numbers are integers, and the members of
/// each object are in dictionary order of their names.
pub open spec fn writable(v: JsonView) -> bool
    decreases v,
{
    match v {
        JsonView::Number(n) => is_integer(n),
        JsonView::Array(items) => forall|i: int| 0 <= i < items.len() ==> writable(#[trigger] items[i]),
        JsonView::Object(members) => names_ascend(members) && forall|i: int|
            0 <= i < members.len() ==> writable((#[trigger] members[i]).1),
        _ => true,
    }
}

/// An object of strings and integers can be written if its names are in order.
pub proof fn lemma_flat_is_writable(v: JsonView)
    requires
        is_flat(v),
        names_ascend(v->Object_0),
    ensures
        writable(v),
{
    let members = v->Object_0;
    assert forall|i: int| 0 <= i < members.len() implies writable((#[trigger] members[i]).1) by {
        assert(is_plain(members[i].1));
    }
}

/// The `serde_json` form of a value.
fn to_value(j: &Json) -> (r: serde_json::Value)
    requires
        writable(j@),
    ensures
        value_view(r) == j@,
    decreases j,
{
    match j {
        Json::Null => put_together(ValueShape::Null),
        Json::Bool(b) => put_together(ValueShape::Bool(*b)),
        Json::Number(JsonNumber::Unsigned(n)) => put_together(
            ValueShape::Number(JsonNumber::Unsigned(*n)),
        ),
        Json::Number(JsonNumber::Negative(n)) => put_together(
            ValueShape::Number(JsonNumber::Negative(*n)),
        ),
        Json::Number(JsonNumber::Other(_)) => put_together(ValueShape::Null),
        Json::Str(s) => put_together(ValueShape::Str(s.clone())),
        Json::Array(items) => {
            let ghost held = j@->Array_0;
            let mut out: Vec<serde_json::Value> = Vec::new();
            let mut i: usize = 0;
            while i < items.len()
                invariant
                    *j == Json::Array(*items),
                    writable(j@),
                    j@ == JsonView::Array(held),
                    held.len() == items@.len(),
                    forall|k: int| 0 <= k < items@.len() ==> held[k] == (#[trigger] items@[k])@,
                    i == out@.len(),
                    i <= items@.len(),
                    forall|k: int| 0 <= k < i ==> value_view(#[trigger] out@[k]) == held[k],
                decreases items@.len() - i,
            {
                assert(held[i as int] == items@[i as int]@);
                assert(j@->Array_0[i as int] == held[i as int]);
                assert(writable(j@->Array_0[i as int]));
                out.push(to_value(&items[i]));
                i += 1;
            }
            let shape = ValueShape::Array(out);
            assert(shape@->Array_0 =~= held);
            put_together(shape)
        },
        Json::Object(members) => {
            let ghost held = j@->Object_0;
            let mut out: Vec<(String, serde_json::Value)> = Vec::new();
            let mut i: usize = 0;
            while i < members.len()
                invariant
                    *j == Json::Object(*members),
                    writable(j@),
                    j@ == JsonView::Object(held),
                    held.len() == members@.len(),
                    forall|k: int|
                        0 <= k < members@.len() ==> held[k] == (
                            (#[trigger] members@[k]).0@,
                            members@[k].1@,
                        ),
                    i == out@.len(),
                    i <= members@.len(),
                    forall|k: int|
                        0 <= k < i ==> ((#[trigger] out@[k]).0@, value_view(out@[k].1)) == held[k],
                decreases members@.len() - i,
            {
                assert(held[i as int] == (members@[i as int].0@, members@[i as int].1@));
                assert(writable(held[i as int].1));
                out.push((members[i].0.clone(), to_value(&members[i].1)));
                i += 1;
            }
            let shape = ValueShape::Object(out);
            assert(shape@->Object_0 =~= held);
            put_together(shape)
        },
    }
}

impl Json {
    /// The compact text of this value. An object of strings and integers comes back whole
    /// when the text is read, unless its first member has a name that `serde_json` keeps for
    /// itself.
    pub fn to_text(&self) -> (r: String)
        requires
            writable(self@),
        ensures
            r@ == json_text(self@),
            is_read_back(self@) ==> parsed_json(r@) == Some(self@),
    {
        let v = to_value(self);
        value_to_text(&v)
    }
}

// ---- Making values ----

/// The views of some members.
pub open spec fn member_views(members: Seq<(String, Json)>) -> Seq<(Seq<char>, JsonView)> {
    members.map_values(|m: (String, Json)| (m.0@, m.1@))
}

pub fn text(s: &str) -> (r: Json)
    ensures
        r@ == JsonView::Str(s@),
{
    Json::Str(String::from_str(s))
}

pub fn unsigned(n: u64) -> (r: Json)
    ensures
        r@ == JsonView::Number(NumberView::Unsigned(n)),
{
    Json::Number(JsonNumber::Unsigned(n))
}

/// What an integer is as a JSON number.
pub open spec fn integer_view(n: i64) -> JsonView {
    if n < 0 {
        JsonView::Number(NumberView::Negative(n))
    } else {
        JsonView::Number(NumberView::Unsigned(n as u64))
    }
}

pub fn integer(n: i64) -> (r: Json)
    ensures
        r@ == integer_view(n),
{
    if n < 0 {
        Json::Number(JsonNumber::Negative(n))
    } else {
        Json::Number(JsonNumber::Unsigned(n as u64))
    }
}

pub fn field(name: &str, value: Json) -> (r: (String, Json))
    ensures
        r.0@ == name@,
        r.1 == value,
{
    (String::from_str(name), value)
}

pub fn object(members: Vec<(String, Json)>) -> (r: Json)
    ensures
        r@ == JsonView::Object(member_views(members@)),
        r == Json::Object(members),
{
    let r = Json::Object(members);
    assert(r@->Object_0 =~= member_views(members@));
    r
}

pub fn array(items: Vec<Json>) -> (r: Json)
    ensures
        r@ == JsonView::Array(views(items@)),
        r == Json::Array(items),
{
    let r = Json::Array(items);
    assert(r@->Array_0 =~= views(items@));
    r
}

/// Whether members make an object that can be written.
pub open spec fn are_members(m: Seq<(Seq<char>, JsonView)>) -> bool {
    names_ascend(m) && forall|i: int| 0 <= i < m.len() ==> writable((#[trigger] m[i]).1)
}

/// Whether `name` may follow the members that are there.
pub open spec fn comes_next(m: Seq<(Seq<char>, JsonView)>, name: Seq<char>) -> bool {
    m.len() == 0 || chars::text_less(m.last().0, name)
}

/// An object in the making. Its members are added in the order of their names.
pub struct ObjectBuilder {
    members: Vec<(String, Json)>,
}

impl View for ObjectBuilder {
    type V = Seq<(Seq<char>, JsonView)>;

    closed spec fn view(&self) -> Seq<(Seq<char>, JsonView)> {
        member_views(self.members@)
    }
}

impl ObjectBuilder {
    pub fn new() -> (r: Self)
        ensures
            r@ == Seq::<(Seq<char>, JsonView)>::empty(),
            are_members(r@),
    {
        let r = ObjectBuilder { members: Vec::new() };
        assert(r@ =~= Seq::<(Seq<char>, JsonView)>::empty());
        r
    }

    /// Adds a member.
    pub fn put(&mut self, name: &str, value: Json)
        requires
            are_members(old(self)@),
            comes_next(old(self)@, name@),
            writable(value@),
        ensures
            final(self)@ == old(self)@.push((name@, value@)),
            are_members(final(self)@),
    {
        let ghost before = self@;
        let ghost given = value@;
        self.members.push(field(name, value));
        assert(self@ =~= before.push((name@, given)));
        proof {
            let m = self@;
            assert forall|i: int| 0 <= i < m.len() - 1 implies chars::text_less(
                #[trigger] m[i].0,
                m[i + 1].0,
            ) by {
                if i < before.len() - 1 {
                    assert(chars::text_less(before[i].0, before[i + 1].0));
                }
            }
            assert forall|i: int| 0 <= i < m.len() implies writable((#[trigger] m[i]).1) by {
                if i < before.len() {
                    assert(m[i] == before[i]);
                }
            }
        }
    }

    /// The object.
    pub fn done(self) -> (r: Json)
        requires
            are_members(self@),
        ensures
            r@ == JsonView::Object(self@),
            writable(r@),
    {
        object(self.members)
    }
}

/// Whether an object has a member of this name with this value.
pub open spec fn holds(v: JsonView, name: Seq<char>, value: JsonView) -> bool {
    v is Object && exists|i: int|
        0 <= i < v->Object_0.len() && #[trigger] v->Object_0[i] == (name, value)
}

/// An array of values that can be written can be written.
pub proof fn lemma_array_is_writable(items: Seq<JsonView>)
    requires
        forall|i: int| 0 <= i < items.len() ==> writable(#[trigger] items[i]),
    ensures
        writable(JsonView::Array(items)),
{
}

// ---- Laws ----

/// The first member of a name is the one that is found.
pub proof fn law_first_member_is_found(members: Seq<(Seq<char>, JsonView)>, key: Seq<char>, k: int)
    requires
        0 <= k < members.len(),
        members[k].0 == key,
        forall|i: int| 0 <= i < k ==> (#[trigger] members[i]).0 != key,
    ensures
        member(JsonView::Object(members), key) == Some(members[k].1),
    decreases k,
{
    if k > 0 {
        assert(members[0].0 != key);
        let rest = members.drop_first();
        assert(rest[k - 1] == members[k]);
        assert forall|i: int| 0 <= i < k - 1 implies (#[trigger] rest[i]).0 != key by {
            assert(members[i + 1].0 != key);
        }
        law_first_member_is_found(rest, key, k - 1);
    }
}

/// No member is found where none has the name.
pub proof fn law_missing_member_is_not_found(members: Seq<(Seq<char>, JsonView)>, key: Seq<char>)
    requires
        forall|i: int| 0 <= i < members.len() ==> (#[trigger] members[i]).0 != key,
    ensures
        member(JsonView::Object(members), key) is None,
    decreases members.len(),
{
    if members.len() > 0 {
        assert(members[0].0 != key);
        let rest = members.drop_first();
        assert forall|i: int| 0 <= i < rest.len() implies (#[trigger] rest[i]).0 != key by {
            assert(members[i + 1].0 != key);
        }
        law_missing_member_is_not_found(rest, key);
    }
}

/// Only an object has members.
pub proof fn law_only_objects_have_members(v: JsonView, key: Seq<char>)
    ensures
        !(v is Object) ==> member(v, key) is None,
        member(v, key) matches Some(JsonView::Str(s)) ==> string_member(v, key) == Some(s),
        member(v, key) is None ==> string_member(v, key) is None,
        member(v, key) matches Some(m) ==> (!(m is Str) ==> string_member(v, key) is None),
{
}

/// A value is read as what it is, and as nothing else.
pub proof fn law_values_are_read_as_they_are(
    t: Seq<char>,
    n: u64,
    b: bool,
    items: Seq<JsonView>,
    v: JsonView,
)
    ensures
        string_of(JsonView::Str(t)) == Some(t),
        u64_of(JsonView::Number(NumberView::Unsigned(n))) == Some(n),
        bool_of(JsonView::Bool(b)) == Some(b),
        items_of(JsonView::Array(items)) == Some(items),
        string_of(v) is Some ==> v is Str,
        u64_of(v) is Some ==> v is Number,
        bool_of(v) is Some ==> v is Bool,
        items_of(v) is Some ==> v is Array,
{
}

/// A path goes into one value after the other: into an object by a name, and into an array by a
/// position.
pub proof fn law_path_goes_by_name_and_position(
    v: JsonView,
    path: Seq<Seq<char>>,
    key: Seq<char>,
    i: nat,
)
    ensures
        path_into(v, Seq::empty()) == Some(v),
        path_into(v, path) matches Some(JsonView::Object(members)) ==> path_into(v, path.push(key))
            == member(JsonView::Object(members), key),
        path_into(v, path) matches Some(JsonView::Array(items)) ==> (i < items.len() && i <= u64::MAX
            ==> path_into(v, path.push(number::nat_text(i))) == Some(items[i as int])),
        path_into(v, path) matches Some(JsonView::Array(items)) ==> (i >= items.len() ==> path_into(
            v,
            path.push(number::nat_text(i)),
        ) is None),
        path_into(v, path) is None ==> path_into(v, path.push(key)) is None,
{
    let digits = number::nat_text(i);
    assert(path.push(key).drop_last() =~= path);
    assert(path.push(digits).drop_last() =~= path);
    number::law_numbers_are_written_with_digits(i);
    number::law_written_number_is_read_back(i, u64::MAX as nat);
    assert(digits[0] >= '0');
}

/// A string or a number is told at the end of a path only if it stands there.
pub proof fn law_values_are_told_at_a_path(v: JsonView, path: Seq<Seq<char>>)
    ensures
        path_into(v, path) matches Some(JsonView::Str(s)) ==> string_at(v, path) == Some(s),
        path_into(v, path) matches Some(JsonView::Number(NumberView::Unsigned(n))) ==> u64_at(v, path)
            == Some(n),
        path_into(v, path) is None ==> string_at(v, path) is None && u64_at(v, path) is None,
        path_into(v, path) matches Some(x) ==> (!(x is Str) ==> string_at(v, path) is None),
        path_into(v, path) matches Some(x) ==> (!(x is Number) ==> u64_at(v, path) is None),
{
}

/// A whole number is told as it is, with or without a sign.
pub proof fn law_integers_keep_their_value(n: i64)
    ensures
        n >= 0 ==> u64_of(integer_view(n)) == Some(n as u64),
        n < 0 ==> integer_view(n) == JsonView::Number(NumberView::Negative(n)),
        writable(integer_view(n)),
{
}

} // verus!
