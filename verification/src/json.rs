//! JSON documents as the client reads them.

use vstd::prelude::*;
use crate::text::{same_text, text_view, joined};

verus! {

/// `serde_json::Number`, carried through unread where it is no integer.
#[verifier::external_type_specification]
#[verifier::external_body]
pub struct ExNumber(serde_json::Number);

/// What `serde_json::Number::as_u64` gives.
pub uninterp spec fn unsigned_of(number: serde_json::Number) -> Option<u64>;

/// What `serde_json::Number::as_i64` gives.
pub uninterp spec fn signed_of(number: serde_json::Number) -> Option<i64>;

/// A JSON number. Unsigned integers are the only numbers that are ever read.
#[derive(Debug)]
pub enum JsonNumber {
    /// A whole number from zero up.
    Unsigned(u64),
    /// A whole number below zero.
    Negative(i64),
    /// A number that is held as a fraction.
    Other(serde_json::Number),
}

/// One key of an object, with its value.
#[derive(Debug)]
pub struct Member {
    pub key: String,
    pub value: Json,
}

/// A JSON document. The members of an object stand in ascending order of their keys, no key
/// twice (see [`JValue::wf`]).
#[derive(Debug)]
pub enum Json {
    Null,
    Bool(bool),
    Number(JsonNumber),
    String(String),
    Array(Vec<Json>),
    Object(Vec<Member>),
}

/// What a JSON document holds.
pub ghost enum JValue {
    Null,
    Bool(bool),
    Number(JsonNumber),
    Text(Seq<char>),
    Array(Seq<JValue>),
    Object(Seq<(Seq<char>, JValue)>),
}

/// Lexicographic order by code point.
pub open spec fn text_less(a: Seq<char>, b: Seq<char>) -> bool
    decreases a.len(),
{
    if a.len() == 0 {
        b.len() > 0
    } else {
        &&& b.len() > 0
        &&& a[0] < b[0] || (a[0] == b[0] && text_less(a.drop_first(), b.drop_first()))
    }
}

/// The keys ascend strictly.
pub open spec fn keys_ascend(members: Seq<(Seq<char>, JValue)>) -> bool {
    forall|i: int, j: int|
        0 <= i < j < members.len() ==> text_less((#[trigger] members[i]).0, (#[trigger] members[j]).0)
}

/// The value of the first member called `key`.
pub open spec fn member_called(members: Seq<(Seq<char>, JValue)>, key: Seq<char>) -> Option<JValue>
    decreases members.len(),
{
    if members.len() == 0 {
        None
    } else if members[0].0 == key {
        Some(members[0].1)
    } else {
        member_called(members.drop_first(), key)
    }
}

/// The texts among `items`, in order; what is no text is passed over.
pub open spec fn texts_among(items: Seq<JValue>) -> Seq<Seq<char>>
    decreases items.len(),
{
    if items.len() == 0 {
        Seq::empty()
    } else {
        match items.last().text() {
            Some(t) => texts_among(items.drop_last()).push(t),
            None => texts_among(items.drop_last()),
        }
    }
}

impl JValue {
    /// Every object has its members in ascending order of their keys, no key twice, and an
    /// integer is held as one.
    pub open spec fn wf(self) -> bool
        decreases self,
    {
        match self {
            JValue::Array(items) => forall|i: int|
                0 <= i < items.len() ==> (#[trigger] items[i]).wf(),
            JValue::Object(members) => {
                &&& keys_ascend(members)
                &&& forall|i: int| 0 <= i < members.len() ==> (#[trigger] members[i]).1.wf()
            },
            JValue::Number(JsonNumber::Negative(n)) => n < 0,
            JValue::Number(JsonNumber::Other(n)) => unsigned_of(n) is None && signed_of(n) is None,
            _ => true,
        }
    }

    /// Arrays and objects stand in each other at most `levels` deep.
    pub open spec fn nested_within(self, levels: nat) -> bool
        decreases self,
    {
        match self {
            JValue::Array(items) => {
                &&& levels > 0
                &&& forall|i: int|
                    0 <= i < items.len() ==> (#[trigger] items[i]).nested_within(
                        (levels - 1) as nat,
                    )
            },
            JValue::Object(members) => {
                &&& levels > 0
                &&& forall|i: int|
                    0 <= i < members.len() ==> (#[trigger] members[i]).1.nested_within(
                        (levels - 1) as nat,
                    )
            },
            _ => true,
        }
    }

    /// The member called `key`, where the value is an object that has it.
    pub open spec fn get(self, key: Seq<char>) -> Option<JValue> {
        match self {
            JValue::Object(members) => member_called(members, key),
            _ => None,
        }
    }

    /// The text that the value is.
    pub open spec fn text(self) -> Option<Seq<char>> {
        match self {
            JValue::Text(t) => Some(t),
            _ => None,
        }
    }

    /// The truth value that the value is.
    pub open spec fn truth(self) -> Option<bool> {
        match self {
            JValue::Bool(b) => Some(b),
            _ => None,
        }
    }

    /// The unsigned integer that the value is.
    pub open spec fn unsigned(self) -> Option<u64> {
        match self {
            JValue::Number(JsonNumber::Unsigned(n)) => Some(n),
            _ => None,
        }
    }

    /// The items of the array that the value is.
    pub open spec fn items(self) -> Option<Seq<JValue>> {
        match self {
            JValue::Array(items) => Some(items),
            _ => None,
        }
    }

    /// The members of the object that the value is.
    pub open spec fn members(self) -> Option<Seq<(Seq<char>, JValue)>> {
        match self {
            JValue::Object(members) => Some(members),
            _ => None,
        }
    }

    /// The text under `key`.
    pub open spec fn text_at(self, key: Seq<char>) -> Option<Seq<char>> {
        match self.get(key) {
            Some(v) => v.text(),
            None => None,
        }
    }

    /// The truth value under `key`.
    pub open spec fn truth_at(self, key: Seq<char>) -> Option<bool> {
        match self.get(key) {
            Some(v) => v.truth(),
            None => None,
        }
    }

    /// The unsigned integer under `key`.
    pub open spec fn unsigned_at(self, key: Seq<char>) -> Option<u64> {
        match self.get(key) {
            Some(v) => v.unsigned(),
            None => None,
        }
    }

    /// The items of the array under `key`.
    pub open spec fn items_at(self, key: Seq<char>) -> Option<Seq<JValue>> {
        match self.get(key) {
            Some(v) => v.items(),
            None => None,
        }
    }

    /// The members of the object under `key`.
    pub open spec fn members_at(self, key: Seq<char>) -> Option<Seq<(Seq<char>, JValue)>> {
        match self.get(key) {
            Some(v) => v.members(),
            None => None,
        }
    }

    /// The text under `key`, a dash where there is none.
    pub open spec fn field(self, key: Seq<char>) -> Seq<char> {
        match self.text_at(key) {
            Some(t) => t,
            None => "-"@,
        }
    }

    /// The texts of the array that the value is, with commas between them; none where there is
    /// no array or the list comes out empty.
    pub open spec fn text_list(self) -> Option<Seq<char>> {
        match self.items() {
            Some(items) => {
                let list = joined(texts_among(items), ", "@);
                if list.len() == 0 {
                    None
                } else {
                    Some(list)
                }
            },
            None => None,
        }
    }

    /// The text list under `key`, a dash where there is none.
    pub open spec fn list_field(self, key: Seq<char>) -> Seq<char> {
        match self.get(key) {
            Some(v) => match v.text_list() {
                Some(t) => t,
                None => "-"@,
            },
            None => "-"@,
        }
    }

    /// The truth value under `key`, false where there is none.
    pub open spec fn flag(self, key: Seq<char>) -> bool {
        self.truth_at(key) == Some(true)
    }
}

/// An object is well formed where its keys ascend and its members are well formed.
pub proof fn object_wf(v: JValue)
    requires
        v is Object,
        keys_ascend(v->Object_0),
        forall|i: int| 0 <= i < v->Object_0.len() ==> (#[trigger] v->Object_0[i]).1.wf(),
    ensures
        v.wf(),
{
}

/// The text under the first of `keys` that has one.
pub open spec fn first_text(v: JValue, keys: Seq<Seq<char>>) -> Option<Seq<char>>
    decreases keys.len(),
{
    if keys.len() == 0 {
        None
    } else {
        match v.text_at(keys[0]) {
            Some(t) => Some(t),
            None => first_text(v, keys.drop_first()),
        }
    }
}

/// What the documents of a list hold.
pub open spec fn values(items: Seq<Json>) -> Seq<JValue> {
    Seq::new(items.len(), |i: int| items[i]@)
}

/// What the members of a list hold.
pub open spec fn pairs(members: Seq<Member>) -> Seq<(Seq<char>, JValue)> {
    Seq::new(members.len(), |i: int| (members[i].key@, members[i].value@))
}

/// What an optional document holds.
pub open spec fn value_view(v: Option<&Json>) -> Option<JValue> {
    match v {
        Some(j) => Some(j@),
        None => None,
    }
}

/// What a list of strings holds.
pub open spec fn key_texts(keys: Seq<&str>) -> Seq<Seq<char>> {
    Seq::new(keys.len(), |i: int| keys[i]@)
}

/// A member with the given key and value.
pub fn member(key: &str, value: Json) -> (r: Member)
    ensures
        r.key@ == key@,
        r.value@ == value@,
{
    Member { key: key.to_string(), value }
}

impl Json {
    /// What the document holds.
    pub open spec fn view(&self) -> JValue
        decreases self,
    {
        match self {
            Json::Null => JValue::Null,
            Json::Bool(b) => JValue::Bool(*b),
            Json::Number(n) => JValue::Number(*n),
            Json::String(s) => JValue::Text(s@),
            Json::Array(items) => JValue::Array(
                Seq::new(
                    items@.len(),
                    |i: int|
                        if 0 <= i < items@.len() {
                            items@[i].view()
                        } else {
                            JValue::Null
                        },
                ),
            ),
            Json::Object(members) => JValue::Object(
                Seq::new(
                    members@.len(),
                    |i: int|
                        if 0 <= i < members@.len() {
                            (members@[i].key@, members@[i].value.view())
                        } else {
                            (Seq::empty(), JValue::Null)
                        },
                ),
            ),
        }
    }

    /// An object with the given members.
    pub fn object(members: Vec<Member>) -> (r: Json)
        ensures
            r@ == JValue::Object(pairs(members@)),
    {
        let r = Json::Object(members);
        assert(r@->Object_0 =~= pairs(members@));
        r
    }

    /// An array of the given items.
    pub fn array(items: Vec<Json>) -> (r: Json)
        ensures
            r@ == JValue::Array(values(items@)),
    {
        let r = Json::Array(items);
        assert(r@->Array_0 =~= values(items@));
        r
    }

    /// The member called `key`, where the document is an object that has it.
    pub fn get(&self, key: &str) -> (r: Option<&Json>)
        ensures
            value_view(r) == self@.get(key@),
    {
        match self {
            Json::Object(members) => {
                let ghost all = pairs(members@);
                assert(self@ == JValue::Object(all)) by {
                    assert(self@->Object_0 =~= all);
                }
                let mut i: usize = 0;
                assert(all.skip(0) =~= all);
                while i < members.len()
                    invariant
                        i <= members@.len(),
                        all == pairs(members@),
                        self@ == JValue::Object(all),
                        member_called(all, key@) == member_called(all.skip(i as int), key@),
                    decreases members.len() - i,
                {
                    let ghost rest = all.skip(i as int);
                    assert(rest[0] == (members@[i as int].key@, members@[i as int].value@));
                    if same_text(members[i].key.as_str(), key) {
                        return Some(&members[i].value);
                    }
                    assert(rest.drop_first() =~= all.skip(i + 1));
                    i += 1;
                }
                None
            },
            _ => None,
        }
    }

    /// The text that the document is.
    pub fn as_str(&self) -> (r: Option<&str>)
        ensures
            text_view(r) == self@.text(),
    {
        match self {
            Json::String(s) => Some(s.as_str()),
            _ => None,
        }
    }

    /// The truth value that the document is.
    pub fn as_bool(&self) -> (r: Option<bool>)
        ensures
            r == self@.truth(),
    {
        match self {
            Json::Bool(b) => Some(*b),
            _ => None,
        }
    }

    /// The unsigned integer that the document is.
    pub fn as_u64(&self) -> (r: Option<u64>)
        ensures
            r == self@.unsigned(),
    {
        match self {
            Json::Number(JsonNumber::Unsigned(n)) => Some(*n),
            _ => None,
        }
    }

    /// The items of the array that the document is.
    pub fn as_array(&self) -> (r: Option<&Vec<Json>>)
        ensures
            match r {
                Some(items) => self@ == JValue::Array(values(items@)),
                None => self@.items() is None,
            },
    {
        match self {
            Json::Array(items) => {
                assert(self@->Array_0 =~= values(items@));
                Some(items)
            },
            _ => None,
        }
    }

    /// The members of the object that the document is.
    pub fn as_object(&self) -> (r: Option<&Vec<Member>>)
        ensures
            match r {
                Some(members) => self@ == JValue::Object(pairs(members@)),
                None => self@.members() is None,
            },
    {
        match self {
            Json::Object(members) => {
                assert(self@->Object_0 =~= pairs(members@));
                Some(members)
            },
            _ => None,
        }
    }

    /// The text under `key`.
    pub fn str_at(&self, key: &str) -> (r: Option<&str>)
        ensures
            text_view(r) == self@.text_at(key@),
    {
        match self.get(key) {
            Some(v) => v.as_str(),
            None => None,
        }
    }

    /// The truth value under `key`.
    pub fn bool_at(&self, key: &str) -> (r: Option<bool>)
        ensures
            r == self@.truth_at(key@),
    {
        match self.get(key) {
            Some(v) => v.as_bool(),
            None => None,
        }
    }

    /// The items of the array under `key`.
    pub fn array_at(&self, key: &str) -> (r: Option<&Vec<Json>>)
        ensures
            match r {
                Some(items) => self@.items_at(key@) == Some(values(items@)),
                None => self@.items_at(key@) is None,
            },
    {
        match self.get(key) {
            Some(v) => v.as_array(),
            None => None,
        }
    }
}

/// The text under the first of `keys` that has one.
pub fn first_str<'a>(value: &'a Json, keys: &[&str]) -> (r: Option<&'a str>)
    ensures
        text_view(r) == first_text(value@, key_texts(keys@)),
{
    let ghost all = key_texts(keys@);
    let mut i: usize = 0;
    assert(all.skip(0) =~= all);
    while i < keys.len()
        invariant
            i <= keys@.len(),
            all == key_texts(keys@),
            first_text(value@, all) == first_text(value@, all.skip(i as int)),
        decreases keys.len() - i,
    {
        assert(all.skip(i as int)[0] == keys@[i as int]@);
        match value.str_at(keys[i]) {
            Some(t) => {
                return Some(t);
            },
            None => {},
        }
        assert(all.skip(i as int).drop_first() =~= all.skip(i + 1));
        i += 1;
    }
    None
}

/// The text under `key`, a dash where there is none.
pub fn field_string(value: &Json, key: &str) -> (r: String)
    ensures
        r@ == value@.field(key@),
{
    match value.str_at(key) {
        Some(t) => t.to_string(),
        None => "-".to_string(),
    }
}

/// The unsigned integer under `key`.
pub fn field_u64(value: &Json, key: &str) -> (r: Option<u64>)
    ensures
        r == value@.unsigned_at(key@),
{
    match value.get(key) {
        Some(v) => v.as_u64(),
        None => None,
    }
}

/// The truth value under `key`, false where there is none.
pub fn field_flag(value: &Json, key: &str) -> (r: bool)
    ensures
        r == value@.flag(key@),
{
    match value.bool_at(key) {
        Some(b) => b,
        None => false,
    }
}

/// The texts of an array, with commas between them; none where there is no array or the list
/// comes out empty.
pub fn string_list(value: Option<&Json>) -> (r: Option<String>)
    ensures
        match (value, r) {
            (Some(v), Some(list)) => v@.text_list() == Some(list@),
            (Some(v), None) => v@.text_list() is None,
            (None, _) => r is None,
        },
{
    let items = match value {
        Some(v) => match v.as_array() {
            Some(items) => items,
            None => {
                return None;
            },
        },
        None => {
            return None;
        },
    };
    let ghost all = values(items@);
    let mut list = String::new();
    let mut first: bool = true;
    let mut i: usize = 0;
    assert(texts_among(all.take(0)) =~= Seq::empty());
    while i < items.len()
        invariant
            i <= items@.len(),
            all == values(items@),
            first == (texts_among(all.take(i as int)).len() == 0),
            list@ == joined(texts_among(all.take(i as int)), ", "@),
        decreases items.len() - i,
    {
        let ghost before = texts_among(all.take(i as int));
        let ghost after = texts_among(all.take(i + 1));
        assert(all.take(i + 1).drop_last() =~= all.take(i as int));
        assert(all.take(i + 1).last() == items@[i as int]@);
        match items[i].as_str() {
            Some(t) => {
                assert(after == before.push(t@));
                assert(after.drop_last() =~= before);
                if !first {
                    list.append(", ");
                    list.append(t);
                } else {
                    list = t.to_string();
                }
                first = false;
            },
            None => {},
        }
        i += 1;
    }
    assert(all.take(items@.len() as int) =~= all);
    if list.as_str().is_empty() {
        None
    } else {
        Some(list)
    }
}

} // verus!
