//! JSON as it travels: reading the body of an answer, and writing a document out.

use vstd::prelude::*;
use crate::error::CliError;
use crate::json::{Json, JsonNumber, JValue, Member, keys_ascend, pairs, signed_of, unsigned_of, values};
use crate::text::{is_blank, is_blank_text};

verus! {

/// `serde_json::Value`, a document as the JSON reader and writer hold it.
#[verifier::external_type_specification]
#[verifier::external_body]
pub struct ExValue(serde_json::Value);

/// What a `serde_json::Value` holds.
pub uninterp spec fn document(value: serde_json::Value) -> JValue;

/// The document that `serde_json::from_str` reads from a text; none where it fails.
pub uninterp spec fn parsed(text: Seq<char>) -> Option<JValue>;

/// The text that `serde_json::to_string_pretty` writes for a document.
pub uninterp spec fn pretty(doc: JValue) -> Seq<char>;

/// The document is read back from the line, or the lines, that are written for it.
pub open spec fn reads_back(doc: JValue) -> bool {
    parsed(pretty(doc) + "\n"@) == Some(doc)
}

/// Every fraction in the document is read back where it is written alone.
pub open spec fn fractions_read_back(doc: JValue) -> bool
    decreases doc,
{
    match doc {
        JValue::Number(JsonNumber::Other(_)) => reads_back(doc),
        JValue::Array(items) => forall|i: int|
            0 <= i < items.len() ==> fractions_read_back(#[trigger] items[i]),
        JValue::Object(members) => forall|i: int|
            0 <= i < members.len() ==> fractions_read_back((#[trigger] members[i]).1),
        _ => true,
    }
}

/// The document is nested no deeper than the JSON reader follows.
pub open spec fn is_shallow(doc: JValue) -> bool {
    doc.nested_within(127)
}

/// The outermost layer of a document, with what it contains left unopened.
pub enum Layer {
    Null,
    Bool(bool),
    Number(serde_json::Number),
    Text(String),
    Items(Vec<serde_json::Value>),
    Members(Vec<(String, serde_json::Value)>),
}

/// What a number holds.
pub open spec fn number_of(number: serde_json::Number) -> JsonNumber {
    match unsigned_of(number) {
        Some(n) => JsonNumber::Unsigned(n),
        None => match signed_of(number) {
            Some(n) => JsonNumber::Negative(n),
            None => JsonNumber::Other(number),
        },
    }
}

/// What unopened items hold.
pub open spec fn documents(items: Seq<serde_json::Value>) -> Seq<JValue> {
    Seq::new(items.len(), |i: int| document(items[i]))
}

/// What unopened members hold.
pub open spec fn document_pairs(members: Seq<(String, serde_json::Value)>) -> Seq<
    (Seq<char>, JValue),
> {
    Seq::new(members.len(), |i: int| (members[i].0@, document(members[i].1)))
}

/// What a layer holds, with all that it contains.
pub open spec fn layer_view(layer: Layer) -> JValue {
    match layer {
        Layer::Null => JValue::Null,
        Layer::Bool(b) => JValue::Bool(b),
        Layer::Number(n) => JValue::Number(number_of(n)),
        Layer::Text(s) => JValue::Text(s@),
        Layer::Items(items) => JValue::Array(documents(items@)),
        Layer::Members(members) => JValue::Object(document_pairs(members@)),
    }
}

proof fn values_push(items: Seq<Json>, item: Json)
    ensures
        values(items.push(item)) == values(items).push(item@),
{
    assert(values(items.push(item)) =~= values(items).push(item@));
}

proof fn pairs_push(members: Seq<Member>, member: Member)
    ensures
        pairs(members.push(member)) == pairs(members).push((member.key@, member.value@)),
{
    assert(pairs(members.push(member)) =~= pairs(members).push((member.key@, member.value@)));
}

proof fn documents_push(items: Seq<serde_json::Value>, item: serde_json::Value)
    ensures
        documents(items.push(item)) == documents(items).push(document(item)),
{
    assert(documents(items.push(item)) =~= documents(items).push(document(item)));
}

proof fn document_pairs_push(
    members: Seq<(String, serde_json::Value)>,
    member: (String, serde_json::Value),
)
    ensures
        document_pairs(members.push(member)) == document_pairs(members).push(
            (member.0@, document(member.1)),
        ),
{
    assert(document_pairs(members.push(member)) =~= document_pairs(members).push(
        (member.0@, document(member.1)),
    ));
}

/// Takes a `serde_json::Value` apart by its variants. An object is a map ordered by its keys, so
/// its members come out with their keys ascending.
#[verifier::external_body]
fn open_value(value: serde_json::Value) -> (layer: Layer)
    ensures
        layer_view(layer) == document(value),
        layer matches Layer::Members(members) ==> keys_ascend(document_pairs(members@)),
{
    match value {
        serde_json::Value::Null => Layer::Null,
        serde_json::Value::Bool(b) => Layer::Bool(b),
        serde_json::Value::Number(n) => Layer::Number(n),
        serde_json::Value::String(s) => Layer::Text(s),
        serde_json::Value::Array(items) => Layer::Items(items),
        serde_json::Value::Object(map) => Layer::Members(map.into_iter().collect()),
    }
}

/// Puts a `serde_json::Value` together. An object is a map ordered by its keys, so members whose
/// keys ascend keep their order and are all kept.
#[verifier::external_body]
fn close_value(layer: Layer) -> (value: serde_json::Value)
    requires
        layer matches Layer::Members(members) ==> keys_ascend(document_pairs(members@)),
    ensures
        document(value) == layer_view(layer),
{
    match layer {
        Layer::Null => serde_json::Value::Null,
        Layer::Bool(b) => serde_json::Value::Bool(b),
        Layer::Number(n) => serde_json::Value::Number(n),
        Layer::Text(s) => serde_json::Value::String(s),
        Layer::Items(items) => serde_json::Value::Array(items),
        Layer::Members(members) => serde_json::Value::Object(members.into_iter().collect()),
    }
}

/// Calls `serde_json::Number::as_u64`: the number, where it is an integer from zero up that
/// takes at most 64 bits.
#[verifier::external_body]
fn number_as_u64(number: &serde_json::Number) -> (r: Option<u64>)
    ensures
        r == unsigned_of(*number),
{
    number.as_u64()
}

/// Calls `serde_json::Number::as_i64`: the number, where it is an integer that takes at most 64
/// bits with its sign. One that is no unsigned integer is below zero.
#[verifier::external_body]
fn number_as_i64(number: &serde_json::Number) -> (r: Option<i64>)
    ensures
        r == signed_of(*number),
        unsigned_of(*number) is None ==> (r matches Some(n) ==> n < 0),
{
    number.as_i64()
}

/// Calls `serde_json::Number::from` on an integer below zero, which `as_i64` gives back and
/// `as_u64` does not.
#[verifier::external_body]
fn number_from_i64(n: i64) -> (r: serde_json::Number)
    requires
        n < 0,
    ensures
        signed_of(r) == Some(n),
        unsigned_of(r) is None,
{
    serde_json::Number::from(n)
}

/// Calls `serde_json::Number::from` on an unsigned integer, which `as_u64` gives back.
#[verifier::external_body]
fn number_from_u64(n: u64) -> (r: serde_json::Number)
    ensures
        unsigned_of(r) == Some(n),
{
    serde_json::Number::from(n)
}

/// Calls `serde_json::Number::clone`, which copies the number.
#[verifier::external_body]
fn number_clone(number: &serde_json::Number) -> (r: serde_json::Number)
    ensures
        r == *number,
{
    number.clone()
}

/// Calls `serde_json::from_str`. Which documents it reads from which texts is left to its name,
/// but for one thing: it fails where arrays and objects stand in each other more than 127 deep.
#[verifier::external_body]
fn value_from_str(text: &str) -> (r: Result<serde_json::Value, serde_json::Error>)
    ensures
        match r {
            Ok(value) => parsed(text@) == Some(document(value)) && is_shallow(document(value)),
            Err(_) => parsed(text@) is None,
        },
{
    serde_json::from_str(text)
}

/// Calls `serde_json::to_string_pretty`, which does not fail on a `serde_json::Value`. How it lays
/// a document out is left to its name. With the end of a line behind it, the text is one that
/// `serde_json::from_str` reads as the same document, where that is not nested too deep and its
/// fractions, each for itself, are read back: of a fraction the reader may give a neighbour.
#[verifier::external_body]
fn value_to_string_pretty(value: &serde_json::Value) -> (r: Result<String, serde_json::Error>)
    ensures
        r is Ok,
        r matches Ok(text) ==> {
            &&& text@ == pretty(document(*value))
            &&& is_shallow(document(*value)) && fractions_read_back(document(*value)) ==> parsed(
                text@ + "\n"@,
            ) == Some(document(*value))
        },
{
    serde_json::to_string_pretty(value)
}

impl Json {
    /// Reads a `serde_json::Value`, whatever it holds.
    pub fn from_value(value: serde_json::Value) -> (r: Json)
        ensures
            r@ == document(value),
            r@.wf(),
        decreases document(value),
    {
        match open_value(value) {
            Layer::Null => Json::Null,
            Layer::Bool(b) => Json::Bool(b),
            Layer::Number(n) => match number_as_u64(&n) {
                Some(u) => Json::Number(JsonNumber::Unsigned(u)),
                None => match number_as_i64(&n) {
                    Some(i) => Json::Number(JsonNumber::Negative(i)),
                    None => Json::Number(JsonNumber::Other(n)),
                },
            },
            Layer::Text(s) => Json::String(s),
            Layer::Items(items) => {
                let ghost docs = documents(items@);
                assert(document(value) == JValue::Array(docs));
                let mut out: Vec<Json> = Vec::new();
                for item in it: items.into_iter()
                    invariant
                        it.seq() == items@,
                        docs == documents(items@),
                        document(value) == JValue::Array(docs),
                        values(out@) == docs.take(it.index() as int),
                        forall|k: int| 0 <= k < out@.len() ==> (#[trigger] out@[k])@.wf(),
                {
                    let ghost k = it.index() as int;
                    assert(docs[k] == document(item));
                    assert(decreases_to!(document(value) => document(value)->Array_0));
                    assert(decreases_to!(docs => docs[k]));
                    let ghost before = out@;
                    let json = Json::from_value(item);
                    out.push(json);
                    proof {
                        values_push(before, json);
                        assert(docs.take(k).push(docs[k]) =~= docs.take(k + 1));
                    }
                }
                assert(docs.take(docs.len() as int) =~= docs);
                let r = Json::Array(out);
                assert(r@->Array_0 =~= values(out@));
                r
            },
            Layer::Members(members) => {
                let ghost docs = document_pairs(members@);
                assert(document(value) == JValue::Object(docs));
                let mut out: Vec<Member> = Vec::new();
                for member in it: members.into_iter()
                    invariant
                        it.seq() == members@,
                        docs == document_pairs(members@),
                        document(value) == JValue::Object(docs),
                        pairs(out@) == docs.take(it.index() as int),
                        forall|k: int| 0 <= k < out@.len() ==> (#[trigger] out@[k]).value@.wf(),
                {
                    let ghost k = it.index() as int;
                    assert(docs[k].1 == document(member.1));
                    assert(decreases_to!(document(value) => document(value)->Object_0));
                    assert(decreases_to!(docs => docs[k]));
                    assert(decreases_to!(docs[k] => docs[k].1));
                    let ghost before = out@;
                    let m = Member { key: member.0, value: Json::from_value(member.1) };
                    out.push(m);
                    proof {
                        pairs_push(before, m);
                        assert(docs.take(k).push(docs[k]) =~= docs.take(k + 1));
                    }
                }
                assert(docs.take(docs.len() as int) =~= docs);
                let r = Json::Object(out);
                assert(r@->Object_0 =~= pairs(out@));
                r
            },
        }
    }

    /// Writes the document as a `serde_json::Value`.
    pub fn to_value(&self) -> (r: serde_json::Value)
        requires
            self@.wf(),
        ensures
            document(r) == self@,
        decreases self,
    {
        match self {
            Json::Null => close_value(Layer::Null),
            Json::Bool(b) => close_value(Layer::Bool(*b)),
            Json::Number(JsonNumber::Unsigned(n)) => close_value(
                Layer::Number(number_from_u64(*n)),
            ),
            Json::Number(JsonNumber::Negative(n)) => close_value(
                Layer::Number(number_from_i64(*n)),
            ),
            Json::Number(JsonNumber::Other(n)) => close_value(Layer::Number(number_clone(n))),
            Json::String(s) => close_value(Layer::Text(s.clone())),
            Json::Array(items) => {
                assert(self@->Array_0 =~= values(items@));
                let mut out: Vec<serde_json::Value> = Vec::new();
                let mut i: usize = 0;
                while i < items.len()
                    invariant
                        i <= items@.len(),
                        self@ == JValue::Array(values(items@)),
                        self@.wf(),
                        *self == Json::Array(*items),
                        documents(out@) == values(items@).take(i as int),
                    decreases items.len() - i,
                {
                    assert(self@->Array_0[i as int].wf());
                    let ghost before = out@;
                    let item = items[i].to_value();
                    out.push(item);
                    proof {
                        documents_push(before, item);
                        let all = values(items@);
                        assert(all.take(i as int).push(all[i as int]) =~= all.take(i + 1));
                    }
                    i += 1;
                }
                assert(values(items@).take(items@.len() as int) =~= values(items@));
                close_value(Layer::Items(out))
            },
            Json::Object(members) => {
                assert(self@->Object_0 =~= pairs(members@));
                let mut out: Vec<(String, serde_json::Value)> = Vec::new();
                let mut i: usize = 0;
                while i < members.len()
                    invariant
                        i <= members@.len(),
                        self@ == JValue::Object(pairs(members@)),
                        self@.wf(),
                        *self == Json::Object(*members),
                        document_pairs(out@) == pairs(members@).take(i as int),
                    decreases members.len() - i,
                {
                    assert(pairs(members@)[i as int].1.wf());
                    let ghost before = out@;
                    let member = (members[i].key.clone(), members[i].value.to_value());
                    out.push(member);
                    proof {
                        document_pairs_push(before, member);
                        let all = pairs(members@);
                        assert(all.take(i as int).push(all[i as int]) =~= all.take(i + 1));
                    }
                    i += 1;
                }
                assert(pairs(members@).take(members@.len() as int) =~= pairs(members@));
                close_value(Layer::Members(out))
            },
        }
    }
}

/// Reads the body of an answer: nothing at all is null, everything else has to be JSON.
pub fn parse_json_body(text: &str) -> (r: Result<Json, CliError>)
    ensures
        is_blank_text(text@) ==> (r matches Ok(json) && json@ == JValue::Null),
        !is_blank_text(text@) ==> match parsed(text@) {
            Some(doc) => r matches Ok(json) && json@ == doc,
            None => r matches Err(CliError::ParseJson { body, .. }) && body@ == text@,
        },
        r matches Ok(json) ==> json@.wf() && is_shallow(json@),
{
    if is_blank(text) {
        Ok(Json::Null)
    } else {
        match value_from_str(text) {
            Ok(value) => Ok(Json::from_value(value)),
            Err(cause) => Err(CliError::ParseJson { body: text.to_string(), cause }),
        }
    }
}

/// Writes a document as indented JSON, on lines of its own, from which the same document is read
/// again: unless it is nested too deep, or a fraction in it is not read as it was.
pub fn print_json(value: &Json, out: &mut String) -> (r: Result<(), CliError>)
    requires
        value@.wf(),
    ensures
        r is Ok,
        final(out)@ == old(out)@ + pretty(value@) + "\n"@,
        is_shallow(value@) && fractions_read_back(value@) ==> reads_back(value@),
{
    match value_to_string_pretty(&value.to_value()) {
        Ok(text) => {
            out.append(text.as_str());
            out.append("\n");
            Ok(())
        },
        Err(cause) => Err(CliError::WriteJson(cause)),
    }
}

} // verus!
