//! What holds of reading documents, and of the texts that single values are shown as.

use vstd::prelude::*;
use crate::format::{
    count_field, grouped, is_safe, safe_name, shown_thousandths, size_text, three_digits,
    time_field, time_text,
};
use crate::json::{
    Json, JValue, JsonNumber, Member, first_text, key_texts, member_called, pairs, text_less,
    texts_among, value_view, values,
};
use crate::login::user_view;
use crate::properties::{decimals_stand_for_their_number, digits_value};
use crate::text::{decimal, joined, padded, repeated, string_view, text_view, texts};

verus! {

/// What a lookup finds is a member of that name, the first one of them; where it finds nothing,
/// the document is no object or none of its members has the name.
pub proof fn lookups_find_members(v: JValue, key: Seq<char>)
    ensures
        match v.get(key) {
            Some(found) => v matches JValue::Object(members) && exists|i: int|
                0 <= i < members.len() && #[trigger] members[i] == (key, found) && forall|j: int|
                    0 <= j < i ==> (#[trigger] members[j]).0 != key,
            None => v matches JValue::Object(members) ==> forall|i: int|
                0 <= i < members.len() ==> (#[trigger] members[i]).0 != key,
        },
{
    if v is Object {
        member_lookups(v->Object_0, key);
    }
}

proof fn member_lookups(members: Seq<(Seq<char>, JValue)>, key: Seq<char>)
    ensures
        match member_called(members, key) {
            Some(found) => exists|i: int|
                0 <= i < members.len() && #[trigger] members[i] == (key, found) && forall|j: int|
                    0 <= j < i ==> (#[trigger] members[j]).0 != key,
            None => forall|i: int| 0 <= i < members.len() ==> (#[trigger] members[i]).0 != key,
        },
    decreases members.len(),
{
    if members.len() > 0 {
        let rest = members.drop_first();
        if members[0].0 == key {
            assert(members[0] == (key, members[0].1));
        } else {
            member_lookups(rest, key);
            match member_called(rest, key) {
                Some(found) => {
                    let i = choose|i: int|
                        0 <= i < rest.len() && #[trigger] rest[i] == (key, found) && forall|j: int|
                            0 <= j < i ==> (#[trigger] rest[j]).0 != key;
                    assert(members[i + 1] == (key, found));
                    assert forall|j: int| 0 <= j < i + 1 implies (#[trigger] members[j]).0
                        != key by {
                        if j > 0 {
                            assert(members[j] == rest[j - 1]);
                        }
                    }
                },
                None => {
                    assert forall|j: int| 0 <= j < members.len() implies (#[trigger] members[j]).0
                        != key by {
                        if j > 0 {
                            assert(members[j] == rest[j - 1]);
                        }
                    }
                },
            }
        }
    }
}

/// A text, a truth value, an unsigned integer, an array and an object are read under a key where
/// they stand under it, and none of them is read from anything else.
pub proof fn values_are_read_as_they_are(v: JValue, key: Seq<char>)
    ensures
        match v.get(key) {
            Some(JValue::Text(t)) => v.text_at(key) == Some(t) && v.field(key) == t,
            _ => v.text_at(key) is None && v.field(key) == "-"@,
        },
        match v.get(key) {
            Some(JValue::Bool(b)) => v.truth_at(key) == Some(b) && v.flag(key) == b,
            _ => v.truth_at(key) is None && !v.flag(key),
        },
        match v.get(key) {
            Some(JValue::Number(JsonNumber::Unsigned(n))) => v.unsigned_at(key) == Some(n),
            _ => v.unsigned_at(key) is None,
        },
        match v.get(key) {
            Some(JValue::Array(items)) => v.items_at(key) == Some(items),
            _ => v.items_at(key) is None,
        },
        match v.get(key) {
            Some(JValue::Object(members)) => v.members_at(key) == Some(members),
            _ => v.members_at(key) is None,
        },
{
}

/// A document is read as what it is.
pub proof fn documents_are_read_as_they_are(v: JValue)
    ensures
        v.text() == (if v is Text {
            Some(v->Text_0)
        } else {
            None
        }),
        v.items() == (if v is Array {
            Some(v->Array_0)
        } else {
            None
        }),
        v.members() == (if v is Object {
            Some(v->Object_0)
        } else {
            None
        }),
        v.unsigned() == (match v {
            JValue::Number(JsonNumber::Unsigned(n)) => Some(n),
            _ => None,
        }),
{
}

/// A document holds what it was made of: every item, every member, in their order.
pub proof fn documents_hold_their_parts(
    b: bool,
    n: JsonNumber,
    s: String,
    items: Vec<Json>,
    members: Vec<Member>,
)
    ensures
        Json::Null@ == JValue::Null,
        Json::Bool(b)@ == JValue::Bool(b),
        Json::Number(n)@ == JValue::Number(n),
        Json::String(s)@ == JValue::Text(s@),
        Json::Array(items)@ == JValue::Array(values(items@)),
        Json::Object(members)@ == JValue::Object(pairs(members@)),
        values(items@).len() == items@.len(),
        forall|i: int| 0 <= i < items@.len() ==> #[trigger] values(items@)[i] == items@[i]@,
        pairs(members@).len() == members@.len(),
        forall|i: int|
            0 <= i < members@.len() ==> #[trigger] pairs(members@)[i] == (
                members@[i].key@,
                members@[i].value@,
            ),
{
    assert(Json::Array(items)@->Array_0 =~= values(items@));
    assert(Json::Object(members)@->Object_0 =~= pairs(members@));
}

/// A list of strings holds what each of them holds.
pub proof fn lists_hold_their_texts(list: Seq<String>, keys: Seq<&str>)
    ensures
        texts(list).len() == list.len(),
        forall|i: int| 0 <= i < list.len() ==> #[trigger] texts(list)[i] == list[i]@,
        key_texts(keys).len() == keys.len(),
        forall|i: int| 0 <= i < keys.len() ==> #[trigger] key_texts(keys)[i] == keys[i]@,
{
}

/// What is there holds what it holds, and what is not there holds nothing.
pub proof fn options_hold_what_is_there(text: &str, owned: String, json: &Json, document: Json)
    ensures
        text_view(Some(text)) == Some(text@),
        text_view(None) is None,
        string_view(Some(owned)) == Some(owned@),
        string_view(None) is None,
        value_view(Some(json)) == Some(json@),
        value_view(None) is None,
        user_view(Some(document)) == Some(document@),
        user_view(None) is None,
{
}

/// Of several keys the first counts that has a text, whatever stands under the others; where none
/// has one, there is none.
pub proof fn the_first_text_counts(v: JValue, keys: Seq<Seq<char>>)
    ensures
        match first_text(v, keys) {
            Some(t) => exists|i: int|
                0 <= i < keys.len() && v.get(#[trigger] keys[i]) == Some(JValue::Text(t))
                    && forall|j: int|
                    0 <= j < i ==> !is_text(v.get(#[trigger] keys[j])),
            None => forall|j: int| 0 <= j < keys.len() ==> !is_text(v.get(#[trigger] keys[j])),
        },
    decreases keys.len(),
{
    if keys.len() > 0 && !is_text(v.get(keys[0])) {
        let rest = keys.drop_first();
        the_first_text_counts(v, rest);
        match first_text(v, rest) {
            Some(t) => {
                let i = choose|i: int|
                    0 <= i < rest.len() && v.get(#[trigger] rest[i]) == Some(JValue::Text(t))
                        && forall|j: int| 0 <= j < i ==> !is_text(v.get(#[trigger] rest[j]));
                assert(keys[i + 1] == rest[i]);
                assert forall|j: int| 0 <= j < i + 1 implies !is_text(
                    v.get(#[trigger] keys[j]),
                ) by {
                    if j > 0 {
                        assert(keys[j] == rest[j - 1]);
                    }
                }
            },
            None => {
                assert forall|j: int| 0 <= j < keys.len() implies !is_text(
                    v.get(#[trigger] keys[j]),
                ) by {
                    if j > 0 {
                        assert(keys[j] == rest[j - 1]);
                    }
                }
            },
        }
    }
}

/// What was found is a text.
pub open spec fn is_text(found: Option<JValue>) -> bool {
    found matches Some(JValue::Text(_))
}

/// The texts among items are picked item by item: of two lists, those of the first come before
/// those of the second, a text is picked, and nothing else is.
pub proof fn texts_are_picked(a: Seq<JValue>, b: Seq<JValue>, item: JValue)
    ensures
        texts_among(Seq::empty()) == Seq::<Seq<char>>::empty(),
        texts_among(a + b) == texts_among(a) + texts_among(b),
        texts_among(seq![item]) == (match item {
            JValue::Text(t) => seq![t],
            _ => Seq::empty(),
        }),
    decreases b.len(),
{
    assert(seq![item].drop_last() =~= Seq::empty());
    assert(texts_among(seq![item].drop_last()) =~= Seq::empty());
    assert(texts_among(seq![item]) =~= (match item {
        JValue::Text(t) => seq![t],
        _ => Seq::empty(),
    }));
    if b.len() == 0 {
        assert(a + b =~= a);
        assert(texts_among(a + b) =~= texts_among(a) + texts_among(b));
    } else {
        texts_are_picked(a, b.drop_last(), item);
        assert((a + b).drop_last() =~= a + b.drop_last());
        assert((a + b).last() == b.last());
        assert(texts_among(a + b) =~= texts_among(a) + texts_among(b));
    }
}

/// Joining leaves one text as it is, and puts the separator between two lists of texts; nothing
/// stands before the first text or after the last.
pub proof fn texts_are_joined(
    a: Seq<Seq<char>>,
    b: Seq<Seq<char>>,
    part: Seq<char>,
    separator: Seq<char>,
)
    ensures
        joined(Seq::empty(), separator) == Seq::<char>::empty(),
        joined(seq![part], separator) == part,
        a.len() > 0 && b.len() > 0 ==> joined(a + b, separator) == joined(a, separator) + separator
            + joined(b, separator),
    decreases b.len(),
{
    if a.len() > 0 && b.len() > 0 {
        assert((a + b).drop_last() =~= a + b.drop_last());
        assert((a + b).last() == b.last());
        if b.len() == 1 {
            assert((a + b).drop_last() =~= a);
        } else {
            texts_are_joined(a, b.drop_last(), part, separator);
        }
        assert(joined(a + b, separator) =~= joined(a, separator) + separator + joined(
            b,
            separator,
        ));
    }
}

/// A list of texts is shown with commas and spaces between them, and with a dash where there is no
/// array or nothing would be shown.
pub proof fn text_lists_have_commas(v: JValue, key: Seq<char>)
    ensures
        match v.get(key) {
            Some(JValue::Array(items)) => {
                let list = joined(texts_among(items), ", "@);
                if list.len() > 0 {
                    v.list_field(key) == list && v.get(key)->0.text_list() == Some(list)
                } else {
                    v.list_field(key) == "-"@ && v.get(key)->0.text_list() is None
                }
            },
            Some(other) => v.list_field(key) == "-"@ && other.text_list() is None,
            None => v.list_field(key) == "-"@,
        },
{
}

/// One text comes before another where it is the beginning of it, or where the first characters
/// in which they differ come in that order.
pub proof fn texts_are_ordered_by_characters(a: Seq<char>, b: Seq<char>)
    ensures
        text_less(a, b) <==> exists|n: int|
            0 <= n <= a.len() && n < b.len() && #[trigger] a.take(n) == b.take(n) && (n == a.len()
                || a[n] < b[n]),
    decreases a.len(),
{
    if a.len() == 0 {
        if b.len() > 0 {
            assert(a.take(0) =~= b.take(0));
        }
    } else if b.len() > 0 {
        let x = a.drop_first();
        let y = b.drop_first();
        texts_are_ordered_by_characters(x, y);
        if a[0] < b[0] {
            assert(a.take(0) =~= b.take(0));
        } else if a[0] == b[0] {
            if text_less(x, y) {
                let n = choose|n: int|
                    0 <= n <= x.len() && n < y.len() && #[trigger] x.take(n) == y.take(n) && (n
                        == x.len() || x[n] < y[n]);
                assert(a.take(n + 1) =~= seq![a[0]] + x.take(n));
                assert(b.take(n + 1) =~= seq![b[0]] + y.take(n));
                assert(n < x.len() ==> a[n + 1] == x[n]);
                assert(b[n + 1] == y[n]);
            } else if exists|n: int|
                0 <= n <= a.len() && n < b.len() && #[trigger] a.take(n) == b.take(n) && (n
                    == a.len() || a[n] < b[n]) {
                let n = choose|n: int|
                    0 <= n <= a.len() && n < b.len() && #[trigger] a.take(n) == b.take(n) && (n
                        == a.len() || a[n] < b[n]);
                assert(n > 0);
                assert(x.take(n - 1) =~= a.take(n).drop_first());
                assert(y.take(n - 1) =~= b.take(n).drop_first());
                assert(n < a.len() ==> x[n - 1] == a[n]);
                assert(y[n - 1] == b[n]);
                assert(false);
            }
        } else if exists|n: int|
            0 <= n <= a.len() && n < b.len() && #[trigger] a.take(n) == b.take(n) && (n == a.len()
                || a[n] < b[n]) {
            let n = choose|n: int|
                0 <= n <= a.len() && n < b.len() && #[trigger] a.take(n) == b.take(n) && (n
                    == a.len() || a[n] < b[n]);
            assert(n > 0);
            assert(a.take(n)[0] == b.take(n)[0]);
            assert(false);
        }
    }
}

/// Filling up keeps the text in front, adds nothing but spaces, and makes it as wide as asked
/// unless it is wider by itself.
pub proof fn filled_texts_start_with_the_text(s: Seq<char>, width: nat, c: char)
    ensures
        padded(s, width).len() == (if s.len() < width {
            width
        } else {
            s.len()
        }),
        padded(s, width).take(s.len() as int) == s,
        forall|i: int| s.len() <= i < padded(s, width).len() ==> #[trigger] padded(s, width)[i]
            == ' ',
        repeated(c, width).len() == width,
        forall|i: int| 0 <= i < width ==> #[trigger] repeated(c, width)[i] == c,
{
    assert(padded(s, width).take(s.len() as int) =~= s);
}

/// A size of whole KiB is told in KiB, every other one in bytes; either way the number stands in
/// front, and the size is that number of them.
pub proof fn sizes_are_told_whole(k: nat, rest: nat)
    requires
        0 < rest < 1024,
    ensures
        size_text(1024 * k) == decimal(k) + " KiB"@,
        size_text(1024 * k + rest) == decimal(1024 * k + rest) + " bytes"@,
{
    assert((1024 * k) % 1024 == 0);
    assert((1024 * k) / 1024 == k);
    assert((1024 * k + rest) % 1024 == rest);
}

/// A time is told as digits with a point before the last three of them and the unit behind; the
/// digits stand for the thousandths of a millisecond.
pub proof fn times_have_three_places(ns: nat)
    ensures
        ({
            let whole = shown_thousandths(ns) / 1000;
            let places = shown_thousandths(ns) % 1000;
            exists|front: Seq<char>, back: Seq<char>|
                time_text(ns) == #[trigger] (front + "."@ + back) + " ms"@ && front == decimal(
                    whole,
                ) && back.len() == 3 && digits_value(front) == whole && digits_value(back)
                    == places
        }),
{
    let t = shown_thousandths(ns);
    let front = decimal(t / 1000);
    let back = three_digits(t % 1000);
    decimals_stand_for_their_number(t / 1000);
    three_digits_value(t % 1000);
    assert(time_text(ns) == (front + "."@ + back) + " ms"@);
}

proof fn three_digits_value(n: nat)
    requires
        n < 1000,
    ensures
        digits_value(three_digits(n)) == n,
{
    let d = three_digits(n);
    reveal_with_fuel(digits_value, 4);
    assert(d.drop_last().drop_last().drop_last() =~= Seq::empty());
    assert(d.drop_last().last() == d[1]);
    assert(d.drop_last().drop_last().last() == d[0]);
}

/// A time or a count is told where an unsigned integer stands under the key, and a dash otherwise.
pub proof fn missing_numbers_are_dashes(v: JValue, key: Seq<char>)
    ensures
        match v.get(key) {
            Some(JValue::Number(JsonNumber::Unsigned(n))) => time_field(v, key) == time_text(
                n as nat,
            ) && count_field(v, key) == grouped(n as nat),
            _ => time_field(v, key) == "-"@ && count_field(v, key) == "-"@,
        },
{
}

/// Letters, digits, `-`, `_` and `.` are what a file name keeps; an underscore stands for each
/// other character.
pub proof fn unsafe_characters_become_underscores(s: Seq<char>, i: int)
    requires
        0 <= i < s.len(),
    ensures
        ({
            let c = s[i];
            let kept = ('A' <= c <= 'Z') || ('a' <= c <= 'z') || ('0' <= c <= '9') || c == '-' || c
                == '_' || c == '.';
            &&& is_safe(c) == kept
            &&& kept ==> safe_name(s)[i] == c
            &&& !kept ==> safe_name(s)[i] == '_'
        }),
{
}

} // verus!
