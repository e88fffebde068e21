//! Talking to the server: where a request goes, and which answers are accepted.

use vstd::prelude::*;
use vstd::utf8::{encode_utf8, is_ascii_chars, is_ascii_chars_encode_utf8};
use crate::error::CliError;
use crate::json::{Json, JValue};
use crate::request::{Request, encoded, encoded_chars, escaped, is_plain, query_view};
use crate::text::{
    byte_len, chars_of, is_blank_text, string_of, trim_end_matches, utf8_len, without_trailing,
};
use crate::wire::{is_shallow, parse_json_body, parsed};

verus! {

/// Where the server is.
pub const DEFAULT_BASE_URL: &'static str = "https://cpu.mattstuchlik.com";

/// `reqwest::Url`, where a request is sent.
#[verifier::external_type_specification]
#[verifier::external_body]
pub struct ExUrl(reqwest::Url);

/// The text of a URL, as `reqwest::Url::as_str` gives it.
pub uninterp spec fn url_text(url: reqwest::Url) -> Seq<char>;

/// The text of a URL tells its parts as [`front`], [`after_mark`] and [`fragment`] do: the first
/// `#` is where its fragment starts, and the first `?` before that where its query starts. That
/// is so of every URL that was read from a text, but not of one whose path was replaced.
pub uninterp spec fn marks_are_told(url: reqwest::Url) -> bool;

/// The text of the URL that `reqwest::Url::parse` reads, or else how its failure is told.
pub uninterp spec fn parsed_url(text: Seq<char>) -> Result<Seq<char>, Seq<char>>;

/// The bytes that stand for themselves in a query.
pub open spec fn is_kept(b: u8) -> bool {
    ||| b == 42
    ||| b == 45
    ||| b == 46
    ||| 48 <= b <= 57
    ||| 65 <= b <= 90
    ||| b == 95
    ||| 97 <= b <= 122
}

/// A byte in a query.
pub open spec fn form_byte(b: u8) -> Seq<char> {
    if is_kept(b) {
        seq![b as char]
    } else if b == 32 {
        seq!['+']
    } else {
        escaped(b)
    }
}

/// How bytes are written in a query.
pub open spec fn form_code() -> spec_fn(u8) -> Seq<char> {
    |b: u8| form_byte(b)
}

/// Bytes in a query.
pub open spec fn form_bytes(bytes: Seq<u8>) -> Seq<char> {
    encoded(bytes, form_code())
}

/// A key and its value in a query.
pub open spec fn form_pair(pair: (Seq<char>, Seq<char>)) -> Seq<char> {
    form_bytes(encode_utf8(pair.0)) + seq!['='] + form_bytes(encode_utf8(pair.1))
}

/// The pairs of a query, with ampersands between them.
pub open spec fn form_query(pairs: Seq<(Seq<char>, Seq<char>)>) -> Seq<char>
    decreases pairs.len(),
{
    if pairs.len() == 0 {
        Seq::empty()
    } else if pairs.len() == 1 {
        form_pair(pairs[0])
    } else {
        form_query(pairs.drop_last()) + seq!['&'] + form_pair(pairs.last())
    }
}

/// How many characters come before the first `c`, all of them where there is none.
pub open spec fn mark_at(text: Seq<char>, c: char) -> nat
    decreases text.len(),
{
    if text.len() == 0 || text[0] == c {
        0
    } else {
        1 + mark_at(text.drop_first(), c)
    }
}

/// A URL without its fragment.
pub open spec fn front(text: Seq<char>) -> Seq<char> {
    text.take(mark_at(text, '#') as int)
}

/// The fragment of a URL with the mark before it, nothing where it has none.
pub open spec fn fragment(text: Seq<char>) -> Seq<char> {
    text.skip(mark_at(text, '#') as int)
}

/// What follows the first question mark.
pub open spec fn after_mark(text: Seq<char>) -> Seq<char> {
    text.skip((mark_at(text, '?') + 1) as int)
}

/// A URL without a fragment, with a query, which is empty where it had none.
pub open spec fn with_mark(front: Seq<char>) -> Seq<char> {
    if front.contains('?') {
        front
    } else {
        front.push('?')
    }
}

/// A URL without a fragment, with one more pair in its query.
pub open spec fn with_pair(front: Seq<char>, pair: (Seq<char>, Seq<char>)) -> Seq<char> {
    let marked = with_mark(front);
    marked + (if after_mark(marked).len() == 0 {
        Seq::empty()
    } else {
        seq!['&']
    }) + form_pair(pair)
}

/// A URL without a fragment, with more pairs in its query.
pub open spec fn with_pairs(front: Seq<char>, pairs: Seq<(Seq<char>, Seq<char>)>) -> Seq<char>
    decreases pairs.len(),
{
    if pairs.len() == 0 {
        with_mark(front)
    } else {
        with_pair(with_pairs(front, pairs.drop_last()), pairs.last())
    }
}

/// A URL with more pairs in its query.
pub open spec fn url_with_query(text: Seq<char>, pairs: Seq<(Seq<char>, Seq<char>)>) -> Seq<char> {
    with_pairs(front(text), pairs) + fragment(text)
}

/// The query, where it is new, and the fragment of a URL start within the reach of 32 bits when
/// what comes before the fragment has grown.
pub open spec fn has_room(text: Seq<char>, grown: Seq<char>) -> bool {
    &&& front(text).contains('?') || byte_len(front(text)) <= u32::MAX
    &&& fragment(text).len() == 0 || byte_len(grown) <= u32::MAX
}

/// Calls `reqwest::Url::parse`. How it brings a URL into its normal form is left to its name. A
/// text without the marks of a query and of a fragment makes a URL without them. The marks of a
/// query and of a fragment are escaped wherever they would stand for anything else.
#[verifier::external_body]
fn url_parse(text: &str) -> (r: Result<reqwest::Url, String>)
    ensures
        match r {
            Ok(url) => {
                &&& parsed_url(text@) == Ok::<Seq<char>, Seq<char>>(url_text(url))
                &&& is_plain(text@) ==> is_plain(url_text(url))
                &&& marks_are_told(url)
            },
            Err(reason) => parsed_url(text@) == Err::<Seq<char>, Seq<char>>(reason@),
        },
{
    reqwest::Url::parse(text).map_err(|e| e.to_string())
}

/// Calls `reqwest::Url::as_str`, the text of the URL.
#[verifier::external_body]
fn url_as_str(url: &reqwest::Url) -> (r: &str)
    ensures
        r@ == url_text(*url),
{
    url.as_str()
}

/// Calls `reqwest::Url::query_pairs_mut`, which gives a URL without a query an empty one. It
/// panics where a new query or the fragment would start beyond the reach of 32 bits.
#[verifier::external_body]
fn url_start_query(url: &mut reqwest::Url)
    requires
        marks_are_told(*old(url)),
        has_room(url_text(*old(url)), with_mark(front(url_text(*old(url))))),
    ensures
        url_text(*final(url)) == with_mark(front(url_text(*old(url)))) + fragment(
            url_text(*old(url)),
        ),
        marks_are_told(*final(url)),
{
    url.query_pairs_mut();
}

/// Calls `append_pair` on `reqwest::Url::query_pairs_mut`, which adds a key and its value to the
/// query, in the way of HTML forms: letters, digits and `*`, `-`, `.`, `_` stay, a space becomes
/// a plus sign, and every other byte becomes a percent sign and two upper-case hexadecimal
/// digits. It panics where a new query or the fragment would start beyond the reach of 32 bits.
#[verifier::external_body]
fn url_append_pair(url: &mut reqwest::Url, key: &str, value: &str)
    requires
        marks_are_told(*old(url)),
        has_room(
            url_text(*old(url)),
            with_pair(front(url_text(*old(url))), (key@, value@)),
        ),
    ensures
        url_text(*final(url)) == with_pair(front(url_text(*old(url))), (key@, value@)) + fragment(
            url_text(*old(url)),
        ),
        marks_are_told(*final(url)),
{
    url.query_pairs_mut().append_pair(key, value);
}

/// Who asks, and which server.
#[derive(Debug)]
pub struct ApiClient {
    pub base_url: String,
    pub token: Option<String>,
}

proof fn mark_splits(text: Seq<char>, c: char)
    ensures
        mark_at(text, c) <= text.len(),
        forall|i: int| 0 <= i < mark_at(text, c) ==> text[i] != c,
        mark_at(text, c) < text.len() ==> text[mark_at(text, c) as int] == c,
        text.contains(c) <==> mark_at(text, c) < text.len(),
    decreases text.len(),
{
    if text.len() > 0 && text[0] != c {
        let rest = text.drop_first();
        mark_splits(rest, c);
        assert forall|i: int| 0 <= i < mark_at(text, c) implies text[i] != c by {
            if i > 0 {
                assert(text[i] == rest[i - 1]);
            }
        }
        if mark_at(text, c) < text.len() {
            assert(text[mark_at(text, c) as int] == rest[mark_at(rest, c) as int]);
        }
    }
    if mark_at(text, c) < text.len() {
        assert(text.contains(text[mark_at(text, c) as int]));
    }
}

proof fn mark_is_at(text: Seq<char>, c: char, n: nat)
    requires
        n <= text.len(),
        forall|i: int| 0 <= i < n ==> text[i] != c,
        n == text.len() || text[n as int] == c,
    ensures
        mark_at(text, c) == n,
{
    mark_splits(text, c);
}

proof fn url_splits(front_text: Seq<char>, fragment_text: Seq<char>)
    requires
        !front_text.contains('#'),
        fragment_text.len() == 0 || fragment_text[0] == '#',
    ensures
        front(front_text + fragment_text) == front_text,
        fragment(front_text + fragment_text) == fragment_text,
{
    let text = front_text + fragment_text;
    assert forall|i: int| 0 <= i < front_text.len() implies text[i] != '#' by {
        assert(front_text.contains(front_text[i]));
    }
    mark_is_at(text, '#', front_text.len());
    assert(front(text) =~= front_text);
    assert(fragment(text) =~= fragment_text);
}

proof fn byte_len_adds(a: Seq<char>, b: Seq<char>)
    ensures
        byte_len(a + b) == byte_len(a) + byte_len(b),
    decreases a.len(),
{
    if a.len() == 0 {
        assert(a + b =~= b);
    } else {
        assert((a + b).drop_first() =~= a.drop_first() + b);
        byte_len_adds(a.drop_first(), b);
    }
}

proof fn form_bytes_unmarked(bytes: Seq<u8>)
    ensures
        is_ascii_chars(form_bytes(bytes)),
        !form_bytes(bytes).contains('#'),
{
    let ok = |c: char| '\0' <= c <= '\u{7f}' && c != '#';
    encoded_chars(bytes, form_code(), ok);
    assert forall|i: int| 0 <= i < form_bytes(bytes).len() implies '\0' <= #[trigger] form_bytes(
        bytes,
    )[i] <= '\u{7f}' && form_bytes(bytes)[i] != '#' by {
        assert(ok(encoded(bytes, form_code())[i]));
    }
}

proof fn form_pair_unmarked(pair: (Seq<char>, Seq<char>))
    ensures
        !form_pair(pair).contains('#'),
        form_pair(pair).len() > 0,
        byte_len(form_pair(pair)) == form_pair(pair).len(),
{
    form_bytes_unmarked(encode_utf8(pair.0));
    form_bytes_unmarked(encode_utf8(pair.1));
    let key = form_bytes(encode_utf8(pair.0));
    let value = form_bytes(encode_utf8(pair.1));
    let text = form_pair(pair);
    assert forall|i: int| 0 <= i < text.len() implies text[i] != '#' && (text[i] as u32) < 128 by {
        if i < key.len() {
            assert(key.contains(key[i]));
        } else if i > key.len() {
            assert(value.contains(value[i - key.len() - 1]));
        }
    }
    is_ascii_chars_encode_utf8(text);
}

/// What one more pair does to a URL without a fragment.
proof fn pair_adds(front_text: Seq<char>, pair: (Seq<char>, Seq<char>))
    requires
        !front_text.contains('#'),
        front_text.contains('?'),
    ensures
        !with_pair(front_text, pair).contains('#'),
        with_pair(front_text, pair).contains('?'),
        after_mark(with_pair(front_text, pair)).len() > 0,
        byte_len(with_pair(front_text, pair)) == byte_len(front_text) + (if after_mark(
            front_text,
        ).len() == 0 {
            0int
        } else {
            1int
        }) + form_pair(pair).len(),
{
    form_pair_unmarked(pair);
    let separator: Seq<char> = if after_mark(front_text).len() == 0 {
        Seq::empty()
    } else {
        seq!['&']
    };
    let whole = with_pair(front_text, pair);
    assert forall|i: int| 0 <= i < whole.len() implies whole[i] != '#' by {
        if i < front_text.len() {
            assert(front_text.contains(front_text[i]));
        } else if i >= front_text.len() + separator.len() {
            let k = i - front_text.len() - separator.len();
            assert(form_pair(pair).contains(form_pair(pair)[k]));
        }
    }
    mark_splits(front_text, '?');
    let m = mark_at(front_text, '?');
    assert(whole[m as int] == '?');
    mark_is_at(whole, '?', m);
    assert(is_ascii_chars(separator));
    is_ascii_chars_encode_utf8(separator);
    byte_len_adds(front_text, separator);
    byte_len_adds(front_text + separator, form_pair(pair));
}

/// What more pairs do to a URL without a fragment.
proof fn pairs_add(front_text: Seq<char>, pairs: Seq<(Seq<char>, Seq<char>)>)
    requires
        !front_text.contains('#'),
    ensures
        !with_pairs(front_text, pairs).contains('#'),
        with_pairs(front_text, pairs).contains('?'),
        pairs.len() > 0 ==> after_mark(with_pairs(front_text, pairs)).len() > 0,
    decreases pairs.len(),
{
    if pairs.len() == 0 {
        let marked = with_mark(front_text);
        if !front_text.contains('?') {
            assert(marked.last() == '?');
            assert forall|i: int| 0 <= i < marked.len() implies marked[i] != '#' by {
                if i < front_text.len() {
                    assert(front_text.contains(front_text[i]));
                }
            }
        }
    } else {
        pairs_add(front_text, pairs.drop_last());
        pair_adds(with_pairs(front_text, pairs.drop_last()), pairs.last());
    }
}

/// A URL does not get shorter by a pair.
proof fn pairs_grow(front_text: Seq<char>, pairs: Seq<(Seq<char>, Seq<char>)>, n: int)
    requires
        !front_text.contains('#'),
        0 <= n <= pairs.len(),
    ensures
        byte_len(with_pairs(front_text, pairs.take(n))) <= byte_len(with_pairs(front_text, pairs)),
    decreases pairs.len() - n,
{
    if n == pairs.len() {
        assert(pairs.take(n) =~= pairs);
    } else {
        let next = pairs.take(n + 1);
        assert(next.drop_last() =~= pairs.take(n));
        pairs_add(front_text, pairs.take(n));
        pair_adds(with_pairs(front_text, pairs.take(n)), next.last());
        pairs_grow(front_text, pairs, n + 1);
    }
}

/// Where a text marks neither a query nor a fragment, the pairs stand behind it as they are, and
/// nothing else is added.
pub proof fn queries_follow_paths(text: Seq<char>, pairs: Seq<(Seq<char>, Seq<char>)>)
    requires
        is_plain(text),
    ensures
        url_with_query(text, pairs) == text + seq!['?'] + form_query(pairs),
{
    mark_is_at(text, '#', text.len());
    mark_is_at(text, '?', text.len());
    mark_splits(text, '?');
    assert(front(text) =~= text);
    assert(fragment(text) =~= Seq::<char>::empty());
    let marked = with_mark(text);
    mark_is_at(marked, '?', text.len());
    pairs_are_added(text, pairs);
    assert(url_with_query(text, pairs) =~= text + seq!['?'] + form_query(pairs));
}

/// Pairs are added to the query that a URL has, an ampersand before them where it holds something
/// already, or to a new one; what comes before the query stays in front, and the fragment stays
/// behind everything.
pub proof fn queries_are_added_before_the_fragment(
    text: Seq<char>,
    pairs: Seq<(Seq<char>, Seq<char>)>,
)
    ensures
        front(text) + fragment(text) == text,
        !front(text).contains('#'),
        fragment(text).len() == 0 || fragment(text)[0] == '#',
        ({
            let marked = if front(text).contains('?') {
                front(text)
            } else {
                front(text) + seq!['?']
            };
            let held = marked.drop_last().contains('?');
            url_with_query(text, pairs) == marked + (if pairs.len() > 0 && held {
                seq!['&']
            } else {
                Seq::empty()
            }) + form_query(pairs) + fragment(text)
        }),
{
    mark_splits(text, '#');
    assert(front(text) + fragment(text) =~= text);
    assert forall|i: int| 0 <= i < front(text).len() implies front(text)[i] != '#' by {
        assert(front(text)[i] == text[i]);
    }
    let marked = with_mark(front(text));
    assert(front(text).push('?') =~= front(text) + seq!['?']);
    if !front(text).contains('?') {
        assert(marked.last() == '?');
        assert(marked.contains('?'));
    }
    mark_splits(marked, '?');
    let m = mark_at(marked, '?') as int;
    if m < marked.len() - 1 {
        assert(marked.drop_last()[m] == '?');
    } else {
        assert forall|i: int| 0 <= i < marked.drop_last().len() implies marked.drop_last()[i]
            != '?' by {
            assert(marked.drop_last()[i] == marked[i]);
        }
    }
    pairs_are_added(front(text), pairs);
}

proof fn pairs_are_added(front_text: Seq<char>, pairs: Seq<(Seq<char>, Seq<char>)>)
    ensures
        ({
            let marked = with_mark(front_text);
            with_pairs(front_text, pairs) == marked + (if pairs.len() > 0 && after_mark(
                marked,
            ).len() > 0 {
                seq!['&']
            } else {
                Seq::empty()
            }) + form_query(pairs)
        }),
        with_pairs(front_text, pairs).contains('?'),
        pairs.len() > 0 ==> after_mark(with_pairs(front_text, pairs)).len() > 0,
    decreases pairs.len(),
{
    let marked = with_mark(front_text);
    if !front_text.contains('?') {
        assert(marked.last() == '?');
    }
    assert(marked.contains('?'));
    let separator: Seq<char> = if pairs.len() > 0 && after_mark(marked).len() > 0 {
        seq!['&']
    } else {
        Seq::empty()
    };
    if pairs.len() == 0 {
        assert(with_pairs(front_text, pairs) =~= marked + separator + form_query(pairs));
    } else {
        let done = pairs.drop_last();
        pairs_are_added(front_text, done);
        let before = with_pairs(front_text, done);
        assert(with_mark(before) == before);
        if done.len() == 0 {
            assert(before =~= marked);
        }
        let whole = with_pairs(front_text, pairs);
        assert(whole =~= marked + separator + form_query(pairs));
        mark_splits(before, '?');
        let m = mark_at(before, '?');
        assert(whole[m as int] == '?');
        assert(whole.contains('?'));
        assert forall|i: int| 0 <= i < m implies whole[i] != '?' by {
            assert(whole[i] == before[i]);
        }
        mark_is_at(whole, '?', m);
        form_pair_unmarked(pairs.last());
    }
}

/// How many bytes a text takes in a query.
fn form_len(text: &str) -> (n: u128)
    ensures
        n == form_bytes(encode_utf8(text@)).len(),
        n <= 3 * usize::MAX,
{
    let bytes: &[u8] = text.as_bytes();
    let count = bytes.len();
    let mut n: u128 = 0;
    let mut i: usize = 0;
    assert(bytes@.take(0) =~= Seq::empty());
    while i < count
        invariant
            bytes@ == encode_utf8(text@),
            i <= count == bytes@.len(),
            n == form_bytes(bytes@.take(i as int)).len(),
            n <= 3 * i,
        decreases count - i,
    {
        let b = bytes[i];
        assert(bytes@.take(i + 1).drop_last() =~= bytes@.take(i as int));
        assert(bytes@.take(i + 1).last() == b);
        if b == 42 || b == 45 || b == 46 || (48 <= b && b <= 57) || (65 <= b && b <= 90) || b == 95
            || (97 <= b && b <= 122) || b == 32 {
            n += 1;
        } else {
            n += 3;
        }
        i += 1;
    }
    assert(bytes@.take(bytes@.len() as int) =~= bytes@);
    n
}

/// Tells whether the query and the fragment of a URL stay within the reach of 32 bits when pairs
/// are added to its query.
fn query_fits(text: &str, query: &Vec<(String, String)>) -> (r: bool)
    ensures
        r == has_room(text@, with_pairs(front(text@), query_view(query@))),
{
    let chars = chars_of(text);
    let mut end: usize = 0;
    while end < chars.len() && chars[end] != '#'
        invariant
            end <= chars@.len(),
            chars@ == text@,
            forall|k: int| 0 <= k < end ==> text@[k] != '#',
        decreases chars.len() - end,
    {
        end += 1;
    }
    proof {
        mark_is_at(text@, '#', end as nat);
        mark_splits(text@, '#');
    }
    let ghost start = front(text@);
    assert(start =~= chars@.subrange(0, end as int));
    let mut mark: usize = 0;
    while mark < end && chars[mark] != '?'
        invariant
            mark <= end <= chars@.len(),
            chars@ == text@,
            start == chars@.subrange(0, end as int),
            forall|k: int| 0 <= k < mark ==> start[k] != '?',
        decreases end - mark,
    {
        mark += 1;
    }
    proof {
        mark_is_at(start, '?', mark as nat);
        mark_splits(start, '?');
        assert(!start.contains('#'));
    }
    let limit: u128 = u32::MAX as u128;
    let mut size: u128 = utf8_len(string_of(&chars, 0, end).as_str()) as u128;
    if mark == end && size > limit {
        return false;
    }
    if end == chars.len() {
        return true;
    }
    let ghost all = query_view(query@);
    let mut empty: bool = mark == end || mark + 1 == end;
    if mark == end {
        proof {
            byte_len_adds(start, seq!['?']);
            assert(start + seq!['?'] =~= start.push('?'));
            assert(is_ascii_chars(seq!['?']));
            is_ascii_chars_encode_utf8(seq!['?']);
            assert forall|k: int| 0 <= k < end implies start.push('?')[k] != '?' by {}
            mark_is_at(start.push('?'), '?', end as nat);
        }
        size += 1;
    }
    proof {
        pairs_add(start, Seq::empty());
        assert(all.take(0) =~= Seq::empty());
    }
    let mut i: usize = 0;
    while i < query.len() && size <= limit
        invariant
            i <= query@.len(),
            all == query_view(query@),
            !start.contains('#'),
            size == byte_len(with_pairs(start, all.take(i as int))),
            limit == u32::MAX,
            empty == (after_mark(with_pairs(start, all.take(i as int))).len() == 0),
        decreases query.len() - i,
    {
        proof {
            let next = all.take(i + 1);
            assert(next.drop_last() =~= all.take(i as int));
            assert(next.last() == (query@[i as int].0@, query@[i as int].1@));
            pairs_add(start, all.take(i as int));
            pair_adds(with_pairs(start, all.take(i as int)), next.last());
        }
        if !empty {
            size += 1;
        }
        size += form_len(query[i].0.as_str()) + 1 + form_len(query[i].1.as_str());
        empty = false;
        i += 1;
    }
    proof {
        pairs_grow(start, all, i as int);
        assert(all.take(all.len() as int) =~= all);
    }
    size <= limit
}

impl ApiClient {
    /// A client for the server at `base_url`, with the token that it shows.
    pub fn new(base_url: String, token: Option<String>) -> (r: ApiClient)
        ensures
            r.base_url@ == without_trailing(base_url@, '/'),
            r.token == token,
    {
        ApiClient { base_url: trim_end_matches(base_url.as_str(), '/'), token }
    }

    /// The URL for a path.
    pub fn url(&self, path: &str) -> (r: Result<reqwest::Url, CliError>)
        ensures
            match parsed_url(self.base_url@ + path@) {
                Ok(text) => r matches Ok(url) && url_text(url) == text && marks_are_told(url),
                Err(why) => r matches Err(CliError::Url { path: p, reason }) && p@ == path@
                    && reason@ == why,
            },
            is_plain(self.base_url@ + path@) ==> (r matches Ok(url) ==> is_plain(url_text(url))),
    {
        match url_parse(self.base_url.clone().concat(path).as_str()) {
            Ok(url) => Ok(url),
            Err(reason) => Err(CliError::Url { path: path.to_string(), reason }),
        }
    }

    /// The URL for a request: its path and its query. Where the path and the base mark neither a
    /// query nor a fragment, the query follows the path as it is.
    pub fn request_url(&self, request: &Request) -> (r: Result<reqwest::Url, CliError>)
        ensures
            match parsed_url(self.base_url@ + request@.path) {
                Ok(text) => if has_room(text, with_pairs(front(text), request@.query)) {
                    r matches Ok(url) && url_text(url) == url_with_query(text, request@.query)
                } else {
                    r matches Err(CliError::UrlTooLong { path }) && path@ == request@.path
                },
                Err(why) => r matches Err(CliError::Url { path, reason }) && path@ == request@.path
                    && reason@ == why,
            },
            is_plain(self.base_url@ + request@.path) ==> (r matches Ok(url) ==> url_text(url)
                == parsed_url(self.base_url@ + request@.path)->Ok_0 + seq!['?'] + form_query(
                request@.query,
            )),
    {
        let mut url = match self.url(request.path.as_str()) {
            Ok(url) => url,
            Err(e) => {
                return Err(e);
            },
        };
        let ghost text = url_text(url);
        let query = &request.query;
        if !query_fits(url_as_str(&url), query) {
            return Err(CliError::UrlTooLong { path: request.path.clone() });
        }
        let ghost all = query_view(query@);
        let ghost start = front(text);
        proof {
            mark_splits(text, '#');
            assert(!start.contains('#'));
            assert(fragment(text).len() == 0 || fragment(text)[0] == '#');
            assert(all.take(0) =~= Seq::empty());
            pairs_grow(start, all, 0);
        }
        url_start_query(&mut url);
        let mut i: usize = 0;
        while i < query.len()
            invariant
                i <= query@.len(),
                all == query_view(query@),
                start == front(text),
                !start.contains('#'),
                fragment(text).len() == 0 || fragment(text)[0] == '#',
                has_room(text, with_pairs(start, all)),
                url_text(url) == with_pairs(start, all.take(i as int)) + fragment(text),
                marks_are_told(url),
            decreases query.len() - i,
        {
            proof {
                let next = all.take(i + 1);
                assert(next.drop_last() =~= all.take(i as int));
                assert(next.last() == (query@[i as int].0@, query@[i as int].1@));
                pairs_add(start, all.take(i as int));
                url_splits(with_pairs(start, all.take(i as int)), fragment(text));
                pairs_grow(start, all, i + 1);
            }
            url_append_pair(&mut url, query[i].0.as_str(), query[i].1.as_str());
            i += 1;
        }
        proof {
            assert(all.take(query@.len() as int) =~= all);
            if is_plain(self.base_url@ + request@.path) {
                queries_follow_paths(text, all);
            }
        }
        Ok(url)
    }
}

/// Takes an answer: its status has to be one of success.
pub fn accept_response(code: u16, status: String, text: String) -> (r: Result<String, CliError>)
    ensures
        200 <= code < 300 ==> r == Ok::<String, CliError>(text),
        !(200 <= code < 300) ==> r == Err::<String, CliError>(
            CliError::Http { status, body: text },
        ),
{
    if 200 <= code && code < 300 {
        Ok(text)
    } else {
        Err(CliError::Http { status, body: text })
    }
}

/// Reads an answer: its status has to be one of success, and its body JSON or nothing.
pub fn read_answer(code: u16, status: String, text: String) -> (r: Result<Json, CliError>)
    ensures
        if !(200 <= code < 300) {
            r == Err::<Json, CliError>(CliError::Http { status, body: text })
        } else if is_blank_text(text@) {
            r matches Ok(json) && json@ == JValue::Null
        } else {
            match parsed(text@) {
                Some(doc) => r matches Ok(json) && json@ == doc,
                None => r matches Err(CliError::ParseJson { body, .. }) && body@ == text@,
            }
        },
        r matches Ok(json) ==> json@.wf() && is_shallow(json@),
{
    match accept_response(code, status, text) {
        Ok(text) => parse_json_body(text.as_str()),
        Err(e) => Err(e),
    }
}

} // verus!
