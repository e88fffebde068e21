//! Requests to the server.

use vstd::prelude::*;
use vstd::utf8::encode_utf8;
use crate::json::{Json, JValue};
use crate::output::Report;

verus! {

/// The bytes that stand for themselves in a part of a path.
pub open spec fn is_unreserved(b: u8) -> bool {
    ||| 48 <= b <= 57
    ||| 65 <= b <= 90
    ||| 97 <= b <= 122
    ||| b == 45
    ||| b == 46
    ||| b == 95
    ||| b == 126
}

/// The hexadecimal digit for `n`, which is below sixteen.
pub open spec fn hex_digit(n: nat) -> char {
    if n < 10 {
        (48 + n) as char
    } else {
        (55 + n) as char
    }
}

/// A byte as a percent sign and two hexadecimal digits.
pub open spec fn escaped(b: u8) -> Seq<char> {
    seq!['%', hex_digit(b as nat / 16), hex_digit(b as nat % 16)]
}

/// A byte in a part of a path.
pub open spec fn path_byte(b: u8) -> Seq<char> {
    if is_unreserved(b) {
        seq![b as char]
    } else {
        escaped(b)
    }
}

/// Bytes, each written as `code` has it.
pub open spec fn encoded(bytes: Seq<u8>, code: spec_fn(u8) -> Seq<char>) -> Seq<char>
    decreases bytes.len(),
{
    if bytes.len() == 0 {
        Seq::empty()
    } else {
        encoded(bytes.drop_last(), code) + code(bytes.last())
    }
}

/// How bytes are written in a part of a path.
pub open spec fn path_code() -> spec_fn(u8) -> Seq<char> {
    |b: u8| path_byte(b)
}

/// Bytes as a part of a path.
pub open spec fn path_bytes(bytes: Seq<u8>) -> Seq<char> {
    encoded(bytes, path_code())
}

/// A text as a part of a path: its UTF-8 bytes, all but the unreserved ones escaped.
pub open spec fn path_part(s: Seq<char>) -> Seq<char> {
    path_bytes(encode_utf8(s))
}

/// The text marks neither a query nor a fragment of a URL.
pub open spec fn is_plain(s: Seq<char>) -> bool {
    forall|i: int| 0 <= i < s.len() ==> (#[trigger] s[i]) != '?' && s[i] != '#'
}

/// The characters that a part of a path is made of.
pub open spec fn is_path_char(c: char) -> bool {
    ||| '0' <= c <= '9'
    ||| 'A' <= c <= 'Z'
    ||| 'a' <= c <= 'z'
    ||| c == '-'
    ||| c == '.'
    ||| c == '_'
    ||| c == '~'
    ||| c == '%'
}

/// A part of a path is made of letters, digits, `-`, `.`, `_`, `~` and `%` alone: whatever text
/// it was made from, it neither ends the path nor starts another part of it.
pub proof fn path_part_chars(s: Seq<char>)
    ensures
        forall|i: int| 0 <= i < path_part(s).len() ==> is_path_char(#[trigger] path_part(s)[i]),
        is_plain(path_part(s)),
        !path_part(s).contains('/'),
{
    let ok = |c: char| is_path_char(c);
    encoded_chars(encode_utf8(s), path_code(), ok);
    assert forall|i: int| 0 <= i < path_part(s).len() implies is_path_char(
        #[trigger] path_part(s)[i],
    ) by {
        assert(ok(encoded(encode_utf8(s), path_code())[i]));
    }
}

/// What holds of every character that a byte is written with holds of every character that bytes
/// are written with.
pub proof fn encoded_chars(
    bytes: Seq<u8>,
    code: spec_fn(u8) -> Seq<char>,
    ok: spec_fn(char) -> bool,
)
    requires
        forall|b: u8, i: int| 0 <= i < code(b).len() ==> ok(#[trigger] code(b)[i]),
    ensures
        forall|i: int|
            0 <= i < encoded(bytes, code).len() ==> ok(#[trigger] encoded(bytes, code)[i]),
    decreases bytes.len(),
{
    if bytes.len() > 0 {
        let before = encoded(bytes.drop_last(), code);
        encoded_chars(bytes.drop_last(), code, ok);
        assert forall|i: int| 0 <= i < encoded(bytes, code).len() implies ok(
            #[trigger] encoded(bytes, code)[i],
        ) by {
            if i < before.len() {
                assert(encoded(bytes, code)[i] == before[i]);
            } else {
                assert(encoded(bytes, code)[i] == code(bytes.last())[i - before.len()]);
            }
        }
    }
}

/// Calls `urlencoding::encode`: every byte of the UTF-8 text but letters, digits and `-`, `.`,
/// `_`, `~` becomes a percent sign and two upper-case hexadecimal digits.
#[verifier::external_body]
fn encode_component(value: &str) -> (r: String)
    ensures
        r@ == path_part(value@),
{
    urlencoding::encode(value).into_owned()
}

/// A text as a part of a path.
pub fn enc(value: &str) -> (r: String)
    ensures
        r@ == path_part(value@),
{
    encode_component(value)
}

/// How a request is made.
#[derive(Clone, Copy, Debug, PartialEq, Eq, Structural)]
pub enum Method {
    Get,
    Post,
    Patch,
}

/// A request to the server, apart from where the server is and who asks.
#[derive(Debug)]
pub struct Request {
    pub method: Method,
    pub path: String,
    pub query: Vec<(String, String)>,
    pub body: Option<Json>,
}

/// What a request holds.
pub ghost struct RequestView {
    pub method: Method,
    pub path: Seq<char>,
    pub query: Seq<(Seq<char>, Seq<char>)>,
    pub body: Option<JValue>,
}

impl RequestView {
    /// The path is a path alone, and the body is well formed.
    pub open spec fn wf(self) -> bool {
        &&& is_plain(self.path)
        &&& self.body matches Some(body) ==> body.wf()
    }
}

/// What the pairs of a query hold.
pub open spec fn query_view(query: Seq<(String, String)>) -> Seq<(Seq<char>, Seq<char>)> {
    Seq::new(query.len(), |i: int| (query[i].0@, query[i].1@))
}

impl Request {
    /// What the request holds.
    pub open spec fn view(&self) -> RequestView {
        RequestView {
            method: self.method,
            path: self.path@,
            query: query_view(self.query@),
            body: match self.body {
                Some(json) => Some(json@),
                None => None,
            },
        }
    }

    /// A request that reads.
    pub fn get(path: String, query: Vec<(String, String)>) -> (r: Request)
        ensures
            r@ == get_view(path@, query_view(query@)),
    {
        Request { method: Method::Get, path, query, body: None }
    }

    /// A request that sends a document.
    pub fn post(path: String, body: Json) -> (r: Request)
        ensures
            r@ == post_view(path@, body@),
    {
        let query: Vec<(String, String)> = Vec::new();
        assert(query_view(query@) =~= Seq::empty());
        Request { method: Method::Post, path, query, body: Some(body) }
    }

    /// A request that changes what the server holds.
    pub fn patch(path: String, body: Json) -> (r: Request)
        ensures
            r@ == patch_view(path@, body@),
    {
        let query: Vec<(String, String)> = Vec::new();
        assert(query_view(query@) =~= Seq::empty());
        Request { method: Method::Patch, path, query, body: Some(body) }
    }
}

/// A request that reads.
pub open spec fn get_view(path: Seq<char>, query: Seq<(Seq<char>, Seq<char>)>) -> RequestView {
    RequestView { method: Method::Get, path, query, body: None }
}

/// A request that sends a document.
pub open spec fn post_view(path: Seq<char>, body: JValue) -> RequestView {
    RequestView { method: Method::Post, path, query: Seq::empty(), body: Some(body) }
}

/// A request that changes what the server holds.
pub open spec fn patch_view(path: Seq<char>, body: JValue) -> RequestView {
    RequestView { method: Method::Patch, path, query: Seq::empty(), body: Some(body) }
}

/// A request, and what its answer is about.
#[derive(Debug)]
pub struct Call {
    pub request: Request,
    pub report: Report,
}

} // verus!
