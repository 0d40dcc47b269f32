//! What an endpoint sends: its HTTP method, request body, JSON request bodies
//! written member by member, and URL query strings written pair by pair.

use vstd::prelude::*;
use crate::framework::json::{json_member_text, json_quote, json_string_text, bool_text};
use crate::text::{decimal_text, push_char, push_decimal, push_str};

verus! {

/// HTTP request methods used by the endpoints.
#[derive(Clone, Copy, Debug, PartialEq, Eq, Structural)]
pub enum Method {
    Get,
    Post,
    Put,
    Patch,
    Delete,
}

/// A part of a multipart form body.
#[derive(Debug)]
pub enum MultipartPart {
    Text(String),
    Bytes(Vec<u8>),
}

/// The body of a request.
#[derive(Debug)]
pub enum RequestBody {
    /// JSON text.
    Json(String),
    /// Raw bytes.
    Raw(Vec<u8>),
    /// Named parts of a multipart form.
    MultiPart(Vec<(String, MultipartPart)>),
}

pub open spec fn content_type_json() -> Seq<char> {
    seq!['a', 'p', 'p', 'l', 'i', 'c', 'a', 't', 'i', 'o', 'n', '/', 'j', 's', 'o', 'n']
}

pub open spec fn content_type_octet_stream() -> Seq<char> {
    seq![
        'a', 'p', 'p', 'l', 'i', 'c', 'a', 't', 'i', 'o', 'n', '/', 'o', 'c', 't', 'e', 't', '-',
        's', 't', 'r', 'e', 'a', 'm',
    ]
}

pub open spec fn content_type_multipart() -> Seq<char> {
    seq![
        'm', 'u', 'l', 't', 'i', 'p', 'a', 'r', 't', '/', 'f', 'o', 'r', 'm', '-', 'd', 'a', 't',
        'a',
    ]
}

/// The content type that goes with a body.
pub open spec fn body_content_type(b: RequestBody) -> Seq<char> {
    match b {
        RequestBody::Json(_) => content_type_json(),
        RequestBody::Raw(_) => content_type_octet_stream(),
        RequestBody::MultiPart(_) => content_type_multipart(),
    }
}

impl Method {
    /// The method's name as sent on the wire.
    pub fn as_str(&self) -> (r: &'static str)
        ensures
            r@ == method_name(*self),
    {
        match self {
            Method::Get => "GET",
            Method::Post => "POST",
            Method::Put => "PUT",
            Method::Patch => "PATCH",
            Method::Delete => "DELETE",
        }
    }
}

/// The name of a method, e.g. `GET`.
pub open spec fn method_name(m: Method) -> Seq<char> {
    match m {
        Method::Get => "GET"@,
        Method::Post => "POST"@,
        Method::Put => "PUT"@,
        Method::Patch => "PATCH"@,
        Method::Delete => "DELETE"@,
    }
}

impl RequestBody {
    /// The content type of the body: `application/json`,
    /// `application/octet-stream` or `multipart/form-data`.
    pub fn content_type(&self) -> (r: String)
        ensures
            r@ == body_content_type(*self),
    {
        let mut r = String::new();
        match self {
            RequestBody::Json(_) => {
                push_str(&mut r, "application/json");
                proof {
                    reveal_strlit("application/json");
                }
            },
            RequestBody::Raw(_) => {
                push_str(&mut r, "application/octet-stream");
                proof {
                    reveal_strlit("application/octet-stream");
                }
            },
            RequestBody::MultiPart(_) => {
                push_str(&mut r, "multipart/form-data");
                proof {
                    reveal_strlit("multipart/form-data");
                }
            },
        }
        assert(r@ =~= body_content_type(*self));
        r
    }
}

/// Object members `"key":value`, separated by commas; each member is a key and
/// the JSON text of its value.
pub open spec fn members_text(m: Seq<(Seq<char>, Seq<char>)>) -> Seq<char>
    decreases m.len(),
{
    if m.len() == 0 {
        seq![]
    } else if m.len() == 1 {
        json_member_text(m[0].0, m[0].1)
    } else {
        members_text(m.subrange(0, m.len() - 1)) + seq![','] + json_member_text(
            m[m.len() - 1].0,
            m[m.len() - 1].1,
        )
    }
}

/// A JSON object with the given members, in order.
pub open spec fn object_text(m: Seq<(Seq<char>, Seq<char>)>) -> Seq<char> {
    seq!['{'] + members_text(m) + seq!['}']
}

/// Strings as JSON string texts, separated by commas.
pub open spec fn string_items_text(xs: Seq<String>) -> Seq<char>
    decreases xs.len(),
{
    if xs.len() == 0 {
        seq![]
    } else if xs.len() == 1 {
        json_string_text(xs[0]@)
    } else {
        string_items_text(xs.subrange(0, xs.len() - 1)) + seq![','] + json_string_text(
            xs[xs.len() - 1]@,
        )
    }
}

/// A JSON array of strings.
pub open spec fn string_list_text(xs: Seq<String>) -> Seq<char> {
    seq!['['] + string_items_text(xs) + seq![']']
}

/// One member whose value is a JSON string.
pub open spec fn string_member(key: Seq<char>, value: Seq<char>) -> Seq<(Seq<char>, Seq<char>)> {
    seq![(key, json_string_text(value))]
}

/// One member for an optional number: none when absent.
pub open spec fn opt_number_member(key: Seq<char>, value: Option<nat>) -> Seq<(Seq<char>, Seq<char>)> {
    match value {
        Some(n) => seq![(key, decimal_text(n))],
        None => seq![],
    }
}

/// One member for an optional boolean: none when absent.
pub open spec fn opt_bool_member(key: Seq<char>, value: Option<bool>) -> Seq<(Seq<char>, Seq<char>)> {
    match value {
        Some(b) => seq![(key, bool_text(b))],
        None => seq![],
    }
}

/// One member for an optional string: none when absent.
pub open spec fn opt_string_member(key: Seq<char>, value: Option<Seq<char>>) -> Seq<(Seq<char>, Seq<char>)> {
    match value {
        Some(s) => string_member(key, s),
        None => seq![],
    }
}

/// One member for an optional list of strings: none when absent.
pub open spec fn opt_string_list_member(key: Seq<char>, value: Option<Seq<String>>) -> Seq<(Seq<char>, Seq<char>)> {
    match value {
        Some(xs) => seq![(key, string_list_text(xs))],
        None => seq![],
    }
}

/// The view of an optional string slice.
pub open spec fn opt_str_view(s: Option<&str>) -> Option<Seq<char>> {
    match s {
        Some(t) => Some(t@),
        None => None,
    }
}

/// The view of an optional owned string.
pub open spec fn opt_string_view(s: Option<String>) -> Option<Seq<char>> {
    match s {
        Some(t) => Some(t@),
        None => None,
    }
}

/// An optional number as a mathematical integer.
pub open spec fn opt_nat_u32(n: Option<u32>) -> Option<nat> {
    match n {
        Some(v) => Some(v as nat),
        None => None,
    }
}

/// An optional number as a mathematical integer.
pub open spec fn opt_nat_u16(n: Option<u16>) -> Option<nat> {
    match n {
        Some(v) => Some(v as nat),
        None => None,
    }
}

/// The view of an optional slice of strings.
pub open spec fn opt_strings_view(s: Option<&[String]>) -> Option<Seq<String>> {
    match s {
        Some(t) => Some(t@),
        None => None,
    }
}

/// Writes a JSON object member by member; `members` records, for each member
/// written so far, its key and the JSON text of its value.
pub struct JsonObjectWriter {
    text: String,
    empty: bool,
    members: Ghost<Seq<(Seq<char>, Seq<char>)>>,
}

impl JsonObjectWriter {
    /// The members written so far.
    pub closed spec fn members(&self) -> Seq<(Seq<char>, Seq<char>)> {
        self.members@
    }

    /// The text written so far is `{` followed by the members.
    pub closed spec fn wf(&self) -> bool {
        &&& self.text@ == seq!['{'] + members_text(self.members@)
        &&& self.empty == (self.members@.len() == 0)
    }

    /// A writer with no member yet.
    pub fn new() -> (w: Self)
        ensures
            w.wf(),
            w.members() == Seq::<(Seq<char>, Seq<char>)>::empty(),
    {
        let mut text = String::new();
        push_char(&mut text, '{');
        JsonObjectWriter { text, empty: true, members: Ghost(Seq::empty()) }
    }

    /// Writes a member whose value's JSON text is `value_text`.
    pub fn member(&mut self, key: &str, value_text: &str)
        requires
            old(self).wf(),
        ensures
            final(self).wf(),
            final(self).members() == old(self).members().push((key@, value_text@)),
    {
        let ghost prev = self.members@;
        let ghost next = prev.push((key@, value_text@));
        if !self.empty {
            push_char(&mut self.text, ',');
        }
        let q = json_quote(key);
        push_str(&mut self.text, q.as_str());
        push_char(&mut self.text, ':');
        push_str(&mut self.text, value_text);
        self.empty = false;
        self.members = Ghost(next);
        proof {
            assert(next.subrange(0, next.len() - 1) =~= prev);
            if prev.len() == 0 {
                assert(self.text@ =~= seq!['{'] + members_text(next));
            } else {
                assert(self.text@ =~= seq!['{'] + members_text(next));
            }
        }
    }

    /// Writes a member whose value is the string `value`.
    pub fn string(&mut self, key: &str, value: &str)
        requires
            old(self).wf(),
        ensures
            final(self).wf(),
            final(self).members() == old(self).members() + string_member(key@, value@),
    {
        let q = json_quote(value);
        self.member(key, q.as_str());
        assert(final(self).members() =~= old(self).members() + string_member(key@, value@));
    }

    /// Writes a member whose value is a number.
    pub fn number(&mut self, key: &str, value: u64)
        requires
            old(self).wf(),
        ensures
            final(self).wf(),
            final(self).members() == old(self).members().push((key@, decimal_text(value as nat))),
    {
        let mut t = String::new();
        push_decimal(&mut t, value);
        self.member(key, t.as_str());
    }

    /// Writes a member whose value is a boolean.
    pub fn boolean(&mut self, key: &str, value: bool)
        requires
            old(self).wf(),
        ensures
            final(self).wf(),
            final(self).members() == old(self).members().push((key@, bool_text(value))),
    {
        let mut t = String::new();
        crate::framework::json::push_bool(&mut t, value);
        self.member(key, t.as_str());
    }

    /// Writes a member whose value is an array of strings.
    pub fn string_list(&mut self, key: &str, values: &[String])
        requires
            old(self).wf(),
        ensures
            final(self).wf(),
            final(self).members() == old(self).members().push((key@, string_list_text(values@))),
    {
        let mut t = String::new();
        push_char(&mut t, '[');
        let mut i: usize = 0;
        assert(values@.subrange(0, 0) =~= Seq::<String>::empty());
        while i < values.len()
            invariant
                0 <= i <= values@.len(),
                t@ == seq!['['] + string_items_text(values@.subrange(0, i as int)),
            decreases values@.len() - i,
        {
            let ghost prev = values@.subrange(0, i as int);
            let ghost next = values@.subrange(0, i + 1);
            assert(next.subrange(0, next.len() - 1) =~= prev);
            if i > 0 {
                push_char(&mut t, ',');
            }
            let q = json_quote(values[i].as_str());
            push_str(&mut t, q.as_str());
            i = i + 1;
            proof {
                if i == 1 {
                    assert(prev.len() == 0);
                }
                assert(t@ =~= seq!['['] + string_items_text(next));
            }
        }
        assert(values@.subrange(0, values@.len() as int) =~= values@);
        push_char(&mut t, ']');
        assert(t@ =~= string_list_text(values@));
        self.member(key, t.as_str());
    }

    /// The finished object text.
    pub fn finish(self) -> (r: String)
        requires
            self.wf(),
        ensures
            r@ == object_text(self.members()),
    {
        let mut text = self.text;
        push_char(&mut text, '}');
        text
    }
}

/// The UTF-8 encoding of a character.
pub open spec fn utf8_bytes(c: char) -> Seq<u8> {
    let x = c as int;
    if x < 0x80 {
        seq![x as u8]
    } else if x < 0x800 {
        seq![(0xc0 + x / 64) as u8, (0x80 + x % 64) as u8]
    } else if x < 0x10000 {
        seq![(0xe0 + x / 4096) as u8, (0x80 + (x / 64) % 64) as u8, (0x80 + x % 64) as u8]
    } else {
        seq![
            (0xf0 + x / 262144) as u8,
            (0x80 + (x / 4096) % 64) as u8,
            (0x80 + (x / 64) % 64) as u8,
            (0x80 + x % 64) as u8,
        ]
    }
}

/// The upper-case hexadecimal digit for a value below 16.
pub open spec fn upper_hex_digit(d: int) -> char {
    seq!['0', '1', '2', '3', '4', '5', '6', '7', '8', '9', 'A', 'B', 'C', 'D', 'E', 'F'][d]
}

/// How `byte_serialize` writes one byte: ASCII letters, digits and `*-._` as
/// they are, a space as `+`, any other byte as `%XX` in upper-case
/// hexadecimal.
pub open spec fn form_byte_text(b: u8) -> Seq<char> {
    if b == 0x2a || b == 0x2d || b == 0x2e || b == 0x5f || (0x30 <= b <= 0x39) || (0x41 <= b <= 0x5a) || (0x61
        <= b <= 0x7a) {
        seq![b as char]
    } else if b == 0x20 {
        seq!['+']
    } else {
        seq!['%', upper_hex_digit(b as int / 16), upper_hex_digit(b as int % 16)]
    }
}

/// The bytes written one by one.
pub open spec fn form_bytes_text(bs: Seq<u8>) -> Seq<char>
    decreases bs.len(),
{
    if bs.len() == 0 {
        seq![]
    } else {
        form_bytes_text(bs.drop_last()) + form_byte_text(bs.last())
    }
}

/// What `url::form_urlencoded::byte_serialize` writes for a string: each
/// byte of its UTF-8 encoding, written as `form_byte_text` says.
pub open spec fn form_encoded_text(s: Seq<char>) -> Seq<char>
    decreases s.len(),
{
    if s.len() == 0 {
        seq![]
    } else {
        form_encoded_text(s.drop_last()) + form_bytes_text(utf8_bytes(s.last()))
    }
}

/// Encodes a string for a URL query (url's `form_urlencoded::byte_serialize`
/// over the string's bytes, collected): the result is `form_encoded_text(s@)`,
/// the application/x-www-form-urlencoded byte serializer of the url crate.
#[verifier::external_body]
pub(crate) fn form_encode(s: &str) -> (r: String)
    ensures
        r@ == form_encoded_text(s@),
{
    url::form_urlencoded::byte_serialize(s.as_bytes()).collect()
}

/// Query pairs `key=value`, each side form-encoded, separated by `&`.
pub open spec fn pairs_text(p: Seq<(Seq<char>, Seq<char>)>) -> Seq<char>
    decreases p.len(),
{
    if p.len() == 0 {
        seq![]
    } else if p.len() == 1 {
        pair_text(p[0].0, p[0].1)
    } else {
        pairs_text(p.subrange(0, p.len() - 1)) + seq!['&'] + pair_text(
            p[p.len() - 1].0,
            p[p.len() - 1].1,
        )
    }
}

/// One query pair `key=value`, each side form-encoded.
pub open spec fn pair_text(key: Seq<char>, value: Seq<char>) -> Seq<char> {
    form_encoded_text(key) + seq!['='] + form_encoded_text(value)
}

/// The query string for the given pairs: none when there is no pair.
pub open spec fn query_of(p: Seq<(Seq<char>, Seq<char>)>) -> Option<Seq<char>> {
    if p.len() == 0 {
        None
    } else {
        Some(pairs_text(p))
    }
}

/// Writes a URL query pair by pair; `pairs` records the key and value text of
/// each pair written so far.
pub struct QueryWriter {
    text: String,
    empty: bool,
    pairs: Ghost<Seq<(Seq<char>, Seq<char>)>>,
}

impl QueryWriter {
    /// The pairs written so far.
    pub closed spec fn pairs(&self) -> Seq<(Seq<char>, Seq<char>)> {
        self.pairs@
    }

    /// The text written so far is the pairs' text.
    pub closed spec fn wf(&self) -> bool {
        &&& self.text@ == pairs_text(self.pairs@)
        &&& self.empty == (self.pairs@.len() == 0)
    }

    /// A writer with no pair yet.
    pub fn new() -> (w: Self)
        ensures
            w.wf(),
            w.pairs() == Seq::<(Seq<char>, Seq<char>)>::empty(),
    {
        QueryWriter { text: String::new(), empty: true, pairs: Ghost(Seq::empty()) }
    }

    /// Writes the pair `key=value`.
    pub fn pair(&mut self, key: &str, value: &str)
        requires
            old(self).wf(),
        ensures
            final(self).wf(),
            final(self).pairs() == old(self).pairs().push((key@, value@)),
    {
        let ghost prev = self.pairs@;
        let ghost next = prev.push((key@, value@));
        if !self.empty {
            push_char(&mut self.text, '&');
        }
        let k = form_encode(key);
        push_str(&mut self.text, k.as_str());
        push_char(&mut self.text, '=');
        let v = form_encode(value);
        push_str(&mut self.text, v.as_str());
        self.empty = false;
        self.pairs = Ghost(next);
        proof {
            assert(next.subrange(0, next.len() - 1) =~= prev);
            assert(self.text@ =~= pairs_text(next));
        }
    }

    /// Writes the pair `key=value` when `value` is present.
    pub fn opt_pair(&mut self, key: &str, value: &Option<String>)
        requires
            old(self).wf(),
        ensures
            final(self).wf(),
            final(self).pairs() == old(self).pairs() + opt_pair_of(key@, opt_string_view(*value)),
    {
        match value {
            Some(v) => {
                self.pair(key, v.as_str());
            },
            None => {},
        }
        assert(final(self).pairs() =~= old(self).pairs() + opt_pair_of(key@, opt_string_view(*value)));
    }

    /// The query string: none when no pair was written.
    pub fn finish(self) -> (r: Option<String>)
        requires
            self.wf(),
        ensures
            match r {
                Some(s) => query_of(self.pairs()) == Some(s@),
                None => query_of(self.pairs()) is None,
            },
    {
        if self.empty {
            None
        } else {
            Some(self.text)
        }
    }
}

/// One pair for an optional value: none when absent.
pub open spec fn opt_pair_of(key: Seq<char>, value: Option<Seq<char>>) -> Seq<(Seq<char>, Seq<char>)> {
    match value {
        Some(v) => seq![(key, v)],
        None => seq![],
    }
}

/// The wire names of the methods, and the content type of each kind of
/// body.
pub proof fn lemma_method_and_content_type_names()
    ensures
        method_name(Method::Get) == seq!['G', 'E', 'T'],
        method_name(Method::Post) == seq!['P', 'O', 'S', 'T'],
        method_name(Method::Put) == seq!['P', 'U', 'T'],
        method_name(Method::Patch) == seq!['P', 'A', 'T', 'C', 'H'],
        method_name(Method::Delete) == seq!['D', 'E', 'L', 'E', 'T', 'E'],
        content_type_json() == seq!['a', 'p', 'p', 'l', 'i', 'c', 'a', 't', 'i', 'o', 'n', '/'] + seq![
            'j', 's', 'o', 'n',
        ],
        content_type_octet_stream() == seq!['a', 'p', 'p', 'l', 'i', 'c', 'a', 't', 'i', 'o', 'n', '/']
            + seq!['o', 'c', 't', 'e', 't', '-', 's', 't', 'r', 'e', 'a', 'm'],
        content_type_multipart() == seq!['m', 'u', 'l', 't', 'i', 'p', 'a', 'r', 't', '/'] + seq![
            'f', 'o', 'r', 'm', '-', 'd', 'a', 't', 'a',
        ],
{
    reveal_strlit("GET");
    reveal_strlit("POST");
    reveal_strlit("PUT");
    reveal_strlit("PATCH");
    reveal_strlit("DELETE");
    assert(method_name(Method::Get) =~= seq!['G', 'E', 'T']);
    assert(method_name(Method::Post) =~= seq!['P', 'O', 'S', 'T']);
    assert(method_name(Method::Put) =~= seq!['P', 'U', 'T']);
    assert(method_name(Method::Patch) =~= seq!['P', 'A', 'T', 'C', 'H']);
    assert(method_name(Method::Delete) =~= seq!['D', 'E', 'L', 'E', 'T', 'E']);
    assert(content_type_json() =~= seq!['a', 'p', 'p', 'l', 'i', 'c', 'a', 't', 'i', 'o', 'n', '/'] + seq![
        'j', 's', 'o', 'n',
    ]);
    assert(content_type_octet_stream() =~= seq!['a', 'p', 'p', 'l', 'i', 'c', 'a', 't', 'i', 'o', 'n', '/']
        + seq!['o', 'c', 't', 'e', 't', '-', 's', 't', 'r', 'e', 'a', 'm']);
    assert(content_type_multipart() =~= seq!['m', 'u', 'l', 't', 'i', 'p', 'a', 'r', 't', '/'] + seq![
        'f', 'o', 'r', 'm', '-', 'd', 'a', 't', 'a',
    ]);
}

/// How bytes and characters are form-encoded: letters, digits and `*-._`
/// are kept, a space becomes `+`, other bytes become `%` and two upper-case
/// hexadecimal digits, and a character is encoded byte by byte in UTF-8.
pub proof fn lemma_form_encoding(b: u8)
    ensures
        ((0x30 <= b <= 0x39) || (0x41 <= b <= 0x5a) || (0x61 <= b <= 0x7a)) ==> form_byte_text(b) == seq![b as char],
        form_byte_text(0x20) == seq!['+'],
        form_byte_text(0x26) == seq!['%', '2', '6'],
        form_byte_text(0x3d) == seq!['%', '3', 'D'],
        form_byte_text(0xc3) == seq!['%', 'C', '3'],
        utf8_bytes('a') == seq![0x61u8],
        utf8_bytes('\u{e9}') == seq![0xc3u8, 0xa9u8],
        form_encoded_text(seq![' ', '&']) == seq!['+', '%', '2', '6'],
{
    let u = seq!['0', '1', '2', '3', '4', '5', '6', '7', '8', '9', 'A', 'B', 'C', 'D', 'E', 'F'];
    assert(u[2] == '2' && u[6] == '6' && u[3] == '3' && u[13] == 'D' && u[12] == 'C');
    assert(form_byte_text(0x26) =~= seq!['%', '2', '6']);
    assert(form_byte_text(0x3d) =~= seq!['%', '3', 'D']);
    assert(form_byte_text(0xc3) =~= seq!['%', 'C', '3']);
    let s = seq![' ', '&'];
    assert(s.drop_last() =~= seq![' ']);
    assert(s.drop_last().drop_last() =~= Seq::<char>::empty());
    assert(utf8_bytes(' ') =~= seq![0x20u8]);
    assert(utf8_bytes('&') =~= seq![0x26u8]);
    assert(seq![0x20u8].drop_last() =~= Seq::<u8>::empty());
    assert(seq![0x26u8].drop_last() =~= Seq::<u8>::empty());
    assert(seq![0x20u8].last() == 0x20u8);
    assert(form_byte_text(0x20u8) == seq!['+']);
    assert(form_bytes_text(Seq::<u8>::empty()) == Seq::<char>::empty());
    assert(form_bytes_text(seq![0x20u8]) =~= seq!['+']);
    assert(form_bytes_text(seq![0x26u8]) =~= seq!['%', '2', '6']);
    assert(seq![' '].drop_last() =~= Seq::<char>::empty());
    assert(seq![' '].last() == ' ');
    assert(form_encoded_text(Seq::<char>::empty()) == Seq::<char>::empty());
    assert(form_bytes_text(utf8_bytes(' ')) =~= seq!['+']);
    assert(form_encoded_text(seq![' ']) == form_encoded_text(seq![' '].drop_last()) + form_bytes_text(
        utf8_bytes(seq![' '].last()),
    ));
    assert(form_encoded_text(seq![' ']) =~= seq!['+']);
    assert(form_encoded_text(s) =~= seq!['+', '%', '2', '6']);
}

} // verus!
