//! Transport-neutral ADT requests and responses.
use vstd::prelude::*;

use crate::text::{chars_of, clone_pairs, eq_ignore_ascii_case, eq_ignore_case, lower, to_lower, string_of};
use crate::uri::AdtUri;

verus! {

/// The HTTP-like method of an ADT request.
#[derive(Clone, Copy, Debug, PartialEq, Eq, Structural)]
pub enum HttpMethod {
    Get,
    Post,
    Put,
    Delete,
    Head,
    Options,
    Patch,
}

/// The method's token as it appears on a request line.
pub open spec fn method_token(m: HttpMethod) -> Seq<char> {
    match m {
        HttpMethod::Get => "GET"@,
        HttpMethod::Post => "POST"@,
        HttpMethod::Put => "PUT"@,
        HttpMethod::Delete => "DELETE"@,
        HttpMethod::Head => "HEAD"@,
        HttpMethod::Options => "OPTIONS"@,
        HttpMethod::Patch => "PATCH"@,
    }
}

impl HttpMethod {
    /// Returns the method's token.
    pub fn as_str(self) -> (r: &'static str)
        ensures
            r@ == method_token(self),
    {
        match self {
            HttpMethod::Get => "GET",
            HttpMethod::Post => "POST",
            HttpMethod::Put => "PUT",
            HttpMethod::Delete => "DELETE",
            HttpMethod::Head => "HEAD",
            HttpMethod::Options => "OPTIONS",
            HttpMethod::Patch => "PATCH",
        }
    }
}

/// Whether a character may appear in an HTTP header value: visible
/// characters, spaces and tabs, but no other control characters.
pub open spec fn header_value_char(c: char) -> bool {
    ((c as u32) >= 32 && (c as u32) != 127) || c == '\t'
}

/// Whether a text is a valid HTTP header value.
pub open spec fn is_header_value(s: Seq<char>) -> bool {
    forall|i: int| 0 <= i < s.len() ==> header_value_char(#[trigger] s[i])
}

fn is_header_value_exec(s: &str) -> (r: bool)
    ensures
        r == is_header_value(s@),
{
    let cs = chars_of(s);
    let mut i: usize = 0;
    while i < cs.len()
        invariant
            i <= cs.len(),
            cs@ == s@,
            forall|k: int| 0 <= k < i ==> header_value_char(#[trigger] cs@[k]),
        decreases cs.len() - i,
    {
        let c = cs[i];
        if !(((c as u32) >= 32 && (c as u32) != 127) || c == '\t') {
            assert(!header_value_char(cs@[i as int]));
            return false;
        }
        i += 1;
    }
    true
}

/// An entity tag validated for use as an HTTP header value.
///
/// This guarantees header safety but does not enforce the complete HTTP ETag
/// grammar, preserving the unquoted values emitted by some SAP systems.
#[derive(Debug)]
pub struct EntityTag(String);

/// Why a text is not a valid header value.
#[derive(Debug)]
pub struct InvalidHeaderValue;

impl View for EntityTag {
    type V = Seq<char>;

    closed spec fn view(&self) -> Seq<char> {
        self.0@
    }
}

impl EntityTag {
    #[verifier::type_invariant]
    closed spec fn well_formed(self) -> bool {
        is_header_value(self.0@)
    }

    /// An entity tag from a static text, which must be visible ASCII, spaces
    /// or tabs (a static header value).
    pub fn from_static(value: &'static str) -> (r: EntityTag)
        requires
            forall|i: int| 0 <= i < value@.len() ==> header_value_char(#[trigger] value@[i])
                && (value@[i] as u32) < 127,
        ensures
            r@ == value@,
    {
        EntityTag(value.to_owned())
    }

    /// Validates an entity tag; it is refused exactly when it holds a control
    /// character other than a tab.
    pub fn parse(value: &str) -> (r: Result<EntityTag, InvalidHeaderValue>)
        ensures
            r is Ok <==> is_header_value(value@),
            r matches Ok(t) ==> t@ == value@,
    {
        if is_header_value_exec(value) {
            Ok(EntityTag(value.to_owned()))
        } else {
            Err(InvalidHeaderValue)
        }
    }

    /// Returns the entity tag as text, which is always a valid header value.
    pub fn as_str(&self) -> (r: &str)
        ensures
            r@ == self@,
            is_header_value(r@),
    {
        proof {
            use_type_invariant(self);
        }
        self.0.as_str()
    }
}

impl Clone for EntityTag {
    fn clone(&self) -> (r: Self)
        ensures
            r@ == self@,
    {
        proof {
            use_type_invariant(self);
        }
        EntityTag(self.0.clone())
    }
}

impl PartialEq for EntityTag {
    fn eq(&self, other: &Self) -> (r: bool) {
        self.0 == other.0
    }
}

impl vstd::std_specs::cmp::PartialEqSpecImpl for EntityTag {
    open spec fn obeys_eq_spec() -> bool {
        true
    }

    open spec fn eq_spec(&self, other: &Self) -> bool {
        self@ == other@
    }
}

impl Eq for EntityTag {}

impl core::str::FromStr for EntityTag {
    type Err = InvalidHeaderValue;

    fn from_str(value: &str) -> (r: Result<Self, Self::Err>)
        ensures
            r is Ok <==> is_header_value(value@),
            r matches Ok(t) ==> t@ == value@,
    {
        EntityTag::parse(value)
    }
}

/// The views of a header list: lowercase names and values.
pub open spec fn headers_view(h: Seq<(String, String)>) -> Seq<(Seq<char>, Seq<char>)> {
    h.map_values(|p: (String, String)| (p.0@, p.1@))
}

/// The first value of a header, looked up ignoring case.
pub open spec fn first_header(h: Seq<(Seq<char>, Seq<char>)>, name: Seq<char>) -> Option<Seq<char>>
    decreases h.len(),
{
    if h.len() == 0 {
        None
    } else if eq_ignore_case(h[0].0, name) {
        Some(h[0].1)
    } else {
        first_header(h.drop_first(), name)
    }
}

/// The list without the headers of a name (ignoring case).
pub open spec fn without_header(h: Seq<(Seq<char>, Seq<char>)>, name: Seq<char>) -> Seq<(Seq<char>, Seq<char>)>
    decreases h.len(),
{
    if h.len() == 0 {
        h
    } else if eq_ignore_case(h.last().0, name) {
        without_header(h.drop_last(), name)
    } else {
        without_header(h.drop_last(), name).push(h.last())
    }
}

fn remove_header(headers: &mut Vec<(String, String)>, name: &str)
    ensures
        headers_view(final(headers)@) == without_header(headers_view(old(headers)@), name@),
{
    let lname = chars_of(name);
    let mut kept: Vec<(String, String)> = Vec::new();
    let mut i: usize = 0;
    let ghost src = headers_view(headers@);
    while i < headers.len()
        invariant
            i <= headers.len(),
            src == headers_view(headers@),
            lname@ == name@,
            headers_view(kept@) == without_header(src.take(i as int), name@),
        decreases headers.len() - i,
    {
        let ghost before = kept@;
        let n = chars_of(headers[i].0.as_str());
        assert(src.take(i + 1).drop_last() =~= src.take(i as int));
        if !eq_ignore_ascii_case(n.as_slice(), lname.as_slice()) {
            kept.push((headers[i].0.clone(), headers[i].1.clone()));
            assert(headers_view(kept@) =~= headers_view(before).push(src[i as int]));
        } else {
            assert(headers_view(kept@) =~= headers_view(before));
        }
        i += 1;
    }
    assert(src.take(src.len() as int) =~= src);
    *headers = kept;
}

/// A transport-agnostic request to an ADT resource: method, target, query,
/// headers (lowercase names, in order) and body.
#[derive(Debug)]
pub struct AdtRequest {
    pub method: HttpMethod,
    pub target: AdtUri,
    pub query: Vec<(String, String)>,
    pub headers: Vec<(String, String)>,
    pub body: Vec<u8>,
}

impl AdtRequest {
    /// A request without query, headers or body.
    pub fn new(method: HttpMethod, target: AdtUri) -> (r: Self)
        ensures
            r.method == method,
            r.target == target,
            r.query@.len() == 0,
            r.headers@.len() == 0,
            r.body@.len() == 0,
    {
        AdtRequest { method, target, query: Vec::new(), headers: Vec::new(), body: Vec::new() }
    }

    /// Returns the method.
    pub fn method(&self) -> (r: HttpMethod)
        ensures
            r == self.method,
    {
        self.method
    }

    /// Returns the target resource.
    pub fn target(&self) -> (r: &AdtUri)
        ensures
            *r == self.target,
    {
        &self.target
    }

    /// Returns the query parameters in order.
    pub fn query(&self) -> (r: &[(String, String)])
        ensures
            r@ == self.query@,
    {
        self.query.as_slice()
    }

    /// Appends a query parameter.
    pub fn push_query(&mut self, name: &str, value: &str)
        ensures
            final(self).method == old(self).method,
            final(self).target == old(self).target,
            final(self).headers == old(self).headers,
            final(self).body == old(self).body,
            crate::text::pairs_view(final(self).query@) == crate::text::pairs_view(
                old(self).query@,
            ).push((name@, value@)),
    {
        let ghost before = self.query@;
        self.query.push((name.to_owned(), value.to_owned()));
        assert(crate::text::pairs_view(self.query@) =~= crate::text::pairs_view(before).push(
            (name@, value@),
        ));
    }

    /// Returns the headers in order.
    pub fn headers(&self) -> (r: &[(String, String)])
        ensures
            r@ == self.headers@,
    {
        self.headers.as_slice()
    }

    /// Returns the first value of a header, ignoring the name's case.
    pub fn header(&self, name: &str) -> (r: Option<&str>)
        ensures
            match r {
                Some(v) => first_header(headers_view(self.headers@), name@) == Some(v@),
                None => first_header(headers_view(self.headers@), name@) is None,
            },
    {
        header_in(self.headers.as_slice(), name)
    }

    /// Replaces every value of a header with one value.
    pub fn insert_header(&mut self, name: &str, value: &str)
        ensures
            final(self).method == old(self).method,
            final(self).target == old(self).target,
            final(self).query == old(self).query,
            final(self).body == old(self).body,
            headers_view(final(self).headers@) == without_header(
                headers_view(old(self).headers@),
                name@,
            ).push((lower(name@), value@)),
    {
        remove_header(&mut self.headers, name);
        let ghost before = self.headers@;
        let lname = to_lower(chars_of(name).as_slice());
        self.headers.push((string_of(lname.as_slice()), value.to_owned()));
        assert(headers_view(self.headers@) =~= headers_view(before).push((lower(name@), value@)));
    }

    /// Adds one more value of a header after the existing ones.
    pub fn append_header(&mut self, name: &str, value: &str)
        ensures
            final(self).method == old(self).method,
            final(self).target == old(self).target,
            final(self).query == old(self).query,
            final(self).body == old(self).body,
            headers_view(final(self).headers@) == headers_view(old(self).headers@).push(
                (lower(name@), value@),
            ),
    {
        let ghost before = self.headers@;
        let lname = to_lower(chars_of(name).as_slice());
        self.headers.push((string_of(lname.as_slice()), value.to_owned()));
        assert(headers_view(self.headers@) =~= headers_view(before).push((lower(name@), value@)));
    }

    /// Sets the media type accepted for the response.
    pub fn set_accept(&mut self, media_type: &str)
        ensures
            final(self).method == old(self).method,
            final(self).target == old(self).target,
            final(self).query == old(self).query,
            final(self).body == old(self).body,
            headers_view(final(self).headers@) == without_header(
                headers_view(old(self).headers@),
                "accept"@,
            ).push(("accept"@, media_type@)),
    {
        self.insert_header("accept", media_type);
        proof {
            assert(lower("accept"@) =~= "accept"@) by {
                reveal_strlit("accept");
            }
        }
    }

    /// Sets the media type of the request body.
    pub fn set_content_type(&mut self, media_type: &str)
        ensures
            final(self).method == old(self).method,
            final(self).target == old(self).target,
            final(self).query == old(self).query,
            final(self).body == old(self).body,
            headers_view(final(self).headers@) == without_header(
                headers_view(old(self).headers@),
                "content-type"@,
            ).push(("content-type"@, media_type@)),
    {
        self.insert_header("content-type", media_type);
        proof {
            assert(lower("content-type"@) =~= "content-type"@) by {
                reveal_strlit("content-type");
            }
        }
    }

    /// Configures cache revalidation: `If-None-Match` with an entity tag, or
    /// an unconditional refresh with `Cache-Control: no-cache`.
    pub fn set_cache_revalidation(&mut self, if_none_match: Option<&EntityTag>)
        ensures
            final(self).method == old(self).method,
            final(self).target == old(self).target,
            final(self).query == old(self).query,
            final(self).body == old(self).body,
            match if_none_match {
                Some(tag) => headers_view(final(self).headers@) == without_header(
                    without_header(headers_view(old(self).headers@), "cache-control"@),
                    "if-none-match"@,
                ).push(("if-none-match"@, tag@)),
                None => headers_view(final(self).headers@) == without_header(
                    without_header(headers_view(old(self).headers@), "if-none-match"@),
                    "cache-control"@,
                ).push(("cache-control"@, "no-cache"@)),
            },
    {
        match if_none_match {
            Some(tag) => {
                remove_header(&mut self.headers, "cache-control");
                self.insert_header("if-none-match", tag.as_str());
                proof {
                    assert(lower("if-none-match"@) =~= "if-none-match"@) by {
                        reveal_strlit("if-none-match");
                    }
                }
            },
            None => {
                remove_header(&mut self.headers, "if-none-match");
                self.insert_header("cache-control", "no-cache");
                proof {
                    assert(lower("cache-control"@) =~= "cache-control"@) by {
                        reveal_strlit("cache-control");
                    }
                }
            },
        }
    }

    /// Returns the body.
    pub fn body(&self) -> (r: &[u8])
        ensures
            r@ == self.body@,
    {
        self.body.as_slice()
    }

    /// Replaces the body.
    pub fn set_body(&mut self, body: Vec<u8>)
        ensures
            final(self).method == old(self).method,
            final(self).target == old(self).target,
            final(self).query == old(self).query,
            final(self).headers == old(self).headers,
            final(self).body == body,
    {
        self.body = body;
    }

    /// Consumes the request and returns its transport-level components.
    pub fn into_parts(self) -> (r: (HttpMethod, AdtUri, Vec<(String, String)>, Vec<(String, String)>, Vec<u8>))
        ensures
            r == (self.method, self.target, self.query, self.headers, self.body),
    {
        (self.method, self.target, self.query, self.headers, self.body)
    }
}

/// Looks up the first value of a header, ignoring the name's case.
pub fn header_in<'a>(headers: &'a [(String, String)], name: &str) -> (r: Option<&'a str>)
    ensures
        match r {
            Some(v) => first_header(headers_view(headers@), name@) == Some(v@),
            None => first_header(headers_view(headers@), name@) is None,
        },
{
    let lname = chars_of(name);
    let ghost h = headers_view(headers@);
    let mut i: usize = 0;
    assert(h.skip(0) =~= h);
    while i < headers.len()
        invariant
            i <= headers.len(),
            h == headers_view(headers@),
            lname@ == name@,
            first_header(h, name@) == first_header(h.skip(i as int), name@),
        decreases headers.len() - i,
    {
        let n = chars_of(headers[i].0.as_str());
        assert(h.skip(i as int)[0] == h[i as int]);
        assert(h.skip(i as int).drop_first() =~= h.skip(i + 1));
        if eq_ignore_ascii_case(n.as_slice(), lname.as_slice()) {
            return Some(headers[i].1.as_str());
        }
        i += 1;
    }
    None
}

/// A raw response returned by an ADT transport.
#[derive(Debug)]
pub struct AdtResponse {
    pub status: u16,
    pub headers: Vec<(String, String)>,
    pub body: Vec<u8>,
}

impl AdtResponse {
    /// Bundles a status code, headers and body.
    pub fn new(status: u16, headers: Vec<(String, String)>, body: Vec<u8>) -> (r: Self)
        ensures
            r.status == status,
            r.headers == headers,
            r.body == body,
    {
        AdtResponse { status, headers, body }
    }

    /// Returns the status code.
    pub fn status(&self) -> (r: u16)
        ensures
            r == self.status,
    {
        self.status
    }

    /// Returns the headers in order.
    pub fn headers(&self) -> (r: &[(String, String)])
        ensures
            r@ == self.headers@,
    {
        self.headers.as_slice()
    }

    /// Returns the first value of a header, ignoring the name's case.
    pub fn header(&self, name: &str) -> (r: Option<&str>)
        ensures
            match r {
                Some(v) => first_header(headers_view(self.headers@), name@) == Some(v@),
                None => first_header(headers_view(self.headers@), name@) is None,
            },
    {
        header_in(self.headers.as_slice(), name)
    }

    /// Returns the body.
    pub fn body(&self) -> (r: &[u8])
        ensures
            r@ == self.body@,
    {
        self.body.as_slice()
    }

    /// Consumes the response and returns its body.
    pub fn into_body(self) -> (r: Vec<u8>)
        ensures
            r == self.body,
    {
        self.body
    }
}

} // verus!
