//! The few URL operations that the resource logic delegates to the `url` crate.
//!
//! WHATWG URL parsing and relative resolution take pages to state, so their
//! results are named here and the verified callers speak of those names; the
//! form encoding of query strings takes a few lines and is stated.
use vstd::prelude::*;

use vstd::utf8::encode_utf8;

use crate::std_specs::utf8_lossy;
use crate::text::{opt_view, pairs_view};

verus! {

/// `url::ParseError`, the error `Url::parse` and `Url::join` report.
#[verifier::external_type_specification]
#[verifier::external_body]
pub struct ExUrlParseError(url::ParseError);

/// The parts of a resolved URL that the resource logic reads.
pub struct JoinedUrl {
    /// The ASCII serialization of the base URL's origin.
    pub base_origin: String,
    /// The ASCII serialization of the resolved URL's origin.
    pub origin: String,
    /// The resolved, percent-encoded path.
    pub path: String,
    /// The raw query string, without the leading `?`.
    pub query: Option<String>,
    /// The fragment, without the leading `#`.
    pub fragment: Option<String>,
}

/// The plain-value picture of a [`JoinedUrl`].
pub struct JoinedUrlView {
    pub base_origin: Seq<char>,
    pub origin: Seq<char>,
    pub path: Seq<char>,
    pub query: Option<Seq<char>>,
    pub fragment: Option<Seq<char>>,
}

impl View for JoinedUrl {
    type V = JoinedUrlView;

    open spec fn view(&self) -> JoinedUrlView {
        JoinedUrlView {
            base_origin: self.base_origin@,
            origin: self.origin@,
            path: self.path@,
            query: opt_view(self.query),
            fragment: opt_view(self.fragment),
        }
    }
}

/// Whether `Url::parse` accepts a string as an absolute URL.
pub uninterp spec fn url_parses(input: Seq<char>) -> bool;

/// Whether parsing `base` and joining `reference` onto it succeeds.
pub uninterp spec fn url_join_ok(base: Seq<char>, reference: Seq<char>) -> bool;

/// The error that `Url::parse(base)?.join(reference)` reports where it fails.
pub uninterp spec fn url_join_error(base: Seq<char>, reference: Seq<char>) -> url::ParseError;

/// The parts of `Url::parse(base)?.join(reference)`.
pub uninterp spec fn url_join_parts(base: Seq<char>, reference: Seq<char>) -> JoinedUrlView;

/// Whether parsing `base`, appending an empty path segment, and joining
/// `reference` succeeds.
pub uninterp spec fn url_join_below_ok(base: Seq<char>, reference: Seq<char>) -> bool;

/// The parts of the URL that results from parsing `base`, appending an empty
/// path segment, and joining `reference`.
pub uninterp spec fn url_join_below_parts(base: Seq<char>, reference: Seq<char>) -> JoinedUrlView;

/// The path of `base` after appending `segments`, each percent-encoded as one
/// path segment (unchanged where the URL cannot take path segments).
pub uninterp spec fn url_appended_path(base: Seq<char>, segments: Seq<Seq<char>>) -> Seq<char>;

/// Whether the form serializer keeps a byte as it is: ASCII letters and
/// digits and `*`, `-`, `.`, `_`.
pub open spec fn form_unchanged(b: u8) -> bool {
    b == 0x2a || b == 0x2d || b == 0x2e || b == 0x5f || (0x30 <= b && b <= 0x39) || (0x41 <= b && b
        <= 0x5a) || (0x61 <= b && b <= 0x7a)
}

/// The uppercase hexadecimal digit of a value below 16.
pub open spec fn hex_digit(n: int) -> char {
    if n < 10 {
        (n + 0x30) as char
    } else {
        (n - 10 + 0x41) as char
    }
}

/// How the form serializer writes one byte: kept, a space as `+`, anything
/// else as `%` and two uppercase hexadecimal digits.
pub open spec fn form_byte(b: u8) -> Seq<char> {
    if form_unchanged(b) {
        seq![b as char]
    } else if b == 0x20 {
        seq!['+']
    } else {
        seq!['%', hex_digit((b / 16) as int), hex_digit((b % 16) as int)]
    }
}

/// The form serialization of a byte sequence.
pub open spec fn form_bytes(bytes: Seq<u8>) -> Seq<char>
    decreases bytes.len(),
{
    if bytes.len() == 0 {
        Seq::empty()
    } else {
        form_bytes(bytes.drop_last()) + form_byte(bytes.last())
    }
}

/// One serialized pair: the UTF-8 of the name and of the value, each
/// serialized, around `=`.
pub open spec fn form_pair(pair: (Seq<char>, Seq<char>)) -> Seq<char> {
    form_bytes(encode_utf8(pair.0)) + "="@ + form_bytes(encode_utf8(pair.1))
}

/// The `application/x-www-form-urlencoded` serialization of name/value
/// pairs: each pair serialized, in order, separated by `&`.
pub open spec fn form_encoded(pairs: Seq<(Seq<char>, Seq<char>)>) -> Seq<char>
    decreases pairs.len(),
{
    if pairs.len() == 0 {
        Seq::empty()
    } else if pairs.len() == 1 {
        form_pair(pairs[0])
    } else {
        form_encoded(pairs.drop_last()) + "&"@ + form_pair(pairs.last())
    }
}

/// A byte sequence cut at every occurrence of `sep`; always at least one
/// piece.
pub open spec fn byte_pieces(bytes: Seq<u8>, sep: u8) -> Seq<Seq<u8>>
    decreases bytes.len(),
{
    if bytes.len() == 0 {
        seq![Seq::empty()]
    } else {
        let before = byte_pieces(bytes.drop_last(), sep);
        if bytes.last() == sep {
            before.push(Seq::empty())
        } else {
            before.update(before.len() - 1, before.last().push(bytes.last()))
        }
    }
}

/// The value of an ASCII hexadecimal digit, of either case.
pub open spec fn hex_value(b: u8) -> Option<int> {
    if 0x30 <= b && b <= 0x39 {
        Some(b - 0x30)
    } else if 0x41 <= b && b <= 0x46 {
        Some(b - 0x41 + 10)
    } else if 0x61 <= b && b <= 0x66 {
        Some(b - 0x61 + 10)
    } else {
        None
    }
}

/// Percent-decoding: `%` and two hexadecimal digits become the byte they
/// name; every other byte, a `%` without two digits after it included, is
/// kept.
pub open spec fn percent_decoded(bytes: Seq<u8>) -> Seq<u8>
    decreases bytes.len(),
{
    if bytes.len() == 0 {
        Seq::empty()
    } else if bytes[0] == 0x25 && bytes.len() >= 3 && hex_value(bytes[1]) is Some && hex_value(
        bytes[2],
    ) is Some {
        seq![(hex_value(bytes[1])->0 * 16 + hex_value(bytes[2])->0) as u8] + percent_decoded(
            bytes.skip(3),
        )
    } else {
        seq![bytes[0]] + percent_decoded(bytes.skip(1))
    }
}

/// A form-encoded name or value decoded: `+` read as a space, then
/// percent-decoded, then read as UTF-8 with invalid sequences replaced.
pub open spec fn form_text(bytes: Seq<u8>) -> Seq<char> {
    utf8_lossy(percent_decoded(bytes.map_values(|b: u8| if b == 0x2b { 0x20u8 } else { b })))
}

/// One `&`-separated sequence decoded: the name before the first `=`, the
/// value after it (empty without one).
pub open spec fn form_sequence(sequence: Seq<u8>) -> (Seq<char>, Seq<char>) {
    let name = byte_pieces(sequence, 0x3d)[0];
    let value = if name.len() == sequence.len() {
        Seq::empty()
    } else {
        sequence.skip(name.len() + 1int)
    };
    (form_text(name), form_text(value))
}

/// The name/value pairs that `application/x-www-form-urlencoded` decoding
/// yields for a query string: one per non-empty `&`-separated sequence of
/// its UTF-8, in order.
pub open spec fn form_decoded(query: Seq<char>) -> Seq<(Seq<char>, Seq<char>)> {
    byte_pieces(encode_utf8(query), 0x26).filter(|p: Seq<u8>| p.len() > 0).map_values(
        |p: Seq<u8>| form_sequence(p),
    )
}

/// `url::Url::parse`: reports whether `input` parses as an absolute URL.
#[verifier::external_body]
pub(crate) fn parses_as_url(input: &str) -> (r: bool)
    ensures
        r == url_parses(input@),
{
    url::Url::parse(input).is_ok()
}

/// `url::Url::parse` of `base` followed by `Url::join` of `reference`: the
/// result is named by [`url_join_ok`] and [`url_join_parts`] over both inputs,
/// and its error by [`url_join_error`].
#[verifier::external_body]
pub(crate) fn join_url(base: &str, reference: &str) -> (r: Result<JoinedUrl, url::ParseError>)
    ensures
        r is Ok <==> url_join_ok(base@, reference@),
        r is Ok ==> r->Ok_0@ == url_join_parts(base@, reference@),
        r matches Err(e) ==> e == url_join_error(base@, reference@),
{
    let base = url::Url::parse(base)?;
    let resolved = base.join(reference)?;
    Ok(JoinedUrl {
        base_origin: base.origin().ascii_serialization(),
        origin: resolved.origin().ascii_serialization(),
        path: resolved.path().to_owned(),
        query: resolved.query().map(str::to_owned),
        fragment: resolved.fragment().map(str::to_owned),
    })
}

/// `url::Url::parse` of `base`, `PathSegmentsMut::push("")` on it, then
/// `Url::join` of `reference`: the result is named by [`url_join_below_ok`]
/// and [`url_join_below_parts`] over both inputs.
#[verifier::external_body]
pub(crate) fn join_url_below(base: &str, reference: &str) -> (r: Result<JoinedUrl, url::ParseError>)
    ensures
        r is Ok <==> url_join_below_ok(base@, reference@),
        r is Ok ==> r->Ok_0@ == url_join_below_parts(base@, reference@),
{
    let base = url::Url::parse(base)?;
    let mut directory = base.clone();
    if let Ok(mut segments) = directory.path_segments_mut() {
        segments.push("");
    }
    let resolved = directory.join(reference)?;
    Ok(JoinedUrl {
        base_origin: base.origin().ascii_serialization(),
        origin: resolved.origin().ascii_serialization(),
        path: resolved.path().to_owned(),
        query: resolved.query().map(str::to_owned),
        fragment: resolved.fragment().map(str::to_owned),
    })
}

/// `url::Url::parse` of `base` and `PathSegmentsMut::extend` with `segments`:
/// returns the resulting path, named by [`url_appended_path`]; an error exactly
/// where `base` does not parse ([`url_parses`]).
#[verifier::external_body]
pub(crate) fn append_url_segments(base: &str, segments: &[String]) -> (r: Result<String, url::ParseError>)
    ensures
        r is Ok <==> url_parses(base@),
        r is Ok ==> r->Ok_0@ == url_appended_path(
            base@,
            segments@.map_values(|s: String| s@),
        ),
{
    let mut url = url::Url::parse(base)?;
    if let Ok(mut path) = url.path_segments_mut() {
        path.extend(segments.iter().map(String::as_str));
    }
    Ok(url.path().to_owned())
}

/// `url::form_urlencoded::parse`: decodes a query string into name/value
/// pairs in their order, as [`form_decoded`] states.
#[verifier::external_body]
pub(crate) fn decode_query_pairs(query: &str) -> (r: Vec<(String, String)>)
    ensures
        pairs_view(r@) == form_decoded(query@),
{
    url::form_urlencoded::parse(query.as_bytes())
        .map(|(name, value)| (name.into_owned(), value.into_owned()))
        .collect()
}

/// `url::form_urlencoded::Serializer::append_pair` over every pair, then
/// `finish`: the serialization [`form_encoded`] states.
#[verifier::external_body]
pub(crate) fn encode_query_pairs(pairs: &[(String, String)]) -> (r: String)
    ensures
        r@ == form_encoded(pairs_view(pairs@)),
{
    let mut serializer = url::form_urlencoded::Serializer::new(String::new());
    for (name, value) in pairs {
        serializer.append_pair(name, value);
    }
    serializer.finish()
}

} // verus!
