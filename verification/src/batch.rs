//! Framing of SAP's generic `multipart/mixed` batch resource.
//!
//! A batch carries `application/http` subrequests in insertion order and
//! returns one multipart part per request. This module encodes the request
//! body, finds the response boundary, splits the response into parts and
//! decodes each part's embedded HTTP response.
use core::marker::PhantomData;
use vstd::prelude::*;
use vstd::slice::slice_subrange;
use vstd::string::StringExecFns;
use vstd::utf8::encode_utf8;

use crate::compatibility::MediaVersionNegotiation;
use crate::protocol::{
    first_header, header_in, headers_view, is_header_value, method_token, AdtRequest,
    AdtResponse,
};
use crate::std_specs::{lossy_text, utf8_lossy};
use crate::text::{
    before_first, chars_of, eq_ignore_ascii_case, eq_ignore_case, find_char, first_index,
    lemma_first_index_bounds, lower, pairs_view, split, split_exec, split_once, lemma_split_nonempty,
    string_of, sub_chars, to_lower, trim, trimmed,
};
use crate::url_support::{encode_query_pairs, form_encoded};

verus! {

/// The batch resource's media type.
pub open spec fn batch_media_type() -> Seq<char> {
    "multipart/mixed"@
}

/// The media-type version of the batch resource.
#[derive(Clone, Copy, Debug, PartialEq, Eq, Structural)]
pub enum BatchMediaVersion {
    MultipartMixed,
}

impl MediaVersionNegotiation for BatchMediaVersion {
    open spec fn spec_media_type(self) -> Seq<char> {
        "multipart/mixed"@
    }

    open spec fn spec_supported() -> Seq<Self> {
        seq![BatchMediaVersion::MultipartMixed]
    }

    fn supported() -> (r: Vec<Self>) {
        let r = vec![BatchMediaVersion::MultipartMixed];
        assert(r@ =~= seq![BatchMediaVersion::MultipartMixed]);
        r
    }

    fn media_type(self) -> (r: &'static str) {
        "multipart/mixed"
    }
}

/// A typed reference to one response slot in a batch.
#[derive(Debug)]
pub struct BatchKey<R> {
    /// The identity of the batch the key belongs to.
    pub batch: u64,
    /// The slot's position, equal to the operation's insertion order.
    pub index: usize,
    /// The response type of the slot.
    pub response: PhantomData<R>,
}

impl<R> Clone for BatchKey<R> {
    fn clone(&self) -> (r: Self)
        ensures
            r.batch == self.batch,
            r.index == self.index,
    {
        BatchKey { batch: self.batch, index: self.index, response: PhantomData }
    }
}

/// An error constructing, parsing, correlating, or retrieving a batch value.
#[derive(Debug)]
pub enum BatchError {
    Empty,
    MissingContentType,
    UnsupportedContentType { content_type: String },
    MissingBoundary { content_type: String },
    InvalidBoundary,
    InvalidMultipart { reason: String },
    InvalidPart { index: usize, reason: String },
    RequestContextCount { expected: usize, actual: usize },
    ResponseCount { expected: usize, actual: usize },
    ForeignBatch,
    MissingResponse { index: usize },
    Decode { index: usize, source: Box<crate::error::ResponseError> },
    TypeMismatch { index: usize },
}

/// `\r\n` as bytes.
pub open spec fn crlf() -> Seq<u8> {
    seq![13u8, 10u8]
}

fn push_bytes(out: &mut Vec<u8>, bytes: &[u8])
    ensures
        final(out)@ == old(out)@ + bytes@,
{
    let mut i: usize = 0;
    while i < bytes.len()
        invariant
            i <= bytes.len(),
            out@ == old(out)@ + bytes@.take(i as int),
        decreases bytes.len() - i,
    {
        out.push(bytes[i]);
        i += 1;
        assert(out@ =~= old(out)@ + bytes@.take(i as int));
    }
    assert(bytes@.take(bytes.len() as int) =~= bytes@);
}

fn push_str(out: &mut Vec<u8>, s: &str)
    ensures
        final(out)@ == old(out)@ + encode_utf8(s@),
{
    push_bytes(out, s.as_bytes());
}

/// The request target as it appears on a request line: the path, and the
/// form-encoded query after `?` when there is one.
pub open spec fn target_text(target: Seq<char>, query: Seq<(Seq<char>, Seq<char>)>) -> Seq<char> {
    if query.len() == 0 {
        target
    } else {
        target + "?"@ + form_encoded(query)
    }
}

/// Returns the request target as it appears on a request line.
pub fn encoded_target(request: &AdtRequest) -> (r: String)
    ensures
        r@ == target_text(request.target@, pairs_view(request.query@)),
{
    let mut target = request.target.as_str().to_owned();
    if request.query.len() == 0 {
        return target;
    }
    let encoded = encode_query_pairs(request.query.as_slice());
    target.append("?");
    target.append(encoded.as_str());
    target
}

/// The header lines of a subrequest, `name:value` each followed by `\r\n`.
pub open spec fn header_lines(h: Seq<(Seq<char>, Seq<char>)>) -> Seq<u8>
    decreases h.len(),
{
    if h.len() == 0 {
        Seq::empty()
    } else {
        header_lines(h.drop_last()) + encode_utf8(h.last().0) + encode_utf8(":"@) + encode_utf8(
            h.last().1,
        ) + crlf()
    }
}

/// One encoded subrequest: its MIME headers, request line, headers, a blank
/// line and, when present, the body followed by `\r\n`.
pub open spec fn encoded_part(request: AdtRequest) -> Seq<u8> {
    encode_utf8("Content-Type: application/http\r\n"@) + encode_utf8(
        "content-transfer-encoding: binary\r\n\r\n"@,
    ) + encode_utf8(method_token(request.method)) + encode_utf8(" "@) + encode_utf8(
        target_text(request.target@, pairs_view(request.query@)),
    ) + encode_utf8(" HTTP/1.1\r\n"@) + header_lines(headers_view(request.headers@)) + crlf() + (
    if request.body@.len() == 0 {
        Seq::empty()
    } else {
        request.body@ + crlf()
    })
}

/// The parts of a batch body after the opening boundary line: each part
/// followed by the boundary marker and either `\r\n` or, after the last
/// part, `--`.
pub open spec fn encoded_parts(requests: Seq<AdtRequest>, marker: Seq<u8>, total: int) -> Seq<u8>
    decreases requests.len(),
{
    if requests.len() == 0 {
        Seq::empty()
    } else {
        encoded_parts(requests.drop_last(), marker, total) + encoded_part(requests.last()) + marker
            + if requests.len() == total {
            encode_utf8("--"@)
        } else {
            crlf()
        }
    }
}

/// The complete batch body for a list of subrequests and a boundary.
pub open spec fn encoded_batch(requests: Seq<AdtRequest>, boundary: Seq<char>) -> Seq<u8> {
    let marker = encode_utf8("--"@ + boundary);
    marker + crlf() + encoded_parts(requests, marker, requests.len() as int)
}

fn encode_headers(out: &mut Vec<u8>, headers: &Vec<(String, String)>)
    ensures
        final(out)@ == old(out)@ + header_lines(headers_view(headers@)),
{
    let ghost h = headers_view(headers@);
    let mut i: usize = 0;
    while i < headers.len()
        invariant
            i <= headers.len(),
            h == headers_view(headers@),
            out@ == old(out)@ + header_lines(h.take(i as int)),
        decreases headers.len() - i,
    {
        assert(h.take(i + 1).drop_last() =~= h.take(i as int));
        push_str(out, headers[i].0.as_str());
        push_str(out, ":");
        push_str(out, headers[i].1.as_str());
        push_bytes(out, &[13u8, 10u8]);
        i += 1;
        assert(out@ =~= old(out)@ + header_lines(h.take(i as int)));
    }
    assert(h.take(headers.len() as int) =~= h);
}

fn encode_part(output: &mut Vec<u8>, request: &AdtRequest)
    ensures
        final(output)@ == old(output)@ + encoded_part(*request),
{
    let mut part: Vec<u8> = Vec::new();
    push_str(&mut part, "Content-Type: application/http\r\n");
    assert(part@ =~= encode_utf8("Content-Type: application/http\r\n"@));
    push_str(&mut part, "content-transfer-encoding: binary\r\n\r\n");
    push_str(&mut part, request.method.as_str());
    push_str(&mut part, " ");
    let target = encoded_target(request);
    push_str(&mut part, target.as_str());
    push_str(&mut part, " HTTP/1.1\r\n");
    encode_headers(&mut part, &request.headers);
    push_bytes(&mut part, &[13u8, 10u8]);
    assert([13u8, 10u8]@ =~= crlf());
    let ghost head = part@;
    if request.body.len() > 0 {
        push_bytes(&mut part, request.body.as_slice());
        push_bytes(&mut part, &[13u8, 10u8]);
        assert(part@ =~= head + (request.body@ + crlf()));
    } else {
        assert(part@ =~= head + Seq::<u8>::empty());
    }
    push_bytes(output, part.as_slice());
}

fn encode_item(output: &mut Vec<u8>, request: &AdtRequest, marker: &[u8], last: bool)
    ensures
        final(output)@ == old(output)@ + (encoded_part(*request) + marker@ + if last {
            encode_utf8("--"@)
        } else {
            crlf()
        }),
{
    let mut item: Vec<u8> = Vec::new();
    encode_part(&mut item, request);
    assert(item@ =~= encoded_part(*request));
    push_bytes(&mut item, marker);
    if last {
        push_str(&mut item, "--");
    } else {
        push_bytes(&mut item, &[13u8, 10u8]);
        assert([13u8, 10u8]@ =~= crlf());
    }
    push_bytes(output, item.as_slice());
}

/// Encodes subrequests as the `multipart/mixed` body of a batch request.
pub fn encode_batch(requests: &[AdtRequest], boundary: &str) -> (r: Vec<u8>)
    ensures
        r@ == encoded_batch(requests@, boundary@),
{
    let mut marker_text = String::new();
    marker_text.append("--");
    marker_text.append(boundary);
    let mut marker: Vec<u8> = Vec::new();
    push_str(&mut marker, marker_text.as_str());
    assert(marker@ =~= encode_utf8("--"@ + boundary@));
    let mut output: Vec<u8> = Vec::new();
    push_bytes(&mut output, marker.as_slice());
    push_bytes(&mut output, &[13u8, 10u8]);
    let ghost head = output@;
    assert(head =~= marker@ + crlf());
    let mut index: usize = 0;
    while index < requests.len()
        invariant
            index <= requests.len(),
            marker@ == encode_utf8("--"@ + boundary@),
            output@ == head + encoded_parts(requests@.take(index as int), marker@, requests@.len() as int),
        decreases requests.len() - index,
    {
        let ghost before = output@;
        let last = index + 1 == requests.len();
        encode_item(&mut output, &requests[index], marker.as_slice(), last);
        proof {
            let t = requests@.take(index + 1);
            assert(t.drop_last() =~= requests@.take(index as int));
            assert(t.last() == requests@[index as int]);
            let prev = encoded_parts(requests@.take(index as int), marker@, requests@.len() as int);
            let item = encoded_part(requests@[index as int]) + marker@ + if last {
                encode_utf8("--"@)
            } else {
                crlf()
            };
            assert(encoded_parts(t, marker@, requests@.len() as int) =~= prev + item);
            assert(output@ =~= head + (prev + item));
        }
        index += 1;
    }
    assert(requests@.take(requests@.len() as int) =~= requests@);
    output
}

/// Whether a header value is visible ASCII text, as `HeaderValue::to_str` requires.
pub open spec fn visible_text(s: Seq<char>) -> bool {
    forall|i: int| 0 <= i < s.len() ==> ((' ' <= #[trigger] s[i] && s[i] <= '~') || s[i] == '\t')
}

fn visible_text_exec(s: &str) -> (r: bool)
    ensures
        r == visible_text(s@),
{
    let cs = chars_of(s);
    let mut i: usize = 0;
    while i < cs.len()
        invariant
            i <= cs.len(),
            cs@ == s@,
            forall|k: int| 0 <= k < i ==> ((' ' <= #[trigger] cs@[k] && cs@[k] <= '~') || cs@[k] == '\t'),
        decreases cs.len() - i,
    {
        let c = cs[i];
        if !((' ' <= c && c <= '~') || c == '\t') {
            return false;
        }
        i += 1;
    }
    true
}

/// The `boundary` parameter among media-type fields: the trimmed value of
/// the first field whose trimmed name is `boundary` in any case.
pub open spec fn boundary_field(fields: Seq<Seq<char>>) -> Option<Seq<char>>
    decreases fields.len(),
{
    if fields.len() == 0 {
        None
    } else {
        match split_once(fields[0], '=') {
            Some((n, v)) => if eq_ignore_case(trim(n), "boundary"@) {
                Some(trim(v))
            } else {
                boundary_field(fields.drop_first())
            },
            None => boundary_field(fields.drop_first()),
        }
    }
}

/// A boundary without surrounding double quotes.
pub open spec fn unquoted(b: Seq<char>) -> Seq<char> {
    if b.len() >= 2 && b[0] == '"' && b.last() == '"' {
        b.subrange(1, b.len() - 1)
    } else {
        b
    }
}

/// Why a batch response's boundary cannot be used, as plain values.
pub enum BoundaryCheck {
    MissingContentType,
    UnsupportedContentType(Seq<char>),
    MissingBoundary(Seq<char>),
    InvalidBoundary,
    Found(Seq<char>),
}

/// The rule by which a batch response's boundary is found: the first
/// `Content-Type` must be visible text naming `multipart/mixed` and carry a
/// non-empty `boundary` parameter without line breaks.
pub open spec fn boundary_check(headers: Seq<(Seq<char>, Seq<char>)>) -> BoundaryCheck {
    match first_header(headers, "content-type"@) {
        None => BoundaryCheck::MissingContentType,
        Some(ct) => if !visible_text(ct) {
            BoundaryCheck::UnsupportedContentType(ct)
        } else {
            let fields = split(ct, ';');
            if !eq_ignore_case(trim(fields[0]), batch_media_type()) {
                BoundaryCheck::UnsupportedContentType(ct)
            } else {
                boundary_outcome(ct, boundary_field(fields.drop_first()))
            }
        },
    }
}

impl BatchError {
    /// The boundary outcome this error reports, if it is a boundary error.
    pub open spec fn boundary(self) -> Option<BoundaryCheck> {
        match self {
            BatchError::MissingContentType => Some(BoundaryCheck::MissingContentType),
            BatchError::UnsupportedContentType { content_type } => Some(
                BoundaryCheck::UnsupportedContentType(content_type@),
            ),
            BatchError::MissingBoundary { content_type } => Some(
                BoundaryCheck::MissingBoundary(content_type@),
            ),
            BatchError::InvalidBoundary => Some(BoundaryCheck::InvalidBoundary),
            _ => None,
        }
    }
}

/// Finds the multipart boundary advertised by a batch response.
pub fn response_boundary(headers: &[(String, String)]) -> (r: Result<String, BatchError>)
    ensures
        match r {
            Ok(b) => boundary_check(headers_view(headers@)) == BoundaryCheck::Found(b@),
            Err(e) => e.boundary() == Some(boundary_check(headers_view(headers@))),
        },
{
    let content_type = match header_in(headers, "content-type") {
        Some(ct) => ct,
        None => return Err(BatchError::MissingContentType),
    };
    if !visible_text_exec(content_type) {
        return Err(BatchError::UnsupportedContentType { content_type: content_type.to_owned() });
    }
    let cs = chars_of(content_type);
    let fields = split_exec(cs.as_slice(), ';');
    proof {
        lemma_split_nonempty(cs@, ';');
    }
    let ghost fs = split(cs@, ';');
    let media = trimmed(fields[0].as_slice());
    let mm = chars_of("multipart/mixed");
    if !eq_ignore_ascii_case(media.as_slice(), mm.as_slice()) {
        return Err(BatchError::UnsupportedContentType { content_type: content_type.to_owned() });
    }
    let bname = chars_of("boundary");
    let mut i: usize = 1;
    assert(fs.drop_first() =~= fs.skip(1));
    while i < fields.len()
        invariant
            1 <= i <= fields.len(),
            fields@.len() == fs.len(),
            forall|k: int| 0 <= k < fields@.len() ==> #[trigger] fields@[k]@ == fs[k],
            bname@ == "boundary"@,
            boundary_check(headers_view(headers@)) == boundary_outcome(
                content_type@,
                boundary_field(fs.skip(i as int)),
            ),
            first_header(headers_view(headers@), "content-type"@) == Some(content_type@),
        decreases fields.len() - i,
    {
        let field = &fields[i];
        assert(fs.skip(i as int)[0] == fs[i as int]);
        assert(fs.skip(i as int).drop_first() =~= fs.skip(i + 1));
        match crate::text::split_once_exec(field.as_slice(), '=') {
            Some((name, value)) => {
                let tn = trimmed(name.as_slice());
                if eq_ignore_ascii_case(tn.as_slice(), bname.as_slice()) {
                    let boundary = trimmed(value.as_slice());
                    return finish_boundary(content_type, boundary);
                }
            },
            None => {},
        }
        i += 1;
    }
    assert(fs.skip(fields.len() as int).len() == 0);
    Err(BatchError::MissingBoundary { content_type: content_type.to_owned() })
}

/// The outcome once the `boundary` parameter has been looked up.
pub open spec fn boundary_outcome(content_type: Seq<char>, field: Option<Seq<char>>) -> BoundaryCheck {
    match field {
        None => BoundaryCheck::MissingBoundary(content_type),
        Some(b) => {
            let u = unquoted(b);
            if u.len() == 0 || u.contains('\r') || u.contains('\n') {
                BoundaryCheck::InvalidBoundary
            } else {
                BoundaryCheck::Found(u)
            }
        },
    }
}

fn finish_boundary(content_type: &str, boundary: Vec<char>) -> (r: Result<String, BatchError>)
    ensures
        match r {
            Ok(b) => boundary_outcome(content_type@, Some(boundary@)) == BoundaryCheck::Found(b@),
            Err(e) => e.boundary() == Some(boundary_outcome(content_type@, Some(boundary@))),
        },
{
    let unq = if boundary.len() >= 2 && boundary[0] == '"' && boundary[boundary.len() - 1] == '"' {
        sub_chars(boundary.as_slice(), 1, boundary.len() - 1)
    } else {
        let all = sub_chars(boundary.as_slice(), 0, boundary.len());
        assert(boundary@.subrange(0, boundary@.len() as int) =~= boundary@);
        all
    };
    let cr = crate::text::contains_char(unq.as_slice(), '\r');
    let lf = crate::text::contains_char(unq.as_slice(), '\n');
    if unq.len() == 0 || cr || lf {
        return Err(BatchError::InvalidBoundary);
    }
    Ok(string_of(unq.as_slice()))
}

/// Whether `needle` occurs in `value` at position `k`.
pub open spec fn occurs_at(value: Seq<u8>, needle: Seq<u8>, k: int) -> bool {
    0 <= k && k + needle.len() <= value.len() && value.subrange(k, k + needle.len()) == needle
}

/// The first position at or after `from` where `needle` occurs.
pub open spec fn first_occurrence(value: Seq<u8>, needle: Seq<u8>, from: int) -> Option<int> {
    if exists|k: int| from <= k && occurs_at(value, needle, k) && forall|j: int|
        from <= j < k ==> !occurs_at(value, needle, j) {
        Some(
            choose|k: int|
                from <= k && occurs_at(value, needle, k) && forall|j: int|
                    from <= j < k ==> !occurs_at(value, needle, j),
        )
    } else {
        None
    }
}

fn matches_at(value: &[u8], needle: &[u8], k: usize) -> (r: bool)
    requires
        k + needle.len() <= value.len(),
    ensures
        r == occurs_at(value@, needle@, k as int),
{
    let mut i: usize = 0;
    while i < needle.len()
        invariant
            i <= needle.len(),
            k + needle.len() <= value.len(),
            forall|j: int| 0 <= j < i ==> value@[k + j] == needle@[j],
        decreases needle.len() - i,
    {
        if value[k + i] != needle[i] {
            assert(value@.subrange(k as int, k + needle.len())[i as int] != needle@[i as int]);
            return false;
        }
        i += 1;
    }
    assert(value@.subrange(k as int, k + needle.len()) =~= needle@);
    true
}

/// Finds the first occurrence of a non-empty byte string at or after a position.
pub fn find_bytes_from(value: &[u8], from: usize, needle: &[u8]) -> (r: Option<usize>)
    requires
        needle.len() > 0,
    ensures
        match r {
            Some(k) => first_occurrence(value@, needle@, from as int) == Some(k as int),
            None => first_occurrence(value@, needle@, from as int) is None,
        },
{
    let mut k: usize = from;
    while k < value.len() && needle.len() <= value.len() - k
        invariant
            from <= k,
            forall|j: int| from <= j < k ==> !occurs_at(value@, needle@, j),
        decreases value.len() - k,
    {
        if matches_at(value, needle, k) {
            proof {
                let c = choose|c: int|
                    from <= c && occurs_at(value@, needle@, c) && forall|j: int|
                        from <= j < c ==> !occurs_at(value@, needle@, j);
                assert(c == k as int) by {
                    if c < k {
                    } else if c > k {
                        assert(!occurs_at(value@, needle@, k as int));
                    }
                }
            }
            return Some(k);
        }
        k += 1;
    }
    proof {
        assert forall|c: int|
            from <= c && occurs_at(value@, needle@, c) implies exists|j: int|
            from <= j < c && occurs_at(value@, needle@, j) by {
            assert(c < k);
        }
    }
    None
}

/// Finds the first occurrence of a non-empty byte string.
pub fn find_bytes(value: &[u8], needle: &[u8]) -> (r: Option<usize>)
    requires
        needle.len() > 0,
    ensures
        match r {
            Some(k) => first_occurrence(value@, needle@, 0) == Some(k as int),
            None => first_occurrence(value@, needle@, 0) is None,
        },
{
    find_bytes_from(value, 0, needle)
}

/// Where the line starting at `start` ends: at the next `\r\n`, or at the
/// end of the body.
pub open spec fn line_end(body: Seq<u8>, start: int) -> int {
    match first_occurrence(body, crlf(), start) {
        Some(k) => k,
        None => body.len() as int,
    }
}

/// Why a multipart body cannot be split, as plain values.
pub enum MultipartFailure {
    OpeningNotFollowedByCrlf,
    ClosingBeforeOpening,
    ClosingNotFound,
    OpeningNotFound,
}

/// The multipart scan from the line starting at `start`, with the current
/// part (if one is open) starting at `part_start` and the parts found so far:
/// an opening boundary line closes the open part and opens the next one, the
/// closing boundary line closes the open part and ends the scan, and other
/// lines belong to the open part.
pub open spec fn scan_parts(
    body: Seq<u8>,
    marker: Seq<u8>,
    start: int,
    part_start: Option<int>,
    parts: Seq<(int, int)>,
) -> Result<Seq<(int, int)>, MultipartFailure>
    decreases body.len() - start,
    when 0 <= start <= body.len()
{
    let end = line_end(body, start);
    let line = body.subrange(start, end);
    let next = if end < body.len() {
        Some(end + 2)
    } else {
        None::<int>
    };
    if line == marker {
        let found = match part_start {
            Some(s) => parts.push((s, start)),
            None => parts,
        };
        match next {
            None => Err(MultipartFailure::OpeningNotFollowedByCrlf),
            Some(n) => if n <= body.len() && n > start {
                scan_parts(body, marker, n, Some(n), found)
            } else {
                Err(MultipartFailure::OpeningNotFollowedByCrlf)
            },
        }
    } else if line == marker + encode_utf8("--"@) {
        match part_start {
            None => Err(MultipartFailure::ClosingBeforeOpening),
            Some(s) => Ok(
                if s < start {
                    parts.push((s, start))
                } else {
                    parts
                },
            ),
        }
    } else {
        match next {
            None => Err(
                if part_start is Some {
                    MultipartFailure::ClosingNotFound
                } else {
                    MultipartFailure::OpeningNotFound
                },
            ),
            Some(n) => if n <= body.len() && n > start {
                scan_parts(body, marker, n, part_start, parts)
            } else {
                Err(MultipartFailure::OpeningNotFound)
            },
        }
    }
}

/// The reason text of a multipart failure.
pub open spec fn multipart_reason(f: MultipartFailure) -> Seq<char> {
    match f {
        MultipartFailure::OpeningNotFollowedByCrlf => "opening boundary was not followed by CRLF"@,
        MultipartFailure::ClosingBeforeOpening => "closing boundary appeared before an opening boundary"@,
        MultipartFailure::ClosingNotFound => "closing boundary was not found"@,
        MultipartFailure::OpeningNotFound => "opening boundary was not found"@,
    }
}

fn range_eq(body: &[u8], start: usize, end: usize, pattern: &[u8]) -> (r: bool)
    requires
        start <= end <= body.len(),
    ensures
        r == (body@.subrange(start as int, end as int) == pattern@),
{
    if end - start != pattern.len() {
        return false;
    }
    let r = matches_at(body, pattern, start);
    r
}

proof fn lemma_first_occurrence_bound(value: Seq<u8>, needle: Seq<u8>, from: int)
    requires
        first_occurrence(value, needle, from) is Some,
    ensures
        from <= first_occurrence(value, needle, from)->Some_0,
        first_occurrence(value, needle, from)->Some_0 + needle.len() <= value.len(),
{
}

/// Splits a `multipart/mixed` body into the byte ranges of its parts.
pub fn multipart_parts(body: &[u8], boundary: &str) -> (r: Result<Vec<(usize, usize)>, BatchError>)
    ensures
        match r {
            Ok(parts) => scan_parts(body@, encode_utf8("--"@ + boundary@), 0, None, Seq::empty())
                == Ok::<Seq<(int, int)>, MultipartFailure>(
                parts@.map_values(|p: (usize, usize)| (p.0 as int, p.1 as int)),
            ),
            Err(BatchError::InvalidMultipart { reason }) => match scan_parts(
                body@,
                encode_utf8("--"@ + boundary@),
                0,
                None,
                Seq::empty(),
            ) {
                Err(f) => reason@ == multipart_reason(f),
                Ok(_) => false,
            },
            Err(_) => false,
        },
{
    let mut marker_text = String::new();
    marker_text.append("--");
    marker_text.append(boundary);
    let mut marker: Vec<u8> = Vec::new();
    push_str(&mut marker, marker_text.as_str());
    let mut closing = marker.clone();
    push_str(&mut closing, "--");
    assert(marker@ =~= encode_utf8("--"@ + boundary@));
    let ghost m = marker@;
    let mut parts: Vec<(usize, usize)> = Vec::new();
    let mut part_start: Option<usize> = None;
    let mut line_start: usize = 0;
    let crlf_bytes: [u8; 2] = [13u8, 10u8];
    assert(crlf_bytes@ =~= crlf());
    assert(parts@.map_values(|p: (usize, usize)| (p.0 as int, p.1 as int)) =~= Seq::<(int, int)>::empty());
    loop
        invariant
            line_start <= body.len(),
            m == encode_utf8("--"@ + boundary@),
            marker@ == m,
            closing@ == m + encode_utf8("--"@),
            crlf_bytes@ == crlf(),
            part_start matches Some(s) ==> s <= line_start,
            scan_parts(body@, m, 0, None, Seq::empty()) == scan_parts(
                body@,
                m,
                line_start as int,
                match part_start {
                    Some(s) => Some(s as int),
                    None => None,
                },
                parts@.map_values(|p: (usize, usize)| (p.0 as int, p.1 as int)),
            ),
        decreases body.len() - line_start,
    {
        let found = find_bytes_from(body, line_start, crlf_bytes.as_slice());
        let line_end = match found {
            Some(k) => k,
            None => body.len(),
        };
        proof {
            if found is Some {
                lemma_first_occurrence_bound(body@, crlf(), line_start as int);
            }
        }
        let has_next = line_end < body.len();
        let ghost pv = parts@.map_values(|p: (usize, usize)| (p.0 as int, p.1 as int));
        if range_eq(body, line_start, line_end, marker.as_slice()) {
            if let Some(start) = part_start {
                parts.push((start, line_start));
            }
            if !has_next {
                return Err(BatchError::InvalidMultipart {
                    reason: "opening boundary was not followed by CRLF".to_owned(),
                });
            }
            assert(parts@.map_values(|p: (usize, usize)| (p.0 as int, p.1 as int)) =~= match part_start {
                Some(s) => pv.push((s as int, line_start as int)),
                None => pv,
            });
            part_start = Some(line_end + 2);
            line_start = line_end + 2;
        } else if range_eq(body, line_start, line_end, closing.as_slice()) {
            let start = match part_start {
                Some(s) => s,
                None => {
                    return Err(BatchError::InvalidMultipart {
                        reason: "closing boundary appeared before an opening boundary".to_owned(),
                    });
                },
            };
            if start < line_start {
                parts.push((start, line_start));
                assert(parts@.map_values(|p: (usize, usize)| (p.0 as int, p.1 as int)) =~= pv.push(
                    (start as int, line_start as int),
                ));
            }
            return Ok(parts);
        } else {
            if !has_next {
                let reason = if part_start.is_some() {
                    "closing boundary was not found".to_owned()
                } else {
                    "opening boundary was not found".to_owned()
                };
                return Err(BatchError::InvalidMultipart { reason });
            }
            line_start = line_end + 2;
        }
    }
}

/// One part of a batch response, as decoded by `httparse`: the parsed
/// headers' offset and raw headers, a partial input, or the parser's error.
pub enum HeadParse {
    Complete { offset: usize, headers: Vec<(String, Vec<u8>)> },
    Partial,
    Invalid(String),
}

/// The embedded HTTP response head of a part, as decoded by `httparse`.
pub enum ResponseParse {
    Complete { offset: usize, code: Option<u16>, headers: Vec<(String, Vec<u8>)> },
    Partial,
    Invalid(String),
}

/// The plain-value picture of a header block parse.
pub enum HeadView {
    Complete(usize, Seq<(Seq<char>, Seq<u8>)>),
    Partial,
    Invalid(Seq<char>),
}

/// The plain-value picture of a response head parse.
pub enum ResponseHeadView {
    Complete(usize, Option<u16>, Seq<(Seq<char>, Seq<u8>)>),
    Partial,
    Invalid(Seq<char>),
}

/// The views of raw header pairs.
pub open spec fn raw_headers_view(h: Seq<(String, Vec<u8>)>) -> Seq<(Seq<char>, Seq<u8>)> {
    h.map_values(|p: (String, Vec<u8>)| (p.0@, p.1@))
}

impl View for HeadParse {
    type V = HeadView;

    open spec fn view(&self) -> HeadView {
        match self {
            HeadParse::Complete { offset, headers } => HeadView::Complete(
                *offset,
                raw_headers_view(headers@),
            ),
            HeadParse::Partial => HeadView::Partial,
            HeadParse::Invalid(e) => HeadView::Invalid(e@),
        }
    }
}

impl View for ResponseParse {
    type V = ResponseHeadView;

    open spec fn view(&self) -> ResponseHeadView {
        match self {
            ResponseParse::Complete { offset, code, headers } => ResponseHeadView::Complete(
                *offset,
                *code,
                raw_headers_view(headers@),
            ),
            ResponseParse::Partial => ResponseHeadView::Partial,
            ResponseParse::Invalid(e) => ResponseHeadView::Invalid(e@),
        }
    }
}

/// What `httparse::parse_headers` yields for a MIME header block (with room
/// for 128 headers); the offset never exceeds the input.
pub uninterp spec fn mime_head(part: Seq<u8>) -> HeadView;

/// What `httparse::Response::parse` yields for an embedded HTTP response
/// (with room for 128 headers); the offset never exceeds the input.
pub uninterp spec fn response_head(bytes: Seq<u8>) -> ResponseHeadView;

/// `httparse::parse_headers` over a part with room for 128 headers: the
/// outcome named by [`mime_head`]; a complete parse ends within the input.
#[verifier::external_body]
fn parse_mime_headers(part: &[u8]) -> (r: HeadParse)
    ensures
        r@ == mime_head(part@),
        r matches HeadParse::Complete { offset, .. } ==> offset <= part@.len(),
{
    let mut raw = [httparse::EMPTY_HEADER; 128];
    match httparse::parse_headers(part, &mut raw) {
        Ok(httparse::Status::Complete((offset, headers))) => HeadParse::Complete {
            offset,
            headers: headers.iter().map(|h| (h.name.to_owned(), h.value.to_vec())).collect(),
        },
        Ok(httparse::Status::Partial) => HeadParse::Partial,
        Err(error) => HeadParse::Invalid(format!("{error}")),
    }
}

/// `httparse::Response::parse` with room for 128 headers: the outcome named
/// by [`response_head`]; a complete parse ends within the input.
#[verifier::external_body]
fn parse_embedded_response(bytes: &[u8]) -> (r: ResponseParse)
    ensures
        r@ == response_head(bytes@),
        r matches ResponseParse::Complete { offset, .. } ==> offset <= bytes@.len(),
{
    let mut raw = [httparse::EMPTY_HEADER; 128];
    let mut response = httparse::Response::new(&mut raw);
    match response.parse(bytes) {
        Ok(httparse::Status::Complete(offset)) => ResponseParse::Complete {
            offset,
            code: response.code,
            headers: response.headers.iter().map(|h| (h.name.to_owned(), h.value.to_vec())).collect(),
        },
        Ok(httparse::Status::Partial) => ResponseParse::Partial,
        Err(error) => ResponseParse::Invalid(format!("{error}")),
    }
}

/// A character allowed in an HTTP header name (an RFC 9110 token character).
pub open spec fn token_char(c: char) -> bool {
    ('a' <= c && c <= 'z') || ('A' <= c && c <= 'Z') || ('0' <= c && c <= '9') || c == '!' || c
        == '#' || c == '$' || c == '%' || c == '&' || c == '\'' || c == '*' || c == '+' || c == '-'
        || c == '.' || c == '^' || c == '_' || c == '`' || c == '|' || c == '~'
}

/// Whether a text is a valid header name, as `HeaderName::from_bytes` requires.
pub open spec fn is_header_name(n: Seq<char>) -> bool {
    n.len() > 0 && forall|i: int| 0 <= i < n.len() ==> token_char(#[trigger] n[i])
}

/// Whether bytes are a valid header value, as `HeaderValue::from_bytes` requires.
pub open spec fn header_value_bytes(v: Seq<u8>) -> bool {
    forall|i: int| 0 <= i < v.len() ==> ((#[trigger] v[i] >= 32 && v[i] != 127) || v[i] == 9)
}

/// The headers that raw header pairs decode to, with lowercase names and
/// values decoded from UTF-8 (each invalid sequence replaced by U+FFFD), or
/// the reason of the first pair that is refused.
pub open spec fn decoded_headers(raw: Seq<(Seq<char>, Seq<u8>)>) -> Result<Seq<(Seq<char>, Seq<char>)>, Seq<char>>
    decreases raw.len(),
{
    if raw.len() == 0 {
        Ok(Seq::empty())
    } else {
        match decoded_headers(raw.drop_last()) {
            Err(r) => Err(r),
            Ok(prefix) => {
                let (n, v) = raw.last();
                if !is_header_name(n) {
                    Err("invalid header name"@)
                } else if !header_value_bytes(v) {
                    Err("invalid header value"@)
                } else {
                    Ok(prefix.push((lower(n), utf8_lossy(v))))
                }
            },
        }
    }
}

fn is_header_name_exec(n: &str) -> (r: bool)
    ensures
        r == is_header_name(n@),
{
    let cs = chars_of(n);
    if cs.len() == 0 {
        return false;
    }
    let mut i: usize = 0;
    while i < cs.len()
        invariant
            i <= cs.len(),
            cs@ == n@,
            forall|k: int| 0 <= k < i ==> token_char(#[trigger] cs@[k]),
        decreases cs.len() - i,
    {
        let c = cs[i];
        let ok = ('a' <= c && c <= 'z') || ('A' <= c && c <= 'Z') || ('0' <= c && c <= '9') || c
            == '!' || c == '#' || c == '$' || c == '%' || c == '&' || c == '\'' || c == '*' || c
            == '+' || c == '-' || c == '.' || c == '^' || c == '_' || c == '`' || c == '|' || c
            == '~';
        if !ok {
            assert(!token_char(cs@[i as int]));
            return false;
        }
        i += 1;
    }
    true
}

fn header_value_bytes_exec(v: &[u8]) -> (r: bool)
    ensures
        r == header_value_bytes(v@),
{
    let mut i: usize = 0;
    while i < v.len()
        invariant
            i <= v.len(),
            forall|k: int| 0 <= k < i ==> ((#[trigger] v@[k] >= 32 && v@[k] != 127) || v@[k] == 9),
        decreases v.len() - i,
    {
        let b = v[i];
        if !((b >= 32 && b != 127) || b == 9) {
            return false;
        }
        i += 1;
    }
    true
}

fn decode_headers(raw: &Vec<(String, Vec<u8>)>) -> (r: Result<Vec<(String, String)>, &'static str>)
    ensures
        match r {
            Ok(h) => decoded_headers(raw_headers_view(raw@)) == Ok::<
                Seq<(Seq<char>, Seq<char>)>,
                Seq<char>,
            >(headers_view(h@)),
            Err(reason) => decoded_headers(raw_headers_view(raw@)) == Err::<
                Seq<(Seq<char>, Seq<char>)>,
                Seq<char>,
            >(reason@),
        },
{
    let ghost rv = raw_headers_view(raw@);
    let mut out: Vec<(String, String)> = Vec::new();
    let mut i: usize = 0;
    assert(rv.take(0) =~= Seq::<(Seq<char>, Seq<u8>)>::empty());
    assert(headers_view(out@) =~= Seq::<(Seq<char>, Seq<char>)>::empty());
    while i < raw.len()
        invariant
            i <= raw.len(),
            rv == raw_headers_view(raw@),
            decoded_headers(rv.take(i as int)) == Ok::<Seq<(Seq<char>, Seq<char>)>, Seq<char>>(
                headers_view(out@),
            ),
        decreases raw.len() - i,
    {
        let (name, value) = &raw[i];
        assert(rv.take(i + 1).drop_last() =~= rv.take(i as int));
        assert(rv.take(i + 1).last() == (name@, value@));
        if !is_header_name_exec(name.as_str()) {
            proof {
                lemma_decoded_headers_failure_persists(rv, i as int + 1);
            }
            return Err("invalid header name");
        }
        if !header_value_bytes_exec(value.as_slice()) {
            proof {
                lemma_decoded_headers_failure_persists(rv, i as int + 1);
            }
            return Err("invalid header value");
        }
        let text = lossy_text(value.as_slice());
        let lname = to_lower(chars_of(name.as_str()).as_slice());
        let ghost before = out@;
        out.push((string_of(lname.as_slice()), text));
        assert(headers_view(out@) =~= headers_view(before).push(
            (lower(name@), utf8_lossy(value@)),
        ));
        i += 1;
    }
    assert(rv.take(raw.len() as int) =~= rv);
    Ok(out)
}

proof fn lemma_decoded_headers_failure_persists(raw: Seq<(Seq<char>, Seq<u8>)>, n: int)
    requires
        0 <= n <= raw.len(),
        decoded_headers(raw.take(n)) is Err,
    ensures
        decoded_headers(raw) == decoded_headers(raw.take(n)),
    decreases raw.len() - n,
{
    if n < raw.len() {
        assert(raw.take(n + 1).drop_last() =~= raw.take(n));
        lemma_decoded_headers_failure_persists(raw, n + 1);
    } else {
        assert(raw.take(n) =~= raw);
    }
}

/// A body without one trailing `\r\n`.
pub open spec fn without_trailing_crlf(body: Seq<u8>) -> Seq<u8> {
    if body.len() >= 2 && body.subrange(body.len() - 2, body.len() as int) == crlf() {
        body.subrange(0, body.len() - 2)
    } else {
        body
    }
}

/// Whether a status code is in the range `StatusCode::from_u16` accepts.
pub open spec fn valid_status(code: u16) -> bool {
    100 <= code <= 999
}

/// The response embedded in one part of a batch response, or the reason it
/// is refused: the part's MIME headers must parse, name
/// `application/http` and, if they give a transfer encoding, `binary`; the
/// embedded HTTP response must parse with a valid status code and headers;
/// its body loses one trailing `\r\n`.
pub open spec fn part_outcome(part: Seq<u8>) -> Result<(u16, Seq<(Seq<char>, Seq<char>)>, Seq<u8>), Seq<char>> {
    match mime_head(part) {
        HeadView::Invalid(e) => Err("invalid MIME headers: "@ + e),
        HeadView::Partial => Err("incomplete MIME headers"@),
        HeadView::Complete(offset, raw) => match decoded_headers(raw) {
            Err(r) => Err(r),
            Ok(meta) => {
                let ct = first_header(meta, "content-type"@);
                let enc = first_header(meta, "content-transfer-encoding"@);
                if !(ct matches Some(c) && visible_text(c) && eq_ignore_case(
                    trim(c),
                    "application/http"@,
                )) {
                    Err("MIME Content-Type must be application/http"@)
                } else if enc matches Some(e) && visible_text(e) && !eq_ignore_case(
                    trim(e),
                    "binary"@,
                ) {
                    Err("MIME content-transfer-encoding must be binary"@)
                } else {
                    let embedded = part.skip(offset as int);
                    match response_head(embedded) {
                        ResponseHeadView::Invalid(e) => Err("invalid embedded HTTP response: "@ + e),
                        ResponseHeadView::Partial => Err("incomplete embedded HTTP response"@),
                        ResponseHeadView::Complete(roffset, code, raw2) => match code {
                            Some(c) if valid_status(c) => match decoded_headers(raw2) {
                                Err(r) => Err(r),
                                Ok(hs) => Ok(
                                    (c, hs, without_trailing_crlf(embedded.skip(roffset as int))),
                                ),
                            },
                            _ => Err("invalid embedded HTTP status code"@),
                        },
                    }
                }
            },
        },
    }
}

fn trimmed_is(value: &str, expected: &str) -> (r: bool)
    ensures
        r == eq_ignore_case(trim(value@), expected@),
{
    let cs = chars_of(value);
    let t = trimmed(cs.as_slice());
    let e = chars_of(expected);
    eq_ignore_ascii_case(t.as_slice(), e.as_slice())
}

fn invalid_part(index: usize, reason: &str) -> (r: BatchError)
    ensures
        r matches BatchError::InvalidPart { index: i, reason: t } && i == index && t@ == reason@,
{
    BatchError::InvalidPart { index, reason: reason.to_owned() }
}

/// Decodes the HTTP response embedded in one part of a batch response.
pub fn decode_part(index: usize, part: &[u8]) -> (r: Result<AdtResponse, BatchError>)
    ensures
        match r {
            Ok(response) => part_outcome(part@) == Ok::<
                (u16, Seq<(Seq<char>, Seq<char>)>, Seq<u8>),
                Seq<char>,
            >((response.status, headers_view(response.headers@), response.body@)),
            Err(BatchError::InvalidPart { index: i, reason }) => i == index && part_outcome(part@)
                == Err::<(u16, Seq<(Seq<char>, Seq<char>)>, Seq<u8>), Seq<char>>(reason@),
            Err(_) => false,
        },
{
    let (offset, raw) = match parse_mime_headers(part) {
        HeadParse::Invalid(error) => {
            let mut reason = String::new();
            reason.append("invalid MIME headers: ");
            reason.append(error.as_str());
            return Err(BatchError::InvalidPart { index, reason });
        },
        HeadParse::Partial => return Err(invalid_part(index, "incomplete MIME headers")),
        HeadParse::Complete { offset, headers } => (offset, headers),
    };
    let meta = match decode_headers(&raw) {
        Ok(h) => h,
        Err(reason) => return Err(invalid_part(index, reason)),
    };
    let content_type_ok = match header_in(meta.as_slice(), "content-type") {
        Some(ct) => visible_text_exec(ct) && trimmed_is(ct, "application/http"),
        None => false,
    };
    if !content_type_ok {
        return Err(invalid_part(index, "MIME Content-Type must be application/http"));
    }
    let encoding_bad = match header_in(meta.as_slice(), "content-transfer-encoding") {
        Some(enc) => visible_text_exec(enc) && !trimmed_is(enc, "binary"),
        None => false,
    };
    if encoding_bad {
        return Err(invalid_part(index, "MIME content-transfer-encoding must be binary"));
    }
    let embedded = slice_subrange(part, offset, part.len());
    assert(embedded@ =~= part@.skip(offset as int));
    let (roffset, code, raw2) = match parse_embedded_response(embedded) {
        ResponseParse::Invalid(error) => {
            let mut reason = String::new();
            reason.append("invalid embedded HTTP response: ");
            reason.append(error.as_str());
            return Err(BatchError::InvalidPart { index, reason });
        },
        ResponseParse::Partial => return Err(
            invalid_part(index, "incomplete embedded HTTP response"),
        ),
        ResponseParse::Complete { offset, code, headers } => (offset, code, headers),
    };
    let status = match code {
        Some(c) => {
            if !(100 <= c && c <= 999) {
                return Err(invalid_part(index, "invalid embedded HTTP status code"));
            }
            c
        },
        None => return Err(invalid_part(index, "invalid embedded HTTP status code")),
    };
    let headers = match decode_headers(&raw2) {
        Ok(h) => h,
        Err(reason) => return Err(invalid_part(index, reason)),
    };
    let rest = slice_subrange(embedded, roffset, embedded.len());
    let n = rest.len();
    let body: Vec<u8> = if n >= 2 && rest[n - 2] == 13u8 && rest[n - 1] == 10u8 {
        let mut b: Vec<u8> = Vec::new();
        push_bytes(&mut b, slice_subrange(rest, 0, n - 2));
        assert(rest@.subrange(n - 2, n as int) =~= crlf());
        b
    } else {
        let mut b: Vec<u8> = Vec::new();
        push_bytes(&mut b, rest);
        proof {
            if n >= 2 {
                assert(rest@.subrange(n - 2, n as int)[0] == rest@[n - 2]);
                assert(rest@.subrange(n - 2, n as int)[1] == rest@[n - 1]);
            }
        }
        b
    };
    assert(rest@ =~= embedded@.skip(roffset as int));
    Ok(AdtResponse::new(status, headers, body))
}

/// What decoding the body of a batch response under a boundary gives: one
/// response per part where every part decodes, the multipart error where the
/// body does not split, or the first part that does not decode.
pub open spec fn decode_batch_outcome(
    body: Seq<u8>,
    boundary: Seq<char>,
    r: Result<Vec<AdtResponse>, BatchError>,
) -> bool {
    match r {
        Ok(responses) => scan_parts(body, encode_utf8("--"@ + boundary), 0, None, Seq::empty()) matches Ok(parts)
            && responses@.len() == parts.len() && forall|k: int| 0 <= k < parts.len() ==> {
                let p = parts[k];
                part_outcome(body.subrange(p.0, p.1)) == Ok::<
                    (u16, Seq<(Seq<char>, Seq<char>)>, Seq<u8>),
                    Seq<char>,
                >((#[trigger] responses@[k].status, headers_view(responses@[k].headers@), responses@[k].body@))
            },
        Err(BatchError::InvalidMultipart { reason }) => scan_parts(
            body,
            encode_utf8("--"@ + boundary),
            0,
            None,
            Seq::empty(),
        ) matches Err(f) && reason@ == multipart_reason(f),
        Err(BatchError::InvalidPart { index, reason }) => {
            &&& scan_parts(body, encode_utf8("--"@ + boundary), 0, None, Seq::empty()) matches Ok(parts)
            &&& index < parts.len()
            &&& part_outcome(body.subrange(parts[index as int].0, parts[index as int].1)) == Err::<
                (u16, Seq<(Seq<char>, Seq<char>)>, Seq<u8>),
                Seq<char>,
            >(reason@)
            &&& forall|j: int| 0 <= j < index ==> (#[trigger] part_outcome(
                body.subrange(parts[j].0, parts[j].1),
            )) is Ok
        },
        Err(_) => false,
    }
}

/// Whether every part of a batch body splits off and decodes.
pub open spec fn batch_parts_decode(body: Seq<u8>, boundary: Seq<char>) -> bool {
    &&& scan_parts(body, encode_utf8("--"@ + boundary), 0, None, Seq::empty()) matches Ok(parts)
    &&& forall|k: int| 0 <= k < parts.len() ==> (#[trigger] part_outcome(
        body.subrange(parts[k].0, parts[k].1),
    )) is Ok
}

/// The responses embedded in a batch response body, or the error of the
/// first part that cannot be split off or decoded.
#[verifier::spinoff_prover]
pub fn decode_batch(body: &[u8], boundary: &str) -> (r: Result<Vec<AdtResponse>, BatchError>)
    ensures
        decode_batch_outcome(body@, boundary@, r),
{
    let parts = match multipart_parts(body, boundary) {
        Ok(p) => p,
        Err(e) => return Err(e),
    };
    let ghost pv = parts@.map_values(|p: (usize, usize)| (p.0 as int, p.1 as int));
    proof {
        lemma_scan_bounds(body@, encode_utf8("--"@ + boundary@), 0, None, Seq::empty());
        assert(pv.len() == parts@.len());
        assert(scan_parts(body@, encode_utf8("--"@ + boundary@), 0, None, Seq::empty()) == Ok::<
            Seq<(int, int)>,
            MultipartFailure,
        >(pv));
        let scanned = scan_parts(body@, encode_utf8("--"@ + boundary@), 0, None, Seq::empty())->Ok_0;
        assert(scanned == pv);
        assert forall|j: int| 0 <= j < pv.len() implies 0 <= (#[trigger] pv[j]).0 <= pv[j].1 <= body@.len() by {
            assert(0 <= scanned[j].0 <= scanned[j].1 <= body@.len());
        }
        assert forall|j: int| 0 <= j < parts@.len() implies (#[trigger] parts@[j]).0 <= parts@[j].1 <= body@.len() by {
            assert(pv[j] == (parts@[j].0 as int, parts@[j].1 as int));
            assert(0 <= pv[j].0 <= pv[j].1 <= body@.len());
        }
    }
    let mut responses: Vec<AdtResponse> = Vec::new();
    let mut k: usize = 0;
    while k < parts.len()
        invariant
            k <= parts.len(),
            pv == parts@.map_values(|p: (usize, usize)| (p.0 as int, p.1 as int)),
            responses@.len() == k,
            scan_parts(body@, encode_utf8("--"@ + boundary@), 0, None, Seq::empty()) == Ok::<
                Seq<(int, int)>,
                MultipartFailure,
            >(pv),
            forall|j: int| 0 <= j < k ==> {
                let p = pv[j];
                part_outcome(body@.subrange(p.0, p.1)) == Ok::<
                    (u16, Seq<(Seq<char>, Seq<char>)>, Seq<u8>),
                    Seq<char>,
                >((#[trigger] responses@[j].status, headers_view(responses@[j].headers@), responses@[j].body@))
            },
            forall|j: int| 0 <= j < parts@.len() ==> (#[trigger] parts@[j]).0 <= parts@[j].1 <= body@.len(),
        decreases parts.len() - k,
    {
        let (s, e) = parts[k];
        let slice = slice_subrange(body, s, e);
        assert(pv[k as int] == (s as int, e as int));
        assert(slice@ == body@.subrange(s as int, e as int));
        match decode_part(k, slice) {
            Ok(response) => responses.push(response),
            Err(error) => {
                proof {
                    assert forall|j: int| 0 <= j < k implies (#[trigger] part_outcome(
                        body@.subrange(pv[j].0, pv[j].1),
                    )) is Ok by {
                        assert(part_outcome(body@.subrange(pv[j].0, pv[j].1)) == Ok::<
                            (u16, Seq<(Seq<char>, Seq<char>)>, Seq<u8>),
                            Seq<char>,
                        >((responses@[j].status, headers_view(responses@[j].headers@), responses@[j].body@)));
                    }
                }
                return Err(error);
            },
        }
        k += 1;
    }
    Ok(responses)
}

proof fn lemma_scan_bounds(
    body: Seq<u8>,
    marker: Seq<u8>,
    start: int,
    part_start: Option<int>,
    parts: Seq<(int, int)>,
)
    requires
        0 <= start <= body.len(),
        part_start matches Some(s) ==> 0 <= s <= start,
        forall|k: int| 0 <= k < parts.len() ==> 0 <= (#[trigger] parts[k]).0 <= parts[k].1 <= body.len(),
    ensures
        scan_parts(body, marker, start, part_start, parts) matches Ok(res) ==> forall|k: int|
            0 <= k < res.len() ==> 0 <= (#[trigger] res[k]).0 <= res[k].1 <= body.len(),
    decreases body.len() - start,
{
    let found = first_occurrence(body, crlf(), start);
    if found is Some {
        lemma_first_occurrence_bound(body, crlf(), start);
    }
    let end = line_end(body, start);
    let line = body.subrange(start, end);
    let next_ok = end < body.len() && end + 2 <= body.len() && end + 2 > start;
    if line == marker {
        let found_parts = match part_start {
            Some(s) => parts.push((s, start)),
            None => parts,
        };
        assert forall|k: int| 0 <= k < found_parts.len() implies 0 <= (#[trigger] found_parts[k]).0 <= found_parts[k].1 <= body.len() by {
            if k < parts.len() {
                assert(found_parts[k] == parts[k]);
            }
        }
        if next_ok {
            lemma_scan_bounds(body, marker, end + 2, Some(end + 2), found_parts);
        }
    } else if line == marker + encode_utf8("--"@) {
        match part_start {
            Some(s) => {
                if s < start {
                    let res = parts.push((s, start));
                    assert forall|k: int| 0 <= k < res.len() implies 0 <= (#[trigger] res[k]).0 <= res[k].1 <= body.len() by {
                        if k < parts.len() {
                            assert(res[k] == parts[k]);
                        }
                    }
                }
            },
            None => {},
        }
    } else {
        if next_ok {
            lemma_scan_bounds(body, marker, end + 2, part_start, parts);
        }
    }
}


/// `uuid::Uuid::new_v4`, in its hyphenated text form. The value is random,
/// so nothing is stated of it.
#[verifier::external_body]
fn random_uuid() -> (r: String) {
    uuid::Uuid::new_v4().to_string()
}

/// The `Content-Type` of a batch request with the given boundary.
pub open spec fn batch_content_type(boundary: Seq<char>) -> Seq<char> {
    "multipart/mixed; boundary="@ + boundary
}

/// Builds a batch request that carries `requests`, in order, as
/// `application/http` parts separated by `boundary`: a `POST` of the batch
/// endpoint accepting and sending `multipart/mixed`. An empty batch is
/// refused.
pub fn batch_request(endpoint: &crate::uri::AdtUri, requests: &[AdtRequest], boundary: &str) -> (r: Result<AdtRequest, BatchError>)
    ensures
        requests@.len() == 0 <==> r matches Err(BatchError::Empty),
        r is Err ==> r matches Err(BatchError::Empty),
        r matches Ok(req) ==> {
            &&& req.method == crate::protocol::HttpMethod::Post
            &&& req.target@ == endpoint@
            &&& req.query@.len() == 0
            &&& headers_view(req.headers@) == seq![
                ("accept"@, batch_media_type()),
                ("content-type"@, batch_content_type(boundary@)),
            ]
            &&& req.body@ == encoded_batch(requests@, boundary@)
        },
{
    if requests.len() == 0 {
        return Err(BatchError::Empty);
    }
    let mut request = AdtRequest::new(crate::protocol::HttpMethod::Post, endpoint.clone());
    assert(headers_view(request.headers@) =~= Seq::<(Seq<char>, Seq<char>)>::empty());
    request.set_accept("multipart/mixed");
    assert(headers_view(request.headers@) =~= seq![("accept"@, batch_media_type())]);
    let mut content_type = String::new();
    content_type.append("multipart/mixed; boundary=");
    content_type.append(boundary);
    request.set_content_type(content_type.as_str());
    request.set_body(encode_batch(requests, boundary));
    proof {
        reveal_strlit("accept");
        reveal_strlit("content-type");
        let a = seq![("accept"@, batch_media_type())];
        assert(a.drop_last() =~= Seq::<(Seq<char>, Seq<char>)>::empty());
        assert(crate::text::lower(a.last().0).len() == 6);
        assert(crate::text::lower("content-type"@).len() == 12);
        assert(!crate::text::eq_ignore_case(a.last().0, "content-type"@));
        assert(crate::protocol::without_header(a.drop_last(), "content-type"@) =~= a.drop_last());
        assert(crate::protocol::without_header(a, "content-type"@) =~= a);
    }
    assert(headers_view(request.headers@) =~= seq![
        ("accept"@, batch_media_type()),
        ("content-type"@, batch_content_type(boundary@)),
    ]);
    Ok(request)
}

/// The boundary of a batch request built under the random value `id`.
pub open spec fn random_batch_boundary(id: Seq<char>) -> Seq<char> {
    "batch_"@ + id
}

/// Builds a batch request under a fresh random boundary, `batch_` and a
/// random UUID; an empty batch is refused.
pub fn new_batch_request(endpoint: &crate::uri::AdtUri, requests: &[AdtRequest]) -> (r: Result<AdtRequest, BatchError>)
    ensures
        requests@.len() == 0 <==> r matches Err(BatchError::Empty),
        r is Err ==> r matches Err(BatchError::Empty),
        r matches Ok(req) ==> exists|id: Seq<char>|
            #![trigger random_batch_boundary(id)]
            {
                &&& req.method == crate::protocol::HttpMethod::Post
                &&& req.target@ == endpoint@
                &&& req.query@.len() == 0
                &&& headers_view(req.headers@) == seq![
                    ("accept"@, batch_media_type()),
                    ("content-type"@, batch_content_type(random_batch_boundary(id))),
                ]
                &&& req.body@ == encoded_batch(requests@, random_batch_boundary(id))
            },
{
    let id = random_uuid();
    let mut boundary = String::new();
    boundary.append("batch_");
    boundary.append(id.as_str());
    assert(boundary@ =~= random_batch_boundary(id@));
    batch_request(endpoint, requests, boundary.as_str())
}

/// What the frame of a `202` batch response with the boundary `boundary`
/// gives, checked in this order: a body whose parts do not all decode gives
/// the decoding error; then a batch that retained another number of targets
/// than it has operations, and then a body with another number of parts, are
/// refused; otherwise the decoded responses, one per part in order.
pub open spec fn batch_frame_outcome(
    body: Seq<u8>,
    boundary: Seq<char>,
    expected: usize,
    targets: usize,
    r: Result<Vec<AdtResponse>, crate::error::ResponseError>,
) -> bool {
    if !batch_parts_decode(body, boundary) {
        r matches Err(crate::error::ResponseError::Batch(e)) && decode_batch_outcome(
            body,
            boundary,
            Err::<Vec<AdtResponse>, BatchError>(e),
        )
    } else if targets != expected {
        r matches Err(crate::error::ResponseError::Batch(BatchError::RequestContextCount { expected: e, actual: a }))
            && e == expected && a == targets
    } else {
        let parts = scan_parts(body, encode_utf8("--"@ + boundary), 0, None, Seq::empty())->Ok_0;
        if parts.len() != expected {
            r matches Err(crate::error::ResponseError::Batch(BatchError::ResponseCount { expected: e, actual: a }))
                && e == expected && a == parts.len()
        } else {
            r matches Ok(responses) && decode_batch_outcome(
                body,
                boundary,
                Ok::<Vec<AdtResponse>, BatchError>(responses),
            )
        }
    }
}

proof fn lemma_decode_failure_is_not_decoding(body: Seq<u8>, boundary: Seq<char>, e: BatchError)
    requires
        decode_batch_outcome(body, boundary, Err::<Vec<AdtResponse>, BatchError>(e)),
    ensures
        !batch_parts_decode(body, boundary),
{
    match e {
        BatchError::InvalidPart { index, reason } => {
            let parts = scan_parts(body, encode_utf8("--"@ + boundary), 0, None, Seq::empty())->Ok_0;
            assert(!(part_outcome(body.subrange(parts[index as int].0, parts[index as int].1)) is Ok));
        },
        _ => {},
    }
}

proof fn lemma_decoded_batch_parts(body: Seq<u8>, boundary: Seq<char>, responses: Vec<AdtResponse>)
    requires
        decode_batch_outcome(body, boundary, Ok::<Vec<AdtResponse>, BatchError>(responses)),
    ensures
        batch_parts_decode(body, boundary),
        responses@.len() == scan_parts(body, encode_utf8("--"@ + boundary), 0, None, Seq::empty())->Ok_0.len(),
{
    let parts = scan_parts(body, encode_utf8("--"@ + boundary), 0, None, Seq::empty())->Ok_0;
    assert forall|k: int| 0 <= k < parts.len() implies (#[trigger] part_outcome(
        body.subrange(parts[k].0, parts[k].1),
    )) is Ok by {
        assert(part_outcome(body.subrange(parts[k].0, parts[k].1)) == Ok::<
            (u16, Seq<(Seq<char>, Seq<char>)>, Seq<u8>),
            Seq<char>,
        >((responses@[k].status, headers_view(responses@[k].headers@), responses@[k].body@)));
    }
}

/// Decodes the frame of a batch response for a batch of `expected`
/// operations that retained `targets` request targets: it must be
/// `202 Accepted`, name its boundary, split into one response per part, and
/// hold as many targets and responses as operations.
pub fn decode_batch_response(response: &AdtResponse, expected: usize, targets: usize) -> (r: Result<Vec<AdtResponse>, crate::error::ResponseError>)
    ensures
        response.status != 202 ==> (r matches Err(crate::error::ResponseError::UnexpectedStatus { status, body })
            && status == response.status && body@ == crate::std_specs::utf8_lossy(response.body@)),
        response.status == 202 ==> match boundary_check(headers_view(response.headers@)) {
            BoundaryCheck::Found(b) => batch_frame_outcome(response.body@, b, expected, targets, r),
            c => r matches Err(crate::error::ResponseError::Batch(e)) && e.boundary() == Some(c),
        },
{
    if response.status != 202 {
        return Err(
            crate::error::ResponseError::UnexpectedStatus {
                status: response.status,
                body: crate::std_specs::lossy_text(response.body.as_slice()),
            },
        );
    }
    let boundary = match response_boundary(response.headers.as_slice()) {
        Ok(b) => b,
        Err(e) => return Err(crate::error::ResponseError::Batch(e)),
    };
    let responses = match decode_batch(response.body.as_slice(), boundary.as_str()) {
        Ok(rs) => rs,
        Err(e) => {
            proof {
                lemma_decode_failure_is_not_decoding(response.body@, boundary@, e);
            }
            return Err(crate::error::ResponseError::Batch(e));
        },
    };
    proof {
        lemma_decoded_batch_parts(response.body@, boundary@, responses);
    }
    if targets != expected {
        return Err(
            crate::error::ResponseError::Batch(BatchError::RequestContextCount { expected, actual: targets }),
        );
    }
    if responses.len() != expected {
        return Err(
            crate::error::ResponseError::Batch(
                BatchError::ResponseCount { expected, actual: responses.len() },
            ),
        );
    }
    Ok(responses)
}

/// The individually decoded responses of one batch, each taken at most
/// once through the key its operation was given.
#[derive(Debug)]
pub struct BatchSlots<T> {
    /// The identity of the batch the responses belong to.
    pub batch: u64,
    /// One slot per operation: its decoded response, or `None` once taken.
    pub slots: Vec<Option<Result<T, crate::error::ResponseError>>>,
}

impl<T> BatchSlots<T> {
    /// Returns the number of response slots.
    pub fn len(&self) -> (r: usize)
        ensures
            r == self.slots@.len(),
    {
        self.slots.len()
    }

    /// Returns whether there are no response slots.
    pub fn is_empty(&self) -> (r: bool)
        ensures
            r == (self.slots@.len() == 0),
    {
        self.slots.len() == 0
    }

    /// Takes the response of the slot a key names. A key of another batch is
    /// refused; a slot that does not exist or was taken is missing; a failed
    /// subrequest yields its own decoding error. Every other slot stays.
    pub fn take<R>(&mut self, key: &BatchKey<R>) -> (r: Result<T, BatchError>)
        ensures
            final(self).batch == old(self).batch,
            final(self).slots@.len() == old(self).slots@.len(),
            forall|i: int| 0 <= i < old(self).slots@.len() && i != key.index ==> #[trigger] final(self).slots@[i]
                == old(self).slots@[i],
            key.batch != old(self).batch ==> (r matches Err(BatchError::ForeignBatch) && final(self).slots@
                == old(self).slots@),
            key.batch == old(self).batch ==> match (if key.index < old(self).slots@.len() {
                old(self).slots@[key.index as int]
            } else {
                None
            }) {
                None => r matches Err(BatchError::MissingResponse { index }) && index == key.index
                    && final(self).slots@ == old(self).slots@,
                Some(Ok(v)) => r == Ok::<T, BatchError>(v) && final(self).slots@[key.index as int] is None,
                Some(Err(e)) => r matches Err(BatchError::Decode { index, source }) && index == key.index
                    && *source == e && final(self).slots@[key.index as int] is None,
            },
    {
        if key.batch != self.batch {
            return Err(BatchError::ForeignBatch);
        }
        if key.index >= self.slots.len() {
            return Err(BatchError::MissingResponse { index: key.index });
        }
        let mut slot: Option<Result<T, crate::error::ResponseError>> = None;
        let ghost before = self.slots@;
        core::mem::swap(&mut self.slots[key.index], &mut slot);
        match slot {
            None => {
                let mut back: Option<Result<T, crate::error::ResponseError>> = None;
                core::mem::swap(&mut self.slots[key.index], &mut back);
                assert(self.slots@ =~= before);
                Err(BatchError::MissingResponse { index: key.index })
            },
            Some(Ok(v)) => Ok(v),
            Some(Err(e)) => Err(BatchError::Decode { index: key.index, source: Box::new(e) }),
        }
    }
}

} // verus!
