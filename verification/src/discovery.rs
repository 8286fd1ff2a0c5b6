//! Discovery of the server's capabilities and the logon that opens an
//! authenticated HTTP security session.
use vstd::prelude::*;

use crate::compatibility::{from_media_type, version_for, MediaVersionNegotiation};
use crate::error::{LogonError, ResponseError};
use crate::object::expect_ok;
use crate::protocol::{first_header, headers_view, AdtRequest, AdtResponse, HttpMethod};
use crate::std_specs::utf8_lossy;
use crate::text::pairs_view;
use crate::uri::{uri_check, AdtUri, AdtUriError, UriCheck};

verus! {

/// The media type of a discovery document.
pub open spec fn discovery_media_type() -> Seq<char> {
    "application/atomsvc+xml"@
}

/// A `GET` of a fixed discovery document, accepting the AtomPub service
/// format.
fn discovery_request(target: &str) -> (r: Result<AdtRequest, AdtUriError>)
    ensures
        match r {
            Ok(req) => uri_check(target@) == UriCheck::Accepted(req.target@) && req.method
                == HttpMethod::Get && req.query@.len() == 0 && headers_view(req.headers@) == seq![
                ("accept"@, discovery_media_type())] && req.body@.len() == 0,
            Err(e) => uri_check(target@) == e.check(),
        },
{
    let uri = match AdtUri::parse(target) {
        Ok(uri) => uri,
        Err(e) => return Err(e),
    };
    let mut request = AdtRequest::new(HttpMethod::Get, uri);
    request.set_accept("application/atomsvc+xml");
    proof {
        reveal_strlit("accept");
    }
    assert(headers_view(request.headers@) =~= seq![("accept"@, discovery_media_type())]);
    Ok(request)
}

/// Refuses a discovery response other than `200 OK`; the document itself is
/// decoded by the caller.
fn discovery_head(response: &AdtResponse) -> (r: Result<(), ResponseError>)
    ensures
        r is Ok <==> response.status == 200,
        r matches Err(ResponseError::UnexpectedStatus { status, body }) ==> status == response.status
            && body@ == utf8_lossy(response.body@),
        r is Err ==> r matches Err(ResponseError::UnexpectedStatus { .. }),
{
    expect_ok(response)
}

/// Fetches the small, fixed bootstrap capability document at
/// `/sap/bc/adt/core/discovery`, with infrastructure collections such as
/// the compatibility and batch resources.
#[derive(Clone, Copy, Debug, Default)]
pub struct CoreDiscoveryQuery;

impl CoreDiscoveryQuery {
    /// Builds the request for the bootstrap document.
    pub fn request(&self) -> (r: Result<AdtRequest, AdtUriError>)
        ensures
            match r {
                Ok(req) => uri_check("/sap/bc/adt/core/discovery"@) == UriCheck::Accepted(req.target@)
                    && req.method == HttpMethod::Get && req.query@.len() == 0 && headers_view(
                    req.headers@,
                ) == seq![("accept"@, discovery_media_type())] && req.body@.len() == 0,
                Err(e) => uri_check("/sap/bc/adt/core/discovery"@) == e.check(),
            },
    {
        discovery_request("/sap/bc/adt/core/discovery")
    }

    /// Refuses a response other than `200 OK`.
    pub fn decode_head(&self, response: &AdtResponse) -> (r: Result<(), ResponseError>)
        ensures
            r is Ok <==> response.status == 200,
            r matches Err(ResponseError::UnexpectedStatus { status, body }) ==> status
                == response.status && body@ == utf8_lossy(response.body@),
            r is Err ==> r matches Err(ResponseError::UnexpectedStatus { .. }),
    {
        discovery_head(response)
    }
}

/// Fetches the central capability document at `/sap/bc/adt/discovery`, with
/// the server's domain workspaces and collections.
#[derive(Clone, Copy, Debug, Default)]
pub struct DiscoveryQuery;

impl DiscoveryQuery {
    /// Builds the request for the central document.
    pub fn request(&self) -> (r: Result<AdtRequest, AdtUriError>)
        ensures
            match r {
                Ok(req) => uri_check("/sap/bc/adt/discovery"@) == UriCheck::Accepted(req.target@)
                    && req.method == HttpMethod::Get && req.query@.len() == 0 && headers_view(
                    req.headers@,
                ) == seq![("accept"@, discovery_media_type())] && req.body@.len() == 0,
                Err(e) => uri_check("/sap/bc/adt/discovery"@) == e.check(),
            },
    {
        discovery_request("/sap/bc/adt/discovery")
    }

    /// Refuses a response other than `200 OK`.
    pub fn decode_head(&self, response: &AdtResponse) -> (r: Result<(), ResponseError>)
        ensures
            r is Ok <==> response.status == 200,
            r matches Err(ResponseError::UnexpectedStatus { status, body }) ==> status
                == response.status && body@ == utf8_lossy(response.body@),
            r is Err ==> r matches Err(ResponseError::UnexpectedStatus { .. }),
    {
        discovery_head(response)
    }
}

/// The supported representations of the session information.
#[derive(Clone, Copy, Debug, PartialEq, Eq, Structural)]
pub enum SessionMediaVersion {
    /// `application/vnd.sap.adt.core.http.session.v3+xml`.
    V3,
}

/// The media type of the V3 session representation.
pub open spec fn session_v3_media_type() -> Seq<char> {
    "application/vnd.sap.adt.core.http.session.v3+xml"@
}

impl MediaVersionNegotiation for SessionMediaVersion {
    open spec fn spec_media_type(self) -> Seq<char> {
        session_v3_media_type()
    }

    open spec fn spec_supported() -> Seq<Self> {
        seq![SessionMediaVersion::V3]
    }

    fn supported() -> (r: Vec<Self>) {
        let r = vec![SessionMediaVersion::V3];
        assert(r@ =~= seq![SessionMediaVersion::V3]);
        r
    }

    fn media_type(self) -> (r: &'static str) {
        "application/vnd.sap.adt.core.http.session.v3+xml"
    }
}

/// The headers of a logon request.
pub open spec fn logon_headers() -> Seq<(Seq<char>, Seq<char>)> {
    seq![
        ("accept"@, session_v3_media_type()),
        ("x-sap-security-session"@, "create"@),
        ("sap-adt-purpose"@, "logon"@),
        ("sap-adt-saplb"@, "fetch"@),
        ("sap-cancel-on-close"@, "true"@),
    ]
}

/// Establishes an authenticated ADT HTTP security session.
#[derive(Clone, Copy, Debug, Default)]
pub struct Logon;

impl Logon {
    /// Builds the logon request: a `GET` of `/sap/bc/adt/core/http/sessions`
    /// with a cache-busting `_` query value, accepting the V3 session
    /// representation and asking for a new security session.
    pub fn request(&self, cache_buster: &str) -> (r: Result<AdtRequest, AdtUriError>)
        ensures
            match r {
                Ok(req) => uri_check("/sap/bc/adt/core/http/sessions"@) == UriCheck::Accepted(
                    req.target@,
                ) && req.method == HttpMethod::Get && pairs_view(req.query@) == seq![
                    ("_"@, cache_buster@)] && headers_view(req.headers@) == logon_headers()
                    && req.body@.len() == 0,
                Err(e) => uri_check("/sap/bc/adt/core/http/sessions"@) == e.check(),
            },
    {
        let uri = match AdtUri::parse("/sap/bc/adt/core/http/sessions") {
            Ok(uri) => uri,
            Err(e) => return Err(e),
        };
        let mut request = AdtRequest::new(HttpMethod::Get, uri);
        request.push_query("_", cache_buster);
        proof {
            reveal_strlit("accept");
            reveal_strlit("x-sap-security-session");
            reveal_strlit("sap-adt-purpose");
            reveal_strlit("sap-adt-saplb");
            reveal_strlit("sap-cancel-on-close");
        }
        request.append_header("accept", SessionMediaVersion::V3.media_type());
        request.append_header("x-sap-security-session", "create");
        request.append_header("sap-adt-purpose", "logon");
        request.append_header("sap-adt-saplb", "fetch");
        request.append_header("sap-cancel-on-close", "true");
        assert(crate::text::lower("accept"@) =~= "accept"@);
        assert(crate::text::lower("x-sap-security-session"@) =~= "x-sap-security-session"@);
        assert(crate::text::lower("sap-adt-purpose"@) =~= "sap-adt-purpose"@);
        assert(crate::text::lower("sap-adt-saplb"@) =~= "sap-adt-saplb"@);
        assert(crate::text::lower("sap-cancel-on-close"@) =~= "sap-cancel-on-close"@);
        assert(pairs_view(request.query@) =~= seq![("_"@, cache_buster@)]);
        assert(headers_view(request.headers@) =~= logon_headers());
        Ok(request)
    }

    /// Checks a logon response before its session document is decoded: it
    /// must be `200 OK`, carry a body, and be the V3 representation.
    pub fn decode_head(&self, response: &AdtResponse) -> (r: Result<(), ResponseError>)
        ensures
            response.status != 200 ==> (r matches Err(ResponseError::UnexpectedStatus { status, body })
                && status == response.status && body@ == utf8_lossy(response.body@)),
            response.status == 200 && response.body@.len() == 0 ==> r matches Err(
                ResponseError::Logon(LogonError::MissingResponseBody),
            ),
            response.status == 200 && response.body@.len() > 0 ==> match first_header(
                headers_view(response.headers@),
                "content-type"@,
            ) {
                None => r matches Err(ResponseError::Logon(LogonError::MissingContentType)),
                Some(ct) => if version_for::<SessionMediaVersion>(SessionMediaVersion::spec_supported(), ct)
                    == Some(SessionMediaVersion::V3) {
                    r is Ok
                } else {
                    r matches Err(ResponseError::Logon(LogonError::UnsupportedContentType { content_type }))
                        && content_type@ == ct
                },
            },
    {
        match expect_ok(response) {
            Ok(()) => {},
            Err(e) => return Err(e),
        }
        if response.body.len() == 0 {
            return Err(ResponseError::Logon(LogonError::MissingResponseBody));
        }
        let content_type = match response.header("content-type") {
            Some(ct) => ct,
            None => return Err(ResponseError::Logon(LogonError::MissingContentType)),
        };
        match from_media_type::<SessionMediaVersion>(content_type) {
            Some(SessionMediaVersion::V3) => Ok(()),
            None => Err(
                ResponseError::Logon(LogonError::UnsupportedContentType { content_type: content_type.to_owned() }),
            ),
        }
    }
}

} // verus!
