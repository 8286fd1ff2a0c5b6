//! Querying the transport requests of a user.
use vstd::prelude::*;

use crate::compatibility::{from_media_type, version_for, MediaVersionNegotiation};
use crate::error::ResponseError;
use crate::object::expect_ok;
use crate::protocol::{first_header, headers_view, AdtRequest, AdtResponse, HttpMethod};
use crate::std_specs::utf8_lossy;
use crate::text::pairs_view;
use crate::transports::{kind_text, TransportKind, TransportRequests};
use crate::uri::AdtUri;
use crate::vocabulary::CategoryId;

verus! {

/// The media type of a list of transport requests.
pub open spec fn transport_requests_media_type() -> Seq<char> {
    "application/vnd.sap.as+xml; charset=utf-8; dataname=com.sap.adt.CorrectionRequests"@
}

/// The single representation of a list of transport requests.
#[derive(Clone, Copy, Debug, PartialEq, Eq, Structural)]
pub enum TransportRequestsMediaType {
    CorrectionRequests,
}

impl MediaVersionNegotiation for TransportRequestsMediaType {
    open spec fn spec_media_type(self) -> Seq<char> {
        transport_requests_media_type()
    }

    open spec fn spec_supported() -> Seq<Self> {
        seq![TransportRequestsMediaType::CorrectionRequests]
    }

    fn supported() -> (r: Vec<Self>) {
        let r = vec![TransportRequestsMediaType::CorrectionRequests];
        assert(r@ =~= seq![TransportRequestsMediaType::CorrectionRequests]);
        r
    }

    fn media_type(self) -> (r: &'static str) {
        "application/vnd.sap.as+xml; charset=utf-8; dataname=com.sap.adt.CorrectionRequests"
    }
}

/// The category of the transports collection.
pub open spec fn transports_category_spec() -> CategoryId {
    CategoryId { scheme: "http://www.sap.com/adt/categories/cts", term: "transports" }
}

/// Returns the category of the transports collection.
pub fn transports_category() -> (r: CategoryId)
    ensures
        r == transports_category_spec(),
{
    CategoryId { scheme: "http://www.sap.com/adt/categories/cts", term: "transports" }
}

/// The transport functions a query includes.
#[derive(Debug)]
pub enum QueryTransportKind {
    /// One transport function.
    Kind(TransportKind),
    /// Every transport function (`*`).
    All,
}

/// The `trfunction` value of a query kind.
pub open spec fn query_kind_text(k: QueryTransportKind) -> Seq<char> {
    match k {
        QueryTransportKind::Kind(kind) => kind_text(kind),
        QueryTransportKind::All => "*"@,
    }
}

impl QueryTransportKind {
    /// Returns the `trfunction` query value.
    pub fn as_str(&self) -> (r: &str)
        ensures
            r@ == query_kind_text(*self),
    {
        match self {
            QueryTransportKind::Kind(kind) => kind.as_str(),
            QueryTransportKind::All => "*",
        }
    }

    /// The query for one transport function.
    pub fn from_kind(kind: TransportKind) -> (r: Self)
        ensures
            r == QueryTransportKind::Kind(kind),
    {
        QueryTransportKind::Kind(kind)
    }
}

/// Queries the transports of a user and a transport function: a `GET` of the
/// transports collection with `_action=FIND`. Without a user, the backend
/// uses the current one.
#[derive(Debug)]
pub struct TransportsQuery {
    /// The transport owner, or `None` for the current user.
    pub user: Option<String>,
    /// The transport functions to include.
    pub kind: QueryTransportKind,
}

impl Default for TransportsQuery {
    /// The current user's Workbench transports.
    fn default() -> (r: Self)
        ensures
            r.user is None,
            r.kind == QueryTransportKind::Kind(TransportKind::Workbench),
    {
        TransportsQuery { user: None, kind: QueryTransportKind::Kind(TransportKind::Workbench) }
    }
}

/// Configures a [`TransportsQuery`].
#[derive(Debug)]
pub struct TransportsQueryBuilder {
    /// The query configured so far.
    pub query: TransportsQuery,
}

impl TransportsQueryBuilder {
    /// Sets the transport owner.
    pub fn user(self, user: &str) -> (r: Self)
        ensures
            r.query.user matches Some(u) && u@ == user@,
            r.query.kind == self.query.kind,
    {
        TransportsQueryBuilder { query: TransportsQuery { user: Some(user.to_owned()), kind: self.query.kind } }
    }

    /// Sets the transport functions to include.
    pub fn kind(self, kind: QueryTransportKind) -> (r: Self)
        ensures
            r.query.user == self.query.user,
            r.query.kind == kind,
    {
        TransportsQueryBuilder { query: TransportsQuery { user: self.query.user, kind } }
    }

    /// The configured query.
    pub fn build(self) -> (r: TransportsQuery)
        ensures
            r == self.query,
    {
        self.query
    }
}

/// The query parameters of a transports query.
pub open spec fn transports_query_parameters(user: Option<String>, kind: QueryTransportKind) -> Seq<(Seq<char>, Seq<char>)> {
    let head = seq![("_action"@, "FIND"@)];
    let with_user = match user {
        Some(u) => head.push(("user"@, u@)),
        None => head,
    };
    with_user.push(("trfunction"@, query_kind_text(kind)))
}

impl TransportsQuery {
    /// The current user's Workbench transports.
    pub fn new() -> (r: Self)
        ensures
            r.user is None,
            r.kind == QueryTransportKind::Kind(TransportKind::Workbench),
    {
        TransportsQuery::default()
    }

    /// Starts configuring a query from the default one.
    pub fn builder() -> (r: TransportsQueryBuilder)
        ensures
            r.query.user is None,
            r.query.kind == QueryTransportKind::Kind(TransportKind::Workbench),
    {
        TransportsQueryBuilder { query: TransportsQuery::default() }
    }

    /// Builds the request against the transports collection.
    pub fn request(&self, collection: &AdtUri) -> (r: AdtRequest)
        ensures
            r.method == HttpMethod::Get,
            r.target@ == collection@,
            pairs_view(r.query@) == transports_query_parameters(self.user, self.kind),
            headers_view(r.headers@) == seq![("accept"@, transport_requests_media_type())],
            r.body@.len() == 0,
    {
        let mut request = AdtRequest::new(HttpMethod::Get, collection.clone());
        request.push_query("_action", "FIND");
        match &self.user {
            Some(u) => request.push_query("user", u.as_str()),
            None => {},
        }
        request.push_query("trfunction", self.kind.as_str());
        request.set_accept(TransportRequestsMediaType::CorrectionRequests.media_type());
        proof {
            reveal_strlit("accept");
        }
        assert(pairs_view(request.query@) =~= transports_query_parameters(self.user, self.kind));
        assert(headers_view(request.headers@) =~= seq![("accept"@, transport_requests_media_type())]);
        request
    }

    /// Interprets a transports response as far as it can without its body:
    /// anything but `200 OK` is refused, an empty body is an empty list
    /// (`Some`), and otherwise the content type must be the list's media type
    /// and the body is to be decoded (`None`).
    pub fn decode_head(&self, response: &AdtResponse) -> (r: Result<Option<TransportRequests>, ResponseError>)
        ensures
            response.status != 200 ==> (r matches Err(ResponseError::UnexpectedStatus { status, body })
                && status == response.status && body@ == utf8_lossy(response.body@)),
            response.status == 200 && response.body@.len() == 0 ==> (r matches Ok(Some(list))
                && list.requests@.len() == 0),
            response.status == 200 && response.body@.len() > 0 ==> match first_header(
                headers_view(response.headers@),
                "content-type"@,
            ) {
                None => r matches Err(ResponseError::MissingContentType { category })
                    && category == transports_category_spec(),
                Some(ct) => if version_for::<TransportRequestsMediaType>(
                    TransportRequestsMediaType::spec_supported(),
                    ct,
                ) is Some {
                    r matches Ok(None)
                } else {
                    r matches Err(ResponseError::UnsupportedContentType { category, content_type, supported })
                        && category == transports_category_spec() && content_type@ == ct && supported@.len()
                        == 1 && supported@[0]@ == transport_requests_media_type()
                },
            },
    {
        match expect_ok(response) {
            Ok(()) => {},
            Err(e) => return Err(e),
        }
        if response.body.len() == 0 {
            return Ok(Some(TransportRequests::empty()));
        }
        let content_type = match response.header("content-type") {
            Some(ct) => ct,
            None => return Err(ResponseError::MissingContentType { category: transports_category() }),
        };
        match from_media_type::<TransportRequestsMediaType>(content_type) {
            Some(_) => Ok(None),
            None => Err(
                ResponseError::UnsupportedContentType {
                    category: transports_category(),
                    content_type: content_type.to_owned(),
                    supported: vec![TransportRequestsMediaType::CorrectionRequests.media_type().to_owned()],
                },
            ),
        }
    }
}

} // verus!
