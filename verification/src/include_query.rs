//! Fetching the metadata of a standalone ABAP Include object in a negotiated
//! representation.
use vstd::prelude::*;

use crate::error::{IncludeError, OperationError, ResponseError};
use crate::object::expect_ok;
use crate::objects::{Include, ObjectRef, ObjectVersion};
use crate::program_query::{
    accepts_media, accepts_media_exec, clone_texts, media_essence, media_essence_exec, texts_view,
    version_query,
};
use crate::protocol::{first_header, headers_view, is_header_value, AdtRequest, AdtResponse, EntityTag, HttpMethod};
use crate::std_specs::utf8_lossy;
use crate::text::{chars_of, eq_ignore_ascii_case, eq_ignore_case, opt_view, pairs_view};

verus! {

/// The SAP media-type version of an Include descriptor.
#[derive(Clone, Copy, Debug, PartialEq, Eq, Structural, Hash)]
pub enum IncludeMediaVersion {
    /// `application/vnd.sap.adt.programs.includes.v2+xml`.
    V2,
}

/// The media type of an Include representation.
pub open spec fn include_media_text(v: IncludeMediaVersion) -> Seq<char> {
    match v {
        IncludeMediaVersion::V2 => "application/vnd.sap.adt.programs.includes.v2+xml"@,
    }
}

/// The representation a content type names: its essence equals a
/// representation's media type, ignoring ASCII case.
pub open spec fn include_version_of(content_type: Seq<char>) -> Option<IncludeMediaVersion> {
    if eq_ignore_case(media_essence(content_type), include_media_text(IncludeMediaVersion::V2)) {
        Some(IncludeMediaVersion::V2)
    } else {
        None
    }
}

impl IncludeMediaVersion {
    /// Returns the representation's media type.
    pub fn media_type(self) -> (r: &'static str)
        ensures
            r@ == include_media_text(self),
    {
        match self {
            IncludeMediaVersion::V2 => "application/vnd.sap.adt.programs.includes.v2+xml",
        }
    }

    /// Recognizes the representation named by a content type.
    pub fn from_media_type(media_type: &str) -> (r: Option<Self>)
        ensures
            r == include_version_of(media_type@),
    {
        let essence = media_essence_exec(media_type);
        let v2 = chars_of(IncludeMediaVersion::V2.media_type());
        if eq_ignore_ascii_case(essence.as_slice(), v2.as_slice()) {
            Some(IncludeMediaVersion::V2)
        } else {
            None
        }
    }
}

/// The first representation of a preference list, from position `from` on,
/// that the Include collection accepts.
pub open spec fn first_accepted_include(priority: Seq<IncludeMediaVersion>, accepted: Seq<String>, from: int) -> Option<int>
    decreases priority.len() - from,
{
    if from < 0 || from >= priority.len() {
        None
    } else if accepts_media(accepted, include_media_text(priority[from])) {
        Some(from)
    } else {
        first_accepted_include(priority, accepted, from + 1)
    }
}

/// Chooses the first representation of the caller's preference that the
/// Include collection accepts. Without an Include collection there is none;
/// where none is accepted, both lists are reported.
pub fn preferred_include_representation(priority: &[IncludeMediaVersion], accepted: Option<&[String]>) -> (r: Result<IncludeMediaVersion, IncludeError>)
    ensures
        match accepted {
            None => r matches Err(IncludeError::MissingCollection),
            Some(acc) => match first_accepted_include(priority@, acc@, 0) {
                Some(k) => r == Ok::<IncludeMediaVersion, IncludeError>(priority@[k]),
                None => r matches Err(IncludeError::UnsupportedRepresentation { preferred, accepted: a }) && texts_view(
                    preferred@,
                ) == priority@.map_values(|v: IncludeMediaVersion| include_media_text(v)) && a@
                    == acc@,
            },
        },
{
    let acc = match accepted {
        None => return Err(IncludeError::MissingCollection),
        Some(acc) => acc,
    };
    let mut k: usize = 0;
    while k < priority.len()
        invariant
            k <= priority@.len(),
            accepted == Some(acc),
            first_accepted_include(priority@, acc@, 0) == first_accepted_include(priority@, acc@, k as int),
        decreases priority.len() - k,
    {
        if accepts_media_exec(acc, priority[k].media_type()) {
            assert(first_accepted_include(priority@, acc@, k as int) == Some(k as int));
            return Ok(priority[k]);
        }
        assert(first_accepted_include(priority@, acc@, k as int) == first_accepted_include(
            priority@,
            acc@,
            k as int + 1,
        ));
        k += 1;
    }
    assert(first_accepted_include(priority@, acc@, priority@.len() as int) is None);
    let mut preferred: Vec<String> = Vec::new();
    let mut j: usize = 0;
    while j < priority.len()
        invariant
            j <= priority@.len(),
            texts_view(preferred@) == priority@.take(j as int).map_values(
                |v: IncludeMediaVersion| include_media_text(v),
            ),
        decreases priority.len() - j,
    {
        let ghost before = texts_view(preferred@);
        let text = priority[j].media_type().to_owned();
        preferred.push(text);
        assert(texts_view(preferred@) =~= before.push(include_media_text(priority@[j as int])));
        assert(priority@.take(j as int + 1) =~= priority@.take(j as int).push(priority@[j as int]));
        j += 1;
        assert(texts_view(preferred@) =~= priority@.take(j as int).map_values(
            |v: IncludeMediaVersion| include_media_text(v),
        ));
    }
    assert(priority@.take(priority@.len() as int) =~= priority@);
    Err(IncludeError::UnsupportedRepresentation { preferred, accepted: clone_texts(acc) })
}

/// A decoded Include descriptor with the entity tag its response carried.
#[derive(Debug)]
pub struct TaggedInclude<I> {
    /// The decoded descriptor.
    pub descriptor: I,
    /// The response's entity tag, when present.
    pub etag: Option<String>,
}

/// An Include descriptor tagged with the media-type version SAP returned,
/// or the news that the cached descriptor is current. `I` is the decoded
/// descriptor.
#[derive(Debug)]
pub enum IncludeResponse<I> {
    /// The cached entity tag still identifies the current descriptor.
    NotModified { etag: Option<String> },
    /// A V2 representation.
    V2(Box<TaggedInclude<I>>),
}

impl<I> IncludeResponse<I> {
    /// Returns the representation's media-type version.
    pub fn media_version(&self) -> (r: Option<IncludeMediaVersion>)
        ensures
            r == match self {
                IncludeResponse::NotModified { .. } => None,
                IncludeResponse::V2(_) => Some(IncludeMediaVersion::V2),
            },
    {
        match self {
            IncludeResponse::NotModified { .. } => None,
            IncludeResponse::V2(_) => Some(IncludeMediaVersion::V2),
        }
    }

    /// Borrows the descriptor when it was modified.
    pub fn as_include(&self) -> (r: Option<&I>)
        ensures
            match self {
                IncludeResponse::NotModified { .. } => r is None,
                IncludeResponse::V2(t) => r == Some(&t.descriptor),
            },
    {
        match self {
            IncludeResponse::NotModified { .. } => None,
            IncludeResponse::V2(t) => Some(&t.descriptor),
        }
    }

    /// Returns the descriptor when it was modified.
    pub fn into_include(self) -> (r: Option<I>)
        ensures
            match self {
                IncludeResponse::NotModified { .. } => r is None,
                IncludeResponse::V2(t) => r == Some(t.descriptor),
            },
    {
        match self {
            IncludeResponse::NotModified { .. } => None,
            IncludeResponse::V2(t) => Some(t.descriptor),
        }
    }

    /// Returns the response entity tag, when present.
    pub fn etag(&self) -> (r: Option<&str>)
        ensures
            match self {
                IncludeResponse::NotModified { etag } => r matches Some(t) ==> etag matches Some(e) && t@ == e@,
                IncludeResponse::V2(b) => r matches Some(t) ==> b.etag matches Some(e) && t@ == e@,
            },
            r is None <==> match self {
                IncludeResponse::NotModified { etag } => etag is None,
                IncludeResponse::V2(b) => b.etag is None,
            },
    {
        let etag = match self {
            IncludeResponse::NotModified { etag } => etag,
            IncludeResponse::V2(b) => &b.etag,
        };
        match etag {
            Some(e) => Some(e.as_str()),
            None => None,
        }
    }
}

/// How an Include response is to be finished: it is current, or its body is
/// to be decoded as the given representation.
#[derive(Debug)]
pub enum IncludeDecoding {
    /// The cached descriptor is current.
    NotModified { etag: Option<String> },
    /// The body holds a descriptor in this representation.
    Decode { version: IncludeMediaVersion, etag: Option<String> },
}

/// Fetches the metadata representation of a standalone ABAP Include object.
#[derive(Debug)]
pub struct IncludeQuery {
    /// The Include resource to fetch.
    pub object: ObjectRef<Include>,
    /// Representations in descending caller preference.
    pub priority: Vec<IncludeMediaVersion>,
    /// A cached descriptor entity tag for a conditional query.
    pub etag: Option<String>,
    /// The repository-object version to request.
    pub version: Option<ObjectVersion>,
}

impl ObjectRef<Include> {
    /// A query for this Include's metadata in the V2 representation,
    /// unconditional and for no particular object version.
    pub fn query(&self) -> (r: IncludeQuery)
        ensures
            r.object@ == self@,
            r.priority@ == seq![IncludeMediaVersion::V2],
            r.etag is None,
            r.version is None,
    {
        IncludeQuery {
            object: self.clone(),
            priority: vec![IncludeMediaVersion::V2],
            etag: None,
            version: None,
        }
    }
}

impl IncludeQuery {
    /// Builds the Include request for an Include collection accepting
    /// `accepted`: `GET` of the Include, accepting the preferred
    /// representation, conditional on the cached entity tag where there is
    /// one and otherwise bypassing caches.
    pub fn request(&self, accepted: Option<&[String]>) -> (r: Result<AdtRequest, OperationError>)
        ensures
            match r {
                Ok(req) => {
                    &&& accepted matches Some(acc)
                    &&& first_accepted_include(self.priority@, acc@, 0) matches Some(k)
                    &&& req.method == HttpMethod::Get
                    &&& req.target@ == self.object@.1
                    &&& pairs_view(req.query@) == version_query(self.version)
                    &&& req.body@.len() == 0
                    &&& headers_view(req.headers@) == match self.etag {
                        Some(t) => seq![
                            ("accept"@, include_media_text(self.priority@[k])),
                            ("if-none-match"@, t@),
                        ],
                        None => seq![
                            ("accept"@, include_media_text(self.priority@[k])),
                            ("cache-control"@, "no-cache"@),
                        ],
                    }
                    &&& self.etag matches Some(t) ==> is_header_value(t@)
                },
                Err(OperationError::Response(ResponseError::Include(IncludeError::InvalidEntityTag(_)))) => {
                    &&& accepted matches Some(acc)
                    &&& first_accepted_include(self.priority@, acc@, 0) is Some
                    &&& self.etag matches Some(t) && !is_header_value(t@)
                },
                Err(OperationError::Response(ResponseError::Include(e))) => match accepted {
                    None => e is MissingCollection,
                    Some(acc) => first_accepted_include(self.priority@, acc@, 0) is None
                        && e is UnsupportedRepresentation,
                },
                Err(_) => false,
            },
    {
        let representation = match preferred_include_representation(self.priority.as_slice(), accepted) {
            Ok(v) => v,
            Err(e) => return Err(OperationError::Response(ResponseError::Include(e))),
        };
        let mut request = AdtRequest::new(HttpMethod::Get, self.object.uri().clone());
        match self.version {
            Some(v) => {
                request.push_query("version", v.as_str());
            },
            None => {},
        }
        assert(pairs_view(request.query@) =~= version_query(self.version));
        request.set_accept(representation.media_type());
        proof {
            reveal_strlit("accept");
            reveal_strlit("cache-control");
            reveal_strlit("if-none-match");
            assert(headers_view(request.headers@) =~= seq![("accept"@, include_media_text(representation))]);
        }
        match &self.etag {
            Some(t) => {
                let tag = match EntityTag::parse(t.as_str()) {
                    Ok(tag) => tag,
                    Err(e) => return Err(
                        OperationError::Response(ResponseError::Include(IncludeError::InvalidEntityTag(e))),
                    ),
                };
                request.set_cache_revalidation(Some(&tag));
            },
            None => {
                request.set_cache_revalidation(None);
            },
        }
        proof {
            let a = seq![("accept"@, include_media_text(representation))];
            assert(a.drop_last() =~= Seq::<(Seq<char>, Seq<char>)>::empty());
            assert(a.last().0.len() == 6);
            assert(crate::text::lower(a.last().0).len() == 6);
            assert(crate::text::lower("cache-control"@).len() == 13);
            assert(crate::text::lower("if-none-match"@).len() == 13);
            assert(!eq_ignore_case(a.last().0, "cache-control"@));
            assert(!eq_ignore_case(a.last().0, "if-none-match"@));
            assert(crate::protocol::without_header(a.drop_last(), "cache-control"@) =~= a.drop_last());
            assert(crate::protocol::without_header(a, "cache-control"@) =~= a);
            assert(crate::protocol::without_header(a.drop_last(), "if-none-match"@) =~= a.drop_last());
            assert(crate::protocol::without_header(a, "if-none-match"@) =~= a);
        }
        Ok(request)
    }

    /// Decides how an Include response is finished: `304 Not Modified`
    /// keeps the cache, anything but `200 OK` is refused with its status and
    /// body, and a `200 OK` must name a known representation in its content
    /// type.
    pub fn decode_head(&self, response: &AdtResponse) -> (r: Result<IncludeDecoding, ResponseError>)
        ensures
            response.status == 304 ==> (r matches Ok(IncludeDecoding::NotModified { etag }) && opt_view(
                etag,
            ) == first_header(headers_view(response.headers@), "etag"@)),
            response.status != 304 && response.status != 200 ==> (r matches Err(
                ResponseError::UnexpectedStatus { status, body },
            ) && status == response.status && body@ == utf8_lossy(response.body@)),
            response.status == 200 ==> match first_header(headers_view(response.headers@), "content-type"@) {
                None => r matches Err(ResponseError::Include(IncludeError::MissingContentType)),
                Some(ct) => match include_version_of(ct) {
                    None => r matches Err(ResponseError::Include(IncludeError::UnsupportedContentType { content_type }))
                        && content_type@ == ct,
                    Some(v) => r matches Ok(IncludeDecoding::Decode { version, etag }) && version == v
                        && opt_view(etag) == first_header(headers_view(response.headers@), "etag"@),
                },
            },
    {
        let etag = match response.header("etag") {
            Some(t) => Some(t.to_owned()),
            None => None,
        };
        if response.status == 304 {
            return Ok(IncludeDecoding::NotModified { etag });
        }
        match expect_ok(response) {
            Ok(()) => {},
            Err(e) => return Err(e),
        }
        let content_type = match response.header("content-type") {
            Some(ct) => ct,
            None => return Err(ResponseError::Include(IncludeError::MissingContentType)),
        };
        match IncludeMediaVersion::from_media_type(content_type) {
            None => Err(
                ResponseError::Include(
                    IncludeError::UnsupportedContentType { content_type: content_type.to_owned() },
                ),
            ),
            Some(version) => Ok(IncludeDecoding::Decode { version, etag }),
        }
    }

    /// Tags a descriptor decoded from a response body with its
    /// representation and the response's entity tag.
    pub fn finish<I>(&self, version: IncludeMediaVersion, descriptor: I, etag: Option<String>) -> (r: IncludeResponse<I>)
        ensures
            match version {
                IncludeMediaVersion::V2 => r matches IncludeResponse::V2(b) && b.descriptor == descriptor
                    && b.etag == etag,
            },
    {
        match version {
            IncludeMediaVersion::V2 => IncludeResponse::V2(Box::new(TaggedInclude { descriptor, etag })),
        }
    }
}

} // verus!
