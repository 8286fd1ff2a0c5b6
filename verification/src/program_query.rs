//! Fetching a program's metadata in a negotiated representation.
use vstd::prelude::*;

use crate::error::{OperationError, ProgramError, ResponseError};
use crate::object::expect_ok;
use crate::objects::{object_version_text, ObjectRef, ObjectVersion};
use crate::program::{Program, RawProgram};
use crate::protocol::{first_header, headers_view, is_header_value, AdtRequest, AdtResponse, EntityTag, HttpMethod};
use crate::std_specs::{lossy_text, utf8_lossy};
use crate::text::{
    before_first, before_first_exec, chars_of, clone_opt, eq_ignore_ascii_case, eq_ignore_case,
    opt_view, pairs_view, trim, trimmed,
};

verus! {

/// The essence of a media type: the text before its first `;`, trimmed.
pub open spec fn media_essence(s: Seq<char>) -> Seq<char> {
    trim(before_first(s, ';'))
}

pub(crate) fn media_essence_exec(s: &str) -> (r: Vec<char>)
    ensures
        r@ == media_essence(s@),
{
    let cs = chars_of(s);
    let head = before_first_exec(cs.as_slice(), ';');
    trimmed(head.as_slice())
}

/// The SAP media-type version of a program descriptor. Both versions are
/// decoded into the same [`Program`].
#[derive(Clone, Copy, Debug, PartialEq, Eq, Structural, Hash)]
pub enum ProgramMediaVersion {
    /// `application/vnd.sap.adt.programs.programs.v2+xml`.
    V2,
    /// `application/vnd.sap.adt.programs.programs.v3+xml`.
    V3,
}

/// The media type of a program representation.
pub open spec fn program_media_text(v: ProgramMediaVersion) -> Seq<char> {
    match v {
        ProgramMediaVersion::V2 => "application/vnd.sap.adt.programs.programs.v2+xml"@,
        ProgramMediaVersion::V3 => "application/vnd.sap.adt.programs.programs.v3+xml"@,
    }
}

/// The representation a content type names: its essence equals a
/// representation's media type, ignoring ASCII case.
pub open spec fn program_version_of(content_type: Seq<char>) -> Option<ProgramMediaVersion> {
    let e = media_essence(content_type);
    if eq_ignore_case(e, program_media_text(ProgramMediaVersion::V3)) {
        Some(ProgramMediaVersion::V3)
    } else if eq_ignore_case(e, program_media_text(ProgramMediaVersion::V2)) {
        Some(ProgramMediaVersion::V2)
    } else {
        None
    }
}

impl ProgramMediaVersion {
    /// Returns the representation's media type.
    pub fn media_type(self) -> (r: &'static str)
        ensures
            r@ == program_media_text(self),
    {
        match self {
            ProgramMediaVersion::V2 => "application/vnd.sap.adt.programs.programs.v2+xml",
            ProgramMediaVersion::V3 => "application/vnd.sap.adt.programs.programs.v3+xml",
        }
    }

    /// Recognizes the representation named by a content type.
    pub fn from_media_type(media_type: &str) -> (r: Option<Self>)
        ensures
            r == program_version_of(media_type@),
    {
        let essence = media_essence_exec(media_type);
        let v3 = chars_of(ProgramMediaVersion::V3.media_type());
        let v2 = chars_of(ProgramMediaVersion::V2.media_type());
        if eq_ignore_ascii_case(essence.as_slice(), v3.as_slice()) {
            Some(ProgramMediaVersion::V3)
        } else if eq_ignore_ascii_case(essence.as_slice(), v2.as_slice()) {
            Some(ProgramMediaVersion::V2)
        } else {
            None
        }
    }
}

/// Whether a collection that accepts `accepted` accepts the media type
/// `media`: some accepted type has it as essence, ignoring ASCII case.
pub open spec fn accepts_media(accepted: Seq<String>, media: Seq<char>) -> bool {
    exists|i: int| 0 <= i < accepted.len() && eq_ignore_case(media_essence(#[trigger] accepted[i]@), media)
}

/// The first representation of a preference list, from position `from` on,
/// that the collection accepts.
pub open spec fn first_accepted(priority: Seq<ProgramMediaVersion>, accepted: Seq<String>, from: int) -> Option<int>
    decreases priority.len() - from,
{
    if from < 0 || from >= priority.len() {
        None
    } else if accepts_media(accepted, program_media_text(priority[from])) {
        Some(from)
    } else {
        first_accepted(priority, accepted, from + 1)
    }
}

/// The views of a list of texts.
pub open spec fn texts_view(s: Seq<String>) -> Seq<Seq<char>> {
    s.map_values(|t: String| t@)
}

pub(crate) fn accepts_media_exec(accepted: &[String], media: &str) -> (r: bool)
    ensures
        r == accepts_media(accepted@, media@),
{
    let m = chars_of(media);
    let mut i: usize = 0;
    while i < accepted.len()
        invariant
            i <= accepted@.len(),
            m@ == media@,
            forall|j: int| 0 <= j < i ==> !eq_ignore_case(media_essence(#[trigger] accepted@[j]@), media@),
        decreases accepted.len() - i,
    {
        let e = media_essence_exec(accepted[i].as_str());
        if eq_ignore_ascii_case(e.as_slice(), m.as_slice()) {
            return true;
        }
        i += 1;
    }
    false
}

pub(crate) fn clone_texts(s: &[String]) -> (r: Vec<String>)
    ensures
        r@ == s@,
{
    let mut out: Vec<String> = Vec::new();
    let mut i: usize = 0;
    while i < s.len()
        invariant
            i <= s@.len(),
            out@ == s@.take(i as int),
        decreases s.len() - i,
    {
        out.push(s[i].clone());
        i += 1;
        assert(out@ =~= s@.take(i as int));
    }
    assert(s@.take(s@.len() as int) =~= s@);
    out
}

/// Chooses the first representation of the caller's preference that the
/// program collection accepts. Without a program collection there is none;
/// where none is accepted, both lists are reported.
pub fn preferred_representation(priority: &[ProgramMediaVersion], accepted: Option<&[String]>) -> (r: Result<ProgramMediaVersion, ProgramError>)
    ensures
        match accepted {
            None => r matches Err(ProgramError::MissingCollection),
            Some(acc) => match first_accepted(priority@, acc@, 0) {
                Some(k) => r == Ok::<ProgramMediaVersion, ProgramError>(priority@[k]),
                None => r matches Err(ProgramError::UnsupportedRepresentation { preferred, accepted: a }) && texts_view(
                    preferred@,
                ) == priority@.map_values(|v: ProgramMediaVersion| program_media_text(v)) && a@
                    == acc@,
            },
        },
{
    let acc = match accepted {
        None => return Err(ProgramError::MissingCollection),
        Some(acc) => acc,
    };
    let mut k: usize = 0;
    while k < priority.len()
        invariant
            k <= priority@.len(),
            accepted == Some(acc),
            first_accepted(priority@, acc@, 0) == first_accepted(priority@, acc@, k as int),
        decreases priority.len() - k,
    {
        if accepts_media_exec(acc, priority[k].media_type()) {
            assert(first_accepted(priority@, acc@, k as int) == Some(k as int));
            return Ok(priority[k]);
        }
        assert(first_accepted(priority@, acc@, k as int) == first_accepted(priority@, acc@, k as int + 1));
        k += 1;
    }
    assert(first_accepted(priority@, acc@, priority@.len() as int) is None);
    let mut preferred: Vec<String> = Vec::new();
    let mut j: usize = 0;
    while j < priority.len()
        invariant
            j <= priority@.len(),
            texts_view(preferred@) == priority@.take(j as int).map_values(
                |v: ProgramMediaVersion| program_media_text(v),
            ),
        decreases priority.len() - j,
    {
        let ghost before = texts_view(preferred@);
        let text = priority[j].media_type().to_owned();
        assert(text@ == program_media_text(priority@[j as int]));
        preferred.push(text);
        assert(texts_view(preferred@) =~= before.push(program_media_text(priority@[j as int])));
        assert(priority@.take(j as int + 1) =~= priority@.take(j as int).push(priority@[j as int]));
        j += 1;
        assert(texts_view(preferred@) =~= priority@.take(j as int).map_values(
            |v: ProgramMediaVersion| program_media_text(v),
        ));
    }
    assert(priority@.take(priority@.len() as int) =~= priority@);
    Err(ProgramError::UnsupportedRepresentation { preferred, accepted: clone_texts(acc) })
}

/// A program descriptor tagged with the media-type version SAP returned, or
/// the news that the cached descriptor is current.
#[derive(Debug)]
pub enum ProgramResponse {
    /// The cached entity tag still identifies the current descriptor.
    NotModified { etag: Option<String> },
    /// A V2 representation.
    V2(Program),
    /// A V3 representation.
    V3(Program),
}

impl ProgramResponse {
    /// Returns the representation's media-type version.
    pub fn media_version(&self) -> (r: Option<ProgramMediaVersion>)
        ensures
            r == match self {
                ProgramResponse::NotModified { .. } => None,
                ProgramResponse::V2(_) => Some(ProgramMediaVersion::V2),
                ProgramResponse::V3(_) => Some(ProgramMediaVersion::V3),
            },
    {
        match self {
            ProgramResponse::NotModified { .. } => None,
            ProgramResponse::V2(_) => Some(ProgramMediaVersion::V2),
            ProgramResponse::V3(_) => Some(ProgramMediaVersion::V3),
        }
    }

    /// Borrows the descriptor when it was modified.
    pub fn as_program(&self) -> (r: Option<&Program>)
        ensures
            match self {
                ProgramResponse::NotModified { .. } => r is None,
                ProgramResponse::V2(p) => r == Some(p),
                ProgramResponse::V3(p) => r == Some(p),
            },
    {
        match self {
            ProgramResponse::NotModified { .. } => None,
            ProgramResponse::V2(p) => Some(p),
            ProgramResponse::V3(p) => Some(p),
        }
    }

    /// Returns the descriptor when it was modified.
    pub fn into_program(self) -> (r: Option<Program>)
        ensures
            match self {
                ProgramResponse::NotModified { .. } => r is None,
                ProgramResponse::V2(p) => r == Some(p),
                ProgramResponse::V3(p) => r == Some(p),
            },
    {
        match self {
            ProgramResponse::NotModified { .. } => None,
            ProgramResponse::V2(p) => Some(p),
            ProgramResponse::V3(p) => Some(p),
        }
    }

    /// Returns the response's entity tag, when present.
    pub fn etag(&self) -> (r: Option<&str>)
        ensures
            match self {
                ProgramResponse::NotModified { etag } => r matches Some(t) ==> etag matches Some(e) && t@ == e@,
                ProgramResponse::V2(p) => r matches Some(t) ==> p.etag matches Some(e) && t@ == e@,
                ProgramResponse::V3(p) => r matches Some(t) ==> p.etag matches Some(e) && t@ == e@,
            },
            r is None <==> match self {
                ProgramResponse::NotModified { etag } => etag is None,
                ProgramResponse::V2(p) => p.etag is None,
                ProgramResponse::V3(p) => p.etag is None,
            },
    {
        let etag = match self {
            ProgramResponse::NotModified { etag } => etag,
            ProgramResponse::V2(p) => &p.etag,
            ProgramResponse::V3(p) => &p.etag,
        };
        match etag {
            Some(e) => Some(e.as_str()),
            None => None,
        }
    }
}

/// How a program response is to be finished: it is current, or its body is
/// to be decoded as the given representation.
#[derive(Debug)]
pub enum ProgramDecoding {
    /// The cached descriptor is current.
    NotModified { etag: Option<String> },
    /// The body holds a descriptor in this representation.
    Decode { version: ProgramMediaVersion, etag: Option<String> },
}

/// Fetches and validates the metadata representation of a program.
#[derive(Debug)]
pub struct ProgramQuery {
    /// The program resource to fetch.
    pub program: ObjectRef<crate::objects::Program>,
    /// Representations in descending caller preference.
    pub priority: Vec<ProgramMediaVersion>,
    /// A cached descriptor entity tag for a conditional query.
    pub etag: Option<String>,
    /// The repository-object version to request.
    pub version: Option<ObjectVersion>,
}

impl ObjectRef<crate::objects::Program> {
    /// A query for this program's metadata, preferring V3 over V2,
    /// unconditional and for no particular object version.
    pub fn query(&self) -> (r: ProgramQuery)
        ensures
            r.program@ == self@,
            r.priority@ == seq![ProgramMediaVersion::V3, ProgramMediaVersion::V2],
            r.etag is None,
            r.version is None,
    {
        ProgramQuery {
            program: self.clone(),
            priority: vec![ProgramMediaVersion::V3, ProgramMediaVersion::V2],
            etag: None,
            version: None,
        }
    }
}

/// The `version` query of a program request.
pub open spec fn version_query(v: Option<ObjectVersion>) -> Seq<(Seq<char>, Seq<char>)> {
    match v {
        Some(v) => seq![("version"@, object_version_text(v))],
        None => Seq::empty(),
    }
}

impl ProgramQuery {
    /// Builds the program request for a program collection accepting
    /// `accepted`: `GET` of the program, accepting the preferred
    /// representation, conditional on the cached entity tag where there is
    /// one and otherwise bypassing caches.
    pub fn request(&self, accepted: Option<&[String]>) -> (r: Result<AdtRequest, OperationError>)
        ensures
            match r {
                Ok(req) => {
                    &&& accepted matches Some(acc)
                    &&& first_accepted(self.priority@, acc@, 0) matches Some(k)
                    &&& req.method == HttpMethod::Get
                    &&& req.target@ == self.program@.1
                    &&& pairs_view(req.query@) == version_query(self.version)
                    &&& req.body@.len() == 0
                    &&& headers_view(req.headers@) == match self.etag {
                        Some(t) => seq![
                            ("accept"@, program_media_text(self.priority@[k])),
                            ("if-none-match"@, t@),
                        ],
                        None => seq![
                            ("accept"@, program_media_text(self.priority@[k])),
                            ("cache-control"@, "no-cache"@),
                        ],
                    }
                    &&& self.etag matches Some(t) ==> is_header_value(t@)
                },
                Err(OperationError::Response(ResponseError::Program(ProgramError::InvalidEntityTag(_)))) => {
                    &&& accepted matches Some(acc)
                    &&& first_accepted(self.priority@, acc@, 0) is Some
                    &&& self.etag matches Some(t) && !is_header_value(t@)
                },
                Err(OperationError::Response(ResponseError::Program(e))) => match accepted {
                    None => e is MissingCollection,
                    Some(acc) => first_accepted(self.priority@, acc@, 0) is None
                        && e is UnsupportedRepresentation,
                },
                Err(_) => false,
            },
    {
        let representation = match preferred_representation(self.priority.as_slice(), accepted) {
            Ok(v) => v,
            Err(e) => return Err(OperationError::Response(ResponseError::Program(e))),
        };
        let ghost k = first_accepted(self.priority@, accepted.unwrap()@, 0).unwrap();
        let mut request = AdtRequest::new(HttpMethod::Get, self.program.uri().clone());
        match self.version {
            Some(v) => {
                request.push_query("version", v.as_str());
            },
            None => {},
        }
        assert(pairs_view(request.query@) =~= version_query(self.version));
        request.set_accept(representation.media_type());
        proof {
            reveal_strlit("accept");
            reveal_strlit("cache-control");
            reveal_strlit("if-none-match");
            assert(headers_view(request.headers@) =~= seq![("accept"@, program_media_text(representation))]);
        }
        match &self.etag {
            Some(t) => {
                let tag = match EntityTag::parse(t.as_str()) {
                    Ok(tag) => tag,
                    Err(e) => return Err(
                        OperationError::Response(ResponseError::Program(ProgramError::InvalidEntityTag(e))),
                    ),
                };
                request.set_cache_revalidation(Some(&tag));
            },
            None => {
                request.set_cache_revalidation(None);
            },
        }
        proof {
            let a = seq![("accept"@, program_media_text(representation))];
            assert(a.drop_last() =~= Seq::<(Seq<char>, Seq<char>)>::empty());
            assert(a.last().0.len() == 6);
            assert(crate::text::lower(a.last().0).len() == 6);
            assert(crate::text::lower("cache-control"@).len() == 13);
            assert(crate::text::lower("if-none-match"@).len() == 13);
            assert(!eq_ignore_case(a.last().0, "cache-control"@));
            assert(!eq_ignore_case(a.last().0, "if-none-match"@));
            assert(crate::protocol::without_header(a.drop_last(), "cache-control"@) =~= a.drop_last());
            assert(crate::protocol::without_header(a, "cache-control"@) =~= a);
            assert(crate::protocol::without_header(a.drop_last(), "if-none-match"@) =~= a.drop_last());
            assert(crate::protocol::without_header(a, "if-none-match"@) =~= a);
        }
        Ok(request)
    }

    /// Decides how a program response is finished: `304 Not Modified` keeps
    /// the cache, anything but `200 OK` is refused with its status and body,
    /// and a `200 OK` must name a known representation in its content type.
    pub fn decode_head(&self, response: &AdtResponse) -> (r: Result<ProgramDecoding, ResponseError>)
        ensures
            response.status == 304 ==> (r matches Ok(ProgramDecoding::NotModified { etag }) && opt_view(
                etag,
            ) == first_header(headers_view(response.headers@), "etag"@)),
            response.status != 304 && response.status != 200 ==> (r matches Err(
                ResponseError::UnexpectedStatus { status, body },
            ) && status == response.status && body@ == utf8_lossy(response.body@)),
            response.status == 200 ==> match first_header(headers_view(response.headers@), "content-type"@) {
                None => r matches Err(ResponseError::Program(ProgramError::MissingContentType)),
                Some(ct) => match program_version_of(ct) {
                    None => r matches Err(ResponseError::Program(ProgramError::UnsupportedContentType { content_type }))
                        && content_type@ == ct,
                    Some(v) => r matches Ok(ProgramDecoding::Decode { version, etag }) && version == v
                        && opt_view(etag) == first_header(headers_view(response.headers@), "etag"@),
                },
            },
    {
        let etag = match response.header("etag") {
            Some(t) => Some(t.to_owned()),
            None => None,
        };
        if response.status == 304 {
            return Ok(ProgramDecoding::NotModified { etag });
        }
        match expect_ok(response) {
            Ok(()) => {},
            Err(e) => return Err(e),
        }
        let content_type = match response.header("content-type") {
            Some(ct) => ct,
            None => return Err(ResponseError::Program(ProgramError::MissingContentType)),
        };
        match ProgramMediaVersion::from_media_type(content_type) {
            None => Err(
                ResponseError::Program(
                    ProgramError::UnsupportedContentType { content_type: content_type.to_owned() },
                ),
            ),
            Some(version) => Ok(ProgramDecoding::Decode { version, etag }),
        }
    }

    /// Finishes a program response whose body was decoded into `raw`: the
    /// descriptor is validated against this query's program and tagged with
    /// its representation.
    pub fn finish(&self, version: ProgramMediaVersion, raw: RawProgram, etag: Option<String>) -> (r: Result<ProgramResponse, ResponseError>)
        ensures
            match r {
                Ok(ProgramResponse::V2(p)) => version == ProgramMediaVersion::V2 && p.reference@
                    == self.program@ && crate::program::program_failure(self.program@.1, raw) is None,
                Ok(ProgramResponse::V3(p)) => version == ProgramMediaVersion::V3 && p.reference@
                    == self.program@ && crate::program::program_failure(self.program@.1, raw) is None,
                Ok(ProgramResponse::NotModified { .. }) => false,
                Err(ResponseError::Program(e)) => e.failure() is Some && crate::program::program_failure(
                    self.program@.1,
                    raw,
                ) == e.failure(),
                Err(_) => false,
            },
    {
        match Program::from_raw(self.program.clone(), raw, etag) {
            Ok(p) => match version {
                ProgramMediaVersion::V2 => Ok(ProgramResponse::V2(p)),
                ProgramMediaVersion::V3 => Ok(ProgramResponse::V3(p)),
            },
            Err(e) => Err(ResponseError::Program(e)),
        }
    }
}

} // verus!
