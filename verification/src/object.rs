//! Object locks and source reads and writes.
use vstd::prelude::*;
use vstd::string::StringExecFns;

use crate::error::{ObjectError, ResponseError};
use crate::objects::ObjectRef;
use crate::protocol::{first_header, headers_view, AdtRequest, AdtResponse, HttpMethod};
use crate::resource::{same_source, SourceRef};
use crate::std_specs::{lossy_text, utf8_lossy, utf8_text};
use crate::text::{clone_opt, opt_view, pairs_view};

verus! {

/// The media type of an object-lock result.
pub open spec fn lock_result_media_type() -> Seq<char> {
    "application/vnd.sap.as+xml; charset=utf-8; dataname=com.sap.adt.lock.Result2"@
}

/// The media type of a source update.
pub open spec fn source_media_type() -> Seq<char> {
    "text/plain; charset=utf-8"@
}

/// Fails with the status and body of any response other than `200 OK`.
pub fn expect_ok(response: &AdtResponse) -> (r: Result<(), ResponseError>)
    ensures
        response.status == 200 <==> r is Ok,
        r matches Err(ResponseError::UnexpectedStatus { status, body }) ==> status
            == response.status && body@ == utf8_lossy(response.body@),
        r is Err ==> r matches Err(ResponseError::UnexpectedStatus { .. }),
{
    if response.status == 200 {
        Ok(())
    } else {
        Err(
            ResponseError::UnexpectedStatus {
                status: response.status,
                body: lossy_text(response.body.as_slice()),
            },
        )
    }
}

/// The access requested when locking an ADT repository object.
#[derive(Clone, Copy, Debug, PartialEq, Eq, Structural)]
pub enum AccessMode {
    /// Locks the object for read-only display.
    Show,
    /// Locks the object for modification.
    Modify,
}

/// The `accessMode` value of an access mode.
pub open spec fn access_mode_text(m: AccessMode) -> Seq<char> {
    match m {
        AccessMode::Show => "SHOW"@,
        AccessMode::Modify => "MODIFY"@,
    }
}

impl AccessMode {
    /// Returns the `accessMode` query value.
    pub fn as_str(self) -> (r: &'static str)
        ensures
            r@ == access_mode_text(self),
    {
        match self {
            AccessMode::Show => "SHOW",
            AccessMode::Modify => "MODIFY",
        }
    }
}

/// An opaque lock obtained for one object in a specific SAP user session.
///
/// The handle is bound to the object it was issued for; a handle string
/// alone is not sufficient to update another resource.
#[derive(Debug)]
pub struct LockHandle {
    /// The locked object.
    pub object: ObjectRef,
    /// The opaque handle supplied by SAP.
    pub handle: String,
}

impl LockHandle {
    /// Binds an opaque handle to the object it locks.
    pub fn new(object: ObjectRef, handle: String) -> (r: Self)
        ensures
            r.object == object,
            r.handle == handle,
    {
        LockHandle { object, handle }
    }

    /// Returns the object this lock belongs to.
    pub fn object(&self) -> (r: &ObjectRef)
        ensures
            *r == self.object,
    {
        &self.object
    }

    /// Returns the opaque handle supplied by SAP.
    pub fn handle(&self) -> (r: &str)
        ensures
            r@ == self.handle@,
    {
        self.handle.as_str()
    }

    /// Consumes this handle and creates an operation that removes the lock;
    /// equivalent to unlocking the lock's own object.
    pub fn remove(self) -> (r: ObjectUnlock)
        ensures
            r.lock_handle == self,
    {
        ObjectUnlock { lock_handle: self }
    }
}

impl Clone for LockHandle {
    fn clone(&self) -> (r: Self)
        ensures
            r.object@ == self.object@,
            r.handle == self.handle,
    {
        LockHandle { object: self.object.clone(), handle: self.handle.clone() }
    }
}

impl PartialEq for LockHandle {
    fn eq(&self, other: &Self) -> (r: bool) {
        self.object == other.object && self.handle == other.handle
    }
}

impl vstd::std_specs::cmp::PartialEqSpecImpl for LockHandle {
    open spec fn obeys_eq_spec() -> bool {
        true
    }

    open spec fn eq_spec(&self, other: &Self) -> bool {
        self.object@.1 == other.object@.1 && self.handle@ == other.handle@
    }
}

impl Eq for LockHandle {}

/// Locks a repository object within a user session: `POST` with
/// `_action=LOCK` and the requested `accessMode`.
#[derive(Debug)]
pub struct ObjectLock {
    /// The repository object to lock.
    pub object: ObjectRef,
    /// Whether the object is locked for display or modification.
    pub access_mode: AccessMode,
}

impl ObjectLock {
    /// Builds the lock request.
    pub fn request(&self) -> (r: AdtRequest)
        ensures
            r.method == HttpMethod::Post,
            r.target@ == self.object@.1,
            pairs_view(r.query@) == seq![
                ("_action"@, "LOCK"@),
                ("accessMode"@, access_mode_text(self.access_mode)),
            ],
            headers_view(r.headers@) == seq![("accept"@, lock_result_media_type())],
            r.body@.len() == 0,
    {
        let mut request = AdtRequest::new(HttpMethod::Post, self.object.uri().clone());
        request.push_query("_action", "LOCK");
        request.push_query("accessMode", self.access_mode.as_str());
        request.set_accept("application/vnd.sap.as+xml; charset=utf-8; dataname=com.sap.adt.lock.Result2");
        assert(pairs_view(request.query@) =~= seq![
            ("_action"@, "LOCK"@),
            ("accessMode"@, access_mode_text(self.access_mode)),
        ]);
        proof {
            reveal_strlit("accept");
        }
        assert(headers_view(request.headers@) =~= seq![("accept"@, lock_result_media_type())]);
        request
    }

    /// Binds the lock handle decoded from a successful response to the
    /// locked object; an absent or empty handle is refused.
    pub fn lock_handle(&self, handle: Option<String>) -> (r: Result<LockHandle, ObjectError>)
        ensures
            match handle {
                Some(h) => if h@.len() > 0 {
                    r matches Ok(l) && l.object@ == self.object@ && l.handle == h
                } else {
                    r matches Err(ObjectError::MissingLockHandle)
                },
                None => r matches Err(ObjectError::MissingLockHandle),
            },
    {
        match handle {
            Some(h) => if h.as_str().is_empty() {
                Err(ObjectError::MissingLockHandle)
            } else {
                Ok(LockHandle { object: self.object.clone(), handle: h })
            },
            None => Err(ObjectError::MissingLockHandle),
        }
    }
}

/// Releases a [`LockHandle`] within its SAP user session.
#[derive(Debug)]
pub struct ObjectUnlock {
    /// The lock to release.
    pub lock_handle: LockHandle,
}

impl ObjectUnlock {
    /// Builds the unlock request: `POST` with `_action=UNLOCK` and the handle.
    pub fn request(&self) -> (r: AdtRequest)
        ensures
            r.method == HttpMethod::Post,
            r.target@ == self.lock_handle.object@.1,
            pairs_view(r.query@) == seq![
                ("_action"@, "UNLOCK"@),
                ("lockHandle"@, self.lock_handle.handle@),
            ],
            r.headers@.len() == 0,
            r.body@.len() == 0,
    {
        let mut request = AdtRequest::new(
            HttpMethod::Post,
            self.lock_handle.object.uri().clone(),
        );
        request.push_query("_action", "UNLOCK");
        request.push_query("lockHandle", self.lock_handle.handle.as_str());
        assert(pairs_view(request.query@) =~= seq![
            ("_action"@, "UNLOCK"@),
            ("lockHandle"@, self.lock_handle.handle@),
        ]);
        request
    }
}

/// A fetched source representation and its attached metadata.
#[derive(Debug)]
pub struct SourceCode {
    /// The source resource that was fetched.
    pub reference: SourceRef,
    /// The complete UTF-8 source text.
    pub content: String,
    /// The response entity tag supplied by SAP, when present.
    pub etag: Option<String>,
}

/// Fetches the source code of a [`SourceRef`].
#[derive(Debug)]
pub struct ObjectSourceQuery {
    /// The source resource to fetch.
    pub source: SourceRef,
}

/// Whether a header value is visible ASCII text.
pub open spec fn visible(s: Seq<char>) -> bool {
    crate::operation::visible_header_text(s)
}

impl ObjectSourceQuery {
    /// Builds the source request: `GET` accepting `text/plain`.
    pub fn request(&self) -> (r: AdtRequest)
        ensures
            r.method == HttpMethod::Get,
            r.target@ == self.source.uri@,
            r.query@.len() == 0,
            headers_view(r.headers@) == seq![("accept"@, "text/plain"@)],
            r.body@.len() == 0,
    {
        let mut request = AdtRequest::new(HttpMethod::Get, self.source.uri.clone());
        request.set_accept("text/plain");
        proof {
            reveal_strlit("accept");
        }
        assert(headers_view(request.headers@) =~= seq![("accept"@, "text/plain"@)]);
        request
    }

    /// Decodes a source response: it must be `200 OK` and UTF-8; its entity
    /// tag is kept when it is visible text.
    pub fn decode(&self, response: AdtResponse) -> (r: Result<SourceCode, ResponseError>)
        ensures
            response.status != 200 ==> (r matches Err(ResponseError::UnexpectedStatus { status, body })
                && status == response.status && body@ == utf8_lossy(response.body@)),
            response.status == 200 && !vstd::utf8::valid_utf8(response.body@) ==> r matches Err(
                ResponseError::Object(ObjectError::InvalidSourceEncoding),
            ),
            response.status == 200 && vstd::utf8::valid_utf8(response.body@) ==> (r matches Ok(s)
                && s.content@ == vstd::utf8::decode_utf8(response.body@) && s.reference.uri@
                == self.source.uri@ && s.reference.object@ == self.source.object@
                && opt_view(s.etag) == match first_header(headers_view(response.headers@), "etag"@) {
                    Some(t) => if visible(t) {
                        Some(t)
                    } else {
                        None
                    },
                    None => None,
                }),
    {
        match expect_ok(&response) {
            Ok(()) => {},
            Err(e) => return Err(e),
        }
        let etag = match response.header("etag") {
            Some(t) => if crate::operation::visible_text_of(t) {
                Some(t.to_owned())
            } else {
                None
            },
            None => None,
        };
        let content = match utf8_text(response.body.as_slice()) {
            Some(c) => c,
            None => return Err(ResponseError::Object(ObjectError::InvalidSourceEncoding)),
        };
        Ok(SourceCode { reference: self.source.clone(), content, etag })
    }
}

/// Replaces the complete source code of an object under a lock obtained for
/// that object.
#[derive(Debug)]
pub struct ObjectSourceUpdate {
    /// The source resource whose complete content will be replaced.
    pub source: SourceRef,
    /// A modification lock obtained for the source's owning object.
    pub lock_handle: LockHandle,
    /// The complete replacement source text.
    pub content: String,
}

/// Why an [`ObjectSourceUpdate`] could not be built.
#[derive(Debug)]
pub enum ObjectSourceUpdateBuilderError {
    /// A required field was not set.
    UninitializedField(&'static str),
    /// The lock belongs to another object than the source.
    ValidationError(String),
}

/// Why a lock for the object at `lock_object` cannot update the source at
/// `source`.
pub open spec fn lock_mismatch_message(lock_object: Seq<char>, source: Seq<char>) -> Seq<char> {
    "lock for `"@ + lock_object + "` cannot update source `"@ + source + "`"@
}

/// Builds an [`ObjectSourceUpdate`], checking that the lock belongs to the
/// source's owning object.
#[derive(Debug, Default)]
pub struct ObjectSourceUpdateBuilder {
    pub source: Option<SourceRef>,
    pub lock_handle: Option<LockHandle>,
    pub content: Option<String>,
}

impl ObjectSourceUpdateBuilder {
    /// Sets the source to replace.
    pub fn source(self, source: SourceRef) -> (r: Self)
        ensures
            r.source == Some(source),
            r.lock_handle == self.lock_handle,
            r.content == self.content,
    {
        ObjectSourceUpdateBuilder { source: Some(source), lock_handle: self.lock_handle, content: self.content }
    }

    /// Sets the lock that authorizes the update.
    pub fn lock_handle(self, lock_handle: LockHandle) -> (r: Self)
        ensures
            r.source == self.source,
            r.lock_handle == Some(lock_handle),
            r.content == self.content,
    {
        ObjectSourceUpdateBuilder { source: self.source, lock_handle: Some(lock_handle), content: self.content }
    }

    /// Sets the replacement source text.
    pub fn content(self, content: &str) -> (r: Self)
        ensures
            r.source == self.source,
            r.lock_handle == self.lock_handle,
            r.content matches Some(c) && c@ == content@,
    {
        ObjectSourceUpdateBuilder {
            source: self.source,
            lock_handle: self.lock_handle,
            content: Some(content.to_owned()),
        }
    }

    /// Checks that a lock, where both it and the source are set, belongs to
    /// the source's owning object.
    fn validate(&self) -> (r: Result<(), String>)
        ensures
            match (self.source, self.lock_handle) {
                (Some(s), Some(l)) => if s.object@.1 == l.object@.1 {
                    r is Ok
                } else {
                    r matches Err(m) && m@ == lock_mismatch_message(l.object@.1, s.uri@)
                },
                _ => r is Ok,
            },
    {
        if let (Some(source), Some(lock)) = (&self.source, &self.lock_handle) {
            if !(source.object == lock.object) {
                let mut message = String::new();
                message.append("lock for `");
                message.append(lock.object.uri().as_str());
                message.append("` cannot update source `");
                message.append(source.uri.as_str());
                message.append("`");
                assert(message@ =~= lock_mismatch_message(lock.object@.1, source.uri@));
                return Err(message);
            }
        }
        Ok(())
    }

    /// Builds the update; a lock for another object than the source's owner
    /// is refused, as is a missing field.
    pub fn build(self) -> (r: Result<ObjectSourceUpdate, ObjectSourceUpdateBuilderError>)
        ensures
            match (self.source, self.lock_handle, self.content) {
                (Some(s), Some(l), Some(c)) => if s.object@.1 == l.object@.1 {
                    r matches Ok(u) && u.source == s && u.lock_handle == l && u.content == c
                } else {
                    r matches Err(ObjectSourceUpdateBuilderError::ValidationError(m)) && m@
                        == lock_mismatch_message(l.object@.1, s.uri@)
                },
                (Some(s), Some(l), None) => if s.object@.1 == l.object@.1 {
                    r matches Err(ObjectSourceUpdateBuilderError::UninitializedField(f)) && f@
                        == "content"@
                } else {
                    r matches Err(ObjectSourceUpdateBuilderError::ValidationError(m)) && m@
                        == lock_mismatch_message(l.object@.1, s.uri@)
                },
                (None, _, _) => r matches Err(ObjectSourceUpdateBuilderError::UninitializedField(f))
                    && f@ == "source"@,
                (Some(_), None, _) => r matches Err(
                    ObjectSourceUpdateBuilderError::UninitializedField(f),
                ) && f@ == "lock_handle"@,
            },
    {
        match self.validate() {
            Ok(()) => {},
            Err(message) => return Err(ObjectSourceUpdateBuilderError::ValidationError(message)),
        }
        let source = match self.source {
            Some(s) => s,
            None => return Err(ObjectSourceUpdateBuilderError::UninitializedField("source")),
        };
        let lock_handle = match self.lock_handle {
            Some(l) => l,
            None => return Err(ObjectSourceUpdateBuilderError::UninitializedField("lock_handle")),
        };
        let content = match self.content {
            Some(c) => c,
            None => return Err(ObjectSourceUpdateBuilderError::UninitializedField("content")),
        };
        Ok(ObjectSourceUpdate { source, lock_handle, content })
    }
}

impl ObjectSourceUpdate {
    /// Builds the update request: `PUT` of the UTF-8 content with the lock
    /// handle as `lockHandle`.
    pub fn request(&self) -> (r: AdtRequest)
        ensures
            r.method == HttpMethod::Put,
            r.target@ == self.source.uri@,
            pairs_view(r.query@) == seq![("lockHandle"@, self.lock_handle.handle@)],
            headers_view(r.headers@) == seq![("content-type"@, source_media_type())],
            r.body@ == vstd::utf8::encode_utf8(self.content@),
    {
        let mut request = AdtRequest::new(HttpMethod::Put, self.source.uri.clone());
        request.push_query("lockHandle", self.lock_handle.handle.as_str());
        request.set_content_type("text/plain; charset=utf-8");
        let mut body: Vec<u8> = Vec::new();
        let bytes = self.content.as_str().as_bytes();
        let mut i: usize = 0;
        while i < bytes.len()
            invariant
                i <= bytes.len(),
                body@ == bytes@.take(i as int),
            decreases bytes.len() - i,
        {
            body.push(bytes[i]);
            i += 1;
            assert(body@ =~= bytes@.take(i as int));
        }
        assert(bytes@.take(bytes.len() as int) =~= bytes@);
        request.set_body(body);
        assert(pairs_view(request.query@) =~= seq![("lockHandle"@, self.lock_handle.handle@)]);
        proof {
            reveal_strlit("content-type");
        }
        assert(headers_view(request.headers@) =~= seq![("content-type"@, source_media_type())]);
        request
    }
}

impl<T> ObjectRef<T> {
    /// Creates an operation that locks this object with the requested access.
    pub fn lock(&self, access_mode: AccessMode) -> (r: ObjectLock)
        ensures
            r.object@ == self@,
            r.access_mode == access_mode,
    {
        ObjectLock { object: self.erase(), access_mode }
    }

    /// Creates an operation that releases a lock obtained for this object;
    /// a lock for another object is refused before any request is made.
    pub fn unlock(&self, lock_handle: LockHandle) -> (r: Result<ObjectUnlock, ObjectError>)
        ensures
            self@.1 == lock_handle.object@.1 ==> (r matches Ok(u) && u.lock_handle == lock_handle),
            self@.1 != lock_handle.object@.1 ==> (r matches Err(
                ObjectError::LockHandleObjectMismatch { expected, actual },
            ) && expected@ == self@.1 && actual@ == lock_handle.object@.1),
    {
        if self.uri() != lock_handle.object.uri() {
            return Err(
                ObjectError::LockHandleObjectMismatch {
                    expected: self.uri().as_str().to_owned(),
                    actual: lock_handle.object.uri().as_str().to_owned(),
                },
            );
        }
        Ok(ObjectUnlock { lock_handle })
    }
}

impl SourceRef {
    /// Creates a stateless query for this source representation.
    pub fn query(&self) -> (r: ObjectSourceQuery)
        ensures
            same_source(r.source, *self),
    {
        ObjectSourceQuery { source: self.clone() }
    }

    /// Creates an update builder pre-populated with this source resource.
    pub fn update(&self) -> (r: ObjectSourceUpdateBuilder)
        ensures
            r.source matches Some(s) && same_source(s, *self),
            r.lock_handle is None,
            r.content is None,
    {
        ObjectSourceUpdateBuilder { source: Some(self.clone()), lock_handle: None, content: None }
    }
}

} // verus!
