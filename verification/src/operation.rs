//! Operation kinds, cache-validated query modes and the user-session state
//! that stateful operations carry.
use vstd::prelude::*;
use vstd::string::StringExecFns;

use crate::error::TransportError;
use crate::protocol::{
    headers_view, is_header_value, without_header, AdtRequest, EntityTag, HttpMethod,
    InvalidHeaderValue,
};
use crate::uri::AdtUri;
use crate::sealed::Sealed;
use crate::text::{chars_of, eq_ignore_ascii_case, eq_ignore_case, lower, opt_view};

verus! {

/// Identifies whether an ADT operation is [`Stateless`] or [`Stateful`].
///
/// Stateful operations execute within a user session retained across
/// requests, identified by the `sap-contextid` cookie.
pub trait OperationKind: Sealed {}

/// An operation that does not require a persistent ABAP user session.
#[derive(Debug)]
pub struct Stateless;

/// An operation that requires a persistent ABAP user session.
#[derive(Debug)]
pub struct Stateful;

impl Sealed for Stateless {}

impl Sealed for Stateful {}

impl OperationKind for Stateless {}

impl OperationKind for Stateful {}

/// The outcome of a request using a cache validator such as `If-None-Match`.
#[derive(Debug)]
pub enum Conditional<T> {
    /// The resource changed and a new representation was returned.
    Modified(T),
    /// The supplied validator still identifies the current representation.
    NotModified { etag: Option<EntityTag> },
}

impl<T> Conditional<T> {
    /// Borrows the returned representation when the resource was modified.
    pub fn as_modified(&self) -> (r: Option<&T>)
        ensures
            match self {
                Conditional::Modified(v) => r == Some(v),
                Conditional::NotModified { .. } => r is None,
            },
    {
        match self {
            Conditional::Modified(value) => Some(value),
            Conditional::NotModified { .. } => None,
        }
    }

    /// Consumes the outcome and returns the representation when modified.
    pub fn into_modified(self) -> (r: Option<T>)
        ensures
            match self {
                Conditional::Modified(v) => r == Some(v),
                Conditional::NotModified { .. } => r is None,
            },
    {
        match self {
            Conditional::Modified(value) => Some(value),
            Conditional::NotModified { .. } => None,
        }
    }

    /// Returns the entity tag supplied with a not-modified response.
    pub fn not_modified_etag(&self) -> (r: Option<&str>)
        ensures
            match self {
                Conditional::Modified(_) => r is None,
                Conditional::NotModified { etag: None } => r is None,
                Conditional::NotModified { etag: Some(t) } => r matches Some(s) && s@ == t@,
            },
    {
        match self {
            Conditional::Modified(_) => None,
            Conditional::NotModified { etag } => match etag {
                Some(t) => Some(t.as_str()),
                None => None,
            },
        }
    }
}

/// Marker for a query without an HTTP cache validator.
#[derive(Clone, Copy, Debug, Default)]
pub struct Unconditional;

/// Marker for a query carrying an `If-None-Match` validator.
#[derive(Debug)]
pub struct IfNoneMatch {
    /// The entity tag sent as validator.
    pub etag: EntityTag,
}

impl Sealed for Unconditional {}

impl Sealed for IfNoneMatch {}

impl Unconditional {
    /// The validator sent with the query: none.
    pub fn if_none_match(&self) -> (r: Option<&EntityTag>)
        ensures
            r is None,
    {
        None
    }

    /// The response to a modified resource: the value itself.
    pub fn modified<V>(&self, value: V) -> (r: V)
        ensures
            r == value,
    {
        value
    }

    /// The response to an unchanged resource: none, since nothing was validated.
    pub fn not_modified<V>(&self, etag: Option<EntityTag>) -> (r: Option<V>)
        ensures
            r is None,
    {
        None
    }
}

impl IfNoneMatch {
    /// The validator sent with the query.
    pub fn if_none_match(&self) -> (r: Option<&EntityTag>)
        ensures
            r == Some(&self.etag),
    {
        Some(&self.etag)
    }

    /// The response to a modified resource.
    pub fn modified<V>(&self, value: V) -> (r: Conditional<V>)
        ensures
            r == Conditional::Modified(value),
    {
        Conditional::Modified(value)
    }

    /// The response to an unchanged resource.
    pub fn not_modified<V>(&self, etag: Option<EntityTag>) -> (r: Option<Conditional<V>>)
        ensures
            r == Some(Conditional::<V>::NotModified { etag }),
    {
        Some(Conditional::NotModified { etag })
    }
}

/// The parts of a `Set-Cookie` header that the session reads: the cookie's
/// name, its value with one pair of surrounding double quotes removed, and
/// its `Max-Age` in whole seconds.
pub struct CookieParts {
    pub name: String,
    pub value: String,
    pub max_age: Option<i64>,
}

/// What `cookie::Cookie::parse` reads from a `Set-Cookie` value: name, value
/// without surrounding double quotes (`value_trimmed`) and `Max-Age` seconds,
/// or `None` when it does not parse.
pub uninterp spec fn set_cookie_parts(header: Seq<char>) -> Option<(Seq<char>, Seq<char>, Option<i64>)>;

/// `cookie::Cookie::parse`, `Cookie::name`, `Cookie::value_trimmed` and
/// `Cookie::max_age` (as `time::Duration::whole_seconds`): the parts named by
/// [`set_cookie_parts`].
#[verifier::external_body]
fn parse_set_cookie(header: &str) -> (r: Option<CookieParts>)
    ensures
        match r {
            Some(p) => set_cookie_parts(header@) == Some((p.name@, p.value@, p.max_age)),
            None => set_cookie_parts(header@) is None,
        },
{
    let cookie = cookie::Cookie::parse(header.to_owned()).ok()?;
    Some(CookieParts {
        name: cookie.name().to_owned(),
        value: cookie.value_trimmed().to_owned(),
        max_age: cookie.max_age().map(|age| age.whole_seconds()),
    })
}

/// Whether a header value is visible ASCII text, as `HeaderValue::to_str` requires.
pub open spec fn visible_header_text(s: Seq<char>) -> bool {
    forall|i: int| 0 <= i < s.len() ==> ((' ' <= #[trigger] s[i] && s[i] <= '~') || s[i] == '\t')
}

/// Whether a header value is visible ASCII text.
pub fn visible_text_of(s: &str) -> (r: bool)
    ensures
        r == visible_header_text(s@),
{
    let cs = chars_of(s);
    let mut i: usize = 0;
    while i < cs.len()
        invariant
            i <= cs.len(),
            cs@ == s@,
            forall|k: int| 0 <= k < i ==> ((' ' <= #[trigger] cs@[k] && cs@[k] <= '~') || cs@[k] == '\t'),
        decreases cs.len() - i,
    {
        let c = cs[i];
        if !((' ' <= c && c <= '~') || c == '\t') {
            return false;
        }
        i += 1;
    }
    true
}

/// The user-session context after one response header: a `Set-Cookie` for
/// `sap-contextid` sets the context, or discards it when its value is empty
/// or its `Max-Age` is not positive; other headers leave it unchanged.
pub open spec fn context_after_header(
    context: Option<Seq<char>>,
    header: (Seq<char>, Seq<char>),
) -> Option<Seq<char>> {
    if !eq_ignore_case(header.0, "set-cookie"@) || !visible_header_text(header.1) {
        context
    } else {
        match set_cookie_parts(header.1) {
            None => context,
            Some((name, value, max_age)) => if !eq_ignore_case(name, "sap-contextid"@) {
                context
            } else if value.len() == 0 || (max_age matches Some(s) && s <= 0) {
                None
            } else {
                Some(value)
            },
        }
    }
}

/// The user-session context after all headers of a response, in order.
pub open spec fn context_after(
    context: Option<Seq<char>>,
    headers: Seq<(Seq<char>, Seq<char>)>,
) -> Option<Seq<char>>
    decreases headers.len(),
{
    if headers.len() == 0 {
        context
    } else {
        context_after_header(context_after(context, headers.drop_last()), headers.last())
    }
}

/// The `Cookie` header value that carries a user-session context.
pub open spec fn context_cookie(id: Seq<char>) -> Seq<char> {
    "sap-contextid="@ + id
}

/// The state of one SAP user session: the `sap-contextid` it holds, if any.
#[derive(Debug, Default)]
pub struct UserSessionState {
    context_id: Option<String>,
}

impl View for UserSessionState {
    type V = Option<Seq<char>>;

    closed spec fn view(&self) -> Option<Seq<char>> {
        opt_view(self.context_id)
    }
}

impl UserSessionState {
    /// A session that has not established a context yet.
    pub fn new() -> (r: Self)
        ensures
            r@ is None,
    {
        UserSessionState { context_id: None }
    }

    /// The `Cookie` header that carries the session's context, if it holds
    /// one; an error when that is not a valid header value.
    pub fn cookie_header(&self) -> (r: Result<Option<String>, TransportError>)
        ensures
            match self@ {
                None => r matches Ok(None),
                Some(id) => if is_header_value(context_cookie(id)) {
                    r matches Ok(Some(c)) && c@ == context_cookie(id)
                } else {
                    r is Err
                },
            },
    {
        match &self.context_id {
            None => Ok(None),
            Some(id) => {
                let mut value = String::new();
                value.append("sap-contextid=");
                value.append(id.as_str());
                match EntityTag::parse(value.as_str()) {
                    Ok(_) => Ok(Some(value)),
                    Err(InvalidHeaderValue) => Err(
                        TransportError::new("invalid user-session cookie".to_owned()),
                    ),
                }
            },
        }
    }

    /// Marks a request as stateful and attaches the session's context cookie.
    pub fn decorate(&self, request: &mut AdtRequest) -> (r: Result<(), TransportError>)
        ensures
            final(request).method == old(request).method,
            final(request).target == old(request).target,
            final(request).query == old(request).query,
            final(request).body == old(request).body,
            match self@ {
                None => r is Ok && headers_view(final(request).headers@) == without_header(
                    headers_view(old(request).headers@),
                    "x-sap-adt-sessiontype"@,
                ).push((lower("x-sap-adt-sessiontype"@), "stateful"@)),
                Some(id) => if is_header_value(context_cookie(id)) {
                    r is Ok && headers_view(final(request).headers@) == without_header(
                        headers_view(old(request).headers@),
                        "x-sap-adt-sessiontype"@,
                    ).push((lower("x-sap-adt-sessiontype"@), "stateful"@)).push(
                        (lower("cookie"@), context_cookie(id)),
                    )
                } else {
                    r is Err
                },
            },
    {
        request.insert_header("x-sap-adt-sessiontype", "stateful");
        match self.cookie_header() {
            Err(e) => Err(e),
            Ok(None) => Ok(()),
            Ok(Some(cookie)) => {
                request.append_header("cookie", cookie.as_str());
                Ok(())
            },
        }
    }

    /// The request that closes the session by leaving its context through
    /// `target`, a resource that is safe to read (core discovery): a `GET`
    /// marked stateless that carries the context cookie. A session that never
    /// received a context needs no request (`None`).
    pub fn close_request(&self, target: AdtUri) -> (r: Result<Option<AdtRequest>, TransportError>)
        ensures
            match self@ {
                None => r matches Ok(None),
                Some(id) => if is_header_value(context_cookie(id)) {
                    r matches Ok(Some(req)) && req.method == HttpMethod::Get && req.target
                        == target && req.query@.len() == 0 && req.body@.len() == 0 && headers_view(
                        req.headers@,
                    ) == seq![
                        ("x-sap-adt-sessiontype"@, "stateless"@),
                        ("cookie"@, context_cookie(id)),
                    ]
                } else {
                    r is Err
                },
            },
    {
        let cookie = match self.cookie_header() {
            Err(e) => return Err(e),
            Ok(None) => return Ok(None),
            Ok(Some(cookie)) => cookie,
        };
        let mut request = AdtRequest::new(HttpMethod::Get, target);
        request.append_header("x-sap-adt-sessiontype", "stateless");
        request.append_header("cookie", cookie.as_str());
        proof {
            reveal_strlit("x-sap-adt-sessiontype");
            reveal_strlit("cookie");
        }
        assert(lower("x-sap-adt-sessiontype"@) =~= "x-sap-adt-sessiontype"@);
        assert(lower("cookie"@) =~= "cookie"@);
        assert(headers_view(request.headers@) =~= seq![
            ("x-sap-adt-sessiontype"@, "stateless"@),
            ("cookie"@, context_cookie(self@->Some_0)),
        ]);
        Ok(Some(request))
    }

    /// Updates the context from a response's headers: set or renewed by a
    /// `sap-contextid` cookie, discarded when that cookie has expired.
    pub fn update(&mut self, headers: &[(String, String)])
        ensures
            final(self)@ == context_after(old(self)@, headers_view(headers@)),
    {
        let ghost start = self@;
        let ghost hv = headers_view(headers@);
        let mut i: usize = 0;
        while i < headers.len()
            invariant
                i <= headers.len(),
                hv == headers_view(headers@),
                self@ == context_after(start, hv.take(i as int)),
            decreases headers.len() - i,
        {
            let (name, value) = &headers[i];
            assert(hv.take(i + 1).drop_last() =~= hv.take(i as int));
            assert(hv.take(i + 1).last() == (name@, value@));
            let set_cookie = chars_of("set-cookie");
            if eq_ignore_ascii_case(chars_of(name.as_str()).as_slice(), set_cookie.as_slice())
                && visible_text_of(value.as_str()) {
                match parse_set_cookie(value.as_str()) {
                    None => {},
                    Some(parts) => {
                        let context = chars_of("sap-contextid");
                        if eq_ignore_ascii_case(
                            chars_of(parts.name.as_str()).as_slice(),
                            context.as_slice(),
                        ) {
                            let expired = parts.value.as_str().is_empty() || match parts.max_age {
                                Some(s) => s <= 0,
                                None => false,
                            };
                            if expired {
                                self.context_id = None;
                            } else {
                                self.context_id = Some(parts.value);
                            }
                        }
                    },
                }
            }
            i += 1;
        }
        assert(hv.take(headers.len() as int) =~= hv);
    }
}

/// A response that sets a fresh `sap-contextid` makes the session carry
/// exactly that context in its next requests.
pub proof fn set_context_is_sent_back(
    context: Option<Seq<char>>,
    headers: Seq<(Seq<char>, Seq<char>)>,
    value: Seq<char>,
    max_age: Option<i64>,
)
    requires
        headers.len() > 0,
        eq_ignore_case(headers.last().0, "set-cookie"@),
        visible_header_text(headers.last().1),
        set_cookie_parts(headers.last().1) == Some(("sap-contextid"@, value, max_age)),
        value.len() > 0,
        !(max_age matches Some(s) && s <= 0),
    ensures
        context_after(context, headers) == Some(value),
{
    assert(eq_ignore_case("sap-contextid"@, "sap-contextid"@));
}

/// A response whose last `sap-contextid` cookie has expired ends the
/// session's context.
pub proof fn expired_context_is_discarded(
    context: Option<Seq<char>>,
    headers: Seq<(Seq<char>, Seq<char>)>,
    value: Seq<char>,
    max_age: Option<i64>,
)
    requires
        headers.len() > 0,
        eq_ignore_case(headers.last().0, "set-cookie"@),
        visible_header_text(headers.last().1),
        set_cookie_parts(headers.last().1) == Some(("sap-contextid"@, value, max_age)),
        value.len() == 0 || (max_age matches Some(s) && s <= 0),
    ensures
        context_after(context, headers) is None,
{
    assert(eq_ignore_case("sap-contextid"@, "sap-contextid"@));
}

/// Responses without `Set-Cookie` headers leave the session's context unchanged.
pub proof fn other_headers_keep_the_context(
    context: Option<Seq<char>>,
    headers: Seq<(Seq<char>, Seq<char>)>,
)
    requires
        forall|i: int| 0 <= i < headers.len() ==> !eq_ignore_case(#[trigger] headers[i].0, "set-cookie"@),
    ensures
        context_after(context, headers) == context,
    decreases headers.len(),
{
    if headers.len() > 0 {
        other_headers_keep_the_context(context, headers.drop_last());
        assert(!eq_ignore_case(headers[headers.len() - 1].0, "set-cookie"@));
    }
}

} // verus!
