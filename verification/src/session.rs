//! The HTTP session information advertised during logon.
use vstd::prelude::*;
use vstd::string::StringExecFns;

use crate::error::LogonError;
use crate::text::{
    chars_eq, chars_of, contains_char, has_control, has_control_exec, opt_view, starts_with,
    starts_with_exec, str_eq, string_of, trim, trimmed,
};
use crate::url_support::{join_url, url_join_ok, url_join_parts};

verus! {

/// The value `str::parse::<i64>` gives a text: an optional `+` or `-` and at
/// least one ASCII digit, within the range of `i64`.
pub open spec fn parsed_i64(s: Seq<char>) -> Option<i64> {
    let (negative, digits) = if s.len() > 0 && (s[0] == '+' || s[0] == '-') {
        (s[0] == '-', s.skip(1))
    } else {
        (false, s)
    };
    if digits.len() == 0 || !all_digits(digits) {
        None
    } else {
        let v = if negative {
            -digits_value(digits)
        } else {
            digits_value(digits)
        };
        if i64::MIN <= v <= i64::MAX {
            Some(v as i64)
        } else {
            None
        }
    }
}

/// Whether every character is an ASCII digit.
pub open spec fn all_digits(s: Seq<char>) -> bool {
    forall|i: int| 0 <= i < s.len() ==> '0' <= #[trigger] s[i] && s[i] <= '9'
}

/// The decimal value of ASCII digits.
pub open spec fn digits_value(s: Seq<char>) -> int
    decreases s.len(),
{
    if s.len() == 0 {
        0
    } else {
        digits_value(s.drop_last()) * 10 + ((s.last() as u32) - ('0' as u32))
    }
}

proof fn lemma_digits_value_grows(s: Seq<char>, k: int)
    requires
        all_digits(s),
        0 <= k <= s.len(),
    ensures
        digits_value(s.take(k)) <= digits_value(s),
        0 <= digits_value(s.take(k)),
    decreases s.len(),
{
    if k < s.len() {
        let t = s.drop_last();
        assert(all_digits(t)) by {
            assert forall|i: int| 0 <= i < t.len() implies '0' <= #[trigger] t[i] && t[i] <= '9' by {
                assert(t[i] == s[i]);
            }
        }
        lemma_digits_value_grows(t, k);
        assert(t.take(k) =~= s.take(k));
        assert(s.last() == s[s.len() - 1]);
        assert(digits_value(s) == digits_value(t) * 10 + ((s.last() as u32) - ('0' as u32)));
        lemma_digits_value_grows(t, t.len() as int);
        assert(t.take(t.len() as int) =~= t);
    } else {
        assert(s.take(k) =~= s);
        if s.len() > 0 {
            let t = s.drop_last();
            assert(all_digits(t)) by {
                assert forall|i: int| 0 <= i < t.len() implies '0' <= #[trigger] t[i] && t[i] <= '9' by {
                    assert(t[i] == s[i]);
                }
            }
            lemma_digits_value_grows(t, t.len() as int);
            assert(t.take(t.len() as int) =~= t);
            assert(s.last() == s[s.len() - 1]);
        }
    }
}

proof fn lemma_parsed_from_digits(s: Seq<char>, start: int, negative: bool, digits: Seq<char>)
    requires
        start == (if s.len() > 0 && (s[0] == '+' || s[0] == '-') {
            1int
        } else {
            0int
        }),
        negative == (start == 1 && s[0] == '-'),
        digits == s.skip(start),
    ensures
        parsed_i64(s) == (if digits.len() == 0 || !all_digits(digits) {
            None
        } else {
            let v = if negative {
                -digits_value(digits)
            } else {
                digits_value(digits)
            };
            if i64::MIN <= v <= i64::MAX {
                Some(v as i64)
            } else {
                None
            }
        }),
{
    if start == 0 {
        assert(digits =~= s);
    }
}

/// Parses a decimal `i64` as `str::parse::<i64>` does: an optional `+` or
/// `-`, then at least one ASCII digit, within range.
fn parse_i64(text: &str) -> (r: Option<i64>)
    ensures
        r == parsed_i64(text@),
{
    let cs = chars_of(text);
    let n = cs.len();
    let mut start: usize = 0;
    let mut negative = false;
    if n > 0 && (cs[0] == '+' || cs[0] == '-') {
        negative = cs[0] == '-';
        start = 1;
    }
    let ghost digits = cs@.skip(start as int);
    assert(digits.len() == n - start);
    assert(start == 0 ==> digits =~= cs@);
    if start == n {
        return None;
    }
    let mut value: u64 = 0;
    let mut i: usize = start;
    while i < n
        invariant
            start <= i <= n,
            n == cs@.len(),
            cs@ == text@,
            digits == cs@.skip(start as int),
            start == (if n > 0 && (cs@[0] == '+' || cs@[0] == '-') {
                1usize
            } else {
                0usize
            }),
            negative == (start == 1 && cs@[0] == '-'),
            all_digits(digits.take(i - start)),
            value == digits_value(digits.take(i - start)),
        decreases n - i,
    {
        let c = cs[i];
        let ghost k = i - start;
        assert(digits[k] == c);
        if !('0' <= c && c <= '9') {
            assert(!all_digits(digits));
            return None;
        }
        let ghost next = digits.take(k + 1);
        assert(next.drop_last() =~= digits.take(k));
        assert(next.last() == c);
        assert(all_digits(next)) by {
            assert forall|j: int| 0 <= j < next.len() implies '0' <= #[trigger] next[j] && next[j] <= '9' by {
                if j < k {
                    assert(next[j] == digits.take(k)[j]);
                }
            }
        }
        let d: u64 = ((c as u32) - ('0' as u32)) as u64;
        assert(digits_value(next) == value * 10 + d);
        let shifted = match value.checked_mul(10) {
            Some(v) => v,
            None => {
                proof {
                    if all_digits(digits) {
                        lemma_digits_value_grows(digits, k + 1);
                        assert(digits_value(digits) >= value * 10 + d);
                        assert(digits_value(digits) > i64::MAX + 1);
                    }
                    lemma_parsed_from_digits(text@, start as int, negative, digits);
                }
                return None;
            },
        };
        value = match shifted.checked_add(d) {
            Some(v) => v,
            None => {
                proof {
                    if all_digits(digits) {
                        lemma_digits_value_grows(digits, k + 1);
                        assert(digits_value(digits) >= value * 10 + d);
                        assert(digits_value(digits) > i64::MAX + 1);
                    }
                    lemma_parsed_from_digits(text@, start as int, negative, digits);
                }
                return None;
            },
        };
        i += 1;
    }
    assert(digits.take(n - start) =~= digits);
    assert(value == digits_value(digits));
    if negative {
        if value <= 9223372036854775807 {
            Some(-(value as i64))
        } else if value == 9223372036854775808 {
            Some(i64::MIN)
        } else {
            None
        }
    } else if value <= 9223372036854775807 {
        Some(value as i64)
    } else {
        None
    }
}

/// A validated same-destination URI advertised by the HTTP session resource.
#[derive(Debug)]
pub struct SessionUri(String);

impl View for SessionUri {
    type V = Seq<char>;

    closed spec fn view(&self) -> Seq<char> {
        self.0@
    }
}

/// The origin against which session links are resolved.
pub open spec fn session_base() -> Seq<char> {
    "https://adt.invalid/"@
}

/// The URI a session link names: the resolved path and, when present, its
/// query; `None` when the link is empty, padded, holds control characters or
/// a backslash, names an authority, leaves the destination or `/sap/`, or has
/// a fragment.
pub open spec fn session_uri_of(href: Seq<char>) -> Option<Seq<char>> {
    if !url_join_ok(session_base(), href) {
        None
    } else {
        let j = url_join_parts(session_base(), href);
        if href.len() == 0 || trim(href) != href || has_control(href) || href.contains('\\')
            || starts_with(href, "//"@) || j.origin != j.base_origin || !starts_with(
            j.path,
            "/sap/"@,
        ) || j.fragment is Some {
            None
        } else {
            match j.query {
                Some(q) => Some(j.path + "?"@ + q),
                None => Some(j.path),
            }
        }
    }
}

impl SessionUri {
    /// Resolves and validates a session link for a relation.
    pub fn parse(relation: &str, href: &str) -> (r: Result<SessionUri, LogonError>)
        ensures
            match session_uri_of(href@) {
                Some(u) => r matches Ok(s) && s@ == u,
                None => r matches Err(LogonError::InvalidLink { relation: rel, href: h })
                    && rel@ == relation@ && h@ == href@,
            },
    {
        let joined = match join_url("https://adt.invalid/", href) {
            Ok(j) => j,
            Err(_) => {
                return Err(
                    LogonError::InvalidLink {
                        relation: relation.to_owned(),
                        href: href.to_owned(),
                    },
                );
            },
        };
        let cs = chars_of(href);
        let t = trimmed(cs.as_slice());
        let authority = chars_of("//");
        let path = chars_of(joined.path.as_str());
        let sap = chars_of("/sap/");
        if cs.len() == 0 || !chars_eq(t.as_slice(), cs.as_slice()) || has_control_exec(cs.as_slice())
            || contains_char(cs.as_slice(), '\\') || starts_with_exec(
            cs.as_slice(),
            authority.as_slice(),
        ) || joined.origin != joined.base_origin || !starts_with_exec(
            path.as_slice(),
            sap.as_slice(),
        ) || joined.fragment.is_some() {
            return Err(
                LogonError::InvalidLink { relation: relation.to_owned(), href: href.to_owned() },
            );
        }
        let mut value = joined.path;
        match &joined.query {
            Some(q) => {
                value.append("?");
                value.append(q.as_str());
            },
            None => {},
        }
        Ok(SessionUri(value))
    }

    /// Returns the destination-relative URI.
    pub fn as_str(&self) -> (r: &str)
        ensures
            r@ == self@,
    {
        self.0.as_str()
    }
}

/// The optional system-information resource advertised during logon.
#[derive(Debug)]
pub struct SystemInformationLink {
    /// The same-destination system-information target.
    pub target: SessionUri,
    /// The representation media type expected from the target.
    pub media_type: String,
}

/// A link of the session document.
#[derive(Debug)]
pub struct RawSessionLink {
    pub href: String,
    pub relation: String,
    pub media_type: Option<String>,
}

/// A property of the session document.
#[derive(Debug)]
pub struct RawProperty {
    pub name: String,
    pub value: String,
}

/// The links and properties of an `http:session` document.
#[derive(Debug)]
pub struct RawSession {
    pub links: Vec<RawSessionLink>,
    pub properties: Option<Vec<RawProperty>>,
}

/// Information advertised for an authenticated ADT HTTP security session.
#[derive(Debug)]
pub struct SessionInformation {
    /// The resource used to log off the current HTTP security session.
    pub logoff_uri: SessionUri,
    /// The resource used to delete the corresponding security session.
    pub cleanup_uri: SessionUri,
    /// Optional information about the authenticated SAP system and user.
    pub system_information: Option<SystemInformationLink>,
    /// The backend-advertised inactivity timeout in seconds, when positive.
    pub inactivity_timeout: Option<u64>,
}

/// The relation of the logoff link.
pub open spec fn logoff_relation() -> Seq<char> {
    "http://www.sap.com/adt/categories/core/http/sessions/logoff"@
}

/// The relation of the security-session cleanup link.
pub open spec fn cleanup_relation() -> Seq<char> {
    "http://www.sap.com/adt/categories/core/http/sessions/securitysession"@
}

/// The relation of the system-information link.
pub open spec fn system_information_relation() -> Seq<char> {
    "http://www.sap.com/adt/categories/core/http/system/systeminformation"@
}

/// The index of the last link with a relation.
pub open spec fn last_link(links: Seq<RawSessionLink>, relation: Seq<char>) -> Option<int>
    decreases links.len(),
{
    if links.len() == 0 {
        None
    } else if links.last().relation@ == relation {
        Some(links.len() - 1)
    } else {
        last_link(links.drop_last(), relation)
    }
}

/// What the properties say about the inactivity timeout: unset, a duplicate,
/// an unparsable value (trimmed), or the timeout in seconds when positive.
pub enum TimeoutScan {
    Unset,
    Seen(Option<u64>),
    Duplicate,
    Invalid(Seq<char>),
}

/// Scans the properties for `inactivityTimeout`, which may occur at most once.
pub open spec fn timeout_scan(properties: Seq<RawProperty>) -> TimeoutScan
    decreases properties.len(),
{
    if properties.len() == 0 {
        TimeoutScan::Unset
    } else {
        let prev = timeout_scan(properties.drop_last());
        let p = properties.last();
        match prev {
            TimeoutScan::Duplicate => TimeoutScan::Duplicate,
            TimeoutScan::Invalid(v) => TimeoutScan::Invalid(v),
            _ => if p.name@ != "inactivityTimeout"@ {
                prev
            } else if prev is Seen {
                TimeoutScan::Duplicate
            } else {
                match parsed_i64(trim(p.value@)) {
                    None => TimeoutScan::Invalid(trim(p.value@)),
                    Some(s) => TimeoutScan::Seen(
                        if s > 0 {
                            Some(s as u64)
                        } else {
                            None
                        },
                    ),
                }
            },
        }
    }
}

/// Why a session document is refused, as plain values.
pub enum SessionFailure {
    MissingLogoffLink,
    MissingCleanupLink,
    MissingSystemInformationContentType,
    InvalidLink(Seq<char>, Seq<char>),
    DuplicateInactivityTimeout,
    InvalidInactivityTimeout(Seq<char>),
}

impl LogonError {
    /// The failure this error reports, for the errors a session document produces.
    pub open spec fn session_failure(self) -> Option<SessionFailure> {
        match self {
            LogonError::MissingLogoffLink => Some(SessionFailure::MissingLogoffLink),
            LogonError::MissingCleanupLink => Some(SessionFailure::MissingCleanupLink),
            LogonError::MissingSystemInformationContentType => Some(
                SessionFailure::MissingSystemInformationContentType,
            ),
            LogonError::InvalidLink { relation, href } => Some(
                SessionFailure::InvalidLink(relation@, href@),
            ),
            LogonError::DuplicateInactivityTimeout => Some(
                SessionFailure::DuplicateInactivityTimeout,
            ),
            LogonError::InvalidInactivityTimeout { value } => Some(
                SessionFailure::InvalidInactivityTimeout(value@),
            ),
            _ => None,
        }
    }
}

/// The properties of a session document, empty when it has none.
pub open spec fn properties_of(raw: RawSession) -> Seq<RawProperty> {
    match raw.properties {
        Some(p) => p@,
        None => Seq::empty(),
    }
}

/// The first reason a session document is refused: a missing logoff or
/// cleanup link, a system-information link without media type or with an
/// invalid target, a duplicate or invalid inactivity timeout, then an invalid
/// logoff or cleanup target.
pub open spec fn session_failure(raw: RawSession) -> Option<SessionFailure> {
    let links = raw.links@;
    match (last_link(links, logoff_relation()), last_link(links, cleanup_relation())) {
        (None, _) => Some(SessionFailure::MissingLogoffLink),
        (Some(_), None) => Some(SessionFailure::MissingCleanupLink),
        (Some(lo), Some(cl)) => {
            let sys = last_link(links, system_information_relation());
            if sys is Some && (opt_view(links[sys->Some_0].media_type) is None || opt_view(
                links[sys->Some_0].media_type,
            )->Some_0.len() == 0) {
                Some(SessionFailure::MissingSystemInformationContentType)
            } else if sys is Some && session_uri_of(links[sys->Some_0].href@) is None {
                Some(
                    SessionFailure::InvalidLink(
                        system_information_relation(),
                        links[sys->Some_0].href@,
                    ),
                )
            } else {
                match timeout_scan(properties_of(raw)) {
                    TimeoutScan::Duplicate => Some(SessionFailure::DuplicateInactivityTimeout),
                    TimeoutScan::Invalid(v) => Some(SessionFailure::InvalidInactivityTimeout(v)),
                    _ => if session_uri_of(links[lo].href@) is None {
                        Some(SessionFailure::InvalidLink(logoff_relation(), links[lo].href@))
                    } else if session_uri_of(links[cl].href@) is None {
                        Some(SessionFailure::InvalidLink(cleanup_relation(), links[cl].href@))
                    } else {
                        None
                    },
                }
            }
        },
    }
}

fn find_session_link(links: &Vec<RawSessionLink>, relation: &str) -> (r: Option<usize>)
    ensures
        match r {
            Some(k) => last_link(links@, relation@) == Some(k as int) && k < links@.len(),
            None => last_link(links@, relation@) is None,
        },
{
    let mut i: usize = links.len();
    assert(links@.take(links.len() as int) =~= links@);
    while i > 0
        invariant
            i <= links.len(),
            last_link(links@, relation@) == last_link(links@.take(i as int), relation@),
        decreases i,
    {
        assert(links@.take(i as int).drop_last() =~= links@.take(i - 1));
        assert(links@.take(i as int).last() == links@[i - 1]);
        if str_eq(links[i - 1].relation.as_str(), relation) {
            return Some(i - 1);
        }
        i -= 1;
    }
    None
}

fn scan_timeout(properties: &Vec<RawProperty>) -> (r: Result<Option<u64>, LogonError>)
    ensures
        match timeout_scan(properties@) {
            TimeoutScan::Unset => r == Ok::<Option<u64>, LogonError>(None),
            TimeoutScan::Seen(t) => r == Ok::<Option<u64>, LogonError>(t),
            TimeoutScan::Duplicate => r matches Err(LogonError::DuplicateInactivityTimeout),
            TimeoutScan::Invalid(v) => r matches Err(LogonError::InvalidInactivityTimeout { value })
                && value@ == v,
        },
{
    let mut timeout: Option<u64> = None;
    let mut seen = false;
    let mut i: usize = 0;
    while i < properties.len()
        invariant
            i <= properties.len(),
            match timeout_scan(properties@.take(i as int)) {
                TimeoutScan::Unset => !seen && timeout is None,
                TimeoutScan::Seen(t) => seen && timeout == t,
                _ => false,
            },
        decreases properties.len() - i,
    {
        let property = &properties[i];
        assert(properties@.take(i + 1).drop_last() =~= properties@.take(i as int));
        assert(properties@.take(i + 1).last() == properties@[i as int]);
        if str_eq(property.name.as_str(), "inactivityTimeout") {
            if seen {
                proof {
                    lemma_timeout_failure_persists(properties@, i as int + 1);
                }
                return Err(LogonError::DuplicateInactivityTimeout);
            }
            seen = true;
            let cs = chars_of(property.value.as_str());
            let value = string_of(trimmed(cs.as_slice()).as_slice());
            match parse_i64(value.as_str()) {
                None => {
                    proof {
                        lemma_timeout_failure_persists(properties@, i as int + 1);
                    }
                    return Err(LogonError::InvalidInactivityTimeout { value });
                },
                Some(seconds) => {
                    timeout = if seconds > 0 {
                        Some(seconds as u64)
                    } else {
                        None
                    };
                },
            }
        }
        i += 1;
    }
    assert(properties@.take(properties.len() as int) =~= properties@);
    Ok(timeout)
}

proof fn lemma_timeout_failure_persists(properties: Seq<RawProperty>, n: int)
    requires
        0 <= n <= properties.len(),
        timeout_scan(properties.take(n)) is Duplicate || timeout_scan(properties.take(n)) is Invalid,
    ensures
        timeout_scan(properties) == timeout_scan(properties.take(n)),
    decreases properties.len() - n,
{
    if n < properties.len() {
        assert(properties.take(n + 1).drop_last() =~= properties.take(n));
        lemma_timeout_failure_persists(properties, n + 1);
    } else {
        assert(properties.take(n) =~= properties);
    }
}

impl SessionInformation {
    /// Validates a decoded session document.
    pub fn from_raw(raw: RawSession) -> (r: Result<Self, LogonError>)
        ensures
            match r {
                Err(e) => e.session_failure() is Some && session_failure(raw) == e.session_failure(),
                Ok(s) => {
                    let links = raw.links@;
                    let lo = last_link(links, logoff_relation())->Some_0;
                    let cl = last_link(links, cleanup_relation())->Some_0;
                    &&& session_failure(raw) is None
                    &&& Some(s.logoff_uri@) == session_uri_of(links[lo].href@)
                    &&& Some(s.cleanup_uri@) == session_uri_of(links[cl].href@)
                    &&& match last_link(links, system_information_relation()) {
                        Some(k) => s.system_information matches Some(i) && Some(i.target@)
                            == session_uri_of(links[k].href@) && Some(i.media_type@) == opt_view(
                            links[k].media_type,
                        ),
                        None => s.system_information is None,
                    }
                    &&& match timeout_scan(properties_of(raw)) {
                        TimeoutScan::Seen(t) => s.inactivity_timeout == t,
                        _ => s.inactivity_timeout is None,
                    }
                },
            },
    {
        let logoff = match find_session_link(&raw.links, "http://www.sap.com/adt/categories/core/http/sessions/logoff") {
            Some(k) => k,
            None => return Err(LogonError::MissingLogoffLink),
        };
        let cleanup = match find_session_link(&raw.links, "http://www.sap.com/adt/categories/core/http/sessions/securitysession") {
            Some(k) => k,
            None => return Err(LogonError::MissingCleanupLink),
        };
        let system_information = match find_session_link(
            &raw.links,
            "http://www.sap.com/adt/categories/core/http/system/systeminformation",
        ) {
            Some(k) => {
                let link = &raw.links[k];
                let media_type = match &link.media_type {
                    Some(m) => if m.as_str().is_empty() {
                        return Err(LogonError::MissingSystemInformationContentType);
                    } else {
                        m.clone()
                    },
                    None => return Err(LogonError::MissingSystemInformationContentType),
                };
                let target = match SessionUri::parse(
                    "http://www.sap.com/adt/categories/core/http/system/systeminformation",
                    link.href.as_str(),
                ) {
                    Ok(t) => t,
                    Err(e) => return Err(e),
                };
                Some(SystemInformationLink { target, media_type })
            },
            None => None,
        };
        let inactivity_timeout = match &raw.properties {
            Some(properties) => match scan_timeout(properties) {
                Ok(t) => t,
                Err(e) => return Err(e),
            },
            None => {
                assert(properties_of(raw) =~= Seq::<RawProperty>::empty());
                None
            },
        };
        let logoff_uri = match SessionUri::parse(
            "http://www.sap.com/adt/categories/core/http/sessions/logoff",
            raw.links[logoff].href.as_str(),
        ) {
            Ok(u) => u,
            Err(e) => return Err(e),
        };
        let cleanup_uri = match SessionUri::parse(
            "http://www.sap.com/adt/categories/core/http/sessions/securitysession",
            raw.links[cleanup].href.as_str(),
        ) {
            Ok(u) => u,
            Err(e) => return Err(e),
        };
        Ok(SessionInformation { logoff_uri, cleanup_uri, system_information, inactivity_timeout })
    }
}

} // verus!
