//! Validated, root-relative resource URIs in SAP's `/sap/bc` namespace.
use vstd::prelude::*;
use vstd::string::StringExecFns;

use crate::text::{
    chars_eq, chars_of, contains_char, has_control, has_control_exec, starts_with,
    starts_with_exec, trim, trimmed,
};
use crate::url_support::{
    append_url_segments, join_url, parses_as_url, url_appended_path,
    url_join_error, url_join_ok, url_join_parts, url_parses,
};

verus! {

/// The conventional root beneath which relative ADT resource paths resolve.
pub const ADT_ROOT: &'static str = "/sap/bc/adt";

/// The SAP HTTP namespace containing ADT and ADT-advertised companion resources.
pub const ADT_RESOURCE_ROOT: &'static str = "/sap/bc";

/// Why a text is not a valid ADT resource URI.
#[derive(Debug)]
pub enum AdtUriError {
    /// The URI is empty.
    Empty,
    /// The URI is absolute or names an authority.
    Absolute,
    /// The URI has surrounding whitespace, control characters or a backslash.
    InvalidCharacters,
    /// The URI resolves outside `/sap/bc`.
    OutsideRoot,
    /// The URI carries a query or fragment.
    QueryOrFragment,
    /// URL resolution failed.
    Url(url::ParseError),
}

/// The outcome of validating a candidate URI, as plain values.
pub enum UriCheck {
    Empty,
    Absolute,
    InvalidCharacters,
    OutsideRoot,
    QueryOrFragment,
    UrlError,
    Accepted(Seq<char>),
}

impl AdtUriError {
    /// The outcome this error reports.
    pub open spec fn check(self) -> UriCheck {
        match self {
            AdtUriError::Empty => UriCheck::Empty,
            AdtUriError::Absolute => UriCheck::Absolute,
            AdtUriError::InvalidCharacters => UriCheck::InvalidCharacters,
            AdtUriError::OutsideRoot => UriCheck::OutsideRoot,
            AdtUriError::QueryOrFragment => UriCheck::QueryOrFragment,
            AdtUriError::Url(_) => UriCheck::UrlError,
        }
    }
}

/// The URL against which candidate URIs are resolved.
pub open spec fn validation_base() -> Seq<char> {
    "https://adt.invalid/sap/bc/adt/"@
}

/// The origin used to turn a resource path into a URL.
pub open spec fn resolution_origin() -> Seq<char> {
    "https://adt.invalid"@
}

/// Surrounding whitespace, control characters and backslashes are refused.
pub open spec fn has_invalid_characters(v: Seq<char>) -> bool {
    trim(v) != v || has_control(v) || v.contains('\\')
}

/// Whether a resolved path lies in the `/sap/bc` namespace.
pub open spec fn in_resource_root(p: Seq<char>) -> bool {
    p == "/sap/bc"@ || starts_with(p, "/sap/bc/"@)
}

/// The reference resolved against [`validation_base`]: `sap/bc` paths are
/// taken as root-relative, other relative paths as relative to `/sap/bc/adt/`.
pub open spec fn validation_reference(v: Seq<char>) -> Seq<char> {
    if starts_with(v, "/"@) {
        v
    } else if v == "sap/bc"@ || starts_with(v, "sap/bc/"@) {
        "/"@ + v
    } else {
        v
    }
}

/// The complete validation rule of [`AdtUri::parse`].
pub open spec fn uri_check(v: Seq<char>) -> UriCheck {
    if v.len() == 0 {
        UriCheck::Empty
    } else if has_invalid_characters(v) {
        UriCheck::InvalidCharacters
    } else if v.contains('?') || v.contains('#') {
        UriCheck::QueryOrFragment
    } else if starts_with(v, "//"@) || url_parses(v) {
        UriCheck::Absolute
    } else if !url_join_ok(validation_base(), validation_reference(v)) {
        UriCheck::UrlError
    } else {
        let j = url_join_parts(validation_base(), validation_reference(v));
        if j.origin != j.base_origin || !in_resource_root(j.path) {
            UriCheck::OutsideRoot
        } else {
            UriCheck::Accepted(j.path)
        }
    }
}

/// The error [`AdtUri::parse`] reports for a value that [`uri_check`] does
/// not accept.
pub open spec fn uri_error(v: Seq<char>) -> AdtUriError {
    match uri_check(v) {
        UriCheck::Empty => AdtUriError::Empty,
        UriCheck::Absolute => AdtUriError::Absolute,
        UriCheck::InvalidCharacters => AdtUriError::InvalidCharacters,
        UriCheck::QueryOrFragment => AdtUriError::QueryOrFragment,
        UriCheck::UrlError => AdtUriError::Url(url_join_error(validation_base(), validation_reference(v))),
        _ => AdtUriError::OutsideRoot,
    }
}

/// A validated, root-relative resource URI in SAP's `/sap/bc` namespace.
///
/// Relative values are resolved beneath [`ADT_ROOT`]. Root-relative values can
/// also address related resources, such as `/sap/bc/esproxy`, advertised by
/// central ADT discovery.
#[derive(Debug, Hash)]
pub struct AdtUri(String);

impl View for AdtUri {
    type V = Seq<char>;

    closed spec fn view(&self) -> Seq<char> {
        self.0@
    }
}

impl AdtUri {
    #[verifier::type_invariant]
    closed spec fn well_formed(self) -> bool {
        in_resource_root(self.0@)
    }

    /// Validates a candidate URI.
    pub fn parse(value: &str) -> (r: Result<AdtUri, AdtUriError>)
        ensures
            match r {
                Ok(u) => uri_check(value@) == UriCheck::Accepted(u@),
                Err(e) => uri_check(value@) == e.check() && e == uri_error(value@),
            },
    {
        let cs = chars_of(value);
        if cs.len() == 0 {
            return Err(AdtUriError::Empty);
        }
        let t = trimmed(cs.as_slice());
        if !chars_eq(t.as_slice(), cs.as_slice()) || has_control_exec(cs.as_slice())
            || contains_char(cs.as_slice(), '\\') {
            return Err(AdtUriError::InvalidCharacters);
        }
        if contains_char(cs.as_slice(), '?') || contains_char(cs.as_slice(), '#') {
            return Err(AdtUriError::QueryOrFragment);
        }
        let authority = chars_of("//");
        if starts_with_exec(cs.as_slice(), authority.as_slice()) || parses_as_url(value) {
            return Err(AdtUriError::Absolute);
        }
        let slash = chars_of("/");
        let root = chars_of("sap/bc");
        let root_dir = chars_of("sap/bc/");
        let mut reference = String::new();
        if starts_with_exec(cs.as_slice(), slash.as_slice()) {
            reference.append(value);
        } else if chars_eq(cs.as_slice(), root.as_slice()) || starts_with_exec(
            cs.as_slice(),
            root_dir.as_slice(),
        ) {
            reference.append("/");
            reference.append(value);
        } else {
            reference.append(value);
        }
        assert(reference@ == validation_reference(value@));
        let joined = match join_url("https://adt.invalid/sap/bc/adt/", reference.as_str()) {
            Ok(j) => j,
            Err(e) => return Err(AdtUriError::Url(e)),
        };
        if joined.origin != joined.base_origin {
            return Err(AdtUriError::OutsideRoot);
        }
        let path = chars_of(joined.path.as_str());
        let bc = chars_of("/sap/bc");
        let bc_dir = chars_of("/sap/bc/");
        if !(chars_eq(path.as_slice(), bc.as_slice()) || starts_with_exec(
            path.as_slice(),
            bc_dir.as_slice(),
        )) {
            return Err(AdtUriError::OutsideRoot);
        }
        Ok(AdtUri(joined.path))
    }

    /// Returns the URI text, which always lies in the `/sap/bc` namespace.
    pub fn as_str(&self) -> (r: &str)
        ensures
            r@ == self@,
            in_resource_root(r@),
    {
        proof {
            use_type_invariant(self);
        }
        self.0.as_str()
    }

    /// Appends path segments, each percent-encoded as a single segment, and
    /// validates the resulting path.
    pub fn append_segments(&self, segments: &[String]) -> (r: Result<AdtUri, AdtUriError>)
        ensures
            !url_parses(resolution_origin() + self@) ==> r matches Err(AdtUriError::Url(_)),
            url_parses(resolution_origin() + self@) ==> match r {
                Ok(u) => uri_check(
                    url_appended_path(
                        resolution_origin() + self@,
                        segments@.map_values(|s: String| s@),
                    ),
                ) == UriCheck::Accepted(u@),
                Err(e) => uri_check(
                    url_appended_path(
                        resolution_origin() + self@,
                        segments@.map_values(|s: String| s@),
                    ),
                ) == e.check(),
            },
    {
        let mut base = String::new();
        base.append("https://adt.invalid");
        base.append(self.as_str());
        match append_url_segments(base.as_str(), segments) {
            Ok(path) => AdtUri::parse(path.as_str()),
            Err(e) => Err(AdtUriError::Url(e)),
        }
    }
}

impl Clone for AdtUri {
    fn clone(&self) -> (r: Self)
        ensures
            r == *self,
    {
        proof {
            use_type_invariant(self);
        }
        AdtUri(self.0.clone())
    }
}

impl PartialEq for AdtUri {
    fn eq(&self, other: &Self) -> (r: bool) {
        self.0 == other.0
    }
}

impl vstd::std_specs::cmp::PartialEqSpecImpl for AdtUri {
    open spec fn obeys_eq_spec() -> bool {
        true
    }

    open spec fn eq_spec(&self, other: &Self) -> bool {
        self@ == other@
    }
}

impl Eq for AdtUri {}

} // verus!
