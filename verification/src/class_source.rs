//! The source components of an ABAP class.
use vstd::prelude::*;

use crate::objects::{Class, ObjectRef};
use crate::resource::SourceRef;
use crate::uri::{resolution_origin, uri_check, AdtUriError, UriCheck};
use crate::url_support::{url_appended_path, url_parses};

verus! {

/// A source component owned and locked by an ABAP class; local class
/// includes are resources beneath the class rather than objects of their own.
#[derive(Clone, Copy, Debug, PartialEq, Eq, Structural, Hash)]
pub enum ClassSourceComponent {
    Main,
    Definitions,
    Implementations,
    Macros,
    TestClasses,
}

/// The name ADT uses for a component.
pub open spec fn component_name(c: ClassSourceComponent) -> Seq<char> {
    match c {
        ClassSourceComponent::Main => "main"@,
        ClassSourceComponent::Definitions => "definitions"@,
        ClassSourceComponent::Implementations => "implementations"@,
        ClassSourceComponent::Macros => "macros"@,
        ClassSourceComponent::TestClasses => "testclasses"@,
    }
}

/// The path of a component beneath its class: the main source under
/// `source`, the others under `includes`.
pub open spec fn component_path(c: ClassSourceComponent) -> Seq<Seq<char>> {
    match c {
        ClassSourceComponent::Main => seq!["source"@, "main"@],
        _ => seq!["includes"@, component_name(c)],
    }
}

impl ClassSourceComponent {
    /// Returns the component name used by ADT.
    pub fn as_str(self) -> (r: &'static str)
        ensures
            r@ == component_name(self),
    {
        match self {
            ClassSourceComponent::Main => "main",
            ClassSourceComponent::Definitions => "definitions",
            ClassSourceComponent::Implementations => "implementations",
            ClassSourceComponent::Macros => "macros",
            ClassSourceComponent::TestClasses => "testclasses",
        }
    }

    /// Returns the path segments of the component beneath its class.
    pub fn path(self) -> (r: Vec<String>)
        ensures
            r@.map_values(|s: String| s@) == component_path(self),
    {
        let first = match self {
            ClassSourceComponent::Main => "source",
            _ => "includes",
        };
        let r = vec![first.to_owned(), self.as_str().to_owned()];
        proof {
            reveal_strlit("source");
            reveal_strlit("includes");
            reveal_strlit("main");
        }
        assert(r@.map_values(|s: String| s@) =~= component_path(self));
        r
    }
}

impl ObjectRef<Class> {
    /// Resolves one of the source resources owned by this class: the class
    /// URI with the component's path appended.
    pub fn component_source(&self, component: ClassSourceComponent) -> (r: Result<SourceRef, AdtUriError>)
        ensures
            !url_parses(resolution_origin() + self@.1) ==> r matches Err(AdtUriError::Url(_)),
            url_parses(resolution_origin() + self@.1) ==> match r {
                Ok(s) => s.object@ == self@ && s.query@.len() == 0 && s.fragment is None && s.etag is None
                    && uri_check(url_appended_path(resolution_origin() + self@.1, component_path(component)))
                    == UriCheck::Accepted(s.uri@),
                Err(e) => uri_check(url_appended_path(resolution_origin() + self@.1, component_path(component)))
                    == e.check(),
            },
    {
        let segments = component.path();
        match self.uri().append_segments(segments.as_slice()) {
            Ok(uri) => Ok(SourceRef::new(self.erase(), uri)),
            Err(e) => Err(e),
        }
    }
}

} // verus!
