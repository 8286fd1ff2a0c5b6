//! Links advertised by ADT representations and the typed references built on them.
use core::marker::PhantomData;
use vstd::prelude::*;
use vstd::string::StringExecFns;

use crate::objects::ObjectRef;
use crate::text::{
    chars_of, clone_opt, clone_pairs, has_control, has_control_exec, opt_view, pairs_view,
    starts_with, starts_with_exec, str_eq, trim, trimmed, chars_eq, contains_char,
};
use crate::uri::{
    has_invalid_characters, resolution_origin, uri_check, AdtUri, AdtUriError, UriCheck,
};
use crate::url_support::{
    decode_query_pairs, form_decoded, join_url, join_url_below, parses_as_url, url_join_below_ok,
    url_join_below_parts, url_join_ok, url_join_parts, url_parses, JoinedUrlView,
};

verus! {

/// Whether an href is resolved directly against the base resource rather than
/// beneath it: root-relative, dot-relative, query-only and fragment-only
/// references.
pub open spec fn href_is_direct(href: Seq<char>) -> bool {
    starts_with(href, "/"@) || starts_with(href, "./"@) || starts_with(href, "../"@)
        || starts_with(href, "?"@) || starts_with(href, "#"@)
}

/// The checks an href must pass before it is resolved at all.
pub open spec fn href_precheck(href: Seq<char>) -> Option<UriCheck> {
    if href.len() == 0 {
        Some(UriCheck::Empty)
    } else if has_invalid_characters(href) {
        Some(UriCheck::InvalidCharacters)
    } else if starts_with(href, "//"@) || url_parses(href) {
        Some(UriCheck::Absolute)
    } else {
        None
    }
}

/// Whether URL resolution of an href against a base resource succeeds.
pub open spec fn href_join_ok(base: Seq<char>, href: Seq<char>) -> bool {
    if href_is_direct(href) {
        url_join_ok(resolution_origin() + base, href)
    } else {
        url_join_below_ok(resolution_origin() + base, href)
    }
}

/// The URL that an href resolves to against a base resource.
pub open spec fn href_join(base: Seq<char>, href: Seq<char>) -> JoinedUrlView {
    if href_is_direct(href) {
        url_join_parts(resolution_origin() + base, href)
    } else {
        url_join_below_parts(resolution_origin() + base, href)
    }
}

/// The query text of a resolved URL, empty when it has none.
pub open spec fn query_text(q: Option<Seq<char>>) -> Seq<char> {
    match q {
        Some(q) => q,
        None => Seq::empty(),
    }
}

/// A resolved href as plain values: target path, decoded query pairs, fragment.
pub type Resolution = (Seq<char>, Seq<(Seq<char>, Seq<char>)>, Option<Seq<char>>);

/// The complete rule by which an href resolves against a base resource.
pub open spec fn href_resolution(base: Seq<char>, href: Seq<char>) -> Result<Resolution, UriCheck> {
    match href_precheck(href) {
        Some(c) => Err(c),
        None => if !href_join_ok(base, href) {
            Err(UriCheck::UrlError)
        } else {
            let j = href_join(base, href);
            match uri_check(j.path) {
                UriCheck::Accepted(p) => Ok((p, form_decoded(query_text(j.query)), j.fragment)),
                c => Err(c),
            }
        },
    }
}

/// A resolved href.
pub struct ResolvedHref {
    /// The validated target resource.
    pub target: AdtUri,
    /// Decoded query parameters in their advertised order.
    pub query: Vec<(String, String)>,
    /// The fragment, without the leading `#`.
    pub fragment: Option<String>,
}

/// Every accepted URI lies in the `/sap/bc` namespace.
pub proof fn accepted_uris_lie_in_the_resource_root(v: Seq<char>)
    ensures
        uri_check(v) matches UriCheck::Accepted(p) ==> crate::uri::in_resource_root(p),
{
}

/// Resolves an href without assigning Atom link semantics to it.
pub fn resolve_href(base: &AdtUri, href: &str) -> (r: Result<ResolvedHref, AdtUriError>)
    ensures
        match r {
            Ok(res) => href_resolution(base@, href@) == Ok::<Resolution, UriCheck>(
                (res.target@, pairs_view(res.query@), opt_view(res.fragment)),
            ),
            Err(e) => href_resolution(base@, href@) == Err::<Resolution, UriCheck>(e.check()),
        },
{
    let cs = chars_of(href);
    if cs.len() == 0 {
        return Err(AdtUriError::Empty);
    }
    let t = trimmed(cs.as_slice());
    if !chars_eq(t.as_slice(), cs.as_slice()) || has_control_exec(cs.as_slice())
        || contains_char(cs.as_slice(), '\\') {
        return Err(AdtUriError::InvalidCharacters);
    }
    let authority = chars_of("//");
    if starts_with_exec(cs.as_slice(), authority.as_slice()) || parses_as_url(href) {
        return Err(AdtUriError::Absolute);
    }
    let mut base_url = String::new();
    base_url.append("https://adt.invalid");
    base_url.append(base.as_str());
    assert(base_url@ =~= resolution_origin() + base@);
    let slash = chars_of("/");
    let dot = chars_of("./");
    let dots = chars_of("../");
    let question = chars_of("?");
    let hash = chars_of("#");
    let direct = starts_with_exec(cs.as_slice(), slash.as_slice()) || starts_with_exec(
        cs.as_slice(),
        dot.as_slice(),
    ) || starts_with_exec(cs.as_slice(), dots.as_slice()) || starts_with_exec(
        cs.as_slice(),
        question.as_slice(),
    ) || starts_with_exec(cs.as_slice(), hash.as_slice());
    let joined = if direct {
        join_url(base_url.as_str(), href)
    } else {
        join_url_below(base_url.as_str(), href)
    };
    let joined = match joined {
        Ok(j) => j,
        Err(e) => return Err(AdtUriError::Url(e)),
    };
    let target = match AdtUri::parse(joined.path.as_str()) {
        Ok(t) => t,
        Err(e) => return Err(e),
    };
    proof {
        reveal_strlit("");
    }
    let query_str: &str = match &joined.query {
        Some(q) => q.as_str(),
        None => "",
    };
    assert(query_str@ == query_text(joined@.query));
    let query = decode_query_pairs(query_str);
    assert(href_join_ok(base@, href@));
    assert(joined@ == href_join(base@, href@));
    assert(uri_check(joined@.path) == UriCheck::Accepted(target@));
    assert(pairs_view(query@) == form_decoded(query_text(joined@.query)));
    Ok(ResolvedHref { target, query, fragment: joined.fragment })
}

/// Atom metadata advertised alongside an href.
pub struct AdtLinkMetadata {
    pub relation: Option<String>,
    pub media_type: Option<String>,
    pub hreflang: Option<String>,
    pub title: Option<String>,
    pub length: Option<String>,
    pub etag: Option<String>,
}

/// A concrete link advertised by an ADT resource representation.
///
/// The advertised Atom metadata is retained alongside a resolved, validated
/// target, so known relations can be used through typed references without
/// discarding unknown relations or representation hints.
#[derive(Debug)]
pub struct AdtLink {
    /// The link exactly as advertised by SAP.
    pub href: String,
    /// The validated resource path produced by resolving `href`.
    pub target: AdtUri,
    /// Decoded query parameters in their advertised order.
    pub query: Vec<(String, String)>,
    /// The optional link fragment, without the leading `#`.
    pub fragment: Option<String>,
    /// The Atom relation identifying what the target means to its source.
    pub relation: Option<String>,
    /// The media type of the target representation, when advertised.
    pub media_type: Option<String>,
    /// The language of the target representation, when advertised.
    pub hreflang: Option<String>,
    /// A human-readable label for the link.
    pub title: Option<String>,
    /// The advertised target length.
    pub length: Option<String>,
    /// SAP's entity-tag extension for the target representation.
    pub etag: Option<String>,
}

impl AdtLink {
    /// Resolves an advertised href against the representation's resource and
    /// keeps its metadata.
    pub fn from_href(base: &AdtUri, href: String, metadata: AdtLinkMetadata) -> (r: Result<
        Self,
        AdtUriError,
    >)
        ensures
            match r {
                Ok(l) => l.href == href && href_resolution(base@, href@) == Ok::<
                    Resolution,
                    UriCheck,
                >((l.target@, pairs_view(l.query@), opt_view(l.fragment))) && l.relation
                    == metadata.relation && l.media_type == metadata.media_type && l.hreflang
                    == metadata.hreflang && l.title == metadata.title && l.length
                    == metadata.length && l.etag == metadata.etag,
                Err(e) => href_resolution(base@, href@) == Err::<Resolution, UriCheck>(e.check()),
            },
    {
        let resolved = match resolve_href(base, href.as_str()) {
            Ok(r) => r,
            Err(e) => return Err(e),
        };
        Ok(
            AdtLink {
                href,
                target: resolved.target,
                query: resolved.query,
                fragment: resolved.fragment,
                relation: metadata.relation,
                media_type: metadata.media_type,
                hreflang: metadata.hreflang,
                title: metadata.title,
                length: metadata.length,
                etag: metadata.etag,
            },
        )
    }

    /// Returns the link exactly as advertised.
    pub fn to_string(&self) -> (r: String)
        ensures
            r@ == self.href@,
    {
        self.href.clone()
    }
}

/// A resource reached through a link: its URI, query, fragment and entity tag.
#[derive(Debug)]
pub struct RelatedRef<K> {
    /// The validated related-resource URI.
    pub uri: AdtUri,
    /// Query parameters advertised as part of the relation.
    pub query: Vec<(String, String)>,
    /// The optional link fragment, without the leading `#`.
    pub fragment: Option<String>,
    /// The entity tag advertised for this resource, when present.
    pub etag: Option<String>,
    /// The kind of related resource.
    pub kind: PhantomData<K>,
}

impl<K> RelatedRef<K> {
    /// Takes the target, query, fragment and entity tag of a link.
    pub fn from_link(link: &AdtLink) -> (r: Self)
        ensures
            r.uri@ == link.target@,
            r.query@ == link.query@,
            r.fragment == link.fragment,
            r.etag == link.etag,
    {
        RelatedRef {
            uri: link.target.clone(),
            query: clone_pairs(&link.query),
            fragment: clone_opt(&link.fragment),
            etag: clone_opt(&link.etag),
            kind: PhantomData,
        }
    }

    /// Returns the related resource's URI text.
    pub fn to_string(&self) -> (r: String)
        ensures
            r@ == self.uri@,
    {
        self.uri.as_str().to_owned()
    }
}

/// Marks the rendered HTML representation of an object's source.
#[derive(Debug)]
pub struct HtmlSource;

/// Marks the version history advertised for a source resource.
#[derive(Debug)]
pub struct SourceVersions;

/// Marks the structural representation advertised for an ADT object.
#[derive(Debug)]
pub struct ObjectStructure;

/// Marks the text-elements resource advertised for an ADT object.
#[derive(Debug)]
pub struct TextElements;

/// Marks the enhancement implementations associated with an ADT object.
#[derive(Debug)]
pub struct EnhancementImplementations;

/// Marks the enhancement options associated with an ADT object or source.
#[derive(Debug)]
pub struct EnhancementOptions;

/// Marks a link to another state, such as the active version, of an object.
#[derive(Debug)]
pub struct ObjectState;

/// Marks the parser grammar advertised by an ABAP syntax configuration.
#[derive(Debug)]
pub struct Parser;

/// The rendered HTML representation of an object's source.
pub type HtmlSourceRef = RelatedRef<HtmlSource>;

/// The version history advertised for a source resource.
pub type SourceVersionsRef = RelatedRef<SourceVersions>;

/// The structural representation advertised for an ADT object.
pub type ObjectStructureRef = RelatedRef<ObjectStructure>;

/// The text-elements resource advertised for an ADT object.
pub type TextElementsRef = RelatedRef<TextElements>;

/// The enhancement implementations associated with an ADT object.
pub type EnhancementImplementationsRef = RelatedRef<EnhancementImplementations>;

/// The enhancement options associated with an ADT object or source.
pub type EnhancementOptionsRef = RelatedRef<EnhancementOptions>;

/// A link to another state, such as the active version, of an ADT object.
pub type ObjectStateRef = RelatedRef<ObjectState>;

/// The parser grammar advertised by an ABAP syntax configuration.
pub type ParserRef = RelatedRef<Parser>;

/// A package reference embedded in an ADT object representation.
#[derive(Debug)]
pub struct PackageRef {
    /// The package name.
    pub name: String,
    /// The repository object type, normally `DEVC/K`.
    pub object_type: String,
    /// The package's validated object reference.
    pub object: ObjectRef,
}

impl PackageRef {
    /// Bundles a package's name, type and object reference.
    pub fn new(name: String, object_type: String, object: ObjectRef) -> (r: Self)
        ensures
            r.name == name,
            r.object_type == object_type,
            r.object == object,
    {
        PackageRef { name, object_type, object }
    }
}

/// A validated source-code resource and its owning repository object.
///
/// A source URI alone does not establish which object lock authorizes an
/// update, so the reference retains both the source URI and its owner.
#[derive(Debug)]
pub struct SourceRef {
    /// The object that owns this source resource.
    pub object: ObjectRef,
    /// The source resource URI.
    pub uri: AdtUri,
    /// Query parameters advertised as part of the source link.
    pub query: Vec<(String, String)>,
    /// The optional source fragment, without the leading `#`.
    pub fragment: Option<String>,
    /// The entity tag advertised for this source, when present.
    pub etag: Option<String>,
}

impl SourceRef {
    /// A source at a URI, without query, fragment or entity tag.
    pub fn new(object: ObjectRef, uri: AdtUri) -> (r: Self)
        ensures
            r.object == object,
            r.uri == uri,
            r.query@.len() == 0,
            r.fragment is None,
            r.etag is None,
    {
        SourceRef { object, uri, query: Vec::new(), fragment: None, etag: None }
    }

    /// A source reached through an advertised link.
    pub fn from_link(object: ObjectRef, link: &AdtLink) -> (r: Self)
        ensures
            r.object == object,
            r.uri@ == link.target@,
            r.query@ == link.query@,
            r.fragment == link.fragment,
            r.etag == link.etag,
    {
        SourceRef {
            object,
            uri: link.target.clone(),
            query: clone_pairs(&link.query),
            fragment: clone_opt(&link.fragment),
            etag: clone_opt(&link.etag),
        }
    }

    /// Returns the source URI text.
    pub fn to_string(&self) -> (r: String)
        ensures
            r@ == self.uri@,
    {
        self.uri.as_str().to_owned()
    }
}

/// Whether two source references are the same: the same owning object,
/// URI, query parameters, fragment and entity tag.
pub open spec fn same_source(a: SourceRef, b: SourceRef) -> bool {
    &&& a.object@ == b.object@
    &&& a.uri@ == b.uri@
    &&& a.query@ == b.query@
    &&& a.fragment == b.fragment
    &&& a.etag == b.etag
}

impl Clone for SourceRef {
    fn clone(&self) -> (r: Self)
        ensures
            same_source(r, *self),
    {
        SourceRef {
            object: self.object.clone(),
            uri: self.uri.clone(),
            query: clone_pairs(&self.query),
            fragment: clone_opt(&self.fragment),
            etag: clone_opt(&self.etag),
        }
    }
}

/// The plain-value picture of an [`AdtLink`].
pub struct LinkView {
    pub href: Seq<char>,
    pub target: Seq<char>,
    pub query: Seq<(Seq<char>, Seq<char>)>,
    pub fragment: Option<Seq<char>>,
    pub relation: Option<Seq<char>>,
    pub media_type: Option<Seq<char>>,
    pub hreflang: Option<Seq<char>>,
    pub title: Option<Seq<char>>,
    pub length: Option<Seq<char>>,
    pub etag: Option<Seq<char>>,
}

impl View for AdtLink {
    type V = LinkView;

    open spec fn view(&self) -> LinkView {
        LinkView {
            href: self.href@,
            target: self.target@,
            query: pairs_view(self.query@),
            fragment: opt_view(self.fragment),
            relation: opt_view(self.relation),
            media_type: opt_view(self.media_type),
            hreflang: opt_view(self.hreflang),
            title: opt_view(self.title),
            length: opt_view(self.length),
            etag: opt_view(self.etag),
        }
    }
}

/// The views of a list of links.
pub open spec fn links_view(links: Seq<AdtLink>) -> Seq<LinkView> {
    links.map_values(|l: AdtLink| l@)
}

/// The target, query, fragment and entity tag that a link gives a related reference.
pub open spec fn link_target_view(l: LinkView) -> (
    Seq<char>,
    Seq<(Seq<char>, Seq<char>)>,
    Option<Seq<char>>,
    Option<Seq<char>>,
) {
    (l.target, l.query, l.fragment, l.etag)
}

impl<K> View for RelatedRef<K> {
    type V = (Seq<char>, Seq<(Seq<char>, Seq<char>)>, Option<Seq<char>>, Option<Seq<char>>);

    open spec fn view(&self) -> (
        Seq<char>,
        Seq<(Seq<char>, Seq<char>)>,
        Option<Seq<char>>,
        Option<Seq<char>>,
    ) {
        (self.uri@, pairs_view(self.query@), opt_view(self.fragment), opt_view(self.etag))
    }
}

} // verus!
