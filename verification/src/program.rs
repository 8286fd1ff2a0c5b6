//! ABAP program descriptors normalized from their XML representation.
//!
//! The XML document is decoded into the `Raw*` values elsewhere; this module
//! validates them, resolves every advertised link and selects the typed
//! relations a program offers.
use vstd::prelude::*;

use crate::error::ProgramError;
use crate::objects::{object_version_of, ObjectRef, ObjectVersion};
use crate::resource::{
    href_resolution, link_target_view, links_view, resolve_href, AdtLink, AdtLinkMetadata,
    EnhancementImplementationsRef, EnhancementOptionsRef, HtmlSourceRef, LinkView,
    ObjectStateRef, ObjectStructureRef, PackageRef, ParserRef, RelatedRef, Resolution,
    SourceRef, SourceVersionsRef, TextElementsRef,
};
use crate::text::{
    before_first, before_first_exec, chars_of, clone_opt, eq_ignore_ascii_case, eq_ignore_case,
    opt_view, trim, trimmed,
};
use crate::uri::{uri_check, AdtUri, AdtUriError, UriCheck};
use crate::vocabulary::{relation_of, Relation};

verus! {

/// An Atom link as it appears in a program document.
#[derive(Debug)]
pub struct RawAtomLink {
    pub href: String,
    pub relation: Option<String>,
    pub media_type: Option<String>,
    pub hreflang: Option<String>,
    pub title: Option<String>,
    pub length: Option<String>,
    pub etag: Option<String>,
}

/// The package reference of a program document.
#[derive(Debug)]
pub struct RawPackage {
    pub name: String,
    pub uri: String,
    pub object_type: String,
}

/// The language element of a program's syntax configuration.
#[derive(Debug)]
pub struct RawSyntaxLanguage {
    pub version: String,
    pub description: String,
    pub links: Vec<RawAtomLink>,
}

/// The syntax configuration of a program document.
#[derive(Debug)]
pub struct RawSyntaxConfiguration {
    pub language: RawSyntaxLanguage,
}

/// The attributes and elements of a `program:abapProgram` document.
#[derive(Debug)]
pub struct RawProgram {
    pub name: String,
    pub object_type: String,
    pub last_changed: String,
    pub version: String,
    pub created_at: String,
    pub changed_by: String,
    pub description: String,
    pub description_text_limit: u32,
    pub language: String,
    pub locked_by_editor: bool,
    pub program_type: String,
    pub source_uri: String,
    pub fix_point_arithmetic: bool,
    pub unicode_check_active: bool,
    pub responsible: String,
    pub master_language: String,
    pub master_system: String,
    pub abap_language_version: String,
    pub package: RawPackage,
    pub syntax_configuration: RawSyntaxConfiguration,
    pub links: Vec<RawAtomLink>,
}

/// An ABAP language version, description, and optional parser grammar.
#[derive(Debug)]
pub struct SyntaxLanguage {
    /// The language version identifier, such as `X`.
    pub version: String,
    /// The server-provided language description.
    pub description: String,
    /// The parser grammar advertised for this language.
    pub parser: Option<ParserRef>,
    /// All links advertised for this language configuration.
    pub links: Vec<AdtLink>,
}

/// The source parser configuration advertised by a program.
#[derive(Debug)]
pub struct SyntaxConfiguration {
    /// The configured ABAP language.
    pub language: SyntaxLanguage,
}

/// A fetched ABAP program descriptor.
#[derive(Debug)]
pub struct Program {
    /// The program resource that was fetched.
    pub reference: ObjectRef<crate::objects::Program>,
    /// The program name supplied by SAP.
    pub name: String,
    /// The repository object type, normally `PROG/P`.
    pub object_type: String,
    /// The timestamp at which the program was last changed.
    pub last_changed: String,
    /// The object state, such as `active` or `inactive`.
    pub version: ObjectVersion,
    /// The timestamp at which the program was created.
    pub created_at: String,
    /// The user who last changed the program.
    pub changed_by: String,
    /// The program description.
    pub description: String,
    /// The maximum length of the program description.
    pub description_text_limit: u32,
    /// The program's logon language.
    pub language: String,
    /// Whether this program is locked by the current editor.
    pub locked_by_editor: bool,
    /// The semantic program type, such as `executableProgram`.
    pub program_type: String,
    /// Whether fixed-point arithmetic is enabled.
    pub fix_point_arithmetic: bool,
    /// Whether the active Unicode check is enabled.
    pub unicode_check_active: bool,
    /// The user responsible for the program.
    pub responsible: String,
    /// The program's master language.
    pub master_language: String,
    /// The program's master system.
    pub master_system: String,
    /// The configured ABAP language version.
    pub abap_language_version: String,
    /// The package containing the program.
    pub package: PackageRef,
    /// The syntax configuration and parser advertised for the source.
    pub syntax_configuration: SyntaxConfiguration,
    /// The advertised plain-text source representation.
    pub source: SourceRef,
    /// The advertised rendered HTML source representation.
    pub html_source: Option<HtmlSourceRef>,
    /// The source version-history resource.
    pub versions: Option<SourceVersionsRef>,
    /// The program's object-structure resource.
    pub object_structure: Option<ObjectStructureRef>,
    /// The program's text-elements resource.
    pub text_elements: Option<TextElementsRef>,
    /// Enhancement implementations associated with the program.
    pub enhancement_implementations: Option<EnhancementImplementationsRef>,
    /// Enhancement options associated with the program object.
    pub enhancement_options: Option<EnhancementOptionsRef>,
    /// Enhancement options associated with the program source.
    pub source_enhancement_options: Option<EnhancementOptionsRef>,
    /// A link to the program's other active or inactive state.
    pub object_state: Option<ObjectStateRef>,
    /// All top-level links advertised by the program representation.
    pub links: Vec<AdtLink>,
    /// The entity tag of this program descriptor, when present.
    pub etag: Option<String>,
}

/// The link that a raw Atom link resolves to against a base resource.
pub open spec fn link_of(base: Seq<char>, raw: RawAtomLink) -> Result<LinkView, UriCheck> {
    match href_resolution(base, raw.href@) {
        Ok(res) => Ok(
            LinkView {
                href: raw.href@,
                target: res.0,
                query: res.1,
                fragment: res.2,
                relation: opt_view(raw.relation),
                media_type: opt_view(raw.media_type),
                hreflang: opt_view(raw.hreflang),
                title: opt_view(raw.title),
                length: opt_view(raw.length),
                etag: opt_view(raw.etag),
            },
        ),
        Err(c) => Err(c),
    }
}

/// The links that raw Atom links resolve to, or the href and reason of the
/// first one that does not resolve.
pub open spec fn links_of(base: Seq<char>, raws: Seq<RawAtomLink>) -> Result<
    Seq<LinkView>,
    (Seq<char>, UriCheck),
>
    decreases raws.len(),
{
    if raws.len() == 0 {
        Ok(Seq::empty())
    } else {
        match links_of(base, raws.drop_last()) {
            Err(e) => Err(e),
            Ok(prefix) => match link_of(base, raws.last()) {
                Ok(l) => Ok(prefix.push(l)),
                Err(c) => Err((raws.last().href@, c)),
            },
        }
    }
}

/// Whether a link has a relation and, where one is expected, a media type
/// whose essence matches it case-insensitively.
pub open spec fn link_matches(l: LinkView, relation: Relation, media: Option<Seq<char>>) -> bool {
    &&& match l.relation {
        Some(r) => relation_of(r) == Some(relation),
        None => false,
    }
    &&& match media {
        None => true,
        Some(expected) => match l.media_type {
            Some(actual) => eq_ignore_case(trim(before_first(actual, ';')), expected),
            None => false,
        },
    }
}

/// Whether a matching link occurs first at index `k`.
pub open spec fn is_first_link(
    links: Seq<LinkView>,
    relation: Relation,
    media: Option<Seq<char>>,
    k: int,
) -> bool {
    &&& 0 <= k < links.len()
    &&& link_matches(links[k], relation, media)
    &&& forall|j: int| 0 <= j < k ==> !link_matches(#[trigger] links[j], relation, media)
}

/// The index of the first link with a relation (and media type).
pub open spec fn first_link(links: Seq<LinkView>, relation: Relation, media: Option<Seq<char>>) -> Option<int> {
    if exists|k: int| is_first_link(links, relation, media, k) {
        Some(choose|k: int| is_first_link(links, relation, media, k))
    } else {
        None
    }
}

/// The related reference that the first link with a relation (and media
/// type) yields.
pub open spec fn typed_link_view(
    links: Seq<LinkView>,
    relation: Relation,
    media: Option<Seq<char>>,
) -> Option<(Seq<char>, Seq<(Seq<char>, Seq<char>)>, Option<Seq<char>>, Option<Seq<char>>)> {
    match first_link(links, relation, media) {
        Some(k) => Some(link_target_view(links[k])),
        None => None,
    }
}

/// The view of an optional related reference.
pub open spec fn related_view<K>(r: Option<RelatedRef<K>>) -> Option<(Seq<char>, Seq<(Seq<char>, Seq<char>)>, Option<Seq<char>>, Option<Seq<char>>)> {
    match r {
        Some(r) => Some(r@),
        None => None,
    }
}

/// Why a program document is refused, as plain values.
pub enum ProgramFailure {
    InvalidPackageUri(Seq<char>, UriCheck),
    UnsupportedObjectVersion(Seq<char>),
    InvalidLink(Seq<char>, UriCheck),
    MissingSourceLink,
    SourceLinkMismatch(Seq<char>, Seq<char>),
}

impl ProgramError {
    /// The failure this error reports, for the errors that decoding a program
    /// document produces.
    pub open spec fn failure(self) -> Option<ProgramFailure> {
        match self {
            ProgramError::InvalidPackageUri { uri, source } => Some(
                ProgramFailure::InvalidPackageUri(uri@, source.check()),
            ),
            ProgramError::UnsupportedObjectVersion { version } => Some(
                ProgramFailure::UnsupportedObjectVersion(version@),
            ),
            ProgramError::InvalidLink { href, source } => Some(
                ProgramFailure::InvalidLink(href@, source.check()),
            ),
            ProgramError::MissingSourceLink => Some(ProgramFailure::MissingSourceLink),
            ProgramError::SourceLinkMismatch { declared, advertised } => Some(
                ProgramFailure::SourceLinkMismatch(declared@, advertised@),
            ),
            _ => None,
        }
    }
}

/// The media type of a plain-text source representation.
pub open spec fn plain_text() -> Seq<char> {
    "text/plain"@
}

/// The media type of a rendered HTML source representation.
pub open spec fn html_text() -> Seq<char> {
    "text/html"@
}

/// The first reason a program document is refused, checked in this order:
/// the package URI, the object version, the program's links, the presence of
/// a plain-text source link, the declared source URI and its agreement with
/// that link, and the syntax configuration's links.
pub open spec fn program_failure(base: Seq<char>, raw: RawProgram) -> Option<ProgramFailure> {
    match uri_check(raw.package.uri@) {
        UriCheck::Accepted(_) => if object_version_of(raw.version@) is None {
            Some(ProgramFailure::UnsupportedObjectVersion(raw.version@))
        } else {
            match links_of(base, raw.links@) {
                Err((h, c)) => Some(ProgramFailure::InvalidLink(h, c)),
                Ok(ls) => match first_link(ls, Relation::Source, Some(plain_text())) {
                    None => Some(ProgramFailure::MissingSourceLink),
                    Some(k) => match href_resolution(base, raw.source_uri@) {
                        Err(c) => Some(ProgramFailure::InvalidLink(raw.source_uri@, c)),
                        Ok(d) => if d.0 != ls[k].target {
                            Some(ProgramFailure::SourceLinkMismatch(d.0, ls[k].target))
                        } else {
                            match links_of(base, raw.syntax_configuration.language.links@) {
                                Err((h, c)) => Some(ProgramFailure::InvalidLink(h, c)),
                                Ok(_) => None,
                            }
                        },
                    },
                },
            }
        },
        c => Some(ProgramFailure::InvalidPackageUri(raw.package.uri@, c)),
    }
}

/// Resolves a document's raw links against a base resource, keeping their order.
pub fn resolve_links(base: &AdtUri, links: &Vec<RawAtomLink>) -> (r: Result<Vec<AdtLink>, ProgramError>)
    ensures
        match r {
            Ok(v) => links_of(base@, links@) == Ok::<Seq<LinkView>, (Seq<char>, UriCheck)>(
                links_view(v@),
            ),
            Err(e) => match e {
                ProgramError::InvalidLink { href, source } => links_of(base@, links@) == Err::<
                    Seq<LinkView>,
                    (Seq<char>, UriCheck),
                >((href@, source.check())),
                _ => false,
            },
        },
{
    let mut out: Vec<AdtLink> = Vec::new();
    let mut i: usize = 0;
    assert(links@.take(0) =~= Seq::<RawAtomLink>::empty());
    assert(links_view(out@) =~= Seq::<LinkView>::empty());
    while i < links.len()
        invariant
            i <= links.len(),
            links_of(base@, links@.take(i as int)) == Ok::<Seq<LinkView>, (Seq<char>, UriCheck)>(
                links_view(out@),
            ),
        decreases links.len() - i,
    {
        let raw = &links[i];
        assert(links@.take(i + 1).drop_last() =~= links@.take(i as int));
        assert(links@.take(i + 1).last() == links@[i as int]);
        let metadata = AdtLinkMetadata {
            relation: clone_opt(&raw.relation),
            media_type: clone_opt(&raw.media_type),
            hreflang: clone_opt(&raw.hreflang),
            title: clone_opt(&raw.title),
            length: clone_opt(&raw.length),
            etag: clone_opt(&raw.etag),
        };
        match AdtLink::from_href(base, raw.href.clone(), metadata) {
            Ok(link) => {
                assert(link@ == link_of(base@, links@[i as int])->Ok_0);
                let ghost before = out@;
                out.push(link);
                assert(links_view(out@) =~= links_view(before).push(link@));
                assert(links_of(base@, links@.take(i + 1)) == Ok::<
                    Seq<LinkView>,
                    (Seq<char>, UriCheck),
                >(links_view(before).push(link@)));
            },
            Err(source) => {
                assert(links_of(base@, links@.take(i + 1)) == Err::<
                    Seq<LinkView>,
                    (Seq<char>, UriCheck),
                >((raw.href@, source.check())));
                proof {
                    lemma_links_of_failure_persists(base@, links@, i as int + 1);
                }
                return Err(ProgramError::InvalidLink { href: raw.href.clone(), source });
            },
        }
        i += 1;
    }
    assert(links@.take(links.len() as int) =~= links@);
    Ok(out)
}

/// Once a prefix of the links fails to resolve, the whole list fails the same way.
proof fn lemma_links_of_failure_persists(base: Seq<char>, raws: Seq<RawAtomLink>, n: int)
    requires
        0 <= n <= raws.len(),
        links_of(base, raws.take(n)) is Err,
    ensures
        links_of(base, raws) == links_of(base, raws.take(n)),
    decreases raws.len() - n,
{
    if n < raws.len() {
        assert(raws.take(n + 1).drop_last() =~= raws.take(n));
        lemma_links_of_failure_persists(base, raws, n + 1);
    } else {
        assert(raws.take(n) =~= raws);
    }
}

/// Finds the first link with a relation and, where given, a media type.
pub fn find_link(links: &[AdtLink], relation: Relation, media_type: Option<&str>) -> (r: Option<usize>)
    ensures
        match r {
            Some(k) => first_link(
                links_view(links@),
                relation,
                match media_type {
                    Some(m) => Some(m@),
                    None => None,
                },
            ) == Some(k as int),
            None => first_link(
                links_view(links@),
                relation,
                match media_type {
                    Some(m) => Some(m@),
                    None => None,
                },
            ) is None,
        },
{
    let ghost media: Option<Seq<char>> = match media_type {
        Some(m) => Some(m@),
        None => None,
    };
    let ghost ls = links_view(links@);
    let mut i: usize = 0;
    while i < links.len()
        invariant
            i <= links.len(),
            ls == links_view(links@),
            media == match media_type {
                Some(m) => Some(m@),
                None => None,
            },
            forall|j: int| 0 <= j < i ==> !link_matches(#[trigger] ls[j], relation, media),
        decreases links.len() - i,
    {
        let link = &links[i];
        let relation_ok = match &link.relation {
            Some(r) => match Relation::from_uri(r.as_str()) {
                Some(found) => found == relation,
                None => false,
            },
            None => false,
        };
        let media_ok = match media_type {
            None => true,
            Some(expected) => match &link.media_type {
                Some(actual) => {
                    let cs = chars_of(actual.as_str());
                    let essence = before_first_exec(cs.as_slice(), ';');
                    let t = trimmed(essence.as_slice());
                    let e = chars_of(expected);
                    let res = eq_ignore_ascii_case(t.as_slice(), e.as_slice());
                    assert(media == Some(expected@));
                    assert(link@.media_type == Some(actual@));
                    assert(res == eq_ignore_case(trim(before_first(actual@, ';')), expected@));
                    res
                },
                None => false,
            },
        };
        assert(ls[i as int] == link@);
        assert(relation_ok == match link@.relation {
            Some(r) => relation_of(r) == Some(relation),
            None => false,
        });
        assert(media_ok == match media {
            None => true,
            Some(expected) => match link@.media_type {
                Some(actual) => eq_ignore_case(trim(before_first(actual, ';')), expected),
                None => false,
            },
        });
        if relation_ok && media_ok {
            assert(is_first_link(ls, relation, media, i as int));
            proof {
                let k = choose|k: int| is_first_link(ls, relation, media, k);
                assert(k == i as int);
            }
            return Some(i);
        }
        i += 1;
    }
    None
}

/// The related reference behind the first link with a relation.
pub fn typed_link<K>(links: &[AdtLink], relation: Relation) -> (r: Option<RelatedRef<K>>)
    ensures
        related_view(r) == typed_link_view(links_view(links@), relation, None),
{
    match find_link(links, relation, None) {
        Some(k) => Some(RelatedRef::from_link(&links[k])),
        None => None,
    }
}

impl Program {
    /// Validates a decoded program document and resolves its links against
    /// the program resource.
    pub fn from_raw(
        reference: ObjectRef<crate::objects::Program>,
        raw: RawProgram,
        etag: Option<String>,
    ) -> (r: Result<Self, ProgramError>)
        ensures
            match r {
                Err(e) => e.failure() is Some && program_failure(reference@.1, raw)
                    == e.failure(),
                Ok(p) => {
                    let base = reference@.1;
                    let ls = links_of(base, raw.links@)->Ok_0;
                    let k = first_link(ls, Relation::Source, Some(plain_text()))->Some_0;
                    &&& program_failure(base, raw) is None
                    &&& p.reference@ == reference@
                    &&& p.name == raw.name
                    &&& p.object_type == raw.object_type
                    &&& p.last_changed == raw.last_changed
                    &&& Some(p.version) == object_version_of(raw.version@)
                    &&& p.created_at == raw.created_at
                    &&& p.changed_by == raw.changed_by
                    &&& p.description == raw.description
                    &&& p.description_text_limit == raw.description_text_limit
                    &&& p.language == raw.language
                    &&& p.locked_by_editor == raw.locked_by_editor
                    &&& p.program_type == raw.program_type
                    &&& p.fix_point_arithmetic == raw.fix_point_arithmetic
                    &&& p.unicode_check_active == raw.unicode_check_active
                    &&& p.responsible == raw.responsible
                    &&& p.master_language == raw.master_language
                    &&& p.master_system == raw.master_system
                    &&& p.abap_language_version == raw.abap_language_version
                    &&& p.package.name == raw.package.name
                    &&& p.package.object_type == raw.package.object_type
                    &&& uri_check(raw.package.uri@) == UriCheck::Accepted(p.package.object@.1)
                    &&& p.package.object@.0 == Seq::<char>::empty()
                    &&& links_view(p.links@) == ls
                    &&& p.source.object@ == reference@
                    &&& (p.source.uri@, crate::text::pairs_view(p.source.query@), opt_view(
                        p.source.fragment,
                    ), opt_view(p.source.etag)) == link_target_view(ls[k])
                    &&& related_view(p.html_source) == typed_link_view(
                        ls,
                        Relation::Source,
                        Some(html_text()),
                    )
                    &&& related_view(p.versions) == typed_link_view(ls, Relation::Versions, None)
                    &&& related_view(p.object_structure) == typed_link_view(
                        ls,
                        Relation::ObjectStructure,
                        None,
                    )
                    &&& related_view(p.text_elements) == typed_link_view(
                        ls,
                        Relation::TextElements,
                        None,
                    )
                    &&& related_view(p.enhancement_implementations) == typed_link_view(
                        ls,
                        Relation::EnhancementImplementations,
                        None,
                    )
                    &&& related_view(p.enhancement_options) == typed_link_view(
                        ls,
                        Relation::ObjectEnhancementOptions,
                        None,
                    )
                    &&& related_view(p.source_enhancement_options) == typed_link_view(
                        ls,
                        Relation::SourceEnhancementOptions,
                        None,
                    )
                    &&& related_view(p.object_state) == typed_link_view(
                        ls,
                        Relation::ObjectStates,
                        None,
                    )
                    &&& p.syntax_configuration.language.version
                        == raw.syntax_configuration.language.version
                    &&& p.syntax_configuration.language.description
                        == raw.syntax_configuration.language.description
                    &&& links_of(base, raw.syntax_configuration.language.links@) == Ok::<
                        Seq<LinkView>,
                        (Seq<char>, UriCheck),
                    >(links_view(p.syntax_configuration.language.links@))
                    &&& related_view(p.syntax_configuration.language.parser) == typed_link_view(
                        links_view(p.syntax_configuration.language.links@),
                        Relation::Parser,
                        None,
                    )
                    &&& p.etag == etag
                },
            },
    {
        let package_object = match ObjectRef::parse(raw.package.uri.as_str()) {
            Ok(o) => o,
            Err(source) => {
                return Err(ProgramError::InvalidPackageUri { uri: raw.package.uri, source });
            },
        };
        let version = match ObjectVersion::parse(raw.version.as_str()) {
            Some(v) => v,
            None => return Err(ProgramError::UnsupportedObjectVersion { version: raw.version }),
        };
        let links = match resolve_links(reference.uri(), &raw.links) {
            Ok(l) => l,
            Err(e) => return Err(e),
        };
        let ghost ls = links_view(links@);
        let source_index = match find_link(links.as_slice(), Relation::Source, Some("text/plain")) {
            Some(k) => k,
            None => return Err(ProgramError::MissingSourceLink),
        };
        let source = SourceRef::from_link(reference.erase(), &links[source_index]);
        let declared_source = match resolve_href(reference.uri(), raw.source_uri.as_str()) {
            Ok(d) => d,
            Err(source) => {
                return Err(ProgramError::InvalidLink { href: raw.source_uri, source });
            },
        };
        if declared_source.target != source.uri {
            return Err(
                ProgramError::SourceLinkMismatch {
                    declared: declared_source.target.as_str().to_owned(),
                    advertised: source.uri.as_str().to_owned(),
                },
            );
        }
        let html_source: Option<HtmlSourceRef> = match find_link(
            links.as_slice(),
            Relation::Source,
            Some("text/html"),
        ) {
            Some(k) => Some(RelatedRef::from_link(&links[k])),
            None => None,
        };
        let versions: Option<SourceVersionsRef> = typed_link(links.as_slice(), Relation::Versions);
        let object_structure: Option<ObjectStructureRef> = typed_link(
            links.as_slice(),
            Relation::ObjectStructure,
        );
        let text_elements: Option<TextElementsRef> = typed_link(
            links.as_slice(),
            Relation::TextElements,
        );
        let enhancement_implementations: Option<EnhancementImplementationsRef> = typed_link(
            links.as_slice(),
            Relation::EnhancementImplementations,
        );
        let enhancement_options: Option<EnhancementOptionsRef> = typed_link(
            links.as_slice(),
            Relation::ObjectEnhancementOptions,
        );
        let source_enhancement_options: Option<EnhancementOptionsRef> = typed_link(
            links.as_slice(),
            Relation::SourceEnhancementOptions,
        );
        let object_state: Option<ObjectStateRef> = typed_link(
            links.as_slice(),
            Relation::ObjectStates,
        );
        let syntax_links = match resolve_links(
            reference.uri(),
            &raw.syntax_configuration.language.links,
        ) {
            Ok(l) => l,
            Err(e) => return Err(e),
        };
        let parser: Option<ParserRef> = typed_link(syntax_links.as_slice(), Relation::Parser);
        let package = PackageRef::new(raw.package.name, raw.package.object_type, package_object);
        Ok(
            Program {
                reference,
                name: raw.name,
                object_type: raw.object_type,
                last_changed: raw.last_changed,
                version,
                created_at: raw.created_at,
                changed_by: raw.changed_by,
                description: raw.description,
                description_text_limit: raw.description_text_limit,
                language: raw.language,
                locked_by_editor: raw.locked_by_editor,
                program_type: raw.program_type,
                fix_point_arithmetic: raw.fix_point_arithmetic,
                unicode_check_active: raw.unicode_check_active,
                responsible: raw.responsible,
                master_language: raw.master_language,
                master_system: raw.master_system,
                abap_language_version: raw.abap_language_version,
                package,
                syntax_configuration: SyntaxConfiguration {
                    language: SyntaxLanguage {
                        version: raw.syntax_configuration.language.version,
                        description: raw.syntax_configuration.language.description,
                        parser,
                        links: syntax_links,
                    },
                },
                source,
                html_source,
                versions,
                object_structure,
                text_elements,
                enhancement_implementations,
                enhancement_options,
                source_enhancement_options,
                object_state,
                links,
                etag,
            },
        )
    }
}

} // verus!
