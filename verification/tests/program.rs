use zadt::program::{
    resolve_links, typed_link, RawAtomLink, RawPackage, RawProgram, RawSyntaxConfiguration,
    RawSyntaxLanguage,
};
use zadt::program_query::{ProgramDecoding, ProgramMediaVersion, ProgramQuery, ProgramResponse};
use zadt::{AdtResponse, AdtUri, ObjectRef, ObjectVersion, Program, ProgramError, Relation, ResponseError};

const PROGRAM: &str = "/sap/bc/adt/programs/programs/Z_TEST";

fn link(href: &str, rel: &str, media: Option<&str>, etag: Option<&str>) -> RawAtomLink {
    RawAtomLink {
        href: href.to_owned(),
        relation: Some(rel.to_owned()),
        media_type: media.map(str::to_owned),
        hreflang: None,
        title: None,
        length: None,
        etag: etag.map(str::to_owned),
    }
}

fn raw_program() -> RawProgram {
    RawProgram {
        name: "Z_TEST".to_owned(),
        object_type: "PROG/P".to_owned(),
        last_changed: "2026-07-25T19:59:58Z".to_owned(),
        version: "inactive".to_owned(),
        created_at: "2026-07-25T00:00:00Z".to_owned(),
        changed_by: "DEVELOPER".to_owned(),
        description: "Test program".to_owned(),
        description_text_limit: 70,
        language: "EN".to_owned(),
        locked_by_editor: false,
        program_type: "executableProgram".to_owned(),
        source_uri: "source/main".to_owned(),
        fix_point_arithmetic: true,
        unicode_check_active: true,
        responsible: "DEVELOPER".to_owned(),
        master_language: "EN".to_owned(),
        master_system: "DEV".to_owned(),
        abap_language_version: "X".to_owned(),
        package: RawPackage {
            name: "$TMP".to_owned(),
            uri: "/sap/bc/adt/packages/%24tmp".to_owned(),
            object_type: "DEVC/K".to_owned(),
        },
        syntax_configuration: RawSyntaxConfiguration {
            language: RawSyntaxLanguage {
                version: "X".to_owned(),
                description: "Standard ABAP".to_owned(),
                links: vec![link(
                    "/sap/bc/adt/abapsource/parsers/rnd/grammar",
                    "http://www.sap.com/adt/relations/abapsource/parser",
                    Some("text/plain"),
                    Some("757"),
                )],
            },
        },
        links: vec![
            link("versions", "http://www.sap.com/adt/relations/versions", None, None),
            link(
                "source/main",
                "http://www.sap.com/adt/relations/source",
                Some("text/plain"),
                Some("202607251959580001"),
            ),
            link("source/main", "http://www.sap.com/adt/relations/source", Some("text/html"), None),
            link("objectstructure", "http://www.sap.com/adt/relations/objectstructure", None, None),
            link(
                "/sap/bc/adt/textelements/programs/z_test",
                "http://www.sap.com/adt/relations/sources/textelements",
                None,
                None,
            ),
            link(
                "enhancements",
                "http://www.sap.com/adt/relations/enhancementImplementations",
                None,
                None,
            ),
            link(
                "enhancementoptions",
                "http://www.sap.com/adt/relations/enhancementOptionsOfMainObject",
                None,
                None,
            ),
            link(
                "source/main/enhancementoptions",
                "http://www.sap.com/adt/relations/enhancementOptions",
                None,
                None,
            ),
            link("?version=active", "http://www.sap.com/adt/relations/objectstates", None, None),
        ],
    }
}

fn program_ref() -> ObjectRef<Program> {
    ObjectRef::<Program>::from_parts("Z_TEST".to_owned(), AdtUri::parse(PROGRAM).unwrap()).unwrap()
}

fn parse(raw: RawProgram) -> Result<zadt::program::Program, ProgramError> {
    zadt::program::Program::from_raw(program_ref(), raw, Some("program-etag".to_owned()))
}

#[test]
fn parses_program_response() {
    let program = parse(raw_program()).unwrap();
    assert_eq!(program.name, "Z_TEST");
    assert_eq!(program.version, ObjectVersion::Inactive);
    assert_eq!(program.etag.as_deref(), Some("program-etag"));
    assert_eq!(program.source.uri.as_str(), "/sap/bc/adt/programs/programs/Z_TEST/source/main");
    assert_eq!(program.source.etag.as_deref(), Some("202607251959580001"));
    assert_eq!(program.links.len(), 9);
    assert_eq!(program.syntax_configuration.language.links.len(), 1);
    assert_eq!(
        program.syntax_configuration.language.parser.as_ref().unwrap().etag.as_deref(),
        Some("757")
    );
}

#[test]
fn rejects_unsupported_program_object_version() {
    let mut raw = raw_program();
    raw.version = "dirty".to_owned();
    let error = parse(raw).unwrap_err();
    assert!(matches!(
        error,
        ProgramError::UnsupportedObjectVersion { version } if version == "dirty"
    ));
}

#[test]
fn rejects_program_without_plain_text_source_link() {
    let mut raw = raw_program();
    raw.links[1].media_type = Some("application/octet-stream".to_owned());
    let error = parse(raw).unwrap_err();
    assert!(matches!(error, ProgramError::MissingSourceLink));
}

#[test]
fn rejects_disagreement_between_source_attribute_and_link() {
    let mut raw = raw_program();
    raw.source_uri = "source/other".to_owned();
    let error = parse(raw).unwrap_err();
    assert!(matches!(
        error,
        ProgramError::SourceLinkMismatch { declared, advertised }
            if declared.ends_with("/source/other") && advertised.ends_with("/source/main")
    ));
}

#[test]
fn retains_unknown_link_relations_and_representation_metadata() {
    let base = AdtUri::parse("/sap/bc/adt/programs/programs/ZDEMO").unwrap();
    let links = resolve_links(
        &base,
        &vec![RawAtomLink {
            href: "related/resource?version=active#section".to_owned(),
            relation: Some("https://example.test/relations/future".to_owned()),
            media_type: Some("application/example+xml".to_owned()),
            hreflang: Some("en".to_owned()),
            title: Some("Future relation".to_owned()),
            length: Some("42".to_owned()),
            etag: Some("future-etag".to_owned()),
        }],
    )
    .unwrap();

    let link = &links[0];
    assert_eq!(link.href, "related/resource?version=active#section");
    assert_eq!(link.target.as_str(), "/sap/bc/adt/programs/programs/ZDEMO/related/resource");
    assert_eq!(link.query, [("version".to_owned(), "active".to_owned())]);
    assert_eq!(link.fragment.as_deref(), Some("section"));
    assert_eq!(link.relation.as_deref(), Some("https://example.test/relations/future"));
    assert_eq!(link.media_type.as_deref(), Some("application/example+xml"));
    assert_eq!(link.hreflang.as_deref(), Some("en"));
    assert_eq!(link.title.as_deref(), Some("Future relation"));
    assert_eq!(link.length.as_deref(), Some("42"));
    assert_eq!(link.etag.as_deref(), Some("future-etag"));
    assert!(typed_link::<zadt::Parser>(&links, Relation::Parser).is_none());
}

fn program_response(representation: ProgramMediaVersion) -> AdtResponse {
    let content_type = format!("{}; charset=utf-8", representation.media_type());
    AdtResponse::new(
        200,
        vec![
            ("content-type".to_owned(), content_type),
            ("etag".to_owned(), "program-etag".to_owned()),
        ],
        b"<program/>".to_vec(),
    )
}

fn decode(query: &ProgramQuery, response: AdtResponse) -> ProgramResponse {
    match query.decode_head(&response).unwrap() {
        ProgramDecoding::Decode { version, etag } => query.finish(version, raw_program(), etag).unwrap(),
        ProgramDecoding::NotModified { .. } => panic!("expected a program body"),
    }
}

#[test]
fn program_tags_a_v2_program_response() {
    let query = program_ref().query();
    let response = decode(&query, program_response(ProgramMediaVersion::V2));
    assert!(matches!(response, ProgramResponse::V2(_)));
}

#[test]
fn program_tags_a_v3_program_response() {
    let query = program_ref().query();
    let response = decode(&query, program_response(ProgramMediaVersion::V3));
    assert!(matches!(response, ProgramResponse::V3(_)));
}

#[test]
fn programs_tags_a_v2_program_response() {
    let query = program_ref().query();
    let response = decode(&query, program_response(ProgramMediaVersion::V2));
    assert!(matches!(response, ProgramResponse::V2(_)));
    assert_eq!(response.media_version(), Some(ProgramMediaVersion::V2));
    assert_eq!(response.etag(), Some("program-etag"));
}

#[test]
fn programs_tags_a_v3_program_response() {
    let query = program_ref().query();
    let response = decode(&query, program_response(ProgramMediaVersion::V3));
    assert!(matches!(response, ProgramResponse::V3(_)));
    assert!(response.as_program().is_some());
}

#[test]
fn program_queries_negotiate_the_first_accepted_representation() {
    let query = program_ref().query();
    let accepted = vec!["application/vnd.sap.adt.programs.programs.v2+xml; charset=utf-8".to_owned()];
    let request = query.request(Some(&accepted)).unwrap();
    assert_eq!(request.header("accept"), Some("application/vnd.sap.adt.programs.programs.v2+xml"));
    assert_eq!(request.header("cache-control"), Some("no-cache"));
    assert!(request.query().is_empty());

    let mut conditional = program_ref().query();
    conditional.etag = Some("cached".to_owned());
    conditional.version = Some(ObjectVersion::Active);
    let both = vec![
        "application/vnd.sap.adt.programs.programs.v2+xml".to_owned(),
        "application/vnd.sap.adt.programs.programs.v3+xml".to_owned(),
    ];
    let request = conditional.request(Some(&both)).unwrap();
    assert_eq!(request.header("accept"), Some("application/vnd.sap.adt.programs.programs.v3+xml"));
    assert_eq!(request.header("if-none-match"), Some("cached"));
    assert_eq!(request.header("cache-control"), None);
    assert_eq!(request.query(), [("version".to_owned(), "active".to_owned())]);
}

#[test]
fn program_queries_report_missing_and_unsupported_representations() {
    let query = program_ref().query();
    assert!(matches!(
        query.request(None),
        Err(zadt::OperationError::Response(ResponseError::Program(ProgramError::MissingCollection)))
    ));
    let accepted = vec!["application/xml".to_owned()];
    match query.request(Some(&accepted)) {
        Err(zadt::OperationError::Response(ResponseError::Program(
            ProgramError::UnsupportedRepresentation { preferred, accepted },
        ))) => {
            assert_eq!(
                preferred,
                [
                    "application/vnd.sap.adt.programs.programs.v3+xml",
                    "application/vnd.sap.adt.programs.programs.v2+xml"
                ]
            );
            assert_eq!(accepted, ["application/xml"]);
        }
        other => panic!("unexpected outcome {other:?}"),
    }
    let mut bad = program_ref().query();
    bad.etag = Some("tag\r\ninjected".to_owned());
    let v3 = vec!["application/vnd.sap.adt.programs.programs.v3+xml".to_owned()];
    assert!(matches!(
        bad.request(Some(&v3)),
        Err(zadt::OperationError::Response(ResponseError::Program(ProgramError::InvalidEntityTag(_))))
    ));
}

#[test]
fn program_responses_report_status_and_content_type_problems() {
    let query = program_ref().query();
    let not_modified = AdtResponse::new(304, vec![("etag".to_owned(), "same".to_owned())], Vec::new());
    match query.decode_head(&not_modified).unwrap() {
        ProgramDecoding::NotModified { etag } => assert_eq!(etag.as_deref(), Some("same")),
        other => panic!("unexpected {other:?}"),
    }
    let failed = AdtResponse::new(500, Vec::new(), b"boom".to_vec());
    assert!(matches!(
        query.decode_head(&failed),
        Err(ResponseError::UnexpectedStatus { status: 500, body }) if body == "boom"
    ));
    let untyped = AdtResponse::new(200, Vec::new(), b"<program/>".to_vec());
    assert!(matches!(
        query.decode_head(&untyped),
        Err(ResponseError::Program(ProgramError::MissingContentType))
    ));
    let other = AdtResponse::new(200, vec![("content-type".to_owned(), "text/html".to_owned())], Vec::new());
    assert!(matches!(
        query.decode_head(&other),
        Err(ResponseError::Program(ProgramError::UnsupportedContentType { content_type })) if content_type == "text/html"
    ));
    assert_eq!(
        ProgramMediaVersion::from_media_type(" APPLICATION/VND.SAP.ADT.PROGRAMS.PROGRAMS.V3+XML ;charset=utf-8"),
        Some(ProgramMediaVersion::V3)
    );
}
