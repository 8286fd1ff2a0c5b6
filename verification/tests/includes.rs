use zadt::include_query::{IncludeDecoding, IncludeMediaVersion, IncludeQuery, IncludeResponse};
use zadt::{AdtResponse, AdtUri, Include, IncludeError, ObjectRef, ObjectVersion, OperationError, ResponseError};

const V2: &str = "application/vnd.sap.adt.programs.includes.v2+xml";

fn include_ref() -> ObjectRef<Include> {
    ObjectRef::<Include>::from_parts(
        "ZTEST".to_owned(),
        AdtUri::parse("/sap/bc/adt/programs/includes/ZTEST").unwrap(),
    )
    .unwrap()
}

fn include_query() -> IncludeQuery {
    include_ref().query()
}

#[test]
fn include_query_defaults_to_v2() {
    assert_eq!(include_query().priority, [IncludeMediaVersion::V2]);
}

#[test]
fn returns_not_modified_for_a_current_include_etag() {
    let response = AdtResponse::new(304, vec![("etag".to_owned(), "include-etag".to_owned())], Vec::new());

    let decoding = include_query().decode_head(&response).unwrap();

    match decoding {
        IncludeDecoding::NotModified { etag } => assert_eq!(etag.as_deref(), Some("include-etag")),
        other => panic!("unexpected {other:?}"),
    }
}

#[test]
fn tags_a_v2_descriptor_with_its_entity_tag() {
    let response = AdtResponse::new(
        200,
        vec![
            ("content-type".to_owned(), V2.to_owned()),
            ("etag".to_owned(), "include-etag".to_owned()),
        ],
        b"<descriptor/>".to_vec(),
    );
    let query = include_query();
    let (version, etag) = match query.decode_head(&response).unwrap() {
        IncludeDecoding::Decode { version, etag } => (version, etag),
        other => panic!("unexpected {other:?}"),
    };
    assert_eq!(version, IncludeMediaVersion::V2);
    assert_eq!(etag.as_deref(), Some("include-etag"));

    let response = query.finish(version, "descriptor", etag);
    assert!(matches!(response, IncludeResponse::V2(_)));
    assert_eq!(response.etag(), Some("include-etag"));
    assert_eq!(response.media_version(), Some(IncludeMediaVersion::V2));
    assert_eq!(response.as_include(), Some(&"descriptor"));
    assert_eq!(response.into_include(), Some("descriptor"));

    let current: IncludeResponse<&str> = IncludeResponse::NotModified { etag: None };
    assert_eq!(current.media_version(), None);
    assert_eq!(current.etag(), None);
    let cached: IncludeResponse<&str> = IncludeResponse::NotModified { etag: Some("include-etag".to_owned()) };
    assert_eq!(cached.etag(), Some("include-etag"));
    assert!(current.as_include().is_none());
}

#[test]
fn include_queries_negotiate_and_revalidate() {
    let accepted = vec![format!("{V2}; charset=utf-8")];
    let request = include_query().request(Some(&accepted)).unwrap();
    assert_eq!(request.target().as_str(), "/sap/bc/adt/programs/includes/ZTEST");
    assert_eq!(request.header("accept"), Some(V2));
    assert_eq!(request.header("cache-control"), Some("no-cache"));
    assert!(request.query().is_empty());

    let mut conditional = include_query();
    conditional.etag = Some("cached".to_owned());
    conditional.version = Some(ObjectVersion::Inactive);
    let request = conditional.request(Some(&accepted)).unwrap();
    assert_eq!(request.header("if-none-match"), Some("cached"));
    assert_eq!(request.header("cache-control"), None);
    assert_eq!(request.query(), [("version".to_owned(), "inactive".to_owned())]);
}

#[test]
fn include_queries_report_negotiation_and_response_problems() {
    assert!(matches!(
        include_query().request(None),
        Err(OperationError::Response(ResponseError::Include(IncludeError::MissingCollection)))
    ));
    let xml = vec!["application/xml".to_owned()];
    match include_query().request(Some(&xml)) {
        Err(OperationError::Response(ResponseError::Include(IncludeError::UnsupportedRepresentation {
            preferred,
            accepted,
        }))) => {
            assert_eq!(preferred, [V2]);
            assert_eq!(accepted, ["application/xml"]);
        }
        other => panic!("unexpected {other:?}"),
    }
    let mut bad = include_query();
    bad.etag = Some("tag\r\ninjected".to_owned());
    assert!(matches!(
        bad.request(Some(&[V2.to_owned()])),
        Err(OperationError::Response(ResponseError::Include(IncludeError::InvalidEntityTag(_))))
    ));

    let query = include_query();
    let failed = AdtResponse::new(404, Vec::new(), b"missing".to_vec());
    assert!(matches!(
        query.decode_head(&failed),
        Err(ResponseError::UnexpectedStatus { status: 404, body }) if body == "missing"
    ));
    let untyped = AdtResponse::new(200, Vec::new(), b"<x/>".to_vec());
    assert!(matches!(
        query.decode_head(&untyped),
        Err(ResponseError::Include(IncludeError::MissingContentType))
    ));
    let program = AdtResponse::new(
        200,
        vec![("content-type".to_owned(), "application/vnd.sap.adt.programs.programs.v2+xml".to_owned())],
        b"<x/>".to_vec(),
    );
    assert!(matches!(
        query.decode_head(&program),
        Err(ResponseError::Include(IncludeError::UnsupportedContentType { content_type }))
            if content_type == "application/vnd.sap.adt.programs.programs.v2+xml"
    ));
}
