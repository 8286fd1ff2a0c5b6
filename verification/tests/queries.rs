use zadt::class_source::ClassSourceComponent;
use zadt::transport_query::{QueryTransportKind, TransportsQuery};
use zadt::{
    batch_request, AdtRequest, AdtResponse, AdtUri, BatchError, BatchKey, BatchSlots, Class,
    HttpMethod, ObjectRef, ResponseError, TransportKind,
};

#[test]
fn transport_queries_find_the_users_transports() {
    let collection = AdtUri::parse("/sap/bc/adt/cts/transports").unwrap();
    let request = TransportsQuery::new().request(&collection);
    assert_eq!(request.target().as_str(), "/sap/bc/adt/cts/transports");
    assert_eq!(
        request.query(),
        [("_action".to_owned(), "FIND".to_owned()), ("trfunction".to_owned(), "K".to_owned())]
    );
    let query = TransportsQuery::builder().user("OTHER_USER").kind(QueryTransportKind::All).build();
    let request = query.request(&collection);
    assert_eq!(
        request.query(),
        [
            ("_action".to_owned(), "FIND".to_owned()),
            ("user".to_owned(), "OTHER_USER".to_owned()),
            ("trfunction".to_owned(), "*".to_owned()),
        ]
    );
    assert_eq!(QueryTransportKind::from_kind(TransportKind::Customizing).as_str(), "W");
}

#[test]
fn transport_responses_are_checked_before_decoding() {
    let query = TransportsQuery::new();
    let empty = AdtResponse::new(200, Vec::new(), Vec::new());
    assert_eq!(query.decode_head(&empty).unwrap().unwrap().len(), 0);
    let listed = AdtResponse::new(
        200,
        vec![(
            "content-type".to_owned(),
            "application/vnd.sap.as+xml;dataname=com.sap.adt.CorrectionRequests; charset=utf-8".to_owned(),
        )],
        b"<asx:abap/>".to_vec(),
    );
    assert!(query.decode_head(&listed).unwrap().is_none());
    let wrong = AdtResponse::new(
        200,
        vec![("content-type".to_owned(), "application/vnd.sap.as+xml; dataname=com.sap.adt.other".to_owned())],
        b"<asx:abap/>".to_vec(),
    );
    assert!(matches!(query.decode_head(&wrong), Err(ResponseError::UnsupportedContentType { .. })));
    let untyped = AdtResponse::new(200, Vec::new(), b"<asx:abap/>".to_vec());
    assert!(matches!(query.decode_head(&untyped), Err(ResponseError::MissingContentType { .. })));
    let failed = AdtResponse::new(500, Vec::new(), b"CTS failure".to_vec());
    assert!(matches!(
        query.decode_head(&failed),
        Err(ResponseError::UnexpectedStatus { status: 500, body }) if body == "CTS failure"
    ));
}

#[test]
fn class_components_lie_beneath_the_class() {
    let class = ObjectRef::<Class>::from_parts(
        "ZCL_DEMO".to_owned(),
        AdtUri::parse("/sap/bc/adt/oo/classes/zcl_demo").unwrap(),
    )
    .unwrap();
    let main = class.component_source(ClassSourceComponent::Main).unwrap();
    assert_eq!(main.uri.as_str(), "/sap/bc/adt/oo/classes/zcl_demo/source/main");
    let tests = class.component_source(ClassSourceComponent::TestClasses).unwrap();
    assert_eq!(tests.uri.as_str(), "/sap/bc/adt/oo/classes/zcl_demo/includes/testclasses");
    assert_eq!(ClassSourceComponent::Definitions.as_str(), "definitions");
    assert_eq!(ClassSourceComponent::Macros.path(), ["includes", "macros"]);
}

#[test]
fn batch_requests_carry_their_parts_and_refuse_emptiness() {
    let endpoint = AdtUri::parse("/sap/bc/adt/core/batch").unwrap();
    assert!(matches!(batch_request(&endpoint, &[], "batch_test"), Err(BatchError::Empty)));
    let read = AdtRequest::new(HttpMethod::Get, AdtUri::parse("/sap/bc/adt/test/read").unwrap());
    let request = batch_request(&endpoint, &[read], "batch_test").unwrap();
    assert_eq!(request.method(), HttpMethod::Post);
    assert_eq!(request.header("accept"), Some("multipart/mixed"));
    assert_eq!(request.header("content-type"), Some("multipart/mixed; boundary=batch_test"));
    let body = String::from_utf8(request.body().to_vec()).unwrap();
    assert!(body.starts_with("--batch_test\r\n"));
    assert!(body.ends_with("--batch_test--"));
}

#[test]
fn batch_slots_are_taken_once_and_only_by_their_batch() {
    let mut slots: BatchSlots<u32> = BatchSlots {
        batch: 7,
        slots: vec![
            Some(Ok(42)),
            Some(Err(ResponseError::UnexpectedStatus { status: 404, body: "missing".to_owned() })),
        ],
    };
    let first: BatchKey<u32> = BatchKey { batch: 7, index: 0, response: std::marker::PhantomData };
    let second: BatchKey<u32> = BatchKey { batch: 7, index: 1, response: std::marker::PhantomData };
    let foreign: BatchKey<u32> = BatchKey { batch: 8, index: 0, response: std::marker::PhantomData };
    assert!(matches!(slots.take(&foreign), Err(BatchError::ForeignBatch)));
    assert_eq!(slots.take(&first).unwrap(), 42);
    assert!(matches!(slots.take(&first), Err(BatchError::MissingResponse { index: 0 })));
    assert!(matches!(
        slots.take(&second),
        Err(BatchError::Decode { index: 1, source }) if matches!(*source, ResponseError::UnexpectedStatus { status: 404, .. })
    ));
    let beyond: BatchKey<u32> = BatchKey { batch: 7, index: 5, response: std::marker::PhantomData };
    assert!(matches!(slots.take(&beyond), Err(BatchError::MissingResponse { index: 5 })));
    assert_eq!(slots.len(), 2);
}

#[test]
fn batch_responses_must_be_accepted_and_complete() {
    let failed = AdtResponse::new(500, Vec::new(), b"failure".to_vec());
    assert!(matches!(
        zadt::decode_batch_response(&failed, 1, 1),
        Err(ResponseError::UnexpectedStatus { status: 500, .. })
    ));
    let body = b"--b\r\nContent-Type: application/http\r\n\r\nHTTP/1.1 200 OK\r\n\r\nhello\r\n--b--\r\n".to_vec();
    let response = AdtResponse::new(202, vec![("content-type".to_owned(), "multipart/mixed; boundary=b".to_owned())], body);
    let parts = zadt::decode_batch_response(&response, 1, 1).unwrap();
    assert_eq!(parts[0].status(), 200);
    assert!(matches!(
        zadt::decode_batch_response(&response, 2, 2),
        Err(ResponseError::Batch(BatchError::ResponseCount { expected: 2, actual: 1 }))
    ));
    assert!(matches!(
        zadt::decode_batch_response(&response, 1, 0),
        Err(ResponseError::Batch(BatchError::RequestContextCount { expected: 1, actual: 0 }))
    ));
}
