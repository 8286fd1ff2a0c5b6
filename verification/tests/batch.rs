use zadt::{decode_batch, encode_batch, response_boundary, AdtRequest, AdtUri, BatchError, HttpMethod};

#[test]
fn encodes_the_sap_application_http_contract() {
    let mut get = AdtRequest::new(HttpMethod::Get, AdtUri::parse("/sap/bc/adt/test/read").unwrap());
    get.push_query("name", "hello world");
    get.set_accept("text/plain");
    let mut post = AdtRequest::new(HttpMethod::Post, AdtUri::parse("/sap/bc/adt/test/write").unwrap());
    post.set_content_type("application/xml");
    post.set_body(b"<value/>".to_vec());

    let encoded = encode_batch(&[get, post], "batch_test");

    assert_eq!(
        encoded,
        b"--batch_test\r\n\
Content-Type: application/http\r\n\
content-transfer-encoding: binary\r\n\r\n\
GET /sap/bc/adt/test/read?name=hello+world HTTP/1.1\r\n\
accept:text/plain\r\n\r\n\
--batch_test\r\n\
Content-Type: application/http\r\n\
content-transfer-encoding: binary\r\n\r\n\
POST /sap/bc/adt/test/write HTTP/1.1\r\n\
content-type:application/xml\r\n\r\n\
<value/>\r\n\
--batch_test--"
    );
}

#[test]
fn parses_quoted_boundary_and_preserves_body_line_ending() {
    let headers = vec![(
        "content-type".to_owned(),
        "Multipart/Mixed; charset=utf-8; BOUNDARY=\"batch_test\"".to_owned(),
    )];
    let boundary = response_boundary(&headers).unwrap();
    let body = b"--batch_test\r\nContent-Type: application/http\r\n\r\nHTTP/1.1 200 OK\r\nX-Test: one\r\nX-Test: two\r\n\r\nline\r\n\r\n--batch_test--\r\n";

    let responses = decode_batch(body, &boundary).unwrap();

    assert_eq!(responses[0].body(), b"line\r\n");
    assert_eq!(
        responses[0].headers().iter().filter(|(name, _)| name.eq_ignore_ascii_case("x-test")).count(),
        2
    );
}

#[test]
fn rejects_a_multipart_response_without_a_boundary() {
    let headers = vec![("content-type".to_owned(), "multipart/mixed".to_owned())];

    assert!(matches!(response_boundary(&headers), Err(BatchError::MissingBoundary { .. })));
}

#[test]
fn fresh_batch_requests_use_a_random_batch_boundary() {
    let endpoint = AdtUri::parse("/sap/bc/adt/core/batch").unwrap();
    assert!(matches!(zadt::new_batch_request(&endpoint, &[]), Err(BatchError::Empty)));
    let read = AdtRequest::new(HttpMethod::Get, AdtUri::parse("/sap/bc/adt/test/read").unwrap());
    let again = AdtRequest::new(HttpMethod::Get, AdtUri::parse("/sap/bc/adt/test/read").unwrap());
    let first = zadt::new_batch_request(&endpoint, &[read]).unwrap();
    let second = zadt::new_batch_request(&endpoint, &[again]).unwrap();
    let boundary = first.header("content-type").unwrap().strip_prefix("multipart/mixed; boundary=").unwrap();
    assert!(boundary.starts_with("batch_"));
    assert!(boundary.len() > "batch_".len());
    let body = String::from_utf8(first.body().to_vec()).unwrap();
    assert!(body.starts_with(&format!("--{boundary}\r\n")));
    assert!(body.ends_with(&format!("--{boundary}--")));
    assert_ne!(first.header("content-type"), second.header("content-type"));
}

fn two_part_batch() -> zadt::AdtResponse {
    let body = b"--b1\r\nContent-Type: application/http\r\n\r\nHTTP/1.1 200 OK\r\n\r\none\r\n--b1\r\nContent-Type: application/http\r\n\r\nHTTP/1.1 404 Not Found\r\n\r\ntwo\r\n--b1--\r\n";
    zadt::AdtResponse::new(
        202,
        vec![("Content-Type".to_owned(), "multipart/mixed; boundary=b1".to_owned())],
        body.to_vec(),
    )
}

#[test]
fn decodes_an_accepted_batch_frame_into_one_response_per_part() {
    let responses = zadt::decode_batch_response(&two_part_batch(), 2, 2).unwrap();
    assert_eq!(responses.len(), 2);
    assert_eq!(responses[0].status, 200);
    assert_eq!(responses[0].body(), b"one");
    assert_eq!(responses[1].status, 404);
    assert_eq!(responses[1].body(), b"two");
}

#[test]
fn batch_frame_refuses_another_status() {
    let mut response = two_part_batch();
    response.status = 200;
    match zadt::decode_batch_response(&response, 2, 2) {
        Err(zadt::ResponseError::UnexpectedStatus { status, .. }) => assert_eq!(status, 200),
        other => panic!("unexpected {other:?}"),
    }
}

#[test]
fn batch_frame_reports_the_boundary_error() {
    let mut response = two_part_batch();
    response.headers = vec![("Content-Type".to_owned(), "multipart/mixed".to_owned())];
    assert!(matches!(
        zadt::decode_batch_response(&response, 2, 2),
        Err(zadt::ResponseError::Batch(BatchError::MissingBoundary { .. }))
    ));
    response.headers.clear();
    assert!(matches!(
        zadt::decode_batch_response(&response, 2, 2),
        Err(zadt::ResponseError::Batch(BatchError::MissingContentType))
    ));
}

#[test]
fn batch_frame_reports_a_body_that_does_not_split() {
    let mut response = two_part_batch();
    response.body = b"no parts here".to_vec();
    assert!(matches!(
        zadt::decode_batch_response(&response, 2, 2),
        Err(zadt::ResponseError::Batch(BatchError::InvalidMultipart { .. }))
    ));
}

#[test]
fn batch_frame_checks_targets_before_responses() {
    match zadt::decode_batch_response(&two_part_batch(), 3, 1) {
        Err(zadt::ResponseError::Batch(BatchError::RequestContextCount { expected, actual })) => {
            assert_eq!((expected, actual), (3, 1));
        }
        other => panic!("unexpected {other:?}"),
    }
    match zadt::decode_batch_response(&two_part_batch(), 3, 3) {
        Err(zadt::ResponseError::Batch(BatchError::ResponseCount { expected, actual })) => {
            assert_eq!((expected, actual), (3, 2));
        }
        other => panic!("unexpected {other:?}"),
    }
}

#[test]
fn request_targets_form_encode_their_query() {
    let mut request = AdtRequest::new(HttpMethod::Get, AdtUri::parse("/sap/bc/adt/test/read").unwrap());
    request.push_query("saison", "Été+hiver");
    request.push_query("a b", "*-._~");
    assert_eq!(
        zadt::encoded_target(&request),
        "/sap/bc/adt/test/read?saison=%C3%89t%C3%A9%2Bhiver&a+b=*-._%7E"
    );
}
