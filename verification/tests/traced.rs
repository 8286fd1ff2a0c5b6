use zadt::{
    body_for_log, indent_body, is_text_media_type, is_xml_media_type, log_request_body,
    log_response_body, BodyLog, Traced,
};

#[derive(Clone, Debug, PartialEq)]
struct FixtureTransport {
    calls: usize,
}

#[test]
fn body_logging_is_disabled_by_default() {
    let transport = Traced::new(FixtureTransport { calls: 0 });

    assert_eq!(transport.body_log_limit(), None);
    assert_eq!(transport.with_body_logging(1024).body_log_limit(), Some(1024));
}

#[test]
fn formats_vendor_xml_bodies() {
    let body = br#"<?xml version="1.0"?><root><child value="1">text</child></root>"#;
    let BodyLog::Text(formatted) = body_for_log(
        body,
        "application/vnd.sap.adt.example.v1+xml; charset=utf-8",
        1024,
        false,
    ) else {
        panic!("XML body was not logged");
    };

    assert!(formatted.contains("\n    <child value=\"1\">"));
    assert!(formatted.ends_with("\n</root>"));
    assert!(is_xml_media_type("APPLICATION/XML"));
    assert!(is_xml_media_type("Application/Example+XML"));
}

#[test]
fn preserves_malformed_xml_for_diagnostics() {
    let body = b"<root><child></root>";
    let BodyLog::Text(formatted) = body_for_log(body, "application/xml", 1024, false) else {
        panic!("malformed XML body was not logged");
    };

    assert_eq!(formatted, String::from_utf8_lossy(body));
}

#[test]
fn logs_text_requests_but_only_xml_responses() {
    let body = b"REPORT z_example.";

    assert!(matches!(
        body_for_log(body, "text/plain; charset=utf-8", 1024, true),
        BodyLog::Text(_)
    ));
    assert!(matches!(
        body_for_log(body, "text/plain; charset=utf-8", 1024, false),
        BodyLog::Unsupported
    ));
}

#[test]
fn omits_oversized_and_non_utf8_bodies() {
    assert!(matches!(
        body_for_log(b"12345", "application/xml", 4, false),
        BodyLog::TooLarge
    ));
    assert!(matches!(
        body_for_log(&[0xff], "application/xml", 4, false),
        BodyLog::InvalidUtf8
    ));
}

#[test]
fn indents_logged_bodies_away_from_the_event_prefix() {
    assert_eq!(
        indent_body("<root>\n    <child/>\n</root>"),
        "    <root>\n        <child/>\n    </root>"
    );
}

#[test]
fn traced_transport_keeps_the_wrapped_transport() {
    let transport = Traced::new(FixtureTransport { calls: 3 }).with_body_logging(64);
    assert_eq!(transport.inner(), &FixtureTransport { calls: 3 });
    assert_eq!(transport.into_inner(), FixtureTransport { calls: 3 });
}

#[test]
fn empty_bodies_are_not_logged_and_text_media_types_are_recognized() {
    assert!(matches!(body_for_log(b"", "application/xml", 4, true), BodyLog::Empty));
    assert!(is_text_media_type("TEXT/html"));
    assert!(is_text_media_type("application/problem+json"));
    assert!(is_text_media_type("application/x-www-form-urlencoded; charset=utf-8"));
    assert!(!is_text_media_type("image/png"));
    assert!(!is_xml_media_type("application/json"));
}

#[test]
fn indentation_handles_crlf_and_trailing_newlines() {
    assert_eq!(indent_body(""), "");
    assert_eq!(indent_body("a\r\nb\n"), "    a\n    b");
    assert_eq!(indent_body("one"), "    one");
}

#[test]
fn trace_messages_describe_logged_and_omitted_bodies() {
    assert_eq!(
        log_request_body(b"REPORT z.", "text/plain", 1024).as_deref(),
        Some("ADT request body:\n    REPORT z.")
    );
    assert_eq!(log_response_body(b"REPORT z.", "text/plain", 1024), None);
    assert_eq!(
        log_response_body(b"12345", "application/xml", 4).as_deref(),
        Some("ADT response body omitted because it exceeds the logging limit")
    );
    assert_eq!(
        log_request_body(&[0xff], "text/plain", 4).as_deref(),
        Some("ADT request body omitted because it is not UTF-8")
    );
}

#[test]
fn xml_that_grows_beyond_the_limit_when_indented_is_logged_as_sent() {
    let body = b"<a><b/></a>";
    let BodyLog::Text(text) = body_for_log(body, "text/xml", body.len(), false) else {
        panic!("XML body was not logged");
    };
    assert_eq!(text, "<a><b/></a>");
}
