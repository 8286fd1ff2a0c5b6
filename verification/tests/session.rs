use zadt::discovery::{CoreDiscoveryQuery, DiscoveryQuery, Logon};
use zadt::{AdtResponse, LogonError, RawProperty, RawSession, RawSessionLink, ResponseError, SessionInformation};

fn session_link(href: &str, relation: &str, media_type: Option<&str>) -> RawSessionLink {
    RawSessionLink {
        href: href.to_owned(),
        relation: relation.to_owned(),
        media_type: media_type.map(str::to_owned),
    }
}

#[test]
fn parses_v3_session_information() {
    let raw = RawSession {
        links: vec![
            session_link(
                "/sap/public/bc/icf/logoff",
                "http://www.sap.com/adt/categories/core/http/sessions/logoff",
                None,
            ),
            session_link(
                "/sap/bc/adt/core/http/sessions/security-context",
                "http://www.sap.com/adt/categories/core/http/sessions/securitysession",
                None,
            ),
            session_link(
                "/sap/bc/adt/core/http/systeminformation",
                "http://www.sap.com/adt/categories/core/http/system/systeminformation",
                Some("application/vnd.sap.adt.core.http.systeminformation.v1+json"),
            ),
        ],
        properties: Some(vec![RawProperty { name: "inactivityTimeout".to_owned(), value: "3600".to_owned() }]),
    };
    let session = SessionInformation::from_raw(raw).unwrap();

    assert_eq!(session.logoff_uri.as_str(), "/sap/public/bc/icf/logoff");
    assert_eq!(session.cleanup_uri.as_str(), "/sap/bc/adt/core/http/sessions/security-context");
    assert_eq!(session.inactivity_timeout, Some(3600));
    let system_information = session.system_information.as_ref().unwrap();
    assert_eq!(system_information.target.as_str(), "/sap/bc/adt/core/http/systeminformation");
    assert_eq!(
        system_information.media_type,
        "application/vnd.sap.adt.core.http.systeminformation.v1+json"
    );
}

#[test]
fn logon_requests_a_new_security_session() {
    let request = Logon.request("1234").unwrap();
    assert_eq!(request.target().as_str(), "/sap/bc/adt/core/http/sessions");
    assert_eq!(request.query(), [("_".to_owned(), "1234".to_owned())]);
    assert_eq!(request.header("accept"), Some("application/vnd.sap.adt.core.http.session.v3+xml"));
    assert_eq!(request.header("x-sap-security-session"), Some("create"));
    assert_eq!(request.header("sap-adt-purpose"), Some("logon"));
    assert_eq!(request.header("sap-adt-saplb"), Some("fetch"));
    assert_eq!(request.header("sap-cancel-on-close"), Some("true"));
}

#[test]
fn logon_rejects_legacy_and_incomplete_responses() {
    let legacy = AdtResponse::new(
        200,
        vec![("content-type".to_owned(), "application/vnd.sap.adt.core.http.session.v2+xml".to_owned())],
        b"<session/>".to_vec(),
    );
    assert!(matches!(
        Logon.decode_head(&legacy),
        Err(ResponseError::Logon(LogonError::UnsupportedContentType { .. }))
    ));
    let empty = AdtResponse::new(200, Vec::new(), Vec::new());
    assert!(matches!(Logon.decode_head(&empty), Err(ResponseError::Logon(LogonError::MissingResponseBody))));
    let untyped = AdtResponse::new(200, Vec::new(), b"<session/>".to_vec());
    assert!(matches!(Logon.decode_head(&untyped), Err(ResponseError::Logon(LogonError::MissingContentType))));
    let current = AdtResponse::new(
        200,
        vec![("content-type".to_owned(), "application/vnd.sap.adt.core.http.session.v3+xml; charset=utf-8".to_owned())],
        b"<session/>".to_vec(),
    );
    assert!(Logon.decode_head(&current).is_ok());
    let denied = AdtResponse::new(401, Vec::new(), b"authentication required".to_vec());
    assert!(matches!(Logon.decode_head(&denied), Err(ResponseError::UnexpectedStatus { status: 401, .. })));
}

#[test]
fn discovery_queries_fetch_their_fixed_documents() {
    let core = CoreDiscoveryQuery.request().unwrap();
    assert_eq!(core.target().as_str(), "/sap/bc/adt/core/discovery");
    assert_eq!(core.header("accept"), Some("application/atomsvc+xml"));
    let central = DiscoveryQuery.request().unwrap();
    assert_eq!(central.target().as_str(), "/sap/bc/adt/discovery");
    let failed = AdtResponse::new(401, Vec::new(), b"authentication required".to_vec());
    assert!(matches!(
        DiscoveryQuery.decode_head(&failed),
        Err(ResponseError::UnexpectedStatus { status: 401, body }) if body == "authentication required"
    ));
    assert!(CoreDiscoveryQuery.decode_head(&AdtResponse::new(200, Vec::new(), Vec::new())).is_ok());
}

fn session_with_timeout(value: &str) -> RawSession {
    RawSession {
        links: vec![
            session_link(
                "/sap/public/bc/icf/logoff",
                "http://www.sap.com/adt/categories/core/http/sessions/logoff",
                None,
            ),
            session_link(
                "/sap/bc/adt/core/http/sessions/security-context",
                "http://www.sap.com/adt/categories/core/http/sessions/securitysession",
                None,
            ),
        ],
        properties: Some(vec![RawProperty { name: "inactivityTimeout".to_owned(), value: value.to_owned() }]),
    }
}

#[test]
fn inactivity_timeouts_parse_as_decimal_i64() {
    let timeout = |value: &str| SessionInformation::from_raw(session_with_timeout(value)).map(|s| s.inactivity_timeout);
    assert_eq!(timeout("+60").unwrap(), Some(60));
    assert_eq!(timeout(" 007 ").unwrap(), Some(7));
    assert_eq!(timeout("0").unwrap(), None);
    assert_eq!(timeout("-5").unwrap(), None);
    assert_eq!(timeout("-9223372036854775808").unwrap(), None);
    assert_eq!(timeout("9223372036854775807").unwrap(), Some(9223372036854775807));
    for bad in ["9223372036854775808", "", "+", "-", "1.5", "12a", "99999999999999999999999"] {
        assert!(
            matches!(timeout(bad), Err(LogonError::InvalidInactivityTimeout { .. })),
            "{bad:?} should be refused"
        );
    }
}
