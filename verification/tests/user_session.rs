use zadt::{AdtRequest, AdtUri, HttpMethod, UserSessionState};

fn request() -> AdtRequest {
    AdtRequest::new(HttpMethod::Post, AdtUri::parse("/sap/bc/adt/programs/programs/z_test").unwrap())
}

fn set_cookie(value: &str) -> Vec<(String, String)> {
    vec![("Set-Cookie".to_owned(), value.to_owned())]
}

#[test]
fn a_new_session_is_stateful_without_a_context() {
    let session = UserSessionState::new();
    assert_eq!(session.cookie_header().unwrap(), None);
    let mut first = request();
    first.insert_header("x-sap-adt-sessiontype", "stateless");
    session.decorate(&mut first).unwrap();
    assert_eq!(first.header("x-sap-adt-sessiontype"), Some("stateful"));
    assert_eq!(first.header("cookie"), None);
}

#[test]
fn the_returned_context_is_sent_back() {
    let mut session = UserSessionState::new();
    session.update(&set_cookie("sap-contextid=SID%3aANON%3aabc; path=/sap/bc/adt"));
    assert_eq!(session.cookie_header().unwrap().as_deref(), Some("sap-contextid=SID%3aANON%3aabc"));
    let mut next = request();
    session.decorate(&mut next).unwrap();
    assert_eq!(next.header("x-sap-adt-sessiontype"), Some("stateful"));
    assert_eq!(next.header("cookie"), Some("sap-contextid=SID%3aANON%3aabc"));
}

#[test]
fn other_cookies_keep_the_context_and_expiry_discards_it() {
    let mut session = UserSessionState::new();
    session.update(&set_cookie("sap-contextid=first"));
    session.update(&set_cookie("SAP_SESSIONID_A4H_001=secret; path=/"));
    session.update(&[("x-other".to_owned(), "sap-contextid=ignored".to_owned())]);
    assert_eq!(session.cookie_header().unwrap().as_deref(), Some("sap-contextid=first"));
    session.update(&set_cookie("sap-contextid=second; Max-Age=3600"));
    assert_eq!(session.cookie_header().unwrap().as_deref(), Some("sap-contextid=second"));
    session.update(&set_cookie("sap-contextid=second; Max-Age=0"));
    assert_eq!(session.cookie_header().unwrap(), None);
    session.update(&set_cookie("sap-contextid=third"));
    session.update(&set_cookie("sap-contextid=; path=/"));
    assert_eq!(session.cookie_header().unwrap(), None);
}

#[test]
fn closing_leaves_the_context_through_a_stateless_read() {
    let discovery = || AdtUri::parse("/sap/bc/adt/core/discovery").unwrap();
    assert!(UserSessionState::new().close_request(discovery()).unwrap().is_none());

    let mut session = UserSessionState::new();
    session.update(&set_cookie("sap-contextid=context-1"));
    let close = session.close_request(discovery()).unwrap().unwrap();
    assert_eq!(close.method(), HttpMethod::Get);
    assert_eq!(close.target().as_str(), "/sap/bc/adt/core/discovery");
    assert!(close.query().is_empty());
    assert!(close.body().is_empty());
    assert_eq!(
        close.headers(),
        [
            ("x-sap-adt-sessiontype".to_owned(), "stateless".to_owned()),
            ("cookie".to_owned(), "sap-contextid=context-1".to_owned()),
        ]
    );
}
