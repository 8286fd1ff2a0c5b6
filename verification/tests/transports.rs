use zadt::{
    AdtUri, CtsError, RawTransportCreation, RawTransportRequest, TransportCreateRequest,
    TransportCreation, TransportKind, TransportRequest, TransportRequests, TransportStatus,
};

fn raw_request(number: &str, kind: &str, target: &str, client: &str, repository: &str) -> RawTransportRequest {
    RawTransportRequest {
        number: number.to_owned(),
        kind: kind.to_owned(),
        status: "D".to_owned(),
        target_system: target.to_owned(),
        owner: "DEVELOPER".to_owned(),
        date: "20260725".to_owned(),
        time: "195958".to_owned(),
        description: "Workbench request".to_owned(),
        client: client.to_owned(),
        repository_id: repository.to_owned(),
    }
}

#[test]
fn parses_transport_request_headers_and_preserves_unknown_functions() {
    let transports = TransportRequests::from_raw(vec![
        raw_request("DEVK900001", "K", "", "001", ""),
        raw_request("DEVK900002", "T", "QAS", "", "ABAP"),
    ]);

    assert_eq!(transports.len(), 2);
    assert_eq!(transports.requests[0].kind, TransportKind::Workbench);
    assert_eq!(transports.requests[0].target_system, None);
    assert_eq!(transports.requests[1].kind, TransportKind::Other("T".to_owned()));
    assert_eq!(transports.requests[1].repository_id.as_deref(), Some("ABAP"));
}

#[test]
fn treats_an_empty_transport_response_as_an_empty_list() {
    assert!(TransportRequests::from_raw(Vec::new()).is_empty());
}

#[test]
fn parses_a_single_transport_request() {
    let transport = TransportRequest::from_raw(raw_request("DEVK900001", "K", "", "", ""));

    assert_eq!(transport.number, "DEVK900001");
    assert_eq!(transport.kind, TransportKind::Workbench);
    assert_eq!(transport.client, None);
    assert_eq!(transport.description, "Workbench request");
}

#[test]
fn maps_standard_transport_statuses_and_preserves_custom_values() {
    for (value, expected) in [
        ("D", TransportStatus::MODIFIABLE),
        ("L", TransportStatus::MODIFIABLE_PROTECTED),
        ("O", TransportStatus::RELEASE_STARTED),
        ("R", TransportStatus::RELEASED),
        ("N", TransportStatus::RELEASED_WITH_IMPORT_PROTECTION),
        ("P", TransportStatus::RELEASE_PREPARATION),
    ] {
        assert_eq!(TransportStatus::parse(value.to_owned()), expected);
    }
    assert_eq!(TransportStatus::parse("Z".to_owned()).as_str(), "Z");
}

#[test]
fn parses_modern_and_legacy_transport_creation_responses() {
    let modern = TransportCreation::from_raw(RawTransportCreation {
        transport_number: "DEVK900003".to_owned(),
        severity: "WARNING".to_owned(),
        short_text: "Assigned with warning".to_owned(),
        long_text: String::new(),
    })
    .unwrap();
    assert_eq!(modern.transport_number, "DEVK900003");
    assert_eq!(modern.message.unwrap().severity, "WARNING");

    let legacy =
        TransportCreation::parse_legacy(b"/com.sap.cts/object_record/DEVK900004\n").unwrap();
    assert_eq!(legacy.transport_number, "DEVK900004");
    assert_eq!(legacy.message, None);
}

#[test]
fn legacy_creation_responses_must_name_one_transport() {
    assert!(matches!(
        TransportCreation::parse_legacy(b"/com.sap.cts/object_record/"),
        Err(CtsError::InvalidTransportCreationReference { reference }) if reference == "/com.sap.cts/object_record/"
    ));
    assert!(matches!(
        TransportCreation::parse_legacy(b"/com.sap.cts/object_record/A/B"),
        Err(CtsError::InvalidTransportCreationReference { .. })
    ));
    assert!(matches!(
        TransportCreation::parse_legacy(&[0xff, 0xfe]),
        Err(CtsError::InvalidTransportCreationResponseEncoding)
    ));
}

#[test]
fn creation_without_number_or_message_fields() {
    assert!(matches!(
        TransportCreation::from_raw(RawTransportCreation {
            transport_number: String::new(),
            severity: String::new(),
            short_text: String::new(),
            long_text: String::new(),
        }),
        Err(CtsError::MissingTransportCreationResponse)
    ));
    let created = TransportCreation::from_raw(RawTransportCreation {
        transport_number: "DEVK900005".to_owned(),
        severity: String::new(),
        short_text: String::new(),
        long_text: String::new(),
    })
    .unwrap();
    assert_eq!(created.message, None);
}

#[test]
fn transport_kinds_and_statuses_keep_their_wire_values() {
    for value in ["K", "W", "T", "X"] {
        assert_eq!(TransportKind::parse(value.to_owned()).as_str(), value);
    }
    for value in ["D", "L", "O", "R", "N", "P", "Q"] {
        assert_eq!(TransportStatus::parse(value.to_owned()).as_str(), value);
    }
}

#[test]
fn creation_requests_carry_package_text_and_reference() {
    let reference = AdtUri::parse("/sap/bc/adt/packages/zpackage").unwrap();
    let request = TransportCreateRequest::new(Some("ZPACKAGE"), "Create <transport>", Some(&reference));
    assert_eq!(request.operation, "I");
    assert_eq!(request.package, "ZPACKAGE");
    assert_eq!(request.description, "Create <transport>");
    assert_eq!(request.reference.as_deref(), Some("/sap/bc/adt/packages/zpackage"));

    let unset = TransportCreateRequest::new(None, "Create transport", None);
    assert_eq!(unset.package, "");
    assert_eq!(unset.reference, None);
}
