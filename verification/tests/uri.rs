use zadt::{AdtUri, AdtUriError};

#[test]
fn accepts_adt_resource_paths() {
    assert_eq!(
        AdtUri::parse("programs/programs").unwrap().as_str(),
        "/sap/bc/adt/programs/programs"
    );
    assert_eq!(
        AdtUri::parse("/sap/bc/adt/core/discovery").unwrap().as_str(),
        "/sap/bc/adt/core/discovery"
    );
    assert_eq!(
        AdtUri::parse("/sap/bc/esproxy/semanticcontracts")
            .unwrap()
            .as_str(),
        "/sap/bc/esproxy/semanticcontracts"
    );
}

#[test]
fn rejects_untrusted_targets() {
    for target in [
        "https://attacker.example/sap/bc/adt/core/discovery",
        "//attacker.example/sap/bc/adt/core/discovery",
        "/sap/public/bc/icf/logoff",
        "../../public/bc/icf/logoff",
        "/sap/bc/adt/core/discovery?redirect=1",
    ] {
        assert!(AdtUri::parse(target).is_err(), "accepted {target}");
    }
}

#[test]
fn reports_why_a_uri_is_refused() {
    assert!(matches!(AdtUri::parse(""), Err(AdtUriError::Empty)));
    assert!(matches!(AdtUri::parse(" /sap/bc"), Err(AdtUriError::InvalidCharacters)));
    assert!(matches!(AdtUri::parse("/sap/bc\\adt"), Err(AdtUriError::InvalidCharacters)));
    assert!(matches!(AdtUri::parse("/sap/bc/adt#x"), Err(AdtUriError::QueryOrFragment)));
    assert!(matches!(AdtUri::parse("//host/sap/bc"), Err(AdtUriError::Absolute)));
    assert!(matches!(AdtUri::parse("/sap/public"), Err(AdtUriError::OutsideRoot)));
    assert_eq!(AdtUri::parse("sap/bc").unwrap().as_str(), "/sap/bc");
    assert_eq!(AdtUri::parse("sap/bc/x").unwrap().as_str(), "/sap/bc/x");
}

#[test]
fn encodes_dynamic_names_as_single_path_segments() {
    let collection = AdtUri::parse("/sap/bc/adt/programs/programs").unwrap();

    assert_eq!(
        collection
            .append_segments(&["/DMO/PROGRAM".to_owned()])
            .unwrap()
            .as_str(),
        "/sap/bc/adt/programs/programs/%2FDMO%2FPROGRAM"
    );
}

#[test]
fn equal_uris_compare_equal() {
    let a = AdtUri::parse("programs/programs").unwrap();
    let b = AdtUri::parse("/sap/bc/adt/programs/programs").unwrap();
    assert_eq!(a, b);
    assert_eq!(a.clone(), a);
}
