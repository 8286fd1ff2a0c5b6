use zadt::{resolve_href, AdtUri};

#[test]
fn resolves_the_relative_link_forms_emitted_by_programs() {
    let program = AdtUri::parse("/sap/bc/adt/programs/programs/ZDEMO").unwrap();

    let source = resolve_href(&program, "source/main?version=active").unwrap();
    assert_eq!(source.target.as_str(), "/sap/bc/adt/programs/programs/ZDEMO/source/main");
    assert_eq!(source.query, [("version".to_owned(), "active".to_owned())]);

    let structure = resolve_href(&program, "./ZDEMO/objectstructure?version=inactive").unwrap();
    assert_eq!(structure.target.as_str(), "/sap/bc/adt/programs/programs/ZDEMO/objectstructure");
    assert_eq!(structure.query, [("version".to_owned(), "inactive".to_owned())]);

    let root_relative =
        resolve_href(&program, "/sap/bc/adt/textelements/programs/ZDEMO#selectionTexts").unwrap();
    assert_eq!(root_relative.target.as_str(), "/sap/bc/adt/textelements/programs/ZDEMO");
    assert_eq!(root_relative.fragment.as_deref(), Some("selectionTexts"));
}

#[test]
fn rejects_links_outside_the_sap_resource_namespace() {
    let program = AdtUri::parse("/sap/bc/adt/programs/programs/ZDEMO").unwrap();

    for href in [
        "https://attacker.example/sap/bc/adt/programs/ZDEMO",
        "//attacker.example/sap/bc/adt/programs/ZDEMO",
        "/sap/public/bc/icf/logoff",
        "../../../../../public/bc/icf/logoff",
    ] {
        assert!(resolve_href(&program, href).is_err(), "accepted {href}");
    }
}

#[test]
fn link_queries_are_form_decoded() {
    let program = AdtUri::parse("/sap/bc/adt/programs/programs/ZDEMO").unwrap();
    let resolved = resolve_href(&program, "source/main?a=b+c&&d=%41%zz&=x&flag").unwrap();
    assert_eq!(
        resolved.query,
        [
            ("a".to_owned(), "b c".to_owned()),
            ("d".to_owned(), "A%zz".to_owned()),
            ("".to_owned(), "x".to_owned()),
            ("flag".to_owned(), "".to_owned()),
        ]
    );
}
