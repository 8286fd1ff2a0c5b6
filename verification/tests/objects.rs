use zadt::{GlobalWorkbenchType, Include, ObjectNamePolicy, ObjectType, Program};

#[test]
fn objects_global_workbench_types_use_unpadded_sap_field_limits() {
    let object_type = GlobalWorkbenchType::new("ABCD", "XYZ");

    assert_eq!(object_type.directory_type(), "ABCD");
    assert_eq!(object_type.workbench_type(), "XYZ");
    assert_eq!(object_type.to_string(), "ABCD/XYZ");
    assert_eq!(Program::workbench_type().to_string(), "PROG/P");
    assert_eq!(Include::workbench_type().to_string(), "PROG/I");
}

#[test]
fn objects_parses_an_owned_global_workbench_type() {
    let object_type: GlobalWorkbenchType = "CLAS/OM".parse().unwrap();

    assert_eq!(object_type.directory_type(), "CLAS");
    assert_eq!(object_type.workbench_type(), "OM");
    assert_eq!(object_type.to_string(), "CLAS/OM");
}

#[test]
fn objects_rejects_invalid_global_workbench_type_responses() {
    for value in ["CLAS", "/OM", "CLAS/", "CLAS/OM/X", "TOOLONG/X", "CLAS/LONG"] {
        assert!(value.parse::<GlobalWorkbenchType>().is_err(), "accepted {value}");
    }
}

#[test]
fn objects_object_name_policies_enforce_type_specific_limits() {
    assert_eq!(Program::naming_policy().maximum_length(), 30);
    assert_eq!(Include::naming_policy().maximum_length(), 40);
    assert!(Program::naming_policy().validate(&"A".repeat(30)).is_ok());
    assert!(Include::naming_policy().validate(&"A".repeat(40)).is_ok());

    let name = "A".repeat(31);
    let error = Program::naming_policy().validate(&name).unwrap_err();
    assert!(matches!(
        error,
        zadt::ObjectError::NameTooLong {
            name: rejected,
            maximum_length: 30,
        } if rejected == name
    ));
}

#[test]
fn workbench_type_parse_reports_the_rejection_reason() {
    let error = "CLAS/OM/X".parse::<GlobalWorkbenchType>().unwrap_err();
    assert_eq!(error.value, "CLAS/OM/X");
    assert_eq!(error.reason, "contains more than one separator");
    let error = "TOOLONG/X".parse::<GlobalWorkbenchType>().unwrap_err();
    assert_eq!(error.reason, "R3TR object type exceeds 4 characters");
    let error = "CLAS".parse::<GlobalWorkbenchType>().unwrap_err();
    assert_eq!(error.reason, "expected `<R3TR type>/<Workbench type>`");
}

#[test]
fn workbench_type_text_round_trips() {
    for value in ["PROG/P", "CLAS/OC", "DEVC/K", "A/B"] {
        let parsed: GlobalWorkbenchType = value.parse().unwrap();
        assert_eq!(parsed.to_string(), value);
        let again: GlobalWorkbenchType = parsed.to_string().parse().unwrap();
        assert_eq!(again, parsed);
    }
}

#[test]
fn name_policies_refuse_padded_control_and_relative_names() {
    let policy = ObjectNamePolicy::new(10);
    for name in ["", " A", "A ", ".", "..", "A\u{7}"] {
        assert!(
            matches!(policy.validate(name), Err(zadt::ObjectError::InvalidName { .. })),
            "accepted {name:?}"
        );
    }
    assert!(policy.validate("Z_TEST").is_ok());
}
