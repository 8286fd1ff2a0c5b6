use zadt::{Class, GlobalWorkbenchType, Include, ObjectType, Program};

#[test]
fn workbench_global_workbench_types_use_unpadded_sap_field_limits() {
    let object_type = GlobalWorkbenchType::new("ABCD", "XYZ");

    assert_eq!(object_type.directory_type(), "ABCD");
    assert_eq!(object_type.workbench_type(), "XYZ");
    assert_eq!(object_type.to_string(), "ABCD/XYZ");
    assert_eq!(Program::workbench_type().to_string(), "PROG/P");
    assert_eq!(Include::workbench_type().to_string(), "PROG/I");
}

#[test]
fn workbench_parses_an_owned_global_workbench_type() {
    let object_type: GlobalWorkbenchType = "CLAS/OM".parse().unwrap();

    assert_eq!(object_type.directory_type(), "CLAS");
    assert_eq!(object_type.workbench_type(), "OM");
    assert_eq!(object_type.to_string(), "CLAS/OM");
}

#[test]
fn workbench_rejects_invalid_global_workbench_type_responses() {
    for value in ["CLAS", "/OM", "CLAS/", "CLAS/OM/X", "TOOLONG/X", "CLAS/LONG"] {
        assert!(value.parse::<GlobalWorkbenchType>().is_err(), "accepted {value}");
    }
}

#[test]
fn policies_object_name_policies_enforce_type_specific_limits() {
    assert_eq!(Program::naming_policy().maximum_length(), 30);
    assert_eq!(Include::naming_policy().maximum_length(), 40);
    assert_eq!(Class::naming_policy().maximum_length(), 30);
    assert!(Program::naming_policy().validate(&"A".repeat(30)).is_ok());
    assert!(Include::naming_policy().validate(&"A".repeat(40)).is_ok());

    let name = "A".repeat(31);
    let error = Program::naming_policy().validate(&name).unwrap_err();
    assert!(matches!(
        error,
        zadt::ObjectError::NameTooLong {
            name: rejected,
            maximum_length: 30,
        } if rejected == name
    ));
}
