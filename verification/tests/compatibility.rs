use zadt::{
    from_media_type, media_types_match, negotiate, CompatibilityError, MediaVersionNegotiation,
};

#[derive(Clone, Copy, Debug, Eq, PartialEq)]
struct Version(&'static str);

impl Version {
    const V2: Self = Self("application/vnd.test.v2+xml");
    const V3: Self = Self("application/vnd.test.v3+xml");
}

impl MediaVersionNegotiation for Version {
    fn supported() -> Vec<Self> {
        vec![Self::V3, Self::V2]
    }

    fn media_type(self) -> &'static str {
        self.0
    }
}

#[test]
fn selects_the_first_preferred_media_type_accepted_by_the_backend() {
    let accepted = vec!["application/vnd.test.v2+xml; charset=utf-8".to_owned()];

    let version = negotiate(&[Version::V3, Version::V2], &accepted).unwrap();

    assert_eq!(version, Version::V2);
}

#[test]
fn matches_semantic_parameters_independently_of_charset_and_formatting() {
    let version = Version(
        "application/vnd.sap.as+xml; charset=utf-8; \
         dataname=com.sap.adt.CreateCorrectionRequest.v1",
    );

    assert!(version.matches_media_type(
        "APPLICATION/VND.SAP.AS+XML;dataname=com.sap.adt.CreateCorrectionRequest.v1; \
         charset=UTF-8"
    ));
}

#[test]
fn rejects_different_or_unexpected_semantic_parameters() {
    let legacy = Version(
        "application/vnd.sap.as+xml; \
         dataname=com.sap.adt.CreateCorrectionRequest",
    );
    let versioned = "application/vnd.sap.as+xml; dataname=com.sap.adt.CreateCorrectionRequest.v1";

    assert!(!legacy.matches_media_type(versioned));
    assert!(!Version("application/vnd.sap.as+xml").matches_media_type(versioned));
}

#[test]
fn matches_version_media_type_parameters_exactly() {
    let quick_fix = Version("application/vnd.sap.adt.quickfixes.evaluation+xml;version=1.0.0");

    assert!(quick_fix
        .matches_media_type("application/vnd.sap.adt.quickfixes.evaluation+xml; version=1.0.0"));
    assert!(!quick_fix
        .matches_media_type("application/vnd.sap.adt.quickfixes.evaluation+xml; version=2.0.0"));
}

#[test]
fn reports_both_sides_when_no_media_type_is_compatible() {
    let accepted = vec!["application/vnd.test.v1+xml".to_owned()];

    let error = negotiate(&[Version::V3, Version::V2], &accepted).unwrap_err();

    assert!(matches!(
        error,
        CompatibilityError::NoCompatibleMediaType {
            preferred,
            accepted,
        } if preferred == [Version::V3.0, Version::V2.0]
            && accepted == ["application/vnd.test.v1+xml"]
    ));
}

#[test]
fn a_media_type_matches_itself_and_malformed_ones_match_nothing() {
    for value in [
        "application/xml",
        "text/plain; charset=utf-8",
        "application/vnd.sap.as+xml; dataname=x; charset=UTF-8",
    ] {
        assert!(media_types_match(value, value), "{value}");
    }
    assert!(!media_types_match("", ""));
    assert!(!media_types_match("text/plain; broken", "text/plain; broken"));
    assert!(!media_types_match("text/plain; =x", "text/plain"));
}

#[test]
fn the_first_supported_version_identifies_a_media_type() {
    assert_eq!(
        from_media_type::<Version>("application/vnd.test.v3+xml; charset=utf-8"),
        Some(Version::V3)
    );
    assert_eq!(from_media_type::<Version>("application/vnd.test.v1+xml"), None);
}

#[test]
fn negotiation_prefers_the_callers_order() {
    let accepted = vec![
        "application/vnd.test.v2+xml".to_owned(),
        "application/vnd.test.v3+xml".to_owned(),
    ];
    assert_eq!(negotiate(&[Version::V3, Version::V2], &accepted).unwrap(), Version::V3);
    assert_eq!(negotiate(&[Version::V2, Version::V3], &accepted).unwrap(), Version::V2);
}

#[test]
fn parameters_match_as_multisets() {
    assert!(!media_types_match("a/b; p=1; p=1", "a/b; p=1; q=2"));
    assert!(!media_types_match("a/b; p=1; q=2", "a/b; p=1; p=1"));
    assert!(media_types_match("a/b; p=1; p=1", "A/B; P=1; charset=utf-8; p=1"));
    assert!(media_types_match("a/b; p=1; q=2", "a/b;q=2;p=1"));
    assert!(!media_types_match("a/b; p=1", "a/b; p=1; p=1"));
    assert!(!media_types_match("a/b; p=x", "a/b; p=X"));
}
