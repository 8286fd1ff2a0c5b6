use zadt::{PostAction, Relation};

#[test]
fn post_actions_match_if_adt_rest_post_action() {
    assert_eq!(PostAction::Check.as_str(), "CHECK");
    assert_eq!(PostAction::Activate.as_str(), "ACTIVATE");
    assert_eq!(PostAction::Lock.as_str(), "LOCK");
    assert_eq!(PostAction::Unlock.as_str(), "UNLOCK");
    assert_eq!(PostAction::Find.as_str(), "FIND");
}

#[test]
fn known_relations_are_recognized_by_their_uri() {
    assert_eq!(
        Relation::from_uri("http://www.sap.com/adt/relations/source"),
        Some(Relation::Source)
    );
    assert_eq!(
        Relation::from_uri("http://www.sap.com/adt/relations/abapsource/parser"),
        Some(Relation::Parser)
    );
    assert_eq!(Relation::from_uri("https://example.test/relations/future"), None);
}
