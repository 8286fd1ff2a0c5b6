use zadt::{
    AccessMode, AdtUri, EntityTag, LockHandle, ObjectError, ObjectRef, ObjectSourceUpdateBuilderError,
    SourceRef,
};

#[test]
fn object_parses_an_opaque_object_lock_handle() {
    let object = ObjectRef::parse("/sap/bc/adt/programs/programs/ZFIRST").unwrap();
    let lock = object.lock(AccessMode::Modify);
    let handle = lock.lock_handle(Some("LOCK-HANDLE-1".to_owned())).unwrap();
    assert_eq!(handle.handle(), "LOCK-HANDLE-1");
    assert!(matches!(lock.lock_handle(Some(String::new())), Err(ObjectError::MissingLockHandle)));
    assert!(matches!(lock.lock_handle(None), Err(ObjectError::MissingLockHandle)));
}

#[test]
fn object_update_builder_rejects_a_lock_for_another_object() {
    let first = ObjectRef::parse("/sap/bc/adt/programs/programs/ZFIRST").unwrap();
    let second = ObjectRef::parse("/sap/bc/adt/programs/programs/ZSECOND").unwrap();
    let lock_handle = LockHandle::new(first, "LOCK-HANDLE".to_owned());
    let main_source = SourceRef::new(
        second.clone(),
        AdtUri::parse("/sap/bc/adt/programs/programs/ZSECOND/source/main").unwrap(),
    );

    let error = main_source
        .update()
        .lock_handle(lock_handle)
        .content("REPORT zsecond.")
        .build()
        .unwrap_err();

    match error {
        ObjectSourceUpdateBuilderError::ValidationError(message) => {
            assert!(message.contains("cannot update source"))
        }
        other => panic!("unexpected error {other:?}"),
    }
}

#[test]
fn object_object_rejects_another_objects_lock_for_unlock() {
    let first = ObjectRef::parse("/sap/bc/adt/programs/programs/ZFIRST").unwrap();
    let second = ObjectRef::parse("/sap/bc/adt/programs/programs/ZSECOND").unwrap();
    let lock_handle = LockHandle::new(first, "LOCK-HANDLE".to_owned());

    let error = second.unlock(lock_handle).unwrap_err();

    assert!(matches!(error, ObjectError::LockHandleObjectMismatch { .. }));
}

#[test]
fn entity_tags_validate_header_safety_at_construction() {
    assert_eq!(EntityTag::parse("safe-etag").unwrap().as_str(), "safe-etag");
    assert!(EntityTag::parse("etag\r\ninjected: value").is_err());
}

#[test]
fn lock_mismatch_names_the_lock_object_and_the_source() {
    let first = ObjectRef::parse("/sap/bc/adt/programs/programs/ZFIRST").unwrap();
    let second = ObjectRef::parse("/sap/bc/adt/programs/programs/ZSECOND").unwrap();
    let source = SourceRef::new(
        second,
        AdtUri::parse("/sap/bc/adt/programs/programs/ZSECOND/source/main").unwrap(),
    );
    match source.update().lock_handle(LockHandle::new(first, "LOCK".to_owned())).build() {
        Err(ObjectSourceUpdateBuilderError::ValidationError(message)) => assert_eq!(
            message,
            "lock for `/sap/bc/adt/programs/programs/ZFIRST` cannot update source `/sap/bc/adt/programs/programs/ZSECOND/source/main`"
        ),
        other => panic!("unexpected {other:?}"),
    }
}

#[test]
fn static_entity_tags_keep_their_text() {
    assert_eq!(EntityTag::from_static("W/\"program-etag\"").as_str(), "W/\"program-etag\"");
}
