use arcanum::manager::{error_policy, State};
use arcanum::error::ControllerError;
use arcanum::resource::{
    object_to_owner_reference, synced_secret_api_version, synced_secret_kind, ObjectMeta,
    OwnerReference, Timestamp,
};

#[test]
fn owner_reference_points_at_the_object() {
    let meta = ObjectMeta {
        name: Some("db-creds".to_string()),
        namespace: Some("apps".to_string()),
        uid: Some("1234".to_string()),
        owner_references: None,
    };
    let r = object_to_owner_reference("njha.dev/v1", "SyncedSecret", meta).unwrap();
    assert_eq!(
        r,
        OwnerReference {
            api_version: "njha.dev/v1".to_string(),
            kind: "SyncedSecret".to_string(),
            name: "db-creds".to_string(),
            uid: "1234".to_string(),
            controller: None,
            block_owner_deletion: None,
        }
    );
}

#[test]
fn synced_secret_type_names() {
    assert_eq!(synced_secret_api_version(), "njha.dev/v1");
    assert_eq!(synced_secret_kind(), "SyncedSecret");
}

#[test]
fn metadata_copy_is_equal() {
    let meta = ObjectMeta {
        name: Some("n".to_string()),
        namespace: None,
        uid: Some("u".to_string()),
        owner_references: Some(vec![OwnerReference {
            api_version: "v1".to_string(),
            kind: "K".to_string(),
            name: "o".to_string(),
            uid: "ou".to_string(),
            controller: Some(true),
            block_owner_deletion: None,
        }]),
    };
    assert_eq!(meta.copy(), meta);
}

#[test]
fn failed_reconcile_requeues_after_six_minutes() {
    let r = error_policy(&ControllerError::VaultError("down".to_string()));
    assert_eq!(r.requeue_after_secs, Some(360));
    let r = error_policy(&ControllerError::Base64Error);
    assert_eq!(r.requeue_after_secs, Some(360));
}

#[test]
fn state_reports_as_arcanum() {
    let mut state = State::new();
    assert_eq!(state.reporter.controller, "arcanum");
    assert_eq!(state.reporter.instance, None);
    state.note_event();
    assert_eq!(state.reporter.controller, "arcanum");
}

#[test]
fn recorded_event_time_is_kept() {
    let mut state = State::new();
    let at = Timestamp { secs: 1_700_000_000, nanos: 123_456_789 };
    state.record_event_at(at);
    assert_eq!(state.last_event, at);
    assert_eq!(state.reporter.controller, "arcanum");
    assert_eq!(state.reporter.instance, None);
}
