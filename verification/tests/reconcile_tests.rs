use arcanum::error::ControllerError;
use arcanum::reconcile::{reconcile_step, Action, ClusterSecret, Event, Fault, ReconcileState};
use arcanum::resource::{ObjectMeta, SyncedSecret, SyncedSecretSpec};
use arcanum::sealing::SealingKey;
use arcanum::vault::{VaultDocument, VaultValue};

const KEY: &str = "AQIDBAUGBwgJCgsMDQ4PEBESExQVFhcYGRobHB0eHyA=";

fn resource(data: Vec<(String, String)>) -> SyncedSecret {
    SyncedSecret {
        metadata: ObjectMeta {
            name: Some("db-creds".to_string()),
            namespace: Some("apps".to_string()),
            uid: Some("uid-1".to_string()),
            owner_references: None,
        },
        spec: SyncedSecretSpec { data, pub_key: String::new() },
        status: None,
    }
}

fn started(cr: &SyncedSecret) -> ReconcileState {
    let (state, action) =
        reconcile_step(cr, ReconcileState::Init, Event::Start { encoded_key: KEY.to_string() });
    match action {
        Action::Lookup { namespace, name, vault_path } => {
            assert_eq!(namespace, "apps");
            assert_eq!(name, "db-creds");
            assert_eq!(vault_path, "apps/db-creds");
        }
        _ => panic!("expected a lookup"),
    }
    state
}

fn vault_object(entries: &[(&str, &str)]) -> Result<VaultDocument, String> {
    Ok(VaultDocument::Object(
        entries.iter().map(|(k, v)| (k.to_string(), VaultValue::Text(v.to_string()))).collect(),
    ))
}

#[test]
fn start_without_name_aborts() {
    let mut cr = resource(Vec::new());
    cr.metadata.name = None;
    let (state, action) =
        reconcile_step(&cr, ReconcileState::Init, Event::Start { encoded_key: KEY.to_string() });
    assert!(matches!(state, ReconcileState::Done));
    assert!(matches!(action, Action::Abort { fault: Fault::MissingName }));
}

#[test]
fn start_without_namespace_aborts() {
    let mut cr = resource(Vec::new());
    cr.metadata.namespace = None;
    let (_, action) =
        reconcile_step(&cr, ReconcileState::Init, Event::Start { encoded_key: KEY.to_string() });
    assert!(matches!(action, Action::Abort { fault: Fault::MissingNamespace }));
}

#[test]
fn start_with_bad_key_aborts() {
    let cr = resource(Vec::new());
    let (_, action) =
        reconcile_step(&cr, ReconcileState::Init, Event::Start { encoded_key: "???".to_string() });
    assert!(matches!(action, Action::Abort { fault: Fault::BadKey(ControllerError::Base64Error) }));
}

#[test]
fn vault_copy_is_applied_to_the_cluster() {
    let cr = resource(Vec::new());
    let state = started(&cr);
    let (state, action) = reconcile_step(
        &cr,
        state,
        Event::Looked {
            cluster: ClusterSecret::Present { data: Some(vec![("user".to_string(), b"old".to_vec())]) },
            vault: vault_object(&[("user", "admin")]),
        },
    );
    assert!(matches!(state, ReconcileState::AwaitingWrite));
    match action {
        Action::ApplySecret { namespace, name, field_manager, secret } => {
            assert_eq!(namespace, "apps");
            assert_eq!(name, "db-creds");
            assert_eq!(field_manager, "arcanum.njha.dev");
            assert_eq!(secret.metadata.name, Some("db-creds".to_string()));
            let owners = secret.metadata.owner_references.unwrap();
            assert_eq!(owners.len(), 1);
            assert_eq!(owners[0].api_version, "njha.dev/v1");
            assert_eq!(owners[0].kind, "SyncedSecret");
            assert_eq!(owners[0].name, "db-creds");
            assert_eq!(owners[0].uid, "uid-1");
            assert_eq!(secret.data, Some(vec![("user".to_string(), b"admin".to_vec())]));
        }
        _ => panic!("expected an apply"),
    }
}

#[test]
fn vault_copy_is_applied_when_cluster_has_none() {
    let cr = resource(Vec::new());
    let state = started(&cr);
    let (_, action) = reconcile_step(
        &cr,
        state,
        Event::Looked { cluster: ClusterSecret::Missing, vault: vault_object(&[("a", "b")]) },
    );
    match action {
        Action::ApplySecret { secret, .. } => {
            assert_eq!(secret.data, Some(vec![("a".to_string(), b"b".to_vec())]))
        }
        _ => panic!("expected an apply"),
    }
}

#[test]
fn successful_write_requeues_in_three_to_five_minutes() {
    let cr = resource(Vec::new());
    let state = started(&cr);
    let (state, _) = reconcile_step(
        &cr,
        state,
        Event::Looked { cluster: ClusterSecret::Missing, vault: vault_object(&[("a", "b")]) },
    );
    let (state, action) = reconcile_step(&cr, state, Event::Written { result: Ok(()) });
    assert!(matches!(state, ReconcileState::Done));
    match action {
        Action::Requeue { after_secs } => assert!((180..300).contains(&after_secs)),
        _ => panic!("expected a requeue"),
    }
}

#[test]
fn refused_write_aborts() {
    let cr = resource(Vec::new());
    let state = started(&cr);
    let (state, _) = reconcile_step(
        &cr,
        state,
        Event::Looked { cluster: ClusterSecret::Missing, vault: vault_object(&[("a", "b")]) },
    );
    let (_, action) =
        reconcile_step(&cr, state, Event::Written { result: Err("conflict".to_string()) });
    match action {
        Action::Abort { fault: Fault::WriteRefused(m) } => assert_eq!(m, "conflict"),
        _ => panic!("expected an abort"),
    }
}

#[test]
fn cluster_secret_is_pushed_when_vault_lacks_it() {
    let cr = resource(Vec::new());
    let state = started(&cr);
    let (state, action) = reconcile_step(
        &cr,
        state,
        Event::Looked {
            cluster: ClusterSecret::Present { data: Some(vec![("user".to_string(), b"admin".to_vec())]) },
            vault: Err("not found".to_string()),
        },
    );
    match action {
        Action::PushToVault { vault_path, payload } => {
            assert_eq!(vault_path, "apps/db-creds");
            assert_eq!(payload, vec![("user".to_string(), "admin".to_string())]);
        }
        _ => panic!("expected a push"),
    }
    // Even when the push succeeds, the reconcile reports the failed read and leaves the
    // cluster's secret alone.
    let (state, action) = reconcile_step(&cr, state, Event::Pushed { result: Ok(()) });
    assert!(matches!(state, ReconcileState::Done));
    match action {
        Action::Fail { error } => assert_eq!(error, ControllerError::VaultError("not found".to_string())),
        _ => panic!("expected a failure"),
    }
}

#[test]
fn failed_push_reports_the_push_error() {
    let cr = resource(Vec::new());
    let state = started(&cr);
    let (state, _) = reconcile_step(
        &cr,
        state,
        Event::Looked { cluster: ClusterSecret::Present { data: None }, vault: Err("down".to_string()) },
    );
    let (_, action) =
        reconcile_step(&cr, state, Event::Pushed { result: Err("unreachable".to_string()) });
    match action {
        Action::Fail { error } => {
            assert_eq!(error, ControllerError::VaultError("unreachable".to_string()))
        }
        _ => panic!("expected a failure"),
    }
}

#[test]
fn vault_path_without_object_counts_as_missing() {
    let cr = resource(Vec::new());
    let state = started(&cr);
    let (state, action) = reconcile_step(
        &cr,
        state,
        Event::Looked {
            cluster: ClusterSecret::Present { data: Some(Vec::new()) },
            vault: Ok(VaultDocument::Other),
        },
    );
    assert!(matches!(action, Action::PushToVault { .. }));
    let (_, action) = reconcile_step(&cr, state, Event::Pushed { result: Ok(()) });
    match action {
        Action::Fail { error } => assert_eq!(
            error,
            ControllerError::ArcanumError { reason: "path in vault is not an object!".to_string() }
        ),
        _ => panic!("expected a failure"),
    }
}

#[test]
fn cluster_value_that_is_not_utf8_aborts() {
    let cr = resource(Vec::new());
    let state = started(&cr);
    let (_, action) = reconcile_step(
        &cr,
        state,
        Event::Looked {
            cluster: ClusterSecret::Present { data: Some(vec![("bin".to_string(), vec![0xff])]) },
            vault: Err("not found".to_string()),
        },
    );
    assert!(matches!(action, Action::Abort { fault: Fault::NonUtf8ClusterValue }));
}

#[test]
fn vault_value_that_is_not_a_string_aborts() {
    let cr = resource(Vec::new());
    let state = started(&cr);
    let (_, action) = reconcile_step(
        &cr,
        state,
        Event::Looked {
            cluster: ClusterSecret::Missing,
            vault: Ok(VaultDocument::Object(vec![("n".to_string(), VaultValue::Other)])),
        },
    );
    assert!(matches!(action, Action::Abort { fault: Fault::NonTextVaultValue }));
}

#[test]
fn secret_is_created_from_sealed_values_when_missing_everywhere() {
    let key = SealingKey::from_base64(KEY).unwrap();
    let cr = resource(vec![
        ("user".to_string(), key.seal("admin").unwrap()),
        ("pw".to_string(), key.seal("hunter2").unwrap()),
    ]);
    let state = started(&cr);
    let (state, action) = reconcile_step(
        &cr,
        state,
        Event::Looked { cluster: ClusterSecret::Missing, vault: Err("not found".to_string()) },
    );
    assert!(matches!(state, ReconcileState::AwaitingWrite));
    match action {
        Action::CreateSecret { namespace, secret } => {
            assert_eq!(namespace, "apps");
            assert_eq!(secret.metadata.name, Some("db-creds".to_string()));
            assert_eq!(
                secret.data,
                Some(vec![
                    ("user".to_string(), b"admin".to_vec()),
                    ("pw".to_string(), b"hunter2".to_vec()),
                ])
            );
        }
        _ => panic!("expected a create"),
    }
}

#[test]
fn sealed_value_that_does_not_open_aborts() {
    let cr = resource(vec![("user".to_string(), "bm90IGEgY2lwaGVydGV4dA==".to_string())]);
    let state = started(&cr);
    let (_, action) = reconcile_step(
        &cr,
        state,
        Event::Looked { cluster: ClusterSecret::Missing, vault: Err("not found".to_string()) },
    );
    assert!(matches!(action, Action::Abort { fault: Fault::CannotUnseal }));
}

#[test]
fn missing_uid_aborts_before_writing() {
    let mut cr = resource(Vec::new());
    cr.metadata.uid = None;
    let state = started(&cr);
    let (_, action) = reconcile_step(
        &cr,
        state,
        Event::Looked { cluster: ClusterSecret::Missing, vault: vault_object(&[("a", "b")]) },
    );
    assert!(matches!(action, Action::Abort { fault: Fault::MissingUid }));
}

#[test]
fn unexpected_event_aborts() {
    let cr = resource(Vec::new());
    let (state, action) = reconcile_step(&cr, ReconcileState::Init, Event::Written { result: Ok(()) });
    assert!(matches!(state, ReconcileState::Done));
    assert!(matches!(action, Action::Abort { fault: Fault::UnexpectedEvent }));
}
