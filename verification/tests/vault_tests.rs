use arcanum::error::ControllerError;
use arcanum::vault::{cluster_data, entries_from_document, vault_path, vault_payload, VaultDocument, VaultValue};

fn text(key: &str, value: &str) -> (String, VaultValue) {
    (key.to_string(), VaultValue::Text(value.to_string()))
}

#[test]
fn vault_path_joins_namespace_and_name() {
    assert_eq!(vault_path("default", "db-creds"), "default/db-creds");
    assert_eq!(vault_path("", "x"), "/x");
}

#[test]
fn document_that_is_an_object_gives_its_entries() {
    let doc = VaultDocument::Object(vec![text("user", "admin")]);
    assert_eq!(entries_from_document(doc).unwrap(), vec![text("user", "admin")]);
}

#[test]
fn document_that_is_not_an_object_is_refused() {
    assert_eq!(
        entries_from_document(VaultDocument::Other).err(),
        Some(ControllerError::ArcanumError { reason: "path in vault is not an object!".to_string() })
    );
}

#[test]
fn payload_reads_values_as_utf8() {
    let data = vec![
        ("user".to_string(), b"admin".to_vec()),
        ("note".to_string(), "héllo".as_bytes().to_vec()),
    ];
    assert_eq!(
        vault_payload(&data).unwrap(),
        vec![("user".to_string(), "admin".to_string()), ("note".to_string(), "héllo".to_string())]
    );
    assert_eq!(vault_payload(&Vec::new()).unwrap(), Vec::new());
}

#[test]
fn payload_refuses_values_that_are_not_utf8() {
    let data = vec![("user".to_string(), b"admin".to_vec()), ("bin".to_string(), vec![0xff, 0xfe])];
    assert_eq!(vault_payload(&data), None);
}

#[test]
fn cluster_data_takes_utf8_bytes_of_strings() {
    let entries = vec![text("user", "admin"), text("note", "héllo")];
    assert_eq!(
        cluster_data(&entries).unwrap(),
        vec![("user".to_string(), b"admin".to_vec()), ("note".to_string(), "héllo".as_bytes().to_vec())]
    );
}

#[test]
fn cluster_data_refuses_values_that_are_not_strings() {
    let entries = vec![text("user", "admin"), ("count".to_string(), VaultValue::Other)];
    assert_eq!(cluster_data(&entries), None);
}

#[test]
fn pushed_data_pulls_back_unchanged() {
    let data = vec![("user".to_string(), b"admin".to_vec()), ("pw".to_string(), "s3cr3t✓".as_bytes().to_vec())];
    let payload = vault_payload(&data).unwrap();
    let stored: Vec<(String, VaultValue)> =
        payload.into_iter().map(|(k, v)| (k, VaultValue::Text(v))).collect();
    assert_eq!(cluster_data(&stored).unwrap(), data);
}
