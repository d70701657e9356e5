use std::collections::BTreeMap;
use via::model::{Mesh, Payload, Value};
use via::paths::ViaPaths;
use via::records::{next_read, ReadStep};
use via::secrets::{secret_delete, secret_list, secret_list_at, secret_name, secret_set};
use via::security::decrypt_string;
use via::state::{StoreWrite, Stored, StoredRecords, ViaState};

fn state(mesh: bool) -> ViaState {
    ViaState::open(
        ViaPaths::under("/tmp/via-test".to_string()),
        StoredRecords {
            mesh: if mesh { Some(Mesh { id: "m".to_string(), created_at: 1 }) } else { None },
            local_node_id: None,
            nodes: vec![],
            services: vec![],
            secrets: vec![],
            events: vec![],
        },
    )
}

fn key() -> Result<Vec<u8>, String> {
    Ok(vec![3u8; 32])
}

fn copied(value: &Stored) -> Stored {
    match value {
        Stored::Mesh(mesh) => Stored::Mesh(mesh.clone()),
        Stored::Text(text) => Stored::Text(text.clone()),
        Stored::Names(names) => Stored::Names(names.clone()),
        Stored::Node(node) => Stored::Node(node.clone()),
        Stored::Service(service) => Stored::Service(service.clone()),
        Stored::Secret(secret) => Stored::Secret(secret.clone()),
        Stored::Event(event) => Stored::Event(event.clone()),
    }
}

/// Ends a run, makes the changes of the store, and opens the state of the next run.
fn next_run(store: &mut BTreeMap<String, Stored>, mut state: ViaState) -> ViaState {
    state.shutdown();
    for write in state.take_writes() {
        match write {
            StoreWrite::Put { key, value } => {
                store.insert(key, value);
            }
            StoreWrite::Delete { key } => {
                store.remove(&key);
            }
            _ => {}
        }
    }
    let mut read = vec![];
    loop {
        match next_read(&read) {
            ReadStep::Read { key, .. } => read.push(store.get(&key).map(copied)),
            ReadStep::Finished(records) => return ViaState::open(ViaPaths::under("/tmp/via-test".to_string()), records),
        }
    }
}

#[test]
fn secrets_are_encrypted_listed_and_deleted() {
    let mut state = state(true);
    let mesh = state.mesh().unwrap();
    state.save_mesh(&mesh);
    assert_eq!(
        secret_set(&mut state, "api_key", "super-secret-value", &key(), 0).unwrap(),
        "Set secret 'API_KEY'."
    );
    let mut store = BTreeMap::new();
    let state = next_run(&mut store, state);
    let kept = format!("{store:?}");
    assert!(kept.contains("API_KEY"));
    assert!(!kept.contains("super-secret-value"));

    let list = secret_list_at(&state, 0);
    assert_eq!(
        list,
        vec![
            "NAME                     UPDATED",
            "API_KEY                  1970-01-01 00:00:00 +0000",
        ]
    );
    assert_eq!(secret_list(&state).len(), 2);
    let secret = state.secret_by_name("API_KEY").unwrap();
    assert_eq!(
        decrypt_string(&key().unwrap(), &secret.ciphertext).unwrap(),
        "super-secret-value"
    );

    let mut state = next_run(&mut store, state);
    assert_eq!(
        secret_delete(&mut state, "api_key", 2).unwrap(),
        "Deleted secret 'API_KEY'."
    );
    let state = next_run(&mut store, state);
    assert_eq!(secret_list_at(&state, 0), vec!["No secrets."]);

    let events = state.events(9);
    assert_eq!(events[0].kind, "secret.deleted");
    assert_eq!(events[1].kind, "secret.set");
    assert!(events[1].payload.same(&Payload::Object(vec![(
        "name".to_string(),
        Value::Text("API_KEY".to_string())
    )])));
    let shown = format!("{events:?}");
    assert!(!shown.contains("ciphertext"));
    assert!(!shown.contains("super-secret-value"));
}

#[test]
fn secret_set_requires_initialized_mesh() {
    let mut state = state(false);
    let refused = secret_set(&mut state, "api_key", "super-secret-value", &key(), 1).unwrap_err();
    assert!(refused.contains("via init"));
    assert!(secret_name(&state, "api_key").is_err());
    assert!(secret_delete(&mut state, "api_key", 1).unwrap_err().contains("via init"));
}

#[test]
fn setting_a_secret_again_keeps_when_it_was_made() {
    let mut state = state(true);
    secret_set(&mut state, "a", "1", &key(), 5).unwrap();
    secret_set(&mut state, "a", "2", &key(), 9).unwrap();
    let secret = state.secret_by_name("A").unwrap();
    assert_eq!((secret.created_at, secret.updated_at), (5, 9));
}

#[test]
fn secrets_that_cannot_be_kept_change_nothing() {
    let mut state = state(true);
    assert_eq!(
        secret_set(&mut state, "a", "1", &Err("no key".to_string()), 5).unwrap_err(),
        "no key"
    );
    assert_eq!(
        secret_set(&mut state, "a", "1", &Ok(vec![1u8; 5]), 5).unwrap_err(),
        "Invalid Length"
    );
    assert!(secret_set(&mut state, "---", "1", &key(), 5).is_err());
    assert!(state.secrets().is_empty());
    assert_eq!(
        secret_delete(&mut state, "a", 5).unwrap_err(),
        "unknown secret 'A'"
    );
}
