use std::collections::BTreeMap;
use via::model::{
    Event, Mesh, MeshSnapshot, Node, Payload, Secret, Service, ServiceStatus, Value,
};
use via::paths::ViaPaths;
use via::records::{next_read, ReadStep, StoredKind};
use via::state::{Stored, StoreWrite, StoredRecords, ViaState};

fn nothing() -> StoredRecords {
    StoredRecords {
        mesh: None,
        local_node_id: None,
        nodes: vec![],
        services: vec![],
        secrets: vec![],
        events: vec![],
    }
}

fn open() -> ViaState {
    ViaState::open(ViaPaths::under("/tmp/via-test".to_string()), nothing())
}

fn node(id: &str, slug: &str) -> Node {
    Node {
        id: id.to_string(),
        slug: slug.to_string(),
        display_name: slug.to_string(),
        addresses: vec![slug.to_string()],
        daemon_addr: format!("{slug}:47819"),
        iroh_addr: None,
        public: false,
        created_at: 1,
        last_seen_at: None,
    }
}

fn mesh() -> Mesh {
    Mesh { id: "mesh".to_string(), created_at: 1 }
}

fn secret(name: &str) -> Secret {
    Secret {
        name: name.to_string(),
        ciphertext: "encrypted".to_string(),
        created_at: 1,
        updated_at: 2,
    }
}

fn snapshot() -> MeshSnapshot {
    MeshSnapshot { mesh: None, nodes: vec![], services: vec![], secrets: vec![], events: vec![] }
}

fn text(key: &str, value: &str) -> (String, Value) {
    (key.to_string(), Value::Text(value.to_string()))
}

/// A store that keeps what the state tells it to.
struct Disk {
    values: BTreeMap<String, Stored>,
    rows: Vec<Event>,
}

impl Disk {
    fn new() -> Disk {
        Disk { values: BTreeMap::new(), rows: vec![] }
    }

    fn follow(&mut self, writes: Vec<StoreWrite>) {
        for write in writes {
            match write {
                StoreWrite::Put { key, value } => {
                    self.values.insert(key, value);
                }
                StoreWrite::Delete { key } => {
                    self.values.remove(&key);
                }
                StoreWrite::InsertEventRow(event) => {
                    if self.rows.iter().all(|row| row.id != event.id) {
                        self.rows.push(event);
                    }
                }
                StoreWrite::DeleteEventRow(id) => self.rows.retain(|row| row.id != id),
                StoreWrite::CreateEventTable | StoreWrite::Save | StoreWrite::Close => {}
            }
        }
    }

    fn names(&self, index: &str) -> Vec<String> {
        match self.values.get(index) {
            Some(Stored::Names(names)) => names.clone(),
            _ => vec![],
        }
    }

    fn records(&self) -> StoredRecords {
        let mut read = vec![];
        loop {
            match next_read(&read) {
                ReadStep::Read { key, .. } => read.push(self.values.get(&key).map(copied)),
                ReadStep::Finished(records) => return records,
            }
        }
    }

    fn reopened(&self) -> ViaState {
        ViaState::open(ViaPaths::under("/tmp/via-test".to_string()), self.records())
    }
}

fn copied(value: &Stored) -> Stored {
    match value {
        Stored::Mesh(mesh) => Stored::Mesh(mesh.clone()),
        Stored::Text(text) => Stored::Text(text.clone()),
        Stored::Names(names) => Stored::Names(names.clone()),
        Stored::Node(node) => Stored::Node(node.clone()),
        Stored::Service(service) => Stored::Service(service.clone()),
        Stored::Secret(secret) => Stored::Secret(secret.clone()),
        Stored::Event(event) => Stored::Event(event.clone()),
    }
}

#[test]
fn stores_nodes_in_lux() {
    let mut state = open();
    state.save_mesh(&mesh());
    state.upsert_node(&node("node", "rig"));

    assert_eq!(state.mesh().unwrap().id, "mesh");
    assert_eq!(state.nodes()[0].slug, "rig");
    let mut disk = Disk::new();
    disk.follow(state.take_writes());
    assert!(disk.values.contains_key("via:mesh"));
    assert_eq!(disk.names("via:index:nodes"), vec!["rig".to_string()]);
}

#[test]
fn imports_snapshots_into_lux_views() {
    let mut state = open();
    state.import_snapshot(MeshSnapshot {
        mesh: Some(mesh()),
        nodes: vec![node("node", "pi")],
        ..snapshot()
    });

    assert_eq!(state.mesh().unwrap().id, "mesh");
    assert_eq!(state.node_by_slug("pi").unwrap().slug, "pi");
}

#[test]
fn persists_secrets() {
    let mut disk = Disk::new();
    let mut state = open();
    state.upsert_secret(&secret("API_KEY"));
    state.shutdown();
    disk.follow(state.take_writes());

    let state = ViaState::open(ViaPaths::under("/tmp/via-test".to_string()), disk.records());
    let secrets = state.secrets();
    assert_eq!(secrets.len(), 1);
    assert_eq!(secrets[0].name, "API_KEY");
}

#[test]
fn imported_snapshot_reconciles_deleted_secrets() {
    let mut disk = Disk::new();
    let mut state = open();
    state.upsert_secret(&secret("OLD_SECRET"));
    state.import_snapshot(snapshot());

    assert!(state.secrets().is_empty());
    disk.follow(state.take_writes());
    assert!(disk.records().secrets.is_empty());
}

#[test]
fn events_are_available_in_kv_and_lux_table() {
    let mut disk = Disk::new();
    let mut state = open();
    state.append_event(
        "audit.test",
        Payload::Object(vec![("safe".to_string(), Value::Bool(true))]),
        7,
    );

    let events = state.events(10);
    assert_eq!(events.len(), 1);
    assert_eq!(events[0].kind, "audit.test");
    assert_eq!(events[0].created_at, 7);
    disk.follow(state.take_writes());
    assert!(disk.rows.iter().any(|row| row.kind == "audit.test"));
    assert_eq!(disk.records().events.len(), 1);
}

#[test]
fn imported_snapshot_merges_events() {
    let mut state = open();
    state.import_snapshot(MeshSnapshot {
        events: vec![Event {
            id: "event-1".to_string(),
            kind: "remote.event".to_string(),
            payload: Payload::Object(vec![text("node", "rig")]),
            created_at: 1,
        }],
        ..snapshot()
    });

    let events = state.events(10);
    assert_eq!(events.len(), 1);
    assert_eq!(events[0].kind, "remote.event");
}

#[test]
fn secret_events_are_sanitized_before_storage() {
    let mut disk = Disk::new();
    let mut state = open();
    state.append_event(
        "secret.set",
        Payload::Object(vec![
            text("name", "API_KEY"),
            text("ciphertext", "encrypted"),
            ("created_at".to_string(), Value::Int(1)),
            ("updated_at".to_string(), Value::Int(2)),
        ]),
        7,
    );

    let events = state.events(10);
    assert!(events[0].payload.same(&Payload::Object(vec![text("name", "API_KEY")])));
    disk.follow(state.take_writes());
    assert!(!format!("{:?}", disk.rows).contains("ciphertext"));
}

#[test]
fn service_events_do_not_log_command_args() {
    let mut disk = Disk::new();
    let mut state = open();
    state.append_event(
        "service.started",
        Payload::Object(vec![
            text("name", "api"),
            text("target", "node:22"),
            (
                "command".to_string(),
                Value::Texts(vec!["sh".to_string(), "-lc".to_string(), "echo secret".to_string()]),
            ),
        ]),
        7,
    );

    let events = state.events(10);
    assert!(events[0]
        .payload
        .same(&Payload::Object(vec![text("name", "api"), text("target", "node:22")])));
    disk.follow(state.take_writes());
    assert!(!format!("{:?}", disk.rows).contains("echo secret"));
}

#[test]
fn old_secret_events_are_repaired_when_the_store_is_opened() {
    let mut disk = Disk::new();
    let mut records = nothing();
    records.events.push(Event {
        id: "old".to_string(),
        kind: "secret.set".to_string(),
        payload: Payload::Object(vec![text("name", "A"), text("ciphertext", "x")]),
        created_at: 1,
    });
    let mut state = ViaState::open(ViaPaths::under("/tmp/via-test".to_string()), records);
    disk.follow(state.take_writes());
    assert!(state.events(1)[0].payload.same(&Payload::Object(vec![text("name", "A")])));
    assert_eq!(disk.rows.len(), 1);
    assert!(disk.rows[0].payload.same(&Payload::Object(vec![text("name", "A")])));
}

#[test]
fn nodes_come_in_the_order_of_their_slugs() {
    let mut state = open();
    for slug in ["rig", "laptop", "pi"] {
        state.upsert_node(&node(slug, slug));
    }
    let slugs: Vec<String> = state.nodes().iter().map(|n| n.slug.clone()).collect();
    assert_eq!(slugs, vec!["laptop", "pi", "rig"]);
    state.delete_node_slug("pi");
    assert!(state.node_by_slug("pi").is_none());
    assert_eq!(state.node_by_id("rig").unwrap().slug, "rig");
}

#[test]
fn a_node_without_an_identity_is_not_initialized() {
    let mut state = open();
    assert!(state.local_node().is_err());
    state.upsert_node(&node("node", "rig"));
    state.save_local_node_id("node");
    assert_eq!(state.local_node().unwrap().slug, "rig");
}

#[test]
fn snapshots_of_other_nodes_do_not_touch_this_node() {
    let mut state = open();
    let mut own = node("own", "laptop");
    own.last_seen_at = Some(9);
    own.iroh_addr = Some("here".to_string());
    state.upsert_node(&own);
    state.save_local_node_id("own");
    let mut seen = node("rig", "rig");
    seen.last_seen_at = Some(5);
    state.import_snapshot(MeshSnapshot { nodes: vec![seen], ..snapshot() });
    assert_eq!(state.node_by_slug("rig").unwrap().last_seen_at, None);
    assert_eq!(state.local_node().unwrap().last_seen_at, Some(9));
    assert_eq!(state.local_node().unwrap().iroh_addr.as_deref(), Some("here"));
}

#[test]
fn a_node_can_import_its_own_snapshot() {
    let mut state = open();
    state.save_mesh(&mesh());
    state.upsert_node(&node("rig", "rig"));
    state.upsert_secret(&secret("API_KEY"));
    let copy = state.snapshot();
    state.import_snapshot(copy);
    assert_eq!(state.nodes().len(), 1);
    assert_eq!(state.secrets().len(), 1);
    assert_eq!(state.mesh().unwrap().id, "mesh");
}

#[test]
fn events_come_newest_first() {
    let mut state = open();
    for now in [3, 1, 2] {
        state.append_event("tick", Payload::Plain(Value::Int(now)), now);
    }
    let times: Vec<i64> = state.events(2).iter().map(|e| e.created_at).collect();
    assert_eq!(times, vec![3, 2]);
    let id = state.events(1)[0].id.clone();
    assert_eq!(state.event_by_id(&id).unwrap().created_at, 3);
    assert!(state.event_by_id("no such event").is_none());
}

#[test]
fn nothing_but_names_is_kept_of_secret_events() {
    let empty = Payload::Object(vec![]);
    let mut state = open();
    state.append_event("secret.set", Payload::Object(vec![text("ciphertext", "x")]), 1);
    state.append_event(
        "secret.set",
        Payload::Object(vec![("name".to_string(), Value::Int(1)), text("value", "x")]),
        2,
    );
    state.append_event("secret.set", Payload::Plain(Value::Text("x".to_string())), 3);
    state.append_event("service.started", Payload::Plain(Value::Text("sh".to_string())), 4);
    state.append_event("node.exec", Payload::Plain(Value::Texts(vec!["sh".to_string()])), 5);
    let events = state.events(10);
    assert_eq!(events.len(), 5);
    assert!(events.iter().all(|event| event.payload.same(&empty)));
    let deleted = Payload::Plain(Value::Text("API_KEY".to_string()));
    state.append_event("secret.deleted", deleted.clone(), 6);
    assert!(state.events(1)[0].payload.same(&deleted));
}

#[test]
fn own_addresses_are_kept_where_the_own_slug_is_taken_over() {
    let mut state = open();
    let mut own = node("own", "laptop");
    own.last_seen_at = Some(9);
    state.upsert_node(&own);
    state.save_local_node_id("own");
    let nodes = vec![node("own", "desk"), node("other", "laptop")];
    state.import_snapshot(MeshSnapshot { nodes, ..snapshot() });
    let desk = state.node_by_slug("desk").unwrap();
    assert_eq!(desk.id, "own");
    assert_eq!(desk.daemon_addr, "laptop:47819");
    assert_eq!(desk.last_seen_at, Some(9));
    assert_eq!(state.node_by_slug("laptop").unwrap().id, "other");
}

#[test]
fn the_next_run_knows_what_this_run_knew() {
    let mut disk = Disk::new();
    let mut state = disk.reopened();
    disk.follow(state.take_writes());
    state.save_mesh(&mesh());
    state.save_local_node_id("b");
    for slug in ["b", "a", "c"] {
        state.upsert_node(&node(slug, slug));
    }
    state.delete_node_slug("c");
    let service = Service {
        id: "1".to_string(),
        name: "api".to_string(),
        node_id: "a".to_string(),
        node_slug: "a".to_string(),
        node_addr: "a:47819".to_string(),
        target: "nginx".to_string(),
        container: "via-api".to_string(),
        port: None,
        command: vec![],
        status: ServiceStatus::Running,
        published_private: false,
        created_at: 1,
        updated_at: 1,
    };
    state.upsert_service(&service);
    state.upsert_service(&Service { name: "web".to_string(), ..service });
    state.delete_service("api");
    state.upsert_secret(&secret("A"));
    state.upsert_secret(&secret("B"));
    state.delete_secret("A");
    state.append_event("tick", Payload::Plain(Value::Int(1)), 7);
    state.persist();
    disk.follow(state.take_writes());

    let mut next = disk.reopened();
    assert_eq!(format!("{:?}", next.snapshot()), format!("{:?}", state.snapshot()));
    assert_eq!(next.local_node().unwrap().slug, "b");
    assert_eq!(next.nodes().len(), 2);
    assert_eq!(next.services()[0].name, "web");
    assert_eq!(next.secrets()[0].name, "B");
    assert_eq!(disk.rows.len(), 1);

    next.import_snapshot(MeshSnapshot { nodes: vec![node("d", "d")], ..snapshot() });
    disk.follow(next.take_writes());
    let last = disk.reopened();
    let slugs: Vec<String> = last.nodes().into_iter().map(|node| node.slug).collect();
    assert_eq!(slugs, vec!["a", "b", "d"]);
    assert!(last.secrets().is_empty());
    assert_eq!(last.services().len(), 1);
}

#[test]
fn stores_are_read_by_their_indexes() {
    let names = |names: &[&str]| {
        Some(Stored::Names(names.iter().map(|name| name.to_string()).collect()))
    };
    let wanted = |read: &Vec<Option<Stored>>| match next_read(read) {
        ReadStep::Read { key, kind } => (key, kind),
        ReadStep::Finished(_) => panic!("too early"),
    };
    let mut read = vec![];
    assert_eq!(wanted(&read), ("via:mesh".to_string(), StoredKind::Mesh));
    read.push(Some(Stored::Mesh(mesh())));
    assert_eq!(wanted(&read), ("via:local_node_id".to_string(), StoredKind::Text));
    read.push(None);
    assert_eq!(wanted(&read), ("via:index:nodes".to_string(), StoredKind::Names));
    read.push(names(&["gone", "rig"]));
    assert_eq!(wanted(&read), ("via:node:gone".to_string(), StoredKind::Node));
    read.push(None);
    assert_eq!(wanted(&read), ("via:node:rig".to_string(), StoredKind::Node));
    read.push(Some(Stored::Node(node("rig", "rig"))));
    assert_eq!(wanted(&read), ("via:index:services".to_string(), StoredKind::Names));
    read.push(None);
    assert_eq!(wanted(&read), ("via:index:secrets".to_string(), StoredKind::Names));
    read.push(names(&["A"]));
    assert_eq!(wanted(&read), ("via:secret:A".to_string(), StoredKind::Secret));
    read.push(Some(Stored::Secret(secret("A"))));
    assert_eq!(wanted(&read), ("via:index:events".to_string(), StoredKind::Names));
    read.push(None);
    match next_read(&read) {
        ReadStep::Finished(records) => {
            assert_eq!(records.mesh.unwrap().id, "mesh");
            assert!(records.local_node_id.is_none());
            assert_eq!(records.nodes.len(), 1);
            assert_eq!(records.nodes[0].slug, "rig");
            assert_eq!(records.secrets[0].name, "A");
            assert!(records.services.is_empty() && records.events.is_empty());
        }
        other => panic!("unexpected step: {other:?}"),
    }
}

#[test]
fn bare_values_are_kept_of_events() {
    let mut state = open();
    let plain = |value: Value| Payload::Plain(value);
    let kept = [
        plain(Value::Null),
        plain(Value::Bool(true)),
        plain(Value::Int(3)),
        plain(Value::Raw("1.5".to_string())),
        plain(Value::Raw("-0.5".to_string())),
    ];
    for kind in ["service.note", "node.exec", "secret.set"] {
        for payload in &kept {
            let id = state.append_event(kind, payload.clone(), 1);
            assert!(state.event_by_id(&id).unwrap().payload.same(payload));
        }
        let id = state.append_event(kind, plain(Value::Raw("[[\"sh\"]]".to_string())), 1);
        assert!(state.event_by_id(&id).unwrap().payload.same(&Payload::Object(vec![])));
    }
}

#[test]
fn nodes_that_a_snapshot_does_not_name_stay() {
    let mut state = open();
    let mut seen = node("rig", "rig");
    seen.last_seen_at = Some(4);
    state.upsert_node(&seen);
    state.import_snapshot(MeshSnapshot { nodes: vec![node("pi", "pi")], ..snapshot() });
    assert_eq!(state.node_by_slug("rig").unwrap().last_seen_at, Some(4));
    assert_eq!(state.nodes().len(), 2);
}
