use std::collections::BTreeMap;
use via::cli::RouteMode;
use via::commands::{
    add_node, check, configure_hub_for_added_node, daemon_addr_of, doctor, doctor_probes, exec,
    executed, hostname, init, init_needs_host, local_probe_addr, node_added, node_ping, node_rm,
    nodes, ping_answered, rename_node, set_node_addr, start, sync_all, sync_warning, HubListing,
    HubSetup, Probe,
};
use via::hub::{HubConfig, HubNode};
use via::model::{Mesh, Node, Service, ServiceStatus};
use via::paths::ViaPaths;
use via::process::Run;
use via::records::{next_read, ReadStep};
use via::routes::{call_node, open_call, resolve_node_for_route, CallStep, Resolved, Way};
use via::rpc::{RpcRequest, RpcResponse};
use via::state::{StoreWrite, Stored, StoredRecords, ViaState};

fn paths() -> ViaPaths {
    ViaPaths::under("/home/me/.via".to_string())
}

fn node(slug: &str, seen: Option<i64>) -> Node {
    Node {
        id: format!("id-{slug}"),
        slug: slug.to_string(),
        display_name: slug.to_string(),
        addresses: vec![slug.to_string(), format!("{slug}.lan")],
        daemon_addr: format!("{slug}:47819"),
        iroh_addr: None,
        public: slug == "rig",
        created_at: 1,
        last_seen_at: seen,
    }
}

fn empty() -> ViaState {
    ViaState::open(
        paths(),
        StoredRecords {
            mesh: None,
            local_node_id: None,
            nodes: vec![],
            services: vec![],
            secrets: vec![],
            events: vec![],
        },
    )
}

fn state() -> ViaState {
    ViaState::open(
        paths(),
        StoredRecords {
            mesh: Some(Mesh { id: "mesh".to_string(), created_at: 1 }),
            local_node_id: Some("id-laptop".to_string()),
            nodes: vec![node("laptop", Some(1)), node("rig", None)],
            services: vec![],
            secrets: vec![],
            events: vec![],
        },
    )
}

fn listed(slug: &str) -> HubNode {
    HubNode {
        id: format!("id-{slug}"),
        slug: slug.to_string(),
        name: slug.to_string(),
        status: "online".to_string(),
        seen: 9,
    }
}

fn copied(value: &Stored) -> Stored {
    match value {
        Stored::Mesh(mesh) => Stored::Mesh(mesh.clone()),
        Stored::Text(text) => Stored::Text(text.clone()),
        Stored::Names(names) => Stored::Names(names.clone()),
        Stored::Node(node) => Stored::Node(node.clone()),
        Stored::Service(service) => Stored::Service(service.clone()),
        Stored::Secret(secret) => Stored::Secret(secret.clone()),
        Stored::Event(event) => Stored::Event(event.clone()),
    }
}

/// Ends a run, makes the changes of the store, and opens the state of the next run.
fn next_run(store: &mut BTreeMap<String, Stored>, mut state: ViaState) -> ViaState {
    state.shutdown();
    for write in state.take_writes() {
        match write {
            StoreWrite::Put { key, value } => {
                store.insert(key, value);
            }
            StoreWrite::Delete { key } => {
                store.remove(&key);
            }
            _ => {}
        }
    }
    let mut read = vec![];
    loop {
        match next_read(&read) {
            ReadStep::Read { key, .. } => read.push(store.get(&key).map(copied)),
            ReadStep::Finished(records) => return ViaState::open(paths(), records),
        }
    }
}

#[test]
fn init_and_nodes_persist_state() {
    let mut store = BTreeMap::new();
    let mut state = next_run(&mut store, empty());
    assert!(init_needs_host(&state, &Some("laptop".to_string()), &None));
    let shown = init(
        &mut state,
        Some("laptop".to_string()),
        None,
        None,
        Ok("my-host".to_string()),
        7,
    )
    .unwrap();
    assert!(shown.starts_with("Initialized Via mesh "));
    assert!(shown.ends_with(" as node 'laptop'."));
    let mesh = state.mesh().unwrap().id;

    let state = next_run(&mut store, state);
    assert_eq!(state.mesh().unwrap().id, mesh);
    let own = state.local_node().unwrap();
    assert_eq!(own.daemon_addr, "my-host:47819");
    assert_eq!(own.addresses, vec!["my-host"]);
    assert_eq!(own.last_seen_at, Some(7));
    let kinds: Vec<String> = state.events(9).iter().map(|e| e.kind.clone()).collect();
    assert_eq!(kinds.len(), 2);
    let (lines, warning) = nodes(&state, &HubListing::NoHub);
    assert!(warning.is_none());
    assert_eq!(lines[1], "laptop             no       my-host");
}

#[test]
fn a_mesh_is_made_once() {
    let mut state = empty();
    assert_eq!(
        init(&mut state, None, None, None, Err("no host".to_string()), 1).unwrap_err(),
        "no host"
    );
    assert!(state.mesh().is_none());
    init(&mut state, None, Some("m".to_string()), Some("n".to_string()), Ok("Box 1".to_string()), 1)
        .unwrap();
    assert_eq!(state.mesh().unwrap().id, "m");
    assert_eq!(state.local_node().unwrap().slug, "box-1");
    assert!(!init_needs_host(&state, &None, &None));
    assert_eq!(
        init(&mut state, None, None, None, Err("no host".to_string()), 2).unwrap(),
        "Via mesh already initialized."
    );
    assert_eq!(
        init(
            &mut state,
            Some("rig".to_string()),
            None,
            Some("n2".to_string()),
            Ok("host".to_string()),
            3
        )
        .unwrap(),
        "Refreshed Via node 'rig'."
    );
    assert_eq!(state.mesh().unwrap().id, "m");
    assert_eq!(state.local_node().unwrap().slug, "rig");
    assert_eq!(state.events(1)[0].kind, "node.refreshed");
}

#[test]
fn machines_are_added_by_ssh() {
    let mut state = state();
    let plan = add_node(&state, &paths(), "user@pi", &Some("Pi".to_string()), "0.1.0").unwrap();
    assert_eq!(plan.slug, "pi");
    assert!(!plan.existed);
    assert!(!plan.runs.is_empty());
    let shown = node_added(&mut state, &plan, "user@pi", "pi.lan", true, 5);
    assert_eq!(shown, "Added node 'pi'.");
    let added = state.node_by_slug("pi").unwrap();
    assert_eq!(added.daemon_addr, "pi.lan:47819");
    assert_eq!(added.addresses, vec!["user@pi"]);
    assert_eq!(added.last_seen_at, None);
    assert_eq!(state.events(1)[0].kind, "node.joined");
    let again = add_node(&state, &paths(), "pi", &None, "0.1.0").unwrap();
    assert!(again.existed);
    assert_eq!(again.node_id, added.id);
    assert_eq!(
        add_node(&empty(), &paths(), "pi", &None, "0.1.0").unwrap_err(),
        "run `via init` before adding nodes"
    );
    assert_eq!(daemon_addr_of("h"), "h:47819");
}

#[test]
fn added_machines_learn_of_the_hub() {
    let config = Some(HubConfig { url: "https://hub".to_string(), token: None });
    assert!(matches!(configure_hub_for_added_node(&None, Some("t"), "pi"), HubSetup::Nothing));
    assert!(matches!(configure_hub_for_added_node(&config, Some(""), "pi"), HubSetup::Nothing));
    assert!(matches!(configure_hub_for_added_node(&config, None, "pi"), HubSetup::Warn(text)
        if text.contains("via hub use https://hub` on 'pi'")));
    match configure_hub_for_added_node(&config, Some("t'x"), "pi") {
        HubSetup::Do(Run::Program { program, args }) => {
            assert_eq!(program, "ssh");
            assert_eq!(
                args.last().unwrap(),
                "VIA_HUB_ADMIN_TOKEN='t'\\''x' ~/.via/bin/via hub use 'https://hub'"
            );
        }
        other => panic!("unexpected setup: {other:?}"),
    }
}

#[test]
fn other_nodes_are_told() {
    let plan = sync_all(&state());
    assert_eq!(plan.targets, vec![("rig".to_string(), "rig:47819".to_string())]);
    assert_eq!(plan.snapshot.nodes.len(), 2);
    assert_eq!(
        sync_warning("rig", "down"),
        "warning: failed to sync node 'rig': down"
    );
}

#[test]
fn the_daemon_is_started_once() {
    let plan = start(&paths(), "0.0.0.0:5000", "/bin/via", false).unwrap();
    assert!(matches!(&plan.run, Run::Shell(line) if line
        == "nohup '/bin/via' daemon --bind '0.0.0.0:5000' > '/home/me/.via/daemon.log' 2>&1 &"));
    assert_eq!(plan.probe, "127.0.0.1:5000");
    assert_eq!(plan.done, "Via daemon started on 0.0.0.0:5000.");
    assert_eq!(
        start(&paths(), "0.0.0.0:5000", "/bin/via", true).unwrap_err(),
        "Via daemon is already running."
    );
    assert_eq!(local_probe_addr("nowhere"), "127.0.0.1:47819");
    assert_eq!(local_probe_addr("[::]:1"), "127.0.0.1:1");
}

#[test]
fn doctors_look_at_everything() {
    let state = state();
    let probes = doctor_probes(&state);
    assert!(matches!(&probes[0], Probe::Docker { label, .. } if label == "docker on laptop"));
    assert!(matches!(&probes[1], Probe::Ping { label, addr }
        if label == "daemon rig rig:47819" && addr == "rig:47819"));
    let (lines, verdict) = doctor(&state, true, true, None, &probes, &vec![true, true]);
    assert!(verdict.is_ok());
    assert_eq!(lines.len(), 6);
    assert_eq!(lines[0], "state directory                    ok");
    let (lines, verdict) = doctor(&state, true, false, Some("no key"), &probes, &vec![true, false]);
    assert_eq!(verdict.unwrap_err(), "doctor found issues");
    assert_eq!(lines[3], "  no key");
    assert_eq!(lines[6], check("daemon rig rig:47819", false));
    let (_, verdict) = doctor(&empty(), true, true, None, &vec![], &vec![]);
    assert!(verdict.is_err());
}

#[test]
fn nodes_of_the_hub_are_listed_too() {
    let (lines, _) = nodes(&state(), &HubListing::Nodes(vec![listed("pi"), listed("rig")]));
    assert_eq!(
        lines,
        vec![
            "NAME               PUBLIC   ADDRESS",
            "laptop             no       laptop,laptop.lan",
            "pi                 no       hub",
            "rig                yes      rig,rig.lan",
        ]
    );
    let (lines, warning) = nodes(&empty(), &HubListing::Failed("down".to_string()));
    assert_eq!(lines, vec!["No nodes. Run `via init` first."]);
    assert_eq!(warning.unwrap(), "warning: failed to read hub nodes: down");
}

#[test]
fn nodes_are_renamed_and_moved() {
    let mut state = state();
    assert_eq!(
        rename_node(&mut state, "rig", "laptop", 5).unwrap_err(),
        "node 'laptop' already exists"
    );
    assert_eq!(
        rename_node(&mut state, "far", "x", 5).unwrap_err(),
        "unknown node 'far'"
    );
    assert_eq!(
        rename_node(&mut state, "rig", "Labo Ratory", 5).unwrap(),
        "Renamed node 'rig' to 'labo-ratory'."
    );
    assert!(state.node_by_slug("rig").is_none());
    assert_eq!(state.node_by_slug("labo-ratory").unwrap().id, "id-rig");
    assert_eq!(
        set_node_addr(&mut state, "labo-ratory", "10.0.0.1", 6).unwrap(),
        "Updated node 'labo-ratory' address to 10.0.0.1:47819."
    );
    set_node_addr(&mut state, "labo-ratory", "10.0.0.1:5", 6).unwrap();
    let moved = state.node_by_slug("labo-ratory").unwrap();
    assert_eq!(moved.daemon_addr, "10.0.0.1:5");
    assert_eq!(moved.addresses, vec!["10.0.0.1:5"]);
    assert_eq!(state.events(1)[0].kind, "node.addr_changed");
}

#[test]
fn nodes_are_removed_when_nothing_needs_them() {
    let mut state = state();
    assert_eq!(
        node_rm(&mut state, "laptop", 5).unwrap_err(),
        "cannot remove the local node from itself"
    );
    state.upsert_service(&Service {
        id: "s".to_string(),
        name: "web".to_string(),
        node_id: "id-rig".to_string(),
        node_slug: "rig".to_string(),
        node_addr: String::new(),
        target: "nginx".to_string(),
        container: "via-web".to_string(),
        port: None,
        command: vec![],
        status: ServiceStatus::Running,
        published_private: false,
        created_at: 1,
        updated_at: 1,
    });
    assert_eq!(
        node_rm(&mut state, "rig", 5).unwrap_err(),
        "node 'rig' still has services; remove them first"
    );
    state.delete_service("web");
    assert_eq!(node_rm(&mut state, "rig", 5).unwrap(), "Removed node 'rig'.");
    assert!(state.node_by_slug("rig").is_none());
    assert_eq!(node_rm(&mut state, "rig", 5).unwrap_err(), "unknown node 'rig'");
}

#[test]
fn nodes_are_pinged() {
    let state = state();
    assert_eq!(
        node_ping(&state, &node("laptop", None)).unwrap().unwrap(),
        "Node 'laptop' is local."
    );
    assert!(node_ping(&state, &node("rig", None)).unwrap().is_none());
    assert!(node_ping(&empty(), &node("rig", None)).is_err());
    let rig = node("rig", None);
    assert_eq!(ping_answered(&rig, RouteMode::Auto), "Node 'rig' is reachable.");
    assert_eq!(
        ping_answered(&rig, RouteMode::Direct),
        "Node 'rig' is reachable via direct route."
    );
    assert_eq!(ping_answered(&rig, RouteMode::Hub), "Node 'rig' is reachable via hub.");
}

#[test]
fn commands_are_run_and_only_counted() {
    let mut state = state();
    let command = vec!["sh".to_string(), "-lc".to_string(), "echo secret".to_string()];
    assert!(exec(&state, &node("laptop", None), &command).unwrap().is_none());
    assert!(matches!(exec(&state, &node("rig", None), &command).unwrap(),
        Some(RpcRequest::Exec { command: asked }) if asked == command));
    executed(&mut state, &node("rig", None), &command, false, 5);
    let event = state.events(1).remove(0);
    assert_eq!(event.kind, "node.exec");
    let payload = format!("{:?}", event.payload);
    assert!(payload.contains("Int(3)"));
    assert!(!payload.contains("secret"));
}

#[test]
fn host_names_are_trimmed() {
    assert_eq!(hostname(Some((true, " box\n"))).unwrap(), "box");
    assert_eq!(hostname(Some((false, "box"))).unwrap_err(), "hostname command failed");
    assert_eq!(hostname(None).unwrap_err(), "failed to read hostname");
}

#[test]
fn routes_fall_back_to_the_hub() {
    assert_eq!(open_call(RouteMode::Hub), Way::Hub);
    assert_eq!(open_call(RouteMode::Auto), Way::Direct);
    let error = |e: &str| Err::<RpcResponse, String>(e.to_string());
    assert!(matches!(
        call_node(RouteMode::Auto, true, None, error("a")),
        CallStep::Try(Way::Hub)
    ));
    assert!(matches!(call_node(RouteMode::Auto, false, None, error("a")),
        CallStep::Done(Err(e)) if e == "a"));
    assert!(matches!(call_node(RouteMode::Direct, true, None, error("a")),
        CallStep::Done(Err(e)) if e == "a"));
    assert!(matches!(call_node(RouteMode::Auto, true, Some("a"), error("b")),
        CallStep::Done(Err(e)) if e == "direct route failed: a; hub route failed: b"));
    assert!(matches!(
        call_node(RouteMode::Auto, true, Some("a"), Ok(RpcResponse::Pong)),
        CallStep::Done(Ok(RpcResponse::Pong))
    ));
}

#[test]
fn nodes_are_looked_for_here_first() {
    let state = state();
    let found = Some(Ok(vec![listed("pi")]));
    assert!(matches!(
        resolve_node_for_route(&state, "rig", RouteMode::Direct, false, &None),
        Resolved::Found(n) if n.id == "id-rig"
    ));
    assert!(matches!(
        resolve_node_for_route(&state, "pi", RouteMode::Direct, true, &found),
        Resolved::Failed(e) if e == "unknown node 'pi'"
    ));
    assert!(matches!(
        resolve_node_for_route(&state, "pi", RouteMode::Auto, true, &None),
        Resolved::AskHub
    ));
    assert!(matches!(
        resolve_node_for_route(&state, "pi", RouteMode::Hub, true, &found),
        Resolved::Found(n) if n.last_seen_at == Some(9)
    ));
}
