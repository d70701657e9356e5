use via::model::{Mesh, Node};
use via::paths::ViaPaths;
use via::rpc::RpcRequest;
use via::state::{StoredRecords, ViaState};
use via::updates::{
    update, update_next, updated, wanted_version, UpdateHow, UpdateNext, UpdatePlan,
};

fn node(slug: &str) -> Node {
    Node {
        id: format!("id-{slug}"),
        slug: slug.to_string(),
        display_name: slug.to_string(),
        addresses: vec![],
        daemon_addr: String::new(),
        iroh_addr: None,
        public: false,
        created_at: 1,
        last_seen_at: None,
    }
}

fn state(mesh: bool) -> ViaState {
    ViaState::open(
        ViaPaths::under("/tmp/via-test".to_string()),
        StoredRecords {
            mesh: if mesh { Some(Mesh { id: "m".to_string(), created_at: 1 }) } else { None },
            local_node_id: Some("id-laptop".to_string()),
            nodes: vec![node("laptop"), node("rig")],
            services: vec![],
            secrets: vec![],
            events: vec![],
        },
    )
}

#[test]
fn update_check_reports_available_version() {
    let latest = wanted_version(false, false, None, Some("99.0.0")).unwrap().unwrap();
    match update(&state(true), true, false, None, &latest, "0.1.0").unwrap() {
        UpdatePlan::Show(lines) => {
            assert_eq!(lines[0], "current: 0.1.0");
            assert_eq!(lines[1], "latest:  99.0.0");
            assert!(lines[2].contains("available"));
        }
        other => panic!("unexpected plan: {other:?}"),
    }
}

#[test]
fn the_version_is_named_or_looked_up() {
    assert_eq!(
        wanted_version(true, true, None, None).unwrap_err(),
        "use either --all or --node, not both"
    );
    assert_eq!(
        wanted_version(false, false, Some("v0.2.0"), Some("9")).unwrap().as_deref(),
        Some("0.2.0")
    );
    assert!(wanted_version(false, false, Some("a b"), None).is_err());
    assert!(wanted_version(false, false, None, None).unwrap().is_none());
}

#[test]
fn all_nodes_are_updated_in_turn() {
    match update(&state(true), false, true, None, "0.2.0", "0.1.0").unwrap() {
        UpdatePlan::Go { scope, steps } => {
            assert_eq!(scope, "all");
            assert_eq!(steps[0].banner, "Updating 'laptop' to 0.2.0...");
            assert!(matches!(&steps[0].how, UpdateHow::Here(command) if command[0] == "sh"));
            assert!(matches!(&steps[1].how,
                UpdateHow::Ask { node, request: RpcRequest::Exec { command } }
                    if node.slug == "rig" && command[2].contains("bash -s -- 0.2.0")));
        }
        other => panic!("unexpected plan: {other:?}"),
    }
}

#[test]
fn one_node_or_this_one_is_updated() {
    match update(&state(true), false, false, Some("rig"), "0.2.0", "0.1.0").unwrap() {
        UpdatePlan::Go { scope, steps } => assert_eq!((scope.as_str(), steps.len()), ("node", 1)),
        other => panic!("unexpected plan: {other:?}"),
    }
    assert_eq!(
        update(&state(true), false, false, Some("far"), "0.2.0", "0.1.0").unwrap_err(),
        "unknown node 'far'"
    );
    match update(&state(false), false, false, None, "0.2.0", "0.1.0").unwrap() {
        UpdatePlan::Go { scope, steps } => {
            assert_eq!(scope, "local");
            assert_eq!(steps[0].banner, "Updating local Via binary to 0.2.0...");
        }
        other => panic!("unexpected plan: {other:?}"),
    }
}

#[test]
fn updates_are_recorded_in_a_mesh() {
    let mut with = state(true);
    assert!(updated(&mut with, "0.2.0", "all", 5).0);
    assert_eq!(with.events(1)[0].kind, "via.updated");
    let mut without = state(false);
    let (synced, shown) = updated(&mut without, "0.2.0", "local", 5);
    assert!(!synced);
    assert!(shown.starts_with("Via binaries updated."));
    assert!(without.events(1).is_empty());
}

#[test]
fn updates_go_on_after_a_node_that_fails() {
    let nodes = vec!["box".to_string(), "pi".to_string(), "rig".to_string()];
    let mut ended = vec![];
    assert!(matches!(update_next(&nodes, &ended), UpdateNext::Run(0)));
    ended.push(Err("unreachable".to_string()));
    assert!(matches!(update_next(&nodes, &ended), UpdateNext::Run(1)));
    ended.push(Ok(()));
    assert!(matches!(update_next(&nodes, &ended), UpdateNext::Run(2)));
    ended.push(Err("no space".to_string()));
    assert!(matches!(update_next(&nodes, &ended), UpdateNext::Failed(said)
        if said == "update failed on 'box': unreachable; 'rig': no space"));
    ended = vec![Ok(()), Ok(()), Ok(())];
    assert!(matches!(update_next(&nodes, &ended), UpdateNext::Finished));
}

#[test]
fn what_one_step_says_is_said_as_it_is() {
    let nodes = vec!["rig".to_string()];
    let ended = vec![Err("unreachable".to_string())];
    assert!(matches!(update_next(&nodes, &ended), UpdateNext::Failed(said)
        if said == "unreachable"));
}
