use via::hub::HubNode;
use via::model::Node;
use via::moves::{
    append_move_event, copy_local_to_local, move_path, remote_spec, run_scp, ssh_target, Carry,
    LocalCopy, MoveEndpoint, MoveStep,
};
use via::paths::ViaPaths;
use via::process::Run;
use via::rpc::RpcRequest;
use via::state::{StoredRecords, ViaState};

fn node(slug: &str, addresses: Vec<&str>) -> Node {
    Node {
        id: format!("id-{slug}"),
        slug: slug.to_string(),
        display_name: slug.to_string(),
        addresses: addresses.iter().map(|a| a.to_string()).collect(),
        daemon_addr: format!("{slug}.lan:47819"),
        iroh_addr: None,
        public: false,
        created_at: 1,
        last_seen_at: None,
    }
}

fn state() -> ViaState {
    ViaState::open(
        ViaPaths::under("/tmp/via-test".to_string()),
        StoredRecords {
            mesh: None,
            local_node_id: Some("id-laptop".to_string()),
            nodes: vec![
                node("laptop", vec!["laptop"]),
                node("pi", vec!["hub"]),
                node("rig", vec!["", "user@rig"]),
            ],
            services: vec![],
            secrets: vec![],
            events: vec![],
        },
    )
}

fn go(from: &str, to: &str) -> (Carry, String, String, String) {
    match move_path(&state(), from, to, false, &None).unwrap() {
        MoveStep::Go { carry, from, to, shown } => (carry, from, to, shown),
        MoveStep::AskHub => panic!("asks the hub"),
    }
}

#[test]
fn move_endpoint_parses_node_specs_only_when_prefix_is_node_like() {
    match MoveEndpoint::parse("rig:/srv/app") {
        MoveEndpoint::Remote { node, path } => {
            assert_eq!(node, "rig");
            assert_eq!(path, "/srv/app");
        }
        MoveEndpoint::Local(_) => panic!("expected remote endpoint"),
    }
    match MoveEndpoint::parse("./weird:name") {
        MoveEndpoint::Local(path) => assert_eq!(path, "./weird:name"),
        MoveEndpoint::Remote { .. } => panic!("expected local endpoint"),
    }
    assert!(matches!(MoveEndpoint::parse(":x"), MoveEndpoint::Local(_)));
    assert!(matches!(MoveEndpoint::parse("plain"), MoveEndpoint::Local(_)));
}

#[test]
fn files_are_copied_here_when_both_ends_are_here() {
    let (carry, from, to, shown) = go("a.txt", "laptop:b.txt");
    assert!(matches!(carry, Carry::Copy { src, dst } if src == "a.txt" && dst == "b.txt"));
    assert_eq!((from.as_str(), to.as_str()), ("local", "laptop"));
    assert_eq!(shown, "Moved a.txt to laptop:b.txt.");
    let (carry, _, _, shown) = go("a", "b");
    assert!(matches!(carry, Carry::Copy { .. }));
    assert_eq!(shown, "Moved a to b.");
}

#[test]
fn files_are_sent_and_fetched_by_scp() {
    let (carry, _, to, _) = go("a.txt", "rig:/srv/b");
    assert!(matches!(carry, Carry::Scp { src, dst } if src == "a.txt" && dst == "user@rig:/srv/b"));
    assert_eq!(to, "rig");
    let (carry, from, _, _) = go("pi:/srv/b", "laptop:a.txt");
    assert!(matches!(carry, Carry::Scp { src, dst } if src == "pi.lan:/srv/b" && dst == "a.txt"));
    assert_eq!(from, "pi");
}

#[test]
fn other_nodes_are_asked_to_send() {
    let (carry, from, to, shown) = go("pi:/a b", "rig:/c");
    match carry {
        Carry::Ask { node, request: RpcRequest::Exec { command } } => {
            assert_eq!(node.slug, "pi");
            assert_eq!(
                command,
                vec!["sh", "-lc", "scp -o BatchMode=yes -r '/a b' 'user@rig:/c'"]
            );
        }
        other => panic!("unexpected carry: {other:?}"),
    }
    assert_eq!((from.as_str(), to.as_str()), ("pi", "rig"));
    assert_eq!(shown, "Moved pi:/a b to rig:/c.");
}

#[test]
fn unknown_nodes_are_looked_for_at_the_hub() {
    assert_eq!(
        move_path(&state(), "a", "far:/b", false, &None).unwrap_err(),
        "unknown node 'far'"
    );
    assert!(matches!(
        move_path(&state(), "a", "far:/b", true, &None).unwrap(),
        MoveStep::AskHub
    ));
    let listed = vec![HubNode {
        id: "far-id".to_string(),
        slug: "far".to_string(),
        name: "far".to_string(),
        status: "online".to_string(),
        seen: 5,
    }];
    assert_eq!(
        move_path(&state(), "a", "far:/b", true, &Some(Ok(listed))).unwrap_err(),
        "node 'far' has no SSH address for direct copy"
    );
    assert_eq!(
        move_path(&state(), "a", "far:/b", true, &Some(Err("down".to_string()))).unwrap_err(),
        "down"
    );
}

#[test]
fn ssh_hosts_come_from_addresses_or_the_daemon() {
    assert_eq!(ssh_target(&node("rig", vec!["", "hub", "user@rig"])).unwrap(), "user@rig");
    assert_eq!(ssh_target(&node("rig", vec!["hub"])).unwrap(), "rig.lan");
    let mut odd = node("rig", vec![]);
    odd.daemon_addr = "hub:1".to_string();
    assert_eq!(
        ssh_target(&odd).unwrap_err(),
        "node 'rig' has no direct SSH address for copy"
    );
    odd.daemon_addr = String::new();
    assert_eq!(
        remote_spec(&odd, "/x").unwrap_err(),
        "node 'rig' has no SSH address for direct copy"
    );
}

#[test]
fn copies_and_scp_are_programs() {
    match run_scp("a", "rig:b") {
        Run::Program { program, args } => {
            assert_eq!(program, "scp");
            assert_eq!(args, vec!["-o", "BatchMode=yes", "-r", "a", "rig:b"]);
        }
        other => panic!("unexpected run: {other:?}"),
    }
    assert!(matches!(
        copy_local_to_local("a", "b", true),
        LocalCopy::Run(Run::Program { program, args })
            if program == "cp" && args == vec!["-R", "a", "b"]
    ));
    assert!(matches!(
        copy_local_to_local("a", "b", false),
        LocalCopy::File { complaint, .. } if complaint == "failed to copy a to b"
    ));
}

#[test]
fn moves_are_recorded() {
    let mut state = state();
    append_move_event(&mut state, "local", "rig", 4);
    let event = state.events(1).remove(0);
    assert_eq!(event.kind, "node.move");
    assert_eq!(event.created_at, 4);
    assert!(format!("{:?}", event.payload).contains("rig"));
}
