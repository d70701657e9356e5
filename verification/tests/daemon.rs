use via::daemon::{
    finish_act, finish_deploy, finish_exec, finish_logs, finish_status, handle_rpc_line, Captured,
    SeenNonces, Work,
};
use via::model::{Mesh, MeshSnapshot, Node};
use via::paths::ViaPaths;
use via::process::Run;
use via::rpc::{
    encode_request, verify_request, Frame, Line, RpcRequest, RpcResponse, VerifiedRpcRequest,
};
use via::security::{ensure_mesh_key, now_ms};
use via::state::{StoredRecords, ViaState};

fn state() -> ViaState {
    let node = Node {
        id: "node".to_string(),
        slug: "rig".to_string(),
        display_name: "rig".to_string(),
        addresses: vec!["rig".to_string()],
        daemon_addr: "rig:47819".to_string(),
        iroh_addr: Some("here".to_string()),
        public: false,
        created_at: 1,
        last_seen_at: Some(1),
    };
    ViaState::open(
        ViaPaths::under("/tmp/via-test".to_string()),
        StoredRecords {
            mesh: Some(Mesh { id: "mesh".to_string(), created_at: 1 }),
            local_node_id: Some("node".to_string()),
            nodes: vec![node],
            services: vec![],
            secrets: vec![],
            events: vec![],
        },
    )
}

fn plain(request: RpcRequest) -> Result<VerifiedRpcRequest, String> {
    Ok(VerifiedRpcRequest { request, nonce: None })
}

fn reply(work: Work) -> RpcResponse {
    match work {
        Work::Reply(response) => response,
        other => panic!("not a reply: {other:?}"),
    }
}

#[test]
fn daemon_responds_to_ping() {
    let mut state = state();
    let mut seen = SeenNonces::new();
    let work = handle_rpc_line(&mut state, &mut seen, plain(RpcRequest::Ping), 1);
    assert!(matches!(reply(work), RpcResponse::Pong));
}

#[test]
fn daemon_rejects_replayed_signed_rpc_nonces() {
    let key = Some(ensure_mesh_key(None).unwrap().key);
    let envelope = match encode_request(&key, r#"{"type":"ping"}"#.to_string()).unwrap() {
        Frame::Sealed(envelope) => envelope,
        Frame::Plain(text) => panic!("not sealed: {text}"),
    };
    let line = Line { text: String::new(), envelope: Some(envelope) };
    let mut state = state();
    let mut seen = SeenNonces::new();
    let mut send = || {
        let opened = verify_request(&key, &line, now_ms()).unwrap();
        assert_eq!(opened.message, r#"{"type":"ping"}"#);
        let request = VerifiedRpcRequest { request: RpcRequest::Ping, nonce: opened.nonce };
        reply(handle_rpc_line(&mut state, &mut seen, Ok(request), 1))
    };
    let first = send();
    let second = send();

    assert!(matches!(first, RpcResponse::Pong));
    assert!(matches!(second, RpcResponse::Error { message } if message.contains("replayed")));
}

#[test]
fn bad_seals_are_answered_with_what_is_wrong() {
    let mut state = state();
    let mut seen = SeenNonces::new();
    let work = handle_rpc_line(&mut state, &mut seen, Err("bad seal".to_string()), 1);
    assert!(matches!(reply(work), RpcResponse::Error { message } if message == "bad seal"));
}

#[test]
fn snapshots_are_taken_in_and_given_out() {
    let mut state = state();
    let mut seen = SeenNonces::new();
    let empty = MeshSnapshot {
        mesh: None,
        nodes: vec![],
        services: vec![],
        secrets: vec![],
        events: vec![],
    };
    let work = handle_rpc_line(
        &mut state,
        &mut seen,
        plain(RpcRequest::ImportSnapshot { snapshot: empty }),
        1,
    );
    assert!(matches!(reply(work), RpcResponse::Done));
    let work = handle_rpc_line(&mut state, &mut seen, plain(RpcRequest::ExportSnapshot), 1);
    match reply(work) {
        RpcResponse::Snapshot { snapshot } => assert_eq!(snapshot.nodes[0].slug, "rig"),
        other => panic!("unexpected response: {other:?}"),
    }
    let work = handle_rpc_line(&mut state, &mut seen, plain(RpcRequest::NodeInfo), 1);
    assert!(matches!(
        reply(work),
        RpcResponse::NodeInfo { iroh_addr: Some(addr) } if addr == "here"
    ));
}

#[test]
fn images_are_deployed_and_kept() {
    let mut state = state();
    let mut seen = SeenNonces::new();
    let request = RpcRequest::DeployImage {
        image: "nginx".to_string(),
        service: "web".to_string(),
        container: "via-web".to_string(),
        port: Some("8080".to_string()),
        env: vec![],
        command: vec![],
    };
    let deployment = match handle_rpc_line(&mut state, &mut seen, plain(request), 5) {
        Work::Deploy(deployment) => deployment,
        other => panic!("unexpected work: {other:?}"),
    };
    assert_eq!(deployment.steps.len(), 3);
    assert!(!deployment.steps[1].required);
    assert!(matches!(&deployment.steps[2].run, Run::Shell(line)
        if line == "docker run -d --name via-web -p 8080:8080 nginx"));
    let response = finish_deploy(&mut state, deployment.service, Ok(()), 5);
    assert!(matches!(response, RpcResponse::Service { service } if service.name == "web"));
    assert_eq!(state.service_by_name("web").unwrap().container, "via-web");
    assert_eq!(state.events(1)[0].kind, "service.started");
}

#[test]
fn containers_are_acted_upon() {
    let mut state = state();
    let mut seen = SeenNonces::new();
    let work = handle_rpc_line(
        &mut state,
        &mut seen,
        plain(RpcRequest::Remove { container: "via-web".to_string() }),
        1,
    );
    match work {
        Work::Act { run: Run::Program { program, args }, persist } => {
            assert_eq!(program, "docker");
            assert_eq!(args, vec!["rm", "-f", "via-web"]);
            assert!(persist);
        }
        other => panic!("unexpected work: {other:?}"),
    }
    assert!(matches!(finish_act(&mut state, true, Ok(())), RpcResponse::Done));
    let refused = finish_act(&mut state, true, Err("no docker".to_string()));
    assert!(matches!(refused, RpcResponse::Error { message } if message == "no docker"));
    let work = handle_rpc_line(
        &mut state,
        &mut seen,
        plain(RpcRequest::Logs { container: "via-web".to_string(), follow: true }),
        1,
    );
    assert!(matches!(reply(work), RpcResponse::Error { .. }));
}

#[test]
fn what_programs_print_is_answered() {
    let ended = |success: bool| Captured::Ended {
        success,
        stdout: " running\n".to_string(),
        stderr: "gone".to_string(),
    };
    assert!(matches!(finish_status("web", ended(true)),
        RpcResponse::ContainerStatus { status } if status == "running"));
    assert!(matches!(finish_status("web", ended(false)),
        RpcResponse::ContainerStatus { status } if status == "missing"));
    assert!(matches!(finish_logs("web", ended(true)),
        RpcResponse::Logs { output } if output == " running\n"));
    assert!(matches!(finish_logs("web", ended(false)),
        RpcResponse::Error { message } if message == "docker logs failed: gone"));
    assert!(matches!(finish_logs("web", Captured::NotStarted),
        RpcResponse::Error { message } if message == "failed to read logs for web"));
    assert!(matches!(finish_exec(Ok("out".to_string())),
        RpcResponse::Exec { output } if output == "out"));
}
