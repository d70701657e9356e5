use via::cli::RouteMode;
use via::daemon::{finish_deploy, handle_request, Work};
use via::model::{Mesh, Node, Payload, Secret, Service, ServiceStatus, Value};
use via::paths::ViaPaths;
use via::process::Run;
use via::rpc::{RpcRequest, RpcResponse};
use via::security::encrypt_string;
use via::services::{
    decrypted_secrets, deploy, deployed, event_line, event_line_at, event_log, host_port, logs,
    open, ps, ps_line, publish, removed, resolve_service_node_addr, restart, restarted, rm,
    services, status, stop, stopped, DeployArgs, DeployStep, ServiceStep,
};
use via::state::{StoredRecords, ViaState};

const KEY: [u8; 32] = [3u8; 32];

fn node(slug: &str, seen: Option<i64>) -> Node {
    Node {
        id: format!("id-{slug}"),
        slug: slug.to_string(),
        display_name: slug.to_string(),
        addresses: vec![slug.to_string()],
        daemon_addr: format!("{slug}.lan:47819"),
        iroh_addr: None,
        public: false,
        created_at: 1,
        last_seen_at: seen,
    }
}

fn service(name: &str, slug: &str, port: Option<&str>) -> Service {
    Service {
        id: format!("id-{name}"),
        name: name.to_string(),
        node_id: format!("id-{slug}"),
        node_slug: slug.to_string(),
        node_addr: "old:1".to_string(),
        target: "nginx".to_string(),
        container: format!("via-{name}"),
        port: port.map(|p| p.to_string()),
        command: vec![],
        status: ServiceStatus::Running,
        published_private: false,
        created_at: 1,
        updated_at: 1,
    }
}

fn state() -> ViaState {
    ViaState::open(
        ViaPaths::under("/tmp/via-test".to_string()),
        StoredRecords {
            mesh: Some(Mesh { id: "mesh".to_string(), created_at: 1 }),
            local_node_id: Some("id-laptop".to_string()),
            nodes: vec![node("laptop", Some(1)), node("rig", None)],
            services: vec![
                service("api", "rig", Some("18080:80")),
                service("web", "laptop", None),
            ],
            secrets: vec![Secret {
                name: "API_KEY".to_string(),
                ciphertext: encrypt_string(&KEY.to_vec(), "super-secret").unwrap(),
                created_at: 1,
                updated_at: 1,
            }],
            events: vec![],
        },
    )
}

fn args(target: &str, to: &str, name: &str) -> DeployArgs {
    DeployArgs {
        target: target.to_string(),
        to: to.to_string(),
        name: name.to_string(),
        port: Some("8080".to_string()),
        route: RouteMode::Auto,
        command: vec!["run".to_string()],
    }
}

fn key() -> Result<Vec<u8>, String> {
    Ok(KEY.to_vec())
}

#[test]
fn services_are_asked_where_they_run() {
    let state = state();
    let (web, step) = stop(&state, "web").unwrap();
    assert_eq!(web.node_addr, "laptop.lan:47819");
    assert!(matches!(step, ServiceStep::Run(Run::Program { args, .. })
        if args == vec!["stop", "via-web"]));
    let (_, step) = restart(&state, "api").unwrap();
    assert!(matches!(step, ServiceStep::Call { node, request: RpcRequest::Restart { container } }
        if node.slug == "rig" && container == "via-api"));
    let (_, step) = rm(&state, "web").unwrap();
    assert!(matches!(step, ServiceStep::Run(Run::Program { args, .. })
        if args == vec!["rm", "-f", "via-web"]));
    let (_, step) = logs(&state, "web", true).unwrap();
    assert!(matches!(step, ServiceStep::Run(Run::Program { args, .. })
        if args == vec!["logs", "-f", "via-web"]));
    let (_, step) = logs(&state, "api", false).unwrap();
    assert!(matches!(step, ServiceStep::Call { request: RpcRequest::Logs { follow: false, .. }, .. }));
    assert_eq!(stop(&state, "nope").unwrap_err(), "unknown service");
}

#[test]
fn services_of_missing_nodes_are_refused() {
    let mut state = state();
    state.delete_node_slug("rig");
    assert_eq!(
        stop(&state, "api").unwrap_err(),
        "service node 'rig' is missing"
    );
    assert!(resolve_service_node_addr(&state, service("api", "rig", None)).is_err());
    let plan = ps(&state);
    assert!(plan.queries.is_empty());
    assert_eq!(plan.failed.as_deref(), Some("service node 'rig' is missing"));
}

#[test]
fn what_happens_to_services_is_kept() {
    let mut state = state();
    let (web, _) = stop(&state, "web").unwrap();
    assert_eq!(stopped(&mut state, web, 5), "Stopped service 'web'.");
    let web = state.service_by_name("web").unwrap();
    assert_eq!(web.status.as_str(), "stopped");
    assert_eq!(web.updated_at, 5);
    assert_eq!(restarted(&mut state, web, 6), "Restarted service 'web'.");
    let web = state.service_by_name("web").unwrap();
    assert_eq!(web.status.as_str(), "running");
    assert_eq!(removed(&mut state, web, 7), "Removed service 'web'.");
    assert!(state.service_by_name("web").is_none());
    let kinds: Vec<String> = state.events(9).iter().map(|e| e.kind.clone()).collect();
    assert_eq!(kinds, vec!["service.removed", "service.started", "service.stopped"]);
}

#[test]
fn services_are_listed() {
    let state = state();
    let plan = ps(&state);
    assert_eq!(
        plan.first,
        "NAME               NODE               ACTUAL       PORT             TARGET"
    );
    assert_eq!(plan.queries.len(), 2);
    assert!(plan.failed.is_none());
    assert!(matches!(&plan.queries[0].1,
        ServiceStep::Call { request: RpcRequest::ContainerStatus { container }, .. }
            if container == "via-api"));
    assert_eq!(
        ps_line(&plan.queries[0].0, Some("running")),
        "api                rig                running      18080:80         nginx"
    );
    assert_eq!(
        ps_line(&plan.queries[1].0, None),
        "web                laptop             unknown      -                nginx"
    );
    assert_eq!(
        services(&state),
        vec![
            "NAME               NODE               STATUS     TARGET",
            "api                rig                running    nginx",
            "web                laptop             running    nginx",
        ]
    );
    assert_eq!(
        status(&state, "api").unwrap(),
        vec![
            "name: api",
            "node: rig",
            "status: running",
            "target: nginx",
            "container: via-api",
            "port: 18080:80",
            "private: false",
        ]
    );
    assert_eq!(status(&state, "web").unwrap().len(), 6);
    assert_eq!(status(&state, "nope").unwrap_err(), "unknown service");
}

#[test]
fn system_log_follow_is_explicitly_rejected() {
    let mut state = state();
    assert_eq!(
        event_log(&state, true, 5).unwrap_err(),
        "system log follow is not supported; omit --follow"
    );
    assert_eq!(event_log(&state, false, 5).unwrap().first, "No Via events.");
    state.append_event("audit.test", Payload::Plain(Value::Null), 0);
    let log = event_log(&state, false, 5).unwrap();
    assert_eq!(log.first, "TIME                      KIND                       PAYLOAD");
    assert_eq!(
        event_line_at(&log.events[0], 0, "null"),
        "1970-01-01 00:00:00 +0000 audit.test                 null"
    );
    assert_eq!(
        event_line_at(&log.events[0], 3600, "null"),
        "1970-01-01 01:00:00 +0100 audit.test                 null"
    );
    assert!(event_line(&log.events[0], "null").ends_with(" audit.test                 null"));
}

#[test]
fn services_are_opened() {
    let mut state = state();
    assert_eq!(open(&state, "api").unwrap(), "http://rig.lan:18080");
    assert_eq!(
        open(&state, "web").unwrap_err(),
        "service 'web' has no published port"
    );
    assert_eq!(open(&state, "nope").unwrap_err(), "unknown service");
    state.upsert_service(&service("here", "laptop", Some("9000")));
    assert_eq!(open(&state, "here").unwrap(), "http://127.0.0.1:9000");
    assert_eq!(host_port("1:2"), "1");
}

#[test]
fn services_are_published_privately() {
    let mut state = state();
    assert_eq!(
        publish(&mut state, "web", false, 5).unwrap_err(),
        "V1 only supports private publishing; pass --private"
    );
    assert_eq!(publish(&mut state, "nope", true, 5).unwrap_err(), "unknown service");
    assert_eq!(
        publish(&mut state, "web", true, 5).unwrap(),
        "Published 'web' privately inside the Via mesh."
    );
    assert!(state.service_by_name("web").unwrap().published_private);
}

#[test]
fn secrets_are_decrypted_for_deploys() {
    let state = state();
    assert_eq!(
        decrypted_secrets(&state, &KEY.to_vec()).unwrap(),
        vec![("API_KEY".to_string(), "super-secret".to_string())]
    );
    assert!(decrypted_secrets(&state, &vec![4u8; 32]).is_err());
}

#[test]
fn images_are_deployed_here_and_elsewhere() {
    let state = state();
    match deploy(&state, &args("redis", "laptop", "Cache"), &key(), false, false, 5).unwrap() {
        DeployStep::Here { node, deployment } => {
            assert_eq!(node.slug, "laptop");
            assert_eq!(deployment.service.name, "cache");
            assert_eq!(deployment.service.target, "redis");
            assert!(matches!(&deployment.steps[2].run, Run::Shell(line) if line
                == "docker run -d --name via-cache -p 8080:8080 -e API_KEY='super-secret' redis 'run'"));
        }
        other => panic!("unexpected step: {other:?}"),
    }
    match deploy(&state, &args("redis", "rig", "cache"), &key(), false, false, 5).unwrap() {
        DeployStep::Ask { node, request: RpcRequest::DeployImage { image, container, env, .. } } => {
            assert_eq!(node.slug, "rig");
            assert_eq!((image.as_str(), container.as_str()), ("redis", "via-cache"));
            assert_eq!(env.len(), 1);
        }
        other => panic!("unexpected step: {other:?}"),
    }
}

#[test]
fn directories_are_deployed_here_only() {
    let state = state();
    match deploy(&state, &args("./app", "laptop", "app"), &key(), true, true, 5).unwrap() {
        DeployStep::Here { deployment, .. } => {
            assert_eq!(deployment.steps.len(), 4);
            assert_eq!(deployment.service.target, "via/app:latest");
        }
        other => panic!("unexpected step: {other:?}"),
    }
    assert_eq!(
        deploy(&state, &args("./app", "laptop", "app"), &key(), true, false, 5).unwrap_err(),
        "path deploy requires a Dockerfile"
    );
    assert_eq!(
        deploy(&state, &args("./app", "rig", "app"), &key(), true, true, 5).unwrap_err(),
        "remote path deploy over RPC is not supported; build and push an image, then deploy the image"
    );
}

#[test]
fn deploys_are_refused() {
    let state = state();
    let no_key = Err("no key".to_string());
    assert_eq!(
        deploy(&state, &args("x", "far", "app"), &no_key, false, false, 5).unwrap_err(),
        "unknown node 'far'"
    );
    assert_eq!(
        deploy(&state, &args("x", "rig", "Web"), &no_key, false, false, 5).unwrap_err(),
        "service 'web' already exists"
    );
    assert!(deploy(&state, &args("x", "rig", "--"), &no_key, false, false, 5).is_err());
    assert_eq!(
        deploy(&state, &args("x", "rig", "app"), &no_key, false, false, 5).unwrap_err(),
        "no key"
    );
}

#[test]
fn deployed_services_are_kept_with_their_node() {
    let mut state = state();
    let shown = deployed(&mut state, &node("rig", None), service("cache", "rig", None), 5);
    assert_eq!(shown, "Deployed service 'cache' to 'rig'.");
    assert_eq!(
        state.service_by_name("cache").unwrap().node_addr,
        "rig.lan:47819"
    );
    assert_eq!(state.events(1)[0].kind, "service.started");
}

#[test]
fn services_keep_the_name_they_are_given() {
    let mut state = state();
    let step = deploy(&state, &args("redis", "laptop", "via-cache"), &key(), false, false, 5);
    match step.unwrap() {
        DeployStep::Here { node, deployment } => {
            assert_eq!(deployment.service.name, "via-cache");
            assert_eq!(deployment.service.container, "via-via-cache");
            let shown = deployed(&mut state, &node, deployment.service, 5);
            assert_eq!(shown, "Deployed service 'via-cache' to 'laptop'.");
        }
        other => panic!("unexpected step: {other:?}"),
    }
    assert!(state.service_by_name("via-cache").is_some());
    assert!(state.service_by_name("cache").is_none());
}

#[test]
fn services_deployed_elsewhere_are_found() {
    let mut here = state();
    let mut far = state();
    far.save_local_node_id("id-rig");
    let step = deploy(&here, &args("redis", "rig", "Cache"), &key(), false, false, 5).unwrap();
    let (node, request) = match step {
        DeployStep::Ask { node, request } => (node, request),
        other => panic!("unexpected step: {other:?}"),
    };
    let service = match handle_request(&mut far, request, 6) {
        Work::Deploy(deployment) => {
            match finish_deploy(&mut far, deployment.service, Ok(()), 6) {
                RpcResponse::Service { service } => service,
                other => panic!("unexpected response: {other:?}"),
            }
        }
        other => panic!("unexpected work: {other:?}"),
    };
    assert_eq!(far.service_by_name("cache").unwrap().container, "via-cache");
    deployed(&mut here, &node, service, 7);
    let found = here.service_by_name("cache").unwrap();
    assert_eq!((found.node_id.as_str(), found.container.as_str()), ("id-rig", "via-cache"));
    assert_eq!(found.node_addr, "rig.lan:47819");
}
