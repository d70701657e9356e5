use via::model::{Node, Service, ServiceStatus};
use via::paths::ViaPaths;
use via::rpc::RpcResponse;
use via::state::{StoredRecords, ViaState};
use via::transport::{
    authorize_iroh_peer, call_node, ensure_iroh_key, host_port, node_iroh_addr, node_iroh_id,
    open_call, proxy_direct, proxy_service, update_local_iroh_addr, HeaderReader, HeaderStep, Link,
    PeerRoute, PeerStep, LONGEST_HEADER,
};

fn node(slug: &str, iroh_addr: Option<String>) -> Node {
    Node {
        id: format!("id-{slug}"),
        slug: slug.to_string(),
        display_name: slug.to_string(),
        addresses: vec![],
        daemon_addr: format!("{slug}:47819"),
        iroh_addr,
        public: false,
        created_at: 1,
        last_seen_at: None,
    }
}

fn state(nodes: Vec<Node>) -> ViaState {
    ViaState::open(
        ViaPaths::under("/tmp/via-test".to_string()),
        StoredRecords {
            mesh: None,
            local_node_id: Some("id-laptop".to_string()),
            nodes,
            services: vec![],
            secrets: vec![],
            events: vec![],
        },
    )
}

fn peer() -> (String, String) {
    let id = iroh::SecretKey::generate().public();
    let addr = serde_json::to_string(&iroh::EndpointAddr::new(id)).unwrap();
    (id.to_string(), addr)
}

fn service(slug: &str, port: Option<&str>) -> Service {
    Service {
        id: "s".to_string(),
        name: "web".to_string(),
        node_id: format!("id-{slug}"),
        node_slug: slug.to_string(),
        node_addr: String::new(),
        target: "nginx".to_string(),
        container: "via-web".to_string(),
        port: port.map(|p| p.to_string()),
        command: vec![],
        status: ServiceStatus::Running,
        published_private: false,
        created_at: 1,
        updated_at: 1,
    }
}

#[test]
fn missing_iroh_addr_is_not_an_identity() {
    assert!(node_iroh_id(&node("rig", None)).unwrap().is_none());
    assert_eq!(
        node_iroh_addr(&node("rig", None)).unwrap_err(),
        "node 'rig' has no iroh route yet"
    );
}

#[test]
fn endpoint_addr_round_trips_through_node_state() {
    let (id, addr) = peer();
    let node = node("rig", Some(addr.clone()));
    assert_eq!(node_iroh_id(&node).unwrap().unwrap(), id);
    assert_eq!(node_iroh_addr(&node).unwrap(), addr);
}

#[test]
fn only_nodes_of_the_mesh_are_let_in() {
    let (id, addr) = peer();
    let (stranger, _) = peer();
    let state = state(vec![node("laptop", None), node("rig", Some(addr))]);
    assert!(authorize_iroh_peer(&state, &id).is_ok());
    assert_eq!(
        authorize_iroh_peer(&state, &stranger).unwrap_err(),
        format!("unknown iroh peer {stranger}")
    );
}

#[test]
fn addresses_that_cannot_be_read_end_the_search() {
    let (id, addr) = peer();
    let state = state(vec![
        node("bad", Some("not json".to_string())),
        node("rig", Some(addr)),
    ]);
    assert!(authorize_iroh_peer(&state, &id).is_err());
}

#[test]
fn a_node_keeps_its_own_address() {
    let mut state = state(vec![node("laptop", None)]);
    update_local_iroh_addr(&mut state, "here".to_string(), 5);
    let own = state.local_node().unwrap();
    assert_eq!(own.iroh_addr.as_deref(), Some("here"));
    assert_eq!(own.last_seen_at, Some(5));
}

#[test]
fn iroh_keys_are_read_back() {
    let made = ensure_iroh_key(None).unwrap();
    assert_eq!(made.key.len(), 32);
    let file = made.file.unwrap();
    let kept = ensure_iroh_key(Some(&format!("{file}\n"))).unwrap();
    assert_eq!(kept.key, made.key);
    assert!(kept.file.is_none());
    assert_ne!(ensure_iroh_key(None).unwrap().key, made.key);
    assert_eq!(ensure_iroh_key(Some("AAAA")).unwrap_err(), "invalid Via iroh key length");
}

#[test]
fn calls_fall_back_to_iroh() {
    let error = |e: &str| Err::<RpcResponse, String>(e.to_string());
    assert_eq!(open_call(PeerRoute::Iroh), Link::Iroh);
    assert_eq!(open_call(PeerRoute::Auto), Link::Direct);
    assert!(matches!(
        call_node(PeerRoute::Auto, None, error("a")),
        PeerStep::Try(Link::Iroh)
    ));
    assert!(matches!(call_node(PeerRoute::Direct, None, error("a")),
        PeerStep::Done(Err(e)) if e == "a"));
    assert!(matches!(call_node(PeerRoute::Auto, Some("a"), error("b")),
        PeerStep::Done(Err(e)) if e == "direct route failed: a; iroh route failed: b"));
}

#[test]
fn services_are_forwarded() {
    let state = state(vec![node("laptop", None), node("rig", None)]);
    let plan = proxy_service(&state, &service("rig", Some("8080:80")), PeerRoute::Auto).unwrap();
    assert_eq!((plan.port, plan.link), (8080, Link::Iroh));
    assert_eq!(proxy_direct(&plan.node), "rig");
    let plan = proxy_service(&state, &service("laptop", Some("8080")), PeerRoute::Auto).unwrap();
    assert_eq!(plan.link, Link::Direct);
    assert_eq!(
        proxy_service(&state, &service("rig", None), PeerRoute::Auto).unwrap_err(),
        "service 'web' has no published port"
    );
    assert_eq!(
        proxy_service(&state, &service("far", Some("1")), PeerRoute::Auto).unwrap_err(),
        "service node 'far' is missing"
    );
    assert_eq!(host_port("65535:1").unwrap(), 65535);
    assert_eq!(host_port("65536").unwrap_err(), "invalid service host port '65536'");
}

#[test]
fn headers_end_with_their_line() {
    let mut reader = HeaderReader::new();
    assert!(matches!(reader.read_json_line(Some(b'{')), HeaderStep::More));
    assert!(matches!(reader.read_json_line(Some(b'}')), HeaderStep::More));
    assert!(matches!(reader.read_json_line(Some(b'\n')), HeaderStep::Line(line) if line == b"{}"));
    assert!(matches!(HeaderReader::new().read_json_line(None), HeaderStep::Failed(_)));
    let mut long = HeaderReader::new();
    for _ in 0..LONGEST_HEADER {
        assert!(matches!(long.read_json_line(Some(b'x')), HeaderStep::More));
    }
    assert!(matches!(long.read_json_line(Some(b'x')), HeaderStep::Failed(e)
        if e == "proxy request header too large"));
}
