use serde_json::Value;
use via::hub::{
    admin_request, answer_relayed, call_node, cloud_api_key, cloud_provision_error, create_invite, decode_invite,
    drop_hub, hosted_hub_grant_error, hub_used, invite_bytes, invite_text, join, joined, list,
    node_by_slug, provision_hosted_hub, provision_self_hosted_hub, redeem_grant, relayed, status,
    status_listing, use_hub, CmdResponse, HubConfig, HubNode, HubRequest, InviteToken, StatusStep,
};
use via::hub_db::hash_token;
use via::model::{Mesh, Node};
use via::paths::ViaPaths;
use via::rpc::{decode_response, verify_request, Frame, Line};
use via::security::{decrypt_string, now_ms};
use via::state::{StoredRecords, ViaState};
use via::urls::{
    agent_ws_url, normalize_http_url, normalize_hub_ref, HOSTED_HUB_URL,
};

fn node(slug: &str) -> Node {
    Node {
        id: format!("id-{slug}"),
        slug: slug.to_string(),
        display_name: slug.to_string(),
        addresses: vec![],
        daemon_addr: "127.0.0.1:47819".to_string(),
        iroh_addr: None,
        public: false,
        created_at: 1,
        last_seen_at: None,
    }
}

fn state(mesh: bool) -> ViaState {
    ViaState::open(
        ViaPaths::under("/tmp/via-test".to_string()),
        StoredRecords {
            mesh: if mesh { Some(Mesh { id: "mesh".to_string(), created_at: 1 }) } else { None },
            local_node_id: Some("id-rig".to_string()),
            nodes: vec![node("rig")],
            services: vec![],
            secrets: vec![],
            events: vec![],
        },
    )
}

fn config(token: Option<&str>) -> Option<HubConfig> {
    Some(HubConfig {
        url: "https://hub.example".to_string(),
        token: token.map(|t| t.to_string()),
    })
}

fn invite() -> InviteToken {
    InviteToken {
        v: 1,
        hub: "https://hub.example".to_string(),
        mesh: "mesh".to_string(),
        key: "key".to_string(),
        token: "secret".to_string(),
        name: Some("rig".to_string()),
        exp: 42,
    }
}

fn json(invite: &InviteToken) -> Vec<u8> {
    let mut map = serde_json::Map::new();
    map.insert("v".to_string(), Value::from(invite.v));
    map.insert("hub".to_string(), Value::from(invite.hub.clone()));
    map.insert("mesh".to_string(), Value::from(invite.mesh.clone()));
    map.insert("key".to_string(), Value::from(invite.key.clone()));
    map.insert("token".to_string(), Value::from(invite.token.clone()));
    map.insert("name".to_string(), Value::from(invite.name.clone()));
    map.insert("exp".to_string(), Value::from(invite.exp));
    serde_json::to_vec(&Value::Object(map)).unwrap()
}

fn listed(slug: &str, status: &str) -> HubNode {
    HubNode {
        id: format!("id-{slug}"),
        slug: slug.to_string(),
        name: slug.to_string(),
        status: status.to_string(),
        seen: 9,
    }
}

#[test]
fn invite_tokens_round_trip() {
    let invite = invite();
    let token = invite_text(&json(&invite));
    assert!(token.starts_with("via1."));
    let bytes = invite_bytes(&token).unwrap();
    let decoded: Value = serde_json::from_slice(&bytes).unwrap();
    assert_eq!(decoded["hub"], invite.hub);
    assert_eq!(decoded["mesh"], invite.mesh);
    assert!(decode_invite(&invite).is_ok());
}

#[test]
fn bad_invites_are_refused() {
    assert_eq!(invite_bytes("nope").unwrap_err(), "invalid Via invite token");
    assert!(invite_bytes("via1.!!!").is_err());
    let mut other = invite();
    other.v = 2;
    assert_eq!(decode_invite(&other).unwrap_err(), "unsupported Via invite version");
}

#[test]
fn token_hashes_do_not_expose_secret() {
    let hash = hash_token("super-secret");
    assert_ne!(hash, "super-secret");
    assert_eq!(hash, hash_token("super-secret"));
    assert_eq!(hash, "rsgISEW0GmlS1Gy6ocm3mGWUh__RM3ltldBbpF2QlsI");
}

#[test]
fn hosted_hub_aliases_resolve_to_hosted_url() {
    assert_eq!(normalize_hub_ref("hosted", None).unwrap(), HOSTED_HUB_URL);
    assert_eq!(normalize_hub_ref("via", None).unwrap(), HOSTED_HUB_URL);
    assert_eq!(normalize_hub_ref("default", None).unwrap(), HOSTED_HUB_URL);
    assert_eq!(
        normalize_hub_ref("https://hub.example.com", None).unwrap(),
        "https://hub.example.com"
    );
}

#[test]
fn hub_addresses_lose_slashes_and_need_http() {
    assert_eq!(
        normalize_hub_ref("https://hub.example.com/x///", None).unwrap(),
        "https://hub.example.com/x"
    );
    assert_eq!(
        normalize_hub_ref("ftp://hub.example.com", None).unwrap_err(),
        "hub URL must start with http:// or https://"
    );
    assert!(normalize_hub_ref("not a url", None).is_err());
    assert_eq!(
        normalize_hub_ref("hosted", Some(" http://localhost:1/ ")).unwrap(),
        "http://localhost:1"
    );
    assert_eq!(normalize_hub_ref("hosted", Some("  ")).unwrap(), HOSTED_HUB_URL);
}

#[test]
fn agents_connect_by_web_socket() {
    assert_eq!(
        agent_ws_url("https://hub.example/", "m", "n", "rig", &Some("a b".to_string())).unwrap(),
        "wss://hub.example/v1/agent/connect?mesh=m&node=n&slug=rig&token=a+b"
    );
    assert_eq!(
        agent_ws_url("http://hub.example", "m", "n", "rig", &None).unwrap(),
        "ws://hub.example/v1/agent/connect?mesh=m&node=n&slug=rig"
    );
    assert_eq!(
        agent_ws_url("ftp://hub.example", "m", "n", "rig", &None).unwrap_err(),
        "unsupported hub URL scheme 'ftp'"
    );
}

#[test]
fn hosted_hub_use_requests_cloud_grant_and_stores_node_token() {
    let plan = use_hub(&state(true), "hosted", Some("http://127.0.0.1:9")).unwrap();
    assert_eq!(plan.url, "http://127.0.0.1:9");
    let provision = plan.provision.unwrap();
    assert!(provision.hosted);
    let call = provision_hosted_hub(
        "http://cloud",
        "via_test_key".to_string(),
        &plan.url,
        &provision,
    );
    assert_eq!(call.url, "http://cloud/api/hub/provision");
    assert_eq!(call.bearer.as_deref(), Some("via_test_key"));
    match call.request {
        HubRequest::CloudProvision { hub_url, mesh_id, mesh_name, node_id, node_slug } => {
            assert_eq!(hub_url, plan.url);
            assert_eq!(mesh_id, "mesh");
            assert_eq!(mesh_name, "default");
            assert_eq!(node_id, "id-rig");
            assert_eq!(node_slug, "rig");
        }
        other => panic!("unexpected request: {other:?}"),
    }
    let call = redeem_grant(&plan.url, "grant".to_string(), &provision);
    assert_eq!(call.url, "http://127.0.0.1:9/v1/grants/provision");
    let (config, shown) = hub_used(plan.url, Some("token".to_string()));
    assert_eq!(config.url, "http://127.0.0.1:9");
    assert!(config.token.is_some());
    assert_eq!(shown, "Via hub set to http://127.0.0.1:9.");
}

#[test]
fn self_hosted_hub_use_stays_admin_token_only() {
    let plan = use_hub(&state(true), "http://127.0.0.1:9", None).unwrap();
    let provision = plan.provision.unwrap();
    assert!(!provision.hosted);
    let bearer = admin_request(Some("admin-secret"), Ok(None));
    let (mesh, register) = provision_self_hosted_hub(&plan.url, &bearer, &provision);
    assert_eq!(mesh.url, "http://127.0.0.1:9/v1/meshes");
    assert_eq!(mesh.bearer.as_deref(), Some("admin-secret"));
    assert_eq!(register.url, "http://127.0.0.1:9/v1/nodes/register");
    assert_eq!(register.bearer.as_deref(), Some("admin-secret"));
}

#[test]
fn a_hub_can_be_used_before_there_is_a_mesh() {
    let plan = use_hub(&state(false), "https://hub.example", None).unwrap();
    assert!(plan.provision.is_none());
}

#[test]
fn keys_for_the_hub_come_in_their_order() {
    assert_eq!(
        admin_request(None, Ok(Some("key".to_string()))).as_deref(),
        Some("key")
    );
    assert_eq!(admin_request(Some(""), Err("x".to_string())), None);
    assert_eq!(
        cloud_api_key(Ok(Some("key".to_string())), Some("cloud")).unwrap(),
        "key"
    );
    assert_eq!(cloud_api_key(Ok(None), Some("cloud")).unwrap(), "cloud");
    assert!(cloud_api_key(Ok(None), None).is_err());
    assert_ne!(cloud_provision_error(Some(401)), cloud_provision_error(Some(500)));
    assert_ne!(hosted_hub_grant_error(Some(401)), hosted_hub_grant_error(None));
}

#[test]
fn invites_last_at_least_a_minute() {
    let plan = create_invite(&config(None), &state(true), " key\n", &None, &None, 5, 1000).unwrap();
    assert_eq!(plan.invite.exp, 1060);
    assert_eq!(plan.invite.key, "key");
    assert_eq!(plan.invite.hub, "https://hub.example");
    let plan =
        create_invite(&config(None), &state(true), "key", &None, &None, 600, 1000).unwrap();
    assert_eq!(plan.invite.exp, 1600);
    match plan.create_token.request {
        HubRequest::CreateToken { token, exp, .. } => {
            assert_eq!(token, plan.invite.token);
            assert_eq!(exp, 1600);
        }
        other => panic!("unexpected request: {other:?}"),
    }
    assert!(create_invite(&None, &state(true), "key", &None, &None, 600, 1000).is_err());
    assert!(create_invite(&config(None), &state(false), "key", &None, &None, 600, 1000).is_err());
}

#[test]
fn machines_join_until_the_invite_ends() {
    let plan = join(None, &invite(), Err("no name".to_string()), 42).unwrap();
    assert_eq!(plan.node_name, "rig");
    assert_eq!(plan.call.url, "https://hub.example/v1/join");
    assert_eq!(plan.mesh_id, "mesh");
    assert_eq!(
        join(None, &invite(), Ok("host".to_string()), 43).unwrap_err(),
        "invite token expired"
    );
    let plan = join(Some("My Box".to_string()), &invite(), Ok("host".to_string()), 1).unwrap();
    match plan.call.request {
        HubRequest::Join { slug, token, .. } => {
            assert_eq!(slug, "my-box");
            assert_eq!(token, "secret");
        }
        other => panic!("unexpected request: {other:?}"),
    }
}

#[test]
fn commands_are_relayed_under_the_nodes_slug() {
    let mesh_key = vec![7u8; 32];
    let request = || "{\"type\":\"ping\"}".to_string();
    let call = call_node(
        &config(Some("token")),
        &state(true),
        &Ok(Some(mesh_key.clone())),
        &node("far"),
        request(),
    )
    .unwrap();
    assert_eq!(call.url, "https://hub.example/v1/cmds");
    match call.request {
        HubRequest::PostCmd(req) => {
            assert_eq!((req.src.as_str(), req.dst.as_str()), ("rig", "far"));
            assert_eq!(req.token.as_deref(), Some("token"));
            assert!(!format!("{:?}", req.req).contains("ping"));
            let envelope = match req.req {
                Frame::Sealed(envelope) => envelope,
                other => panic!("unexpected frame: {other:?}"),
            };
            assert_eq!(decrypt_string(&mesh_key, &envelope.payload).unwrap(), request());
            let line = Line { text: String::new(), envelope: Some(envelope) };
            let opened = verify_request(&Some(mesh_key.clone()), &line, now_ms()).unwrap();
            assert_eq!(opened.message, request());
        }
        other => panic!("unexpected request: {other:?}"),
    }
    let bare = call_node(&config(None), &state(true), &Ok(None), &node("far"), request()).unwrap();
    assert!(matches!(bare.request, HubRequest::PostCmd(req)
        if matches!(&req.req, Frame::Plain(text) if *text == request())));
    let key_error = Err("failed to read key".to_string());
    assert_eq!(
        call_node(&None, &state(true), &key_error, &node("far"), request()).unwrap_err(),
        "run `via hub use <url>` first"
    );
    assert_eq!(
        call_node(&config(None), &state(true), &key_error, &node("far"), request()).unwrap_err(),
        "failed to read key"
    );
    assert_eq!(
        call_node(&config(None), &state(true), &Ok(Some(vec![1])), &node("far"), request())
            .unwrap_err(),
        "Invalid Length"
    );
    let done = |res: Option<&str>, err: Option<&str>| CmdResponse {
        id: "1".to_string(),
        state: "done".to_string(),
        res: res.map(|s| s.to_string()),
        err: err.map(|s| s.to_string()),
    };
    assert_eq!(relayed(done(Some("sealed"), None)).unwrap(), "sealed");
    assert_eq!(relayed(done(Some("sealed"), Some("gone"))).unwrap_err(), "gone");
    assert_eq!(
        relayed(done(None, None)).unwrap_err(),
        "hub command returned no response"
    );
}

#[test]
fn listed_nodes_become_nodes() {
    let nodes = vec![listed("rig", "online"), listed("pi", "offline")];
    let found = node_by_slug(&nodes, "rig").unwrap();
    assert_eq!(found.last_seen_at, Some(9));
    assert!(found.addresses.is_empty());
    assert_eq!(node_by_slug(&nodes, "pi").unwrap().last_seen_at, None);
    assert!(node_by_slug(&nodes, "far").is_none());
}

#[test]
fn the_hub_is_shown() {
    match status(&None, &state(true)) {
        StatusStep::Shown(lines) => assert_eq!(lines, vec!["hub: none"]),
        other => panic!("unexpected step: {other:?}"),
    }
    match status(&config(Some("t")), &state(true)) {
        StatusStep::Ask(lines) => assert_eq!(
            lines,
            vec!["hub: https://hub.example", "mesh: mesh", "node: rig"]
        ),
        other => panic!("unexpected step: {other:?}"),
    }
    let lines = status_listing(
        Ok(vec![listed("rig", "online"), listed("pi", "offline")]),
        "rig",
    );
    assert_eq!(lines[0], "auth: ok");
    assert_eq!(
        status_listing(Err("down".to_string()), "rig"),
        vec!["auth: failed", "error: down"]
    );
    assert!(!list(&config(None)).is_empty());
    assert_ne!(drop_hub(true), drop_hub(false));
}

#[test]
fn refused_joins_change_nothing() {
    let key = via::security::ensure_mesh_key(None).unwrap().file.unwrap();
    let other = via::security::ensure_mesh_key(None).unwrap().file.unwrap();
    let mut invite = invite();
    invite.key = key.clone();
    let mut files = via::hub::NodeFiles { mesh_key: None, hub_config: None };
    let refused = joined(&mut files, &invite, Err("401".to_string()));
    assert_eq!(refused, Err("401".to_string()));
    assert!(files.mesh_key.is_none() && files.hub_config.is_none());

    assert_eq!(joined(&mut files, &invite, Ok("token".to_string())), Ok(()));
    assert_eq!(files.mesh_key.as_deref(), Some(key.as_str()));
    let config = files.hub_config.as_ref().unwrap();
    assert_eq!(config.url, invite.hub);
    assert_eq!(config.token.as_deref(), Some("token"));

    invite.key = other;
    assert_eq!(
        joined(&mut files, &invite, Ok("second".to_string())),
        Err("Via mesh key already exists and does not match invite".to_string())
    );
    assert_eq!(files.mesh_key.as_deref(), Some(key.as_str()));
    assert_eq!(files.hub_config.unwrap().token.as_deref(), Some("token"));
}

#[test]
fn long_addresses_are_kept() {
    let long = "http://h/".to_string() + &"a".repeat(1_000_000);
    assert!(normalize_http_url(&(long.clone() + "/")).unwrap() == long);
    assert_eq!(normalize_http_url("http://h/a/").unwrap(), "http://h/a");
}

#[test]
fn relayed_answers_are_sealed() {
    let key = vec![7u8; 32];
    let text = "{\"type\":\"exec\",\"output\":\"via-hub-secret\"}";
    let answer =
        answer_relayed("cmd".to_string(), &Ok(Some(key.clone())), text.to_string()).unwrap();
    assert_eq!(answer.id, "cmd");
    assert!(!format!("{answer:?}").contains("via-hub-secret"));
    let envelope = match answer.res {
        Frame::Sealed(envelope) => envelope,
        other => panic!("unexpected frame: {other:?}"),
    };
    let line = Line { text: String::new(), envelope: Some(envelope) };
    assert_eq!(decode_response(&Some(key), &line, now_ms()).unwrap(), text);
    let bare = answer_relayed("cmd".to_string(), &Ok(None), text.to_string()).unwrap();
    assert!(matches!(bare.res, Frame::Plain(plain) if plain == text));
    let failed = answer_relayed("cmd".to_string(), &Err("no key".to_string()), text.to_string());
    assert_eq!(failed.unwrap_err(), "no key");
}
