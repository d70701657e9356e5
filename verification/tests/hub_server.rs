use via::grants::{Header, HubProvisionGrant};
use via::hub::{CmdResponse, PostCmdRequest};
use via::hub_db::{mesh_account, token_by_hash, validate_node_token, AgentQuery, Machine, RegisterPlan};
use via::hub_server::{
    agent_admitted, agent_connect, create_mesh, create_token, handle_agent, join_mesh, kept_answer,
    list_nodes, listed_answer, post_cmd, provision_with_grant, register_node, registered_answer,
    require_admin, session_key, settings, AgentAction, AgentEvent, AgentFrame, CmdResults, CreateMeshRequest,
    CreateTokenRequest, HubAnswer, HubEnv, JoinRequest, NodesQuery, PostAction, PostEvent,
    RegisterNodeRequest, Waited,
};
use via::store::{field, StoreRow, StoreStep};

fn machine() -> Machine {
    Machine {
        os: "linux".to_string(),
        arch: "x86_64".to_string(),
        version: "0.1.0".to_string(),
    }
}

/// The rows of a table that inserts and updates for one key leave behind.
struct Table {
    name: &'static str,
    rows: Vec<StoreRow>,
}

impl Table {
    fn new(name: &'static str) -> Table {
        Table { name, rows: vec![] }
    }

    fn follow(&mut self, steps: &Vec<StoreStep>) {
        for step in steps {
            let args = &step.call.args;
            if args[0] != self.name {
                continue;
            }
            if step.call.name == "TINSERT" {
                let fields = args[1..]
                    .chunks(2)
                    .map(|pair| (pair[0].clone(), pair[1].clone()))
                    .collect();
                self.rows.push(StoreRow { fields });
            } else {
                let end = args.iter().position(|a| a == "WHERE").unwrap();
                for row in self.rows.iter_mut() {
                    if field(row, &args[end + 1]) == Some(args[end + 3].as_str()) {
                        for pair in args[2..end].chunks(2) {
                            row.fields.push((pair[0].clone(), pair[1].clone()));
                        }
                    }
                }
            }
        }
    }

    fn find(&self, key: &str, value: &str) -> Option<StoreRow> {
        self.rows
            .iter()
            .find(|row| field(row, key) == Some(value))
            .map(|row| StoreRow { fields: row.fields.clone() })
    }

    fn token(&self, token: &str) -> Option<StoreRow> {
        let call = token_by_hash(token);
        self.find("hash", &call.args[6])
    }
}

fn registered(plan: RegisterPlan, tokens: &mut Table) -> String {
    tokens.follow(&plan.steps);
    match registered_answer(Ok(()), plan.token, false) {
        HubAnswer::Token(token) => token,
        other => panic!("unexpected answer: {other:?}"),
    }
}

fn refused(answer: HubAnswer) -> String {
    match answer {
        HubAnswer::Said { status, text } => {
            assert_eq!(status, 401);
            text
        }
        other => panic!("unexpected answer: {other:?}"),
    }
}

fn cmd(token: Option<&str>) -> PostCmdRequest {
    PostCmdRequest {
        mesh: "mesh-auth".to_string(),
        src: "laptop".to_string(),
        dst: "rig".to_string(),
        req: "ciphertext".to_string(),
        token: token.map(|t| t.to_string()),
    }
}

fn register(tokens: &mut Table, mesh: &str, slug: &str) -> String {
    let plan = register_node(
        None,
        &Header::Missing,
        &RegisterNodeRequest {
            mesh: mesh.to_string(),
            node: format!("id-{slug}"),
            slug: slug.to_string(),
        },
        &machine(),
        5,
    )
    .unwrap();
    registered(plan, tokens)
}

#[test]
fn hub_rejects_commands_without_valid_node_token() {
    let action = post_cmd("1", &cmd(None), PostEvent::Arrived, 5);
    assert!(matches!(action, PostAction::Answer(answer) if refused_with(&answer, "missing hub token")));

    let mut tokens = Table::new("tokens");
    let token = register(&mut tokens, "mesh-auth", "rig");
    let req = cmd(Some(&token));
    assert!(matches!(post_cmd("1", &req, PostEvent::Arrived, 5), PostAction::Look(_)));
    let action = post_cmd("1", &req, PostEvent::Looked(Ok(tokens.token(&token))), 5);
    assert!(matches!(action, PostAction::Answer(answer) if refused_with(&answer, "invalid hub token")));
    let action = post_cmd("1", &req, PostEvent::Looked(Ok(None)), 5);
    assert!(matches!(action, PostAction::Answer(answer) if refused_with(&answer, "invalid hub token")));
}

fn refused_with(answer: &HubAnswer, why: &str) -> bool {
    matches!(answer, HubAnswer::Said { status: 401, text } if text == why)
}

#[test]
fn commands_are_kept_relayed_and_answered() {
    let mut tokens = Table::new("tokens");
    let token = register(&mut tokens, "mesh-auth", "laptop");
    let req = cmd(Some(&token));
    match post_cmd("1", &req, PostEvent::Looked(Ok(tokens.token(&token))), 100) {
        PostAction::Store(step) => {
            let mut cmds = Table::new("cmds");
            cmds.follow(&vec![step]);
            let row = cmds.find("id", "1").unwrap();
            assert_eq!(field(&row, "req"), Some("ciphertext"));
            assert_eq!(field(&row, "state"), Some("pending"));
            assert_eq!(field(&row, "exp"), Some("160"));
        }
        other => panic!("unexpected action: {other:?}"),
    }
    match post_cmd("1", &req, PostEvent::Stored(Ok(())), 100) {
        PostAction::FindSession { mesh, dst } => assert_eq!((mesh.as_str(), dst.as_str()), ("mesh-auth", "rig")),
        other => panic!("unexpected action: {other:?}"),
    }
    match post_cmd("1", &req, PostEvent::Session(true), 100) {
        PostAction::Relay { id, req } => assert_eq!((id.as_str(), req.as_str()), ("1", "ciphertext")),
        other => panic!("unexpected action: {other:?}"),
    }
    assert!(matches!(post_cmd("1", &req, PostEvent::Relayed(Ok(())), 100), PostAction::Wait));
    match post_cmd("1", &req, PostEvent::Ended(Waited::Replied("sealed".to_string())), 101) {
        PostAction::Finish { step, response } => {
            assert_eq!(response.state, "done");
            assert_eq!(response.res.as_deref(), Some("sealed"));
            assert_eq!(
                step.call.args,
                vec!["cmds", "SET", "state", "done", "res", "sealed", "updated", "101", "WHERE", "id", "=", "1"]
            );
            let mut results = CmdResults::new();
            results.insert(&response);
            assert!(matches!(results.get_cmd("1"), HubAnswer::Cmd { status: 200, response }
                if response.res.as_deref() == Some("sealed")));
            assert!(matches!(results.get_cmd("2"), HubAnswer::NotFound));
        }
        other => panic!("unexpected action: {other:?}"),
    }
}

fn failed(action: PostAction, wanted: u16) -> String {
    match action {
        PostAction::Answer(HubAnswer::Cmd { status, response }) => {
            assert_eq!(status, wanted);
            assert_eq!(response.state, "error");
            response.err.unwrap()
        }
        other => panic!("unexpected action: {other:?}"),
    }
}

#[test]
fn failing_commands_say_why() {
    let req = cmd(Some("t"));
    assert!(matches!(
        post_cmd("1", &req, PostEvent::Stored(Err("full".to_string())), 5),
        PostAction::Answer(HubAnswer::Said { status: 400, text }) if text == "full"
    ));
    assert_eq!(
        failed(post_cmd("1", &req, PostEvent::Session(false), 5), 404),
        "node 'rig' is not connected to the hub"
    );
    assert_eq!(
        failed(post_cmd("1", &req, PostEvent::Relayed(Err("closed".to_string())), 5), 502),
        "failed to relay command: closed"
    );
    let ended = |waited| match post_cmd("1", &cmd(Some("t")), PostEvent::Ended(waited), 5) {
        PostAction::Finish { response, .. } => response.err.unwrap(),
        other => panic!("unexpected action: {other:?}"),
    };
    assert_eq!(ended(Waited::Disconnected), "agent disconnected before replying");
    assert_eq!(ended(Waited::TimedOut), "command timed out waiting for agent");
}

#[test]
fn invite_tokens_are_single_use() {
    let mut tokens = Table::new("tokens");
    let step = create_token(
        None,
        &Header::Missing,
        &CreateTokenRequest {
            mesh: "mesh-join".to_string(),
            name: Some("rig".to_string()),
            token: "invite-secret".to_string(),
            exp: 160,
        },
        100,
    )
    .unwrap();
    assert!(!step.call.args.contains(&"invite-secret".to_string()));
    tokens.follow(&vec![step]);
    let request = JoinRequest {
        mesh: "mesh-join".to_string(),
        node: "node-1".to_string(),
        slug: "rig".to_string(),
        token: "invite-secret".to_string(),
    };
    let row = Ok(tokens.token("invite-secret"));
    assert_eq!(
        refused(join_mesh(&row, &request, &machine(), 161).unwrap_err()),
        "invite token expired"
    );
    let first = join_mesh(&row, &request, &machine(), 100).unwrap();
    assert!(first.steps[0].call.args.contains(&"used".to_string()));
    let token = registered(first, &mut tokens);
    assert!(validate_node_token(&tokens.token(&token), "mesh-join", "rig", 200).is_ok());

    let second = join_mesh(&Ok(tokens.token("invite-secret")), &request, &machine(), 100);
    assert_eq!(refused(second.unwrap_err()), "invite token has already been used");
    let stranger = join_mesh(&Ok(None), &request, &machine(), 100);
    assert_eq!(refused(stranger.unwrap_err()), "invalid invite token");
    let wrong = join_mesh(&Ok(tokens.token(&token)), &request, &machine(), 100);
    assert_eq!(refused(wrong.unwrap_err()), "invalid hub token");
}

#[test]
fn valid_grant_provisions_mesh_and_node_token() {
    let grant = HubProvisionGrant {
        v: 1,
        aud: "https://hub.example".to_string(),
        exp: 160,
        jti: "jti-valid".to_string(),
        account: "acct_123".to_string(),
        mesh: "mesh-grant".to_string(),
        name: None,
    };
    let plan = provision_with_grant(Ok(&grant), "node-1", "rig", &machine(), 100).unwrap();
    let mut tokens = Table::new("tokens");
    let mut meshes = Table::new("meshes");
    meshes.follow(&plan.steps);
    let token = registered(plan, &mut tokens);
    let mesh = meshes.find("id", "mesh-grant");
    assert_eq!(field(mesh.as_ref().unwrap(), "name"), Some("default"));
    assert_eq!(mesh_account(&mesh).as_deref(), Some("acct_123"));
    let query = NodesQuery {
        mesh: "mesh-grant".to_string(),
        node: "rig".to_string(),
        token: token.clone(),
    };
    let call = list_nodes(&Ok(tokens.token(&token)), &query, 100).unwrap();
    assert_eq!(call.args, vec!["*", "FROM", "nodes", "WHERE", "mesh", "=", "mesh-grant"]);
    let refusal = provision_with_grant(Err("grant expired".to_string()), "n", "rig", &machine(), 1);
    assert_eq!(refused(refusal.unwrap_err()), "grant expired");
}

#[test]
fn no_issuer_pubkey_preserves_admin_token_flow() {
    let env = HubEnv {
        admin_token: Some("admin-secret".to_string()),
        issuer_pubkey: None,
        ingest_url: Some("http://ingest".to_string()),
        ingest_token: Some("token".to_string()),
        hub_url: None,
    };
    let settings = settings(&env).unwrap();
    assert!(settings.reporter.is_none());
    let admin = settings.admin_token.as_deref();
    let req = CreateMeshRequest { id: "mesh-admin".to_string(), name: "default".to_string() };
    let unauth = create_mesh(admin, &Header::Missing, &req, 5);
    assert_eq!(refused(unauth.unwrap_err()), "missing admin token");
    let header = Header::Text("Bearer admin-secret".to_string());
    let step = create_mesh(admin, &header, &req, 5).unwrap();
    assert_eq!(
        step.call.args,
        vec!["meshes", "id", "mesh-admin", "name", "default", "created", "5", "updated", "5"]
    );
    assert!(matches!(kept_answer(Ok(())), HubAnswer::NoContent));
    assert!(matches!(kept_answer(Err("x".to_string())), HubAnswer::Said { status: 400, .. }));
}

#[test]
fn administrators_need_their_token() {
    let text = |s: &str| Header::Text(s.to_string());
    assert!(require_admin(None, &Header::Missing).is_ok());
    assert_eq!(
        require_admin(Some("a"), &Header::Unreadable).unwrap_err(),
        "invalid authorization header"
    );
    assert_eq!(require_admin(Some("a"), &text("a")).unwrap_err(), "invalid admin token");
    assert_eq!(require_admin(Some("a"), &text("Bearer b")).unwrap_err(), "invalid admin token");
    assert!(require_admin(Some("a"), &text("Bearer a")).is_ok());
}

#[test]
fn empty_settings_count_as_missing() {
    let env = |url: Option<&str>| HubEnv {
        admin_token: Some(String::new()),
        issuer_pubkey: Some(String::new()),
        ingest_url: None,
        ingest_token: None,
        hub_url: url.map(|u| u.to_string()),
    };
    let none = settings(&env(Some(""))).unwrap();
    assert!(none.admin_token.is_none() && none.issuer_pubkey.is_none() && none.hub_url.is_none());
    let some = settings(&env(Some("https://hub.example/"))).unwrap();
    assert_eq!(some.hub_url.as_deref(), Some("https://hub.example"));
    assert!(settings(&env(Some("ftp://hub.example"))).is_err());
    let key = HubEnv {
        issuer_pubkey: Some("AAAAAAAAAAAAAAAAAAAAAAAAAAAAAAAAAAAAAAAAAAA".to_string()),
        ingest_url: Some("http://ingest".to_string()),
        ingest_token: Some("token".to_string()),
        ..env(None)
    };
    let with_key = settings(&key).unwrap();
    assert_eq!(with_key.issuer_pubkey.unwrap(), vec![0u8; 32]);
    assert_eq!(
        with_key.reporter,
        Some(("http://ingest".to_string(), "token".to_string()))
    );
}

#[test]
fn agents_come_and_go() {
    let query = AgentQuery {
        mesh: "m".to_string(),
        node: "n".to_string(),
        slug: "rig".to_string(),
        token: None,
    };
    assert_eq!(refused(agent_connect(&query).unwrap_err()), "missing hub token");
    assert_eq!(
        refused(agent_admitted(&Ok(None), &query, 5).unwrap_err()),
        "invalid hub token"
    );
    let mut tokens = Table::new("tokens");
    let token = register(&mut tokens, "m", "rig");
    assert!(agent_admitted(&Ok(tokens.token(&token)), &query, 5).is_ok());

    let opened = AgentEvent::Opened { session_id: "s".to_string() };
    match handle_agent(&query, opened, &machine(), 7) {
        AgentAction::Begin(start) => {
            assert_eq!(start.events, vec!["connected", "session_started"]);
            let mut nodes = Table::new("nodes");
            nodes.follow(&start.node);
            let row = nodes.find("id", "n").unwrap();
            assert_eq!(field(&row, "status"), Some("online"));
            assert_eq!(field(&row, "os"), Some("linux"));
            assert_eq!(field(&row, "seen"), Some("7"));
            match handle_agent(&query, AgentEvent::Over, &machine(), 9) {
                AgentAction::End { step, events } => {
                    nodes.follow(&vec![step]);
                    assert_eq!(events, vec!["session_ended", "disconnected"]);
                }
                other => panic!("unexpected action: {other:?}"),
            }
            let row = nodes.find("id", "n").unwrap();
            assert_eq!(field(&row, "status"), Some("offline"));
            match listed_answer(Ok(nodes.rows)) {
                HubAnswer::Nodes(nodes) => {
                    assert_eq!(nodes[0].slug, "rig");
                    assert_eq!(nodes[0].status, "offline");
                    assert_eq!(nodes[0].seen, 9);
                }
                other => panic!("unexpected answer: {other:?}"),
            }
        }
        other => panic!("unexpected action: {other:?}"),
    }
    let act = |event| handle_agent(&query, event, &machine(), 7);
    let result = Some(("1".to_string(), "sealed".to_string()));
    assert!(matches!(act(AgentEvent::Came(AgentFrame::Text(result))),
        AgentAction::Deliver { id, res } if id == "1" && res == "sealed"));
    assert!(matches!(act(AgentEvent::Came(AgentFrame::Text(None))), AgentAction::Listen));
    assert!(matches!(act(AgentEvent::Came(AgentFrame::Closed)), AgentAction::Stop));
    assert!(matches!(act(AgentEvent::Sent(false)), AgentAction::Stop));
}

#[test]
fn nodes_without_a_slug_are_not_listed() {
    let rows = vec![
        StoreRow { fields: vec![("id".to_string(), "1".to_string())] },
        StoreRow { fields: vec![("slug".to_string(), "rig".to_string())] },
    ];
    match listed_answer(Ok(rows)) {
        HubAnswer::Nodes(nodes) => {
            assert_eq!(nodes.len(), 1);
            assert_eq!(nodes[0].status, "unknown");
            assert_eq!(nodes[0].id, "");
        }
        other => panic!("unexpected answer: {other:?}"),
    }
    assert!(matches!(listed_answer(Err("x".to_string())), HubAnswer::Said { status: 400, .. }));
}

#[test]
fn the_last_result_counts() {
    let response = |state: &str| CmdResponse {
        id: "1".to_string(),
        state: state.to_string(),
        res: None,
        err: None,
    };
    let mut results = CmdResults::new();
    results.insert(&response("error"));
    results.insert(&response("done"));
    assert!(matches!(results.get_cmd("1"), HubAnswer::Cmd { response, .. } if response.state == "done"));
}

#[test]
fn sessions_are_found_by_mesh_and_slug() {
    let query = AgentQuery {
        mesh: "m".to_string(),
        node: "n".to_string(),
        slug: "rig".to_string(),
        token: None,
    };
    assert_eq!(session_key(&query), ("m".to_string(), "rig".to_string()));
}
