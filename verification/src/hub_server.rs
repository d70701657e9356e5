//! How a hub answers requests and serves agents.

use crate::grants;
use crate::grants::{load_issuer_pubkey, Header, HeaderView};
use crate::hub;
use crate::hub::{CmdResponse, CmdView, HubNode, HubNodeView, PostCmdRequest, PostCmdView};
use crate::hub_db;
use crate::hub_db::{
    ask_nodes, claim_invite, finish_cmd, insert_cmd, insert_invite_token, insert_mesh, insert_node,
    insert_session, mark_node_offline, nodes, provision_grant_mesh, register_claimed,
    token_by_hash, validate_node_token, AgentQuery, AgentView, Machine, MachineView, RegisterPlan,
    COMMAND_SECONDS,
};
use crate::store;
use crate::store::{StoreCall, StoreCallView, StoreRow, StoreStep, StoreStepView};
use crate::text;
use crate::text::{copy_opt, same, strip_prefix};
use crate::urls;
use crate::urls::normalize_http_url;
use crate::usage;
use crate::usage::from_env;
use vstd::hash_map::StringHashMap;
use vstd::prelude::*;

verus! {

/// A request that asks for a mesh to be kept.
#[derive(Debug)]
pub struct CreateMeshRequest {
    pub id: String,
    pub name: String,
}

/// A request that asks for an invite to be kept.
#[derive(Debug)]
pub struct CreateTokenRequest {
    pub mesh: String,
    pub name: Option<String>,
    pub token: String,
    pub exp: i64,
}

/// A request that asks for a node to be registered.
#[derive(Debug)]
pub struct RegisterNodeRequest {
    pub mesh: String,
    pub node: String,
    pub slug: String,
}

/// A request to join a mesh with an invite.
#[derive(Debug)]
pub struct JoinRequest {
    pub mesh: String,
    pub node: String,
    pub slug: String,
    pub token: String,
}

/// A request for the nodes of a mesh.
#[derive(Debug)]
pub struct NodesQuery {
    pub mesh: String,
    pub node: String,
    pub token: String,
}

/// The answer to a request.
#[derive(Debug)]
pub enum HubAnswer {
    /// It was done, and there is nothing to say.
    NoContent,
    /// A status, and a text.
    Said { status: u16, text: String },
    /// There is no such thing.
    NotFound,
    /// A token.
    Token(String),
    /// Nodes.
    Nodes(Vec<HubNode>),
    /// What became of a command.
    Cmd { status: u16, response: CmdResponse },
}

#[verifier::ext_equal]
pub enum AnswerView {
    NoContent,
    Said { status: u16, text: Seq<char> },
    NotFound,
    Token(Seq<char>),
    Nodes(Seq<HubNodeView>),
    Cmd { status: u16, response: CmdView },
}

impl View for HubAnswer {
    type V = AnswerView;

    open spec fn view(&self) -> AnswerView {
        match self {
            HubAnswer::NoContent => AnswerView::NoContent,
            HubAnswer::Said { status, text } => AnswerView::Said { status: *status, text: text@ },
            HubAnswer::NotFound => AnswerView::NotFound,
            HubAnswer::Token(t) => AnswerView::Token(t@),
            HubAnswer::Nodes(v) => AnswerView::Nodes(hub::hub_nodes(v@)),
            HubAnswer::Cmd { status, response } => AnswerView::Cmd {
                status: *status,
                response: response@,
            },
        }
    }
}

/// A request that is not allowed.
pub open spec fn unauthorized(why: Seq<char>) -> AnswerView {
    AnswerView::Said { status: 401, text: why }
}

/// A request that could not be met.
pub open spec fn bad_request(why: Seq<char>) -> AnswerView {
    AnswerView::Said { status: 400, text: why }
}

fn refuse(why: String) -> (r: HubAnswer)
    ensures
        r@ == unauthorized(why@),
{
    HubAnswer::Said { status: 401, text: why }
}

fn reject(why: String) -> (r: HubAnswer)
    ensures
        r@ == bad_request(why@),
{
    HubAnswer::Said { status: 400, text: why }
}

// ---------------------------------------------------------------------------
// Settings.

/// What a hub was told when it started.
#[derive(Debug)]
pub struct HubSettings {
    pub admin_token: Option<String>,
    pub issuer_pubkey: Option<Vec<u8>>,
    pub hub_url: Option<String>,
    pub reporter: Option<(String, String)>,
}

/// What a hub may be told by its environment.
#[derive(Debug)]
pub struct HubEnv {
    pub admin_token: Option<String>,
    pub issuer_pubkey: Option<String>,
    pub ingest_url: Option<String>,
    pub ingest_token: Option<String>,
    pub hub_url: Option<String>,
}

/// A setting that is not empty.
pub open spec fn nonempty(o: Option<Seq<char>>) -> Option<Seq<char>> {
    match o {
        Some(s) => if s.len() > 0 {
            Some(s)
        } else {
            None
        },
        None => None,
    }
}

fn filter_empty(o: &Option<String>) -> (r: Option<String>)
    ensures
        text::opt_text(r) == nonempty(text::opt_text(*o)),
{
    match o {
        Some(s) => if s.as_str().is_empty() {
            None
        } else {
            Some(s.clone())
        },
        None => None,
    }
}

fn as_opt(o: &Option<String>) -> (r: Option<&str>)
    ensures
        text::opt_str(r) == text::opt_text(*o),
{
    match o {
        Some(s) => Some(s.as_str()),
        None => None,
    }
}

/// The address that a hub was told to be, in the form in which it is kept.
pub open spec fn own_url_outcome(setting: Option<Seq<char>>) -> Result<
    Option<Seq<char>>,
    Seq<char>,
> {
    match nonempty(setting) {
        None => Ok(None),
        Some(url) => match urls::http_url_outcome(url) {
            Ok(u) => Ok(Some(u)),
            Err(e) => Err(e),
        },
    }
}

/// That `r` is what a hub makes of its environment. Use is reported only where there
/// is an issuer.
pub open spec fn is_settings(r: Result<HubSettings, String>, env: HubEnv) -> bool {
    match grants::issuer_outcome(text::opt_text(env.issuer_pubkey)) {
        Err(e) => r is Err && r->Err_0@ == e,
        Ok(key) => match own_url_outcome(text::opt_text(env.hub_url)) {
            Err(e) => r is Err && r->Err_0@ == e,
            Ok(url) => r matches Ok(s) && text::opt_text(s.admin_token) == nonempty(
                text::opt_text(env.admin_token),
            ) && grants::opt_bytes(s.issuer_pubkey) == key && text::opt_text(s.hub_url) == url && (
            match s.reporter {
                Some(p) => key is Some && usage::reporter_setting(
                    text::opt_text(env.ingest_url),
                    text::opt_text(env.ingest_token),
                ) == Some((p.0@, p.1@)),
                None => key is None || usage::reporter_setting(
                    text::opt_text(env.ingest_url),
                    text::opt_text(env.ingest_token),
                ) is None,
            }),
        },
    }
}

/// What a hub makes of its environment.
pub fn settings(env: &HubEnv) -> (r: Result<HubSettings, String>)
    ensures
        is_settings(r, *env),
{
    let issuer_pubkey = match load_issuer_pubkey(as_opt(&env.issuer_pubkey)) {
        Ok(key) => key,
        Err(e) => return Err(e),
    };
    let reporter = if issuer_pubkey.is_some() {
        from_env(as_opt(&env.ingest_url), as_opt(&env.ingest_token))
    } else {
        None
    };
    let hub_url = match filter_empty(&env.hub_url) {
        None => None,
        Some(url) => match normalize_http_url(url.as_str()) {
            Ok(u) => Some(u),
            Err(e) => return Err(e),
        },
    };
    Ok(HubSettings { admin_token: filter_empty(&env.admin_token), issuer_pubkey, hub_url, reporter })
}

// ---------------------------------------------------------------------------
// The administrator.

/// What is said of a request that only the administrator may make. A hub without an
/// administrator's token asks for none.
pub open spec fn admin_outcome(expected: Option<Seq<char>>, header: HeaderView) -> Result<
    (),
    Seq<char>,
> {
    match expected {
        None => Ok(()),
        Some(token) => match header {
            HeaderView::Missing => Err("missing admin token"@),
            HeaderView::Unreadable => Err("invalid authorization header"@),
            HeaderView::Text(raw) => if raw == "Bearer "@ + token {
                Ok(())
            } else {
                Err("invalid admin token"@)
            },
        },
    }
}

/// Looks at a request that only the administrator may make.
pub fn require_admin(expected: Option<&str>, header: &Header) -> (r: Result<(), String>)
    ensures
        text::unit_outcome(r) == admin_outcome(text::opt_str(expected), header@),
{
    let expected = match expected {
        Some(token) => token,
        None => return Ok(()),
    };
    let raw = match header {
        Header::Missing => return Err("missing admin token".to_owned()),
        Header::Unreadable => return Err("invalid authorization header".to_owned()),
        Header::Text(s) => s.as_str(),
    };
    let actual = match strip_prefix(raw, "Bearer ") {
        Some(s) => s,
        None => {
            proof {
                if raw@ == "Bearer "@ + expected@ {
                    assert(raw@.take("Bearer "@.len() as int) =~= "Bearer "@);
                }
            }
            return Err("invalid admin token".to_owned());
        },
    };
    proof {
        assert(raw@ =~= "Bearer "@ + actual@);
        if raw@ == "Bearer "@ + expected@ {
            assert((raw@).skip("Bearer "@.len() as int) =~= expected@);
        }
    }
    if same(actual, expected) {
        Ok(())
    } else {
        Err("invalid admin token".to_owned())
    }
}

/// Keeps a mesh, if the administrator asks for it.
pub fn create_mesh(
    admin: Option<&str>,
    header: &Header,
    req: &CreateMeshRequest,
    now: i64,
) -> (r: Result<StoreStep, HubAnswer>)
    ensures
        match admin_outcome(text::opt_str(admin), header@) {
            Err(e) => r is Err && r->Err_0@ == unauthorized(e),
            Ok(_) => r is Ok && r->Ok_0@ == store::insertion(
                "meshes"@,
                hub_db::mesh_row(req.id@, req.name@, now),
            ),
        },
{
    match require_admin(admin, header) {
        Err(e) => Err(refuse(e)),
        Ok(_) => Ok(insert_mesh(req.id.as_str(), req.name.as_str(), now)),
    }
}

/// Keeps an invite, if the administrator asks for it.
pub fn create_token(
    admin: Option<&str>,
    header: &Header,
    req: &CreateTokenRequest,
    now: i64,
) -> (r: Result<StoreStep, HubAnswer>)
    ensures
        match admin_outcome(text::opt_str(admin), header@) {
            Err(e) => r is Err && r->Err_0@ == unauthorized(e),
            Ok(_) => r is Ok && hub_db::keeps_invite(
                r->Ok_0@,
                req.mesh@,
                text::opt_text(req.name),
                req.token@,
                req.exp,
                now,
            ),
        },
{
    match require_admin(admin, header) {
        Err(e) => Err(refuse(e)),
        Ok(_) => Ok(
            insert_invite_token(
                req.mesh.as_str(),
                as_opt(&req.name),
                req.token.as_str(),
                req.exp,
                now,
            ),
        ),
    }
}

/// Registers a node, if the administrator asks for it.
pub fn register_node(
    admin: Option<&str>,
    header: &Header,
    req: &RegisterNodeRequest,
    machine: &Machine,
    now: i64,
) -> (r: Result<RegisterPlan, HubAnswer>)
    ensures
        match admin_outcome(text::opt_str(admin), header@) {
            Err(e) => r is Err && r->Err_0@ == unauthorized(e),
            Ok(_) => r is Ok && hub_db::is_registration(
                r->Ok_0,
                Seq::empty(),
                req.mesh@,
                req.node@,
                req.slug@,
                machine@,
                now,
            ),
        },
{
    match require_admin(admin, header) {
        Err(e) => Err(refuse(e)),
        Ok(_) => Ok(
            hub_db::register_node(
                req.mesh.as_str(),
                req.node.as_str(),
                req.slug.as_str(),
                machine,
                now,
            ),
        ),
    }
}

/// The answer after something was to be kept.
pub fn kept_answer(stored: Result<(), String>) -> (r: HubAnswer)
    ensures
        r@ == (match text::unit_outcome(stored) {
            Ok(_) => AnswerView::NoContent,
            Err(e) => bad_request(e),
        }),
{
    match stored {
        Ok(_) => HubAnswer::NoContent,
        Err(e) => reject(e),
    }
}

/// The answer after a node was to be registered: its token, if all was kept. `joined`
/// says whether the node came with an invite.
pub fn registered_answer(
    stored: Result<(), String>,
    token: Result<String, String>,
    joined: bool,
) -> (r: HubAnswer)
    ensures
        r@ == (match text::unit_outcome(stored) {
            Ok(_) => match text::text_outcome(token) {
                Ok(t) => AnswerView::Token(t),
                Err(e) => if joined {
                    unauthorized(e)
                } else {
                    bad_request(e)
                },
            },
            Err(e) => if joined {
                unauthorized(e)
            } else {
                bad_request(e)
            },
        }),
{
    let why = match stored {
        Ok(_) => match token {
            Ok(t) => return HubAnswer::Token(t),
            Err(e) => e,
        },
        Err(e) => e,
    };
    if joined {
        refuse(why)
    } else {
        reject(why)
    }
}

/// Provisions the mesh of a grant, if the grant was accepted.
pub fn provision_with_grant(
    accepted: Result<&grants::HubProvisionGrant, String>,
    node: &str,
    slug: &str,
    machine: &Machine,
    now: i64,
) -> (r: Result<RegisterPlan, HubAnswer>)
    ensures
        match accepted {
            Err(e) => r is Err && r->Err_0@ == unauthorized(e@),
            Ok(grant) => r is Ok && hub_db::is_registration(
                r->Ok_0,
                hub_db::grant_steps(
                    grant@.mesh,
                    grant@.name,
                    grant@.account,
                    now,
                ),
                grant@.mesh,
                node@,
                slug@,
                machine@,
                now,
            ),
        },
{
    match accepted {
        Err(e) => Err(refuse(e)),
        Ok(grant) => Ok(
            provision_grant_mesh(
                grant.mesh.as_str(),
                as_opt(&grant.name),
                grant.account.as_str(),
                node,
                slug,
                machine,
                now,
            ),
        ),
    }
}

// ---------------------------------------------------------------------------
// Joining and listing.

/// A row that was asked for, or what the store said.
pub open spec fn row_result(r: Result<Option<StoreRow>, String>) -> Result<
    Option<Seq<(Seq<char>, Seq<char>)>>,
    Seq<char>,
> {
    match r {
        Ok(row) => Ok(store::opt_row(row)),
        Err(e) => Err(e@),
    }
}

/// What is said of an invite, where `row` is what the store answered when it was
/// asked for its row.
pub open spec fn claim_outcome(
    row: Result<Option<Seq<(Seq<char>, Seq<char>)>>, Seq<char>>,
    mesh: Seq<char>,
    now: i64,
) -> Result<(), Seq<char>> {
    match row {
        Err(e) => Err(e),
        Ok(r) => hub_db::invite_outcome(r, mesh, now),
    }
}

/// Lets a node join with an invite, where `row` is what the store answered when it
/// was asked for the row of the token.
pub fn join_mesh(
    row: &Result<Option<StoreRow>, String>,
    req: &JoinRequest,
    machine: &Machine,
    now: i64,
) -> (r: Result<RegisterPlan, HubAnswer>)
    ensures
        match claim_outcome(row_result(*row), req.mesh@, now) {
            Err(e) => r is Err && r->Err_0@ == unauthorized(e),
            Ok(_) => r is Ok && hub_db::is_registration(
                r->Ok_0,
                seq![
                    store::update(
                        "tokens"@,
                        hub_db::claim_sets(req.slug@),
                        "hash"@,
                        hub_db::token_hash(req.token@),
                        false,
                    ),
                ],
                req.mesh@,
                req.node@,
                req.slug@,
                machine@,
                now,
            ),
        },
{
    let row = match row {
        Ok(row) => row,
        Err(e) => return Err(refuse(e.clone())),
    };
    match claim_invite(row, req.mesh.as_str(), req.slug.as_str(), req.token.as_str(), now) {
        Err(e) => Err(refuse(e)),
        Ok(claim) => Ok(
            register_claimed(
                claim,
                req.mesh.as_str(),
                req.node.as_str(),
                req.slug.as_str(),
                machine,
                now,
            ),
        ),
    }
}

/// What is said of a node's token, where `row` is what the store answered when it was
/// asked for its row.
pub open spec fn token_outcome(
    row: Result<Option<Seq<(Seq<char>, Seq<char>)>>, Seq<char>>,
    mesh: Seq<char>,
    node: Seq<char>,
    now: i64,
) -> Result<(), Seq<char>> {
    match row {
        Err(e) => Err(e),
        Ok(r) => hub_db::node_token_outcome(r, mesh, node, now),
    }
}

fn check_token(row: &Result<Option<StoreRow>, String>, mesh: &str, node: &str, now: i64) -> (r:
    Result<(), String>)
    ensures
        text::unit_outcome(r) == token_outcome(row_result(*row), mesh@, node@, now),
{
    match row {
        Err(e) => Err(e.clone()),
        Ok(row) => validate_node_token(row, mesh, node, now),
    }
}

/// Asks for the nodes of a mesh, if one of its nodes wants to know, where `row` is
/// what the store answered when it was asked for the row of the token.
pub fn list_nodes(row: &Result<Option<StoreRow>, String>, query: &NodesQuery, now: i64) -> (r:
    Result<StoreCall, HubAnswer>)
    ensures
        match token_outcome(row_result(*row), query.mesh@, query.node@, now) {
            Err(e) => r is Err && r->Err_0@ == unauthorized(e),
            Ok(_) => r is Ok && r->Ok_0@ == store::selection(
                "nodes"@,
                "mesh"@,
                query.mesh@,
                false,
            ),
        },
{
    match check_token(row, query.mesh.as_str(), query.node.as_str(), now) {
        Err(e) => Err(refuse(e)),
        Ok(_) => Ok(ask_nodes(query.mesh.as_str())),
    }
}

/// The answer after the nodes of a mesh were asked for.
pub fn listed_answer(rows: Result<Vec<StoreRow>, String>) -> (r: HubAnswer)
    ensures
        match rows {
            Ok(rows) => r@ == AnswerView::Nodes(hub_db::nodes_in(store::rows_view(rows@))),
            Err(e) => r@ == bad_request(e@),
        },
{
    match rows {
        Ok(rows) => HubAnswer::Nodes(nodes(&rows)),
        Err(e) => reject(e),
    }
}

// ---------------------------------------------------------------------------
// Agents.

/// Asks for the row of the token of an agent that connects.
pub fn agent_connect(query: &AgentQuery) -> (r: Result<StoreCall, HubAnswer>)
    ensures
        match query@.token {
            None => r is Err && r->Err_0@ == unauthorized("missing hub token"@),
            Some(t) => r is Ok && r->Ok_0@ == store::selection(
                "tokens"@,
                "hash"@,
                hub_db::token_hash(t),
                true,
            ),
        },
{
    match &query.token {
        None => Err(refuse("missing hub token".to_owned())),
        Some(t) => Ok(token_by_hash(t.as_str())),
    }
}

/// Lets an agent in, where `row` is what the store answered when it was asked for the
/// row of its token.
pub fn agent_admitted(row: &Result<Option<StoreRow>, String>, query: &AgentQuery, now: i64) -> (r:
    Result<(), HubAnswer>)
    ensures
        match token_outcome(row_result(*row), query@.mesh, query@.slug, now) {
            Err(e) => r is Err && r->Err_0@ == unauthorized(e),
            Ok(_) => r is Ok,
        },
{
    match check_token(row, query.mesh.as_str(), query.slug.as_str(), now) {
        Err(e) => Err(refuse(e)),
        Ok(_) => Ok(()),
    }
}

/// What is done when an agent connects: its node is kept, then its session; the
/// events are those that are reported. Nothing depends on whether these go well.
#[derive(Debug)]
pub struct AgentStart {
    pub node: Vec<StoreStep>,
    pub session: StoreStep,
    pub events: Vec<String>,
}

fn agent_started(query: &AgentQuery, session_id: &str, machine: &Machine, now: i64) -> (r:
    AgentStart)
    ensures
        store::store_steps(r.node@) == hub_db::node_steps(
            query@.mesh,
            query@.node,
            query@.slug,
            machine@,
            now,
        ),
        r.session@ == store::insertion(
            "sessions"@,
            hub_db::session_row(session_id@, query@, now),
        ),
        text::texts(r.events@) == seq!["connected"@, "session_started"@],
{
    let events = vec!["connected".to_owned(), "session_started".to_owned()];
    proof {
        assert(text::texts(events@) =~= seq!["connected"@, "session_started"@]);
    }
    AgentStart {
        node: insert_node(query, machine, now),
        session: insert_session(session_id, query, now),
        events,
    }
}

/// Something that came from an agent. A text may hold the result of a command: its
/// identifier and the result.
#[derive(Debug)]
pub enum AgentFrame {
    Text(Option<(String, String)>),
    Other,
    Closed,
    Failed,
}

/// What happens in the session of an agent.
#[derive(Debug)]
pub enum AgentEvent {
    /// The agent connected, and its session got this identifier.
    Opened { session_id: String },
    /// A command was written to the agent, or could not be.
    Sent(bool),
    /// Something came from the agent.
    Came(AgentFrame),
    /// The session is over.
    Over,
}

/// What is done next in the session of an agent.
#[derive(Debug)]
pub enum AgentAction {
    /// Keep that the agent is there.
    Begin(AgentStart),
    /// Wait for what comes next.
    Listen,
    /// Hand the result to whoever waits for the command, if anyone does.
    Deliver { id: String, res: String },
    /// End the session.
    Stop,
    /// Keep that the node is gone, and report these events.
    End { step: StoreStep, events: Vec<String> },
}

/// That `action` is what is done next in the session of an agent.
pub open spec fn is_agent_action(
    action: AgentAction,
    query: AgentView,
    event: AgentEvent,
    machine: MachineView,
    now: i64,
) -> bool {
    match event {
        AgentEvent::Opened { session_id } => action matches AgentAction::Begin(start)
            && store::store_steps(start.node@) == hub_db::node_steps(
            query.mesh,
            query.node,
            query.slug,
            machine,
            now,
        ) && start.session@ == store::insertion(
            "sessions"@,
            hub_db::session_row(session_id@, query, now),
        ) && text::texts(start.events@) == seq!["connected"@, "session_started"@],
        AgentEvent::Sent(ok) => if ok {
            action is Listen
        } else {
            action is Stop
        },
        AgentEvent::Came(frame) => match frame {
            AgentFrame::Text(Some(p)) => action matches AgentAction::Deliver { id, res } && id@
                == p.0@ && res@ == p.1@,
            AgentFrame::Text(None) => action is Listen,
            AgentFrame::Other => action is Listen,
            AgentFrame::Closed => action is Stop,
            AgentFrame::Failed => action is Stop,
        },
        AgentEvent::Over => action matches AgentAction::End { step, events } && step@
            == store::update(
            "nodes"@,
            hub_db::seen_sets("offline"@, now),
            "id"@,
            query.node,
            true,
        ) && text::texts(events@) == seq!["session_ended"@, "disconnected"@],
    }
}

/// What the session of an agent is found under: its mesh and its slug.
pub open spec fn session_of(query: AgentView) -> (Seq<char>, Seq<char>) {
    (query.mesh, query.slug)
}

/// What the session of an agent is found under.
pub fn session_key(query: &AgentQuery) -> (r: (String, String))
    ensures
        (r.0@, r.1@) == session_of(query@),
{
    (query.mesh.clone(), query.slug.clone())
}

/// What is done next in the session of an agent, given what happened.
pub fn handle_agent(query: &AgentQuery, event: AgentEvent, machine: &Machine, now: i64) -> (r:
    AgentAction)
    ensures
        is_agent_action(r, query@, event, machine@, now),
{
    match event {
        AgentEvent::Opened { session_id } => AgentAction::Begin(
            agent_started(query, session_id.as_str(), machine, now),
        ),
        AgentEvent::Sent(ok) => if ok {
            AgentAction::Listen
        } else {
            AgentAction::Stop
        },
        AgentEvent::Came(frame) => match frame {
            AgentFrame::Text(Some(p)) => AgentAction::Deliver { id: p.0, res: p.1 },
            AgentFrame::Text(None) => AgentAction::Listen,
            AgentFrame::Other => AgentAction::Listen,
            AgentFrame::Closed => AgentAction::Stop,
            AgentFrame::Failed => AgentAction::Stop,
        },
        AgentEvent::Over => {
            let events = vec!["session_ended".to_owned(), "disconnected".to_owned()];
            proof {
                assert(text::texts(events@) =~= seq!["session_ended"@, "disconnected"@]);
            }
            AgentAction::End { step: mark_node_offline(query.node.as_str(), now), events }
        },
    }
}

// ---------------------------------------------------------------------------
// Commands.

/// How the wait for an agent ended.
#[derive(Debug)]
pub enum Waited {
    Replied(String),
    Disconnected,
    TimedOut,
}

#[verifier::ext_equal]
pub enum WaitedView {
    Replied(Seq<char>),
    Disconnected,
    TimedOut,
}

impl View for Waited {
    type V = WaitedView;

    open spec fn view(&self) -> WaitedView {
        match self {
            Waited::Replied(s) => WaitedView::Replied(s@),
            Waited::Disconnected => WaitedView::Disconnected,
            Waited::TimedOut => WaitedView::TimedOut,
        }
    }
}

/// How far a command has come.
#[derive(Debug)]
pub enum PostEvent {
    /// It came in.
    Arrived,
    /// The store answered when it was asked for the row of the token.
    Looked(Result<Option<StoreRow>, String>),
    /// The store was told of the command.
    Stored(Result<(), String>),
    /// Whether the node that it is for is connected.
    Session(bool),
    /// It was sent to the agent of that node.
    Relayed(Result<(), String>),
    /// The wait for the agent ended.
    Ended(Waited),
}

#[verifier::ext_equal]
pub enum PostEventView {
    Arrived,
    Looked(Result<Option<Seq<(Seq<char>, Seq<char>)>>, Seq<char>>),
    Stored(Result<(), Seq<char>>),
    Session(bool),
    Relayed(Result<(), Seq<char>>),
    Ended(WaitedView),
}

impl View for PostEvent {
    type V = PostEventView;

    open spec fn view(&self) -> PostEventView {
        match self {
            PostEvent::Arrived => PostEventView::Arrived,
            PostEvent::Looked(r) => PostEventView::Looked(row_result(*r)),
            PostEvent::Stored(r) => PostEventView::Stored(text::unit_outcome(*r)),
            PostEvent::Session(b) => PostEventView::Session(*b),
            PostEvent::Relayed(r) => PostEventView::Relayed(text::unit_outcome(*r)),
            PostEvent::Ended(w) => PostEventView::Ended(w@),
        }
    }
}

/// What is done next with a command.
#[derive(Debug)]
pub enum PostAction {
    /// Ask for the row of the token.
    Look(StoreCall),
    /// Keep the command.
    Store(StoreStep),
    /// Find out whether this node of this mesh is connected.
    FindSession { mesh: String, dst: String },
    /// Send it to the agent.
    Relay { id: String, req: String },
    /// Wait for the agent.
    Wait,
    /// Keep what became of it, and answer with it.
    Finish { step: StoreStep, response: CmdResponse },
    /// Only answer.
    Answer(HubAnswer),
}

#[verifier::ext_equal]
pub enum PostActionView {
    Look(StoreCallView),
    Store(StoreStepView),
    FindSession { mesh: Seq<char>, dst: Seq<char> },
    Relay { id: Seq<char>, req: Seq<char> },
    Wait,
    Finish { step: StoreStepView, response: CmdView },
    Answer(AnswerView),
}

impl View for PostAction {
    type V = PostActionView;

    open spec fn view(&self) -> PostActionView {
        match self {
            PostAction::Look(c) => PostActionView::Look(c@),
            PostAction::Store(s) => PostActionView::Store(s@),
            PostAction::FindSession { mesh, dst } => PostActionView::FindSession {
                mesh: mesh@,
                dst: dst@,
            },
            PostAction::Relay { id, req } => PostActionView::Relay { id: id@, req: req@ },
            PostAction::Wait => PostActionView::Wait,
            PostAction::Finish { step, response } => PostActionView::Finish {
                step: step@,
                response: response@,
            },
            PostAction::Answer(a) => PostActionView::Answer(a@),
        }
    }
}

/// A command that failed.
pub open spec fn failed_cmd(id: Seq<char>, why: Seq<char>) -> CmdView {
    CmdView { id, state: "error"@, res: None, err: Some(why) }
}

/// What became of a command, given how the wait for the agent ended.
pub open spec fn ended_cmd(id: Seq<char>, waited: WaitedView) -> CmdView {
    match waited {
        WaitedView::Replied(res) => CmdView { id, state: "done"@, res: Some(res), err: None },
        WaitedView::Disconnected => failed_cmd(id, "agent disconnected before replying"@),
        WaitedView::TimedOut => failed_cmd(id, "command timed out waiting for agent"@),
    }
}

/// What is done next with a command.
pub open spec fn next_action(id: Seq<char>, req: PostCmdView, event: PostEventView, now: i64) ->
    PostActionView {
    match event {
        PostEventView::Arrived => match req.token {
            None => PostActionView::Answer(unauthorized("missing hub token"@)),
            Some(t) => PostActionView::Look(
                store::selection("tokens"@, "hash"@, hub_db::token_hash(t), true),
            ),
        },
        PostEventView::Looked(row) => match token_outcome(row, req.mesh, req.src, now) {
            Err(e) => PostActionView::Answer(unauthorized(e)),
            Ok(_) => PostActionView::Store(
                store::insertion("cmds"@, hub_db::cmd_row(id, req, now)),
            ),
        },
        PostEventView::Stored(stored) => match stored {
            Err(e) => PostActionView::Answer(bad_request(e)),
            Ok(_) => PostActionView::FindSession { mesh: req.mesh, dst: req.dst },
        },
        PostEventView::Session(connected) => if connected {
            PostActionView::Relay { id, req: req.req }
        } else {
            PostActionView::Answer(
                AnswerView::Cmd {
                    status: 404,
                    response: failed_cmd(
                        id,
                        "node '"@ + req.dst + "' is not connected to the hub"@,
                    ),
                },
            )
        },
        PostEventView::Relayed(relayed) => match relayed {
            Err(e) => PostActionView::Answer(
                AnswerView::Cmd {
                    status: 502,
                    response: failed_cmd(id, "failed to relay command: "@ + e),
                },
            ),
            Ok(_) => PostActionView::Wait,
        },
        PostEventView::Ended(waited) => PostActionView::Finish {
            step: hub_db::finish_step(ended_cmd(id, waited), now),
            response: ended_cmd(id, waited),
        },
    }
}

fn failed_response(id: &str, why: String) -> (r: CmdResponse)
    ensures
        r@ == failed_cmd(id@, why@),
{
    CmdResponse { id: id.to_owned(), state: "error".to_owned(), res: None, err: Some(why) }
}

fn ended_response(id: &str, waited: Waited) -> (r: CmdResponse)
    ensures
        r@ == ended_cmd(id@, waited@),
{
    match waited {
        Waited::Replied(res) => CmdResponse {
            id: id.to_owned(),
            state: "done".to_owned(),
            res: Some(res),
            err: None,
        },
        Waited::Disconnected => failed_response(
            id,
            "agent disconnected before replying".to_owned(),
        ),
        Waited::TimedOut => failed_response(id, "command timed out waiting for agent".to_owned()),
    }
}

/// What is done next with the command `req`, which has the identifier `id`, given how
/// far it has come.
pub fn post_cmd(id: &str, req: &PostCmdRequest, event: PostEvent, now: i64) -> (r: PostAction)
    requires
        now + COMMAND_SECONDS <= i64::MAX,
    ensures
        r@ == next_action(id@, req@, event@, now),
{
    match event {
        PostEvent::Arrived => match &req.token {
            None => PostAction::Answer(refuse("missing hub token".to_owned())),
            Some(t) => PostAction::Look(token_by_hash(t.as_str())),
        },
        PostEvent::Looked(row) => match check_token(&row, req.mesh.as_str(), req.src.as_str(), now) {
            Err(e) => PostAction::Answer(refuse(e)),
            Ok(_) => PostAction::Store(insert_cmd(id, req, now)),
        },
        PostEvent::Stored(stored) => match stored {
            Err(e) => PostAction::Answer(reject(e)),
            Ok(_) => PostAction::FindSession { mesh: req.mesh.clone(), dst: req.dst.clone() },
        },
        PostEvent::Session(connected) => if connected {
            PostAction::Relay { id: id.to_owned(), req: req.req.clone() }
        } else {
            PostAction::Answer(
                HubAnswer::Cmd {
                    status: 404,
                    response: failed_response(
                        id,
                        "node '".to_owned().concat(req.dst.as_str()).concat(
                            "' is not connected to the hub",
                        ),
                    ),
                },
            )
        },
        PostEvent::Relayed(relayed) => match relayed {
            Err(e) => PostAction::Answer(
                HubAnswer::Cmd {
                    status: 502,
                    response: failed_response(
                        id,
                        "failed to relay command: ".to_owned().concat(e.as_str()),
                    ),
                },
            ),
            Ok(_) => PostAction::Wait,
        },
        PostEvent::Ended(waited) => {
            let response = ended_response(id, waited);
            PostAction::Finish { step: finish_cmd(&response, now), response }
        },
    }
}

/// A command without a token is refused at once, and so is one whose token is not
/// that of the node that it comes from: nothing is kept of it, and it goes to no
/// agent. What is kept of a command and what is sent to the agent is the request as
/// it came.
pub proof fn law_commands_need_the_token_of_their_node(
    id: Seq<char>,
    req: PostCmdView,
    row: Result<Option<Seq<(Seq<char>, Seq<char>)>>, Seq<char>>,
    now: i64,
)
    ensures
        req.token is None ==> next_action(id, req, PostEventView::Arrived, now)
            == PostActionView::Answer(unauthorized("missing hub token"@)),
        req.token is Some ==> next_action(id, req, PostEventView::Arrived, now) is Look,
        next_action(id, req, PostEventView::Looked(row), now) is Store <==> token_outcome(
            row,
            req.mesh,
            req.src,
            now,
        ) is Ok,
        token_outcome(row, req.mesh, req.src, now) matches Err(e) ==> next_action(
            id,
            req,
            PostEventView::Looked(row),
            now,
        ) == PostActionView::Answer(unauthorized(e)),
        next_action(id, req, PostEventView::Session(true), now) == (PostActionView::Relay {
            id,
            req: req.req,
        }),
{
}

/// A command that is kept is relayed to the session of the agent of its mesh whose slug
/// it names, and to no other.
pub proof fn law_commands_reach_the_session_they_name(
    id: Seq<char>,
    req: PostCmdView,
    query: AgentView,
    now: i64,
)
    ensures
        ({
            let action = next_action(id, req, PostEventView::Stored(Ok(())), now);
            &&& action is FindSession
            &&& session_of(query) == (action->mesh, action->dst) <==> query.mesh == req.mesh
                && query.slug == req.dst
        }),
{
}

// ---------------------------------------------------------------------------
// Results.

/// What became of the commands that came to an end.
pub struct CmdResults {
    results: StringHashMap<CmdResponse>,
}

impl View for CmdResults {
    type V = Map<Seq<char>, CmdView>;

    closed spec fn view(&self) -> Map<Seq<char>, CmdView> {
        self.results@.map_values(|c: CmdResponse| c@)
    }
}

fn copy_response(c: &CmdResponse) -> (r: CmdResponse)
    ensures
        r@ == c@,
{
    CmdResponse {
        id: c.id.clone(),
        state: c.state.clone(),
        res: copy_opt(&c.res),
        err: copy_opt(&c.err),
    }
}

impl CmdResults {
    /// Before any command.
    pub fn new() -> (r: CmdResults)
        ensures
            r@ == Map::<Seq<char>, CmdView>::empty(),
    {
        let r = CmdResults { results: StringHashMap::new() };
        proof {
            assert(r@ =~= Map::empty());
        }
        r
    }

    /// Keeps what became of a command.
    pub fn insert(&mut self, response: &CmdResponse)
        ensures
            final(self)@ == old(self)@.insert(response@.id, response@),
    {
        let ghost before = self@;
        let response = copy_response(response);
        let ghost kept = response@;
        self.results.insert(response.id.clone(), response);
        proof {
            assert(self@ =~= before.insert(kept.id, kept));
        }
    }

    /// The answer to who asks what became of a command.
    pub fn get_cmd(&self, id: &str) -> (r: HubAnswer)
        ensures
            r@ == (if self@.contains_key(id@) {
                AnswerView::Cmd { status: 200, response: self@[id@] }
            } else {
                AnswerView::NotFound
            }),
    {
        match self.results.get(id) {
            Some(response) => HubAnswer::Cmd { status: 200, response: copy_response(response) },
            None => HubAnswer::NotFound,
        }
    }
}

} // verus!
