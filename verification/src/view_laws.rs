//! What the models of records hold of the records.

use crate::commands;
use crate::commands::Probe;
use crate::grants::HubProvisionGrant;
use crate::hub;
use crate::hub::{
    CmdResponse, HubCall, HubConfig, HubNode, InviteToken, PostCmdRequest, RelayRequest,
};
use crate::hub_db::AgentQuery;
use crate::model;
use crate::model::{Event, Mesh, MeshSnapshot, Node, Secret, Service};
use crate::moves::{Carry, CarryView};
use crate::paths::ViaPaths;
use crate::process;
use crate::process::{Run, RunView, Step};
use crate::rpc::{RequestView, RpcEnvelope, RpcRequest};
use crate::services;
use crate::services::{DeployArgs, ServiceStep, ServiceStepView};
use crate::state;
use crate::state::{StoreWrite, Stored, StoredRecords, StoredView, WriteView};
use crate::store;
use crate::store::{StoreCall, StoreRow, StoreStep};
use crate::text;
use crate::updates;
use crate::updates::{UpdateHow, UpdateHowView, UpdateStep};
use crate::urls;
use crate::usage;
use crate::usage::UsageEvent;
use vstd::prelude::*;

verus! {

/// The model of a `HubProvisionGrant` holds each of its fields as it is.
pub proof fn law_model_of_hub_provision_grant(x: HubProvisionGrant)
    ensures
        x@.v == x.v,
        x@.aud == x.aud@,
        x@.exp == x.exp,
        x@.jti == x.jti@,
        x@.account == x.account@,
        x@.mesh == x.mesh@,
        x@.name == text::opt_text(x.name),
{
}

/// The model of a `HubConfig` holds each of its fields as it is.
pub proof fn law_model_of_hub_config(x: HubConfig)
    ensures
        x@.url == x.url@,
        x@.token == text::opt_text(x.token),
{
}

/// The model of an `InviteToken` holds each of its fields as it is.
pub proof fn law_model_of_invite_token(x: InviteToken)
    ensures
        x@.v == x.v,
        x@.hub == x.hub@,
        x@.mesh == x.mesh@,
        x@.key == x.key@,
        x@.token == x.token@,
        x@.name == text::opt_text(x.name),
        x@.exp == x.exp,
{
}

/// The model of a `HubNode` holds each of its fields as it is.
pub proof fn law_model_of_hub_node(x: HubNode)
    ensures
        x@.id == x.id@,
        x@.slug == x.slug@,
        x@.name == x.name@,
        x@.status == x.status@,
        x@.seen == x.seen,
{
}

/// The model of a `PostCmdRequest` holds each of its fields as it is.
pub proof fn law_model_of_post_cmd_request(x: PostCmdRequest)
    ensures
        x@.mesh == x.mesh@,
        x@.src == x.src@,
        x@.dst == x.dst@,
        x@.req == x.req@,
        x@.token == text::opt_text(x.token),
{
}

/// The model of a `RelayRequest` holds each of its fields as it is.
pub proof fn law_model_of_relay_request(x: RelayRequest)
    ensures
        x@.mesh == x.mesh@,
        x@.src == x.src@,
        x@.dst == x.dst@,
        x@.req == x.req@,
        x@.token == text::opt_text(x.token),
{
}

/// The model of a `CmdResponse` holds each of its fields as it is.
pub proof fn law_model_of_cmd_response(x: CmdResponse)
    ensures
        x@.id == x.id@,
        x@.state == x.state@,
        x@.res == text::opt_text(x.res),
        x@.err == text::opt_text(x.err),
{
}

/// The model of a `HubCall` holds each of its fields as it is.
pub proof fn law_model_of_hub_call(x: HubCall)
    ensures
        x@.url == x.url@,
        x@.bearer == text::opt_text(x.bearer),
        x@.request == x.request@,
{
}

/// The model of an `AgentQuery` holds each of its fields as it is.
pub proof fn law_model_of_agent_query(x: AgentQuery)
    ensures
        x@.mesh == x.mesh@,
        x@.node == x.node@,
        x@.slug == x.slug@,
        x@.token == text::opt_text(x.token),
{
}

/// The model of a `Mesh` holds each of its fields as it is.
pub proof fn law_model_of_mesh(x: Mesh)
    ensures
        x@.id == x.id@,
        x@.created_at == x.created_at,
{
}

/// The model of a `Node` holds each of its fields as it is.
pub proof fn law_model_of_node(x: Node)
    ensures
        x@.id == x.id@,
        x@.slug == x.slug@,
        x@.display_name == x.display_name@,
        x@.addresses == text::texts(x.addresses@),
        x@.daemon_addr == x.daemon_addr@,
        x@.iroh_addr == text::opt_text(x.iroh_addr),
        x@.public == x.public,
        x@.created_at == x.created_at,
        x@.last_seen_at == x.last_seen_at,
{
}

/// The model of a `Service` holds each of its fields as it is.
pub proof fn law_model_of_service(x: Service)
    ensures
        x@.id == x.id@,
        x@.name == x.name@,
        x@.node_id == x.node_id@,
        x@.node_slug == x.node_slug@,
        x@.node_addr == x.node_addr@,
        x@.target == x.target@,
        x@.container == x.container@,
        x@.port == text::opt_text(x.port),
        x@.command == text::texts(x.command@),
        x@.status == x.status,
        x@.published_private == x.published_private,
        x@.created_at == x.created_at,
        x@.updated_at == x.updated_at,
{
}

/// The model of a `Secret` holds each of its fields as it is.
pub proof fn law_model_of_secret(x: Secret)
    ensures
        x@.name == x.name@,
        x@.ciphertext == x.ciphertext@,
        x@.created_at == x.created_at,
        x@.updated_at == x.updated_at,
{
}

/// The model of an `Event` holds each of its fields as it is.
pub proof fn law_model_of_event(x: Event)
    ensures
        x@.id == x.id@,
        x@.kind == x.kind@,
        x@.payload == x.payload@,
        x@.created_at == x.created_at,
{
}

/// The model of a `MeshSnapshot` holds each of its fields as it is.
pub proof fn law_model_of_mesh_snapshot(x: MeshSnapshot)
    ensures
        x@.mesh == model::opt_mesh(x.mesh),
        x@.nodes == model::shapes(x.nodes@),
        x@.services == model::shapes(x.services@),
        x@.secrets == model::shapes(x.secrets@),
        x@.events == model::shapes(x.events@),
{
}

/// The model of a `ViaPaths` holds each of its fields as it is.
pub proof fn law_model_of_via_paths(x: ViaPaths)
    ensures
        x@.root == x.root@,
        x@.lux == x.lux@,
        x@.logs == x.logs@,
        x@.bin == x.bin@,
        x@.mesh_key == x.mesh_key@,
        x@.hub_config == x.hub_config@,
        x@.auth_config == x.auth_config@,
        x@.iroh_key == x.iroh_key@,
{
}

/// The model of a `Step` holds each of its fields as it is.
pub proof fn law_model_of_step(x: Step)
    ensures
        x@.run == x.run@,
        x@.required == x.required,
{
}

/// The model of a `RpcEnvelope` holds each of its fields as it is.
pub proof fn law_model_of_rpc_envelope(x: RpcEnvelope)
    ensures
        x@.version == x.version,
        x@.timestamp_ms == x.timestamp_ms,
        x@.nonce == x.nonce@,
        x@.payload == x.payload@,
        x@.signature == x.signature@,
{
}

/// The model of a `DeployArgs` holds each of its fields as it is.
pub proof fn law_model_of_deploy_args(x: DeployArgs)
    ensures
        x@.target == x.target@,
        x@.to == x.to@,
        x@.name == x.name@,
        x@.port == text::opt_text(x.port),
        x@.route == x.route,
        x@.command == text::texts(x.command@),
{
}

/// The model of a `StoredRecords` holds each of its fields as it is.
pub proof fn law_model_of_stored_records(x: StoredRecords)
    ensures
        x@.mesh == model::opt_mesh(x.mesh),
        x@.local_node_id == text::opt_text(x.local_node_id),
        x@.nodes == model::shapes(x.nodes@),
        x@.services == model::shapes(x.services@),
        x@.secrets == model::shapes(x.secrets@),
        x@.events == model::shapes(x.events@),
{
}

/// The model of a `StoreCall` holds each of its fields as it is.
pub proof fn law_model_of_store_call(x: StoreCall)
    ensures
        x@.name == x.name@,
        x@.args == text::texts(x.args@),
{
}

/// The model of a `StoreStep` holds each of its fields as it is.
pub proof fn law_model_of_store_step(x: StoreStep)
    ensures
        x@.call == x.call@,
        x@.excused == text::opt_text(x.excused),
        x@.saved == x.saved,
{
}

/// The model of an `UpdateStep` holds each of its fields as it is.
pub proof fn law_model_of_update_step(x: UpdateStep)
    ensures
        x@.node == x.node@,
        x@.banner == x.banner@,
        x@.how == x.how@,
{
}

/// The model of an `UsageEvent` holds each of its fields as it is.
pub proof fn law_model_of_usage_event(x: UsageEvent)
    ensures
        x@.account_id == x.account_id@,
        x@.mesh_id == x.mesh_id@,
        x@.node_id == x.node_id@,
        x@.event_type == x.event_type@,
        x@.timestamp == x.timestamp,
{
}

/// Several texts, pairs of texts, records, programs and steps are modelled one by one, in
/// order, and what is not there as not there.
pub proof fn law_models_of_many(
    t: Seq<String>,
    p: Seq<(String, String)>,
    n: Seq<Node>,
    r: Seq<Run>,
    s: Seq<Step>,
    i: int,
)
    ensures
        text::texts(t).len() == t.len(),
        0 <= i < t.len() ==> text::texts(t)[i] == t[i]@,
        urls::pairs_view(p).len() == p.len(),
        0 <= i < p.len() ==> urls::pairs_view(p)[i] == (p[i].0@, p[i].1@),
        model::shapes(n).len() == n.len(),
        0 <= i < n.len() ==> model::shapes(n)[i] == n[i]@,
        process::runs(r).len() == r.len(),
        0 <= i < r.len() ==> process::runs(r)[i] == r[i]@,
        process::steps(s).len() == s.len(),
        0 <= i < s.len() ==> process::steps(s)[i] == s[i]@,
        text::opt_text(None) is None,
        0 <= i < t.len() ==> text::opt_text(Some(t[i])) == Some(t[i]@),
{
}

/// Services, secrets and events are modelled one by one, in order.
pub proof fn law_models_of_records(s: Seq<Service>, c: Seq<Secret>, e: Seq<Event>, i: int)
    ensures
        model::shapes(s).len() == s.len(),
        0 <= i < s.len() ==> model::shapes(s)[i] == s[i]@,
        model::shapes(c).len() == c.len(),
        0 <= i < c.len() ==> model::shapes(c)[i] == c[i]@,
        model::shapes(e).len() == e.len(),
        0 <= i < e.len() ==> model::shapes(e)[i] == e[i]@,
{
}

/// The model of a program to run holds the program, each of its arguments, or the line.
pub proof fn law_model_of_run(program: String, args: Vec<String>, line: String)
    ensures
        (Run::Program { program, args })@ == (RunView::Program {
            program: program@,
            args: text::texts(args@),
        }),
        (Run::Shell(line))@ == RunView::Shell(line@),
{
}

/// The model of a request holds all that is asked.
pub proof fn law_model_of_request(q: RpcRequest)
    ensures
        q is Ping ==> q@ is Ping,
        q is NodeInfo ==> q@ is NodeInfo,
        q is ExportSnapshot ==> q@ is ExportSnapshot,
        q is DockerCheck ==> q@ is DockerCheck,
        q matches RpcRequest::ImportSnapshot { snapshot } ==> q@ == (RequestView::ImportSnapshot {
            snapshot: snapshot@,
        }),
        q matches RpcRequest::DeployImage { image, service, container, port, env, command } ==> q@
            == (RequestView::DeployImage {
            image: image@,
            service: service@,
            container: container@,
            port: text::opt_text(port),
            env: urls::pairs_view(env@),
            command: text::texts(command@),
        }),
        q matches RpcRequest::ContainerStatus { container } ==> q@ == (
        RequestView::ContainerStatus { container: container@ }),
        q matches RpcRequest::Logs { container, follow } ==> q@ == (RequestView::Logs {
            container: container@,
            follow,
        }),
        q matches RpcRequest::Exec { command } ==> q@ == (RequestView::Exec {
            command: text::texts(command@),
        }),
        q matches RpcRequest::Stop { container } ==> q@ == (RequestView::Stop {
            container: container@,
        }),
        q matches RpcRequest::Restart { container } ==> q@ == (RequestView::Restart {
            container: container@,
        }),
        q matches RpcRequest::Remove { container } ==> q@ == (RequestView::Remove {
            container: container@,
        }),
{
}

/// Steps of the store, rows, replies and nodes of a hub are modelled one by one, in order.
pub proof fn law_models_of_what_the_hub_handles(
    s: Seq<StoreStep>,
    r: Seq<StoreRow>,
    w: Seq<Vec<String>>,
    h: Seq<HubNode>,
    u: Seq<UsageEvent>,
    o: Seq<Option<String>>,
    i: int,
)
    ensures
        store::store_steps(s).len() == s.len(),
        0 <= i < s.len() ==> store::store_steps(s)[i] == s[i]@,
        store::rows_view(r).len() == r.len(),
        0 <= i < r.len() ==> store::rows_view(r)[i] == r[i]@,
        store::words_view(w).len() == w.len(),
        0 <= i < w.len() ==> store::words_view(w)[i] == text::texts(w[i]@),
        hub::hub_nodes(h).len() == h.len(),
        0 <= i < h.len() ==> hub::hub_nodes(h)[i] == h[i]@,
        usage::usage_views(u).len() == u.len(),
        0 <= i < u.len() ==> usage::usage_views(u)[i] == u[i]@,
        store::replies_view(o).len() == o.len(),
        0 <= i < o.len() ==> store::replies_view(o)[i] == text::opt_text(o[i]),
{
}

/// Probes, questions, steps of an update and changes of the store are modelled one by one, in
/// order.
pub proof fn law_models_of_what_a_node_handles(
    p: Seq<Probe>,
    q: Seq<(Service, ServiceStep)>,
    u: Seq<UpdateStep>,
    d: Seq<Result<(), String>>,
    w: Seq<StoreWrite>,
    i: int,
)
    ensures
        commands::probes(p).len() == p.len(),
        0 <= i < p.len() ==> commands::probes(p)[i] == p[i]@,
        services::queries_view(q).len() == q.len(),
        0 <= i < q.len() ==> services::queries_view(q)[i] == (q[i].0@, q[i].1@),
        updates::steps_view(u).len() == u.len(),
        0 <= i < u.len() ==> updates::steps_view(u)[i] == u[i]@,
        updates::endings(d).len() == d.len(),
        0 <= i < d.len() ==> updates::endings(d)[i] == text::unit_outcome(d[i]),
        state::writes(w).len() == w.len(),
        0 <= i < w.len() ==> state::writes(w)[i] == w[i]@,
{
}

/// The model of a change of the store holds what is changed, and where.
pub proof fn law_model_of_write(w: StoreWrite)
    ensures
        w matches StoreWrite::Put { key, value } ==> w@ == (WriteView::Put {
            key: key@,
            value: value@,
        }),
        w matches StoreWrite::Delete { key } ==> w@ == (WriteView::Delete { key: key@ }),
        w matches StoreWrite::InsertEventRow(e) ==> w@ == WriteView::InsertEventRow(e@),
        w matches StoreWrite::DeleteEventRow(id) ==> w@ == WriteView::DeleteEventRow(id@),
        w is Save ==> w@ is Save,
        w is Close ==> w@ is Close,
        w is CreateEventTable ==> w@ is CreateEventTable,
{
}

/// The model of a stored value holds the value.
pub proof fn law_model_of_stored(v: Stored)
    ensures
        v matches Stored::Mesh(m) ==> v@ == StoredView::Mesh(m@),
        v matches Stored::Text(s) ==> v@ == StoredView::Text(s@),
        v matches Stored::Names(n) ==> v@ == StoredView::Names(text::texts(n@)),
        v matches Stored::Node(n) ==> v@ == StoredView::Node(n@),
        v matches Stored::Service(s) ==> v@ == StoredView::Service(s@),
        v matches Stored::Secret(s) ==> v@ == StoredView::Secret(s@),
        v matches Stored::Event(e) ==> v@ == StoredView::Event(e@),
{
}

/// The model of a step for a service, of an update and of a move holds what is done, and where.
pub proof fn law_models_of_what_is_done(
    run: Run,
    node: Node,
    request: RpcRequest,
    command: Vec<String>,
    src: String,
    dst: String,
)
    ensures
        (ServiceStep::Run(run))@ == ServiceStepView::Run(run@),
        (ServiceStep::Call { node, request })@ == (ServiceStepView::Call {
            node: node@,
            request: request@,
        }),
        (UpdateHow::Here(command))@ == UpdateHowView::Here(text::texts(command@)),
        (UpdateHow::Ask { node, request })@ == (UpdateHowView::Ask {
            node: node@,
            request: request@,
        }),
        (Carry::Copy { src, dst })@ == (CarryView::Copy { src: src@, dst: dst@ }),
        (Carry::Scp { src, dst })@ == (CarryView::Scp { src: src@, dst: dst@ }),
        (Carry::Ask { node, request })@ == (CarryView::Ask { node: node@, request: request@ }),
{
}

} // verus!
