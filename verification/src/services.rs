//! Commands about services.

use crate::cli::RouteMode;
use crate::clock;
use crate::clock::local_offset;
use crate::commands;
use crate::daemon;
use crate::daemon::Work;
use crate::docker;
use crate::docker::{
    deploy_image, deploy_path, is_local, local_container_status, local_remove, local_restart,
    local_stop, Deployment,
};
use crate::event;
use crate::ids;
use crate::model;
use crate::model::{
    Event, EventView, Node, NodeView, SecretView, Service, ServiceStatus, ServiceView,
};
use crate::process;
use crate::process::{program2, program3, Run, RunView};
use crate::routes;
use crate::rpc::{RequestView, RpcRequest};
use crate::security;
use crate::security::decrypt_string;
use crate::state;
use crate::state::{StateView, ViaState};
use crate::table;
use crate::text;
use crate::text::{copy_opt, copy_texts, pad, rsplit_once_char, same, until_char};
use crate::urls;
use crate::util;
use crate::util::{format_ts_at, normalize_slug};
use vstd::prelude::*;

verus! {

/// What is asked of the container of a service.
#[derive(Debug, Clone, Copy, PartialEq, Eq, Structural)]
pub enum ServiceVerb {
    Logs { follow: bool },
    Status,
    Stop,
    Restart,
    Remove,
}

/// How it is asked: by running a program here, or by calling the node that the
/// container is on.
#[derive(Debug)]
pub enum ServiceStep {
    Run(Run),
    Call { node: Node, request: RpcRequest },
}

#[verifier::ext_equal]
pub enum ServiceStepView {
    Run(RunView),
    Call { node: NodeView, request: RequestView },
}

impl View for ServiceStep {
    type V = ServiceStepView;

    open spec fn view(&self) -> ServiceStepView {
        match self {
            ServiceStep::Run(run) => ServiceStepView::Run(run@),
            ServiceStep::Call { node, request } => ServiceStepView::Call {
                node: node@,
                request: request@,
            },
        }
    }
}

/// The program that asks something of a container here.
pub open spec fn verb_run(verb: ServiceVerb, container: Seq<char>) -> RunView {
    RunView::Program {
        program: "docker"@,
        args: match verb {
            ServiceVerb::Logs { follow } => if follow {
                seq!["logs"@, "-f"@, container]
            } else {
                seq!["logs"@, container]
            },
            ServiceVerb::Status => seq!["inspect"@, "-f"@, "{{.State.Status}}"@, container],
            ServiceVerb::Stop => seq!["stop"@, container],
            ServiceVerb::Restart => seq!["restart"@, container],
            ServiceVerb::Remove => seq!["rm"@, "-f"@, container],
        },
    }
}

/// The request that asks something of a container on another node.
pub open spec fn verb_request(verb: ServiceVerb, container: Seq<char>) -> RequestView {
    match verb {
        ServiceVerb::Logs { follow } => RequestView::Logs { container, follow },
        ServiceVerb::Status => RequestView::ContainerStatus { container },
        ServiceVerb::Stop => RequestView::Stop { container },
        ServiceVerb::Restart => RequestView::Restart { container },
        ServiceVerb::Remove => RequestView::Remove { container },
    }
}

/// How something is asked of a service on the node `node`, which is this machine if
/// `here` says so.
pub open spec fn step_for(
    verb: ServiceVerb,
    service: ServiceView,
    node: NodeView,
    here: bool,
) -> ServiceStepView {
    if here {
        ServiceStepView::Run(verb_run(verb, service.container))
    } else {
        ServiceStepView::Call { node, request: verb_request(verb, service.container) }
    }
}

fn ask_here(verb: ServiceVerb, container: &str) -> (r: Run)
    ensures
        r@ == verb_run(verb, container@),
{
    match verb {
        ServiceVerb::Logs { follow } => if follow {
            program3("docker", "logs", "-f", container)
        } else {
            program2("docker", "logs", container)
        },
        ServiceVerb::Status => local_container_status(container),
        ServiceVerb::Stop => local_stop(container),
        ServiceVerb::Restart => local_restart(container),
        ServiceVerb::Remove => local_remove(container),
    }
}

fn ask_there(verb: ServiceVerb, container: &str) -> (r: RpcRequest)
    ensures
        r@ == verb_request(verb, container@),
{
    let container = container.to_owned();
    match verb {
        ServiceVerb::Logs { follow } => RpcRequest::Logs { container, follow },
        ServiceVerb::Status => RpcRequest::ContainerStatus { container },
        ServiceVerb::Stop => RpcRequest::Stop { container },
        ServiceVerb::Restart => RpcRequest::Restart { container },
        ServiceVerb::Remove => RpcRequest::Remove { container },
    }
}

fn ask(verb: ServiceVerb, service: &Service, node: Node, here: bool) -> (r: ServiceStep)
    ensures
        r@ == step_for(verb, service@, node@, here),
{
    if here {
        ServiceStep::Run(ask_here(verb, service.container.as_str()))
    } else {
        ServiceStep::Call { node, request: ask_there(verb, service.container.as_str()) }
    }
}

/// The program that is run on a node for what another node asked.
pub open spec fn run_for(w: Work) -> Option<RunView> {
    match w {
        Work::Logs { container, run } => Some(run@),
        Work::Status { container, run } => Some(run@),
        Work::Act { run, persist } => Some(run@),
        _ => None,
    }
}

/// What is asked of a container is done by the same program wherever the container is: the
/// one that is run where the service is here is the one that another node runs when it is
/// asked. Only logs are not followed on another node.
pub proof fn law_asking_there_does_what_is_done_here(
    verb: ServiceVerb,
    service: ServiceView,
    node: NodeView,
    w: Work,
    far: StateView,
    now: i64,
)
    requires
        verb != (ServiceVerb::Logs { follow: true }),
        daemon::is_work_for(
            w,
            far,
            step_for(verb, service, node, false)->Call_request,
            now,
        ),
    ensures
        step_for(verb, service, node, false) is Call,
        step_for(verb, service, node, false)->Call_node == node,
        step_for(verb, service, node, true) is Run,
        run_for(w) == Some(step_for(verb, service, node, true)->Run_0),
{
}

/// What is run for a container names the container, and does what its verb says.
pub proof fn law_verbs_do_what_they_say(verb: ServiceVerb, service: ServiceView, node: NodeView)
    ensures
        ({
            let run = step_for(verb, service, node, true)->Run_0;
            let args = run->Program_args;
            &&& step_for(verb, service, node, true) is Run
            &&& run is Program
            &&& run->Program_program == "docker"@
            &&& args.last() == service.container
            &&& verb is Remove ==> args.drop_last() == seq!["rm"@, "-f"@]
            &&& verb is Stop ==> args.drop_last() == seq!["stop"@]
            &&& verb is Restart ==> args.drop_last() == seq!["restart"@]
            &&& verb is Status ==> args.drop_last() == seq![
                "inspect"@,
                "-f"@,
                "{{.State.Status}}"@,
            ]
            &&& verb is Logs ==> args.drop_last() == (if verb->follow {
                seq!["logs"@, "-f"@]
            } else {
                seq!["logs"@]
            })
        }),
{
}

// ---------------------------------------------------------------------------
// The node of a service.

/// The node of a service, or what is said if it is not known.
pub open spec fn host_outcome(st: StateView, service: ServiceView) -> Result<
    NodeView,
    Seq<char>,
> {
    match state::node_with_id(st.nodes, service.node_id) {
        Some(n) => Ok(n),
        None => Err("service node '"@ + service.node_slug + "' is missing"@),
    }
}

/// A service as it is reached on its node.
pub open spec fn placed(service: ServiceView, node: NodeView) -> ServiceView {
    ServiceView { node_addr: node.daemon_addr, ..service }
}

/// The node of a service.
pub fn service_node(state: &ViaState, service: &Service) -> (r: Result<Node, String>)
    ensures
        match r {
            Ok(n) => host_outcome(state@, service@) == Ok::<NodeView, Seq<char>>(n@),
            Err(e) => host_outcome(state@, service@) == Err::<NodeView, Seq<char>>(e@),
        },
{
    match state.node_by_id(service.node_id.as_str()) {
        Some(n) => Ok(n),
        None => Err(
            "service node '".to_owned().concat(service.node_slug.as_str()).concat("' is missing"),
        ),
    }
}

/// A service with the address that its node has now.
pub fn resolve_service_node_addr(state: &ViaState, service: Service) -> (r: Result<
    Service,
    String,
>)
    ensures
        match r {
            Ok(s) => host_outcome(state@, service@) is Ok && s@ == placed(
                service@,
                host_outcome(state@, service@)->Ok_0,
            ),
            Err(e) => host_outcome(state@, service@) == Err::<NodeView, Seq<char>>(e@),
        },
{
    match service_node(state, &service) {
        Err(e) => Err(e),
        Ok(n) => {
            let mut service = service;
            service.node_addr = n.daemon_addr;
            Ok(service)
        },
    }
}

/// The service that someone named, its node, and whether that is this machine; or
/// what is said of it.
pub open spec fn target_outcome(st: StateView, name: Seq<char>) -> Result<
    (ServiceView, NodeView, bool),
    Seq<char>,
> {
    match table::find(st.services, name) {
        None => Err("unknown service"@),
        Some(s) => match state::local(st) {
            Err(e) => Err(e),
            Ok(own) => match host_outcome(st, s) {
                Err(e) => Err(e),
                Ok(n) => Ok((placed(s, n), n, own.id == s.node_id)),
            },
        },
    }
}

/// That `r` says how something is asked of the service that someone named.
pub open spec fn is_ask(
    r: Result<(Service, ServiceStep), String>,
    st: StateView,
    name: Seq<char>,
    verb: ServiceVerb,
) -> bool {
    match target_outcome(st, name) {
        Err(e) => r is Err && r->Err_0@ == e,
        Ok(t) => r is Ok && r->Ok_0.0@ == t.0 && r->Ok_0.1@ == step_for(verb, t.0, t.1, t.2),
    }
}

fn ask_service(state: &ViaState, name: &str, verb: ServiceVerb) -> (r: Result<
    (Service, ServiceStep),
    String,
>)
    ensures
        is_ask(r, state@, name@, verb),
{
    let service = match state.service_by_name(name) {
        Some(s) => s,
        None => return Err("unknown service".to_owned()),
    };
    let own = match state.local_node() {
        Ok(n) => n,
        Err(e) => return Err(e),
    };
    let here = same(own.id.as_str(), service.node_id.as_str());
    let node = match service_node(state, &service) {
        Ok(n) => n,
        Err(e) => return Err(e),
    };
    let service = match resolve_service_node_addr(state, service) {
        Ok(s) => s,
        Err(e) => return Err(e),
    };
    let step = ask(verb, &service, node, here);
    Ok((service, step))
}

// ---------------------------------------------------------------------------
// Stopping, restarting and removing.

/// Finds out how a service is stopped.
pub fn stop(state: &ViaState, name: &str) -> (r: Result<(Service, ServiceStep), String>)
    ensures
        is_ask(r, state@, name@, ServiceVerb::Stop),
{
    ask_service(state, name, ServiceVerb::Stop)
}

/// Finds out how a service is restarted.
pub fn restart(state: &ViaState, name: &str) -> (r: Result<(Service, ServiceStep), String>)
    ensures
        is_ask(r, state@, name@, ServiceVerb::Restart),
{
    ask_service(state, name, ServiceVerb::Restart)
}

/// Finds out how a service is removed.
pub fn rm(state: &ViaState, name: &str) -> (r: Result<(Service, ServiceStep), String>)
    ensures
        is_ask(r, state@, name@, ServiceVerb::Remove),
{
    ask_service(state, name, ServiceVerb::Remove)
}

/// A service that has another status since `now`.
pub open spec fn turned(s: ServiceView, status: ServiceStatus, now: i64) -> ServiceView {
    ServiceView { status, updated_at: now, ..s }
}

/// Keeps that a service was stopped. Returns what is shown.
pub fn stopped(state: &mut ViaState, service: Service, now: i64) -> (r: String)
    requires
        old(state).wf(),
    ensures
        final(state).wf(),
        commands::was_recorded(
            state::with_service(
                old(state)@,
                turned(service@, ServiceStatus::Stopped, now),
            ),
            final(state)@,
            "service.stopped"@,
            model::service_payload(turned(service@, ServiceStatus::Stopped, now)),
            now,
        ),
        r@ == "Stopped service '"@ + service@.name + "'."@,
{
    let mut service = service;
    service.status = ServiceStatus::Stopped;
    service.updated_at = now;
    state.upsert_service(&service);
    state.append_event("service.stopped", service.payload(), now);
    "Stopped service '".to_owned().concat(service.name.as_str()).concat("'.")
}

/// Keeps that a service was restarted. Returns what is shown.
pub fn restarted(state: &mut ViaState, service: Service, now: i64) -> (r: String)
    requires
        old(state).wf(),
    ensures
        final(state).wf(),
        commands::was_recorded(
            state::with_service(
                old(state)@,
                turned(service@, ServiceStatus::Running, now),
            ),
            final(state)@,
            "service.started"@,
            model::service_payload(turned(service@, ServiceStatus::Running, now)),
            now,
        ),
        r@ == "Restarted service '"@ + service@.name + "'."@,
{
    let mut service = service;
    service.status = ServiceStatus::Running;
    service.updated_at = now;
    state.upsert_service(&service);
    state.append_event("service.started", service.payload(), now);
    "Restarted service '".to_owned().concat(service.name.as_str()).concat("'.")
}

/// Forgets a service that was removed. Returns what is shown.
pub fn removed(state: &mut ViaState, service: Service, now: i64) -> (r: String)
    requires
        old(state).wf(),
    ensures
        final(state).wf(),
        commands::was_recorded_and_saved(
            state::without_service(old(state)@, service@.name),
            final(state)@,
            "service.removed"@,
            model::service_payload(service@),
            now,
        ),
        r@ == "Removed service '"@ + service@.name + "'."@,
{
    state.delete_service(service.name.as_str());
    state.append_event("service.removed", service.payload(), now);
    state.persist();
    "Removed service '".to_owned().concat(service.name.as_str()).concat("'.")
}

/// A service that was stopped is found stopped, one that was restarted is found
/// running, and one that was removed is found no more.
pub proof fn law_service_commands_take_effect(st: StateView, s: ServiceView, now: i64)
    requires
        state::well_formed(st),
    ensures
        table::find(
            state::with_service(st, turned(s, ServiceStatus::Stopped, now)).services,
            s.name,
        ) == Some(turned(s, ServiceStatus::Stopped, now)),
        table::find(
            state::with_service(st, turned(s, ServiceStatus::Running, now)).services,
            s.name,
        ) == Some(turned(s, ServiceStatus::Running, now)),
        table::find(state::without_service(st, s.name).services, s.name) is None,
{
    table::lemma_find_put(st.services, turned(s, ServiceStatus::Stopped, now), s.name);
    table::lemma_find_put(st.services, turned(s, ServiceStatus::Running, now), s.name);
    table::lemma_find_dropped(st.services, s.name, s.name);
}

// ---------------------------------------------------------------------------
// Listing.

/// A question for the status of a service, with the service.
pub open spec fn status_query(st: StateView, s: ServiceView) -> Result<
    (ServiceView, ServiceStepView),
    Seq<char>,
> {
    match host_outcome(st, s) {
        Err(e) => Err(e),
        Ok(n) => match state::local(st) {
            Err(e) => Err(e),
            Ok(own) => Ok(
                (
                    placed(s, n),
                    step_for(ServiceVerb::Status, placed(s, n), n, own.id == s.node_id),
                ),
            ),
        },
    }
}

/// The questions for the statuses of services up to the first that cannot be asked,
/// and what is said of that one.
pub open spec fn status_queries(st: StateView, services: Seq<ServiceView>) -> (
    Seq<(ServiceView, ServiceStepView)>,
    Option<Seq<char>>,
)
    decreases services.len(),
{
    if services.len() == 0 {
        (Seq::empty(), None)
    } else {
        match status_query(st, services[0]) {
            Err(e) => (Seq::empty(), Some(e)),
            Ok(q) => {
                let rest = status_queries(st, services.skip(1));
                (seq![q] + rest.0, rest.1)
            },
        }
    }
}

/// What is to be asked to list the services: what is shown first, the questions, and
/// what is said after the last of them if not all can be asked.
#[derive(Debug)]
pub struct PsPlan {
    pub first: String,
    pub queries: Vec<(Service, ServiceStep)>,
    pub failed: Option<String>,
}

/// The contents of questions.
pub open spec fn queries_view(v: Seq<(Service, ServiceStep)>) -> Seq<
    (ServiceView, ServiceStepView),
> {
    v.map_values(|q: (Service, ServiceStep)| (q.0@, q.1@))
}

/// The first line of the list of services with what they do.
pub open spec fn ps_head() -> Seq<char> {
    text::padded("NAME"@, 18) + " "@ + text::padded("NODE"@, 18) + " "@ + text::padded(
        "ACTUAL"@,
        12,
    ) + " "@ + text::padded("PORT"@, 16) + " TARGET"@
}

fn query_status(state: &ViaState, service: Service) -> (r: Result<
    (Service, ServiceStep),
    String,
>)
    ensures
        match r {
            Ok(q) => status_query(state@, service@) == Ok::<
                (ServiceView, ServiceStepView),
                Seq<char>,
            >((q.0@, q.1@)),
            Err(e) => status_query(state@, service@) == Err::<
                (ServiceView, ServiceStepView),
                Seq<char>,
            >(e@),
        },
{
    let node = match service_node(state, &service) {
        Ok(n) => n,
        Err(e) => return Err(e),
    };
    let service = match resolve_service_node_addr(state, service) {
        Ok(s) => s,
        Err(e) => return Err(e),
    };
    let own = match state.local_node() {
        Ok(n) => n,
        Err(e) => return Err(e),
    };
    let here = same(own.id.as_str(), service.node_id.as_str());
    let step = ask(ServiceVerb::Status, &service, node, here);
    Ok((service, step))
}

/// Finds out what is to be asked to list the services with what they do.
pub fn ps(state: &ViaState) -> (r: PsPlan)
    ensures
        r.first@ == (if state@.services.len() == 0 {
            "No services."@
        } else {
            ps_head()
        }),
        queries_view(r.queries@) == status_queries(state@, state@.services).0,
        text::opt_text(r.failed) == status_queries(state@, state@.services).1,
{
    let services = state.services();
    let ghost all = state@.services;
    let mut queries: Vec<(Service, ServiceStep)> = Vec::new();
    if services.len() == 0 {
        proof {
            assert(queries_view(queries@) =~= Seq::empty());
        }
        return PsPlan { first: "No services.".to_owned(), queries, failed: None };
    }
    let first = pad("NAME", 18).concat(" ").concat(pad("NODE", 18).as_str()).concat(" ").concat(
        pad("ACTUAL", 12).as_str(),
    ).concat(" ").concat(pad("PORT", 16).as_str()).concat(" TARGET");
    let mut i: usize = 0;
    proof {
        assert(all.skip(0) == all);
        assert(queries_view(queries@) + status_queries(state@, all).0 =~= status_queries(
            state@,
            all,
        ).0);
    }
    while i < services.len()
        invariant
            i <= services.len(),
            all == state@.services,
            all == model::shapes(services@),
            all.len() > 0,
            first@ == ps_head(),
            queries_view(queries@) + status_queries(state@, all.skip(i as int)).0
                == status_queries(state@, all).0,
            status_queries(state@, all.skip(i as int)).1 == status_queries(state@, all).1,
        decreases services.len() - i,
    {
        let ghost rest = all.skip(i as int);
        proof {
            assert(rest[0] == services@[i as int]@);
            assert(rest.skip(1) =~= all.skip(i + 1));
        }
        match query_status(state, services[i].clone()) {
            Err(e) => {
                proof {
                    assert(queries_view(queries@) + Seq::empty() =~= queries_view(queries@));
                }
                return PsPlan { first, queries, failed: Some(e) };
            },
            Ok(q) => {
                let ghost before = queries@;
                let ghost view = (q.0@, q.1@);
                queries.push(q);
                proof {
                    let tail = status_queries(state@, all.skip(i + 1)).0;
                    assert(queries_view(queries@) =~= queries_view(before).push(view));
                    assert(queries_view(before) + (seq![view] + tail) =~= queries_view(queries@)
                        + tail);
                }
            },
        }
        i += 1;
    }
    proof {
        assert(all.skip(all.len() as int) =~= Seq::empty());
        assert(queries_view(queries@) + Seq::empty() =~= queries_view(queries@));
    }
    PsPlan { first, queries, failed: None }
}

/// The line about a service and what it does; `actual` is what its node said of it,
/// if it did.
pub fn ps_line(service: &Service, actual: Option<&str>) -> (r: String)
    ensures
        r@ == text::padded(service@.name, 18) + " "@ + text::padded(service@.node_slug, 18) + " "@
            + text::padded(
            match text::opt_str(actual) {
                Some(a) => a,
                None => "unknown"@,
            },
            12,
        ) + " "@ + text::padded(
            match service@.port {
                Some(p) => p,
                None => "-"@,
            },
            16,
        ) + " "@ + service@.target,
{
    let actual = match actual {
        Some(a) => a,
        None => "unknown",
    };
    let port = match &service.port {
        Some(p) => p.as_str(),
        None => "-",
    };
    pad(service.name.as_str(), 18).concat(" ").concat(
        pad(service.node_slug.as_str(), 18).as_str(),
    ).concat(" ").concat(pad(actual, 12).as_str()).concat(" ").concat(
        pad(port, 16).as_str(),
    ).concat(" ").concat(service.target.as_str())
}

/// The line about a service and the status that is kept for it.
pub open spec fn service_line(s: ServiceView) -> Seq<char> {
    text::padded(s.name, 18) + " "@ + text::padded(s.node_slug, 18) + " "@ + text::padded(
        model::status_word(s.status),
        10,
    ) + " "@ + s.target
}

/// The lines about services.
pub open spec fn service_lines(services: Seq<ServiceView>) -> Seq<Seq<char>> {
    if services.len() == 0 {
        seq!["No services."@]
    } else {
        seq![
            text::padded("NAME"@, 18) + " "@ + text::padded("NODE"@, 18) + " "@ + text::padded(
                "STATUS"@,
                10,
            ) + " TARGET"@,
        ] + services.map_values(|s: ServiceView| service_line(s))
    }
}

/// What is shown of the services.
pub fn services(state: &ViaState) -> (r: Vec<String>)
    ensures
        text::texts(r@) == service_lines(state@.services),
{
    let services = state.services();
    let ghost all = state@.services;
    if services.len() == 0 {
        let lines = vec!["No services.".to_owned()];
        proof {
            assert(text::texts(lines@) =~= seq!["No services."@]);
        }
        return lines;
    }
    let mut lines = vec![
        pad("NAME", 18).concat(" ").concat(pad("NODE", 18).as_str()).concat(" ").concat(
            pad("STATUS", 10).as_str(),
        ).concat(" TARGET"),
    ];
    let ghost head = seq![
        text::padded("NAME"@, 18) + " "@ + text::padded("NODE"@, 18) + " "@ + text::padded(
            "STATUS"@,
            10,
        ) + " TARGET"@,
    ];
    let ghost rest = all.map_values(|s: ServiceView| service_line(s));
    proof {
        assert(text::texts(lines@) =~= head + rest.take(0));
    }
    let mut i: usize = 0;
    while i < services.len()
        invariant
            i <= services.len(),
            all == model::shapes(services@),
            rest == all.map_values(|s: ServiceView| service_line(s)),
            text::texts(lines@) == head + rest.take(i as int),
        decreases services.len() - i,
    {
        let service = &services[i];
        let line = pad(service.name.as_str(), 18).concat(" ").concat(
            pad(service.node_slug.as_str(), 18).as_str(),
        ).concat(" ").concat(pad(service.status.as_str(), 10).as_str()).concat(" ").concat(
            service.target.as_str(),
        );
        let ghost before = lines@;
        lines.push(line);
        proof {
            assert(all[i as int] == service@);
            assert(rest[i as int] == line@);
            assert(text::texts(lines@) =~= text::texts(before).push(line@));
            assert(rest.take(i + 1) =~= rest.take(i as int).push(line@));
            assert(head + rest.take(i + 1) =~= (head + rest.take(i as int)).push(line@));
        }
        i += 1;
    }
    proof {
        assert(rest.take(rest.len() as int) == rest);
    }
    lines
}

/// What is shown of one service.
pub open spec fn status_lines(s: ServiceView) -> Seq<Seq<char>> {
    let head = seq![
        "name: "@ + s.name,
        "node: "@ + s.node_slug,
        "status: "@ + model::status_word(s.status),
        "target: "@ + s.target,
        "container: "@ + s.container,
    ];
    let port = match s.port {
        Some(p) => head.push("port: "@ + p),
        None => head,
    };
    port.push(
        if s.published_private {
            "private: true"@
        } else {
            "private: false"@
        },
    )
}

/// What is shown of one service.
pub fn status(state: &ViaState, name: &str) -> (r: Result<Vec<String>, String>)
    ensures
        match table::find(state@.services, name@) {
            None => r is Err && r->Err_0@ == "unknown service"@,
            Some(s) => r is Ok && text::texts(r->Ok_0@) == status_lines(s),
        },
{
    let service = match state.service_by_name(name) {
        Some(s) => s,
        None => return Err("unknown service".to_owned()),
    };
    let ghost s = service@;
    let mut lines = vec![
        "name: ".to_owned().concat(service.name.as_str()),
        "node: ".to_owned().concat(service.node_slug.as_str()),
        "status: ".to_owned().concat(service.status.as_str()),
        "target: ".to_owned().concat(service.target.as_str()),
        "container: ".to_owned().concat(service.container.as_str()),
    ];
    let ghost head = seq![
        "name: "@ + s.name,
        "node: "@ + s.node_slug,
        "status: "@ + model::status_word(s.status),
        "target: "@ + s.target,
        "container: "@ + s.container,
    ];
    proof {
        assert(text::texts(lines@) =~= head);
    }
    if let Some(port) = &service.port {
        let ghost before = lines@;
        lines.push("port: ".to_owned().concat(port.as_str()));
        proof {
            assert(text::texts(lines@) =~= text::texts(before).push("port: "@ + port@));
        }
    }
    let ghost before = lines@;
    let private = if service.published_private {
        "private: true"
    } else {
        "private: false"
    };
    lines.push(private.to_owned());
    proof {
        assert(text::texts(lines@) =~= text::texts(before).push(private@));
    }
    Ok(lines)
}

// ---------------------------------------------------------------------------
// Logs.

/// What is shown of what happened in the mesh: the first line, and the events.
#[derive(Debug)]
pub struct EventLog {
    pub first: String,
    pub events: Vec<Event>,
}

/// What is shown of what happened in the mesh, the newest first.
pub fn event_log(state: &ViaState, follow: bool, limit: usize) -> (r: Result<EventLog, String>)
    requires
        state.wf(),
    ensures
        if follow {
            r is Err && r->Err_0@ == "system log follow is not supported; omit --follow"@
        } else {
            r is Ok && model::shapes(r->Ok_0.events@) == event::newest(
                state@.events,
                limit as int,
            ) && r->Ok_0.first@ == (if r->Ok_0.events@.len() == 0 {
                "No Via events."@
            } else {
                text::padded("TIME"@, 25) + " "@ + text::padded("KIND"@, 26) + " PAYLOAD"@
            })
        },
{
    if follow {
        return Err("system log follow is not supported; omit --follow".to_owned());
    }
    let events = state.events(limit);
    let first = if events.len() == 0 {
        "No Via events.".to_owned()
    } else {
        pad("TIME", 25).concat(" ").concat(pad("KIND", 26).as_str()).concat(" PAYLOAD")
    };
    Ok(EventLog { first, events })
}

/// The line about an event, where `time` is what is shown for its time and
/// `payload` the text of its payload.
pub open spec fn event_line_of(e: EventView, time: Seq<char>, payload: Seq<char>) -> Seq<char> {
    text::padded(time, 25) + " "@ + text::padded(e.kind, 26) + " "@ + payload
}

/// The line about an event in a time zone `offset` seconds from UTC.
pub fn event_line_at(event: &Event, offset: i32, payload: &str) -> (r: String)
    ensures
        r@ == event_line_of(
            event@,
            util::time_text(
                event@.created_at,
                clock::time_shown(event@.created_at, offset, util::DISPLAY_TIME_FORMAT@),
            ),
            payload@,
        ),
{
    pad(format_ts_at(event.created_at, offset).as_str(), 25).concat(" ").concat(
        pad(event.kind.as_str(), 26).as_str(),
    ).concat(" ").concat(payload)
}

/// The line about an event in the machine's time zone.
pub fn event_line(event: &Event, payload: &str) -> (r: String)
    ensures
        exists|offset: i32|
            -93_600 < offset < 93_600 && r@ == event_line_of(
                event@,
                util::time_text(
                    event@.created_at,
                    #[trigger] clock::time_shown(
                        event@.created_at,
                        offset,
                        util::DISPLAY_TIME_FORMAT@,
                    ),
                ),
                payload@,
            ),
{
    let offset: i32 = local_offset();
    event_line_at(event, offset, payload)
}

/// Finds out how the log of a service is shown.
pub fn logs(state: &ViaState, name: &str, follow: bool) -> (r: Result<
    (Service, ServiceStep),
    String,
>)
    ensures
        is_ask(r, state@, name@, ServiceVerb::Logs { follow }),
{
    ask_service(state, name, ServiceVerb::Logs { follow })
}

// ---------------------------------------------------------------------------
// Opening and publishing.

/// The part of a published port that is this machine's.
pub fn host_port(port: &str) -> (r: &str)
    ensures
        r@ == text::until(port@, ':'),
{
    until_char(port, ':')
}

/// The address at which a service is opened, or what is said of it.
pub open spec fn open_outcome(st: StateView, name: Seq<char>) -> Result<Seq<char>, Seq<char>> {
    match table::find(st.services, name) {
        None => Err("unknown service"@),
        Some(s) => match s.port {
            None => Err("service '"@ + s.name + "' has no published port"@),
            Some(port) => match host_outcome(st, s) {
                Err(e) => Err(e),
                Ok(n) => match state::local(st) {
                    Err(e) => Err(e),
                    Ok(own) => Ok(
                        "http://"@ + (if own.id == n.id {
                            "127.0.0.1"@
                        } else {
                            match text::rsplit_once(n.daemon_addr, ':') {
                                Some(p) => p.0,
                                None => n.slug,
                            }
                        }) + ":"@ + text::until(port, ':'),
                    ),
                },
            },
        },
    }
}

/// The address at which a service is opened.
pub fn open(state: &ViaState, name: &str) -> (r: Result<String, String>)
    ensures
        text::text_outcome(r) == open_outcome(state@, name@),
{
    let service = match state.service_by_name(name) {
        Some(s) => s,
        None => return Err("unknown service".to_owned()),
    };
    let port = match &service.port {
        Some(p) => p.as_str(),
        None => return Err(
            "service '".to_owned().concat(service.name.as_str()).concat(
                "' has no published port",
            ),
        ),
    };
    let node = match service_node(state, &service) {
        Ok(n) => n,
        Err(e) => return Err(e),
    };
    let own = match state.local_node() {
        Ok(n) => n,
        Err(e) => return Err(e),
    };
    let host = if same(own.id.as_str(), node.id.as_str()) {
        "127.0.0.1"
    } else {
        match rsplit_once_char(node.daemon_addr.as_str(), ':') {
            Some(p) => p.0,
            None => node.slug.as_str(),
        }
    };
    Ok("http://".to_owned().concat(host).concat(":").concat(host_port(port)))
}

/// The service to publish, as it is then, or what is said of it.
pub open spec fn publish_outcome(
    st: StateView,
    name: Seq<char>,
    private: bool,
    now: i64,
) -> Result<ServiceView, Seq<char>> {
    if !private {
        Err("V1 only supports private publishing; pass --private"@)
    } else {
        match table::find(st.services, name) {
            None => Err("unknown service"@),
            Some(s) => Ok(ServiceView { published_private: true, updated_at: now, ..s }),
        }
    }
}

/// Publishes a service inside the mesh. Returns what is shown.
pub fn publish(state: &mut ViaState, name: &str, private: bool, now: i64) -> (r: Result<
    String,
    String,
>)
    requires
        old(state).wf(),
    ensures
        final(state).wf(),
        match publish_outcome(old(state)@, name@, private, now) {
            Err(e) => final(state)@ == old(state)@ && text::text_outcome(r) == Err::<
                Seq<char>,
                Seq<char>,
            >(e),
            Ok(s) => commands::was_recorded(
                state::with_service(old(state)@, s),
                final(state)@,
                "service.published_private"@,
                model::service_payload(s),
                now,
            ) && text::text_outcome(r) == Ok::<Seq<char>, Seq<char>>(
                "Published '"@ + s.name + "' privately inside the Via mesh."@,
            ),
        },
{
    if !private {
        return Err("V1 only supports private publishing; pass --private".to_owned());
    }
    let mut service = match state.service_by_name(name) {
        Some(s) => s,
        None => return Err("unknown service".to_owned()),
    };
    service.published_private = true;
    service.updated_at = now;
    state.upsert_service(&service);
    state.append_event("service.published_private", service.payload(), now);
    Ok(
        "Published '".to_owned().concat(service.name.as_str()).concat(
            "' privately inside the Via mesh.",
        ),
    )
}

// ---------------------------------------------------------------------------
// Deploying.

/// What is deployed, where, and how.
#[derive(Debug)]
pub struct DeployArgs {
    pub target: String,
    pub to: String,
    pub name: String,
    pub port: Option<String>,
    pub route: RouteMode,
    pub command: Vec<String>,
}

#[verifier::ext_equal]
pub struct DeployArgsView {
    pub target: Seq<char>,
    pub to: Seq<char>,
    pub name: Seq<char>,
    pub port: Option<Seq<char>>,
    pub route: RouteMode,
    pub command: Seq<Seq<char>>,
}

impl View for DeployArgs {
    type V = DeployArgsView;

    open spec fn view(&self) -> DeployArgsView {
        DeployArgsView {
            target: self.target@,
            to: self.to@,
            name: self.name@,
            port: text::opt_text(self.port),
            route: self.route,
            command: text::texts(self.command@),
        }
    }
}

/// The secrets in clear text, or what is said of the first that cannot be decrypted.
pub open spec fn secrets_outcome(key: Seq<u8>, secrets: Seq<SecretView>) -> Result<
    Seq<(Seq<char>, Seq<char>)>,
    Seq<char>,
>
    decreases secrets.len(),
{
    if secrets.len() == 0 {
        Ok(Seq::empty())
    } else {
        match secrets_outcome(key, secrets.drop_last()) {
            Err(e) => Err(e),
            Ok(env) => match security::decrypt_outcome(key, secrets.last().ciphertext) {
                Err(e) => Err(e),
                Ok(value) => Ok(env.push((secrets.last().name, value))),
            },
        }
    }
}

proof fn lemma_first_failure(key: Seq<u8>, secrets: Seq<SecretView>, n: int)
    requires
        0 <= n <= secrets.len(),
        secrets_outcome(key, secrets.take(n)) is Err,
    ensures
        secrets_outcome(key, secrets) == secrets_outcome(key, secrets.take(n)),
    decreases secrets.len() - n,
{
    if n == secrets.len() {
        assert(secrets.take(n) == secrets);
    } else {
        assert(secrets.take(n + 1).drop_last() == secrets.take(n));
        lemma_first_failure(key, secrets, n + 1);
    }
}

/// The secrets in clear text, by name.
pub fn decrypted_secrets(state: &ViaState, key: &Vec<u8>) -> (r: Result<
    Vec<(String, String)>,
    String,
>)
    ensures
        match r {
            Ok(env) => secrets_outcome(key@, state@.secrets) == Ok::<
                Seq<(Seq<char>, Seq<char>)>,
                Seq<char>,
            >(urls::pairs_view(env@)),
            Err(e) => secrets_outcome(key@, state@.secrets) == Err::<
                Seq<(Seq<char>, Seq<char>)>,
                Seq<char>,
            >(e@),
        },
{
    let secrets = state.secrets();
    let ghost all = state@.secrets;
    let mut env: Vec<(String, String)> = Vec::new();
    proof {
        assert(urls::pairs_view(env@) =~= Seq::empty());
        assert(all.take(0) =~= Seq::empty());
    }
    let mut i: usize = 0;
    while i < secrets.len()
        invariant
            i <= secrets.len(),
            all == state@.secrets,
            all == model::shapes(secrets@),
            secrets_outcome(key@, all.take(i as int)) == Ok::<
                Seq<(Seq<char>, Seq<char>)>,
                Seq<char>,
            >(urls::pairs_view(env@)),
        decreases secrets.len() - i,
    {
        proof {
            let next = all.take(i + 1);
            assert(next.drop_last() == all.take(i as int));
            assert(next.last() == secrets@[i as int]@);
        }
        match decrypt_string(key, secrets[i].ciphertext.as_str()) {
            Err(e) => {
                proof {
                    lemma_first_failure(key@, all, i + 1);
                }
                return Err(e);
            },
            Ok(value) => {
                let pair = (secrets[i].name.clone(), value);
                let ghost before = env@;
                env.push(pair);
                proof {
                    assert(urls::pairs_view(env@) =~= urls::pairs_view(before).push(
                        (pair.0@, pair.1@),
                    ));
                }
            },
        }
        i += 1;
    }
    proof {
        assert(all.take(all.len() as int) == all);
    }
    Ok(env)
}

/// How a service is deployed.
#[derive(Debug)]
pub enum DeployStep {
    /// By running programs here.
    Here { node: Node, deployment: Deployment },
    /// By asking the node.
    Ask { node: Node, request: RpcRequest },
}

/// What is known before something is deployed: the node, the name of the service and
/// its environment; or what is said.
pub open spec fn deploy_outcome(
    st: StateView,
    args: DeployArgsView,
    key: Result<Seq<u8>, Seq<char>>,
) -> Result<(NodeView, Seq<char>, Seq<(Seq<char>, Seq<char>)>), Seq<char>> {
    match table::find(st.nodes, args.to) {
        None => Err(routes::unknown_node(args.to)),
        Some(n) => match util::slug_outcome(args.name) {
            Err(e) => Err(e),
            Ok(name) => if table::find(st.services, name) is Some {
                Err("service '"@ + name + "' already exists"@)
            } else {
                match key {
                    Err(e) => Err(e),
                    Ok(k) => match secrets_outcome(k, st.secrets) {
                        Err(e) => Err(e),
                        Ok(env) => Ok((n, name, env)),
                    },
                }
            },
        },
    }
}

/// What is said of a directory that is to be built on another node.
pub open spec fn no_remote_build() -> Seq<char> {
    "remote path deploy over RPC is not supported; build and push an image, then deploy the image"@
}

/// The programs that deploy an image, or a directory, on this node.
pub open spec fn here_steps(
    node: NodeView,
    target: Seq<char>,
    path_exists: bool,
    container: Seq<char>,
    port: Option<Seq<char>>,
    env: Seq<(Seq<char>, Seq<char>)>,
    command: Seq<Seq<char>>,
) -> Seq<process::StepView> {
    if path_exists {
        docker::build_steps(true, Seq::empty(), target, container) + docker::image_steps(
            true,
            Seq::empty(),
            docker::built_image(container),
            container,
            port,
            env,
            command,
        )
    } else {
        docker::image_steps(true, Seq::empty(), target, container, port, env, command)
    }
}

/// That `r` is how a service is deployed, or what is said of it.
pub open spec fn is_deploy(
    r: Result<DeployStep, String>,
    st: StateView,
    args: DeployArgsView,
    key: Result<Seq<u8>, Seq<char>>,
    path_exists: bool,
    has_dockerfile: bool,
    now: i64,
) -> bool {
    match deploy_outcome(st, args, key) {
        Err(e) => r is Err && r->Err_0@ == e,
        Ok(p) => {
            let container = "via-"@ + p.1;
            if docker::runs_here(p.0) {
                if path_exists && !has_dockerfile {
                    r is Err && r->Err_0@ == "path deploy requires a Dockerfile"@
                } else {
                    r matches Ok(DeployStep::Here { node, deployment }) && node@ == p.0
                        && process::steps(deployment.steps@) == here_steps(
                        p.0,
                        args.target,
                        path_exists,
                        container,
                        args.port,
                        p.2,
                        args.command,
                    ) && ids::is_id(deployment.service.id@) && deployment.service@ == (
                    ServiceView {
                        name: p.1,
                        ..docker::service_on(
                            deployment.service.id@,
                            p.0,
                            if path_exists {
                                docker::built_image(container)
                            } else {
                                args.target
                            },
                            container,
                            args.port,
                            args.command,
                            now,
                        )
                    })
                }
            } else if path_exists {
                r is Err && r->Err_0@ == no_remote_build()
            } else {
                r matches Ok(DeployStep::Ask { node, request }) && node@ == p.0 && request@ == (
                RequestView::DeployImage {
                    image: args.target,
                    service: p.1,
                    container,
                    port: args.port,
                    env: p.2,
                    command: args.command,
                })
            }
        },
    }
}

/// Finds out how a service is deployed. `key` is the key of the mesh;
/// `path_exists` says whether the target is a path here, and `has_dockerfile`
/// whether it holds a Dockerfile.
pub fn deploy(
    state: &ViaState,
    args: &DeployArgs,
    key: &Result<Vec<u8>, String>,
    path_exists: bool,
    has_dockerfile: bool,
    now: i64,
) -> (r: Result<DeployStep, String>)
    ensures
        is_deploy(
            r,
            state@,
            args@,
            text::bytes_outcome(*key),
            path_exists,
            has_dockerfile,
            now,
        ),
{
    let node = match state.node_by_slug(args.to.as_str()) {
        Some(n) => n,
        None => return Err("unknown node '".to_owned().concat(args.to.as_str()).concat("'")),
    };
    let name = match normalize_slug(args.name.as_str()) {
        Ok(s) => s,
        Err(e) => return Err(e),
    };
    if state.service_by_name(name.as_str()).is_some() {
        return Err("service '".to_owned().concat(name.as_str()).concat("' already exists"));
    }
    let container = "via-".to_owned().concat(name.as_str());
    let env = match key {
        Err(e) => return Err(e.clone()),
        Ok(k) => match decrypted_secrets(state, k) {
            Err(e) => return Err(e),
            Ok(env) => env,
        },
    };
    let port = copy_opt(&args.port);
    if is_local(&node) {
        let deployment = if path_exists {
            deploy_path(
                &node,
                args.target.as_str(),
                has_dockerfile,
                container.as_str(),
                port,
                &env,
                &args.command,
                now,
            )
        } else {
            deploy_image(
                &node,
                args.target.as_str(),
                container.as_str(),
                port,
                &env,
                &args.command,
                now,
            )
        };
        return match deployment {
            Err(e) => Err(e),
            Ok(deployment) => {
                let mut deployment = deployment;
                deployment.service.name = name;
                Ok(DeployStep::Here { node, deployment })
            },
        };
    }
    if path_exists {
        return Err(
            "remote path deploy over RPC is not supported; build and push an image, then deploy the image".to_owned(),
        );
    }
    Ok(
        DeployStep::Ask {
            node,
            request: RpcRequest::DeployImage {
                image: args.target.clone(),
                service: name,
                container,
                port,
                env,
                command: copy_texts(&args.command),
            },
        },
    )
}

/// Keeps a service that was deployed on `node`. Returns what is shown.
pub fn deployed(state: &mut ViaState, node: &Node, service: Service, now: i64) -> (r: String)
    requires
        old(state).wf(),
    ensures
        final(state).wf(),
        commands::was_recorded(
            state::with_service(old(state)@, placed(service@, node@)),
            final(state)@,
            "service.started"@,
            model::service_payload(placed(service@, node@)),
            now,
        ),
        r@ == "Deployed service '"@ + service@.name + "' to '"@ + node@.slug + "'."@,
{
    let mut service = service;
    service.node_addr = node.daemon_addr.clone();
    state.upsert_service(&service);
    state.append_event("service.started", service.payload(), now);
    "Deployed service '".to_owned().concat(service.name.as_str()).concat("' to '").concat(
        node.slug.as_str(),
    ).concat("'.")
}

/// A service that was deployed on this node is found under the name that it was given,
/// running in its container on that node.
pub proof fn law_deployed_service_is_found(
    r: Result<DeployStep, String>,
    st: StateView,
    args: DeployArgsView,
    key: Result<Seq<u8>, Seq<char>>,
    path_exists: bool,
    has_dockerfile: bool,
    now: i64,
)
    requires
        state::well_formed(st),
        is_deploy(r, st, args, key, path_exists, has_dockerfile, now),
        r matches Ok(DeployStep::Here { node, deployment }),
    ensures
        ({
            let node = r->Ok_0->Here_node;
            let service = placed(r->Ok_0->Here_deployment.service@, node@);
            let name = util::slug_outcome(args.name)->Ok_0;
            &&& util::slug_outcome(args.name) is Ok
            &&& table::find(st.nodes, args.to) == Some(node@)
            &&& table::find(st.services, name) is None
            &&& table::find(state::with_service(st, service).services, name) == Some(service)
            &&& service.name == name
            &&& service.container == "via-"@ + name
            &&& service.node_id == node@.id
            &&& service.node_addr == node@.daemon_addr
            &&& service.status == ServiceStatus::Running
        }),
{
    let node = r->Ok_0->Here_node;
    let service = placed(r->Ok_0->Here_deployment.service@, node@);
    table::lemma_find_put(st.services, service, service.name);
}

/// A service that another node was asked to deploy, and that runs there, is found on
/// both nodes under the name that it was given, running in its container on the node
/// that was asked. `far` is the state of that node, `w` what it does for the request, and
/// `event` the identifier of the event that it keeps.
pub proof fn law_service_deployed_elsewhere_is_found(
    r: Result<DeployStep, String>,
    st: StateView,
    args: DeployArgsView,
    key: Result<Seq<u8>, Seq<char>>,
    path_exists: bool,
    has_dockerfile: bool,
    now: i64,
    far: StateView,
    w: Work,
    event: Seq<char>,
    then: i64,
)
    requires
        state::well_formed(st),
        state::well_formed(far),
        is_deploy(r, st, args, key, path_exists, has_dockerfile, now),
        r matches Ok(DeployStep::Ask { node, request }),
        state::local(far) is Ok,
        state::local(far)->Ok_0.id == r->Ok_0->Ask_node@.id,
        daemon::is_work_for(w, far, r->Ok_0->Ask_request@, then),
    ensures
        ({
            let node = r->Ok_0->Ask_node;
            let started = w->Deploy_0.service@;
            let service = placed(started, node@);
            let name = util::slug_outcome(args.name)->Ok_0;
            &&& util::slug_outcome(args.name) is Ok
            &&& table::find(st.nodes, args.to) == Some(node@)
            &&& table::find(st.services, name) is None
            &&& w is Deploy
            &&& table::find(daemon::started(far, started, event, then).services, name) == Some(
                started,
            )
            &&& table::find(state::with_service(st, service).services, name) == Some(service)
            &&& service.name == name
            &&& service.container == "via-"@ + name
            &&& service.node_id == node@.id
            &&& service.node_addr == node@.daemon_addr
            &&& service.status == ServiceStatus::Running
        }),
{
    let started = w->Deploy_0.service@;
    let service = placed(started, r->Ok_0->Ask_node@);
    table::lemma_find_put(far.services, started, started.name);
    table::lemma_find_put(st.services, service, service.name);
}

} // verus!
