//! What a node does with the requests of other nodes.

use crate::docker;
use crate::docker::{
    container_status_from, deploy_local_image, local_container_status, local_docker_check,
    local_logs, local_remove, local_restart, local_stop, logs_from, Deployment,
};
use crate::ids;
use crate::model;
use crate::model::{Service, ServiceView};
use crate::process;
use crate::process::{Run, RunView};
use crate::rpc::{RequestView, ResponseView, RpcRequest, RpcResponse, VerifiedRpcRequest};
use crate::state;
use crate::state::{StateView, ViaState};
use crate::text;
use vstd::hash_set::StringHashSet;
use vstd::prelude::*;

verus! {

/// The nonces of all sealed requests that were let in.
pub struct SeenNonces {
    seen: StringHashSet,
}

impl View for SeenNonces {
    type V = Set<Seq<char>>;

    closed spec fn view(&self) -> Set<Seq<char>> {
        self.seen@
    }
}

/// Whether a request is let in.
#[derive(Debug)]
pub enum Admission {
    Handle(RpcRequest),
    Refuse(RpcResponse),
}

/// What remains to be done for a request.
#[derive(Debug)]
pub enum Work {
    /// Nothing: this is the response.
    Reply(RpcResponse),
    /// Start a service.
    Deploy(Deployment),
    /// Get the log of a container.
    Logs { container: String, run: Run },
    /// Get the status of a container.
    Status { container: String, run: Run },
    /// Run a command and get its output.
    Exec { command: Vec<String> },
    /// Run something. If it goes well and `persist` is set, the state is written to
    /// disk.
    Act { run: Run, persist: bool },
}

// ---------------------------------------------------------------------------
// Letting requests in.

/// A response that reports an error.
pub open spec fn failure(message: Seq<char>) -> ResponseView {
    ResponseView::Error { message }
}

/// What is said of a request whose nonce was seen before.
pub open spec fn replayed() -> ResponseView {
    failure("replayed RPC nonce"@)
}

/// Whether a request with this nonce is let in after the others were.
pub open spec fn fresh(seen: Set<Seq<char>>, nonce: Option<Seq<char>>) -> bool {
    match nonce {
        Some(n) => !seen.contains(n),
        None => true,
    }
}

/// The nonces that were seen after a request with this nonce came.
pub open spec fn seen_after(seen: Set<Seq<char>>, nonce: Option<Seq<char>>) -> Set<Seq<char>> {
    match nonce {
        Some(n) => seen.insert(n),
        None => seen,
    }
}

impl SeenNonces {
    /// Before any request.
    pub fn new() -> (r: SeenNonces)
        ensures
            r@ == Set::<Seq<char>>::empty(),
    {
        SeenNonces { seen: StringHashSet::new() }
    }
}

/// Lets a request in, unless its seal was not good or it came before.
pub fn let_in(seen: &mut SeenNonces, request: Result<VerifiedRpcRequest, String>) -> (r: Admission)
    ensures
        match request {
            Err(e) => final(seen)@ == old(seen)@ && (r matches Admission::Refuse(x) && x@
                == failure(e@)),
            Ok(v) => final(seen)@ == seen_after(old(seen)@, text::opt_text(v.nonce)) && if fresh(
                old(seen)@,
                text::opt_text(v.nonce),
            ) {
                r matches Admission::Handle(q) && q@ == v.request@
            } else {
                r matches Admission::Refuse(x) && x@ == replayed()
            },
        },
{
    match request {
        Err(e) => Admission::Refuse(RpcResponse::Error { message: e }),
        Ok(v) => match v.nonce {
            None => Admission::Handle(v.request),
            Some(n) => {
                if seen.seen.insert(n) {
                    Admission::Handle(v.request)
                } else {
                    proof {
                        assert(seen@ =~= old(seen)@.insert(n@));
                    }
                    Admission::Refuse(RpcResponse::Error { message: "replayed RPC nonce".to_owned() })
                }
            },
        },
    }
}

/// The nonces that were seen after these requests came, one after the other.
pub open spec fn seen_after_all(seen: Set<Seq<char>>, nonces: Seq<Option<Seq<char>>>) -> Set<
    Seq<char>,
>
    decreases nonces.len(),
{
    if nonces.len() == 0 {
        seen
    } else {
        seen_after(seen_after_all(seen, nonces.drop_last()), nonces.last())
    }
}

/// A sealed request is let in once: however many others come in between, a second
/// request with its nonce is refused.
pub proof fn law_no_request_is_let_in_twice(
    seen: Set<Seq<char>>,
    nonce: Seq<char>,
    between: Seq<Option<Seq<char>>>,
)
    ensures
        !fresh(seen_after_all(seen_after(seen, Some(nonce)), between), Some(nonce)),
    decreases between.len(),
{
    if between.len() > 0 {
        law_no_request_is_let_in_twice(seen, nonce, between.drop_last());
    }
}

// ---------------------------------------------------------------------------
// Handling requests.

/// The state after a service was started for another node.
pub open spec fn started(st: StateView, service: ServiceView, event_id: Seq<char>, now: i64) -> StateView {
    state::persisted(
        state::recorded(
            state::with_service(st, service),
            event_id,
            "service.started"@,
            model::service_payload(service),
            now,
        ),
    )
}

/// The state after a request was looked at, before what remains to be done for it.
pub open spec fn handled(st: StateView, q: RequestView) -> StateView {
    match q {
        RequestView::ImportSnapshot { snapshot } => state::persisted(
            state::imported(st, snapshot),
        ),
        _ => st,
    }
}

/// That `w` is what remains to be done for a request.
pub open spec fn is_work_for(w: Work, st: StateView, q: RequestView, now: i64) -> bool {
    match q {
        RequestView::Ping => w matches Work::Reply(x) && x@ == ResponseView::Pong,
        RequestView::NodeInfo => w matches Work::Reply(x) && x@ == (match state::local(st) {
            Ok(n) => ResponseView::NodeInfo { iroh_addr: n.iroh_addr },
            Err(e) => failure(e),
        }),
        RequestView::ExportSnapshot => w matches Work::Reply(x) && x@ == (ResponseView::Snapshot {
            snapshot: state::snapshot_of(st),
        }),
        RequestView::ImportSnapshot { snapshot } => w matches Work::Reply(x) && x@
            == ResponseView::Done,
        RequestView::DeployImage { image, service, container, port, env, command } => {
            match state::local(st) {
                Err(e) => w matches Work::Reply(x) && x@ == failure(e),
                Ok(n) => w matches Work::Deploy(d) && process::steps(d.steps@)
                    == docker::image_steps(
                    true,
                    Seq::empty(),
                    image,
                    container,
                    port,
                    env,
                    command,
                ) && ids::is_id(d.service.id@) && d.service@ == (ServiceView {
                    name: service,
                    ..docker::service_on(d.service.id@, n, image, container, port, command, now)
                }),
            }
        },
        RequestView::Logs { container, follow } => if follow {
            w matches Work::Reply(x) && x@ == failure(
                "remote follow logs are not supported; omit --follow"@,
            )
        } else {
            w matches Work::Logs { container: c, run } && c@ == container && run@
                == (RunView::Program { program: "docker"@, args: seq!["logs"@, container] })
        },
        RequestView::ContainerStatus { container } => w matches Work::Status { container: c, run }
            && c@ == container && run@ == (RunView::Program {
            program: "docker"@,
            args: seq!["inspect"@, "-f"@, "{{.State.Status}}"@, container],
        }),
        RequestView::Exec { command } => w matches Work::Exec { command: c } && text::texts(c@)
            == command,
        RequestView::Stop { container } => w matches Work::Act { run, persist } && persist && run@
            == (RunView::Program { program: "docker"@, args: seq!["stop"@, container] }),
        RequestView::Restart { container } => w matches Work::Act { run, persist } && persist
            && run@ == (RunView::Program { program: "docker"@, args: seq!["restart"@, container] }),
        RequestView::Remove { container } => w matches Work::Act { run, persist } && persist && run@
            == (RunView::Program { program: "docker"@, args: seq!["rm"@, "-f"@, container] }),
        RequestView::DockerCheck => w matches Work::Act { run, persist } && !persist && run@
            == RunView::Shell("docker version >/dev/null"@),
    }
}

/// Does what can be done for a request here, and says what remains.
pub fn handle_request(state: &mut ViaState, request: RpcRequest, now: i64) -> (r: Work)
    requires
        old(state).wf(),
    ensures
        final(state)@ == handled(old(state)@, request@),
        final(state).wf(),
        is_work_for(r, old(state)@, request@, now),
{
    match request {
        RpcRequest::Ping => Work::Reply(RpcResponse::Pong),
        RpcRequest::NodeInfo => match state.local_node() {
            Ok(n) => Work::Reply(RpcResponse::NodeInfo { iroh_addr: n.iroh_addr }),
            Err(e) => Work::Reply(RpcResponse::Error { message: e }),
        },
        RpcRequest::ExportSnapshot => Work::Reply(
            RpcResponse::Snapshot { snapshot: state.snapshot() },
        ),
        RpcRequest::ImportSnapshot { snapshot } => {
            state.import_snapshot(snapshot);
            state.persist();
            Work::Reply(RpcResponse::Done)
        },
        RpcRequest::DeployImage { image, service, container, port, env, command } => {
            match state.local_node() {
                Err(e) => Work::Reply(RpcResponse::Error { message: e }),
                Ok(n) => Work::Deploy(
                    deploy_local_image(
                        &n,
                        image.as_str(),
                        service.as_str(),
                        container.as_str(),
                        port,
                        &env,
                        &command,
                        now,
                    ),
                ),
            }
        },
        RpcRequest::Logs { container, follow } => match local_logs(container.as_str(), follow) {
            Ok(run) => Work::Logs { container, run },
            Err(e) => Work::Reply(RpcResponse::Error { message: e }),
        },
        RpcRequest::ContainerStatus { container } => {
            let run = local_container_status(container.as_str());
            Work::Status { container, run }
        },
        RpcRequest::Exec { command } => Work::Exec { command },
        RpcRequest::Stop { container } => Work::Act {
            run: local_stop(container.as_str()),
            persist: true,
        },
        RpcRequest::Restart { container } => Work::Act {
            run: local_restart(container.as_str()),
            persist: true,
        },
        RpcRequest::Remove { container } => Work::Act {
            run: local_remove(container.as_str()),
            persist: true,
        },
        RpcRequest::DockerCheck => Work::Act { run: local_docker_check(), persist: false },
    }
}

/// Handles a request that came in: one whose seal was not good, or that came before,
/// is refused and changes nothing.
pub fn handle_rpc_line(
    state: &mut ViaState,
    seen: &mut SeenNonces,
    request: Result<VerifiedRpcRequest, String>,
    now: i64,
) -> (r: Work)
    requires
        old(state).wf(),
    ensures
        final(state).wf(),
        match request {
            Err(e) => final(seen)@ == old(seen)@ && final(state)@ == old(state)@ && (
            r matches Work::Reply(x) && x@ == failure(e@)),
            Ok(v) => final(seen)@ == seen_after(old(seen)@, text::opt_text(v.nonce)) && if fresh(
                old(seen)@,
                text::opt_text(v.nonce),
            ) {
                final(state)@ == handled(old(state)@, v.request@) && is_work_for(
                    r,
                    old(state)@,
                    v.request@,
                    now,
                )
            } else {
                final(state)@ == old(state)@ && (r matches Work::Reply(x) && x@ == replayed())
            },
        },
{
    match let_in(seen, request) {
        Admission::Refuse(response) => Work::Reply(response),
        Admission::Handle(request) => handle_request(state, request, now),
    }
}

/// The response after a service was to be started, where `outcome` is what came of
/// its steps.
pub fn finish_deploy(
    state: &mut ViaState,
    service: Service,
    outcome: Result<(), String>,
    now: i64,
) -> (r: RpcResponse)
    requires
        old(state).wf(),
    ensures
        final(state).wf(),
        match outcome {
            Ok(()) => r@ == (ResponseView::Service { service: service@ }) && exists|
                id: Seq<char>,
            |
                ids::is_id(id) && final(state)@ == #[trigger] started(
                    old(state)@,
                    service@,
                    id,
                    now,
                ),
            Err(e) => r@ == failure(e@) && final(state)@ == old(state)@,
        },
{
    match outcome {
        Err(e) => RpcResponse::Error { message: e },
        Ok(()) => {
            state.upsert_service(&service);
            let id = state.append_event("service.started", service.payload(), now);
            state.persist();
            proof {
                assert(state@ == started(old(state)@, service@, id@, now));
            }
            RpcResponse::Service { service }
        },
    }
}

/// The response after something was run.
pub fn finish_act(state: &mut ViaState, persist: bool, outcome: Result<(), String>) -> (r:
    RpcResponse)
    requires
        old(state).wf(),
    ensures
        final(state).wf(),
        r@ == (match outcome {
            Ok(()) => ResponseView::Done,
            Err(e) => failure(e@),
        }),
        final(state)@ == (if outcome is Ok && persist {
            state::persisted(old(state)@)
        } else {
            old(state)@
        }),
{
    match outcome {
        Err(e) => RpcResponse::Error { message: e },
        Ok(()) => {
            if persist {
                state.persist();
            }
            RpcResponse::Done
        },
    }
}

/// What came of a program whose output is wanted.
#[derive(Debug)]
pub enum Captured {
    /// It could not be started.
    NotStarted,
    /// It ended, having printed this.
    Ended { success: bool, stdout: String, stderr: String },
}

/// The response after the log of a container was asked for.
pub fn finish_logs(container: &str, captured: Captured) -> (r: RpcResponse)
    ensures
        r@ == (match captured {
            Captured::NotStarted => failure("failed to read logs for "@ + container@),
            Captured::Ended { success, stdout, stderr } => if success {
                ResponseView::Logs { output: stdout@ }
            } else {
                failure("docker logs failed: "@ + stderr@)
            },
        }),
{
    match captured {
        Captured::NotStarted => RpcResponse::Error {
            message: "failed to read logs for ".to_owned().concat(container),
        },
        Captured::Ended { success, stdout, stderr } => match logs_from(
            success,
            stdout.as_str(),
            stderr.as_str(),
        ) {
            Ok(output) => RpcResponse::Logs { output },
            Err(e) => RpcResponse::Error { message: e },
        },
    }
}

/// The response after the status of a container was asked for.
pub fn finish_status(container: &str, captured: Captured) -> (r: RpcResponse)
    ensures
        r@ == (match captured {
            Captured::NotStarted => failure("failed to inspect "@ + container@),
            Captured::Ended { success, stdout, stderr } => ResponseView::ContainerStatus {
                status: if success {
                    text::trimmed(stdout@)
                } else {
                    "missing"@
                },
            },
        }),
{
    match captured {
        Captured::NotStarted => RpcResponse::Error {
            message: "failed to inspect ".to_owned().concat(container),
        },
        Captured::Ended { success, stdout, stderr } => RpcResponse::ContainerStatus {
            status: container_status_from(success, stdout.as_str()),
        },
    }
}

/// The response after a command was run.
pub fn finish_exec(outcome: Result<String, String>) -> (r: RpcResponse)
    ensures
        r@ == (match outcome {
            Ok(output) => ResponseView::Exec { output: output@ },
            Err(e) => failure(e@),
        }),
{
    match outcome {
        Ok(output) => RpcResponse::Exec { output },
        Err(e) => RpcResponse::Error { message: e },
    }
}

} // verus!
