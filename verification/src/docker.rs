//! Running services in containers.

use crate::ids;
use crate::ids::fresh_id;
use crate::model::{Node, NodeView, Service, ServiceStatus, ServiceView};
use crate::process;
use crate::process::{
    program2, program3, program4, shell_escape_arg, shell_escape_env, Run, RunView, Step, StepView,
};
use crate::rpc::{RequestView, RpcRequest};
use crate::shell;
use crate::ssh;
use crate::ssh::copy_dir;
use crate::text;
use crate::text::{contains_char, copy_texts, trim, trim_start_text};
use crate::urls;
use vstd::prelude::*;

verus! {

/// What is run to start a service, and the service that then runs.
#[derive(Debug)]
pub struct Deployment {
    pub steps: Vec<Step>,
    pub service: Service,
}

/// Something to do with a service: on this node, or by asking the node it runs on.
#[derive(Debug)]
pub enum ServiceAction {
    Call { addr: String, request: RpcRequest },
    Run(Run),
}

#[verifier::ext_equal]
pub enum ServiceActionView {
    Call { addr: Seq<char>, request: RequestView },
    Run(RunView),
}

impl View for ServiceAction {
    type V = ServiceActionView;

    open spec fn view(&self) -> ServiceActionView {
        match self {
            ServiceAction::Call { addr, request } => ServiceActionView::Call {
                addr: addr@,
                request: request@,
            },
            ServiceAction::Run(run) => ServiceActionView::Run(run@),
        }
    }
}

// ---------------------------------------------------------------------------
// Models.

/// How a port is published: on the same port of the host, unless the host's port is
/// given too.
pub open spec fn port_part(port: Option<Seq<char>>) -> Seq<char> {
    match port {
        Some(p) => if p.contains(':') {
            " -p "@ + p
        } else {
            " -p "@ + p + ":"@ + p
        },
        None => Seq::empty(),
    }
}

/// How the environment of a container is given.
pub open spec fn env_part(env: Seq<(Seq<char>, Seq<char>)>) -> Seq<char>
    decreases env.len(),
{
    if env.len() == 0 {
        Seq::empty()
    } else {
        env_part(env.drop_last()) + " -e "@ + (env.last().0 + "="@ + process::quoted(
            env.last().1,
        ))
    }
}

/// How the command of a container is given.
pub open spec fn command_part(command: Seq<Seq<char>>) -> Seq<char>
    decreases command.len(),
{
    if command.len() == 0 {
        Seq::empty()
    } else {
        command_part(command.drop_last()) + " "@ + process::quoted(command.last())
    }
}

/// What is run to start a container.
pub open spec fn run_line(
    image: Seq<char>,
    container: Seq<char>,
    port: Option<Seq<char>>,
    env: Seq<(Seq<char>, Seq<char>)>,
    command: Seq<Seq<char>>,
) -> Seq<char> {
    "docker run -d --name "@ + container + port_part(port) + env_part(env) + " "@ + image
        + command_part(command)
}

/// What is run to get a container out of the way.
pub open spec fn clear_line(container: Seq<char>) -> Seq<char> {
    "docker rm -f "@ + container + " >/dev/null 2>&1"@
}

/// Whether this is the node itself: only of itself a node knows when it was seen.
pub open spec fn runs_here(n: NodeView) -> bool {
    n.last_seen_at is Some
}

/// A command to run on a node that is reached at `host`, or here.
pub open spec fn on_node(here: bool, host: Seq<char>, command: Seq<char>) -> RunView {
    if here {
        RunView::Shell(command)
    } else {
        ssh::ssh_run(host, command)
    }
}

/// What is run to start a container on a node.
pub open spec fn image_steps(
    here: bool,
    host: Seq<char>,
    image: Seq<char>,
    container: Seq<char>,
    port: Option<Seq<char>>,
    env: Seq<(Seq<char>, Seq<char>)>,
    command: Seq<Seq<char>>,
) -> Seq<StepView> {
    seq![
        process::must(on_node(here, host, "docker version >/dev/null"@)),
        process::may(on_node(here, host, clear_line(container))),
        process::must(on_node(here, host, run_line(image, container, port, env, command))),
    ]
}

/// The service that a container on a node is.
pub open spec fn service_on(
    id: Seq<char>,
    node: NodeView,
    target: Seq<char>,
    container: Seq<char>,
    port: Option<Seq<char>>,
    command: Seq<Seq<char>>,
    now: i64,
) -> ServiceView {
    ServiceView {
        id,
        name: text::drop_prefixes(container, "via-"@),
        node_id: node.id,
        node_slug: node.slug,
        node_addr: node.daemon_addr,
        target,
        container,
        port,
        command,
        status: ServiceStatus::Running,
        published_private: false,
        created_at: now,
        updated_at: now,
    }
}

/// The image that is built from a directory.
pub open spec fn built_image(container: Seq<char>) -> Seq<char> {
    "via/"@ + text::drop_prefixes(container, "via-"@) + ":latest"@
}

/// Where a directory is copied to on another machine to be built there.
pub open spec fn build_dir(container: Seq<char>) -> Seq<char> {
    "~/.via/builds/"@ + container
}

/// What is run to build an image from a directory on a node.
pub open spec fn build_steps(
    here: bool,
    host: Seq<char>,
    path: Seq<char>,
    container: Seq<char>,
) -> Seq<StepView> {
    let image = built_image(container);
    if here {
        seq![
            process::must(
                RunView::Program {
                    program: "docker"@,
                    args: seq!["build"@, "-t"@, image, path],
                },
            ),
        ]
    } else {
        seq![
            process::must(ssh::copy_runs(host, path, build_dir(container))[0]),
            process::must(ssh::copy_runs(host, path, build_dir(container))[1]),
            process::must(
                ssh::ssh_run(host, "docker build -t "@ + image + " "@ + build_dir(container)),
            ),
        ]
    }
}

// ---------------------------------------------------------------------------
// Functions.

/// Whether this is the node itself.
pub fn is_local(node: &Node) -> (r: bool)
    ensures
        r == runs_here(node@),
{
    node.last_seen_at.is_some()
}

/// The first address of a node, or what is said of a node without one.
pub open spec fn first_address(n: NodeView) -> Result<Seq<char>, Seq<char>> {
    if n.addresses.len() > 0 {
        Ok(n.addresses[0])
    } else {
        Err("node has no address"@)
    }
}

/// The first address of a node.
pub fn primary_addr(node: &Node) -> (r: Result<&str, String>)
    ensures
        match r {
            Ok(a) => first_address(node@) == Ok::<Seq<char>, Seq<char>>(a@),
            Err(e) => first_address(node@) == Err::<Seq<char>, Seq<char>>(e@),
        },
{
    if node.addresses.len() > 0 {
        Ok(node.addresses[0].as_str())
    } else {
        Err("node has no address".to_owned())
    }
}

/// What is run to start a container.
pub fn docker_run_command(
    image: &str,
    container: &str,
    port: Option<&str>,
    env: &Vec<(String, String)>,
    command: &Vec<String>,
) -> (r: String)
    ensures
        r@ == run_line(
            image@,
            container@,
            text::opt_str(port),
            urls::pairs_view(env@),
            text::texts(command@),
        ),
{
    let mut cmd = "docker run -d --name ".to_owned().concat(container);
    if let Some(port) = port {
        if contains_char(port, ':') {
            cmd.append(" -p ");
            cmd.append(port);
        } else {
            cmd.append(" -p ");
            cmd.append(port);
            cmd.append(":");
            cmd.append(port);
        }
    }
    let ghost head = "docker run -d --name "@ + container@ + port_part(text::opt_str(port));
    proof {
        assert(cmd@ =~= head);
    }
    let ghost vars = urls::pairs_view(env@);
    let mut i: usize = 0;
    proof {
        assert(cmd@ =~= head + env_part(vars.take(0)));
    }
    while i < env.len()
        invariant
            i <= env.len(),
            vars == urls::pairs_view(env@),
            cmd@ == head + env_part(vars.take(i as int)),
        decreases env.len() - i,
    {
        proof {
            let next = vars.take(i + 1);
            assert(next.drop_last() == vars.take(i as int));
            assert(next.last() == (env@[i as int].0@, env@[i as int].1@));
        }
        cmd.append(" -e ");
        cmd.append(shell_escape_env(env[i].0.as_str(), env[i].1.as_str()).as_str());
        proof {
            assert(cmd@ =~= head + env_part(vars.take(i + 1)));
        }
        i += 1;
    }
    proof {
        assert(vars.take(vars.len() as int) == vars);
    }
    cmd.append(" ");
    cmd.append(image);
    let ghost body = head + env_part(vars) + " "@ + image@;
    let ghost words = text::texts(command@);
    let mut i: usize = 0;
    proof {
        assert(cmd@ =~= body + command_part(words.take(0)));
    }
    while i < command.len()
        invariant
            i <= command.len(),
            words == text::texts(command@),
            cmd@ == body + command_part(words.take(i as int)),
        decreases command.len() - i,
    {
        proof {
            let next = words.take(i + 1);
            assert(next.drop_last() == words.take(i as int));
            assert(next.last() == command@[i as int]@);
        }
        cmd.append(" ");
        cmd.append(shell_escape_arg(command[i].as_str()).as_str());
        proof {
            assert(cmd@ =~= body + command_part(words.take(i + 1)));
        }
        i += 1;
    }
    proof {
        assert(words.take(words.len() as int) == words);
    }
    cmd
}

/// Runs a command on a node that is reached at `host`, or here.
fn run_on_node(here: bool, host: &str, command: &str) -> (r: Run)
    ensures
        r@ == on_node(here, host@, command@),
{
    if here {
        Run::Shell(command.to_owned())
    } else {
        ssh::remote(host, command)
    }
}

fn start_steps(
    here: bool,
    host: &str,
    image: &str,
    container: &str,
    port: &Option<String>,
    env: &Vec<(String, String)>,
    command: &Vec<String>,
) -> (r: Vec<Step>)
    ensures
        process::steps(r@) == image_steps(
            here,
            host@,
            image@,
            container@,
            text::opt_text(*port),
            urls::pairs_view(env@),
            text::texts(command@),
        ),
{
    let port_str: Option<&str> = match port {
        Some(p) => Some(p.as_str()),
        None => None,
    };
    let clear = "docker rm -f ".to_owned().concat(container).concat(" >/dev/null 2>&1");
    let start = docker_run_command(image, container, port_str, env, command);
    let v = vec![
        Step { run: run_on_node(here, host, "docker version >/dev/null"), required: true },
        Step { run: run_on_node(here, host, clear.as_str()), required: false },
        Step { run: run_on_node(here, host, start.as_str()), required: true },
    ];
    proof {
        assert(text::opt_str(port_str) == text::opt_text(*port));
        assert(process::steps(v@) =~= image_steps(
            here,
            host@,
            image@,
            container@,
            text::opt_text(*port),
            urls::pairs_view(env@),
            text::texts(command@),
        ));
    }
    v
}

/// The service that a container on a node is, under a fresh identifier.
pub fn service_from_node(
    node: &Node,
    target: &str,
    container: &str,
    port: Option<String>,
    command: &Vec<String>,
    now: i64,
) -> (r: Service)
    ensures
        ids::is_id(r.id@),
        r@ == service_on(
            r.id@,
            node@,
            target@,
            container@,
            text::opt_text(port),
            text::texts(command@),
            now,
        ),
{
    Service {
        id: fresh_id(),
        name: trim_start_text(container, "via-").to_owned(),
        node_id: node.id.clone(),
        node_slug: node.slug.clone(),
        node_addr: node.daemon_addr.clone(),
        target: target.to_owned(),
        container: container.to_owned(),
        port,
        command: copy_texts(command),
        status: ServiceStatus::Running,
        published_private: false,
        created_at: now,
        updated_at: now,
    }
}

/// How a node is reached to run something there: nothing has to be known of the
/// node itself, and of another one its address.
pub open spec fn reached_at(n: NodeView) -> Result<Seq<char>, Seq<char>> {
    if runs_here(n) {
        Ok(Seq::empty())
    } else {
        first_address(n)
    }
}

/// Starts a container from an image on a node.
pub fn deploy_image(
    node: &Node,
    image: &str,
    container: &str,
    port: Option<String>,
    env: &Vec<(String, String)>,
    command: &Vec<String>,
    now: i64,
) -> (r: Result<Deployment, String>)
    ensures
        match r {
            Ok(d) => reached_at(node@) is Ok && process::steps(d.steps@) == image_steps(
                runs_here(node@),
                reached_at(node@)->Ok_0,
                image@,
                container@,
                text::opt_text(port),
                urls::pairs_view(env@),
                text::texts(command@),
            ) && ids::is_id(d.service.id@) && d.service@ == service_on(
                d.service.id@,
                node@,
                image@,
                container@,
                text::opt_text(port),
                text::texts(command@),
                now,
            ),
            Err(e) => reached_at(node@) == Err::<Seq<char>, Seq<char>>(e@),
        },
{
    let here = is_local(node);
    let host: &str = if here {
        ""
    } else {
        match primary_addr(node) {
            Ok(a) => a,
            Err(e) => return Err(e),
        }
    };
    proof {
        reveal_strlit("");
        assert(""@ =~= Seq::<char>::empty());
    }
    let steps = start_steps(here, host, image, container, &port, env, command);
    let service = service_from_node(node, image, container, port, command, now);
    Ok(Deployment { steps, service })
}

/// Builds an image from a directory on a node and starts a container from it. The
/// directory has to hold a Dockerfile; `has_dockerfile` says whether it does.
pub fn deploy_path(
    node: &Node,
    path: &str,
    has_dockerfile: bool,
    container: &str,
    port: Option<String>,
    env: &Vec<(String, String)>,
    command: &Vec<String>,
    now: i64,
) -> (r: Result<Deployment, String>)
    ensures
        match r {
            Ok(d) => has_dockerfile && reached_at(node@) is Ok && process::steps(d.steps@)
                == build_steps(
                runs_here(node@),
                reached_at(node@)->Ok_0,
                path@,
                container@,
            ) + image_steps(
                runs_here(node@),
                reached_at(node@)->Ok_0,
                built_image(container@),
                container@,
                text::opt_text(port),
                urls::pairs_view(env@),
                text::texts(command@),
            ) && ids::is_id(d.service.id@) && d.service@ == service_on(
                d.service.id@,
                node@,
                built_image(container@),
                container@,
                text::opt_text(port),
                text::texts(command@),
                now,
            ),
            Err(e) => if !has_dockerfile {
                e@ == "path deploy requires a Dockerfile"@
            } else {
                reached_at(node@) == Err::<Seq<char>, Seq<char>>(e@)
            },
        },
{
    if !has_dockerfile {
        return Err("path deploy requires a Dockerfile".to_owned());
    }
    let image = "via/".to_owned().concat(trim_start_text(container, "via-")).concat(":latest");
    let mut steps: Vec<Step> = Vec::new();
    if is_local(node) {
        steps.push(
            Step { run: program4("docker", "build", "-t", image.as_str(), path), required: true },
        );
        proof {
            assert(process::steps(steps@) =~= build_steps(
                true,
                Seq::empty(),
                path@,
                container@,
            ));
        }
    } else {
        let host = match primary_addr(node) {
            Ok(a) => a,
            Err(e) => return Err(e),
        };
        let remote_dir = "~/.via/builds/".to_owned().concat(container);
        let mut copies = copy_dir(host, path, remote_dir.as_str());
        let build = "docker build -t ".to_owned().concat(image.as_str()).concat(" ").concat(
            remote_dir.as_str(),
        );
        let ghost planned = ssh::copy_runs(host@, path@, build_dir(container@));
        proof {
            assert(process::runs(copies@).len() == 2);
            assert(copies@[0]@ == planned[0]) by {
                assert(process::runs(copies@)[0] == planned[0]);
            }
            assert(copies@[1]@ == planned[1]) by {
                assert(process::runs(copies@)[1] == planned[1]);
            }
        }
        let second = copies.remove(1);
        let first = copies.remove(0);
        steps.push(Step { run: first, required: true });
        steps.push(Step { run: second, required: true });
        steps.push(Step { run: ssh::remote(host, build.as_str()), required: true });
        proof {
            assert(process::steps(steps@) =~= build_steps(false, host@, path@, container@));
        }
    }
    let ghost built = process::steps(steps@);
    match deploy_image(node, image.as_str(), container, port, env, command, now) {
        Err(e) => Err(e),
        Ok(d) => {
            let mut rest = d.steps;
            let ghost more = process::steps(rest@);
            let ghost before = steps@;
            let ghost tail = rest@;
            steps.append(&mut rest);
            proof {
                assert(steps@ == before + tail);
                assert(process::steps(steps@) =~= built + more);
            }
            Ok(Deployment { steps, service: d.service })
        },
    }
}

/// Starts a container from an image on the node itself, as the service `service`.
pub fn deploy_local_image(
    local_node: &Node,
    image: &str,
    service: &str,
    container: &str,
    port: Option<String>,
    env: &Vec<(String, String)>,
    command: &Vec<String>,
    now: i64,
) -> (r: Deployment)
    ensures
        process::steps(r.steps@) == image_steps(
            true,
            Seq::empty(),
            image@,
            container@,
            text::opt_text(port),
            urls::pairs_view(env@),
            text::texts(command@),
        ),
        ids::is_id(r.service.id@),
        r.service@ == (ServiceView {
            name: service@,
            ..service_on(
                r.service.id@,
                local_node@,
                image@,
                container@,
                text::opt_text(port),
                text::texts(command@),
                now,
            )
        }),
{
    proof {
        reveal_strlit("");
        assert(""@ =~= Seq::<char>::empty());
    }
    let steps = start_steps(true, "", image, container, &port, env, command);
    let mut svc = service_from_node(local_node, image, container, port, command, now);
    svc.name = service.to_owned();
    Deployment { steps, service: svc }
}

/// Starting a container: Docker is asked first, and if it is not there nothing else is
/// run; then an old container is cleared away, whatever comes of it; then the container
/// is started. It fails exactly where the first or the last of these fails.
pub proof fn law_containers_start_in_order(
    here: bool,
    host: Seq<char>,
    image: Seq<char>,
    container: Seq<char>,
    port: Option<Seq<char>>,
    env: Seq<(Seq<char>, Seq<char>)>,
    command: Seq<Seq<char>>,
    ran: Seq<process::Ran>,
)
    requires
        ran.len() <= 3,
    ensures
        ({
            let steps = image_steps(here, host, image, container, port, env, command);
            let next = process::next_of(steps, ran);
            let asked = process::run_outcome(steps[0].run, ran[0]);
            let run = process::run_outcome(steps[2].run, ran[2]);
            &&& steps[0].run == on_node(here, host, "docker version >/dev/null"@)
            &&& steps[1].run == on_node(here, host, clear_line(container))
            &&& steps[2].run == on_node(
                here,
                host,
                run_line(image, container, port, env, command),
            )
            &&& next == (if ran.len() == 0 {
                process::NextView::Run(0)
            } else if asked is Err {
                process::NextView::Failed(asked->Err_0)
            } else if ran.len() < 3 {
                process::NextView::Run(ran.len() as int)
            } else if run is Err {
                process::NextView::Failed(run->Err_0)
            } else {
                process::NextView::Finished
            })
        }),
{
    let steps = image_steps(here, host, image, container, port, env, command);
    if ran.len() > 0 && process::step_outcome(steps[0], ran[0]) is Err {
        process::law_a_failed_step_ends_it(steps, ran, 0);
    } else if ran.len() == 3 && process::step_outcome(steps[2], ran[2]) is Err {
        process::law_a_failed_step_ends_it(steps, ran, 2);
    } else {
        process::law_steps_are_run_in_order(steps, ran);
    }
}

/// Asks for the status of a container here.
pub fn local_container_status(container: &str) -> (r: Run)
    ensures
        r@ == (RunView::Program {
            program: "docker"@,
            args: seq!["inspect"@, "-f"@, "{{.State.Status}}"@, container@],
        }),
{
    program4("docker", "inspect", "-f", "{{.State.Status}}", container)
}

/// The status of a container, from what came of asking for it.
pub fn container_status_from(success: bool, stdout: &str) -> (r: String)
    ensures
        r@ == (if success {
            text::trimmed(stdout@)
        } else {
            "missing"@
        }),
{
    if success {
        trim(stdout).to_owned()
    } else {
        "missing".to_owned()
    }
}

/// Asks for the log of a container here. It cannot be followed from another node.
pub fn local_logs(container: &str, follow: bool) -> (r: Result<Run, String>)
    ensures
        match r {
            Ok(run) => !follow && run@ == (RunView::Program {
                program: "docker"@,
                args: seq!["logs"@, container@],
            }),
            Err(e) => follow && e@ == "remote follow logs are not supported; omit --follow"@,
        },
{
    if follow {
        return Err("remote follow logs are not supported; omit --follow".to_owned());
    }
    Ok(program2("docker", "logs", container))
}

/// The log of a container, from what came of asking for it.
pub fn logs_from(success: bool, stdout: &str, stderr: &str) -> (r: Result<String, String>)
    ensures
        text::text_outcome(r) == (if success {
            Ok::<Seq<char>, Seq<char>>(stdout@)
        } else {
            Err("docker logs failed: "@ + stderr@)
        }),
{
    if success {
        Ok(stdout.to_owned())
    } else {
        Err("docker logs failed: ".to_owned().concat(stderr))
    }
}

/// Stops a container here.
pub fn local_stop(container: &str) -> (r: Run)
    ensures
        r@ == (RunView::Program { program: "docker"@, args: seq!["stop"@, container@] }),
{
    program2("docker", "stop", container)
}

/// Restarts a container here.
pub fn local_restart(container: &str) -> (r: Run)
    ensures
        r@ == (RunView::Program { program: "docker"@, args: seq!["restart"@, container@] }),
{
    program2("docker", "restart", container)
}

/// Removes a container here, also while it runs.
pub fn local_remove(container: &str) -> (r: Run)
    ensures
        r@ == (RunView::Program { program: "docker"@, args: seq!["rm"@, "-f"@, container@] }),
{
    program3("docker", "rm", "-f", container)
}

/// Finds out whether Docker can be used here.
pub fn local_docker_check() -> (r: Run)
    ensures
        r@ == RunView::Shell("docker version >/dev/null"@),
{
    Run::Shell("docker version >/dev/null".to_owned())
}

/// What is done to show the log of a service.
pub open spec fn logs_action(s: ServiceView, local: bool, follow: bool) -> ServiceActionView {
    if !local {
        ServiceActionView::Call {
            addr: s.node_addr,
            request: RequestView::Logs { container: s.container, follow },
        }
    } else {
        ServiceActionView::Run(
            RunView::Program {
                program: "docker"@,
                args: if follow {
                    seq!["logs"@, "-f"@, s.container]
                } else {
                    seq!["logs"@, s.container]
                },
            },
        )
    }
}

/// Shows the log of a service.
pub fn logs(service: &Service, local: bool, follow: bool) -> (r: ServiceAction)
    ensures
        r@ == logs_action(service@, local, follow),
{
    if !local {
        return ServiceAction::Call {
            addr: service.node_addr.clone(),
            request: RpcRequest::Logs { container: service.container.clone(), follow },
        };
    }
    if follow {
        ServiceAction::Run(program3("docker", "logs", "-f", service.container.as_str()))
    } else {
        ServiceAction::Run(program2("docker", "logs", service.container.as_str()))
    }
}

/// Stops a service.
pub fn stop(service: &Service, local: bool) -> (r: ServiceAction)
    ensures
        r@ == (if !local {
            ServiceActionView::Call {
                addr: service@.node_addr,
                request: RequestView::Stop { container: service@.container },
            }
        } else {
            ServiceActionView::Run(
                RunView::Program { program: "docker"@, args: seq!["stop"@, service@.container] },
            )
        }),
{
    if !local {
        return ServiceAction::Call {
            addr: service.node_addr.clone(),
            request: RpcRequest::Stop { container: service.container.clone() },
        };
    }
    ServiceAction::Run(program2("docker", "stop", service.container.as_str()))
}

/// Restarts a service.
pub fn restart(service: &Service, local: bool) -> (r: ServiceAction)
    ensures
        r@ == (if !local {
            ServiceActionView::Call {
                addr: service@.node_addr,
                request: RequestView::Restart { container: service@.container },
            }
        } else {
            ServiceActionView::Run(
                RunView::Program {
                    program: "docker"@,
                    args: seq!["restart"@, service@.container],
                },
            )
        }),
{
    if !local {
        return ServiceAction::Call {
            addr: service.node_addr.clone(),
            request: RpcRequest::Restart { container: service.container.clone() },
        };
    }
    ServiceAction::Run(program2("docker", "restart", service.container.as_str()))
}

// ---------------------------------------------------------------------------
// What a shell makes of the lines.

proof fn lemma_env_words(env: Seq<(Seq<char>, Seq<char>)>, rest: Seq<char>)
    requires
        shell::ends_word(rest),
        forall|i: int| 0 <= i < env.len() ==> shell::is_plain((#[trigger] env[i]).0),
    ensures
        shell::ends_word(env_part(env) + rest),
        shell::words(env_part(env) + rest) == env_words(env) + shell::words(rest),
    decreases env.len(),
{
    reveal_strlit(" -e ");
    reveal_strlit(" ");
    reveal_strlit("-e");
    reveal_strlit("=");
    if env.len() == 0 {
        assert(env_part(env) + rest =~= rest);
        assert(env_words(env) + shell::words(rest) =~= shell::words(rest));
    } else {
        let p = env.drop_last();
        let (name, value) = env[env.len() - 1];
        assert forall|i: int| 0 <= i < p.len() implies shell::is_plain((#[trigger] p[i]).0) by {
            assert(p[i] == env[i]);
        }
        let head = name + "="@;
        assert(shell::is_plain(head)) by {
            assert forall|i: int| 0 <= i < head.len() implies shell::is_plain_char(
                #[trigger] head[i],
            ) by {
                if i < name.len() {
                    assert(head[i] == name[i]);
                }
            }
        }
        let last = " "@ + head + process::quoted(value) + rest;
        let tail = " "@ + "-e"@ + last;
        assert(env_part(env) + rest =~= env_part(p) + tail);
        lemma_env_words(p, tail);
        shell::lemma_plain_next("-e"@, last);
        shell::lemma_mixed_next(head, value, rest);
        assert(env_words(env) =~= env_words(p) + seq!["-e"@, head + value]);
        assert(env_words(p) + (seq!["-e"@] + (seq![head + value] + shell::words(rest)))
            =~= env_words(env) + shell::words(rest));
    }
}

/// The words that give a container its environment: for each variable the flag, and then
/// the name with the value.
pub open spec fn env_words(env: Seq<(Seq<char>, Seq<char>)>) -> Seq<Seq<char>> {
    Seq::new(
        2 * env.len(),
        |i: int|
            if i % 2 == 0 {
                "-e"@
            } else {
                env[i / 2].0 + "="@ + env[i / 2].1
            },
    )
}

proof fn lemma_command_words(command: Seq<Seq<char>>, rest: Seq<char>)
    requires
        shell::ends_word(rest),
    ensures
        shell::ends_word(command_part(command) + rest),
        shell::words(command_part(command) + rest) == command + shell::words(rest),
    decreases command.len(),
{
    reveal_strlit(" ");
    if command.len() == 0 {
        assert(command_part(command) + rest =~= rest);
        assert(command + shell::words(rest) =~= shell::words(rest));
    } else {
        let p = command.drop_last();
        let tail = " "@ + process::quoted(command.last()) + rest;
        assert(command_part(command) + rest =~= command_part(p) + tail);
        lemma_command_words(p, tail);
        shell::lemma_quoted_next(command.last(), rest);
        assert(p + (seq![command.last()] + shell::words(rest)) =~= command + shell::words(rest));
    }
}

/// The words that publish a port: the port of the host and that of the container, which are
/// the same unless both are given.
pub open spec fn port_words(port: Option<Seq<char>>) -> Seq<Seq<char>> {
    match port {
        None => Seq::empty(),
        Some(p) => seq![
            "-p"@,
            if p.contains(':') {
                p
            } else {
                p + ":"@ + p
            },
        ],
    }
}

proof fn lemma_port_words(port: Option<Seq<char>>, rest: Seq<char>)
    requires
        shell::ends_word(rest),
        port is Some ==> shell::is_plain(port->Some_0),
    ensures
        shell::ends_word(port_part(port) + rest),
        shell::words(port_part(port) + rest) == port_words(port) + shell::words(rest),
{
    reveal_strlit(" -p ");
    reveal_strlit(" ");
    reveal_strlit("-p");
    reveal_strlit(":");
    match port {
        None => {
            assert(port_part(port) + rest =~= rest);
            assert(port_words(port) + shell::words(rest) =~= shell::words(rest));
        },
        Some(p) => {
            let w = port_words(port)[1];
            assert(shell::is_plain(w)) by {
                assert forall|i: int| 0 <= i < w.len() implies shell::is_plain_char(
                    #[trigger] w[i],
                ) by {
                    if i < p.len() {
                        assert(w[i] == p[i]);
                    } else if i > p.len() {
                        assert(w[i] == p[i - p.len() - 1]);
                    }
                }
            }
            let last = " "@ + w + rest;
            assert(port_part(port) + rest =~= " "@ + "-p"@ + last);
            shell::lemma_plain_next("-p"@, last);
            shell::lemma_plain_next(w, rest);
            assert(seq!["-p"@] + (seq![w] + shell::words(rest)) =~= port_words(port)
                + shell::words(rest));
        },
    }
}

/// A shell that is given the line that starts a container runs `docker run` with the
/// container's name, its port, one variable for each pair of the environment, the image, and
/// each word of the command, all in order and nothing besides. The values of variables and
/// the words of the command may hold anything.
pub proof fn law_run_line_says_all(
    image: Seq<char>,
    container: Seq<char>,
    port: Option<Seq<char>>,
    env: Seq<(Seq<char>, Seq<char>)>,
    command: Seq<Seq<char>>,
)
    requires
        shell::is_plain(image),
        shell::is_plain(container),
        port is Some ==> shell::is_plain(port->Some_0),
        forall|i: int| 0 <= i < env.len() ==> shell::is_plain((#[trigger] env[i]).0),
    ensures
        shell::words(run_line(image, container, port, env, command)) == seq![
            "docker"@,
            "run"@,
            "-d"@,
            "--name"@,
            container,
        ] + (match port {
            None => Seq::<Seq<char>>::empty(),
            Some(p) => seq![
                "-p"@,
                if p.contains(':') {
                    p
                } else {
                    p + ":"@ + p
                },
            ],
        }) + Seq::new(
            2 * env.len(),
            |i: int|
                if i % 2 == 0 {
                    "-e"@
                } else {
                    env[i / 2].0 + "="@ + env[i / 2].1
                },
        ) + seq![image] + command,
{
    reveal_strlit("docker run -d --name ");
    reveal_strlit("docker");
    reveal_strlit("run");
    reveal_strlit("-d");
    reveal_strlit("--name");
    reveal_strlit(" ");
    let none = Seq::<char>::empty();
    let e = command_part(command) + none;
    let d = " "@ + image + e;
    let c = env_part(env) + d;
    let b = port_part(port) + c;
    let a4 = " "@ + container + b;
    let a3 = " "@ + "--name"@ + a4;
    let a2 = " "@ + "-d"@ + a3;
    let a1 = " "@ + "run"@ + a2;
    assert("docker run -d --name "@ =~= "docker"@ + (" "@ + "run"@ + (" "@ + "-d"@ + (" "@
        + "--name"@ + " "@))));
    assert(run_line(image, container, port, env, command) =~= "docker"@ + a1);
    lemma_command_words(command, none);
    shell::lemma_plain_next(image, e);
    lemma_env_words(env, d);
    lemma_port_words(port, c);
    shell::lemma_plain_next(container, b);
    shell::lemma_plain_next("--name"@, a4);
    shell::lemma_plain_next("-d"@, a3);
    shell::lemma_plain_next("run"@, a2);
    shell::lemma_plain_first("docker"@, a1);
    assert(shell::words(none) =~= Seq::empty());
    let all = seq!["docker"@, "run"@, "-d"@, "--name"@, container] + port_words(port) + env_words(
        env,
    ) + seq![image] + command;
    assert(shell::words(run_line(image, container, port, env, command)) =~= all);
}

} // verus!
