//! What the commands about services do for whoever gives them.

use crate::daemon;
use crate::daemon::Work;
use crate::docker;
use crate::model;
use crate::model::{NodeView, SecretView, ServiceStatus, ServiceView};
use crate::process;
use crate::process::RunView;
use crate::rpc::RequestView;
use crate::security;
use crate::services;
use crate::services::{DeployArgsView, DeployStep, ServiceStepView};
use crate::shell;
use crate::ssh;
use crate::state;
use crate::state::StateView;
use crate::state_laws;
use crate::table;
use crate::text;
use crate::text_laws;
use crate::util;
use vstd::prelude::*;

verus! {

// ---------------------------------------------------------------------------
// Finding a service and its node.

/// The local node is a node that is known, with the identifier that was kept for it; there is
/// one exactly where a node with that identifier is known.
pub proof fn law_the_local_node_is_known(st: StateView)
    ensures
        match state::local(st) {
            Ok(n) => st.nodes.contains(n) && st.local_node_id == Some(n.id),
            Err(e) => st.local_node_id is None || forall|i: int|
                0 <= i < st.nodes.len() ==> Some((#[trigger] st.nodes[i]).id) != st.local_node_id,
        },
{
    if st.local_node_id is Some {
        let id = st.local_node_id->Some_0;
        state_laws::lemma_node_with_id_index(st.nodes, id);
    }
}

/// What is asked of a service is asked of the service that bears the name, on the node that it
/// runs on, at the address that the node has now; it is run here exactly where that is the
/// local node.
pub proof fn law_services_are_asked_where_they_run(st: StateView, name: Seq<char>)
    ensures
        ({
            let r = services::target_outcome(st, name);
            let s = table::find(st.services, name);
            &&& r is Ok ==> s is Some && r->Ok_0.0.container == s->Some_0.container
                && r->Ok_0.0.name == s->Some_0.name && r->Ok_0.0.node_id == s->Some_0.node_id
                && st.nodes.contains(r->Ok_0.1) && r->Ok_0.1.id == s->Some_0.node_id
                && r->Ok_0.0.node_addr == r->Ok_0.1.daemon_addr && r->Ok_0.2 == (Some(
                s->Some_0.node_id,
            ) == st.local_node_id)
            &&& r is Err ==> s is None || state::local(st) is Err || forall|i: int|
                0 <= i < st.nodes.len() ==> (#[trigger] st.nodes[i]).id != s->Some_0.node_id
        }),
{
    law_the_local_node_is_known(st);
    let s = table::find(st.services, name);
    if s is Some {
        state_laws::lemma_node_with_id_index(st.nodes, s->Some_0.node_id);
    }
}

/// Each service is asked for its status, in order, if the nodes of all are known.
pub proof fn law_every_service_is_asked_for_its_status(
    st: StateView,
    services: Seq<ServiceView>,
    i: int,
)
    requires
        state::local(st) is Ok,
        forall|j: int|
            0 <= j < services.len() ==> state::node_with_id(
                st.nodes,
                (#[trigger] services[j]).node_id,
            ) is Some,
        0 <= i < services.len(),
    ensures
        ({
            let r = services::status_queries(st, services);
            let node = state::node_with_id(st.nodes, services[i].node_id)->Some_0;
            &&& r.1 is None
            &&& r.0.len() == services.len()
            &&& r.0[i].0.name == services[i].name
            &&& r.0[i].1 == (if Some(services[i].node_id) == st.local_node_id {
                ServiceStepView::Run(
                    RunView::Program {
                        program: "docker"@,
                        args: seq![
                            "inspect"@,
                            "-f"@,
                            "{{.State.Status}}"@,
                            services[i].container,
                        ],
                    },
                )
            } else {
                ServiceStepView::Call {
                    node,
                    request: RequestView::ContainerStatus { container: services[i].container },
                }
            })
        }),
    decreases services.len(),
{
    law_the_local_node_is_known(st);
    let rest = services.skip(1);
    assert(state::node_with_id(st.nodes, services[0].node_id) is Some);
    if rest.len() > 0 {
        assert forall|j: int| 0 <= j < rest.len() implies state::node_with_id(
            st.nodes,
            (#[trigger] rest[j]).node_id,
        ) is Some by {
            assert(rest[j] == services[j + 1]);
        }
        law_every_service_is_asked_for_its_status(
            st,
            rest,
            if i > 0 {
                i - 1
            } else {
                0
            },
        );
        if i > 0 {
            assert(rest[i - 1] == services[i]);
        }
    } else {
        assert(services::status_queries(st, rest).0 =~= Seq::empty());
    }
}

/// Where a service cannot be asked for its status because its node is not known, those before
/// it are asked, and that is said.
pub proof fn law_a_missing_node_ends_the_list(
    st: StateView,
    services: Seq<ServiceView>,
    i: int,
)
    requires
        state::local(st) is Ok,
        0 <= i < services.len(),
        forall|j: int|
            0 <= j < i ==> state::node_with_id(st.nodes, (#[trigger] services[j]).node_id) is Some,
        state::node_with_id(st.nodes, services[i].node_id) is None,
    ensures
        services::status_queries(st, services).0.len() == i,
        services::status_queries(st, services).1 == Some(
            "service node '"@ + services[i].node_slug + "' is missing"@,
        ),
    decreases i,
{
    if i > 0 {
        let rest = services.skip(1);
        assert(state::node_with_id(st.nodes, services[0].node_id) is Some);
        assert forall|j: int| 0 <= j < i - 1 implies state::node_with_id(
            st.nodes,
            (#[trigger] rest[j]).node_id,
        ) is Some by {
            assert(rest[j] == services[j + 1]);
        }
        assert(rest[i - 1] == services[i]);
        law_a_missing_node_ends_the_list(st, rest, i - 1);
    }
}

/// A service is opened at this machine where it runs here, and else at the host of its node,
/// at the port of the host that it was published under.
pub proof fn law_services_are_opened_where_they_run(
    st: StateView,
    name: Seq<char>,
    host: Seq<char>,
    daemon_port: Seq<char>,
    port: Seq<char>,
    inner: Seq<char>,
)
    requires
        table::find(st.services, name) is Some,
        state::local(st) is Ok,
        state::node_with_id(st.nodes, table::find(st.services, name)->Some_0.node_id) is Some,
        state::node_with_id(
            st.nodes,
            table::find(st.services, name)->Some_0.node_id,
        )->Some_0.daemon_addr == host + ":"@ + daemon_port,
        table::find(st.services, name)->Some_0.port == Some(port + ":"@ + inner) || table::find(
            st.services,
            name,
        )->Some_0.port == Some(port),
        !daemon_port.contains(':'),
        !port.contains(':'),
    ensures
        services::open_outcome(st, name) == Ok::<Seq<char>, Seq<char>>(
            "http://"@ + (if Some(table::find(st.services, name)->Some_0.node_id)
                == st.local_node_id {
                "127.0.0.1"@
            } else {
                host
            }) + ":"@ + port,
        ),
{
    reveal_strlit(":");
    assert(":"@ =~= seq![':']);
    text_laws::law_split_at_the_last(host, ':', daemon_port);
    text_laws::law_split_at_the_first(port, ':', inner);
    law_the_local_node_is_known(st);
    let s = table::find(st.services, name)->Some_0;
    state_laws::lemma_node_with_id_index(st.nodes, s.node_id);
}

/// A service can be published privately only; it is then kept as published, and nothing else
/// of it changes.
pub proof fn law_services_are_published_privately(
    st: StateView,
    name: Seq<char>,
    private: bool,
    now: i64,
)
    ensures
        ({
            let r = services::publish_outcome(st, name, private, now);
            let s = table::find(st.services, name);
            &&& (r is Ok) == (private && s is Some)
            &&& r is Ok ==> r->Ok_0.published_private && r->Ok_0.updated_at == now && r->Ok_0
                == (ServiceView {
                published_private: r->Ok_0.published_private,
                updated_at: r->Ok_0.updated_at,
                ..s->Some_0
            })
        }),
{
}

/// A service that changes its status keeps all else but the time of the change.
pub proof fn law_only_the_status_turns(s: ServiceView, status: ServiceStatus, now: i64)
    ensures
        services::turned(s, status, now).status == status,
        services::turned(s, status, now).updated_at == now,
        services::turned(s, status, now) == (ServiceView {
            status: services::turned(s, status, now).status,
            updated_at: services::turned(s, status, now).updated_at,
            ..s
        }),
{
}

// ---------------------------------------------------------------------------
// Deploying.

/// Every secret of the mesh is in the environment of what is deployed, under its name and with
/// its value; and nothing else is.
pub proof fn law_every_secret_is_in_the_environment(key: Seq<u8>, secrets: Seq<SecretView>)
    ensures
        ({
            let r = services::secrets_outcome(key, secrets);
            &&& (r is Ok) == (forall|i: int|
                0 <= i < secrets.len() ==> security::decrypt_outcome(
                    key,
                    (#[trigger] secrets[i]).ciphertext,
                ) is Ok)
            &&& r is Ok ==> r->Ok_0.len() == secrets.len() && forall|i: int|
                0 <= i < secrets.len() ==> #[trigger] r->Ok_0[i] == (
                    secrets[i].name,
                    security::decrypt_outcome(key, secrets[i].ciphertext)->Ok_0,
                )
        }),
    decreases secrets.len(),
{
    if secrets.len() > 0 {
        let p = secrets.drop_last();
        let n = secrets.len() - 1;
        law_every_secret_is_in_the_environment(key, p);
        let r = services::secrets_outcome(key, secrets);
        let q = services::secrets_outcome(key, p);
        assert forall|i: int| 0 <= i < p.len() implies #[trigger] p[i] == secrets[i] by {}
        if r is Ok {
            assert forall|i: int| 0 <= i < secrets.len() implies security::decrypt_outcome(
                key,
                (#[trigger] secrets[i]).ciphertext,
            ) is Ok by {
                if i < n {
                    assert(p[i] == secrets[i]);
                }
            }
            assert forall|i: int| 0 <= i < secrets.len() implies #[trigger] r->Ok_0[i] == (
                secrets[i].name,
                security::decrypt_outcome(key, secrets[i].ciphertext)->Ok_0,
            ) by {
                if i < n {
                    assert(r->Ok_0[i] == q->Ok_0[i]);
                    assert(p[i] == secrets[i]);
                }
            }
        } else if forall|i: int|
            0 <= i < secrets.len() ==> security::decrypt_outcome(
                key,
                (#[trigger] secrets[i]).ciphertext,
            ) is Ok {
            assert(security::decrypt_outcome(key, secrets[n].ciphertext) is Ok);
            assert forall|i: int| 0 <= i < p.len() implies security::decrypt_outcome(
                key,
                (#[trigger] p[i]).ciphertext,
            ) is Ok by {
                assert(p[i] == secrets[i]);
            }
        }
    }
}

/// Something can be deployed exactly where the node is known, the name makes a slug that no
/// service has, and all secrets can be read; it then goes to that node under that slug, with
/// the secrets.
pub proof fn law_what_can_be_deployed(
    st: StateView,
    args: DeployArgsView,
    key: Result<Seq<u8>, Seq<char>>,
)
    ensures
        ({
            let r = services::deploy_outcome(st, args, key);
            let slug = util::slug_outcome(args.name);
            &&& (r is Ok) == (table::find(st.nodes, args.to) is Some && slug is Ok && table::find(
                st.services,
                slug->Ok_0,
            ) is None && key is Ok && services::secrets_outcome(key->Ok_0, st.secrets) is Ok)
            &&& r is Ok ==> table::find(st.nodes, args.to) == Some(r->Ok_0.0) && r->Ok_0.1
                == slug->Ok_0 && services::secrets_outcome(key->Ok_0, st.secrets) == Ok::<
                Seq<(Seq<char>, Seq<char>)>,
                Seq<char>,
            >(r->Ok_0.2)
        }),
{
}

/// The service that comes of a container: it runs on the node, as the image that it was made
/// from, with the port and the command that it was given.
pub proof fn law_services_tell_how_they_run(
    id: Seq<char>,
    node: NodeView,
    target: Seq<char>,
    name: Seq<char>,
    port: Option<Seq<char>>,
    command: Seq<Seq<char>>,
    now: i64,
)
    requires
        !"via-"@.is_prefix_of(name),
    ensures
        ({
            let s = docker::service_on(id, node, target, "via-"@ + name, port, command, now);
            &&& s.id == id
            &&& s.name == name
            &&& s.container == "via-"@ + name
            &&& s.node_id == node.id
            &&& s.node_slug == node.slug
            &&& s.node_addr == node.daemon_addr
            &&& s.target == target
            &&& s.port == port
            &&& s.command == command
            &&& s.status == ServiceStatus::Running
            &&& !s.published_private
            &&& s.created_at == now
            &&& s.updated_at == now
        }),
{
    reveal_strlit("via-");
    let c = "via-"@ + name;
    assert("via-"@.is_prefix_of(c)) by {
        assert(c.subrange(0, 4) =~= "via-"@);
    }
    assert(c.skip(4) =~= name);
    assert(text::drop_prefixes(name, "via-"@) == name);
}

/// What is run on a machine is run there: here by a shell, and on another machine over SSH.
pub proof fn law_commands_are_run_on_their_machine(
    here: bool,
    host: Seq<char>,
    command: Seq<char>,
)
    ensures
        here ==> docker::on_node(here, host, command) == RunView::Shell(command),
        !here ==> docker::on_node(here, host, command) == (RunView::Program {
            program: "ssh"@,
            args: seq![host, command],
        }),
{
}

/// The line that clears a container away removes that container.
pub proof fn law_old_containers_are_removed(container: Seq<char>)
    requires
        shell::is_plain(container),
    ensures
        shell::words(docker::clear_line(container)) == seq![
            "docker"@,
            "rm"@,
            "-f"@,
            container,
            ">/dev/null"@,
            "2>&1"@,
        ],
{
    reveal_strlit("docker rm -f ");
    reveal_strlit(" >/dev/null 2>&1");
    reveal_strlit("docker");
    reveal_strlit("rm");
    reveal_strlit("-f");
    reveal_strlit(">/dev/null");
    reveal_strlit("2>&1");
    reveal_strlit(" ");
    let none = Seq::<char>::empty();
    let e = " "@ + "2>&1"@ + none;
    let d = " "@ + ">/dev/null"@ + e;
    let c = " "@ + container + d;
    let b = " "@ + "-f"@ + c;
    let a = " "@ + "rm"@ + b;
    assert("docker rm -f "@ =~= "docker"@ + (" "@ + "rm"@ + (" "@ + "-f"@ + " "@)));
    assert(" >/dev/null 2>&1"@ =~= " "@ + ">/dev/null"@ + (" "@ + "2>&1"@));
    shell::lemma_plain_next("2>&1"@, none);
    shell::lemma_plain_next(">/dev/null"@, e);
    shell::lemma_plain_next(container, d);
    shell::lemma_plain_next("-f"@, c);
    shell::lemma_plain_next("rm"@, b);
    shell::lemma_plain_first("docker"@, a);
    assert(docker::clear_line(container) =~= "docker"@ + a);
    assert(shell::words(none) =~= Seq::empty());
    assert(shell::words(docker::clear_line(container)) =~= seq![
        "docker"@,
        "rm"@,
        "-f"@,
        container,
        ">/dev/null"@,
        "2>&1"@,
    ]);
}

/// A container is started in three steps: Docker has to be there, an old container of the
/// name may be cleared away, and the new one has to start, from the image, with its port, its
/// environment and its command.
pub proof fn law_a_container_takes_three_steps(
    here: bool,
    host: Seq<char>,
    image: Seq<char>,
    container: Seq<char>,
    port: Option<Seq<char>>,
    env: Seq<(Seq<char>, Seq<char>)>,
    command: Seq<Seq<char>>,
)
    requires
        shell::is_plain(image),
        shell::is_plain(container),
        port is Some ==> shell::is_plain(port->Some_0),
        forall|i: int| 0 <= i < env.len() ==> shell::is_plain((#[trigger] env[i]).0),
    ensures
        ({
            let steps = docker::image_steps(here, host, image, container, port, env, command);
            let line = |i: int|
                if here {
                    steps[i].run->Shell_0
                } else {
                    steps[i].run->Program_args[1]
                };
            let last = shell::words(line(2));
            let p = 5 + (if port is Some {
                2int
            } else {
                0int
            });
            &&& steps.len() == 3
            &&& steps[0].required && !steps[1].required && steps[2].required
            &&& forall|i: int|
                #![trigger steps[i]]
                0 <= i < 3 ==> (here ==> steps[i].run is Shell) && (!here ==> steps[i].run is Program
                    && steps[i].run->Program_program == "ssh"@ && steps[i].run->Program_args.len()
                    == 2 && steps[i].run->Program_args[0] == host)
            &&& line(0) == "docker version >/dev/null"@
            &&& shell::words(line(1)).take(4) == seq!["docker"@, "rm"@, "-f"@, container]
            &&& last.len() == p + 2 * env.len() + 1 + command.len()
            &&& last.take(5) == seq!["docker"@, "run"@, "-d"@, "--name"@, container]
            &&& forall|i: int|
                0 <= i < env.len() ==> #[trigger] last[p + 2 * i] == "-e"@ && last[p + 2 * i + 1]
                    == env[i].0 + "="@ + env[i].1
            &&& last[p + 2 * env.len()] == image
            &&& last.skip(p + 2 * env.len() + 1) == command
        }),
{
    let steps = docker::image_steps(here, host, image, container, port, env, command);
    law_old_containers_are_removed(container);
    docker::law_run_line_says_all(image, container, port, env, command);
    let last = shell::words(docker::run_line(image, container, port, env, command));
    let p = 5 + (if port is Some {
        2int
    } else {
        0int
    });
    assert(shell::words(docker::clear_line(container)).take(4) =~= seq![
        "docker"@,
        "rm"@,
        "-f"@,
        container,
    ]);
    assert(last.take(5) =~= seq!["docker"@, "run"@, "-d"@, "--name"@, container]);
    assert forall|i: int| 0 <= i < env.len() implies #[trigger] last[p + 2 * i] == "-e"@ && last[p
        + 2 * i + 1] == env[i].0 + "="@ + env[i].1 by {
        assert((2 * i) % 2 == 0 && (2 * i + 1) % 2 == 1 && (2 * i + 1) / 2 == i);
    }
    assert(last.skip(p + 2 * env.len() + 1) =~= command);
}

/// A directory that is deployed is built as the image that the container is then started
/// from, here from where it is, and on another machine from where it was copied to.
pub proof fn law_directories_are_built_before_they_run(
    here: bool,
    host: Seq<char>,
    path: Seq<char>,
    name: Seq<char>,
)
    requires
        !"via-"@.is_prefix_of(name),
        shell::is_plain(name),
    ensures
        ({
            let container = "via-"@ + name;
            let image = "via/"@ + name + ":latest"@;
            let place = "~/.via/builds/via-"@ + name;
            let steps = docker::build_steps(here, host, path, container);
            &&& docker::built_image(container) == image
            &&& forall|i: int| 0 <= i < steps.len() ==> (#[trigger] steps[i]).required
            &&& here ==> steps.len() == 1 && steps[0].run == (RunView::Program {
                program: "docker"@,
                args: seq!["build"@, "-t"@, image, path],
            })
            &&& !here ==> steps.len() == 3 && steps[0].run == ssh::copy_runs(
                host,
                path,
                place,
            )[0] && steps[1].run == ssh::copy_runs(host, path, place)[1] && steps[2].run
                is Program && steps[2].run->Program_program == "ssh"@ && steps[2].run->Program_args[0]
                == host && shell::words(steps[2].run->Program_args[1]) == seq![
                "docker"@,
                "build"@,
                "-t"@,
                image,
                place,
            ]
        }),
{
    reveal_strlit("via-");
    reveal_strlit("~/.via/builds/");
    reveal_strlit("~/.via/builds/via-");
    reveal_strlit("via/");
    reveal_strlit(":latest");
    let container = "via-"@ + name;
    let image = "via/"@ + name + ":latest"@;
    let place = "~/.via/builds/via-"@ + name;
    assert("via-"@.is_prefix_of(container)) by {
        assert(container.subrange(0, 4) =~= "via-"@);
    }
    assert(container.skip(4) =~= name);
    assert(text::drop_prefixes(name, "via-"@) == name);
    assert(docker::build_dir(container) =~= place);
    if !here {
        lemma_build_line(image, place, name);
    }
}

proof fn lemma_build_line(image: Seq<char>, place: Seq<char>, name: Seq<char>)
    requires
        shell::is_plain(name),
        image == "via/"@ + name + ":latest"@,
        place == "~/.via/builds/via-"@ + name,
    ensures
        shell::words("docker build -t "@ + image + " "@ + place) == seq![
            "docker"@,
            "build"@,
            "-t"@,
            image,
            place,
        ],
{
    reveal_strlit("~/.via/builds/via-");
    reveal_strlit("via/");
    reveal_strlit(":latest");
    reveal_strlit("docker build -t ");
    reveal_strlit("docker");
    reveal_strlit("build");
    reveal_strlit("-t");
    reveal_strlit(" ");
    assert(shell::is_plain(image)) by {
        assert forall|i: int| 0 <= i < image.len() implies shell::is_plain_char(
            #[trigger] image[i],
        ) by {
            if 4 <= i < 4 + name.len() {
                assert(image[i] == name[i - 4]);
            } else if i >= 4 + name.len() {
                assert(image[i] == ":latest"@[i - 4 - name.len()]);
            }
        }
    }
    assert(shell::is_plain(place)) by {
        assert forall|i: int| 0 <= i < place.len() implies shell::is_plain_char(
            #[trigger] place[i],
        ) by {
            if i >= 18 {
                assert(place[i] == name[i - 18]);
            }
        }
    }
    let none = Seq::<char>::empty();
    let d = " "@ + place + none;
    let c = " "@ + image + d;
    let b = " "@ + "-t"@ + c;
    let a = " "@ + "build"@ + b;
    assert("docker build -t "@ =~= "docker"@ + (" "@ + "build"@ + (" "@ + "-t"@ + " "@)));
    shell::lemma_plain_next(place, none);
    shell::lemma_plain_next(image, d);
    shell::lemma_plain_next("-t"@, c);
    shell::lemma_plain_next("build"@, b);
    shell::lemma_plain_first("docker"@, a);
    let line = "docker build -t "@ + image + " "@ + place;
    assert(line =~= "docker"@ + a);
    assert(shell::words(none) =~= Seq::empty());
    assert(shell::words(line) =~= seq!["docker"@, "build"@, "-t"@, image, place]);
}

/// An image that is deployed to another node is started there in the same steps as here: with
/// the same container, port, environment and command.
pub proof fn law_deploys_run_there_what_would_run_here(
    r: Result<DeployStep, String>,
    st: StateView,
    args: DeployArgsView,
    key: Result<Seq<u8>, Seq<char>>,
    now: i64,
    w: Work,
    far: StateView,
    then: i64,
)
    requires
        services::is_deploy(r, st, args, key, false, false, now),
        services::deploy_outcome(st, args, key) is Ok,
        r matches Ok(DeployStep::Ask { node, request }) ==> daemon::is_work_for(
            w,
            far,
            request@,
            then,
        ) && state::local(far) is Ok,
    ensures
        r is Ok,
        ({
            let p = services::deploy_outcome(st, args, key)->Ok_0;
            let steps = docker::image_steps(
                true,
                Seq::empty(),
                args.target,
                "via-"@ + p.1,
                args.port,
                p.2,
                args.command,
            );
            match r->Ok_0 {
                DeployStep::Here { node, deployment } => node@ == p.0 && node@.last_seen_at is Some
                    && process::steps(deployment.steps@) == steps && deployment.service@.name
                    == p.1,
                DeployStep::Ask { node, request } => node@ == p.0 && node@.last_seen_at is None
                    && w is Deploy && process::steps(w->Deploy_0.steps@) == steps
                    && w->Deploy_0.service@.name == p.1,
            }
        }),
{
}

// ---------------------------------------------------------------------------
// Showing services.

/// Each service has its line, which begins with its name, holds its node and its status, and
/// ends with what it runs; where there are none that is said.
pub proof fn law_every_service_has_its_line(all: Seq<ServiceView>, i: int)
    requires
        0 <= i < all.len(),
    ensures
        ({
            let lines = services::service_lines(all);
            let line = lines[i + 1];
            let s = all[i];
            &&& lines.len() == all.len() + 1
            &&& s.name.is_prefix_of(line)
            &&& text::holds(line, s.node_slug)
            &&& s.status == ServiceStatus::Running ==> text::holds(line, "running"@)
            &&& s.status == ServiceStatus::Stopped ==> text::holds(line, "stopped"@)
            &&& line.subrange(line.len() - s.target.len(), line.len() as int) == s.target
        }),
        services::service_lines(Seq::empty()) == seq!["No services."@],
{
    let s = all[i];
    let line = services::service_line(s);
    let word = model::status_word(s.status);
    text_laws::law_padding_adds_blanks_only(s.name, 18);
    text_laws::law_padding_adds_blanks_only(s.node_slug, 18);
    text_laws::law_padding_adds_blanks_only(word, 10);
    assert(line.take(s.name.len() as int) =~= s.name);
    let a: int = text::padded(s.name, 18).len() as int + " "@.len();
    assert(line.subrange(a, a + s.node_slug.len()) =~= s.node_slug);
    let b: int = a + text::padded(s.node_slug, 18).len() + " "@.len();
    assert(line.subrange(b, b + word.len()) =~= word);
    assert(line.subrange(line.len() - s.target.len(), line.len() as int) =~= s.target);
}

/// The status of a service tells its name, node, status, target and container, its port if it
/// has one, and whether it is published privately.
pub proof fn law_status_tells_all(s: ServiceView)
    ensures
        ({
            let lines = services::status_lines(s);
            &&& lines.len() == if s.port is Some {
                7int
            } else {
                6int
            }
            &&& lines[0] == "name: "@ + s.name
            &&& lines[1] == "node: "@ + s.node_slug
            &&& lines[2] == "status: "@ + (match s.status {
                ServiceStatus::Running => "running"@,
                ServiceStatus::Stopped => "stopped"@,
            })
            &&& lines[3] == "target: "@ + s.target
            &&& lines[4] == "container: "@ + s.container
            &&& s.port is Some ==> lines[5] == "port: "@ + s.port->Some_0
            &&& s.published_private ==> lines.last() == "private: true"@
            &&& !s.published_private ==> lines.last() == "private: false"@
        }),
{
}

/// The line of an event begins with its time, holds its kind, and ends with what it says.
pub proof fn law_events_are_shown(
    e: model::EventView,
    time: Seq<char>,
    payload: Seq<char>,
)
    ensures
        ({
            let line = services::event_line_of(e, time, payload);
            &&& time.is_prefix_of(line)
            &&& text::holds(line, e.kind)
            &&& line.subrange(line.len() - payload.len(), line.len() as int) == payload
        }),
{
    let line = services::event_line_of(e, time, payload);
    text_laws::law_padding_adds_blanks_only(time, 25);
    text_laws::law_padding_adds_blanks_only(e.kind, 26);
    assert(line.take(time.len() as int) =~= time);
    let a: int = text::padded(time, 25).len() as int + " "@.len();
    assert(line.subrange(a, a + e.kind.len()) =~= e.kind);
    assert(line.subrange(line.len() - payload.len(), line.len() as int) =~= payload);
}

/// What is recorded of a service tells each of its properties under its name.
pub proof fn law_service_events_tell_the_service(s: ServiceView)
    ensures
        ({
            let f = model::service_payload(s)->Object_0;
            &&& model::service_payload(s) is Object
            &&& f.contains(("id"@, model::ValueView::Text(s.id)))
            &&& f.contains(("name"@, model::ValueView::Text(s.name)))
            &&& f.contains(("node_id"@, model::ValueView::Text(s.node_id)))
            &&& f.contains(("node_slug"@, model::ValueView::Text(s.node_slug)))
            &&& f.contains(("node_addr"@, model::ValueView::Text(s.node_addr)))
            &&& f.contains(("target"@, model::ValueView::Text(s.target)))
            &&& f.contains(("container"@, model::ValueView::Text(s.container)))
            &&& f.contains(
                (
                    "status"@,
                    model::ValueView::Text(
                        match s.status {
                            ServiceStatus::Running => "running"@,
                            ServiceStatus::Stopped => "stopped"@,
                        },
                    ),
                ),
            )
            &&& f.contains(("published_private"@, model::ValueView::Bool(s.published_private)))
            &&& f.contains(("created_at"@, model::ValueView::Int(s.created_at)))
            &&& f.contains(("updated_at"@, model::ValueView::Int(s.updated_at)))
            &&& s.port is Some ==> f.contains(
                ("port"@, model::ValueView::Text(s.port->Some_0)),
            )
        }),
{
    let f = model::service_payload(s)->Object_0;
    assert(f[1] == ("container"@, model::ValueView::Text(s.container)));
    assert(f[2].0 == "created_at"@);
    assert(f[3].0 == "id"@);
    assert(f[4].0 == "name"@);
    assert(f[5].0 == "node_addr"@);
    assert(f[6].0 == "node_id"@);
    assert(f[7].0 == "node_slug"@);
    assert(f[8].0 == "port"@);
    assert(f[9].0 == "published_private"@);
    assert(f[10].0 == "status"@);
    assert(f[11].0 == "target"@);
    assert(f[12].0 == "updated_at"@);
}

/// What is recorded of a node tells each of its properties under its name, and what is recorded
/// of a mesh its identifier.
pub proof fn law_node_events_tell_the_node(n: NodeView, m: model::MeshView)
    ensures
        ({
            let f = model::node_payload(n)->Object_0;
            &&& model::node_payload(n) is Object
            &&& f.contains(("id"@, model::ValueView::Text(n.id)))
            &&& f.contains(("slug"@, model::ValueView::Text(n.slug)))
            &&& f.contains(("display_name"@, model::ValueView::Text(n.display_name)))
            &&& f.contains(("daemon_addr"@, model::ValueView::Text(n.daemon_addr)))
            &&& f.contains(("addresses"@, model::ValueView::Texts(n.addresses)))
            &&& f.contains(("public"@, model::ValueView::Bool(n.public)))
            &&& f.contains(("created_at"@, model::ValueView::Int(n.created_at)))
        }),
        model::mesh_payload(m) is Object,
        model::mesh_payload(m)->Object_0.contains(("id"@, model::ValueView::Text(m.id))),
        model::mesh_payload(m)->Object_0.contains(
            ("created_at"@, model::ValueView::Int(m.created_at)),
        ),
{
    let f = model::node_payload(n)->Object_0;
    assert(f[0].0 == "addresses"@);
    assert(f[1].0 == "created_at"@);
    assert(f[2].0 == "daemon_addr"@);
    assert(f[3].0 == "display_name"@);
    assert(f[4].0 == "id"@);
    assert(f[7].0 == "public"@);
    assert(f[8].0 == "slug"@);
    let g = model::mesh_payload(m)->Object_0;
    assert(g[0].0 == "created_at"@ && g[1].0 == "id"@);
}

/// A program is well exactly where it was started and succeeded; a step that is not required
/// is always well.
pub proof fn law_only_success_is_well(run: RunView, ran: process::Ran)
    ensures
        (process::run_outcome(run, ran) is Ok) == (ran matches process::Ran::Ended {
            success,
            status,
        } && success),
        process::step_outcome(process::must(run), ran) == process::run_outcome(run, ran),
        process::step_outcome(process::may(run), ran) is Ok,
        run is Shell && process::run_outcome(run, ran) is Err ==> text::holds(
            process::run_outcome(run, ran)->Err_0,
            run->Shell_0,
        ),
        run is Program && process::run_outcome(run, ran) is Err ==> text::holds(
            process::run_outcome(run, ran)->Err_0,
            run->Program_program,
        ),
{
    match run {
        RunView::Shell(line) => {
            let a: int = if ran is NotStarted {
                "failed to run `"@.len() as int
            } else {
                "command failed: "@.len() as int
            };
            let e = process::run_outcome(run, ran);
            if e is Err {
                assert(e->Err_0.subrange(a, a + line.len()) =~= line);
            }
        },
        RunView::Program { program, args } => {
            let a: int = if ran is NotStarted {
                "failed to run "@.len() as int
            } else {
                0
            };
            let e = process::run_outcome(run, ran);
            if e is Err {
                assert(e->Err_0.subrange(a, a + program.len()) =~= program);
            }
        },
    }
}

/// To run something on another node that node's first address is needed; here none is.
pub proof fn law_other_nodes_need_an_address(n: NodeView)
    ensures
        n.last_seen_at is Some ==> docker::reached_at(n) is Ok,
        n.last_seen_at is None ==> (docker::reached_at(n) is Ok) == (n.addresses.len() > 0),
        n.last_seen_at is None && n.addresses.len() > 0 ==> docker::reached_at(n) == Ok::<
            Seq<char>,
            Seq<char>,
        >(n.addresses[0]),
{
}

/// A directory that is deployed here is built and then started as what was built; it needs a
/// Dockerfile, and is not sent to other nodes.
pub proof fn law_directories_are_deployed_here(
    r: Result<DeployStep, String>,
    st: StateView,
    args: DeployArgsView,
    key: Result<Seq<u8>, Seq<char>>,
    has_dockerfile: bool,
    now: i64,
)
    requires
        services::is_deploy(r, st, args, key, true, has_dockerfile, now),
        services::deploy_outcome(st, args, key) is Ok,
    ensures
        ({
            let p = services::deploy_outcome(st, args, key)->Ok_0;
            let container = "via-"@ + p.1;
            let image = docker::built_image(container);
            &&& (r is Ok) == (p.0.last_seen_at is Some && has_dockerfile)
            &&& r is Ok ==> r->Ok_0 is Here && r->Ok_0->Here_node@ == p.0 && process::steps(
                r->Ok_0->deployment.steps@,
            ) == docker::build_steps(true, Seq::empty(), args.target, container)
                + docker::image_steps(
                true,
                Seq::empty(),
                image,
                container,
                args.port,
                p.2,
                args.command,
            ) && r->Ok_0->deployment.service@.target == image
        }),
{
}

/// The log of a service is asked of Docker where it is here, and else of its node.
pub proof fn law_logs_are_asked_where_the_service_is(s: ServiceView, follow: bool)
    ensures
        docker::logs_action(s, true, follow) == docker::ServiceActionView::Run(
            RunView::Program {
                program: "docker"@,
                args: if follow {
                    seq!["logs"@, "-f"@, s.container]
                } else {
                    seq!["logs"@, s.container]
                },
            },
        ),
        docker::logs_action(s, false, follow) == (docker::ServiceActionView::Call {
            addr: s.node_addr,
            request: RequestView::Logs { container: s.container, follow },
        }),
{
}

} // verus!
