//! What holds of messages between nodes, of keys and secrets, and of the ways to a service.

use crate::auth;
use crate::daemon;
use crate::daemon::Work;
use crate::model::{NodeView, SecretView, ServiceView};
use crate::number;
use crate::paths;
use crate::rpc;
use crate::rpc::{EnvelopeView, RequestView, ResponseView};
use crate::secrets;
use crate::security;
use crate::state;
use crate::state::StateView;
use crate::state_laws;
use crate::table;
use crate::text;
use crate::text_laws;
use crate::transport;
use crate::transport::{Link, PeerRoute, PeerStep};
use crate::urls;
use crate::usage;
use crate::usage::{QueueEvent, QueueView, ReporterAction, ReporterEvent, UsageView};
use crate::util;
use vstd::prelude::*;

verus! {

// ---------------------------------------------------------------------------
// Messages.

/// With a key a message is taken exactly where it is in an envelope of the known kind that is no
/// more than five minutes old or ahead, whose signature is over its kind, time, nonce and
/// payload, and whose payload opens; it is then what was sealed, with the nonce of the
/// envelope.
pub proof fn law_which_messages_are_taken(
    key: Seq<u8>,
    kind: Seq<char>,
    line: Seq<char>,
    e: EnvelopeView,
    now: i64,
)
    ensures
        ({
            let r = rpc::line_outcome(Some(key), kind, line, Some(e), now);
            let opened = security::decrypt_outcome(key, e.payload);
            &&& (r is Ok) == (e.version == 1 && -300_000 <= now - e.timestamp_ms <= 300_000
                && security::verify_outcome(
                key,
                rpc::signed_bytes(kind, e.timestamp_ms, e.nonce, e.payload),
                e.signature,
            ) is Ok && opened is Ok)
            &&& r is Ok ==> r->Ok_0.0 == opened->Ok_0 && r->Ok_0.1 == Some(e.nonce)
        }),
{
}

/// Without a key a message is taken as it is; it has no nonce.
pub proof fn law_messages_without_key_are_plain(
    kind: Seq<char>,
    line: Seq<char>,
    envelope: Option<EnvelopeView>,
    now: i64,
)
    ensures
        rpc::line_outcome(None, kind, line, envelope, now) == Ok::<
            (Seq<char>, Option<Seq<char>>),
            Seq<char>,
        >((line, None)),
{
}

/// What is asked of a node is answered or done as it was asked: a ping is answered, a snapshot
/// is what the node knows, and a command is the one that was sent.
pub proof fn law_requests_are_done_as_asked(
    w: Work,
    st: StateView,
    q: RequestView,
    now: i64,
)
    requires
        daemon::is_work_for(w, st, q, now),
    ensures
        q is Ping ==> (w matches Work::Reply(x) && x@ == ResponseView::Pong),
        q is ExportSnapshot ==> (w matches Work::Reply(x) && x@ is Snapshot
            && x@->Snapshot_snapshot.nodes == st.nodes && x@->Snapshot_snapshot.services
            == st.services && x@->Snapshot_snapshot.secrets == st.secrets
            && x@->Snapshot_snapshot.mesh == st.mesh),
        q matches RequestView::Exec { command } ==> (w matches Work::Exec { command: c }
            && text::texts(c@) == command),
        q matches RequestView::Logs { container, follow } && follow ==> (w matches Work::Reply(x)
            && x@ is Error),
        q is ImportSnapshot ==> (w matches Work::Reply(x) && x@ == ResponseView::Done),
        q is DockerCheck ==> (w matches Work::Act { run, persist } && !persist && run@
            == crate::process::RunView::Shell("docker version >/dev/null"@)),
        q is Stop || q is Restart || q is Remove ==> (w matches Work::Act { run, persist }
            && persist),
        q is NodeInfo && state::local(st) is Ok ==> (w matches Work::Reply(x) && x@
            == (ResponseView::NodeInfo { iroh_addr: state::local(st)->Ok_0.iroh_addr })),
{
}

/// Only a snapshot that is taken over changes what a node knows before a request is carried
/// out.
pub proof fn law_only_snapshots_change_the_state(st: StateView, q: RequestView)
    ensures
        q !is ImportSnapshot ==> daemon::handled(st, q) == st,
        q matches RequestView::ImportSnapshot { snapshot } ==> daemon::handled(st, q).nodes
            == state::imported(st, snapshot).nodes && daemon::handled(st, q).secrets
            == state::imported(st, snapshot).secrets && daemon::handled(st, q).services
            == state::imported(st, snapshot).services && daemon::handled(st, q).events
            == state::imported(st, snapshot).events && daemon::handled(st, q).mesh
            == state::imported(st, snapshot).mesh,
{
}

/// A nonce that was not seen is let in, and one that was is not; a request without one is
/// always let in.
pub proof fn law_fresh_nonces_are_let_in(seen: Set<Seq<char>>, nonce: Seq<char>, other: Seq<char>)
    ensures
        daemon::fresh(seen, None),
        daemon::fresh(seen, Some(nonce)) == !seen.contains(nonce),
        daemon::fresh(daemon::seen_after(seen, Some(nonce)), Some(other)) == (other != nonce
            && daemon::fresh(seen, Some(other))),
        daemon::seen_after(seen, None) == seen,
{
}

// ---------------------------------------------------------------------------
// Secrets and keys.

/// A secret that is set is kept under its name with what was encrypted; when it is set again,
/// it keeps the time at which it was first set.
pub proof fn law_secrets_keep_when_they_were_made(
    st: StateView,
    name: Seq<char>,
    c1: Seq<char>,
    c2: Seq<char>,
    now: i64,
    then: i64,
)
    requires
        state::well_formed(st),
        table::find(st.secrets, name) is None,
    ensures
        ({
            let first = secrets::new_secret(st, name, c1, now);
            let kept = state::with_secret(st, first);
            let second = secrets::new_secret(kept, name, c2, then);
            &&& first == SecretView { name, ciphertext: c1, created_at: now, updated_at: now }
            &&& second == SecretView { name, ciphertext: c2, created_at: now, updated_at: then }
        }),
{
    state_laws::law_secret_is_read_back(st, secrets::new_secret(st, name, c1, now), name);
}

/// A secret can be deleted exactly where there is a mesh and a secret of that name.
pub proof fn law_which_secrets_can_be_deleted(st: StateView, name: Seq<char>)
    ensures
        ({
            let n = util::secret_name_outcome(name);
            let r = secrets::delete_outcome(st, name);
            &&& (r is Ok) == (st.mesh is Some && n is Ok && table::find(
                st.secrets,
                n->Ok_0,
            ) is Some)
            &&& r is Ok ==> r == n
        }),
        (secrets::name_outcome(st, name) is Ok) == (st.mesh is Some && util::secret_name_outcome(
            name,
        ) is Ok),
        secrets::name_outcome(st, name) is Ok ==> secrets::name_outcome(st, name)
            == util::secret_name_outcome(name),
{
}

/// Each secret has its line, which begins with its name; where there are none that is said.
pub proof fn law_every_secret_has_its_line(all: Seq<SecretView>, offset: i32, i: int)
    requires
        0 <= i < all.len(),
    ensures
        secrets::secret_lines(all, offset).len() == all.len() + 1,
        all[i].name.is_prefix_of(secrets::secret_lines(all, offset)[i + 1]),
        secrets::secret_lines(Seq::empty(), offset) == seq!["No secrets."@],
{
    let line = secrets::secret_line(all[i], offset);
    text_laws::law_padding_adds_blanks_only(all[i].name, 24);
    assert(line.take(all[i].name.len() as int) =~= all[i].name);
}

/// A key is taken over where there is none, kept where it is the same, and refused where it is
/// another: no node changes its key.
pub proof fn law_keys_are_never_exchanged(file: Option<Seq<char>>, encoded: Seq<char>)
    ensures
        ({
            let r = security::install_outcome(file, encoded);
            let new = security::key_outcome(encoded);
            &&& r is Ok ==> new is Ok && r->Ok_0.0 == new->Ok_0
            &&& file is None ==> (r is Ok) == (new is Ok) && (r is Ok ==> r->Ok_0.1 is Some)
            &&& file is Some ==> (r is Ok) == (new is Ok && security::key_outcome(file->Some_0)
                == new)
            &&& file is Some && r is Ok ==> r->Ok_0.1 is None
        }),
{
}

/// A mesh key is 32 bytes.
pub proof fn law_keys_have_their_length(encoded: Seq<char>)
    ensures
        security::key_outcome(encoded) is Ok ==> security::key_outcome(encoded)->Ok_0.len() == 32,
        transport::iroh_key_outcome(encoded) is Ok ==> transport::iroh_key_outcome(
            encoded,
        )->Ok_0.len() == 32,
{
}

/// A signature is good exactly where it is the code of the payload's HMAC under the key.
pub proof fn law_signatures_are_checked(key: Seq<u8>, payload: Seq<u8>, sig: Seq<char>)
    ensures
        (security::verify_outcome(key, payload, sig) is Ok)
            == (crate::encoding::standard_decoded(sig) == Ok::<Seq<u8>, Seq<char>>(
            crate::crypto::hmac_sha256(key, payload),
        )),
{
}

/// A key for the API is what is set in the environment, or else what is stored, without white
/// space around it; what is blank counts as none.
pub proof fn law_where_the_api_key_comes_from(
    env: Option<Seq<char>>,
    config: auth::AuthConfig,
)
    requires
        text::trimmed(config.api_key@).len() > 0,
    ensures
        auth::api_key_outcome(env, Ok(Some(config))) == Ok::<Option<Seq<char>>, Seq<char>>(
            Some(
                if env is Some && text::trimmed(env->Some_0).len() > 0 {
                    text::trimmed(env->Some_0)
                } else {
                    text::trimmed(config.api_key@)
                },
            ),
        ),
        !(env is Some && text::trimmed(env->Some_0).len() > 0) ==> auth::api_key_outcome(
            env,
            Ok(None),
        ) == Ok::<Option<Seq<char>>, Seq<char>>(None),
{
}

// ---------------------------------------------------------------------------
// Ways between peers.

/// A call goes over iroh first only where that was asked for; one that failed directly is tried
/// over iroh if the way was left open, and at most once.
pub proof fn law_calls_fall_back_to_iroh_once(
    step: PeerStep,
    route: PeerRoute,
    direct_error: Option<Seq<char>>,
    outcome: Result<ResponseView, Seq<char>>,
)
    requires
        transport::is_next_step(step, route, direct_error, outcome),
    ensures
        transport::first_link(route) == Link::Iroh <==> route == PeerRoute::Iroh,
        outcome is Ok ==> (step matches PeerStep::Done(d) && rpc::call_view(d) == outcome),
        step is Try <==> outcome is Err && direct_error is None && route == PeerRoute::Auto,
        step is Try ==> step == PeerStep::Try(Link::Iroh),
        outcome is Err && direct_error is None && route != PeerRoute::Auto ==> (
        step matches PeerStep::Done(d) && rpc::call_view(d) == outcome),
        outcome is Err && direct_error is Some ==> (step matches PeerStep::Done(d)
            && rpc::call_view(d) is Err),
{
}

/// A peer that is a node of the mesh is let in, if the addresses of the nodes before it can be
/// read.
pub proof fn law_nodes_are_let_in(
    ids: Seq<Result<Option<Seq<char>>, Seq<char>>>,
    remote: Seq<char>,
    i: int,
)
    requires
        0 <= i < ids.len(),
        ids[i] == Ok::<Option<Seq<char>>, Seq<char>>(Some(remote)),
        forall|j: int| 0 <= j < i ==> (#[trigger] ids[j]) is Ok,
    ensures
        transport::peer_outcome(ids, remote) is Ok,
    decreases i,
{
    if i > 0 && ids[0] != Ok::<Option<Seq<char>>, Seq<char>>(Some(remote)) {
        let t = ids.skip(1);
        assert(ids[0] is Ok);
        assert(t[i - 1] == ids[i]);
        assert forall|j: int| 0 <= j < i - 1 implies (#[trigger] t[j]) is Ok by {
            assert(t[j] == ids[j + 1]);
        }
        law_nodes_are_let_in(t, remote, i - 1);
    }
}

/// The identifiers that peers are held against are those of the nodes, in order.
pub proof fn law_peers_are_held_against_the_nodes(nodes: Seq<NodeView>, i: int)
    requires
        0 <= i < nodes.len(),
    ensures
        transport::iroh_ids(nodes).len() == nodes.len(),
        nodes[i].iroh_addr is None ==> transport::iroh_ids(nodes)[i] == Ok::<
            Option<Seq<char>>,
            Seq<char>,
        >(None),
        nodes[i].iroh_addr is Some && transport::endpoint_id(nodes[i].iroh_addr->Some_0) is Ok
            ==> transport::iroh_ids(nodes)[i] == Ok::<Option<Seq<char>>, Seq<char>>(
            Some(transport::endpoint_id(nodes[i].iroh_addr->Some_0)->Ok_0),
        ),
        nodes[i].iroh_addr is Some && transport::endpoint_id(nodes[i].iroh_addr->Some_0) is Err
            ==> transport::iroh_ids(nodes)[i] is Err,
{
}

/// A node that learned its own address on iroh knows it, and that it was seen; all else stays.
pub proof fn law_own_address_is_kept(st: StateView, addr: Seq<char>, now: i64)
    requires
        state::well_formed(st),
        state::local(st) is Ok,
    ensures
        ({
            let own = state::local(st)->Ok_0;
            let after = transport::with_own_addr(st, addr, now);
            &&& table::find(after.nodes, own.slug) == Some(
                NodeView { iroh_addr: Some(addr), last_seen_at: Some(now), ..own },
            )
            &&& after.services == st.services
            &&& after.secrets == st.secrets
            &&& after.mesh == st.mesh
            &&& after.local_node_id == st.local_node_id
        }),
{
    let own = state::local(st)->Ok_0;
    let new = NodeView { iroh_addr: Some(addr), last_seen_at: Some(now), ..own };
    table::lemma_find_put(st.nodes, new, own.slug);
}

/// The port of a service on its host is the number before the colon.
pub proof fn law_ports_are_read(n: u16, inner: Seq<char>)
    ensures
        transport::host_port_outcome(number::decimal_nat(n as nat) + ":"@ + inner) == Ok::<
            u16,
            Seq<char>,
        >(n),
        transport::host_port_outcome(number::decimal_nat(n as nat)) == Ok::<u16, Seq<char>>(n),
{
    reveal_strlit(":");
    assert(":"@ =~= seq![':']);
    let d = number::decimal_nat(n as nat);
    number::lemma_decimal_nat(n as nat);
    assert(number::is_digit(d[0]));
    if d.contains(':') {
        let i = choose|i: int| 0 <= i < d.len() && d[i] == ':';
        assert(number::is_digit(d[i]));
    }
    text_laws::law_split_at_the_first(d, ':', inner);
}

/// The host of a daemon is what stands before its port.
pub proof fn law_hosts_are_read(host: Seq<char>, port: Seq<char>)
    requires
        !port.contains(':'),
    ensures
        transport::direct_host_of(host + ":"@ + port) == host,
{
    reveal_strlit(":");
    assert(":"@ =~= seq![':']);
    text_laws::law_split_at_the_last(host, ':', port);
}

/// A service is reached at its node and its port, directly where it is here or that was asked
/// for, and else over iroh.
pub proof fn law_services_are_reached_at_their_port(
    st: StateView,
    service: ServiceView,
    route: PeerRoute,
)
    ensures
        ({
            let r = transport::proxy_outcome(st, service, route);
            let node = state::node_with_id(st.nodes, service.node_id);
            &&& (r is Ok) == (node is Some && state::local(st) is Ok && service.port is Some
                && transport::host_port_outcome(service.port->Some_0) is Ok)
            &&& r is Ok ==> r->Ok_0.0 == node->Some_0 && transport::host_port_outcome(
                service.port->Some_0,
            ) == Ok::<u16, Seq<char>>(r->Ok_0.1) && (r->Ok_0.2 == Link::Direct <==> state::local(
                st,
            )->Ok_0.id == node->Some_0.id || route == PeerRoute::Direct)
        }),
{
}

// ---------------------------------------------------------------------------
// Addresses and files.

/// The hosted hub goes by three names; any other reference is an address.
pub proof fn law_the_hosted_hub_has_its_names(raw: Seq<char>)
    ensures
        raw == "hosted"@ || raw == "via"@ || raw == "default"@ ==> urls::hub_ref_outcome(raw, None)
            == Ok::<Seq<char>, Seq<char>>("https://hub.via.pompeiilabs.com"@),
        raw != "hosted"@ && raw != "via"@ && raw != "default"@ ==> urls::hub_ref_outcome(raw, None)
            == urls::http_url_outcome(raw),
{
}

/// A hub's address has to be one of the web, and is kept without slashes at its end; an agent
/// connects to it securely exactly where it is itself secure.
pub proof fn law_hubs_are_on_the_web(
    scheme: Seq<char>,
    path: Seq<char>,
    end: usize,
)
    ensures
        ({
            let parts = Ok::<(Seq<char>, Seq<char>, usize), Seq<char>>((scheme, path, end));
            let r = urls::hub_path_outcome(parts);
            let s = urls::socket_scheme_outcome(parts);
            &&& scheme != "http"@ && scheme != "https"@ ==> r is Err && s is Err
            &&& (scheme == "http"@ || scheme == "https"@) && end <= 0xffff_ffff ==> r is Ok
                && r->Ok_0.is_prefix_of(path) && (r->Ok_0.len() > 0 ==> r->Ok_0.last() != '/')
            &&& scheme == "https"@ ==> s == Ok::<Seq<char>, Seq<char>>("wss"@)
            &&& scheme == "http"@ ==> s == Ok::<Seq<char>, Seq<char>>("ws"@)
        }),
{
    text_laws::law_only_the_class_is_dropped(path, text::only('/'));
    reveal_strlit("http");
    reveal_strlit("https");
    assert("http"@.len() != "https"@.len());
}

/// An agent tells the hub its mesh, its identifier, its slug, and its token if it has one, each
/// under its name.
pub proof fn law_agents_say_who_they_are(
    mesh: Seq<char>,
    node: Seq<char>,
    slug: Seq<char>,
    token: Option<Seq<char>>,
)
    ensures
        ({
            let pairs = urls::agent_pairs(mesh, node, slug, token);
            &&& pairs.contains(("mesh"@, mesh))
            &&& pairs.contains(("node"@, node))
            &&& pairs.contains(("slug"@, slug))
            &&& token is Some ==> pairs.contains(("token"@, token->Some_0))
            &&& pairs.len() == if token is Some {
                4int
            } else {
                3int
            }
        }),
{
    let pairs = urls::agent_pairs(mesh, node, slug, token);
    assert(pairs[0] == ("mesh"@, mesh));
    assert(pairs[1] == ("node"@, node));
    assert(pairs[2] == ("slug"@, slug));
    if token is Some {
        assert(pairs[3] == ("token"@, token->Some_0));
    }
}

/// Each file of a node has its own name in the node's directory.
pub proof fn law_files_are_in_the_nodes_directory(root: Seq<char>)
    requires
        root.len() > 0,
        root.last() != '/',
    ensures
        ({
            let p = paths::paths_under(root);
            &&& p.root == root
            &&& p.lux == root + "/lux"@
            &&& p.logs == root + "/logs"@
            &&& p.bin == root + "/bin"@
            &&& p.mesh_key == root + "/mesh.key"@
            &&& p.hub_config == root + "/hub.json"@
            &&& p.auth_config == root + "/auth.json"@
            &&& p.iroh_key == root + "/iroh.key"@
        }),
{
    reveal_strlit("/");
    reveal_strlit("lux");
    reveal_strlit("/lux");
    reveal_strlit("logs");
    reveal_strlit("/logs");
    reveal_strlit("bin");
    reveal_strlit("/bin");
    reveal_strlit("mesh.key");
    reveal_strlit("/mesh.key");
    reveal_strlit("hub.json");
    reveal_strlit("/hub.json");
    reveal_strlit("auth.json");
    reveal_strlit("/auth.json");
    reveal_strlit("iroh.key");
    reveal_strlit("/iroh.key");
    let p = paths::paths_under(root);
    assert(p.lux =~= root + "/lux"@);
    assert(p.logs =~= root + "/logs"@);
    assert(p.bin =~= root + "/bin"@);
    assert(p.mesh_key =~= root + "/mesh.key"@);
    assert(p.hub_config =~= root + "/hub.json"@);
    assert(p.auth_config =~= root + "/auth.json"@);
    assert(p.iroh_key =~= root + "/iroh.key"@);
}

// ---------------------------------------------------------------------------
// Usage.

/// What is reported of a node names its account, mesh and node, one event for each thing that
/// happened, in order; nothing is reported without an account.
pub proof fn law_usage_names_the_account(
    account: Seq<char>,
    mesh: Seq<char>,
    node: Seq<char>,
    types: Seq<Seq<char>>,
    now: i64,
    i: int,
)
    requires
        0 <= i < types.len(),
    ensures
        usage::node_events(None, mesh, node, types, now).len() == 0,
        usage::node_events(Some(account), mesh, node, types, now).len() == types.len(),
        usage::node_events(Some(account), mesh, node, types, now)[i] == (UsageView {
            account_id: account,
            mesh_id: mesh,
            node_id: node,
            event_type: types[i],
            timestamp: now,
        }),
{
}

/// Usage is reported exactly where both the address and the token for that are set.
pub proof fn law_usage_needs_address_and_token(url: Option<Seq<char>>, token: Option<Seq<char>>)
    ensures
        (usage::reporter_setting(url, token) is Some) == (url is Some && url->Some_0.len() > 0
            && token is Some && token->Some_0.len() > 0),
        usage::reporter_setting(url, token) is Some ==> usage::reporter_setting(url, token)
            == Some((url->Some_0, token->Some_0)),
{
}

/// No event is lost by a failure to send: a batch that could not be sent stays, and one that
/// was sent is gone. An event that comes is put last, unless there is no room for it.
pub proof fn law_unsent_usage_is_kept(q: QueueView, e: UsageView)
    ensures
        usage::queue_after(q, QueueEvent::Posted(false)).pending == q.pending,
        usage::queue_after(q, QueueEvent::Ticked(false)).pending == q.pending,
        usage::queue_after(q, QueueEvent::Posted(true)).pending.len() == 0,
        usage::queue_after(q, QueueEvent::Ticked(true)).pending.len() == 0,
        q.pending.len() < q.max_pending ==> usage::queue_after(
            q,
            QueueEvent::Received(e),
        ).pending == q.pending.push(e),
        q.pending.len() >= q.max_pending ==> usage::queue_after(q, QueueEvent::Received(e)) == q,
{
}

/// A full batch is sent at once, what waits is sent when it is time, and after a failure in time
/// the next try waits; the first wait is one second and none is longer than a minute.
pub proof fn law_when_usage_is_sent(q: QueueView, e: crate::usage::UsageEvent)
    ensures
        q.pending.len() + 1 >= q.batch_size && q.pending.len() < q.max_pending
            ==> usage::reporter_action(q, ReporterEvent::Received(e)) == ReporterAction::Post,
        q.pending.len() + 1 < q.batch_size && q.pending.len() < q.max_pending
            ==> usage::reporter_action(q, ReporterEvent::Received(e)) == ReporterAction::Drain,
        (usage::reporter_action(q, ReporterEvent::Tick) == ReporterAction::PostInTime)
            == (q.pending.len() > 0),
        usage::reporter_action(q, ReporterEvent::TickPosted(true)) == ReporterAction::Wait,
        usage::reporter_action(q, ReporterEvent::TickPosted(false)) == ReporterAction::Sleep(
            q.backoff as u64,
        ),
        usage::reporter_action(q, ReporterEvent::Closed) == ReporterAction::Stop,
        usage::new_queue(q.batch_size, q.max_pending).backoff == 1,
        usage::new_queue(q.batch_size, q.max_pending).pending.len() == 0,
        usage::queue_after(q, QueueEvent::Ticked(false)).backoff == if q.backoff <= 30 {
            2 * q.backoff
        } else {
            60
        },
        usage::queue_after(q, QueueEvent::Ticked(true)).backoff == 1,
{
}

// ---------------------------------------------------------------------------
// The hosted hub.

/// A hub is the hosted one exactly where its address is the hosted hub's, or the one that is set
/// for that.
pub proof fn law_which_hub_is_hosted(url: Seq<char>, setting: Seq<char>)
    requires
        urls::http_url_outcome(url) is Ok,
        text::trimmed(setting).len() > 0,
        urls::http_url_outcome(text::trimmed(setting)) is Ok,
    ensures
        urls::is_hosted_outcome(url, None) == Ok::<bool, Seq<char>>(
            urls::http_url_outcome(url)->Ok_0 == "https://hub.via.pompeiilabs.com"@,
        ),
        urls::is_hosted_outcome(url, Some(setting)) == Ok::<bool, Seq<char>>(
            urls::http_url_outcome(url) == urls::http_url_outcome(text::trimmed(setting)),
        ),
        urls::hub_ref_outcome("hosted"@, Some(setting)) == urls::http_url_outcome(
            text::trimmed(setting),
        ),
{
}

/// A time is shown as the clock shows it, and as a number where it cannot.
pub proof fn law_times_are_shown(ts: i64, shown: Seq<char>)
    ensures
        util::time_text(ts, Some(shown)) == shown,
        number::read_signed(util::time_text(ts, None)) == Some(ts as int),
{
    number::lemma_read_back(ts);
}

/// Numbers are written in decimal: one digit for each number below ten, and for others the
/// digits of the tens before the last digit.
pub proof fn law_numbers_are_written_in_decimal(n: nat, d: nat)
    requires
        d < 10,
    ensures
        number::decimal_nat(d).len() == 1,
        number::decimal_nat(d)[0] as u32 == 48 + d,
        n > 0 ==> number::decimal_nat(10 * n + d) == number::decimal_nat(n) + number::decimal_nat(
            d,
        ),
        n > 0 ==> number::decimal(-(n as int)) == seq!['-'] + number::decimal_nat(n),
{
    if n > 0 {
        assert((10 * n + d) / 10 == n && (10 * n + d) % 10 == d);
        assert(number::decimal_nat(10 * n + d) =~= number::decimal_nat(n) + number::decimal_nat(d));
    }
}

/// What is kept of a secret depends on the secret by what is sealed of it alone: where two are
/// sealed alike, what is kept of them is the same.
pub proof fn law_secrets_are_kept_sealed(key: Seq<u8>, nonce: Seq<u8>, a: Seq<char>, b: Seq<char>)
    requires
        key.len() == 32,
        vstd::utf8::encode_utf8(a).len() <= crate::crypto::LONGEST_PLAINTEXT,
        vstd::utf8::encode_utf8(b).len() <= crate::crypto::LONGEST_PLAINTEXT,
        crate::crypto::gcm_sealed(key, nonce, vstd::utf8::encode_utf8(a))
            == crate::crypto::gcm_sealed(key, nonce, vstd::utf8::encode_utf8(b)),
    ensures
        security::encrypt_outcome(key, nonce, a) is Ok,
        security::encrypt_outcome(key, nonce, a) == security::encrypt_outcome(key, nonce, b),
{
}

} // verus!
