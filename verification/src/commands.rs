//! Commands about the mesh and its nodes.

use crate::cli::RouteMode;
use crate::docker::local_docker_check;
use crate::event;
use crate::hub;
use crate::hub::{as_node, ConfigView, HubConfig, HubNode, HubNodeView};
use crate::ids;
use crate::ids::fresh_id;
use crate::model;
use crate::model::{text_value, Mesh, MeshSnapshot, MeshView, Node, NodeView, Payload, Value};
use crate::paths;
use crate::paths::{path_inside, ViaPaths};
use crate::process;
use crate::process::{shell_quote, Run, RunView};
use crate::routes;
use crate::rpc::{RequestView, RpcRequest};
use crate::ssh;
use crate::ssh::bootstrap;
use crate::state;
use crate::state::{StateView, ViaState};
use crate::table;
use crate::table::{lookup, store};
use crate::text;
use crate::text::{copy_texts, join, pad, rsplit_once_char, same, trim};
use crate::util;
use crate::util::normalize_slug;
use vstd::prelude::*;

verus! {

/// The port at which daemons listen.
pub const DAEMON_PORT: &'static str = ":47819";

/// That something was recorded after `before`, under some fresh identifier.
pub open spec fn was_recorded(
    before: StateView,
    after: StateView,
    kind: Seq<char>,
    payload: model::PayloadView,
    now: i64,
) -> bool {
    exists|id: Seq<char>|
        ids::is_id(id) && after == #[trigger] state::recorded(before, id, kind, payload, now)
}

/// That something was recorded after `before`, and then everything written to disk.
pub open spec fn was_recorded_and_saved(
    before: StateView,
    after: StateView,
    kind: Seq<char>,
    payload: model::PayloadView,
    now: i64,
) -> bool {
    exists|id: Seq<char>|
        ids::is_id(id) && after == state::persisted(
            #[trigger] state::recorded(before, id, kind, payload, now),
        )
}

// ---------------------------------------------------------------------------
// Initializing.

/// This machine as a node of a mesh.
pub open spec fn home_node(id: Seq<char>, slug: Seq<char>, host: Seq<char>, now: i64) -> NodeView {
    NodeView {
        id,
        slug,
        display_name: host,
        addresses: seq![host],
        daemon_addr: host + DAEMON_PORT@,
        iroh_addr: None,
        public: false,
        created_at: now,
        last_seen_at: Some(now),
    }
}

/// The identifier that was given, or a fresh one.
pub open spec fn given_or_fresh(given: Option<Seq<char>>, id: Seq<char>) -> bool {
    match given {
        Some(g) => id == g,
        None => ids::is_id(id),
    }
}

/// The state after this machine was recorded anew as a node of its mesh.
pub open spec fn refreshed(st: StateView, node: NodeView, event_id: Seq<char>, now: i64) -> StateView {
    state::recorded(
        state::with_node(state::with_local_node(st, node.id), node),
        event_id,
        "node.refreshed"@,
        model::node_payload(node),
        now,
    )
}

/// The state after a mesh was made with this machine as its first node.
pub open spec fn initialized(
    st: StateView,
    mesh: MeshView,
    node: NodeView,
    mesh_event: Seq<char>,
    node_event: Seq<char>,
    now: i64,
) -> StateView {
    let joined = state::with_node(
        state::with_local_node(state::with_mesh(st, mesh), node.id),
        node,
    );
    state::recorded(
        state::recorded(joined, mesh_event, "mesh.initialized"@, model::mesh_payload(mesh), now),
        node_event,
        "node.joined"@,
        model::node_payload(node),
        now,
    )
}

/// The name of this machine and the slug it gets, or what is said of it.
pub open spec fn home_outcome(
    name: Option<Seq<char>>,
    host: Result<Seq<char>, Seq<char>>,
) -> Result<(Seq<char>, Seq<char>), Seq<char>> {
    match host {
        Err(e) => Err(e),
        Ok(h) => match util::slug_outcome(
            match name {
                Some(n) => n,
                None => h,
            },
        ) {
            Err(e) => Err(e),
            Ok(s) => Ok((h, s)),
        },
    }
}

/// Whether this machine's name is needed to initialize it.
pub open spec fn needs_host(
    st: StateView,
    name: Option<Seq<char>>,
    node_id: Option<Seq<char>>,
) -> bool {
    st.mesh is None || (name is Some && node_id is Some)
}

/// That `after` and `r` are what comes of initializing this machine.
pub open spec fn is_init(
    before: StateView,
    name: Option<Seq<char>>,
    mesh_id: Option<Seq<char>>,
    node_id: Option<Seq<char>>,
    host: Result<Seq<char>, Seq<char>>,
    now: i64,
    after: StateView,
    r: Result<Seq<char>, Seq<char>>,
) -> bool {
    if !needs_host(before, name, node_id) {
        after == before && r == Ok::<Seq<char>, Seq<char>>("Via mesh already initialized."@)
    } else {
        match home_outcome(name, host) {
            Err(e) => after == before && r == Err::<Seq<char>, Seq<char>>(e),
            Ok(p) => if before.mesh is Some {
                r == Ok::<Seq<char>, Seq<char>>("Refreshed Via node '"@ + p.1 + "'."@) && exists|
                    event: Seq<char>,
                |
                    ids::is_id(event) && after == #[trigger] refreshed(
                        before,
                        home_node(node_id->Some_0, p.1, p.0, now),
                        event,
                        now,
                    )
            } else {
                exists|m: Seq<char>, n: Seq<char>, e1: Seq<char>, e2: Seq<char>|
                    given_or_fresh(mesh_id, m) && given_or_fresh(node_id, n) && ids::is_id(e1)
                        && ids::is_id(e2) && after == #[trigger] initialized(
                        before,
                        MeshView { id: m, created_at: now },
                        home_node(n, p.1, p.0, now),
                        e1,
                        e2,
                        now,
                    ) && r == Ok::<Seq<char>, Seq<char>>(
                        "Initialized Via mesh "@ + m + " as node '"@ + p.1 + "'."@,
                    )
            },
        }
    }
}

fn this_node(id: String, slug: String, host: String, now: i64) -> (r: Node)
    ensures
        r@ == home_node(id@, slug@, host@, now),
{
    let addresses = vec![host.clone()];
    proof {
        assert(text::texts(addresses@) =~= seq![host@]);
    }
    Node {
        id,
        slug,
        display_name: host.clone(),
        addresses,
        daemon_addr: host.concat(DAEMON_PORT),
        iroh_addr: None,
        public: false,
        created_at: now,
        last_seen_at: Some(now),
    }
}

/// Whether this machine's name is needed to initialize it.
pub fn init_needs_host(state: &ViaState, name: &Option<String>, node_id: &Option<String>) -> (r:
    bool)
    ensures
        r == needs_host(state@, text::opt_text(*name), text::opt_text(*node_id)),
{
    state.mesh().is_none() || (name.is_some() && node_id.is_some())
}

/// Makes a mesh with this machine as its first node. A machine that belongs to a
/// mesh stays in it; it is recorded anew if its name and identifier are given.
/// `host` is this machine's name. Returns what is shown.
pub fn init(
    state: &mut ViaState,
    name: Option<String>,
    mesh_id: Option<String>,
    node_id: Option<String>,
    host: Result<String, String>,
    now: i64,
) -> (r: Result<String, String>)
    requires
        old(state).wf(),
    ensures
        final(state).wf(),
        is_init(
            old(state)@,
            text::opt_text(name),
            text::opt_text(mesh_id),
            text::opt_text(node_id),
            text::text_outcome(host),
            now,
            final(state)@,
            text::text_outcome(r),
        ),
{
    let had_mesh = state.mesh().is_some();
    if had_mesh && (name.is_none() || node_id.is_none()) {
        return Ok("Via mesh already initialized.".to_owned());
    }
    let host = match host {
        Ok(h) => h,
        Err(e) => return Err(e),
    };
    let slug = match &name {
        Some(n) => normalize_slug(n.as_str()),
        None => normalize_slug(host.as_str()),
    };
    let slug = match slug {
        Ok(s) => s,
        Err(e) => return Err(e),
    };
    let node_id = match node_id {
        Some(id) => id,
        None => fresh_id(),
    };
    let node = this_node(node_id, slug.clone(), host, now);
    if had_mesh {
        state.save_local_node_id(node.id.as_str());
        state.upsert_node(&node);
        let event = state.append_event("node.refreshed", node.payload(), now);
        proof {
            assert(state@ == refreshed(old(state)@, node@, event@, now));
        }
        return Ok("Refreshed Via node '".to_owned().concat(slug.as_str()).concat("'."));
    }
    let mesh_id = match mesh_id {
        Some(id) => id,
        None => fresh_id(),
    };
    let mesh = Mesh { id: mesh_id, created_at: now };
    state.save_mesh(&mesh);
    state.save_local_node_id(node.id.as_str());
    state.upsert_node(&node);
    let mesh_event = state.append_event("mesh.initialized", mesh.payload(), now);
    let node_event = state.append_event("node.joined", node.payload(), now);
    proof {
        assert(state@ == initialized(old(state)@, mesh@, node@, mesh_event@, node_event@, now));
    }
    Ok(
        "Initialized Via mesh ".to_owned().concat(mesh.id.as_str()).concat(" as node '").concat(
            slug.as_str(),
        ).concat("'."),
    )
}

/// A mesh that was made is the one that the node knows, and the node is the local
/// one and has its slug.
pub proof fn law_init_makes_a_mesh(
    st: StateView,
    mesh: MeshView,
    node: NodeView,
    mesh_event: Seq<char>,
    node_event: Seq<char>,
    now: i64,
)
    requires
        state::well_formed(st),
        forall|i: int| 0 <= i < st.nodes.len() ==> (#[trigger] st.nodes[i]).id != node.id,
    ensures
        ({
            let after = initialized(st, mesh, node, mesh_event, node_event, now);
            &&& after.mesh == Some(mesh)
            &&& state::local(after) == Ok::<NodeView, Seq<char>>(node)
            &&& table::find(after.nodes, node.slug) == Some(node)
        }),
{
    let nodes = table::put(st.nodes, node);
    table::lemma_find_put(st.nodes, node, node.slug);
    table::lemma_rank(st.nodes, node.slug);
    let r = table::rank(st.nodes, node.slug);
    assert(nodes[r] == node);
    assert forall|j: int| 0 <= j < r implies (#[trigger] nodes[j]).id != node.id by {
        assert(nodes[j] == st.nodes[j]);
    }
    lemma_first_with_id(nodes, node.id, r);
}

proof fn lemma_first_with_id(nodes: Seq<NodeView>, id: Seq<char>, i: int)
    requires
        0 <= i < nodes.len(),
        nodes[i].id == id,
        forall|j: int| 0 <= j < i ==> (#[trigger] nodes[j]).id != id,
    ensures
        state::node_with_id(nodes, id) == Some(nodes[i]),
    decreases i,
{
    if i > 0 {
        assert(nodes[0].id != id);
        let t = nodes.skip(1);
        assert forall|j: int| 0 <= j < i - 1 implies (#[trigger] t[j]).id != id by {
            assert(nodes[j + 1].id != id);
        }
        lemma_first_with_id(t, id, i - 1);
    }
}

// ---------------------------------------------------------------------------
// Adding a node.

/// What is to be done to add a machine to the mesh.
#[derive(Debug)]
pub struct AddPlan {
    pub slug: String,
    pub node_id: String,
    pub existed: bool,
    pub runs: Vec<Run>,
}

/// The mesh and the slug for a machine that is added, or what is said of it.
pub open spec fn add_outcome(st: StateView, ssh_host: Seq<char>, name: Option<Seq<char>>) -> Result<
    (Seq<char>, Seq<char>),
    Seq<char>,
> {
    match st.mesh {
        None => Err("run `via init` before adding nodes"@),
        Some(m) => match util::slug_outcome(
            match name {
                Some(n) => n,
                None => ssh_host,
            },
        ) {
            Err(e) => Err(e),
            Ok(s) => Ok((m.id, s)),
        },
    }
}

/// Finds out what is to be done to add a machine to the mesh. A node with the slug
/// keeps its identifier; a new one gets a fresh one.
pub fn add_node(
    state: &ViaState,
    paths: &ViaPaths,
    ssh_host: &str,
    name: &Option<String>,
    version: &str,
) -> (r: Result<AddPlan, String>)
    ensures
        match add_outcome(state@, ssh_host@, text::opt_text(*name)) {
            Err(e) => r is Err && r->Err_0@ == e,
            Ok(p) => r matches Ok(plan) && plan.slug@ == p.1 && plan.existed == (table::find(
                state@.nodes,
                p.1,
            ) is Some) && given_or_fresh(
                match table::find(state@.nodes, p.1) {
                    Some(n) => Some(n.id),
                    None => None,
                },
                plan.node_id@,
            ) && process::runs(plan.runs@) == ssh::bootstrap_runs(
                ssh_host@,
                paths@,
                p.1,
                p.0,
                plan.node_id@,
                version@,
            ),
        },
{
    let mesh = match state.mesh() {
        Some(m) => m,
        None => return Err("run `via init` before adding nodes".to_owned()),
    };
    let slug = match name {
        Some(n) => normalize_slug(n.as_str()),
        None => normalize_slug(ssh_host),
    };
    let slug = match slug {
        Ok(s) => s,
        Err(e) => return Err(e),
    };
    let existing = state.node_by_slug(slug.as_str());
    let existed = existing.is_some();
    let node_id = match existing {
        Some(n) => n.id,
        None => fresh_id(),
    };
    let runs = bootstrap(
        ssh_host,
        paths,
        slug.as_str(),
        mesh.id.as_str(),
        node_id.as_str(),
        version,
    );
    Ok(AddPlan { slug, node_id, existed, runs })
}

/// Where the daemon of a machine is reached.
pub fn daemon_addr_of(host: &str) -> (r: String)
    ensures
        r@ == host@ + DAEMON_PORT@,
{
    host.to_owned().concat(DAEMON_PORT)
}

/// A machine that was added, as a node.
pub open spec fn added_node(
    id: Seq<char>,
    slug: Seq<char>,
    ssh_host: Seq<char>,
    daemon_host: Seq<char>,
    public: bool,
    now: i64,
) -> NodeView {
    NodeView {
        id,
        slug,
        display_name: ssh_host,
        addresses: seq![ssh_host],
        daemon_addr: daemon_host + DAEMON_PORT@,
        iroh_addr: None,
        public,
        created_at: now,
        last_seen_at: None,
    }
}

/// Keeps a machine that was added. Returns what is shown.
pub fn node_added(
    state: &mut ViaState,
    plan: &AddPlan,
    ssh_host: &str,
    daemon_host: &str,
    public: bool,
    now: i64,
) -> (r: String)
    requires
        old(state).wf(),
    ensures
        final(state).wf(),
        was_recorded(
            state::with_node(
                old(state)@,
                added_node(plan.node_id@, plan.slug@, ssh_host@, daemon_host@, public, now),
            ),
            final(state)@,
            if plan.existed {
                "node.refreshed"@
            } else {
                "node.joined"@
            },
            model::node_payload(
                added_node(plan.node_id@, plan.slug@, ssh_host@, daemon_host@, public, now),
            ),
            now,
        ),
        r@ == (if plan.existed {
            "Refreshed node '"@
        } else {
            "Added node '"@
        }) + plan.slug@ + "'."@,
{
    let addresses = vec![ssh_host.to_owned()];
    proof {
        assert(text::texts(addresses@) =~= seq![ssh_host@]);
    }
    let node = Node {
        id: plan.node_id.clone(),
        slug: plan.slug.clone(),
        display_name: ssh_host.to_owned(),
        addresses,
        daemon_addr: daemon_addr_of(daemon_host),
        iroh_addr: None,
        public,
        created_at: now,
        last_seen_at: None,
    };
    state.upsert_node(&node);
    let kind = if plan.existed {
        "node.refreshed"
    } else {
        "node.joined"
    };
    state.append_event(kind, node.payload(), now);
    let verb = if plan.existed {
        "Refreshed node '"
    } else {
        "Added node '"
    };
    verb.to_owned().concat(plan.slug.as_str()).concat("'.")
}

/// What is to be done for a machine that was added, so that it is reached through
/// the hub too.
#[derive(Debug)]
pub enum HubSetup {
    Nothing,
    Warn(String),
    Do(Run),
}

/// That `s` is what is to be done for a machine that was added.
pub open spec fn is_hub_setup(
    s: HubSetup,
    config: Option<ConfigView>,
    admin: Option<Seq<char>>,
    ssh_host: Seq<char>,
) -> bool {
    match config {
        None => s is Nothing,
        Some(c) => match admin {
            None => s matches HubSetup::Warn(w) && w@
                == "warning: hub is configured locally, but VIA_HUB_ADMIN_TOKEN is not set; run `via hub use "@
                + c.url + "` on '"@ + ssh_host + "' to enable hub fallback"@,
            Some(t) => if t.len() == 0 {
                s is Nothing
            } else {
                s matches HubSetup::Do(run) && run@ == ssh::ssh_run(
                    ssh_host,
                    "VIA_HUB_ADMIN_TOKEN="@ + process::quoted(t) + " ~/.via/bin/via hub use "@
                        + process::quoted(c.url),
                )
            },
        },
    }
}

/// Lets a machine that was added use the hub, if there is one and its
/// administrator's token is at hand.
pub fn configure_hub_for_added_node(
    config: &Option<HubConfig>,
    admin: Option<&str>,
    ssh_host: &str,
) -> (r: HubSetup)
    ensures
        is_hub_setup(r, hub::opt_config(*config), text::opt_str(admin), ssh_host@),
{
    let config = match config {
        Some(c) => c,
        None => return HubSetup::Nothing,
    };
    let token = match admin {
        Some(t) => t,
        None => return HubSetup::Warn(
            "warning: hub is configured locally, but VIA_HUB_ADMIN_TOKEN is not set; run `via hub use ".to_owned().concat(
                config.url.as_str(),
            ).concat("` on '").concat(ssh_host).concat("' to enable hub fallback"),
        ),
    };
    if token.is_empty() {
        return HubSetup::Nothing;
    }
    let command = "VIA_HUB_ADMIN_TOKEN=".to_owned().concat(shell_quote(token).as_str()).concat(
        " ~/.via/bin/via hub use ",
    ).concat(shell_quote(config.url.as_str()).as_str());
    HubSetup::Do(ssh::remote(ssh_host, command.as_str()))
}

// ---------------------------------------------------------------------------
// Synchronizing.

/// Whom a node tells what it knows: their slugs and where they are reached.
#[derive(Debug)]
pub struct SyncPlan {
    pub snapshot: MeshSnapshot,
    pub targets: Vec<(String, String)>,
}

/// The slugs and addresses of the other nodes.
pub open spec fn sync_targets(nodes: Seq<NodeView>) -> Seq<(Seq<char>, Seq<char>)>
    decreases nodes.len(),
{
    if nodes.len() == 0 {
        Seq::empty()
    } else if nodes.last().last_seen_at is Some {
        sync_targets(nodes.drop_last())
    } else {
        sync_targets(nodes.drop_last()).push((nodes.last().slug, nodes.last().daemon_addr))
    }
}

/// What a node tells the others, and whom.
pub fn sync_all(state: &ViaState) -> (r: SyncPlan)
    ensures
        r.snapshot@ == state::snapshot_of(state@),
        crate::urls::pairs_view(r.targets@) == sync_targets(state@.nodes),
{
    let snapshot = state.snapshot();
    let ghost all = state@.nodes;
    let mut targets: Vec<(String, String)> = Vec::new();
    let mut i: usize = 0;
    proof {
        assert(crate::urls::pairs_view(targets@) =~= sync_targets(all.take(0)));
    }
    while i < snapshot.nodes.len()
        invariant
            i <= snapshot.nodes.len(),
            all == model::shapes(snapshot.nodes@),
            crate::urls::pairs_view(targets@) == sync_targets(all.take(i as int)),
        decreases snapshot.nodes.len() - i,
    {
        let node = &snapshot.nodes[i];
        proof {
            let next = all.take(i + 1);
            assert(next.drop_last() == all.take(i as int));
            assert(next.last() == node@);
        }
        if node.last_seen_at.is_none() {
            let target = (node.slug.clone(), node.daemon_addr.clone());
            let ghost before = targets@;
            targets.push(target);
            proof {
                assert(crate::urls::pairs_view(targets@) =~= crate::urls::pairs_view(before).push(
                    (target.0@, target.1@),
                ));
            }
        }
        i += 1;
    }
    proof {
        assert(all.take(all.len() as int) == all);
    }
    SyncPlan { snapshot, targets }
}

/// All nodes but those that were seen here are told, each once and in order, and no one
/// else.
pub proof fn law_every_other_node_is_told(nodes: Seq<NodeView>)
    ensures
        sync_targets(nodes) == nodes.filter(|n: NodeView| n.last_seen_at is None).map_values(
            |n: NodeView| (n.slug, n.daemon_addr),
        ),
        forall|i: int|
            0 <= i < nodes.len() && (#[trigger] nodes[i]).last_seen_at is None ==> sync_targets(
                nodes,
            ).contains((nodes[i].slug, nodes[i].daemon_addr)),
    decreases nodes.len(),
{
    reveal(Seq::filter);
    let other = |n: NodeView| n.last_seen_at is None;
    let told = |n: NodeView| (n.slug, n.daemon_addr);
    let t = sync_targets(nodes);
    if nodes.len() == 0 {
        assert(nodes.filter(other).map_values(told) =~= t);
    } else {
        let p = nodes.drop_last();
        let n = nodes.len() - 1;
        let before = sync_targets(p);
        law_every_other_node_is_told(p);
        assert(nodes.filter(other).map_values(told) =~= t);
        assert forall|i: int|
            0 <= i < nodes.len() && (#[trigger] nodes[i]).last_seen_at is None implies t.contains(
            (nodes[i].slug, nodes[i].daemon_addr),
        ) by {
            if i < n {
                assert(p[i] == nodes[i]);
                let j = choose|j: int|
                    0 <= j < before.len() && before[j] == (p[i].slug, p[i].daemon_addr);
                assert(t[j] == before[j]);
            } else {
                assert(t[t.len() - 1] == (nodes[i].slug, nodes[i].daemon_addr));
            }
        }
    }
}

/// What is said of a node that could not be told.
pub fn sync_warning(slug: &str, error: &str) -> (r: String)
    ensures
        r@ == "warning: failed to sync node '"@ + slug@ + "': "@ + error@,
{
    "warning: failed to sync node '".to_owned().concat(slug).concat("': ").concat(error)
}

// ---------------------------------------------------------------------------
// Starting the daemon.

/// What is to be done to start the daemon.
#[derive(Debug)]
pub struct StartPlan {
    pub dirs: Vec<String>,
    pub run: Run,
    pub probe: String,
    pub done: String,
}

/// Where a daemon that listens at `bind` is reached from here.
pub open spec fn probe_addr(bind: Seq<char>) -> Seq<char> {
    match text::rsplit_once(bind, ':') {
        Some(p) => "127.0.0.1:"@ + p.1,
        None => "127.0.0.1:47819"@,
    }
}

/// Where a daemon that listens at `bind` is reached from here.
pub fn local_probe_addr(bind: &str) -> (r: String)
    ensures
        r@ == probe_addr(bind@),
{
    match rsplit_once_char(bind, ':') {
        Some(p) => "127.0.0.1:".to_owned().concat(p.1),
        None => "127.0.0.1:47819".to_owned(),
    }
}

/// What starts the daemon.
pub open spec fn launch_line(exe: Seq<char>, bind: Seq<char>, log: Seq<char>) -> Seq<char> {
    "nohup '"@ + exe + "' daemon --bind '"@ + bind + "' > '"@ + log + "' 2>&1 &"@
}

/// Starts the daemon, unless `running` says that it runs; `exe` is Via's own
/// program. Without a plan there is only something to show.
pub fn start(paths: &ViaPaths, bind: &str, exe: &str, running: bool) -> (r: Result<
    StartPlan,
    String,
>)
    ensures
        match r {
            Err(line) => running && line@ == "Via daemon is already running."@,
            Ok(p) => !running && text::texts(p.dirs@) == seq![
                paths@.root,
                paths@.lux,
                paths@.logs,
                paths@.bin,
            ] && p.run@ == RunView::Shell(
                launch_line(exe@, bind@, paths::inside(paths@.root, "daemon.log"@)),
            ) && p.probe@ == probe_addr(bind@) && p.done@ == "Via daemon started on "@ + bind@
                + "."@,
        },
{
    if running {
        return Err("Via daemon is already running.".to_owned());
    }
    let log = path_inside(paths.root.as_str(), "daemon.log");
    let line = "nohup '".to_owned().concat(exe).concat("' daemon --bind '").concat(bind).concat(
        "' > '",
    ).concat(log.as_str()).concat("' 2>&1 &");
    Ok(
        StartPlan {
            dirs: paths.ensure(),
            run: Run::Shell(line),
            probe: local_probe_addr(bind),
            done: "Via daemon started on ".to_owned().concat(bind).concat("."),
        },
    )
}

// ---------------------------------------------------------------------------
// Checking the node.

/// Something to find out about a node.
#[derive(Debug)]
pub enum Probe {
    /// Whether Docker can be used here.
    Docker { label: String, run: Run },
    /// Whether the daemon at `addr` answers.
    Ping { label: String, addr: String },
}

#[verifier::ext_equal]
pub enum ProbeView {
    Docker { label: Seq<char>, run: RunView },
    Ping { label: Seq<char>, addr: Seq<char> },
}

impl View for Probe {
    type V = ProbeView;

    open spec fn view(&self) -> ProbeView {
        match self {
            Probe::Docker { label, run } => ProbeView::Docker { label: label@, run: run@ },
            Probe::Ping { label, addr } => ProbeView::Ping { label: label@, addr: addr@ },
        }
    }
}

/// What is to be found out about a node, where `own` is the local one.
pub open spec fn probe_of(n: NodeView, own: Result<NodeView, Seq<char>>) -> ProbeView {
    if own matches Ok(l) && l.id == n.id {
        ProbeView::Docker {
            label: "docker on "@ + n.slug,
            run: RunView::Shell("docker version >/dev/null"@),
        }
    } else {
        ProbeView::Ping {
            label: "daemon "@ + n.slug + " "@ + n.daemon_addr,
            addr: n.daemon_addr,
        }
    }
}

/// What is to be found out about all nodes.
pub open spec fn probes_of(nodes: Seq<NodeView>, own: Result<NodeView, Seq<char>>) -> Seq<
    ProbeView,
> {
    nodes.map_values(|n: NodeView| probe_of(n, own))
}

/// Several things to find out.
pub open spec fn probes(v: Seq<Probe>) -> Seq<ProbeView> {
    v.map_values(|p: Probe| p@)
}

/// What is to be found out about the nodes of the mesh.
pub fn doctor_probes(state: &ViaState) -> (r: Vec<Probe>)
    ensures
        probes(r@) == probes_of(state@.nodes, state::local(state@)),
{
    let own = state.local_node();
    let nodes = state.nodes();
    let ghost all = probes_of(state@.nodes, state::local(state@));
    let mut out: Vec<Probe> = Vec::new();
    let mut i: usize = 0;
    while i < nodes.len()
        invariant
            i <= nodes.len(),
            model::shapes(nodes@) == state@.nodes,
            all == probes_of(state@.nodes, state::local(state@)),
            match own {
                Ok(n) => state::local(state@) == Ok::<NodeView, Seq<char>>(n@),
                Err(e) => state::local(state@) == Err::<NodeView, Seq<char>>(e@),
            },
            probes(out@) == all.take(i as int),
        decreases nodes.len() - i,
    {
        let node = &nodes[i];
        let here = match &own {
            Ok(l) => same(l.id.as_str(), node.id.as_str()),
            Err(_) => false,
        };
        let probe = if here {
            Probe::Docker {
                label: "docker on ".to_owned().concat(node.slug.as_str()),
                run: local_docker_check(),
            }
        } else {
            Probe::Ping {
                label: "daemon ".to_owned().concat(node.slug.as_str()).concat(" ").concat(
                    node.daemon_addr.as_str(),
                ),
                addr: node.daemon_addr.clone(),
            }
        };
        let ghost before = out@;
        out.push(probe);
        proof {
            assert(state@.nodes[i as int] == node@);
            assert(probe@ == all[i as int]);
            assert(probes(out@) =~= probes(before).push(probe@));
            assert(all.take(i + 1) =~= all.take(i as int).push(all[i as int]));
        }
        i += 1;
    }
    proof {
        assert(all.take(all.len() as int) == all);
    }
    out
}

/// A line that says whether something is in order.
pub open spec fn check_line(label: Seq<char>, ok: bool) -> Seq<char> {
    text::padded(label, 34) + " "@ + (if ok {
        "ok"@
    } else {
        "fail"@
    })
}

/// A line that says whether something is in order.
pub fn check(label: &str, ok: bool) -> (r: String)
    ensures
        r@ == check_line(label@, ok),
{
    pad(label, 34).concat(" ").concat(
        if ok {
            "ok"
        } else {
            "fail"
        },
    )
}

/// The label of something to find out.
pub open spec fn probe_label(p: ProbeView) -> Seq<char> {
    match p {
        ProbeView::Docker { label, run } => label,
        ProbeView::Ping { label, addr } => label,
    }
}

/// The lines about what was found out about the nodes.
pub open spec fn probe_lines(probes: Seq<ProbeView>, found: Seq<bool>) -> Seq<Seq<char>> {
    Seq::new(probes.len(), |i: int| check_line(probe_label(probes[i]), found[i]))
}

/// The lines about the node itself: its directory, its key, and whether it is
/// initialized.
pub open spec fn own_lines(
    root_exists: bool,
    key_exists: bool,
    key_error: Option<Seq<char>>,
    initialized: bool,
) -> Seq<Seq<char>> {
    let head = seq![
        check_line("state directory"@, root_exists),
        check_line("mesh key present"@, key_exists),
        check_line("mesh key valid"@, key_error is None),
    ];
    let key = match key_error {
        Some(e) => head.push("  "@ + e),
        None => head,
    };
    key.push(check_line("local node initialized"@, initialized))
}

/// Whether everything is in order.
pub open spec fn all_well(
    root_exists: bool,
    key_exists: bool,
    key_error: Option<Seq<char>>,
    initialized: bool,
    found: Seq<bool>,
) -> bool {
    root_exists && key_exists && key_error is None && initialized && forall|i: int|
        0 <= i < found.len() ==> #[trigger] found[i]
}

/// What is shown of the node's condition, and what is said if something is not in
/// order. `found` tells for each of the node's probes whether it went well.
pub fn doctor(
    state: &ViaState,
    root_exists: bool,
    key_exists: bool,
    key_error: Option<&str>,
    probes_made: &Vec<Probe>,
    found: &Vec<bool>,
) -> (r: (Vec<String>, Result<(), String>))
    requires
        probes_made@.len() == found@.len(),
    ensures
        text::texts(r.0@) == own_lines(
            root_exists,
            key_exists,
            text::opt_str(key_error),
            state::local(state@) is Ok,
        ) + probe_lines(probes(probes_made@), found@),
        text::unit_outcome(r.1) == (if all_well(
            root_exists,
            key_exists,
            text::opt_str(key_error),
            state::local(state@) is Ok,
            found@,
        ) {
            Ok::<(), Seq<char>>(())
        } else {
            Err("doctor found issues"@)
        }),
{
    let initialized = state.local_node().is_ok();
    let key_ok = key_error.is_none();
    let mut lines = vec![
        check("state directory", root_exists),
        check("mesh key present", key_exists),
        check("mesh key valid", key_ok),
    ];
    let ghost head = seq![
        check_line("state directory"@, root_exists),
        check_line("mesh key present"@, key_exists),
        check_line("mesh key valid"@, key_ok),
    ];
    proof {
        assert(text::texts(lines@) =~= head);
    }
    let ghost key_lines = match text::opt_str(key_error) {
        Some(e) => head.push("  "@ + e),
        None => head,
    };
    if let Some(e) = key_error {
        let ghost before = lines@;
        lines.push("  ".to_owned().concat(e));
        proof {
            assert(text::texts(lines@) =~= text::texts(before).push("  "@ + e@));
        }
    }
    let ghost before = lines@;
    lines.push(check("local node initialized", initialized));
    let ghost own = own_lines(root_exists, key_exists, text::opt_str(key_error), initialized);
    proof {
        assert(text::texts(lines@) =~= text::texts(before).push(
            check_line("local node initialized"@, initialized),
        ));
        assert(text::texts(lines@) =~= own);
    }
    let mut ok = root_exists && key_exists && key_ok && initialized;
    let ghost basics = ok;
    let ghost rest = probe_lines(probes(probes_made@), found@);
    let mut i: usize = 0;
    proof {
        assert(text::texts(lines@) =~= own + rest.take(0));
    }
    while i < probes_made.len()
        invariant
            i <= probes_made.len(),
            probes_made@.len() == found@.len(),
            rest == probe_lines(probes(probes_made@), found@),
            text::texts(lines@) == own + rest.take(i as int),
            ok == (basics && forall|j: int| 0 <= j < i ==> #[trigger] found@[j]),
        decreases probes_made.len() - i,
    {
        let label = match &probes_made[i] {
            Probe::Docker { label, run } => label,
            Probe::Ping { label, addr } => label,
        };
        let line = check(label.as_str(), found[i]);
        let ghost before = lines@;
        lines.push(line);
        proof {
            assert(rest[i as int] == line@);
            assert(text::texts(lines@) =~= text::texts(before).push(line@));
            assert(rest.take(i + 1) =~= rest.take(i as int).push(line@));
            assert(own + rest.take(i + 1) =~= (own + rest.take(i as int)).push(line@));
        }
        if !found[i] {
            ok = false;
        }
        i += 1;
    }
    proof {
        assert(rest.take(rest.len() as int) == rest);
    }
    let verdict = if ok {
        Ok(())
    } else {
        Err("doctor found issues".to_owned())
    };
    (lines, verdict)
}

// ---------------------------------------------------------------------------
// Listing nodes.

/// What a hub says of its nodes.
#[derive(Debug)]
pub enum HubListing {
    /// The node uses no hub.
    NoHub,
    Nodes(Vec<HubNode>),
    Failed(String),
}

/// The nodes, with those of a hub that have slugs of their own.
pub open spec fn with_hub_nodes(nodes: Seq<NodeView>, more: Seq<HubNodeView>) -> Seq<NodeView>
    decreases more.len(),
{
    if more.len() == 0 {
        nodes
    } else {
        let before = with_hub_nodes(nodes, more.drop_last());
        if table::kept(before, more.last().slug) {
            before
        } else {
            table::put(before, hub::node_of(more.last(), seq!["hub"@]))
        }
    }
}

/// The nodes that are shown.
pub open spec fn shown_nodes(nodes: Seq<NodeView>, listing: HubListing) -> Seq<NodeView> {
    match listing {
        HubListing::Nodes(more) => with_hub_nodes(nodes, hub::hub_nodes(more@)),
        _ => nodes,
    }
}

/// The line about a node.
pub open spec fn node_line(n: NodeView) -> Seq<char> {
    text::padded(n.slug, 18) + " "@ + text::padded(
        if n.public {
            "yes"@
        } else {
            "no"@
        },
        8,
    ) + " "@ + text::joined(n.addresses, ","@)
}

/// The lines about nodes.
pub open spec fn node_lines(nodes: Seq<NodeView>) -> Seq<Seq<char>> {
    if nodes.len() == 0 {
        seq!["No nodes. Run `via init` first."@]
    } else {
        seq![text::padded("NAME"@, 18) + " "@ + text::padded("PUBLIC"@, 8) + " ADDRESS"@]
            + nodes.map_values(|n: NodeView| node_line(n))
    }
}

/// The nodes of the mesh, with those that only the hub knows, in the order of their
/// slugs.
pub fn merged_nodes(state: &ViaState, listing: &HubListing) -> (r: Vec<Node>)
    ensures
        model::shapes(r@) == shown_nodes(state@.nodes, *listing),
{
    let mut nodes = state.nodes();
    if let HubListing::Nodes(more) = listing {
        let ghost all = hub::hub_nodes(more@);
        let ghost own = state@.nodes;
        let mut i: usize = 0;
        while i < more.len()
            invariant
                i <= more.len(),
                all == hub::hub_nodes(more@),
                model::shapes(nodes@) == with_hub_nodes(own, all.take(i as int)),
            decreases more.len() - i,
        {
            proof {
                let next = all.take(i + 1);
                assert(next.drop_last() == all.take(i as int));
                assert(next.last() == more@[i as int]@);
            }
            if lookup(&nodes, more[i].slug.as_str()).is_none() {
                let addresses = vec!["hub".to_owned()];
                proof {
                    assert(text::texts(addresses@) =~= seq!["hub"@]);
                }
                let node = as_node(&more[i], addresses);
                store(&mut nodes, node);
            }
            i += 1;
        }
        proof {
            assert(all.take(all.len() as int) == all);
        }
    }
    nodes
}

/// What is shown of the nodes, and a warning if the hub could not be asked.
pub fn nodes(state: &ViaState, listing: &HubListing) -> (r: (Vec<String>, Option<String>))
    ensures
        text::texts(r.0@) == node_lines(shown_nodes(state@.nodes, *listing)),
        text::opt_text(r.1) == (match *listing {
            HubListing::Failed(e) => Some("warning: failed to read hub nodes: "@ + e@),
            _ => None,
        }),
{
    let warning = match listing {
        HubListing::Failed(e) => Some(
            "warning: failed to read hub nodes: ".to_owned().concat(e.as_str()),
        ),
        _ => None,
    };
    let nodes = merged_nodes(state, listing);
    let ghost shown = shown_nodes(state@.nodes, *listing);
    if nodes.len() == 0 {
        let lines = vec!["No nodes. Run `via init` first.".to_owned()];
        proof {
            assert(text::texts(lines@) =~= seq!["No nodes. Run `via init` first."@]);
            assert(shown.len() == 0);
        }
        return (lines, warning);
    }
    let mut lines = vec![
        pad("NAME", 18).concat(" ").concat(pad("PUBLIC", 8).as_str()).concat(" ADDRESS"),
    ];
    let ghost head = seq![
        text::padded("NAME"@, 18) + " "@ + text::padded("PUBLIC"@, 8) + " ADDRESS"@,
    ];
    let ghost rest = shown.map_values(|n: NodeView| node_line(n));
    proof {
        assert(text::texts(lines@) =~= head + rest.take(0));
    }
    let mut i: usize = 0;
    while i < nodes.len()
        invariant
            i <= nodes.len(),
            model::shapes(nodes@) == shown,
            rest == shown.map_values(|n: NodeView| node_line(n)),
            text::texts(lines@) == head + rest.take(i as int),
        decreases nodes.len() - i,
    {
        let node = &nodes[i];
        let public = if node.public {
            "yes"
        } else {
            "no"
        };
        let line = pad(node.slug.as_str(), 18).concat(" ").concat(pad(public, 8).as_str()).concat(
            " ",
        ).concat(join(&node.addresses, ",").as_str());
        let ghost before = lines@;
        lines.push(line);
        proof {
            assert(shown[i as int] == node@);
            assert(rest[i as int] == line@);
            assert(text::texts(lines@) =~= text::texts(before).push(line@));
            assert(rest.take(i + 1) =~= rest.take(i as int).push(line@));
            assert(head + rest.take(i + 1) =~= (head + rest.take(i as int)).push(line@));
        }
        i += 1;
    }
    proof {
        assert(rest.take(rest.len() as int) == rest);
    }
    (lines, warning)
}

// ---------------------------------------------------------------------------
// Changing nodes.

/// The node to rename and its new slug, or what is said of it.
pub open spec fn rename_outcome(st: StateView, slug: Seq<char>, name: Seq<char>) -> Result<
    (NodeView, Seq<char>),
    Seq<char>,
> {
    match table::find(st.nodes, slug) {
        None => Err(routes::unknown_node(slug)),
        Some(n) => match util::slug_outcome(name) {
            Err(e) => Err(e),
            Ok(s) => if table::find(st.nodes, s) is Some {
                Err("node '"@ + s + "' already exists"@)
            } else {
                Ok((n, s))
            },
        },
    }
}

/// Gives a node another slug. Returns what is shown.
pub fn rename_node(state: &mut ViaState, slug: &str, name: &str, now: i64) -> (r: Result<
    String,
    String,
>)
    requires
        old(state).wf(),
    ensures
        final(state).wf(),
        match rename_outcome(old(state)@, slug@, name@) {
            Err(e) => final(state)@ == old(state)@ && text::text_outcome(r) == Err::<
                Seq<char>,
                Seq<char>,
            >(e),
            Ok(p) => was_recorded(
                state::with_node(
                    state::without_node(old(state)@, slug@),
                    NodeView { slug: p.1, ..p.0 },
                ),
                final(state)@,
                "node.renamed"@,
                model::node_payload(NodeView { slug: p.1, ..p.0 }),
                now,
            ) && text::text_outcome(r) == Ok::<Seq<char>, Seq<char>>(
                "Renamed node '"@ + slug@ + "' to '"@ + p.1 + "'."@,
            ),
        },
{
    let mut node = match state.node_by_slug(slug) {
        Some(n) => n,
        None => return Err("unknown node '".to_owned().concat(slug).concat("'")),
    };
    let new_slug = match normalize_slug(name) {
        Ok(s) => s,
        Err(e) => return Err(e),
    };
    if state.node_by_slug(new_slug.as_str()).is_some() {
        return Err("node '".to_owned().concat(new_slug.as_str()).concat("' already exists"));
    }
    state.delete_node_slug(slug);
    node.slug = new_slug.clone();
    state.upsert_node(&node);
    state.append_event("node.renamed", node.payload(), now);
    Ok(
        "Renamed node '".to_owned().concat(slug).concat("' to '").concat(new_slug.as_str()).concat(
            "'.",
        ),
    )
}

/// A node that was renamed is found under its new slug with its old identifier, and
/// nothing is found under the old one.
pub proof fn law_rename_moves_the_node(st: StateView, slug: Seq<char>, name: Seq<char>)
    requires
        state::well_formed(st),
        rename_outcome(st, slug, name) is Ok,
    ensures
        ({
            let p = rename_outcome(st, slug, name)->Ok_0;
            let after = state::with_node(
                state::without_node(st, slug),
                NodeView { slug: p.1, ..p.0 },
            );
            &&& table::find(after.nodes, p.1) == Some(NodeView { slug: p.1, ..p.0 })
            &&& table::find(after.nodes, slug) is None
        }),
{
    let p = rename_outcome(st, slug, name)->Ok_0;
    let gone = state::without_node(st, slug);
    table::lemma_dropped_sorted(st.nodes, slug);
    table::lemma_find_put(gone.nodes, NodeView { slug: p.1, ..p.0 }, p.1);
    table::lemma_find_put(gone.nodes, NodeView { slug: p.1, ..p.0 }, slug);
    table::lemma_find_dropped(st.nodes, slug, slug);
}

/// A node with another address. An address without a port is that of a daemon at
/// the usual one.
pub open spec fn readdressed(n: NodeView, address: Seq<char>) -> NodeView {
    NodeView {
        addresses: seq![address],
        daemon_addr: if text::rsplit_once(address, ':') is Some {
            address
        } else {
            address + DAEMON_PORT@
        },
        ..n
    }
}

/// Gives a node another address. Returns what is shown.
pub fn set_node_addr(state: &mut ViaState, slug: &str, address: &str, now: i64) -> (r: Result<
    String,
    String,
>)
    requires
        old(state).wf(),
    ensures
        final(state).wf(),
        match table::find(old(state)@.nodes, slug@) {
            None => final(state)@ == old(state)@ && text::text_outcome(r) == Err::<
                Seq<char>,
                Seq<char>,
            >(routes::unknown_node(slug@)),
            Some(n) => was_recorded(
                state::with_node(old(state)@, readdressed(n, address@)),
                final(state)@,
                "node.addr_changed"@,
                model::node_payload(readdressed(n, address@)),
                now,
            ) && text::text_outcome(r) == Ok::<Seq<char>, Seq<char>>(
                "Updated node '"@ + n.slug + "' address to "@ + readdressed(n, address@).daemon_addr
                    + "."@,
            ),
        },
{
    let mut node = match state.node_by_slug(slug) {
        Some(n) => n,
        None => return Err("unknown node '".to_owned().concat(slug).concat("'")),
    };
    let addresses = vec![address.to_owned()];
    proof {
        assert(text::texts(addresses@) =~= seq![address@]);
    }
    node.addresses = addresses;
    node.daemon_addr = if rsplit_once_char(address, ':').is_some() {
        address.to_owned()
    } else {
        address.to_owned().concat(DAEMON_PORT)
    };
    state.upsert_node(&node);
    state.append_event("node.addr_changed", node.payload(), now);
    Ok(
        "Updated node '".to_owned().concat(node.slug.as_str()).concat("' address to ").concat(
            node.daemon_addr.as_str(),
        ).concat("."),
    )
}

/// Whether a service of these runs on the node with this identifier.
pub open spec fn has_services(services: Seq<model::ServiceView>, node_id: Seq<char>) -> bool {
    exists|i: int| 0 <= i < services.len() && (#[trigger] services[i]).node_id == node_id
}

/// The node to remove, or what is said of it.
pub open spec fn node_rm_outcome(st: StateView, slug: Seq<char>) -> Result<NodeView, Seq<char>> {
    match table::find(st.nodes, slug) {
        None => Err(routes::unknown_node(slug)),
        Some(n) => match state::local(st) {
            Err(e) => Err(e),
            Ok(own) => if own.id == n.id {
                Err("cannot remove the local node from itself"@)
            } else if has_services(st.services, n.id) {
                Err("node '"@ + n.slug + "' still has services; remove them first"@)
            } else {
                Ok(n)
            },
        },
    }
}

fn hosts_services(state: &ViaState, node_id: &str) -> (r: bool)
    ensures
        r == has_services(state@.services, node_id@),
{
    let services = state.services();
    let ghost all = state@.services;
    let mut i: usize = 0;
    while i < services.len()
        invariant
            i <= services.len(),
            all == model::shapes(services@),
            all == state@.services,
            forall|j: int| 0 <= j < i ==> (#[trigger] all[j]).node_id != node_id@,
        decreases services.len() - i,
    {
        if same(services[i].node_id.as_str(), node_id) {
            proof {
                assert(all[i as int].node_id == node_id@);
            }
            return true;
        }
        i += 1;
    }
    false
}

/// Removes a node that is not the local one and runs no services. Returns what is
/// shown.
pub fn node_rm(state: &mut ViaState, slug: &str, now: i64) -> (r: Result<String, String>)
    requires
        old(state).wf(),
    ensures
        final(state).wf(),
        match node_rm_outcome(old(state)@, slug@) {
            Err(e) => final(state)@ == old(state)@ && text::text_outcome(r) == Err::<
                Seq<char>,
                Seq<char>,
            >(e),
            Ok(n) => was_recorded_and_saved(
                state::without_node(old(state)@, n.slug),
                final(state)@,
                "node.removed"@,
                model::node_payload(n),
                now,
            ) && text::text_outcome(r) == Ok::<Seq<char>, Seq<char>>(
                "Removed node '"@ + n.slug + "'."@,
            ),
        },
{
    let node = match state.node_by_slug(slug) {
        Some(n) => n,
        None => return Err("unknown node '".to_owned().concat(slug).concat("'")),
    };
    let own = match state.local_node() {
        Ok(n) => n,
        Err(e) => return Err(e),
    };
    if same(own.id.as_str(), node.id.as_str()) {
        return Err("cannot remove the local node from itself".to_owned());
    }
    if hosts_services(state, node.id.as_str()) {
        return Err(
            "node '".to_owned().concat(node.slug.as_str()).concat(
                "' still has services; remove them first",
            ),
        );
    }
    state.delete_node_slug(node.slug.as_str());
    state.append_event("node.removed", node.payload(), now);
    state.persist();
    Ok("Removed node '".to_owned().concat(node.slug.as_str()).concat("'."))
}

/// Whether a node has to be asked to find out whether it is reachable; if not, or if
/// it cannot be, what is shown or said.
pub fn node_ping(state: &ViaState, node: &Node) -> (r: Result<Option<String>, String>)
    ensures
        match state::local(state@) {
            Err(e) => r is Err && r->Err_0@ == e,
            Ok(own) => r is Ok && text::opt_text(r->Ok_0) == (if own.id == node@.id {
                Some("Node '"@ + node@.slug + "' is local."@)
            } else {
                None
            }),
        },
{
    match state.local_node() {
        Err(e) => Err(e),
        Ok(own) => if same(own.id.as_str(), node.id.as_str()) {
            Ok(Some("Node '".to_owned().concat(node.slug.as_str()).concat("' is local.")))
        } else {
            Ok(None)
        },
    }
}

/// What is shown of a node that answered.
pub fn ping_answered(node: &Node, route: RouteMode) -> (r: String)
    ensures
        r@ == "Node '"@ + node@.slug + (match route {
            RouteMode::Auto => "' is reachable."@,
            RouteMode::Direct => "' is reachable via direct route."@,
            RouteMode::Hub => "' is reachable via hub."@,
        }),
{
    let end = match route {
        RouteMode::Auto => "' is reachable.",
        RouteMode::Direct => "' is reachable via direct route.",
        RouteMode::Hub => "' is reachable via hub.",
    };
    "Node '".to_owned().concat(node.slug.as_str()).concat(end)
}

// ---------------------------------------------------------------------------
// Running commands on nodes.

/// Whether a command for a node is run here; if not, the request that asks the node
/// to run it.
pub fn exec(state: &ViaState, node: &Node, command: &Vec<String>) -> (r: Result<
    Option<RpcRequest>,
    String,
>)
    ensures
        match state::local(state@) {
            Err(e) => r is Err && r->Err_0@ == e,
            Ok(own) => match r {
                Ok(None) => own.id == node@.id,
                Ok(Some(request)) => own.id != node@.id && request@ == (RequestView::Exec {
                    command: text::texts(command@),
                }),
                Err(_) => false,
            },
        },
{
    match state.local_node() {
        Err(e) => Err(e),
        Ok(own) => if same(own.id.as_str(), node.id.as_str()) {
            Ok(None)
        } else {
            Ok(Some(RpcRequest::Exec { command: copy_texts(command) }))
        },
    }
}

/// What is recorded of a command that was run: never the command itself.
pub open spec fn exec_payload(slug: Seq<char>, argc: usize, local: bool) -> model::PayloadView {
    model::PayloadView::Object(
        seq![
            ("argc"@, model::ValueView::Int(argc as i64)),
            ("local"@, model::ValueView::Bool(local)),
            ("node"@, model::ValueView::Text(slug)),
        ],
    )
}

/// The event of a command that was run tells the node, how many words the command had
/// and whether it was run here, and nothing else: commands of as many words leave the
/// same event.
pub proof fn law_exec_events_tell_no_words(
    before: StateView,
    after: StateView,
    slug: Seq<char>,
    argc: usize,
    local: bool,
    now: i64,
)
    requires
        state::well_formed(before),
        was_recorded_and_saved(before, after, "node.exec"@, exec_payload(slug, argc, local), now),
    ensures
        exists|id: Seq<char>|
            ids::is_id(id) && #[trigger] table::find(after.events, id) == Some(
                model::EventView {
                    id,
                    kind: "node.exec"@,
                    payload: exec_payload(slug, argc, local),
                    created_at: now,
                },
            ),
{
    let payload = exec_payload(slug, argc, local);
    let id = choose|id: Seq<char>|
        ids::is_id(id) && after == state::persisted(
            #[trigger] state::recorded(before, id, "node.exec"@, payload, now),
        );
    let e = model::EventView { id, kind: "node.exec"@, payload, created_at: now };
    let fields = payload->Object_0;
    reveal_strlit("command");
    reveal_strlit("argc");
    reveal_strlit("local");
    reveal_strlit("node");
    reveal_strlit("node.exec");
    reveal_strlit("secret.set");
    assert("command"@.len() == 7 && "argc"@.len() == 4 && "local"@.len() == 5 && "node"@.len()
        == 4);
    assert("node.exec"@.len() == 9 && "secret.set"@.len() == 10);
    event::lemma_without_none(fields, "command"@);
    assert(event::sanitized(e) == e);
    table::lemma_find_put(before.events, e, id);
    assert(table::find(after.events, id) == Some(e));
}

/// Keeps that a command was run on a node: how many words it had, and whether it was
/// run here.
pub fn executed(state: &mut ViaState, node: &Node, command: &Vec<String>, local: bool, now: i64)
    requires
        old(state).wf(),
    ensures
        final(state).wf(),
        was_recorded_and_saved(
            old(state)@,
            final(state)@,
            "node.exec"@,
            exec_payload(node@.slug, command@.len() as usize, local),
            now,
        ),
{
    let fields: Vec<(String, Value)> = vec![
        ("argc".to_owned(), Value::Int(command.len() as i64)),
        ("local".to_owned(), Value::Bool(local)),
        text_value("node", node.slug.as_str()),
    ];
    let payload = Payload::Object(fields);
    proof {
        assert(payload@ =~= exec_payload(node@.slug, command@.len() as usize, local));
    }
    state.append_event("node.exec", payload, now);
    state.persist();
}

/// The name of this machine, from what came of asking for it: whether that went
/// well, and what was printed.
pub fn hostname(answer: Option<(bool, &str)>) -> (r: Result<String, String>)
    ensures
        text::text_outcome(r) == (match answer {
            None => Err::<Seq<char>, Seq<char>>("failed to read hostname"@),
            Some(a) => if a.0 {
                Ok(text::trimmed(a.1@))
            } else {
                Err("hostname command failed"@)
            },
        }),
{
    match answer {
        None => Err("failed to read hostname".to_owned()),
        Some(a) => if a.0 {
            Ok(trim(a.1).to_owned())
        } else {
            Err("hostname command failed".to_owned())
        },
    }
}

} // verus!
