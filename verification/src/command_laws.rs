//! What the commands about nodes do for whoever gives them.

use crate::commands;
use crate::event;
use crate::hub;
use crate::hub::HubNodeView;
use crate::model;
use crate::model::{EventView, Keyed, MeshView, NodeView};
use crate::order;
use crate::paths::PathsView;
use crate::process::RunView;
use crate::shell;
use crate::shell_laws;
use crate::ssh;
use crate::state;
use crate::state::StateView;
use crate::state_laws;
use crate::table;
use crate::text;
use crate::text_laws;
use crate::util;
use vstd::prelude::*;

verus! {

// ---------------------------------------------------------------------------
// Initializing and adding.

/// A machine without a mesh that is initialized knows the mesh that it was told of, if it was
/// told of one, and is the node that it was told to be, under the slug of the name that it was
/// given or else of its own name, and at its own name. It records both, and what it knew
/// besides stays.
pub proof fn law_init_takes_the_identity_that_is_given(
    before: StateView,
    name: Option<Seq<char>>,
    mesh_id: Option<Seq<char>>,
    node_id: Option<Seq<char>>,
    host: Seq<char>,
    now: i64,
    after: StateView,
    r: Result<Seq<char>, Seq<char>>,
)
    requires
        state::well_formed(before),
        before.mesh is None,
        before.nodes.len() == 0,
        util::slug_outcome(
            if name is Some {
                name->Some_0
            } else {
                host
            },
        ) is Ok,
        commands::is_init(
            before,
            name,
            mesh_id,
            node_id,
            Ok::<Seq<char>, Seq<char>>(host),
            now,
            after,
            r,
        ),
    ensures
        r is Ok,
        after.mesh is Some,
        mesh_id is Some ==> after.mesh->Some_0.id == mesh_id->Some_0,
        state::local(after) is Ok,
        after.nodes == seq![state::local(after)->Ok_0],
        ({
            let own = state::local(after)->Ok_0;
            &&& node_id is Some ==> own.id == node_id->Some_0
            &&& util::slug_outcome(
                if name is Some {
                    name->Some_0
                } else {
                    host
                },
            ) == Ok::<Seq<char>, Seq<char>>(own.slug)
            &&& own.addresses == seq![host]
            &&& own.daemon_addr == host + ":47819"@
            &&& own.display_name == host
            &&& own.last_seen_at == Some(now)
            &&& own.created_at == now
            &&& !own.public
            &&& own.iroh_addr is None
        }),
        after.services == before.services,
        after.secrets == before.secrets,
        after.paths == before.paths,
        exists|id: Seq<char>|
            (#[trigger] table::find(after.events, id)) == Some(
                EventView {
                    id,
                    kind: "node.joined"@,
                    payload: model::node_payload(state::local(after)->Ok_0),
                    created_at: now,
                },
            ),
{
    let slug = util::slug_outcome(
        match name {
            Some(n) => n,
            None => host,
        },
    )->Ok_0;
    let (m, n, e1, e2) = choose|m: Seq<char>, n: Seq<char>, e1: Seq<char>, e2: Seq<char>|
        commands::given_or_fresh(mesh_id, m) && commands::given_or_fresh(node_id, n)
            && crate::ids::is_id(e1) && crate::ids::is_id(e2)
            && after == #[trigger] commands::initialized(
            before,
            MeshView { id: m, created_at: now },
            commands::home_node(n, slug, host, now),
            e1,
            e2,
            now,
        ) && r == Ok::<Seq<char>, Seq<char>>(
            "Initialized Via mesh "@ + m + " as node '"@ + slug + "'."@,
        );
    let node = commands::home_node(n, slug, host, now);
    commands::law_init_makes_a_mesh(
        before,
        MeshView { id: m, created_at: now },
        node,
        e1,
        e2,
        now,
    );
    table::lemma_rank(before.nodes, node.slug);
    assert(after.nodes =~= seq![node]);
    let joined = state::with_node(
        state::with_local_node(
            state::with_mesh(before, MeshView { id: m, created_at: now }),
            node.id,
        ),
        node,
    );
    let mesh = model::mesh_payload(MeshView { id: m, created_at: now });
    let first = EventView {
        id: e1,
        kind: "mesh.initialized"@,
        payload: mesh,
        created_at: now,
    };
    let second = EventView {
        id: e2,
        kind: "node.joined"@,
        payload: model::node_payload(node),
        created_at: now,
    };
    lemma_node_kinds();
    table::lemma_put_sorted(joined.events, event::sanitized(first));
    table::lemma_find_put(
        table::put(joined.events, event::sanitized(first)),
        event::sanitized(second),
        e2,
    );
    assert(table::find(after.events, e2) == Some(second));
}

proof fn lemma_node_kinds()
    ensures
        "node.joined"@ != "secret.set"@,
        "node.joined"@ != "node.exec"@,
        !"service."@.is_prefix_of("node.joined"@),
{
    reveal_strlit("node.joined");
    reveal_strlit("secret.set");
    reveal_strlit("node.exec");
    reveal_strlit("service.");
    assert("node.joined"@.len() == 11 && "secret.set"@.len() == 10 && "node.exec"@.len() == 9);
    if "service."@.is_prefix_of("node.joined"@) {
        assert("node.joined"@.subrange(0, 8)[0] == "service."@[0]);
    }
}

/// A machine that belongs to a mesh stays in it when it is initialized again; it takes
/// another name and identifier only where both are given.
pub proof fn law_init_keeps_the_mesh(
    before: StateView,
    name: Option<Seq<char>>,
    mesh_id: Option<Seq<char>>,
    node_id: Option<Seq<char>>,
    host: Result<Seq<char>, Seq<char>>,
    now: i64,
    after: StateView,
    r: Result<Seq<char>, Seq<char>>,
)
    requires
        state::well_formed(before),
        before.mesh is Some,
        commands::is_init(before, name, mesh_id, node_id, host, now, after, r),
    ensures
        after.mesh == before.mesh,
        after.services == before.services,
        after.secrets == before.secrets,
        name is None || node_id is None || host is Err ==> after == before,
        name is Some && node_id is Some && host is Ok && util::slug_outcome(name->Some_0) is Ok
            ==> after.local_node_id == node_id && table::find(
            after.nodes,
            util::slug_outcome(name->Some_0)->Ok_0,
        ) is Some && table::find(
            after.nodes,
            util::slug_outcome(name->Some_0)->Ok_0,
        )->Some_0.id == node_id->Some_0,
{
    if name is Some && node_id is Some && host is Ok && util::slug_outcome(name->Some_0) is Ok {
        let slug = util::slug_outcome(name->Some_0)->Ok_0;
        let node = commands::home_node(node_id->Some_0, slug, host->Ok_0, now);
        let event = choose|event: Seq<char>|
            crate::ids::is_id(event) && after == #[trigger] commands::refreshed(
                before,
                node,
                event,
                now,
            );
        table::lemma_find_put(before.nodes, node, slug);
    }
}

/// A shell takes a slug as it is.
pub proof fn law_slugs_are_plain(name: Seq<char>)
    requires
        util::slug_outcome(name) is Ok,
    ensures
        shell::is_plain(util::slug_outcome(name)->Ok_0),
{
    util::lemma_slug_shape(name);
    let s = util::slug(name);
    assert forall|i: int| 0 <= i < s.len() implies shell::is_plain_char(#[trigger] s[i]) by {}
}

/// A machine that is added and then initialized by the last command that it is given belongs
/// to the mesh of the node that adds it, under the slug and the identifier under which that
/// node keeps it.
pub proof fn law_added_machines_join_this_mesh(
    st: StateView,
    ssh_host: Seq<char>,
    name: Option<Seq<char>>,
    paths: PathsView,
    node_id: Seq<char>,
    version: Seq<char>,
    there: StateView,
    host: Seq<char>,
    daemon_host: Seq<char>,
    public: bool,
    now: i64,
    then: i64,
    after: StateView,
    r: Result<Seq<char>, Seq<char>>,
)
    requires
        commands::add_outcome(st, ssh_host, name) is Ok,
        shell::is_plain(commands::add_outcome(st, ssh_host, name)->Ok_0.0),
        shell::is_plain(node_id),
        shell::is_plain(version),
        state::well_formed(there),
        there.mesh is None,
        there.nodes.len() == 0,
        ({
            let p = commands::add_outcome(st, ssh_host, name)->Ok_0;
            let runs = ssh::bootstrap_runs(ssh_host, paths, p.1, p.0, node_id, version);
            let words = shell::words(runs.last()->Program_args[1]);
            commands::is_init(
                there,
                Some(words[7]),
                Some(words[9]),
                Some(words[11]),
                Ok::<Seq<char>, Seq<char>>(host),
                then,
                after,
                r,
            )
        }),
    ensures
        st.mesh is Some,
        after.mesh is Some,
        after.mesh->Some_0.id == st.mesh->Some_0.id,
        state::local(after) is Ok,
        ({
            let p = commands::add_outcome(st, ssh_host, name)->Ok_0;
            let kept = commands::added_node(node_id, p.1, ssh_host, daemon_host, public, now);
            &&& state::local(after)->Ok_0.id == kept.id
            &&& state::local(after)->Ok_0.slug == kept.slug
        }),
{
    let p = commands::add_outcome(st, ssh_host, name)->Ok_0;
    let given = match name {
        Some(n) => n,
        None => ssh_host,
    };
    law_slugs_are_plain(given);
    shell_laws::law_bootstrap_hands_over_the_mesh(ssh_host, paths, p.1, p.0, node_id, version);
    util::law_slug_is_kept(given);
    law_init_takes_the_identity_that_is_given(
        there,
        Some(p.1),
        Some(p.0),
        Some(node_id),
        host,
        then,
        after,
        r,
    );
}

/// A machine that was added is kept with its identifier, at the addresses where it is reached,
/// and as not seen here.
pub proof fn law_added_node_is_found(
    st: StateView,
    id: Seq<char>,
    slug: Seq<char>,
    ssh_host: Seq<char>,
    daemon_host: Seq<char>,
    public: bool,
    now: i64,
)
    requires
        state::well_formed(st),
    ensures
        ({
            let node = commands::added_node(id, slug, ssh_host, daemon_host, public, now);
            let kept = table::find(state::with_node(st, node).nodes, slug);
            &&& kept is Some
            &&& kept->Some_0.id == id
            &&& kept->Some_0.slug == slug
            &&& kept->Some_0.addresses == seq![ssh_host]
            &&& kept->Some_0.daemon_addr == daemon_host + ":47819"@
            &&& kept->Some_0.display_name == ssh_host
            &&& kept->Some_0.public == public
            &&& kept->Some_0.created_at == now
            &&& kept->Some_0.last_seen_at is None
            &&& kept->Some_0.iroh_addr is None
        }),
{
    let node = commands::added_node(id, slug, ssh_host, daemon_host, public, now);
    state_laws::law_node_is_read_back(st, node, slug);
}

/// A machine can be added exactly where there is a mesh and its name makes a slug; the slug is
/// that of the name, or of the host where no name is given.
pub proof fn law_who_can_be_added(st: StateView, ssh_host: Seq<char>, name: Option<Seq<char>>)
    ensures
        ({
            let given = match name {
                Some(n) => n,
                None => ssh_host,
            };
            let r = commands::add_outcome(st, ssh_host, name);
            &&& (r is Ok) == (st.mesh is Some && util::slug_outcome(given) is Ok)
            &&& r is Ok ==> r->Ok_0.0 == st.mesh->Some_0.id && util::slug_outcome(given) == Ok::<
                Seq<char>,
                Seq<char>,
            >(r->Ok_0.1)
        }),
{
}

// ---------------------------------------------------------------------------
// Telling the others.

/// A snapshot tells all that a node knows of the mesh: a node that takes it over knows the
/// mesh, each service, exactly the secrets, and each event, and finds each node under its
/// slug.
pub proof fn law_snapshots_tell_all(st: StateView, other: StateView, i: int)
    requires
        state::well_formed(st),
        state::well_formed(other),
    ensures
        ({
            let after = state::imported(other, state::snapshot_of(st));
            &&& st.mesh is Some ==> after.mesh == st.mesh
            &&& after.secrets == st.secrets
            &&& 0 <= i < st.services.len() ==> table::find(after.services, st.services[i].name)
                == Some(st.services[i])
            &&& 0 <= i < st.events.len() ==> table::find(after.events, st.events[i].id) == Some(
                st.events[i],
            )
            &&& 0 <= i < st.nodes.len() && Some(st.nodes[i].id) != other.local_node_id
                ==> table::find(after.nodes, st.nodes[i].slug) == Some(
                NodeView { last_seen_at: None, ..st.nodes[i] },
            )
        }),
{
    let snapshot = state::snapshot_of(st);
    state_laws::law_import_merges(other, snapshot);
    state_laws::law_import_reconciles_secrets(other, snapshot);
    state_laws::lemma_put_all_self(st.secrets);
    if 0 <= i < st.services.len() {
        lemma_found_after_all(other.services, st.services, i);
    }
    if 0 <= i < st.events.len() {
        let shown = event::newest_first(st.events);
        let kept = event::all_sanitized(shown);
        lemma_shown_once(st.events, i);
        let j = choose|j: int|
            0 <= j < shown.len() && shown[j] == st.events[i] && forall|m: int|
                j < m < shown.len() ==> (#[trigger] shown[m]).id != st.events[i].id;
        assert(event::sanitized(st.events[i]) == st.events[i]);
        assert(kept[j] == st.events[i]);
        assert forall|m: int| j < m < kept.len() implies (#[trigger] kept[m]).key()
            != st.events[i].id by {
            assert(shown[m].id != st.events[i].id);
        }
        table::lemma_find_put_all(other.events, kept, st.events[i].id);
        assert(kept[j].key() == st.events[i].id);
    }
    if 0 <= i < st.nodes.len() && Some(st.nodes[i].id) != other.local_node_id {
        assert forall|j: int| i < j < snapshot.nodes.len() implies (
        #[trigger] snapshot.nodes[j]).slug != snapshot.nodes[i].slug by {
            table::lemma_find(st.nodes, st.nodes[i].slug);
            assert(st.nodes[i].key() == st.nodes[i].slug);
            if st.nodes[j].slug == st.nodes[i].slug {
                assert(st.nodes[j].key() == st.nodes[i].slug);
            }
        }
        state_laws::law_import_forgets_last_seen(other, snapshot, i);
    }
}

proof fn lemma_found_after_all<K: Keyed>(s: Seq<K>, from: Seq<K>, i: int)
    requires
        table::sorted(s),
        table::sorted(from),
        0 <= i < from.len(),
    ensures
        table::find(table::put_all(s, from), from[i].key()) == Some(from[i]),
{
    table::lemma_find(from, from[i].key());
    table::lemma_find_put_all(s, from, from[i].key());
    assert forall|j: int| i < j < from.len() implies (#[trigger] from[j]).key() != from[i].key() by {
        if from[j].key() == from[i].key() {
            assert(j == table::rank(from, from[i].key()));
        }
    }
}

/// In the order in which events are shown, each stands last under its identifier.
proof fn lemma_shown_once(events: Seq<EventView>, i: int)
    requires
        table::sorted(events),
        0 <= i < events.len(),
    ensures
        ({
            let shown = event::newest_first(events);
            exists|j: int|
                0 <= j < shown.len() && shown[j] == events[i] && forall|m: int|
                    j < m < shown.len() ==> (#[trigger] shown[m]).id != events[i].id
        }),
{
    let shown = event::newest_first(events);
    let id = events[i].id;
    event::lemma_newest_first_member(events, events[i]);
    assert(events.contains(events[i]));
    let w = choose|w: int| 0 <= w < shown.len() && shown[w] == events[i];
    assert(shown[w].key() == id);
    let j = table::lemma_last_with_key(shown, id);
    event::lemma_newest_first_member(events, shown[j]);
    assert(shown.contains(shown[j]));
    let x = choose|x: int| 0 <= x < events.len() && events[x] == shown[j];
    table::lemma_find(events, id);
    assert(events[x].key() == id && events[i].key() == id);
    assert forall|m: int| j < m < shown.len() implies (#[trigger] shown[m]).id != id by {
        assert(shown[m].key() != id);
    }
}

// ---------------------------------------------------------------------------
// Names and addresses of nodes.

/// A node can be renamed exactly where it is known and its new name makes a slug that no node
/// has; it then has that slug, and all else of it, and all other nodes, stay.
pub proof fn law_renaming_changes_the_slug_only(
    st: StateView,
    slug: Seq<char>,
    name: Seq<char>,
    other: Seq<char>,
)
    requires
        state::well_formed(st),
    ensures
        ({
            let r = commands::rename_outcome(st, slug, name);
            let new = util::slug_outcome(name);
            let old = table::find(st.nodes, slug);
            let after = state::with_node(
                state::without_node(st, slug),
                NodeView { slug: r->Ok_0.1, ..r->Ok_0.0 },
            );
            &&& (r is Ok) == (old is Some && new is Ok && table::find(st.nodes, new->Ok_0) is None)
            &&& r is Ok ==> Some(r->Ok_0.0) == old && r->Ok_0.1 == new->Ok_0
            &&& r is Ok ==> table::find(after.nodes, other) == (if other == new->Ok_0 {
                Some(NodeView { slug: new->Ok_0, ..old->Some_0 })
            } else if other == slug {
                None
            } else {
                table::find(st.nodes, other)
            })
        }),
{
    let r = commands::rename_outcome(st, slug, name);
    if r is Ok {
        let node = NodeView { slug: r->Ok_0.1, ..r->Ok_0.0 };
        let gone = state::without_node(st, slug);
        table::lemma_dropped_sorted(st.nodes, slug);
        table::lemma_find_put(gone.nodes, node, other);
        table::lemma_find_dropped(st.nodes, slug, other);
    }
}

/// A node that is given an address is reached there, at the port of the address if it has one
/// and else at the daemons' port; all else of it stays.
pub proof fn law_nodes_move_to_their_address(n: NodeView, host: Seq<char>, port: Seq<char>)
    requires
        !host.contains(':'),
        !port.contains(':'),
    ensures
        ({
            let bare = commands::readdressed(n, host);
            let full = commands::readdressed(n, host + ":"@ + port);
            &&& bare.addresses == seq![host]
            &&& bare.daemon_addr == host + ":47819"@
            &&& full.addresses == seq![host + ":"@ + port]
            &&& full.daemon_addr == host + ":"@ + port
            &&& bare == NodeView {
                addresses: bare.addresses,
                daemon_addr: bare.daemon_addr,
                ..n
            }
            &&& full == NodeView {
                addresses: full.addresses,
                daemon_addr: full.daemon_addr,
                ..n
            }
        }),
{
    reveal_strlit(":");
    assert(":"@ =~= seq![':']);
    text_laws::law_split_at_the_last(host, ':', port);
    text_laws::law_split_at_the_last(host, ':', host);
}

/// A node can be removed exactly where it is known, is not this one, and no service runs on
/// it.
pub proof fn law_nodes_in_use_are_not_removed(st: StateView, slug: Seq<char>)
    ensures
        ({
            let r = commands::node_rm_outcome(st, slug);
            let n = table::find(st.nodes, slug);
            &&& (r is Ok) == (n is Some && state::local(st) is Ok && state::local(st)->Ok_0.id
                != n->Some_0.id && forall|i: int|
                0 <= i < st.services.len() ==> (#[trigger] st.services[i]).node_id
                    != n->Some_0.id)
            &&& r is Ok ==> Some(r->Ok_0) == n
        }),
{
}

// ---------------------------------------------------------------------------
// Looking after the daemon.

/// The daemon is looked for on this machine, at the port at which it listens.
pub proof fn law_daemon_is_looked_for_here(host: Seq<char>, port: Seq<char>)
    requires
        !port.contains(':'),
    ensures
        commands::probe_addr(host + ":"@ + port) == "127.0.0.1:"@ + port,
        commands::probe_addr(port) == "127.0.0.1:47819"@,
{
    reveal_strlit(":");
    assert(":"@ =~= seq![':']);
    text_laws::law_split_at_the_last(host, ':', port);
}

/// Each node is looked after: the local one by asking Docker, any other by asking its daemon at
/// its address; and what was found is shown on one line for each, with the node's slug.
pub proof fn law_every_node_is_looked_after(
    nodes: Seq<NodeView>,
    own: NodeView,
    found: Seq<bool>,
    i: int,
)
    requires
        0 <= i < nodes.len(),
        found.len() == nodes.len(),
    ensures
        ({
            let probes = commands::probes_of(nodes, Ok::<NodeView, Seq<char>>(own));
            let lines = commands::probe_lines(probes, found);
            &&& probes.len() == nodes.len()
            &&& nodes[i].id == own.id ==> probes[i] is Docker && probes[i]->run == RunView::Shell(
                "docker version >/dev/null"@,
            )
            &&& nodes[i].id != own.id ==> probes[i] is Ping && probes[i]->addr
                == nodes[i].daemon_addr
            &&& lines.len() == nodes.len()
            &&& text::holds(lines[i], nodes[i].slug)
            &&& found[i] ==> lines[i].subrange(lines[i].len() - 2, lines[i].len() as int) == "ok"@
            &&& !found[i] ==> lines[i].subrange(lines[i].len() - 4, lines[i].len() as int)
                == "fail"@
        }),
{
    reveal_strlit("ok");
    reveal_strlit("fail");
    let probes = commands::probes_of(nodes, Ok::<NodeView, Seq<char>>(own));
    let label = commands::probe_label(probes[i]);
    let line = commands::probe_lines(probes, found)[i];
    text_laws::law_padding_adds_blanks_only(label, 34);
    let at: int = if nodes[i].id == own.id {
        "docker on "@.len() as int
    } else {
        "daemon "@.len() as int
    };
    let slug = nodes[i].slug;
    assert(label.subrange(at, at + slug.len()) =~= slug);
    assert(line.subrange(at, at + slug.len()) =~= label.subrange(at, at + slug.len()));
    if found[i] {
        assert(line.subrange(line.len() - 2, line.len() as int) =~= "ok"@);
    } else {
        assert(line.subrange(line.len() - 4, line.len() as int) =~= "fail"@);
    }
}

/// All is well exactly where nothing that was looked at is amiss.
pub proof fn law_all_is_well_where_nothing_is_amiss(
    root_exists: bool,
    key_exists: bool,
    key_error: Option<Seq<char>>,
    initialized: bool,
    found: Seq<bool>,
)
    ensures
        commands::all_well(root_exists, key_exists, key_error, initialized, found) == !(
        !root_exists || !key_exists || key_error is Some || !initialized || found.contains(false)),
        commands::own_lines(root_exists, key_exists, key_error, initialized)[0]
            == commands::check_line("state directory"@, root_exists),
        commands::own_lines(root_exists, key_exists, key_error, initialized)[1]
            == commands::check_line("mesh key present"@, key_exists),
        commands::own_lines(root_exists, key_exists, key_error, initialized)[2]
            == commands::check_line("mesh key valid"@, key_error is None),
        commands::own_lines(root_exists, key_exists, key_error, initialized).last()
            == commands::check_line("local node initialized"@, initialized),
        key_error is Some ==> commands::own_lines(
            root_exists,
            key_exists,
            key_error,
            initialized,
        )[3] == "  "@ + key_error->Some_0,
{
    if found.contains(false) {
        let i = choose|i: int| 0 <= i < found.len() && found[i] == false;
        assert(!found[i]);
    } else {
        assert forall|i: int| 0 <= i < found.len() implies #[trigger] found[i] by {
            if !found[i] {
                assert(found.contains(false));
            }
        }
    }
}

// ---------------------------------------------------------------------------
// Listing nodes.

/// The list of nodes shows each node that is known here as it is known here, and each other
/// that the hub lists, as reached through the hub.
pub proof fn law_nodes_of_the_hub_are_listed_too(
    nodes: Seq<NodeView>,
    more: Seq<HubNodeView>,
    slug: Seq<char>,
    i: int,
)
    requires
        table::sorted(nodes),
    ensures
        table::sorted(commands::with_hub_nodes(nodes, more)),
        table::find(nodes, slug) is Some ==> table::find(
            commands::with_hub_nodes(nodes, more),
            slug,
        ) == table::find(nodes, slug),
        0 <= i < more.len() && more[i].slug == slug && table::find(nodes, slug) is None && (forall|
            j: int,
        |
            0 <= j < i ==> (#[trigger] more[j]).slug != slug) ==> ({
            let n = table::find(commands::with_hub_nodes(nodes, more), slug);
            &&& n is Some
            &&& n->Some_0.id == more[i].id
            &&& n->Some_0.slug == slug
            &&& n->Some_0.display_name == more[i].name
            &&& n->Some_0.addresses == seq!["hub"@]
            &&& n->Some_0.last_seen_at == (if more[i].status == "online"@ {
                Some(more[i].seen)
            } else {
                None
            })
        }),
        (forall|j: int| 0 <= j < more.len() ==> (#[trigger] more[j]).slug != slug) ==> table::find(
            commands::with_hub_nodes(nodes, more),
            slug,
        ) == table::find(nodes, slug),
    decreases more.len(),
{
    if more.len() > 0 {
        let p = more.drop_last();
        let before = commands::with_hub_nodes(nodes, p);
        let last = hub::node_of(more.last(), seq!["hub"@]);
        law_nodes_of_the_hub_are_listed_too(nodes, p, slug, i);
        law_nodes_of_the_hub_are_listed_too(nodes, p, slug, p.len() as int);
        assert forall|j: int| 0 <= j < p.len() implies #[trigger] p[j] == more[j] by {}
        table::lemma_put_sorted(before, last);
        table::lemma_find_put(before, last, slug);
        if 0 <= i < more.len() && more[i].slug == slug && table::find(nodes, slug) is None && (
        forall|j: int| 0 <= j < i ==> (#[trigger] more[j]).slug != slug) {
            if i < p.len() {
                assert(p[i] == more[i]);
                assert forall|j: int| 0 <= j < i implies (#[trigger] p[j]).slug != slug by {
                    assert(more[j].slug != slug);
                }
            } else {
                assert forall|j: int| 0 <= j < p.len() implies (#[trigger] p[j]).slug != slug by {
                    assert(more[j].slug != slug);
                }
                assert(table::find(before, slug) is None);
            }
        }
        if forall|j: int| 0 <= j < more.len() ==> (#[trigger] more[j]).slug != slug {
            assert forall|j: int| 0 <= j < p.len() implies (#[trigger] p[j]).slug != slug by {
                assert(more[j].slug != slug);
            }
            assert(more[more.len() - 1].slug != slug);
        }
    }
}

/// Each node has its line in the list, which begins with its slug, says whether it is public,
/// and ends with its addresses.
pub proof fn law_every_node_has_its_line(nodes: Seq<NodeView>, i: int)
    requires
        0 <= i < nodes.len(),
        nodes[i].addresses.len() == 1,
    ensures
        ({
            let lines = commands::node_lines(nodes);
            let line = lines[i + 1];
            let address = nodes[i].addresses[0];
            &&& lines.len() == nodes.len() + 1
            &&& nodes[i].slug.is_prefix_of(line)
            &&& line.subrange(line.len() - address.len(), line.len() as int) == address
            &&& text::holds(
                line,
                if nodes[i].public {
                    "yes"@
                } else {
                    "no"@
                },
            )
        }),
{
    let n = nodes[i];
    let line = commands::node_line(n);
    let address = n.addresses[0];
    let word = if n.public {
        "yes"@
    } else {
        "no"@
    };
    text_laws::law_padding_adds_blanks_only(n.slug, 18);
    text_laws::law_padding_adds_blanks_only(word, 8);
    assert(line.take(n.slug.len() as int) =~= n.slug);
    assert(line.subrange(line.len() - address.len(), line.len() as int) =~= address);
    let at: int = text::padded(n.slug, 18).len() as int + " "@.len();
    assert(line.subrange(at, at + word.len()) =~= word);
}

// ---------------------------------------------------------------------------
// Events.

/// Events are shown newest first, all of them, or the newest where fewer are asked for.
pub proof fn law_newest_events_come_first(events: Seq<EventView>, limit: int, i: int, j: int)
    requires
        0 <= limit,
    ensures
        event::newest(events, limit).len() == if limit < events.len() {
            limit
        } else {
            events.len() as int
        },
        0 <= i < j < event::newest(events, limit).len() ==> event::newest(
            events,
            limit,
        )[i].created_at >= event::newest(events, limit)[j].created_at,
        0 <= i < j < event::newest(events, limit).len() && event::newest(events, limit)[i].created_at
            == event::newest(events, limit)[j].created_at ==> !order::precedes(
            event::newest(events, limit)[i].id,
            event::newest(events, limit)[j].id,
        ),
        0 <= i < event::newest(events, limit).len() ==> events.contains(
            event::newest(events, limit)[i],
        ),
        limit < events.len() && 0 <= i < limit && 0 <= j < events.len() && !event::newest(
            events,
            limit,
        ).contains(events[j]) ==> event::newest(events, limit)[i].created_at
            >= events[j].created_at,
{
    let shown = event::newest_first(events);
    event::lemma_newest_first_sorted(events);
    if 0 <= i < event::newest(events, limit).len() {
        event::lemma_newest_first_member(events, shown[i]);
        assert(shown.contains(shown[i]));
        if i < j < shown.len() {
            assert(!event::newer(shown[j], shown[i]));
        }
    }
    if limit < events.len() && 0 <= i < limit && 0 <= j < events.len() && !event::newest(
        events,
        limit,
    ).contains(events[j]) {
        event::lemma_newest_first_member(events, events[j]);
        assert(events.contains(events[j]));
        let k = choose|k: int| 0 <= k < shown.len() && shown[k] == events[j];
        if k < limit {
            assert(event::newest(events, limit)[k] == events[j]);
        }
        assert(!event::newer(shown[k], shown[i]));
    }
}

/// What may be kept of an event is kept: its identifier, kind and time always, its payload
/// unless it is about a service, a command or a secret; and of those about services and
/// commands every member but the command.
pub proof fn law_events_keep_what_they_may(e: EventView, i: int)
    ensures
        ({
            let s = event::sanitized(e);
            &&& s.id == e.id && s.kind == e.kind && s.created_at == e.created_at
            &&& e.kind != "secret.set"@ && e.kind != "node.exec"@ && !"service."@.is_prefix_of(
                e.kind,
            ) ==> s.payload == e.payload
            &&& e.kind != "secret.set"@ && e.payload is Object && 0 <= i
                < e.payload->Object_0.len() && e.payload->Object_0[i].0 != "command"@
                ==> s.payload is Object && s.payload->Object_0.contains(e.payload->Object_0[i])
            &&& e.kind == "secret.set"@ && e.payload is Object && 0 <= i
                < e.payload->Object_0.len() && e.payload->Object_0[i].0 == "name"@
                && e.payload->Object_0[i].1 is Text && (forall|j: int|
                0 <= j < i ==> (#[trigger] e.payload->Object_0[j]).0 != "name"@) ==> s.payload
                == model::PayloadView::Object(seq![e.payload->Object_0[i]])
        }),
{
    if e.payload is Object && 0 <= i < e.payload->Object_0.len() {
        let f = e.payload->Object_0;
        if f[i].0 != "command"@ {
            lemma_without_keeps(f, "command"@, i);
        }
        if f[i].0 == "name"@ && f[i].1 is Text && (forall|j: int|
            0 <= j < i ==> (#[trigger] f[j]).0 != "name"@) {
            lemma_text_member(f, "name"@, i);
        }
    }
}

proof fn lemma_without_keeps(
    f: Seq<(Seq<char>, model::ValueView)>,
    key: Seq<char>,
    i: int,
)
    requires
        0 <= i < f.len(),
        f[i].0 != key,
    ensures
        event::without(f, key).contains(f[i]),
    decreases f.len(),
{
    let p = f.drop_last();
    let w = event::without(f, key);
    if i < p.len() {
        assert(p[i] == f[i]);
        lemma_without_keeps(p, key, i);
        let k = choose|k: int|
            0 <= k < event::without(p, key).len() && event::without(p, key)[k] == f[i];
        assert(w[k] == f[i]);
    } else {
        assert(w[w.len() - 1] == f[i]);
    }
}

proof fn lemma_text_member(f: Seq<(Seq<char>, model::ValueView)>, key: Seq<char>, i: int)
    requires
        0 <= i < f.len(),
        f[i].0 == key,
        f[i].1 is Text,
        forall|j: int| 0 <= j < i ==> (#[trigger] f[j]).0 != key,
    ensures
        event::text_member(f, key) == Some(f[i].1->Text_0),
    decreases i,
{
    if i > 0 {
        let t = f.skip(1);
        assert(f[0].0 != key);
        assert forall|j: int| 0 <= j < i - 1 implies (#[trigger] t[j]).0 != key by {
            assert(t[j] == f[j + 1]);
        }
        lemma_text_member(t, key, i - 1);
    }
}

/// What is recorded is found under its identifier, with its kind and time and what may be kept
/// of what it says; nothing else that the node knows changes.
pub proof fn law_what_is_recorded_is_found(
    st: StateView,
    id: Seq<char>,
    kind: Seq<char>,
    payload: model::PayloadView,
    now: i64,
)
    requires
        state::well_formed(st),
    ensures
        ({
            let after = state::recorded(st, id, kind, payload, now);
            let e = table::find(after.events, id);
            &&& e is Some
            &&& e->Some_0.id == id
            &&& e->Some_0.kind == kind
            &&& e->Some_0.created_at == now
            &&& e->Some_0.payload == event::sanitized(
                EventView { id, kind, payload, created_at: now },
            ).payload
            &&& after.nodes == st.nodes
            &&& after.services == st.services
            &&& after.secrets == st.secrets
            &&& after.mesh == st.mesh
            &&& after.local_node_id == st.local_node_id
        }),
{
    state_laws::law_event_is_read_back(
        st,
        EventView { id, kind, payload, created_at: now },
        id,
    );
}

} // verus!
