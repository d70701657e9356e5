//! What holds of a node's state across operations.

use crate::event;
use crate::model::{
    EventView, Keyed, NodeView, PayloadView, SecretView, ServiceView, SnapshotView,
};
use crate::state;
use crate::state::StateView;
use crate::state::{
    EVENT_INDEX_KEY, LOCAL_NODE_KEY, MESH_KEY, NODE_INDEX_KEY, SECRET_INDEX_KEY, SERVICE_INDEX_KEY,
};
use crate::table;
use vstd::prelude::*;

verus! {

// ---------------------------------------------------------------------------
// Keys.

/// A record's key tells its name.
pub proof fn law_keys_tell_names(a: Seq<char>, b: Seq<char>)
    ensures
        state::node_key_text(a) == state::node_key_text(b) ==> a == b,
        state::service_key_text(a) == state::service_key_text(b) ==> a == b,
        state::secret_key_text(a) == state::secret_key_text(b) ==> a == b,
        state::event_key_text(a) == state::event_key_text(b) ==> a == b,
{
    lemma_prefix_cancels("via:node:"@, a, b);
    lemma_prefix_cancels("via:service:"@, a, b);
    lemma_prefix_cancels("via:secret:"@, a, b);
    lemma_prefix_cancels("via:event:"@, a, b);
}

proof fn lemma_prefix_cancels(p: Seq<char>, a: Seq<char>, b: Seq<char>)
    ensures
        p + a == p + b ==> a == b,
{
    if p + a == p + b {
        assert((p + a).skip(p.len() as int) == a);
        assert((p + b).skip(p.len() as int) == b);
    }
}

/// The character that tells which table a key belongs to.
proof fn lemma_key_marks(a: Seq<char>)
    ensures
        state::node_key_text(a)[4] == 'n',
        state::service_key_text(a)[6] == 'r',
        state::secret_key_text(a)[6] == 'c',
        state::service_key_text(a)[4] == 's',
        state::secret_key_text(a)[4] == 's',
        state::event_key_text(a)[4] == 'e',
        MESH_KEY@[4] == 'm',
        LOCAL_NODE_KEY@[4] == 'l',
        NODE_INDEX_KEY@[4] == 'i',
        SERVICE_INDEX_KEY@[4] == 'i',
        SECRET_INDEX_KEY@[4] == 'i',
        EVENT_INDEX_KEY@[4] == 'i',
{
    reveal_strlit("via:node:");
    reveal_strlit("via:service:");
    reveal_strlit("via:secret:");
    reveal_strlit("via:event:");
    reveal_strlit("via:mesh");
    reveal_strlit("via:local_node_id");
    reveal_strlit("via:index:nodes");
    reveal_strlit("via:index:services");
    reveal_strlit("via:index:secrets");
    reveal_strlit("via:index:events");
}

/// The keys that do not depend on a name.
pub open spec fn is_fixed_key(k: Seq<char>) -> bool {
    ||| k == MESH_KEY@
    ||| k == LOCAL_NODE_KEY@
    ||| k == NODE_INDEX_KEY@
    ||| k == SERVICE_INDEX_KEY@
    ||| k == SECRET_INDEX_KEY@
    ||| k == EVENT_INDEX_KEY@
}

/// No two kinds of record share a key, whatever their names are.
pub proof fn law_keys_are_apart(a: Seq<char>, b: Seq<char>)
    ensures
        state::node_key_text(a) != state::service_key_text(b),
        state::node_key_text(a) != state::secret_key_text(b),
        state::node_key_text(a) != state::event_key_text(b),
        state::service_key_text(a) != state::secret_key_text(b),
        state::service_key_text(a) != state::event_key_text(b),
        state::secret_key_text(a) != state::event_key_text(b),
        forall|k: Seq<char>| #[trigger]
            is_fixed_key(k) ==> k != state::node_key_text(a) && k != state::service_key_text(a)
                && k != state::secret_key_text(a) && k != state::event_key_text(a),
{
    lemma_key_marks(a);
    lemma_key_marks(b);
}

// ---------------------------------------------------------------------------
// Reading what was written.

/// A node that was kept is found under its slug, and no other slug is affected.
pub proof fn law_node_is_read_back(st: StateView, n: NodeView, slug: Seq<char>)
    requires
        state::well_formed(st),
    ensures
        table::find(state::with_node(st, n).nodes, slug) == (if slug == n.slug {
            Some(n)
        } else {
            table::find(st.nodes, slug)
        }),
        table::find(state::without_node(st, n.slug).nodes, slug) == (if slug == n.slug {
            None
        } else {
            table::find(st.nodes, slug)
        }),
{
    table::lemma_find_put(st.nodes, n, slug);
    table::lemma_find_dropped(st.nodes, n.slug, slug);
}

/// A service that was kept is found under its name, and no other name is affected.
pub proof fn law_service_is_read_back(st: StateView, s: ServiceView, name: Seq<char>)
    requires
        state::well_formed(st),
    ensures
        table::find(state::with_service(st, s).services, name) == (if name == s.name {
            Some(s)
        } else {
            table::find(st.services, name)
        }),
        table::find(state::without_service(st, s.name).services, name) == (if name == s.name {
            None
        } else {
            table::find(st.services, name)
        }),
{
    table::lemma_find_put(st.services, s, name);
    table::lemma_find_dropped(st.services, s.name, name);
}

/// A secret that was kept is found under its name, and no other name is affected.
pub proof fn law_secret_is_read_back(st: StateView, s: SecretView, name: Seq<char>)
    requires
        state::well_formed(st),
    ensures
        table::find(state::with_secret(st, s).secrets, name) == (if name == s.name {
            Some(s)
        } else {
            table::find(st.secrets, name)
        }),
        table::find(state::without_secret(st, s.name).secrets, name) == (if name == s.name {
            None
        } else {
            table::find(st.secrets, name)
        }),
{
    table::lemma_find_put(st.secrets, s, name);
    table::lemma_find_dropped(st.secrets, s.name, name);
}

/// An event that was kept is found under its identifier, without what may not be
/// kept of it.
pub proof fn law_event_is_read_back(st: StateView, e: EventView, id: Seq<char>)
    requires
        state::well_formed(st),
    ensures
        table::find(state::with_event(st, e).events, id) == (if id == e.id {
            Some(event::sanitized(e))
        } else {
            table::find(st.events, id)
        }),
{
    table::lemma_find_put(st.events, event::sanitized(e), id);
}

/// No event that a node keeps about a service, or about a command that was run,
/// tells the command: it has no such member, and no text or list in its place.
pub proof fn law_kept_events_tell_no_commands(st: StateView, i: int)
    requires
        state::well_formed(st),
        0 <= i < st.events.len(),
        event::hides_command(st.events[i].kind),
    ensures
        match st.events[i].payload {
            PayloadView::Object(f) => forall|j: int|
                0 <= j < f.len() ==> (#[trigger] f[j]).0 != "command"@,
            PayloadView::Plain(v) => event::is_bare(v),
        },
{
    event::lemma_no_command_kept(st.events[i]);
    assert(event::sanitized(st.events[i]) == st.events[i]);
}

/// An event that a node keeps about a secret that was set tells nothing but the
/// secret's name, if it is not null, a boolean or a number.
pub proof fn law_kept_events_tell_no_secrets(st: StateView, i: int)
    requires
        state::well_formed(st),
        0 <= i < st.events.len(),
        st.events[i].kind == "secret.set"@,
    ensures
        match st.events[i].payload {
            PayloadView::Object(f) => f.len() <= 1 && forall|j: int|
                0 <= j < f.len() ==> (#[trigger] f[j]).0 == "name"@,
            PayloadView::Plain(v) => event::is_bare(v),
        },
{
    event::lemma_no_ciphertext_kept(st.events[i]);
    assert(event::sanitized(st.events[i]) == st.events[i]);
}

// ---------------------------------------------------------------------------
// Taking over a snapshot.

proof fn lemma_with_nodes_frame(st: StateView, nodes: Seq<NodeView>)
    ensures
        ({
            let r = state::with_nodes(st, nodes);
            &&& r.services == st.services
            &&& r.secrets == st.secrets
            &&& r.events == st.events
            &&& r.mesh == st.mesh
            &&& r.local_node_id == st.local_node_id
            &&& table::sorted(st.nodes) ==> table::sorted(r.nodes)
        }),
    decreases nodes.len(),
{
    if nodes.len() > 0 {
        let before = state::with_nodes(st, nodes.drop_last());
        lemma_with_nodes_frame(st, nodes.drop_last());
        if table::sorted(st.nodes) {
            table::lemma_put_sorted(before.nodes, state::adopted(before, nodes.last()));
        }
    }
}

proof fn lemma_with_services_frame(st: StateView, services: Seq<ServiceView>)
    ensures
        ({
            let r = state::with_services(st, services);
            &&& r.services == table::put_all(st.services, services)
            &&& r.nodes == st.nodes
            &&& r.secrets == st.secrets
            &&& r.events == st.events
            &&& r.mesh == st.mesh
            &&& r.local_node_id == st.local_node_id
        }),
    decreases services.len(),
{
    if services.len() > 0 {
        lemma_with_services_frame(st, services.drop_last());
    }
}

proof fn lemma_with_secrets_frame(st: StateView, secrets: Seq<SecretView>)
    ensures
        ({
            let r = state::with_secrets(st, secrets);
            &&& r.secrets == table::put_all(st.secrets, secrets)
            &&& r.nodes == st.nodes
            &&& r.services == st.services
            &&& r.events == st.events
            &&& r.mesh == st.mesh
            &&& r.local_node_id == st.local_node_id
        }),
    decreases secrets.len(),
{
    if secrets.len() > 0 {
        lemma_with_secrets_frame(st, secrets.drop_last());
    }
}

proof fn lemma_with_events_frame(st: StateView, events: Seq<EventView>)
    ensures
        ({
            let r = state::with_events(st, events);
            &&& r.events == table::put_all(st.events, event::all_sanitized(events))
            &&& r.nodes == st.nodes
            &&& r.services == st.services
            &&& r.secrets == st.secrets
            &&& r.mesh == st.mesh
            &&& r.local_node_id == st.local_node_id
        }),
    decreases events.len(),
{
    let all = event::all_sanitized(events);
    if events.len() > 0 {
        lemma_with_events_frame(st, events.drop_last());
        assert(all.drop_last() == event::all_sanitized(events.drop_last()));
        assert(all.last() == event::sanitized(events.last()));
    }
}

/// Of the secrets known before, those that the snapshot names are left.
proof fn lemma_pruned(st: StateView, known: Seq<SecretView>, incoming: Seq<SecretView>)
    requires
        table::sorted(st.secrets),
    ensures
        ({
            let r = state::pruned(st, known, incoming);
            &&& r.nodes == st.nodes
            &&& r.services == st.services
            &&& r.events == st.events
            &&& r.mesh == st.mesh
            &&& r.local_node_id == st.local_node_id
            &&& table::sorted(r.secrets)
            &&& forall|k: Seq<char>|
                #![trigger table::find(r.secrets, k)]
                (state::names_secret(known, k) && !state::names_secret(incoming, k)
                    ==> table::find(r.secrets, k) is None) && (!state::names_secret(known, k)
                    || state::names_secret(incoming, k) ==> table::find(r.secrets, k)
                    == table::find(st.secrets, k))
        }),
    decreases known.len(),
{
    let r = state::pruned(st, known, incoming);
    if known.len() > 0 {
        let p = known.drop_last();
        let last = known.last();
        let before = state::pruned(st, p, incoming);
        lemma_pruned(st, p, incoming);
        if !state::names_secret(incoming, last.name) {
            table::lemma_dropped_sorted(before.secrets, last.name);
        }
        assert forall|k: Seq<char>|
            #![trigger table::find(r.secrets, k)]
            (state::names_secret(known, k) && !state::names_secret(incoming, k) ==> table::find(
                r.secrets,
                k,
            ) is None) && (!state::names_secret(known, k) || state::names_secret(incoming, k)
                ==> table::find(r.secrets, k) == table::find(st.secrets, k)) by {
            assert(table::find(before.secrets, k) == table::find(before.secrets, k));
            table::lemma_find_dropped(before.secrets, last.name, k);
            if state::names_secret(known, k) {
                let i = choose|i: int| 0 <= i < known.len() && (#[trigger] known[i]).name == k;
                if i < p.len() {
                    assert(p[i].name == k);
                    assert(state::names_secret(p, k));
                } else {
                    assert(last.name == k);
                }
            }
            if state::names_secret(p, k) {
                let i = choose|i: int| 0 <= i < p.len() && (#[trigger] p[i]).name == k;
                assert(known[i].name == k);
                assert(state::names_secret(known, k));
            }
            if last.name == k {
                assert(known[known.len() - 1].name == k);
                assert(state::names_secret(known, k));
            }
        }
    } else {
        assert forall|k: Seq<char>| !state::names_secret(known, k) by {}
    }
}

/// The state before the secrets of a snapshot are looked at.
spec fn after_services(st: StateView, snapshot: SnapshotView) -> StateView {
    let a = match snapshot.mesh {
        Some(m) => state::with_mesh(st, m),
        None => st,
    };
    state::with_services(state::with_nodes(a, snapshot.nodes), snapshot.services)
}

/// Taking over a snapshot reconciles the secrets: afterwards exactly those of the
/// snapshot are known.
pub proof fn law_import_reconciles_secrets(st: StateView, snapshot: SnapshotView)
    requires
        state::well_formed(st),
    ensures
        state::imported(st, snapshot).secrets == table::put_all(
            Seq::<SecretView>::empty(),
            snapshot.secrets,
        ),
{
    let a = match snapshot.mesh {
        Some(m) => state::with_mesh(st, m),
        None => st,
    };
    let b = after_services(st, snapshot);
    lemma_with_nodes_frame(a, snapshot.nodes);
    lemma_with_services_frame(state::with_nodes(a, snapshot.nodes), snapshot.services);
    let p = state::pruned(b, b.secrets, snapshot.secrets);
    lemma_pruned(b, b.secrets, snapshot.secrets);
    let c = state::with_secrets(p, snapshot.secrets);
    lemma_with_secrets_frame(p, snapshot.secrets);
    lemma_with_events_frame(c, snapshot.events);
    let none = Seq::<SecretView>::empty();
    let left = table::put_all(p.secrets, snapshot.secrets);
    let right = table::put_all(none, snapshot.secrets);
    table::lemma_put_all_sorted(p.secrets, snapshot.secrets);
    table::lemma_put_all_sorted(none, snapshot.secrets);
    assert forall|k: Seq<char>| #[trigger] table::find(left, k) == table::find(right, k) by {
        table::lemma_find_put_all(p.secrets, snapshot.secrets, k);
        table::lemma_find_put_all(none, snapshot.secrets, k);
        if state::names_secret(snapshot.secrets, k) {
            let i = lemma_last_with_name(snapshot.secrets, k);
            assert(snapshot.secrets[i].key() == k);
            assert forall|j: int| i < j < snapshot.secrets.len() implies (
            #[trigger] snapshot.secrets[j]).key() != k by {
                assert(snapshot.secrets[j].name != k);
            }
        } else {
            assert forall|i: int| 0 <= i < snapshot.secrets.len() implies (
            #[trigger] snapshot.secrets[i]).key() != k by {
                assert(snapshot.secrets[i].name != k);
            }
            assert(table::find(none, k) is None);
            if table::find(b.secrets, k) is Some {
                table::lemma_find(b.secrets, k);
                assert(b.secrets[table::rank(b.secrets, k)].name == k);
                assert(state::names_secret(b.secrets, k));
            }
            assert(table::find(p.secrets, k) is None);
        }
    }
    table::lemma_same_table(left, right);
}

proof fn lemma_last_with_name(s: Seq<SecretView>, k: Seq<char>) -> (i: int)
    requires
        state::names_secret(s, k),
    ensures
        0 <= i < s.len(),
        s[i].name == k,
        forall|j: int| i < j < s.len() ==> (#[trigger] s[j]).name != k,
    decreases s.len(),
{
    let n = s.len() - 1;
    if s[n].name == k {
        n
    } else {
        let p = s.drop_last();
        let w = choose|i: int| 0 <= i < s.len() && (#[trigger] s[i]).name == k;
        assert(p[w].name == k);
        let i = lemma_last_with_name(p, k);
        assert forall|j: int| i < j < s.len() implies (#[trigger] s[j]).name != k by {
            if j < n {
                assert(p[j].name != k);
            }
        }
        i
    }
}

/// Taking over a snapshot adds its services and events to those that are known,
/// in place of those with the same names, and forgets none.
pub proof fn law_import_merges(st: StateView, snapshot: SnapshotView)
    requires
        state::well_formed(st),
    ensures
        state::imported(st, snapshot).services == table::put_all(st.services, snapshot.services),
        state::imported(st, snapshot).events == table::put_all(
            st.events,
            event::all_sanitized(snapshot.events),
        ),
        state::imported(st, snapshot).local_node_id == st.local_node_id,
        state::imported(st, snapshot).mesh == (match snapshot.mesh {
            Some(m) => Some(m),
            None => st.mesh,
        }),
{
    let a = match snapshot.mesh {
        Some(m) => state::with_mesh(st, m),
        None => st,
    };
    let b = after_services(st, snapshot);
    lemma_with_nodes_frame(a, snapshot.nodes);
    lemma_with_services_frame(state::with_nodes(a, snapshot.nodes), snapshot.services);
    let p = state::pruned(b, b.secrets, snapshot.secrets);
    lemma_pruned(b, b.secrets, snapshot.secrets);
    let c = state::with_secrets(p, snapshot.secrets);
    lemma_with_secrets_frame(p, snapshot.secrets);
    lemma_with_events_frame(c, snapshot.events);
}

proof fn lemma_import_nodes(st: StateView, snapshot: SnapshotView)
    requires
        state::well_formed(st),
    ensures
        exists|a: StateView| #[trigger]
            state::with_nodes(a, snapshot.nodes).nodes == state::imported(st, snapshot).nodes
                && a.nodes == st.nodes && a.local_node_id == st.local_node_id,
{
    let a = match snapshot.mesh {
        Some(m) => state::with_mesh(st, m),
        None => st,
    };
    let b = after_services(st, snapshot);
    lemma_with_nodes_frame(a, snapshot.nodes);
    lemma_with_services_frame(state::with_nodes(a, snapshot.nodes), snapshot.services);
    let p = state::pruned(b, b.secrets, snapshot.secrets);
    lemma_pruned(b, b.secrets, snapshot.secrets);
    let c = state::with_secrets(p, snapshot.secrets);
    lemma_with_secrets_frame(p, snapshot.secrets);
    lemma_with_events_frame(c, snapshot.events);
    assert(state::with_nodes(a, snapshot.nodes).nodes == state::imported(st, snapshot).nodes);
}

proof fn lemma_with_nodes_find(a: StateView, nodes: Seq<NodeView>, i: int)
    requires
        table::sorted(a.nodes),
        0 <= i < nodes.len(),
        forall|j: int| i < j < nodes.len() ==> (#[trigger] nodes[j]).slug != nodes[i].slug,
    ensures
        table::find(state::with_nodes(a, nodes).nodes, nodes[i].slug) == Some(
            state::adopted(state::with_nodes(a, nodes.take(i)), nodes[i]),
        ),
    decreases nodes.len(),
{
    let p = nodes.drop_last();
    let before = state::with_nodes(a, p);
    let last = state::adopted(before, nodes.last());
    lemma_with_nodes_frame(a, p);
    table::lemma_find_put(before.nodes, last, nodes[i].slug);
    if i < p.len() {
        assert(nodes[nodes.len() - 1].slug != nodes[i].slug);
        assert(p.take(i) == nodes.take(i));
        assert forall|j: int| i < j < p.len() implies (#[trigger] p[j]).slug != p[i].slug by {
            assert(nodes[j].slug != nodes[i].slug);
        }
        lemma_with_nodes_find(a, p, i);
    } else {
        assert(nodes.take(i) == p);
    }
}

proof fn lemma_with_nodes_others(a: StateView, nodes: Seq<NodeView>, slug: Seq<char>)
    requires
        table::sorted(a.nodes),
        forall|i: int| 0 <= i < nodes.len() ==> (#[trigger] nodes[i]).slug != slug,
    ensures
        table::find(state::with_nodes(a, nodes).nodes, slug) == table::find(a.nodes, slug),
    decreases nodes.len(),
{
    if nodes.len() > 0 {
        let p = nodes.drop_last();
        let before = state::with_nodes(a, p);
        assert forall|i: int| 0 <= i < p.len() implies (#[trigger] p[i]).slug != slug by {
            assert(p[i] == nodes[i]);
        }
        lemma_with_nodes_others(a, p, slug);
        lemma_with_nodes_frame(a, p);
        assert(nodes[nodes.len() - 1].slug != slug);
        table::lemma_find_put(before.nodes, state::adopted(before, nodes.last()), slug);
    }
}

/// Taking over a snapshot forgets no node: what is kept under a slug that the snapshot does
/// not name stays as it was.
pub proof fn law_import_keeps_other_nodes(
    st: StateView,
    snapshot: SnapshotView,
    slug: Seq<char>,
)
    requires
        state::well_formed(st),
        forall|i: int|
            0 <= i < snapshot.nodes.len() ==> (#[trigger] snapshot.nodes[i]).slug != slug,
    ensures
        table::find(state::imported(st, snapshot).nodes, slug) == table::find(st.nodes, slug),
{
    lemma_import_nodes(st, snapshot);
    let a = choose|a: StateView| #[trigger]
        state::with_nodes(a, snapshot.nodes).nodes == state::imported(st, snapshot).nodes && a.nodes
            == st.nodes && a.local_node_id == st.local_node_id;
    lemma_with_nodes_others(a, snapshot.nodes, slug);
}

/// That another node was seen is not taken over: a node of a snapshot that is not
/// the local one is kept as the snapshot shows it, but as not seen.
pub proof fn law_import_forgets_last_seen(st: StateView, snapshot: SnapshotView, i: int)
    requires
        state::well_formed(st),
        0 <= i < snapshot.nodes.len(),
        Some(snapshot.nodes[i].id) != st.local_node_id,
        forall|j: int|
            i < j < snapshot.nodes.len() ==> (#[trigger] snapshot.nodes[j]).slug
                != snapshot.nodes[i].slug,
    ensures
        table::find(state::imported(st, snapshot).nodes, snapshot.nodes[i].slug) == Some(
            NodeView { last_seen_at: None, ..snapshot.nodes[i] },
        ),
{
    lemma_import_nodes(st, snapshot);
    let a = choose|a: StateView| #[trigger]
        state::with_nodes(a, snapshot.nodes).nodes == state::imported(st, snapshot).nodes && a.nodes
            == st.nodes && a.local_node_id == st.local_node_id;
    lemma_with_nodes_frame(a, snapshot.nodes.take(i));
    lemma_with_nodes_find(a, snapshot.nodes, i);
}

/// An identifier leads to the first node that bears it.
pub proof fn lemma_node_with_id_index(nodes: Seq<NodeView>, id: Seq<char>)
    ensures
        match state::node_with_id(nodes, id) {
            Some(n) => exists|i: int|
                0 <= i < nodes.len() && #[trigger] nodes[i] == n && n.id == id && forall|j: int|
                    0 <= j < i ==> (#[trigger] nodes[j]).id != id,
            None => forall|j: int| 0 <= j < nodes.len() ==> (#[trigger] nodes[j]).id != id,
        },
    decreases nodes.len(),
{
    if nodes.len() > 0 && nodes[0].id != id {
        let t = nodes.skip(1);
        lemma_node_with_id_index(t, id);
        match state::node_with_id(t, id) {
            Some(n) => {
                let i = choose|i: int|
                    0 <= i < t.len() && #[trigger] t[i] == n && n.id == id && forall|j: int|
                        0 <= j < i ==> (#[trigger] t[j]).id != id;
                assert(nodes[i + 1] == n);
                assert forall|j: int| 0 <= j < i + 1 implies (#[trigger] nodes[j]).id != id by {
                    if j > 0 {
                        assert(t[j - 1].id != id);
                    }
                }
            },
            None => {
                assert forall|j: int| 0 <= j < nodes.len() implies (#[trigger] nodes[j]).id
                    != id by {
                    if j > 0 {
                        assert(t[j - 1].id != id);
                    }
                }
            },
        }
    } else if nodes.len() > 0 {
        assert(nodes[0].id == id);
    }
}

proof fn lemma_node_with_id_is(nodes: Seq<NodeView>, id: Seq<char>, i: int)
    requires
        0 <= i < nodes.len(),
        nodes[i].id == id,
        forall|j: int| 0 <= j < i ==> (#[trigger] nodes[j]).id != id,
    ensures
        state::node_with_id(nodes, id) == Some(nodes[i]),
    decreases i,
{
    if i > 0 {
        assert(nodes[0].id != id);
        let t = nodes.skip(1);
        assert forall|j: int| 0 <= j < i - 1 implies (#[trigger] t[j]).id != id by {
            assert(nodes[j + 1].id != id);
        }
        lemma_node_with_id_is(t, id, i - 1);
    }
}

/// Keeping a node under another slug and with another identifier leaves the node
/// that an identifier leads to.
proof fn lemma_node_with_id_put(nodes: Seq<NodeView>, v: NodeView, id: Seq<char>)
    requires
        table::sorted(nodes),
        v.id != id,
        state::node_with_id(nodes, id) is Some,
        v.slug != state::node_with_id(nodes, id)->Some_0.slug,
    ensures
        state::node_with_id(table::put(nodes, v), id) == state::node_with_id(nodes, id),
{
    lemma_node_with_id_index(nodes, id);
    let n = state::node_with_id(nodes, id)->Some_0;
    let i = choose|i: int|
        0 <= i < nodes.len() && #[trigger] nodes[i] == n && n.id == id && forall|j: int|
            0 <= j < i ==> (#[trigger] nodes[j]).id != id;
    let t = table::put(nodes, v);
    let r = table::rank(nodes, v.slug);
    table::lemma_rank(nodes, v.slug);
    if table::kept(nodes, v.slug) {
        assert(t[i] == n);
        assert forall|j: int| 0 <= j < i implies (#[trigger] t[j]).id != id by {
            assert(nodes[j].id != id);
        }
        lemma_node_with_id_is(t, id, i);
    } else {
        let m = if i < r {
            i
        } else {
            i + 1
        };
        assert(t[m] == n);
        assert forall|j: int| 0 <= j < m implies (#[trigger] t[j]).id != id by {
            if j < r {
                assert(nodes[j].id != id);
            } else if j > r {
                assert(nodes[j - 1].id != id);
            }
        }
        lemma_node_with_id_is(t, id, m);
    }
}

proof fn lemma_with_nodes_keeps_local(a: StateView, nodes: Seq<NodeView>, id: Seq<char>)
    requires
        table::sorted(a.nodes),
        a.local_node_id == Some(id),
        state::node_with_id(a.nodes, id) is Some,
        forall|j: int|
            0 <= j < nodes.len() ==> (#[trigger] nodes[j]).id != id && nodes[j].slug
                != state::node_with_id(a.nodes, id)->Some_0.slug,
    ensures
        state::node_with_id(state::with_nodes(a, nodes).nodes, id) == state::node_with_id(
            a.nodes,
            id,
        ),
    decreases nodes.len(),
{
    if nodes.len() > 0 {
        let p = nodes.drop_last();
        assert forall|j: int| 0 <= j < p.len() implies (#[trigger] p[j]).id != id && p[j].slug
            != state::node_with_id(a.nodes, id)->Some_0.slug by {
            assert(nodes[j].id != id);
        }
        lemma_with_nodes_keeps_local(a, p, id);
        lemma_with_nodes_frame(a, p);
        let before = state::with_nodes(a, p);
        assert(nodes[nodes.len() - 1].id != id);
        lemma_node_with_id_put(before.nodes, state::adopted(before, nodes.last()), id);
    }
}

/// What a node knows of itself it does not take from others: the local node's
/// address and the time it was last seen stay what they were, where the snapshot shows
/// it first, if no node before it there has its old slug and none behind it its new
/// one.
pub proof fn law_import_keeps_own_address(
    st: StateView,
    snapshot: SnapshotView,
    i: int,
    own: NodeView,
)
    requires
        state::well_formed(st),
        0 <= i < snapshot.nodes.len(),
        state::local(st) == Ok::<NodeView, Seq<char>>(own),
        snapshot.nodes[i].id == own.id,
        forall|j: int|
            0 <= j < i ==> (#[trigger] snapshot.nodes[j]).id != own.id && snapshot.nodes[j].slug
                != own.slug,
        forall|j: int|
            i < j < snapshot.nodes.len() ==> (#[trigger] snapshot.nodes[j]).slug
                != snapshot.nodes[i].slug,
    ensures
        table::find(state::imported(st, snapshot).nodes, snapshot.nodes[i].slug) == Some(
            NodeView {
                last_seen_at: own.last_seen_at,
                daemon_addr: own.daemon_addr,
                addresses: own.addresses,
                ..snapshot.nodes[i]
            },
        ),
{
    lemma_node_with_id_index(st.nodes, st.local_node_id->Some_0);
    lemma_import_nodes(st, snapshot);
    let a = choose|a: StateView| #[trigger]
        state::with_nodes(a, snapshot.nodes).nodes == state::imported(st, snapshot).nodes && a.nodes
            == st.nodes && a.local_node_id == st.local_node_id;
    let head = snapshot.nodes.take(i);
    lemma_with_nodes_frame(a, head);
    assert forall|j: int| 0 <= j < head.len() implies (#[trigger] head[j]).id != own.id
        && head[j].slug != own.slug by {
        assert(snapshot.nodes[j].id != own.id);
    }
    lemma_with_nodes_keeps_local(a, head, own.id);
    lemma_with_nodes_find(a, snapshot.nodes, i);
}

// ---------------------------------------------------------------------------
// A node's own snapshot.

proof fn lemma_put_all_own<K: Keyed>(s: Seq<K>, from: Seq<K>)
    requires
        table::sorted(s),
        forall|i: int| 0 <= i < from.len() ==> table::find(s, (#[trigger] from[i]).key()) == Some(from[i]),
    ensures
        table::put_all(s, from) == s,
    decreases from.len(),
{
    if from.len() > 0 {
        let p = from.drop_last();
        assert forall|i: int| 0 <= i < p.len() implies table::find(s, (#[trigger] p[i]).key())
            == Some(p[i]) by {
            assert(from[i] == p[i]);
        }
        lemma_put_all_own(s, p);
        assert(from.last() == from[from.len() - 1]);
        table::lemma_put_same(s, from.last());
    }
}

proof fn lemma_find_own<K: Keyed>(s: Seq<K>, i: int)
    requires
        table::sorted(s),
        0 <= i < s.len(),
    ensures
        table::find(s, s[i].key()) == Some(s[i]),
{
    table::lemma_find(s, s[i].key());
}

/// A sorted table is made of its own records.
pub proof fn lemma_put_all_self<K: Keyed>(s: Seq<K>)
    requires
        table::sorted(s),
    ensures
        table::put_all(s, s) == s,
        table::put_all(Seq::<K>::empty(), s) == s,
{
    assert forall|i: int| 0 <= i < s.len() implies table::find(s, (#[trigger] s[i]).key())
        == Some(s[i]) by {
        lemma_find_own(s, i);
    }
    lemma_put_all_own(s, s);
    let none = Seq::<K>::empty();
    let right = table::put_all(none, s);
    table::lemma_put_all_sorted(none, s);
    assert forall|k: Seq<char>| #[trigger] table::find(s, k) == table::find(right, k) by {
        table::lemma_find_put_all(none, s, k);
        table::lemma_find(s, k);
        if table::kept(s, k) {
            let i = table::rank(s, k);
            assert(s[i].key() == k);
            assert forall|j: int| i < j < s.len() implies (#[trigger] s[j]).key() != k by {
                if s[j].key() == k {
                    assert(j == i);
                }
            }
        } else {
            assert(table::find(none, k) is None);
        }
    }
    table::lemma_same_table(s, right);
}

/// Taking over one's own snapshot changes none of the services, secrets and
/// events, and not the mesh.
pub proof fn law_own_snapshot_changes_nothing(st: StateView)
    requires
        state::well_formed(st),
    ensures
        ({
            let r = state::imported(st, state::snapshot_of(st));
            &&& r.services == st.services
            &&& r.secrets == st.secrets
            &&& r.events == st.events
            &&& r.mesh == st.mesh
            &&& r.local_node_id == st.local_node_id
        }),
{
    let snapshot = state::snapshot_of(st);
    law_import_merges(st, snapshot);
    law_import_reconciles_secrets(st, snapshot);
    lemma_put_all_self(st.services);
    lemma_put_all_self(st.secrets);
    let shown = event::newest_first(st.events);
    let kept = event::all_sanitized(shown);
    event::lemma_newest_first_all(st.events);
    event::lemma_newest_first_sorted(st.events);
    assert forall|i: int| 0 <= i < kept.len() implies table::find(
        st.events,
        (#[trigger] kept[i]).key(),
    ) == Some(kept[i]) by {
        broadcast use vstd::seq_lib::group_to_multiset_ensures;

        assert(shown.contains(shown[i]));
        assert(shown.to_multiset().count(shown[i]) > 0);
        assert(st.events.contains(shown[i]));
        let j = choose|j: int| 0 <= j < st.events.len() && st.events[j] == shown[i];
        assert(event::sanitized(st.events[j]) == st.events[j]);
        lemma_find_own(st.events, j);
    }
    lemma_put_all_own(st.events, kept);
}

proof fn lemma_with_nodes_own(a: StateView, nodes: Seq<NodeView>)
    requires
        table::sorted(a.nodes),
        forall|i: int|
            0 <= i < nodes.len() ==> table::find(a.nodes, (#[trigger] nodes[i]).key()) == Some(
                nodes[i],
            ) && state::adopted(a, nodes[i]) == nodes[i],
    ensures
        state::with_nodes(a, nodes).nodes == a.nodes,
        state::with_nodes(a, nodes).local_node_id == a.local_node_id,
    decreases nodes.len(),
{
    if nodes.len() > 0 {
        let p = nodes.drop_last();
        assert forall|i: int| 0 <= i < p.len() implies table::find(
            a.nodes,
            (#[trigger] p[i]).key(),
        ) == Some(p[i]) && state::adopted(a, p[i]) == p[i] by {
            assert(nodes[i] == p[i]);
        }
        lemma_with_nodes_own(a, p);
        let last = nodes.last();
        assert(last == nodes[nodes.len() - 1]);
        let before = state::with_nodes(a, p);
        assert(state::adopted(before, last) == state::adopted(a, last));
        table::lemma_put_same(a.nodes, last);
    }
}

/// Taking over one's own snapshot changes no node either, if no other node is
/// marked as seen and no two nodes share an identifier.
pub proof fn law_own_snapshot_changes_no_node(st: StateView)
    requires
        state::well_formed(st),
        forall|i: int|
            0 <= i < st.nodes.len() && Some((#[trigger] st.nodes[i]).id) != st.local_node_id
                ==> st.nodes[i].last_seen_at is None,
        forall|i: int, j: int|
            0 <= i < j < st.nodes.len() ==> (#[trigger] st.nodes[i]).id != (
            #[trigger] st.nodes[j]).id,
    ensures
        state::imported(st, state::snapshot_of(st)).nodes == st.nodes,
{
    let snapshot = state::snapshot_of(st);
    lemma_import_nodes(st, snapshot);
    let a = choose|a: StateView| #[trigger]
        state::with_nodes(a, snapshot.nodes).nodes == state::imported(st, snapshot).nodes && a.nodes
            == st.nodes && a.local_node_id == st.local_node_id;
    assert forall|i: int| 0 <= i < snapshot.nodes.len() implies table::find(
        a.nodes,
        (#[trigger] snapshot.nodes[i]).key(),
    ) == Some(snapshot.nodes[i]) && state::adopted(a, snapshot.nodes[i]) == snapshot.nodes[i] by {
        lemma_find_own(st.nodes, i);
        let n = st.nodes[i];
        if Some(n.id) == st.local_node_id {
            assert forall|j: int| 0 <= j < i implies (#[trigger] st.nodes[j]).id != n.id by {}
            lemma_node_with_id_is(st.nodes, n.id, i);
        }
    }
    lemma_with_nodes_own(a, snapshot.nodes);
}

} // verus!
