//! What one run writes to a store is what the next run reads from it.

use crate::event;
use crate::model::{EventView, Keyed, MeshView, NodeView, SecretView, ServiceView, SnapshotView};
use crate::paths::PathsView;
use crate::records;
use crate::records::{ReadView, Shelved};
use crate::state;
use crate::state::{StateView, StoredView, WriteView};
use crate::state::{
    EVENT_INDEX_KEY, LOCAL_NODE_KEY, MESH_KEY, NODE_INDEX_KEY, SECRET_INDEX_KEY, SERVICE_INDEX_KEY,
};
use crate::state_laws;
use crate::table;
use vstd::prelude::*;

verus! {

/// The record that the store gives for a name: the one under the name's key, if the index
/// holds the name.
pub open spec fn found<K: Shelved>(
    store: Map<Seq<char>, StoredView>,
    name: Seq<char>,
) -> Option<K> {
    if records::names_of(records::at(store, K::index_place())).contains(name) {
        records::taken_from::<K>(records::at(store, K::place(name)))
    } else {
        None
    }
}

/// That the store gives for each name what the table has under it.
pub open spec fn shelf_holds<K: Shelved>(
    store: Map<Seq<char>, StoredView>,
    rows: Seq<K>,
) -> bool {
    forall|name: Seq<char>| #[trigger] found::<K>(store, name) == table::find(rows, name)
}

/// That a store holds all that a node knows.
pub open spec fn holds(store: Map<Seq<char>, StoredView>, st: StateView) -> bool {
    &&& records::mesh_of(records::at(store, MESH_KEY@)) == st.mesh
    &&& records::text_of(records::at(store, LOCAL_NODE_KEY@)) == st.local_node_id
    &&& shelf_holds(store, st.nodes)
    &&& shelf_holds(store, st.services)
    &&& shelf_holds(store, st.secrets)
    &&& shelf_holds(store, st.events)
}

/// That a store will hold all that a node knows once the changes still to be made were
/// made.
pub open spec fn in_step(store: Map<Seq<char>, StoredView>, st: StateView) -> bool {
    holds(records::followed(store, st.journal), st)
}

/// That each record of a kind in the store bears the name under which it is found.
pub open spec fn shelf_tidy<K: Shelved>(store: Map<Seq<char>, StoredView>) -> bool {
    forall|name: Seq<char>|
        (#[trigger] found::<K>(store, name)) matches Some(r) ==> r.key() == name
}

/// That each record in the store bears the name under which it is found.
pub open spec fn tidy(store: Map<Seq<char>, StoredView>) -> bool {
    &&& shelf_tidy::<NodeView>(store)
    &&& shelf_tidy::<ServiceView>(store)
    &&& shelf_tidy::<SecretView>(store)
    &&& shelf_tidy::<EventView>(store)
}

// ---------------------------------------------------------------------------
// Changes of the store.

proof fn lemma_followed_more(
    store: Map<Seq<char>, StoredView>,
    first: Seq<WriteView>,
    then: Seq<WriteView>,
)
    ensures
        records::followed(store, first + then) == records::followed(
            records::followed(store, first),
            then,
        ),
    decreases then.len(),
{
    let all = first + then;
    if then.len() > 0 {
        lemma_followed_more(store, first, then.drop_last());
        assert(all.drop_last() == first + then.drop_last());
        assert(all.last() == then.last());
    } else {
        assert(all == first);
    }
}

proof fn lemma_followed_one(store: Map<Seq<char>, StoredView>, w: WriteView)
    ensures
        records::followed(store, seq![w]) == records::changed(store, w),
{
    assert(seq![w].drop_last() == Seq::<WriteView>::empty());
    assert(records::followed(store, seq![w].drop_last()) == store);
}

proof fn lemma_followed_two(store: Map<Seq<char>, StoredView>, v: WriteView, w: WriteView)
    ensures
        records::followed(store, seq![v, w]) == records::changed(records::changed(store, v), w),
{
    lemma_followed_one(store, v);
    assert(seq![v, w].drop_last() == seq![v]);
}

/// That two stores differ at most under these two keys.
spec fn same_but(
    a: Map<Seq<char>, StoredView>,
    b: Map<Seq<char>, StoredView>,
    k1: Seq<char>,
    k2: Seq<char>,
) -> bool {
    forall|k: Seq<char>|
        k != k1 && k != k2 ==> #[trigger] records::at(a, k) == records::at(b, k)
}

/// That two stores keep the same records of a kind.
spec fn same_shelf<K: Shelved>(
    a: Map<Seq<char>, StoredView>,
    b: Map<Seq<char>, StoredView>,
) -> bool {
    &&& records::at(a, K::index_place()) == records::at(b, K::index_place())
    &&& forall|name: Seq<char>| #[trigger]
        records::at(a, K::place(name)) == records::at(b, K::place(name))
}

proof fn lemma_same_shelf<K: Shelved>(
    a: Map<Seq<char>, StoredView>,
    b: Map<Seq<char>, StoredView>,
    rows: Seq<K>,
)
    requires
        same_shelf::<K>(a, b),
        shelf_holds(a, rows),
    ensures
        shelf_holds(b, rows),
{
    assert forall|name: Seq<char>| #[trigger] found::<K>(b, name) == table::find(rows, name) by {
        assert(found::<K>(a, name) == table::find(rows, name));
        assert(records::at(a, K::place(name)) == records::at(b, K::place(name)));
    }
}

proof fn lemma_names_kept<K: Shelved>(rows: Seq<K>, name: Seq<char>)
    requires
        table::sorted(rows),
    ensures
        table::keys(rows).contains(name) == (table::find(rows, name) is Some),
{
    table::lemma_find(rows, name);
    let names = table::keys(rows);
    if names.contains(name) {
        let i = choose|i: int| 0 <= i < names.len() && names[i] == name;
        assert(rows[i].key() == name);
    }
    if table::kept(rows, name) {
        let i = table::rank(rows, name);
        table::lemma_rank(rows, name);
        assert(rows[i].key() == name);
        assert(names[i] == name);
    }
}

/// Keeping a record keeps the store in step with its table, and touches nothing but the
/// record's key and the index.
proof fn lemma_put_held<K: Shelved>(store: Map<Seq<char>, StoredView>, rows: Seq<K>, v: K)
    requires
        table::sorted(rows),
        shelf_holds(store, rows),
    ensures
        ({
            let after = records::followed(
                store,
                state::record_writes(
                    K::place(v.key()),
                    v.stored(),
                    table::kept(rows, v.key()),
                    K::index_place(),
                    table::keys(table::put(rows, v)),
                ),
            );
            &&& shelf_holds(after, table::put(rows, v))
            &&& same_but(store, after, K::place(v.key()), K::index_place())
        }),
{
    let known = table::kept(rows, v.key());
    let place = K::place(v.key());
    let index = K::index_place();
    let t = table::put(rows, v);
    let names = table::keys(t);
    let w1 = WriteView::Put { key: place, value: v.stored() };
    let w2 = WriteView::Put { key: index, value: StoredView::Names(names) };
    lemma_followed_one(store, w1);
    lemma_followed_two(store, w1, w2);
    let after = records::followed(
        store,
        state::record_writes(place, v.stored(), known, index, names),
    );
    table::lemma_put_sorted(rows, v);
    v.lemma_taken();
    K::lemma_places(v.key(), v.key());
    assert forall|name: Seq<char>| #[trigger] found::<K>(after, name) == table::find(t, name) by {
        assert(found::<K>(store, name) == table::find(rows, name));
        assert(found::<K>(store, v.key()) == table::find(rows, v.key()));
        table::lemma_find_put(rows, v, name);
        lemma_names_kept(t, name);
        K::lemma_places(name, v.key());
    }
}

/// Dropping a record keeps the store in step with its table, and touches nothing but the
/// record's key and the index.
proof fn lemma_drop_held<K: Shelved>(
    store: Map<Seq<char>, StoredView>,
    rows: Seq<K>,
    dropped: Seq<char>,
)
    requires
        table::sorted(rows),
        shelf_holds(store, rows),
    ensures
        ({
            let after = records::followed(
                store,
                state::drop_writes(
                    K::place(dropped),
                    K::index_place(),
                    table::keys(table::dropped(rows, dropped)),
                ),
            );
            &&& shelf_holds(after, table::dropped(rows, dropped))
            &&& same_but(store, after, K::place(dropped), K::index_place())
        }),
{
    let place = K::place(dropped);
    let index = K::index_place();
    let t = table::dropped(rows, dropped);
    let names = table::keys(t);
    let w1 = WriteView::Delete { key: place };
    let w2 = WriteView::Put { key: index, value: StoredView::Names(names) };
    lemma_followed_two(store, w1, w2);
    let after = records::followed(store, state::drop_writes(place, index, names));
    table::lemma_dropped_sorted(rows, dropped);
    K::lemma_places(dropped, dropped);
    assert forall|name: Seq<char>| #[trigger] found::<K>(after, name) == table::find(t, name) by {
        assert(found::<K>(store, name) == table::find(rows, name));
        table::lemma_find_dropped(rows, dropped, name);
        lemma_names_kept(t, name);
        K::lemma_places(name, dropped);
    }
}

/// The keys that do not depend on a name differ.
proof fn lemma_fixed_keys_differ()
    ensures
        MESH_KEY@ != LOCAL_NODE_KEY@,
        MESH_KEY@ != NODE_INDEX_KEY@,
        MESH_KEY@ != SERVICE_INDEX_KEY@,
        MESH_KEY@ != SECRET_INDEX_KEY@,
        MESH_KEY@ != EVENT_INDEX_KEY@,
        LOCAL_NODE_KEY@ != NODE_INDEX_KEY@,
        LOCAL_NODE_KEY@ != SERVICE_INDEX_KEY@,
        LOCAL_NODE_KEY@ != SECRET_INDEX_KEY@,
        LOCAL_NODE_KEY@ != EVENT_INDEX_KEY@,
        NODE_INDEX_KEY@ != SERVICE_INDEX_KEY@,
        NODE_INDEX_KEY@ != SECRET_INDEX_KEY@,
        NODE_INDEX_KEY@ != EVENT_INDEX_KEY@,
        SERVICE_INDEX_KEY@ != SECRET_INDEX_KEY@,
        SERVICE_INDEX_KEY@ != EVENT_INDEX_KEY@,
        SECRET_INDEX_KEY@ != EVENT_INDEX_KEY@,
        state_laws::is_fixed_key(MESH_KEY@),
        state_laws::is_fixed_key(LOCAL_NODE_KEY@),
        state_laws::is_fixed_key(NODE_INDEX_KEY@),
        state_laws::is_fixed_key(SERVICE_INDEX_KEY@),
        state_laws::is_fixed_key(SECRET_INDEX_KEY@),
        state_laws::is_fixed_key(EVENT_INDEX_KEY@),
{
    reveal_strlit("via:mesh");
    reveal_strlit("via:local_node_id");
    reveal_strlit("via:index:nodes");
    reveal_strlit("via:index:services");
    reveal_strlit("via:index:secrets");
    reveal_strlit("via:index:events");
    assert(MESH_KEY@[4] == 'm');
    assert(LOCAL_NODE_KEY@[4] == 'l');
    assert(NODE_INDEX_KEY@[4] == 'i' && NODE_INDEX_KEY@[10] == 'n');
    assert(SERVICE_INDEX_KEY@[4] == 'i' && SERVICE_INDEX_KEY@[10] == 's');
    assert(SECRET_INDEX_KEY@[4] == 'i' && SECRET_INDEX_KEY@[10] == 's');
    assert(SERVICE_INDEX_KEY@[12] == 'r' && SECRET_INDEX_KEY@[12] == 'c');
    assert(EVENT_INDEX_KEY@[4] == 'i' && EVENT_INDEX_KEY@[10] == 'e');
}

proof fn lemma_untouched<K: Shelved>(
    a: Map<Seq<char>, StoredView>,
    b: Map<Seq<char>, StoredView>,
    k1: Seq<char>,
    k2: Seq<char>,
    rows: Seq<K>,
)
    requires
        same_but(a, b, k1, k2),
        K::index_place() != k1,
        K::index_place() != k2,
        forall|name: Seq<char>| (#[trigger] K::place(name)) != k1 && K::place(name) != k2,
        shelf_holds(a, rows),
    ensures
        shelf_holds(b, rows),
{
    assert(records::at(a, K::index_place()) == records::at(b, K::index_place()));
    assert forall|name: Seq<char>| #[trigger]
        records::at(a, K::place(name)) == records::at(b, K::place(name)) by {}
    lemma_same_shelf(a, b, rows);
}

/// What is done under the key of a node and to the nodes' index leaves the rest of a store.
proof fn lemma_beside_nodes(
    a: Map<Seq<char>, StoredView>,
    b: Map<Seq<char>, StoredView>,
    name: Seq<char>,
    st: StateView,
)
    requires
        same_but(a, b, state::node_key_text(name), NODE_INDEX_KEY@),
        holds(a, st),
    ensures
        records::mesh_of(records::at(b, MESH_KEY@)) == st.mesh,
        records::text_of(records::at(b, LOCAL_NODE_KEY@)) == st.local_node_id,
        shelf_holds(b, st.services),
        shelf_holds(b, st.secrets),
        shelf_holds(b, st.events),
{
    let k1 = state::node_key_text(name);
    let k2 = NODE_INDEX_KEY@;
    lemma_fixed_keys_differ();
    state_laws::law_keys_are_apart(name, name);
    assert(records::at(a, MESH_KEY@) == records::at(b, MESH_KEY@));
    assert(records::at(a, LOCAL_NODE_KEY@) == records::at(b, LOCAL_NODE_KEY@));
    assert forall|other: Seq<char>| (#[trigger] <ServiceView as Shelved>::place(other)) != k1
        && <ServiceView as Shelved>::place(other) != k2 by {
        state_laws::law_keys_are_apart(other, name);
        state_laws::law_keys_are_apart(name, other);
    }
    lemma_untouched(a, b, k1, k2, st.services);
    assert forall|other: Seq<char>| (#[trigger] <SecretView as Shelved>::place(other)) != k1
        && <SecretView as Shelved>::place(other) != k2 by {
        state_laws::law_keys_are_apart(other, name);
        state_laws::law_keys_are_apart(name, other);
    }
    lemma_untouched(a, b, k1, k2, st.secrets);
    assert forall|other: Seq<char>| (#[trigger] <EventView as Shelved>::place(other)) != k1
        && <EventView as Shelved>::place(other) != k2 by {
        state_laws::law_keys_are_apart(other, name);
        state_laws::law_keys_are_apart(name, other);
    }
    lemma_untouched(a, b, k1, k2, st.events);
}

/// What is done under the key of a service and to the services' index leaves the rest of a store.
proof fn lemma_beside_services(
    a: Map<Seq<char>, StoredView>,
    b: Map<Seq<char>, StoredView>,
    name: Seq<char>,
    st: StateView,
)
    requires
        same_but(a, b, state::service_key_text(name), SERVICE_INDEX_KEY@),
        holds(a, st),
    ensures
        records::mesh_of(records::at(b, MESH_KEY@)) == st.mesh,
        records::text_of(records::at(b, LOCAL_NODE_KEY@)) == st.local_node_id,
        shelf_holds(b, st.nodes),
        shelf_holds(b, st.secrets),
        shelf_holds(b, st.events),
{
    let k1 = state::service_key_text(name);
    let k2 = SERVICE_INDEX_KEY@;
    lemma_fixed_keys_differ();
    state_laws::law_keys_are_apart(name, name);
    assert(records::at(a, MESH_KEY@) == records::at(b, MESH_KEY@));
    assert(records::at(a, LOCAL_NODE_KEY@) == records::at(b, LOCAL_NODE_KEY@));
    assert forall|other: Seq<char>| (#[trigger] <NodeView as Shelved>::place(other)) != k1
        && <NodeView as Shelved>::place(other) != k2 by {
        state_laws::law_keys_are_apart(other, name);
        state_laws::law_keys_are_apart(name, other);
    }
    lemma_untouched(a, b, k1, k2, st.nodes);
    assert forall|other: Seq<char>| (#[trigger] <SecretView as Shelved>::place(other)) != k1
        && <SecretView as Shelved>::place(other) != k2 by {
        state_laws::law_keys_are_apart(other, name);
        state_laws::law_keys_are_apart(name, other);
    }
    lemma_untouched(a, b, k1, k2, st.secrets);
    assert forall|other: Seq<char>| (#[trigger] <EventView as Shelved>::place(other)) != k1
        && <EventView as Shelved>::place(other) != k2 by {
        state_laws::law_keys_are_apart(other, name);
        state_laws::law_keys_are_apart(name, other);
    }
    lemma_untouched(a, b, k1, k2, st.events);
}

/// What is done under the key of a secret and to the secrets' index leaves the rest of a store.
proof fn lemma_beside_secrets(
    a: Map<Seq<char>, StoredView>,
    b: Map<Seq<char>, StoredView>,
    name: Seq<char>,
    st: StateView,
)
    requires
        same_but(a, b, state::secret_key_text(name), SECRET_INDEX_KEY@),
        holds(a, st),
    ensures
        records::mesh_of(records::at(b, MESH_KEY@)) == st.mesh,
        records::text_of(records::at(b, LOCAL_NODE_KEY@)) == st.local_node_id,
        shelf_holds(b, st.nodes),
        shelf_holds(b, st.services),
        shelf_holds(b, st.events),
{
    let k1 = state::secret_key_text(name);
    let k2 = SECRET_INDEX_KEY@;
    lemma_fixed_keys_differ();
    state_laws::law_keys_are_apart(name, name);
    assert(records::at(a, MESH_KEY@) == records::at(b, MESH_KEY@));
    assert(records::at(a, LOCAL_NODE_KEY@) == records::at(b, LOCAL_NODE_KEY@));
    assert forall|other: Seq<char>| (#[trigger] <NodeView as Shelved>::place(other)) != k1
        && <NodeView as Shelved>::place(other) != k2 by {
        state_laws::law_keys_are_apart(other, name);
        state_laws::law_keys_are_apart(name, other);
    }
    lemma_untouched(a, b, k1, k2, st.nodes);
    assert forall|other: Seq<char>| (#[trigger] <ServiceView as Shelved>::place(other)) != k1
        && <ServiceView as Shelved>::place(other) != k2 by {
        state_laws::law_keys_are_apart(other, name);
        state_laws::law_keys_are_apart(name, other);
    }
    lemma_untouched(a, b, k1, k2, st.services);
    assert forall|other: Seq<char>| (#[trigger] <EventView as Shelved>::place(other)) != k1
        && <EventView as Shelved>::place(other) != k2 by {
        state_laws::law_keys_are_apart(other, name);
        state_laws::law_keys_are_apart(name, other);
    }
    lemma_untouched(a, b, k1, k2, st.events);
}

/// What is done under the key of a event and to the events' index leaves the rest of a store.
proof fn lemma_beside_events(
    a: Map<Seq<char>, StoredView>,
    b: Map<Seq<char>, StoredView>,
    name: Seq<char>,
    st: StateView,
)
    requires
        same_but(a, b, state::event_key_text(name), EVENT_INDEX_KEY@),
        holds(a, st),
    ensures
        records::mesh_of(records::at(b, MESH_KEY@)) == st.mesh,
        records::text_of(records::at(b, LOCAL_NODE_KEY@)) == st.local_node_id,
        shelf_holds(b, st.nodes),
        shelf_holds(b, st.services),
        shelf_holds(b, st.secrets),
{
    let k1 = state::event_key_text(name);
    let k2 = EVENT_INDEX_KEY@;
    lemma_fixed_keys_differ();
    state_laws::law_keys_are_apart(name, name);
    assert(records::at(a, MESH_KEY@) == records::at(b, MESH_KEY@));
    assert(records::at(a, LOCAL_NODE_KEY@) == records::at(b, LOCAL_NODE_KEY@));
    assert forall|other: Seq<char>| (#[trigger] <NodeView as Shelved>::place(other)) != k1
        && <NodeView as Shelved>::place(other) != k2 by {
        state_laws::law_keys_are_apart(other, name);
        state_laws::law_keys_are_apart(name, other);
    }
    lemma_untouched(a, b, k1, k2, st.nodes);
    assert forall|other: Seq<char>| (#[trigger] <ServiceView as Shelved>::place(other)) != k1
        && <ServiceView as Shelved>::place(other) != k2 by {
        state_laws::law_keys_are_apart(other, name);
        state_laws::law_keys_are_apart(name, other);
    }
    lemma_untouched(a, b, k1, k2, st.services);
    assert forall|other: Seq<char>| (#[trigger] <SecretView as Shelved>::place(other)) != k1
        && <SecretView as Shelved>::place(other) != k2 by {
        state_laws::law_keys_are_apart(other, name);
        state_laws::law_keys_are_apart(name, other);
    }
    lemma_untouched(a, b, k1, k2, st.secrets);
}

/// What is done under the key of the mesh, or of the local node's identifier, leaves the
/// records.
proof fn lemma_fixed_key_put(
    a: Map<Seq<char>, StoredView>,
    b: Map<Seq<char>, StoredView>,
    key: Seq<char>,
    st: StateView,
)
    requires
        key == MESH_KEY@ || key == LOCAL_NODE_KEY@,
        same_but(a, b, key, key),
        holds(a, st),
    ensures
        shelf_holds(b, st.nodes),
        shelf_holds(b, st.services),
        shelf_holds(b, st.secrets),
        shelf_holds(b, st.events),
{
    lemma_fixed_keys_differ();
    assert forall|name: Seq<char>| (#[trigger] <NodeView as Shelved>::place(name)) != key by {
        state_laws::law_keys_are_apart(name, name);
    }
    lemma_untouched(a, b, key, key, st.nodes);
    assert forall|name: Seq<char>| (#[trigger] <ServiceView as Shelved>::place(name)) != key by {
        state_laws::law_keys_are_apart(name, name);
    }
    lemma_untouched(a, b, key, key, st.services);
    assert forall|name: Seq<char>| (#[trigger] <SecretView as Shelved>::place(name)) != key by {
        state_laws::law_keys_are_apart(name, name);
    }
    lemma_untouched(a, b, key, key, st.secrets);
    assert forall|name: Seq<char>| (#[trigger] <EventView as Shelved>::place(name)) != key by {
        state_laws::law_keys_are_apart(name, name);
    }
    lemma_untouched(a, b, key, key, st.events);
}

// ---------------------------------------------------------------------------
// Each operation keeps the store in step.

/// Keeping the mesh keeps the store in step.
pub proof fn law_mesh_is_kept(store: Map<Seq<char>, StoredView>, st: StateView, m: MeshView)
    requires
        state::well_formed(st),
        in_step(store, st),
    ensures
        state::well_formed(state::with_mesh(st, m)),
        in_step(store, state::with_mesh(st, m)),
{
    let a = records::followed(store, st.journal);
    let w = WriteView::Put { key: MESH_KEY@, value: StoredView::Mesh(m) };
    let b = records::changed(a, w);
    assert(st.journal.push(w).drop_last() == st.journal);
    lemma_fixed_key_put(a, b, MESH_KEY@, st);
    lemma_fixed_keys_differ();
    assert(records::at(a, LOCAL_NODE_KEY@) == records::at(b, LOCAL_NODE_KEY@));
}

/// Keeping the identifier of the local node keeps the store in step.
pub proof fn law_local_node_is_kept(
    store: Map<Seq<char>, StoredView>,
    st: StateView,
    id: Seq<char>,
)
    requires
        state::well_formed(st),
        in_step(store, st),
    ensures
        state::well_formed(state::with_local_node(st, id)),
        in_step(store, state::with_local_node(st, id)),
{
    let a = records::followed(store, st.journal);
    let w = WriteView::Put { key: LOCAL_NODE_KEY@, value: StoredView::Text(id) };
    let b = records::changed(a, w);
    assert(st.journal.push(w).drop_last() == st.journal);
    lemma_fixed_key_put(a, b, LOCAL_NODE_KEY@, st);
    lemma_fixed_keys_differ();
    assert(records::at(a, MESH_KEY@) == records::at(b, MESH_KEY@));
}

/// Keeping a node keeps the store in step.
pub proof fn law_node_is_kept(store: Map<Seq<char>, StoredView>, st: StateView, n: NodeView)
    requires
        state::well_formed(st),
        in_step(store, st),
    ensures
        state::well_formed(state::with_node(st, n)),
        in_step(store, state::with_node(st, n)),
{
    let a = records::followed(store, st.journal);
    let writes = state::record_writes(
        state::node_key_text(n.slug),
        StoredView::Node(n),
        table::kept(st.nodes, n.slug),
        NODE_INDEX_KEY@,
        table::keys(table::put(st.nodes, n)),
    );
    lemma_followed_more(store, st.journal, writes);
    lemma_put_held(a, st.nodes, n);
    lemma_beside_nodes(a, records::followed(a, writes), n.slug, st);
    table::lemma_put_sorted(st.nodes, n);
}

/// Dropping a node keeps the store in step.
pub proof fn law_dropped_node_is_gone(
    store: Map<Seq<char>, StoredView>,
    st: StateView,
    slug: Seq<char>,
)
    requires
        state::well_formed(st),
        in_step(store, st),
    ensures
        state::well_formed(state::without_node(st, slug)),
        in_step(store, state::without_node(st, slug)),
{
    let a = records::followed(store, st.journal);
    let writes = state::drop_writes(
        state::node_key_text(slug),
        NODE_INDEX_KEY@,
        table::keys(table::dropped(st.nodes, slug)),
    );
    lemma_followed_more(store, st.journal, writes);
    lemma_drop_held(a, st.nodes, slug);
    lemma_beside_nodes(a, records::followed(a, writes), slug, st);
    table::lemma_dropped_sorted(st.nodes, slug);
}

/// Keeping a service keeps the store in step.
pub proof fn law_service_is_kept(store: Map<Seq<char>, StoredView>, st: StateView, s: ServiceView)
    requires
        state::well_formed(st),
        in_step(store, st),
    ensures
        state::well_formed(state::with_service(st, s)),
        in_step(store, state::with_service(st, s)),
{
    let a = records::followed(store, st.journal);
    let writes = state::record_writes(
        state::service_key_text(s.name),
        StoredView::Service(s),
        table::kept(st.services, s.name),
        SERVICE_INDEX_KEY@,
        table::keys(table::put(st.services, s)),
    );
    lemma_followed_more(store, st.journal, writes);
    lemma_put_held(a, st.services, s);
    lemma_beside_services(a, records::followed(a, writes), s.name, st);
    table::lemma_put_sorted(st.services, s);
}

/// Dropping a service keeps the store in step.
pub proof fn law_dropped_service_is_gone(
    store: Map<Seq<char>, StoredView>,
    st: StateView,
    name: Seq<char>,
)
    requires
        state::well_formed(st),
        in_step(store, st),
    ensures
        state::well_formed(state::without_service(st, name)),
        in_step(store, state::without_service(st, name)),
{
    let a = records::followed(store, st.journal);
    let writes = state::drop_writes(
        state::service_key_text(name),
        SERVICE_INDEX_KEY@,
        table::keys(table::dropped(st.services, name)),
    );
    lemma_followed_more(store, st.journal, writes);
    lemma_drop_held(a, st.services, name);
    lemma_beside_services(a, records::followed(a, writes), name, st);
    table::lemma_dropped_sorted(st.services, name);
}

/// Keeping a secret keeps the store in step.
pub proof fn law_secret_is_kept(store: Map<Seq<char>, StoredView>, st: StateView, s: SecretView)
    requires
        state::well_formed(st),
        in_step(store, st),
    ensures
        state::well_formed(state::with_secret(st, s)),
        in_step(store, state::with_secret(st, s)),
{
    let a = records::followed(store, st.journal);
    let writes = state::record_writes(
        state::secret_key_text(s.name),
        StoredView::Secret(s),
        table::kept(st.secrets, s.name),
        SECRET_INDEX_KEY@,
        table::keys(table::put(st.secrets, s)),
    );
    lemma_followed_more(store, st.journal, writes);
    lemma_put_held(a, st.secrets, s);
    lemma_beside_secrets(a, records::followed(a, writes), s.name, st);
    table::lemma_put_sorted(st.secrets, s);
}

/// Dropping a secret keeps the store in step.
pub proof fn law_dropped_secret_is_gone(
    store: Map<Seq<char>, StoredView>,
    st: StateView,
    name: Seq<char>,
)
    requires
        state::well_formed(st),
        in_step(store, st),
    ensures
        state::well_formed(state::without_secret(st, name)),
        in_step(store, state::without_secret(st, name)),
{
    let a = records::followed(store, st.journal);
    let writes = state::drop_writes(
        state::secret_key_text(name),
        SECRET_INDEX_KEY@,
        table::keys(table::dropped(st.secrets, name)),
    );
    lemma_followed_more(store, st.journal, writes);
    lemma_drop_held(a, st.secrets, name);
    lemma_beside_secrets(a, records::followed(a, writes), name, st);
    table::lemma_dropped_sorted(st.secrets, name);
}

/// Keeping an event keeps the store in step.
pub proof fn law_event_is_kept(store: Map<Seq<char>, StoredView>, st: StateView, e: EventView)
    requires
        state::well_formed(st),
        in_step(store, st),
    ensures
        state::well_formed(state::with_event(st, e)),
        in_step(store, state::with_event(st, e)),
{
    let a = records::followed(store, st.journal);
    let s = event::sanitized(e);
    let writes = state::record_writes(
        state::event_key_text(s.id),
        StoredView::Event(s),
        table::kept(st.events, s.id),
        EVENT_INDEX_KEY@,
        table::keys(table::put(st.events, s)),
    );
    let all = writes.push(WriteView::InsertEventRow(s));
    lemma_followed_more(store, st.journal, all);
    assert(all.drop_last() == writes);
    lemma_put_held(a, st.events, s);
    lemma_beside_events(a, records::followed(a, writes), s.id, st);
    table::lemma_put_sorted(st.events, s);
    event::lemma_sanitized_idempotent(e);
    state::lemma_put_sanitized(st.events, s);
}

/// Writing everything to disk keeps the store in step.
pub proof fn law_saving_keeps(store: Map<Seq<char>, StoredView>, st: StateView)
    requires
        in_step(store, st),
    ensures
        in_step(store, state::persisted(st)),
{
    assert(state::persisted(st).journal.drop_last() == st.journal);
}

/// Once the changes were handed out and made, the store holds what the node knows, and no
/// change is still to be made.
pub proof fn law_handing_out_keeps(store: Map<Seq<char>, StoredView>, st: StateView)
    requires
        in_step(store, st),
    ensures
        in_step(
            records::followed(store, st.journal),
            StateView { journal: Seq::empty(), ..st },
        ),
        holds(records::followed(store, st.journal), StateView { journal: Seq::empty(), ..st }),
{
}

/// Shutting the store down keeps it in step.
pub proof fn law_shutting_down_keeps(store: Map<Seq<char>, StoredView>, st: StateView)
    requires
        in_step(store, st),
    ensures
        in_step(
            store,
            StateView {
                running: false,
                ..state::with_write(state::persisted(st), WriteView::Close)
            },
        ),
{
    let saved = state::persisted(st);
    law_saving_keeps(store, st);
    assert(state::with_write(saved, WriteView::Close).journal.drop_last() == saved.journal);
}

proof fn lemma_nodes_kept(store: Map<Seq<char>, StoredView>, st: StateView, nodes: Seq<NodeView>)
    requires
        state::well_formed(st),
        in_step(store, st),
    ensures
        state::well_formed(state::with_nodes(st, nodes)),
        in_step(store, state::with_nodes(st, nodes)),
    decreases nodes.len(),
{
    if nodes.len() > 0 {
        lemma_nodes_kept(store, st, nodes.drop_last());
        let before = state::with_nodes(st, nodes.drop_last());
        law_node_is_kept(store, before, state::adopted(before, nodes.last()));
    }
}

proof fn lemma_services_kept(
    store: Map<Seq<char>, StoredView>,
    st: StateView,
    services: Seq<ServiceView>,
)
    requires
        state::well_formed(st),
        in_step(store, st),
    ensures
        state::well_formed(state::with_services(st, services)),
        in_step(store, state::with_services(st, services)),
    decreases services.len(),
{
    if services.len() > 0 {
        lemma_services_kept(store, st, services.drop_last());
        law_service_is_kept(
            store,
            state::with_services(st, services.drop_last()),
            services.last(),
        );
    }
}

proof fn lemma_pruned_kept(
    store: Map<Seq<char>, StoredView>,
    st: StateView,
    known: Seq<SecretView>,
    incoming: Seq<SecretView>,
)
    requires
        state::well_formed(st),
        in_step(store, st),
    ensures
        state::well_formed(state::pruned(st, known, incoming)),
        in_step(store, state::pruned(st, known, incoming)),
    decreases known.len(),
{
    if known.len() > 0 {
        lemma_pruned_kept(store, st, known.drop_last(), incoming);
        law_dropped_secret_is_gone(
            store,
            state::pruned(st, known.drop_last(), incoming),
            known.last().name,
        );
    }
}

proof fn lemma_secrets_kept(
    store: Map<Seq<char>, StoredView>,
    st: StateView,
    secrets: Seq<SecretView>,
)
    requires
        state::well_formed(st),
        in_step(store, st),
    ensures
        state::well_formed(state::with_secrets(st, secrets)),
        in_step(store, state::with_secrets(st, secrets)),
    decreases secrets.len(),
{
    if secrets.len() > 0 {
        lemma_secrets_kept(store, st, secrets.drop_last());
        law_secret_is_kept(store, state::with_secrets(st, secrets.drop_last()), secrets.last());
    }
}

proof fn lemma_events_kept(
    store: Map<Seq<char>, StoredView>,
    st: StateView,
    events: Seq<EventView>,
)
    requires
        state::well_formed(st),
        in_step(store, st),
    ensures
        state::well_formed(state::with_events(st, events)),
        in_step(store, state::with_events(st, events)),
    decreases events.len(),
{
    if events.len() > 0 {
        lemma_events_kept(store, st, events.drop_last());
        law_event_is_kept(store, state::with_events(st, events.drop_last()), events.last());
    }
}

/// Taking over a snapshot keeps the store in step.
pub proof fn law_import_is_kept(
    store: Map<Seq<char>, StoredView>,
    st: StateView,
    snapshot: SnapshotView,
)
    requires
        state::well_formed(st),
        in_step(store, st),
    ensures
        state::well_formed(state::imported(st, snapshot)),
        in_step(store, state::imported(st, snapshot)),
{
    let a = match snapshot.mesh {
        Some(m) => state::with_mesh(st, m),
        None => st,
    };
    if snapshot.mesh is Some {
        law_mesh_is_kept(store, st, snapshot.mesh->Some_0);
    }
    lemma_nodes_kept(store, a, snapshot.nodes);
    let n = state::with_nodes(a, snapshot.nodes);
    lemma_services_kept(store, n, snapshot.services);
    let b = state::with_services(n, snapshot.services);
    lemma_pruned_kept(store, b, b.secrets, snapshot.secrets);
    let p = state::pruned(b, b.secrets, snapshot.secrets);
    lemma_secrets_kept(store, p, snapshot.secrets);
    lemma_events_kept(store, state::with_secrets(p, snapshot.secrets), snapshot.events);
}

// ---------------------------------------------------------------------------
// Reading what was written.

/// The records that are read are those that the store gives for the names of the index.
proof fn lemma_gathered<K: Shelved>(store: Map<Seq<char>, StoredView>, names: Seq<Seq<char>>)
    requires
        forall|i: int|
            #![trigger names[i]]
            0 <= i < names.len() ==> (records::taken_from::<K>(
                records::at(store, K::place(names[i])),
            ) matches Some(r) ==> r.key() == names[i]),
    ensures
        ({
            let read = records::gathered::<K>(records::asked::<K>(store, names));
            &&& forall|i: int|
                #![trigger read[i]]
                0 <= i < read.len() ==> names.contains(read[i].key()) && records::taken_from::<K>(
                    records::at(store, K::place(read[i].key())),
                ) == Some(read[i])
            &&& forall|i: int|
                #![trigger names[i]]
                0 <= i < names.len() ==> (records::taken_from::<K>(
                    records::at(store, K::place(names[i])),
                ) matches Some(r) ==> read.contains(r))
        }),
    decreases names.len(),
{
    let asked = records::asked::<K>(store, names);
    let read = records::gathered::<K>(asked);
    if names.len() > 0 {
        let p = names.drop_last();
        assert forall|i: int| #![trigger p[i]] 0 <= i < p.len() implies (records::taken_from::<K>(
            records::at(store, K::place(p[i])),
        ) matches Some(r) ==> r.key() == p[i]) by {
            assert(p[i] == names[i]);
        }
        lemma_gathered::<K>(store, p);
        assert(asked.drop_last() == records::asked::<K>(store, p));
        let before = records::gathered::<K>(asked.drop_last());
        let last = names[names.len() - 1];
        assert(asked.last() == records::at(store, K::place(last)));
        let own = records::taken_from::<K>(asked.last());
        assert forall|i: int| #![trigger read[i]] 0 <= i < read.len() implies names.contains(
            read[i].key(),
        ) && records::taken_from::<K>(records::at(store, K::place(read[i].key()))) == Some(
            read[i],
        ) by {
            if i < before.len() {
                assert(read[i] == before[i]);
                let j = choose|j: int| 0 <= j < p.len() && p[j] == before[i].key();
                assert(names[j] == before[i].key());
            } else {
                assert(read[i] == own->Some_0);
                assert(names[names.len() - 1] == read[i].key());
            }
        }
        assert forall|i: int| #![trigger names[i]] 0 <= i < names.len() implies (
        records::taken_from::<K>(records::at(store, K::place(names[i]))) matches Some(r)
            ==> read.contains(r)) by {
            if records::taken_from::<K>(records::at(store, K::place(names[i]))) is Some {
                let r = records::taken_from::<K>(records::at(store, K::place(names[i])))->Some_0;
                if i < p.len() {
                    assert(p[i] == names[i]);
                    let j = choose|j: int| 0 <= j < before.len() && before[j] == r;
                    assert(read[j] == r);
                } else {
                    assert(read[read.len() - 1] == r);
                }
            }
        }
    }
}

/// A store holds the table that is made of the records that are read from it.
proof fn lemma_shelf_read<K: Shelved>(store: Map<Seq<char>, StoredView>)
    requires
        shelf_tidy::<K>(store),
    ensures
        table::sorted(table::put_all(Seq::empty(), records::shelf::<K>(store))),
        shelf_holds(store, table::put_all(Seq::empty(), records::shelf::<K>(store))),
{
    let none = Seq::<K>::empty();
    let names = records::names_of(records::at(store, K::index_place()));
    let read = records::shelf::<K>(store);
    let t = table::put_all(none, read);
    table::lemma_put_all_sorted(none, read);
    assert forall|i: int| #![trigger names[i]] 0 <= i < names.len() implies (
    records::taken_from::<K>(records::at(store, K::place(names[i]))) matches Some(r) ==> r.key()
        == names[i]) by {
        assert(names.contains(names[i]));
        assert(found::<K>(store, names[i]) == records::taken_from::<K>(
            records::at(store, K::place(names[i])),
        ));
    }
    lemma_gathered::<K>(store, names);
    assert forall|name: Seq<char>| #[trigger] found::<K>(store, name) == table::find(t, name) by {
        table::lemma_find_put_all(none, read, name);
        match found::<K>(store, name) {
            Some(r) => {
                let j = choose|j: int| 0 <= j < names.len() && names[j] == name;
                assert(records::taken_from::<K>(records::at(store, K::place(names[j]))) == Some(r));
                assert(read.contains(r));
                let m = choose|m: int| 0 <= m < read.len() && read[m] == r;
                assert(read[m].key() == name);
                let i = table::lemma_last_with_key(read, name);
                assert(read[i] == r);
            },
            None => {
                assert forall|i: int| 0 <= i < read.len() implies (#[trigger] read[i]).key()
                    != name by {
                    if read[i].key() == name {
                        assert(names.contains(name));
                    }
                }
                assert(table::find(none, name) is None);
            },
        }
    }
}

proof fn lemma_held_is_tidy<K: Shelved>(store: Map<Seq<char>, StoredView>, rows: Seq<K>)
    requires
        table::sorted(rows),
        shelf_holds(store, rows),
    ensures
        shelf_tidy::<K>(store),
        table::put_all(Seq::empty(), records::shelf::<K>(store)) == rows,
{
    assert forall|name: Seq<char>|
        ((#[trigger] found::<K>(store, name)) matches Some(r) ==> r.key() == name) by {
        assert(found::<K>(store, name) == table::find(rows, name));
    }
    lemma_shelf_read::<K>(store);
    let t = table::put_all(Seq::<K>::empty(), records::shelf::<K>(store));
    assert forall|name: Seq<char>| #[trigger] table::find(t, name) == table::find(rows, name) by {
        assert(found::<K>(store, name) == table::find(t, name));
        assert(found::<K>(store, name) == table::find(rows, name));
    }
    table::lemma_same_table(t, rows);
}

/// In a store that holds what a node knows, each record bears the name under which it is
/// found.
pub proof fn law_kept_stores_are_tidy(store: Map<Seq<char>, StoredView>, st: StateView)
    requires
        state::well_formed(st),
        holds(store, st),
    ensures
        tidy(store),
{
    lemma_held_is_tidy(store, st.nodes);
    lemma_held_is_tidy(store, st.services);
    lemma_held_is_tidy(store, st.secrets);
    lemma_held_is_tidy(store, st.events);
}

/// What is read from a store that holds what a node knows is what the node knows.
pub proof fn law_store_is_read_back(
    store: Map<Seq<char>, StoredView>,
    st: StateView,
    paths: PathsView,
)
    requires
        state::well_formed(st),
        holds(store, st),
    ensures
        ({
            let again = state::opened(paths, records::records_in(store));
            &&& again.mesh == st.mesh
            &&& again.local_node_id == st.local_node_id
            &&& again.nodes == st.nodes
            &&& again.services == st.services
            &&& again.secrets == st.secrets
            &&& again.events == st.events
        }),
{
    lemma_held_is_tidy(store, st.nodes);
    lemma_held_is_tidy(store, st.services);
    lemma_held_is_tidy(store, st.secrets);
    lemma_held_is_tidy(store, st.events);
    assert(event::all_sanitized(st.events) =~= st.events);
}

// ---------------------------------------------------------------------------
// Opening a store.

proof fn lemma_find_sanitized(rows: Seq<EventView>, id: Seq<char>)
    requires
        table::sorted(rows),
    ensures
        table::sorted(event::all_sanitized(rows)),
        table::find(event::all_sanitized(rows), id) == (match table::find(rows, id) {
            Some(e) => Some(event::sanitized(e)),
            None => None,
        }),
{
    let t = event::all_sanitized(rows);
    state::lemma_all_sanitized_sorted(rows);
    table::lemma_find(rows, id);
    table::lemma_find(t, id);
    if table::kept(rows, id) {
        let i = table::rank(rows, id);
        table::lemma_rank(rows, id);
        assert(rows[i].key() == id);
        assert(t[i].key() == id);
    }
    if table::kept(t, id) {
        let i = table::rank(t, id);
        table::lemma_rank(t, id);
        assert(t[i].key() == id);
        assert(rows[i].key() == id);
    }
}

/// Mending events leaves of each what may be kept of it, and nothing else changes.
proof fn lemma_repairs(store: Map<Seq<char>, StoredView>, events: Seq<EventView>)
    requires
        forall|i: int|
            #![trigger events[i]]
            0 <= i < events.len() ==> records::at(store, state::event_key_text(events[i].id))
                == Some(StoredView::Event(events[i])),
    ensures
        ({
            let after = records::followed(store, state::repairs(events));
            &&& forall|i: int|
                #![trigger events[i]]
                0 <= i < events.len() ==> records::at(after, state::event_key_text(events[i].id))
                    == Some(StoredView::Event(event::sanitized(events[i])))
            &&& forall|k: Seq<char>|
                #![trigger records::at(after, k)]
                (forall|i: int|
                    0 <= i < events.len() ==> state::event_key_text((#[trigger] events[i]).id) != k)
                    ==> records::at(after, k) == records::at(store, k)
        }),
    decreases events.len(),
{
    let after = records::followed(store, state::repairs(events));
    if events.len() > 0 {
        let p = events.drop_last();
        assert forall|i: int| #![trigger p[i]] 0 <= i < p.len() implies records::at(
            store,
            state::event_key_text(p[i].id),
        ) == Some(StoredView::Event(p[i])) by {
            assert(p[i] == events[i]);
        }
        lemma_repairs(store, p);
        let before = records::followed(store, state::repairs(p));
        let n = events.len() - 1;
        let e = events[n];
        let s = event::sanitized(e);
        let key = state::event_key_text(e.id);
        if forall|i: int| 0 <= i < p.len() ==> state::event_key_text((#[trigger] p[i]).id) != key {
            assert(records::at(before, key) == records::at(store, key));
        } else {
            let i = choose|i: int|
                0 <= i < p.len() && state::event_key_text((#[trigger] p[i]).id) == key;
            assert(p[i] == events[i]);
            assert(p[i] == e);
        }
        let w = WriteView::Put { key, value: StoredView::Event(s) };
        let rest = seq![WriteView::DeleteEventRow(e.id), WriteView::InsertEventRow(s)];
        if s.payload != e.payload {
            lemma_followed_more(store, state::repairs(p), seq![w] + rest);
            assert(seq![w] + rest == seq![
                w,
                WriteView::DeleteEventRow(e.id),
                WriteView::InsertEventRow(s),
            ]);
            lemma_followed_more(before, seq![w], rest);
            lemma_followed_one(before, w);
            lemma_followed_two(
                records::changed(before, w),
                WriteView::DeleteEventRow(e.id),
                WriteView::InsertEventRow(s),
            );
            assert(after == before.insert(key, StoredView::Event(s)));
        } else {
            assert(s == e);
            assert(after == before);
        }
        assert(records::at(after, key) == Some(StoredView::Event(s)));
        assert forall|i: int| #![trigger events[i]] 0 <= i < events.len() implies records::at(
            after,
            state::event_key_text(events[i].id),
        ) == Some(StoredView::Event(event::sanitized(events[i]))) by {
            if i < n {
                assert(p[i] == events[i]);
                if state::event_key_text(p[i].id) == key {
                    assert(records::at(store, key) == Some(StoredView::Event(p[i])));
                }
            }
        }
        assert forall|k: Seq<char>|
            #![trigger records::at(after, k)]
            (forall|i: int|
                0 <= i < events.len() ==> state::event_key_text((#[trigger] events[i]).id) != k)
                implies records::at(after, k) == records::at(store, k) by {
            assert(state::event_key_text(events[n].id) != k);
            assert forall|i: int| 0 <= i < p.len() implies state::event_key_text(
                (#[trigger] p[i]).id,
            ) != k by {
                assert(p[i] == events[i]);
            }
            assert(records::at(before, k) == records::at(store, k));
        }
    }
}

proof fn lemma_opened_events(store: Map<Seq<char>, StoredView>, rows: Seq<EventView>)
    requires
        table::sorted(rows),
        shelf_holds(store, rows),
    ensures
        ({
            let after = records::followed(store, state::repairs(event::newest_first(rows)));
            &&& shelf_holds(after, event::all_sanitized(rows))
            &&& forall|k: Seq<char>|
                #![trigger records::at(after, k)]
                (forall|id: Seq<char>| (#[trigger] state::event_key_text(id)) != k)
                    ==> records::at(after, k) == records::at(store, k)
        }),
{
    let shown = event::newest_first(rows);
    let after = records::followed(store, state::repairs(shown));
    let t = event::all_sanitized(rows);
    assert forall|i: int| #![trigger shown[i]] 0 <= i < shown.len() implies records::at(
        store,
        state::event_key_text(shown[i].id),
    ) == Some(StoredView::Event(shown[i])) by {
        event::lemma_newest_first_member(rows, shown[i]);
        assert(shown.contains(shown[i]));
        let j = choose|j: int| 0 <= j < rows.len() && rows[j] == shown[i];
        table::lemma_find(rows, rows[j].key());
        assert(found::<EventView>(store, shown[i].id) == table::find(rows, shown[i].id));
    }
    lemma_repairs(store, shown);
    state_laws::law_keys_are_apart(Seq::empty(), Seq::empty());
    lemma_fixed_keys_differ();
    assert forall|i: int| 0 <= i < shown.len() implies state::event_key_text(
        (#[trigger] shown[i]).id,
    ) != EVENT_INDEX_KEY@ by {
        state_laws::law_keys_are_apart(shown[i].id, shown[i].id);
    }
    assert(records::at(after, EVENT_INDEX_KEY@) == records::at(store, EVENT_INDEX_KEY@));
    assert forall|name: Seq<char>| #[trigger] found::<EventView>(after, name) == table::find(
        t,
        name,
    ) by {
        lemma_find_sanitized(rows, name);
        assert(found::<EventView>(store, name) == table::find(rows, name));
        let key = state::event_key_text(name);
        match table::find(rows, name) {
            Some(e) => {
                table::lemma_find(rows, name);
                table::lemma_rank(rows, name);
                assert(rows.contains(e));
                event::lemma_newest_first_member(rows, e);
                let i = choose|i: int| 0 <= i < shown.len() && shown[i] == e;
                assert(records::at(after, state::event_key_text(shown[i].id)) == Some(
                    StoredView::Event(event::sanitized(e)),
                ));
            },
            None => {
                assert forall|i: int| 0 <= i < shown.len() implies state::event_key_text(
                    (#[trigger] shown[i]).id,
                ) != key by {
                    if state::event_key_text(shown[i].id) == key {
                        state_laws::law_keys_tell_names(shown[i].id, name);
                        event::lemma_newest_first_member(rows, shown[i]);
                        assert(shown.contains(shown[i]));
                        let j = choose|j: int| 0 <= j < rows.len() && rows[j] == shown[i];
                        assert(rows[j].key() == name);
                        table::lemma_find(rows, name);
                    }
                }
                assert(records::at(after, key) == records::at(store, key));
            },
        }
    }
    assert forall|k: Seq<char>|
        #![trigger records::at(after, k)]
        (forall|id: Seq<char>| (#[trigger] state::event_key_text(id)) != k) implies records::at(
        after,
        k,
    ) == records::at(store, k) by {
        assert forall|i: int| 0 <= i < shown.len() implies state::event_key_text(
            (#[trigger] shown[i]).id,
        ) != k by {}
    }
}

/// The state that a store opens to is in step with the store, if each record there bears
/// the name under which it is found. Once the events that hold too much were mended, the
/// store holds what the node knows.
pub proof fn law_opened_store_is_in_step(store: Map<Seq<char>, StoredView>, paths: PathsView)
    requires
        tidy(store),
    ensures
        state::well_formed(state::opened(paths, records::records_in(store))),
        in_step(store, state::opened(paths, records::records_in(store))),
{
    let r = records::records_in(store);
    let st = state::opened(paths, r);
    lemma_shelf_read::<NodeView>(store);
    lemma_shelf_read::<ServiceView>(store);
    lemma_shelf_read::<SecretView>(store);
    lemma_shelf_read::<EventView>(store);
    let rows = table::put_all(Seq::<EventView>::empty(), r.events);
    let repairs = state::repairs(event::newest_first(rows));
    let after = records::followed(store, repairs);
    lemma_followed_more(store, seq![WriteView::CreateEventTable], repairs);
    lemma_followed_one(store, WriteView::CreateEventTable);
    lemma_opened_events(store, rows);
    state::lemma_all_sanitized_sorted(rows);
    lemma_fixed_keys_differ();
    assert forall|id: Seq<char>| (#[trigger] state::event_key_text(id)) != MESH_KEY@
        && state::event_key_text(id) != LOCAL_NODE_KEY@ && state::event_key_text(id)
        != NODE_INDEX_KEY@ && state::event_key_text(id) != SERVICE_INDEX_KEY@
        && state::event_key_text(id) != SECRET_INDEX_KEY@ by {
        state_laws::law_keys_are_apart(id, id);
    }
    assert(records::at(after, MESH_KEY@) == records::at(store, MESH_KEY@));
    assert(records::at(after, LOCAL_NODE_KEY@) == records::at(store, LOCAL_NODE_KEY@));
    assert(records::at(after, NODE_INDEX_KEY@) == records::at(store, NODE_INDEX_KEY@));
    assert(records::at(after, SERVICE_INDEX_KEY@) == records::at(store, SERVICE_INDEX_KEY@));
    assert(records::at(after, SECRET_INDEX_KEY@) == records::at(store, SECRET_INDEX_KEY@));
    assert forall|name: Seq<char>| #[trigger]
        records::at(store, <NodeView as Shelved>::place(name)) == records::at(
            after,
            <NodeView as Shelved>::place(name),
        ) by {
        lemma_no_event_key(name);
    }
    assert forall|name: Seq<char>| #[trigger]
        records::at(store, <ServiceView as Shelved>::place(name)) == records::at(
            after,
            <ServiceView as Shelved>::place(name),
        ) by {
        lemma_no_event_key(name);
    }
    assert forall|name: Seq<char>| #[trigger]
        records::at(store, <SecretView as Shelved>::place(name)) == records::at(
            after,
            <SecretView as Shelved>::place(name),
        ) by {
        lemma_no_event_key(name);
    }
    lemma_same_shelf(store, after, st.nodes);
    lemma_same_shelf(store, after, st.services);
    lemma_same_shelf(store, after, st.secrets);
}

proof fn lemma_no_event_key(name: Seq<char>)
    ensures
        forall|id: Seq<char>| (#[trigger] state::event_key_text(id)) != state::node_key_text(name),
        forall|id: Seq<char>|
            (#[trigger] state::event_key_text(id)) != state::service_key_text(name),
        forall|id: Seq<char>|
            (#[trigger] state::event_key_text(id)) != state::secret_key_text(name),
{
    assert forall|id: Seq<char>| (#[trigger] state::event_key_text(id)) != state::node_key_text(
        name,
    ) && state::event_key_text(id) != state::service_key_text(name) && state::event_key_text(id)
        != state::secret_key_text(name) by {
        state_laws::law_keys_are_apart(name, id);
    }
}

/// A store in which nothing is kept holds the state that it opens to.
pub proof fn law_new_store_is_in_step(paths: PathsView)
    ensures
        ({
            let store = Map::<Seq<char>, StoredView>::empty();
            let st = state::opened(paths, records::records_in(store));
            &&& state::well_formed(st)
            &&& holds(store, st)
            &&& in_step(store, st)
        }),
{
    let store = Map::<Seq<char>, StoredView>::empty();
    let st = state::opened(paths, records::records_in(store));
    assert(tidy(store)) by {
        assert forall|name: Seq<char>| (#[trigger] found::<NodeView>(store, name)) is None by {}
        assert forall|name: Seq<char>| (#[trigger] found::<ServiceView>(store, name)) is None by {}
        assert forall|name: Seq<char>| (#[trigger] found::<SecretView>(store, name)) is None by {}
        assert forall|name: Seq<char>| (#[trigger] found::<EventView>(store, name)) is None by {}
    }
    law_opened_store_is_in_step(store, paths);
    let none = Seq::<EventView>::empty();
    assert(records::asked::<EventView>(store, Seq::empty()) =~= Seq::empty());
    assert(records::shelf::<EventView>(store) =~= none);
    assert(table::put_all(none, none) =~= none);
    assert(event::newest_first(none) =~= none);
    assert(st.journal =~= seq![WriteView::CreateEventTable]);
    lemma_followed_one(store, WriteView::CreateEventTable);
}

/// What a run of the program knows at its end the next run knows at its start, once the
/// changes of the store were made; and the next run is in step with the store again.
pub proof fn law_next_run_knows_the_same(
    store: Map<Seq<char>, StoredView>,
    st: StateView,
    paths: PathsView,
)
    requires
        state::well_formed(st),
        in_step(store, st),
    ensures
        ({
            let left = records::followed(store, st.journal);
            let next = state::opened(paths, records::records_in(left));
            &&& next.mesh == st.mesh
            &&& next.local_node_id == st.local_node_id
            &&& next.nodes == st.nodes
            &&& next.services == st.services
            &&& next.secrets == st.secrets
            &&& next.events == st.events
            &&& state::well_formed(next)
            &&& in_step(left, next)
        }),
{
    let left = records::followed(store, st.journal);
    law_store_is_read_back(left, st, paths);
    law_kept_stores_are_tidy(left, st);
    law_opened_store_is_in_step(left, paths);
}

/// A secret that was set in one run is found in the next, and one that was deleted is
/// not.
pub proof fn law_secrets_outlive_the_run(
    store: Map<Seq<char>, StoredView>,
    st: StateView,
    s: SecretView,
    paths: PathsView,
)
    requires
        state::well_formed(st),
        in_step(store, st),
    ensures
        ({
            let set = records::followed(store, state::with_secret(st, s).journal);
            let dropped = records::followed(store, state::without_secret(st, s.name).journal);
            &&& table::find(
                state::opened(paths, records::records_in(set)).secrets,
                s.name,
            ) == Some(s)
            &&& table::find(
                state::opened(paths, records::records_in(dropped)).secrets,
                s.name,
            ) is None
        }),
{
    law_secret_is_kept(store, st, s);
    law_dropped_secret_is_gone(store, st, s.name);
    law_next_run_knows_the_same(store, state::with_secret(st, s), paths);
    law_next_run_knows_the_same(store, state::without_secret(st, s.name), paths);
    state_laws::law_secret_is_read_back(st, s, s.name);
}

// ---------------------------------------------------------------------------
// The walk through a store.

/// The records of a kind are all read, if what comes next was read each time.
proof fn lemma_section_read<K: Shelved>(
    store: Map<Seq<char>, StoredView>,
    read: Seq<Option<StoredView>>,
    p: int,
    q: int,
)
    requires
        0 <= p < read.len(),
        records::stand::<K>(read, p) == records::Stand::Past(q),
        read[p] == records::at(store, K::index_place()),
        forall|i: int|
            p < i < q ==> #[trigger] read[i] == records::at(
                store,
                K::place(records::names_of(read[p])[i - p - 1]),
            ),
    ensures
        records::section::<K>(read, p, q) == records::shelf::<K>(store),
{
    let names = records::names_of(read[p]);
    assert(q == p + 1 + names.len());
    assert(read.subrange(p + 1, q) =~= records::asked::<K>(store, names));
}

/// What a shorter walk wants of a kind whose records a longer one has read.
proof fn lemma_stand_before<K: Shelved>(
    read: Seq<Option<StoredView>>,
    p: int,
    q: int,
    i: int,
)
    requires
        0 <= p < read.len(),
        records::stand::<K>(read, p) == records::Stand::Past(q),
        p <= i <= read.len(),
    ensures
        p < q <= read.len(),
        i == p ==> records::stand::<K>(read.take(i), p) == records::Stand::Wanted(
            K::index_place(),
            records::StoredKind::Names,
        ),
        p < i < q ==> records::stand::<K>(read.take(i), p) == records::Stand::Wanted(
            K::place(records::names_of(read[p])[i - p - 1]),
            K::kind(),
        ),
        q <= i ==> records::stand::<K>(read.take(i), p) == records::Stand::Past(q),
{
    if p < i {
        assert(read.take(i)[p] == read[p]);
    }
}

/// A walk that reads each time what comes next ends with what the store holds.
pub proof fn law_walk_reads_the_store(
    store: Map<Seq<char>, StoredView>,
    read: Seq<Option<StoredView>>,
)
    requires
        forall|i: int|
            0 <= i < read.len() ==> (records::next_read_of(#[trigger] read.take(i)) is Read
                && read[i] == records::at(
                store,
                records::next_read_of(read.take(i))->Read_key,
            )),
        records::next_read_of(read) is Finished,
    ensures
        records::next_read_of(read) == ReadView::Finished(records::records_in(store)),
{
    let a = records::stand::<NodeView>(read, 2)->Past_0;
    let b = records::stand::<ServiceView>(read, a)->Past_0;
    let c = records::stand::<SecretView>(read, b)->Past_0;
    let d = records::stand::<EventView>(read, c)->Past_0;
    lemma_stand_before::<NodeView>(read, 2, a, read.len() as int);
    lemma_stand_before::<ServiceView>(read, a, b, read.len() as int);
    lemma_stand_before::<SecretView>(read, b, c, read.len() as int);
    lemma_stand_before::<EventView>(read, c, d, read.len() as int);
    assert(read.take(0).len() == 0 && read.take(1).len() == 1);
    assert(read[0] == records::at(store, MESH_KEY@));
    assert(read[1] == records::at(store, LOCAL_NODE_KEY@));
    assert forall|i: int| 2 <= i < a implies #[trigger] read[i] == records::at(
        store,
        wanted::<NodeView>(read, 2, i),
    ) by {
        lemma_stand_before::<NodeView>(read, 2, a, i);
        assert(records::next_read_of(read.take(i)) is Read);
    }
    assert forall|i: int| a <= i < b implies #[trigger] read[i] == records::at(
        store,
        wanted::<ServiceView>(read, a, i),
    ) by {
        lemma_stand_before::<NodeView>(read, 2, a, i);
        lemma_stand_before::<ServiceView>(read, a, b, i);
        assert(records::next_read_of(read.take(i)) is Read);
    }
    assert forall|i: int| b <= i < c implies #[trigger] read[i] == records::at(
        store,
        wanted::<SecretView>(read, b, i),
    ) by {
        lemma_stand_before::<NodeView>(read, 2, a, i);
        lemma_stand_before::<ServiceView>(read, a, b, i);
        lemma_stand_before::<SecretView>(read, b, c, i);
        assert(records::next_read_of(read.take(i)) is Read);
    }
    assert forall|i: int| c <= i < d implies #[trigger] read[i] == records::at(
        store,
        wanted::<EventView>(read, c, i),
    ) by {
        lemma_stand_before::<NodeView>(read, 2, a, i);
        lemma_stand_before::<ServiceView>(read, a, b, i);
        lemma_stand_before::<SecretView>(read, b, c, i);
        lemma_stand_before::<EventView>(read, c, d, i);
        assert(records::next_read_of(read.take(i)) is Read);
    }
    lemma_section_read::<NodeView>(store, read, 2, a);
    lemma_section_read::<ServiceView>(store, read, a, b);
    lemma_section_read::<SecretView>(store, read, b, c);
    lemma_section_read::<EventView>(store, read, c, d);
}

/// The key that is read at `i`, among the records of a kind that start at `p`.
spec fn wanted<K: Shelved>(read: Seq<Option<StoredView>>, p: int, i: int) -> Seq<char> {
    if i == p {
        K::index_place()
    } else {
        K::place(records::names_of(read[p])[i - p - 1])
    }
}

// ---------------------------------------------------------------------------
// The event table.

proof fn lemma_rows_followed_more(
    rows: Map<Seq<char>, EventView>,
    first: Seq<WriteView>,
    then: Seq<WriteView>,
)
    ensures
        records::rows_followed(rows, first + then) == records::rows_followed(
            records::rows_followed(rows, first),
            then,
        ),
    decreases then.len(),
{
    let all = first + then;
    if then.len() > 0 {
        lemma_rows_followed_more(rows, first, then.drop_last());
        assert(all.drop_last() == first + then.drop_last());
        assert(all.last() == then.last());
    } else {
        assert(all == first);
    }
}

/// An event that is kept has a row with what may be kept of it, unless it had a row
/// before; no other row changes.
pub proof fn law_event_has_a_row(rows: Map<Seq<char>, EventView>, st: StateView, e: EventView)
    ensures
        ({
            let before = records::rows_followed(rows, st.journal);
            records::rows_followed(rows, state::with_event(st, e).journal)
                == if before.contains_key(e.id) {
                before
            } else {
                before.insert(e.id, event::sanitized(e))
            }
        }),
{
    let s = event::sanitized(e);
    let before = records::rows_followed(rows, st.journal);
    let writes = state::record_writes(
        state::event_key_text(s.id),
        StoredView::Event(s),
        table::kept(st.events, s.id),
        EVENT_INDEX_KEY@,
        table::keys(table::put(st.events, s)),
    );
    let all = writes.push(WriteView::InsertEventRow(s));
    lemma_rows_followed_more(rows, st.journal, all);
    assert(all.drop_last() == writes);
    assert(records::rows_followed(before, writes) == before) by {
        reveal_with_fuel(records::rows_followed, 3);
    }
}

proof fn lemma_repaired_rows(rows: Map<Seq<char>, EventView>, events: Seq<EventView>)
    requires
        forall|i: int, j: int|
            0 <= i < events.len() && 0 <= j < events.len() && (#[trigger] events[i]).id == (
            #[trigger] events[j]).id ==> events[i] == events[j],
    ensures
        forall|i: int|
            #![trigger events[i]]
            0 <= i < events.len() && event::sanitized(events[i]) != events[i] ==> {
                let after = records::rows_followed(rows, state::repairs(events));
                after.contains_key(events[i].id) && after[events[i].id] == event::sanitized(
                    events[i],
                )
            },
    decreases events.len(),
{
    if events.len() > 0 {
        let p = events.drop_last();
        let n = events.len() - 1;
        let e = events[n];
        let s = event::sanitized(e);
        assert forall|i: int, j: int|
            0 <= i < p.len() && 0 <= j < p.len() && (#[trigger] p[i]).id == (#[trigger] p[j]).id
                implies p[i] == p[j] by {
            assert(p[i] == events[i] && p[j] == events[j]);
        }
        lemma_repaired_rows(rows, p);
        let before = records::rows_followed(rows, state::repairs(p));
        let after = records::rows_followed(rows, state::repairs(events));
        if s.payload != e.payload {
            let three = seq![
                WriteView::Put { key: state::event_key_text(e.id), value: StoredView::Event(s) },
                WriteView::DeleteEventRow(e.id),
                WriteView::InsertEventRow(s),
            ];
            lemma_rows_followed_more(rows, state::repairs(p), three);
            let mended = before.remove(e.id).insert(e.id, s);
            assert(records::rows_followed(before, three) == mended) by {
                reveal_with_fuel(records::rows_followed, 4);
            }
        } else {
            assert(s == e);
        }
        assert forall|i: int|
            #![trigger events[i]]
            0 <= i < events.len() && event::sanitized(events[i]) != events[i] implies
            after.contains_key(events[i].id) && after[events[i].id] == event::sanitized(
            events[i],
        ) by {
            if i < n {
                assert(p[i] == events[i]);
            }
        }
    }
}

/// Where a store holds an event that tells what may not be kept of it, opening the store
/// puts in place of its row one that tells only what may be kept.
pub proof fn law_mended_events_have_mended_rows(
    rows: Map<Seq<char>, EventView>,
    store: Map<Seq<char>, StoredView>,
    paths: PathsView,
    id: Seq<char>,
)
    requires
        tidy(store),
        found::<EventView>(store, id) is Some,
        event::sanitized(found::<EventView>(store, id)->Some_0) != found::<EventView>(
            store,
            id,
        )->Some_0,
    ensures
        ({
            let after = records::rows_followed(
                rows,
                state::opened(paths, records::records_in(store)).journal,
            );
            after.contains_key(id) && after[id] == event::sanitized(
                found::<EventView>(store, id)->Some_0,
            )
        }),
{
    let e = found::<EventView>(store, id)->Some_0;
    lemma_shelf_read::<EventView>(store);
    let kept = table::put_all(Seq::<EventView>::empty(), records::shelf::<EventView>(store));
    let shown = event::newest_first(kept);
    assert forall|i: int, j: int|
        0 <= i < shown.len() && 0 <= j < shown.len() && (#[trigger] shown[i]).id == (
        #[trigger] shown[j]).id implies shown[i] == shown[j] by {
        assert(shown.contains(shown[i]) && shown.contains(shown[j]));
        event::lemma_newest_first_member(kept, shown[i]);
        event::lemma_newest_first_member(kept, shown[j]);
        let x = choose|x: int| 0 <= x < kept.len() && kept[x] == shown[i];
        let y = choose|y: int| 0 <= y < kept.len() && kept[y] == shown[j];
        table::lemma_find(kept, shown[i].id);
        assert(kept[x].key() == shown[i].id && kept[y].key() == shown[i].id);
    }
    lemma_repaired_rows(rows, shown);
    assert(found::<EventView>(store, id) == table::find(kept, id));
    table::lemma_find(kept, id);
    table::lemma_rank(kept, id);
    assert(kept.contains(e));
    event::lemma_newest_first_member(kept, e);
    let i = choose|i: int| 0 <= i < shown.len() && shown[i] == e;
    let first = seq![WriteView::CreateEventTable];
    lemma_rows_followed_more(rows, first, state::repairs(shown));
    assert(records::rows_followed(rows, first) == rows) by {
        reveal_with_fuel(records::rows_followed, 2);
    }
    assert(event::sanitized(shown[i]) != shown[i]);
}

} // verus!
