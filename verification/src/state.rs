//! What a node knows of its mesh, and what has to be written to its store to keep
//! that.

use crate::event;
use crate::event::{sanitized_event, sort_newest_first};
use crate::ids;
use crate::ids::fresh_id;
use crate::model;
use crate::model::{copy_rows, Event, EventView, Mesh, MeshSnapshot, MeshView, Node, NodeView};
use crate::model::{Payload, PayloadView, Secret, SecretView, Service, ServiceView, SnapshotView};
use crate::paths::{PathsView, ViaPaths};
use crate::table;
use crate::table::{discard, lookup, names, store};
use crate::text;
use crate::text::same;
use vstd::prelude::*;

verus! {

pub const MESH_KEY: &'static str = "via:mesh";

pub const LOCAL_NODE_KEY: &'static str = "via:local_node_id";

pub const NODE_INDEX_KEY: &'static str = "via:index:nodes";

pub const SERVICE_INDEX_KEY: &'static str = "via:index:services";

pub const SECRET_INDEX_KEY: &'static str = "via:index:secrets";

pub const EVENT_INDEX_KEY: &'static str = "via:index:events";

/// The table that holds one row for each event.
pub const EVENT_TABLE: &'static str = "via_events";

/// A value in the store.
#[derive(Debug)]
pub enum Stored {
    Mesh(Mesh),
    Text(String),
    Names(Vec<String>),
    Node(Node),
    Service(Service),
    Secret(Secret),
    Event(Event),
}

/// One change of the store.
#[derive(Debug)]
pub enum StoreWrite {
    /// Make the event table, unless it exists.
    CreateEventTable,
    /// Keep `value` under `key`.
    Put { key: String, value: Stored },
    /// Keep nothing under `key`.
    Delete { key: String },
    /// Add the event's row to the event table, unless it has one.
    InsertEventRow(Event),
    /// Take the row of the event with this identifier out of the event table.
    DeleteEventRow(String),
    /// Write the store to disk.
    Save,
    /// Shut the store down.
    Close,
}

/// What the store held when it was opened.
#[derive(Debug)]
pub struct StoredRecords {
    pub mesh: Option<Mesh>,
    pub local_node_id: Option<String>,
    pub nodes: Vec<Node>,
    pub services: Vec<Service>,
    pub secrets: Vec<Secret>,
    pub events: Vec<Event>,
}

/// What a node knows of its mesh.
#[derive(Debug)]
pub struct ViaState {
    paths: ViaPaths,
    running: bool,
    mesh: Option<Mesh>,
    local_node_id: Option<String>,
    nodes: Vec<Node>,
    services: Vec<Service>,
    secrets: Vec<Secret>,
    events: Vec<Event>,
    journal: Vec<StoreWrite>,
}

// ---------------------------------------------------------------------------
// Models.

#[verifier::ext_equal]
pub enum StoredView {
    Mesh(MeshView),
    Text(Seq<char>),
    Names(Seq<Seq<char>>),
    Node(NodeView),
    Service(ServiceView),
    Secret(SecretView),
    Event(EventView),
}

#[verifier::ext_equal]
pub enum WriteView {
    CreateEventTable,
    Put { key: Seq<char>, value: StoredView },
    Delete { key: Seq<char> },
    InsertEventRow(EventView),
    DeleteEventRow(Seq<char>),
    Save,
    Close,
}

#[verifier::ext_equal]
pub struct RecordsView {
    pub mesh: Option<MeshView>,
    pub local_node_id: Option<Seq<char>>,
    pub nodes: Seq<NodeView>,
    pub services: Seq<ServiceView>,
    pub secrets: Seq<SecretView>,
    pub events: Seq<EventView>,
}

/// The model of a node's state. Each table is in the order of its names; `journal`
/// holds the changes of the store that are still to be made.
#[verifier::ext_equal]
pub struct StateView {
    pub paths: PathsView,
    pub running: bool,
    pub mesh: Option<MeshView>,
    pub local_node_id: Option<Seq<char>>,
    pub nodes: Seq<NodeView>,
    pub services: Seq<ServiceView>,
    pub secrets: Seq<SecretView>,
    pub events: Seq<EventView>,
    pub journal: Seq<WriteView>,
}

impl View for Stored {
    type V = StoredView;

    open spec fn view(&self) -> StoredView {
        match self {
            Stored::Mesh(m) => StoredView::Mesh(m@),
            Stored::Text(s) => StoredView::Text(s@),
            Stored::Names(v) => StoredView::Names(text::texts(v@)),
            Stored::Node(n) => StoredView::Node(n@),
            Stored::Service(s) => StoredView::Service(s@),
            Stored::Secret(s) => StoredView::Secret(s@),
            Stored::Event(e) => StoredView::Event(e@),
        }
    }
}

impl View for StoreWrite {
    type V = WriteView;

    open spec fn view(&self) -> WriteView {
        match self {
            StoreWrite::CreateEventTable => WriteView::CreateEventTable,
            StoreWrite::Put { key, value } => WriteView::Put { key: key@, value: value@ },
            StoreWrite::Delete { key } => WriteView::Delete { key: key@ },
            StoreWrite::InsertEventRow(e) => WriteView::InsertEventRow(e@),
            StoreWrite::DeleteEventRow(id) => WriteView::DeleteEventRow(id@),
            StoreWrite::Save => WriteView::Save,
            StoreWrite::Close => WriteView::Close,
        }
    }
}

impl View for StoredRecords {
    type V = RecordsView;

    open spec fn view(&self) -> RecordsView {
        RecordsView {
            mesh: model::opt_mesh(self.mesh),
            local_node_id: text::opt_text(self.local_node_id),
            nodes: model::shapes(self.nodes@),
            services: model::shapes(self.services@),
            secrets: model::shapes(self.secrets@),
            events: model::shapes(self.events@),
        }
    }
}

/// Several changes of the store.
pub open spec fn writes(v: Seq<StoreWrite>) -> Seq<WriteView> {
    v.map_values(|w: StoreWrite| w@)
}

impl View for ViaState {
    type V = StateView;

    closed spec fn view(&self) -> StateView {
        StateView {
            paths: self.paths@,
            running: self.running,
            mesh: model::opt_mesh(self.mesh),
            local_node_id: text::opt_text(self.local_node_id),
            nodes: model::shapes(self.nodes@),
            services: model::shapes(self.services@),
            secrets: model::shapes(self.secrets@),
            events: model::shapes(self.events@),
            journal: writes(self.journal@),
        }
    }
}

/// The tables are in order, and no event holds what may not be kept of it.
pub open spec fn well_formed(st: StateView) -> bool {
    &&& table::sorted(st.nodes)
    &&& table::sorted(st.services)
    &&& table::sorted(st.secrets)
    &&& table::sorted(st.events)
    &&& forall|i: int|
        0 <= i < st.events.len() ==> event::sanitized(#[trigger] st.events[i]) == st.events[i]
}

// ---------------------------------------------------------------------------
// Keys of the store.

/// The key of the node called `slug`.
pub open spec fn node_key_text(slug: Seq<char>) -> Seq<char> {
    "via:node:"@ + slug
}

/// The key of the service called `name`.
pub open spec fn service_key_text(name: Seq<char>) -> Seq<char> {
    "via:service:"@ + name
}

/// The key of the secret called `name`.
pub open spec fn secret_key_text(name: Seq<char>) -> Seq<char> {
    "via:secret:"@ + name
}

/// The key of the event with the identifier `id`.
pub open spec fn event_key_text(id: Seq<char>) -> Seq<char> {
    "via:event:"@ + id
}

/// The key of the node called `slug`.
pub fn node_key(slug: &str) -> (r: String)
    ensures
        r@ == node_key_text(slug@),
{
    "via:node:".to_owned().concat(slug)
}

/// The key of the service called `name`.
pub fn service_key(name: &str) -> (r: String)
    ensures
        r@ == service_key_text(name@),
{
    "via:service:".to_owned().concat(name)
}

/// The key of the secret called `name`.
pub fn secret_key(name: &str) -> (r: String)
    ensures
        r@ == secret_key_text(name@),
{
    "via:secret:".to_owned().concat(name)
}

/// The key of the event with the identifier `id`.
pub fn event_key(id: &str) -> (r: String)
    ensures
        r@ == event_key_text(id@),
{
    "via:event:".to_owned().concat(id)
}

// ---------------------------------------------------------------------------
// Transitions.

/// The state, with one more change of the store to make.
pub open spec fn with_write(st: StateView, w: WriteView) -> StateView {
    StateView { journal: st.journal.push(w), ..st }
}

/// The changes of the store that keep a record, and its name in the index if it is
/// new there.
pub open spec fn record_writes(
    key: Seq<char>,
    value: StoredView,
    known: bool,
    index: Seq<char>,
    names: Seq<Seq<char>>,
) -> Seq<WriteView> {
    if known {
        seq![WriteView::Put { key, value }]
    } else {
        seq![
            WriteView::Put { key, value },
            WriteView::Put { key: index, value: StoredView::Names(names) },
        ]
    }
}

/// The changes of the store that drop a record and its name in the index.
pub open spec fn drop_writes(key: Seq<char>, index: Seq<char>, names: Seq<Seq<char>>) -> Seq<
    WriteView,
> {
    seq![
        WriteView::Delete { key },
        WriteView::Put { key: index, value: StoredView::Names(names) },
    ]
}

/// The state with this mesh.
pub open spec fn with_mesh(st: StateView, m: MeshView) -> StateView {
    with_write(
        StateView { mesh: Some(m), ..st },
        WriteView::Put { key: MESH_KEY@, value: StoredView::Mesh(m) },
    )
}

/// The state with this as the identifier of the local node.
pub open spec fn with_local_node(st: StateView, id: Seq<char>) -> StateView {
    with_write(
        StateView { local_node_id: Some(id), ..st },
        WriteView::Put { key: LOCAL_NODE_KEY@, value: StoredView::Text(id) },
    )
}

/// The state with this node under its slug.
pub open spec fn with_node(st: StateView, n: NodeView) -> StateView {
    let nodes = table::put(st.nodes, n);
    StateView {
        nodes,
        journal: st.journal + record_writes(
            node_key_text(n.slug),
            StoredView::Node(n),
            table::kept(st.nodes, n.slug),
            NODE_INDEX_KEY@,
            table::keys(nodes),
        ),
        ..st
    }
}

/// The state without the node under `slug`.
pub open spec fn without_node(st: StateView, slug: Seq<char>) -> StateView {
    let nodes = table::dropped(st.nodes, slug);
    StateView {
        nodes,
        journal: st.journal + drop_writes(
            node_key_text(slug),
            NODE_INDEX_KEY@,
            table::keys(nodes),
        ),
        ..st
    }
}

/// The state with this service under its name.
pub open spec fn with_service(st: StateView, s: ServiceView) -> StateView {
    let services = table::put(st.services, s);
    StateView {
        services,
        journal: st.journal + record_writes(
            service_key_text(s.name),
            StoredView::Service(s),
            table::kept(st.services, s.name),
            SERVICE_INDEX_KEY@,
            table::keys(services),
        ),
        ..st
    }
}

/// The state without the service under `name`.
pub open spec fn without_service(st: StateView, name: Seq<char>) -> StateView {
    let services = table::dropped(st.services, name);
    StateView {
        services,
        journal: st.journal + drop_writes(
            service_key_text(name),
            SERVICE_INDEX_KEY@,
            table::keys(services),
        ),
        ..st
    }
}

/// The state with this secret under its name.
pub open spec fn with_secret(st: StateView, s: SecretView) -> StateView {
    let secrets = table::put(st.secrets, s);
    StateView {
        secrets,
        journal: st.journal + record_writes(
            secret_key_text(s.name),
            StoredView::Secret(s),
            table::kept(st.secrets, s.name),
            SECRET_INDEX_KEY@,
            table::keys(secrets),
        ),
        ..st
    }
}

/// The state without the secret under `name`.
pub open spec fn without_secret(st: StateView, name: Seq<char>) -> StateView {
    let secrets = table::dropped(st.secrets, name);
    StateView {
        secrets,
        journal: st.journal + drop_writes(
            secret_key_text(name),
            SECRET_INDEX_KEY@,
            table::keys(secrets),
        ),
        ..st
    }
}

/// The state with what may be kept of this event.
pub open spec fn with_event(st: StateView, e: EventView) -> StateView {
    let e = event::sanitized(e);
    let events = table::put(st.events, e);
    StateView {
        events,
        journal: st.journal + record_writes(
            event_key_text(e.id),
            StoredView::Event(e),
            table::kept(st.events, e.id),
            EVENT_INDEX_KEY@,
            table::keys(events),
        ).push(WriteView::InsertEventRow(e)),
        ..st
    }
}

/// The state after something was recorded under a fresh identifier.
pub open spec fn recorded(
    st: StateView,
    id: Seq<char>,
    kind: Seq<char>,
    payload: PayloadView,
    now: i64,
) -> StateView {
    with_event(st, EventView { id, kind, payload, created_at: now })
}

/// The state after everything was written to disk.
pub open spec fn persisted(st: StateView) -> StateView {
    with_write(st, WriteView::Save)
}

/// The node with this identifier: the first in the order of the slugs.
pub open spec fn node_with_id(nodes: Seq<NodeView>, id: Seq<char>) -> Option<NodeView>
    decreases nodes.len(),
{
    if nodes.len() == 0 {
        None
    } else if nodes[0].id == id {
        Some(nodes[0])
    } else {
        node_with_id(nodes.skip(1), id)
    }
}

/// The node that this state belongs to, or what is said if there is none.
pub open spec fn local(st: StateView) -> Result<NodeView, Seq<char>> {
    match st.local_node_id {
        Some(id) => match node_with_id(st.nodes, id) {
            Some(n) => Ok(n),
            None => Err("local node record is missing"@),
        },
        None => Err("local node is not initialized; run `via init` first"@),
    }
}

/// What a node says of its mesh.
pub open spec fn snapshot_of(st: StateView) -> SnapshotView {
    SnapshotView {
        mesh: st.mesh,
        nodes: st.nodes,
        services: st.services,
        secrets: st.secrets,
        events: event::newest_first(st.events),
    }
}

/// The changes of the store that take what may not be kept out of these events.
pub open spec fn repairs(events: Seq<EventView>) -> Seq<WriteView>
    decreases events.len(),
{
    if events.len() == 0 {
        Seq::empty()
    } else {
        let e = events.last();
        let s = event::sanitized(e);
        let before = repairs(events.drop_last());
        if s.payload != e.payload {
            before + seq![
                WriteView::Put { key: event_key_text(e.id), value: StoredView::Event(s) },
                WriteView::DeleteEventRow(e.id),
                WriteView::InsertEventRow(s),
            ]
        } else {
            before
        }
    }
}

/// The state that a store with these records opens to.
pub open spec fn opened(paths: PathsView, r: RecordsView) -> StateView {
    let events = table::put_all(Seq::empty(), r.events);
    StateView {
        paths,
        running: true,
        mesh: r.mesh,
        local_node_id: r.local_node_id,
        nodes: table::put_all(Seq::empty(), r.nodes),
        services: table::put_all(Seq::empty(), r.services),
        secrets: table::put_all(Seq::empty(), r.secrets),
        events: event::all_sanitized(events),
        journal: seq![WriteView::CreateEventTable] + repairs(event::newest_first(events)),
    }
}

/// A node of a snapshot as it is kept here. Of the local node the address and the
/// time it was last seen are this node's to know; of others, that they were seen
/// is not.
pub open spec fn adopted(st: StateView, n: NodeView) -> NodeView {
    if Some(n.id) == st.local_node_id {
        match node_with_id(st.nodes, n.id) {
            Some(known) => NodeView {
                last_seen_at: known.last_seen_at,
                daemon_addr: known.daemon_addr,
                addresses: known.addresses,
                ..n
            },
            None => n,
        }
    } else {
        NodeView { last_seen_at: None, ..n }
    }
}

/// The state after the nodes of a snapshot were taken over.
pub open spec fn with_nodes(st: StateView, nodes: Seq<NodeView>) -> StateView
    decreases nodes.len(),
{
    if nodes.len() == 0 {
        st
    } else {
        let before = with_nodes(st, nodes.drop_last());
        with_node(before, adopted(before, nodes.last()))
    }
}

/// The state after the services of a snapshot were taken over.
pub open spec fn with_services(st: StateView, services: Seq<ServiceView>) -> StateView
    decreases services.len(),
{
    if services.len() == 0 {
        st
    } else {
        with_service(with_services(st, services.drop_last()), services.last())
    }
}

/// Whether one of these secrets is called `name`.
pub open spec fn names_secret(secrets: Seq<SecretView>, name: Seq<char>) -> bool {
    exists|i: int| 0 <= i < secrets.len() && (#[trigger] secrets[i]).name == name
}

/// The state without those of the known secrets that a snapshot does not name.
pub open spec fn pruned(
    st: StateView,
    known: Seq<SecretView>,
    incoming: Seq<SecretView>,
) -> StateView
    decreases known.len(),
{
    if known.len() == 0 {
        st
    } else {
        let before = pruned(st, known.drop_last(), incoming);
        if names_secret(incoming, known.last().name) {
            before
        } else {
            without_secret(before, known.last().name)
        }
    }
}

/// The state after the secrets of a snapshot were taken over.
pub open spec fn with_secrets(st: StateView, secrets: Seq<SecretView>) -> StateView
    decreases secrets.len(),
{
    if secrets.len() == 0 {
        st
    } else {
        with_secret(with_secrets(st, secrets.drop_last()), secrets.last())
    }
}

/// The state after the events of a snapshot were taken over.
pub open spec fn with_events(st: StateView, events: Seq<EventView>) -> StateView
    decreases events.len(),
{
    if events.len() == 0 {
        st
    } else {
        with_event(with_events(st, events.drop_last()), events.last())
    }
}

/// The state after a snapshot was taken over.
pub open spec fn imported(st: StateView, snapshot: SnapshotView) -> StateView {
    let a = match snapshot.mesh {
        Some(m) => with_mesh(st, m),
        None => st,
    };
    let b = with_services(with_nodes(a, snapshot.nodes), snapshot.services);
    let c = with_secrets(pruned(b, b.secrets, snapshot.secrets), snapshot.secrets);
    with_events(c, snapshot.events)
}

// ---------------------------------------------------------------------------
// Functions.

fn find_by_id(nodes: &Vec<Node>, id: &str) -> (r: Option<Node>)
    ensures
        model::opt_node(r) == node_with_id(model::shapes(nodes@), id@),
{
    let ghost all = model::shapes(nodes@);
    let mut i: usize = 0;
    proof {
        assert(all.skip(0) == all);
    }
    while i < nodes.len()
        invariant
            i <= nodes.len(),
            all == model::shapes(nodes@),
            node_with_id(all, id@) == node_with_id(all.skip(i as int), id@),
        decreases nodes.len() - i,
    {
        proof {
            assert(all.skip(i as int)[0] == nodes@[i as int]@);
            assert(all.skip(i as int).skip(1) == all.skip(i + 1));
        }
        if same(nodes[i].id.as_str(), id) {
            return Some(nodes[i].clone());
        }
        i += 1;
    }
    None
}

fn names_a_secret(secrets: &Vec<Secret>, name: &str) -> (r: bool)
    ensures
        r == names_secret(model::shapes(secrets@), name@),
{
    let ghost all = model::shapes(secrets@);
    let mut i: usize = 0;
    while i < secrets.len()
        invariant
            i <= secrets.len(),
            all == model::shapes(secrets@),
            forall|j: int| 0 <= j < i ==> (#[trigger] all[j]).name != name@,
        decreases secrets.len() - i,
    {
        if same(secrets[i].name.as_str(), name) {
            proof {
                assert(all[i as int].name == name@);
            }
            return true;
        }
        i += 1;
    }
    false
}

/// The records in the order of their names, the last one under each.
fn table_of<T: model::Row>(rows: &Vec<T>) -> (r: Vec<T>)
    ensures
        model::shapes(r@) == table::put_all(Seq::empty(), model::shapes(rows@)),
{
    let ghost all = model::shapes(rows@);
    let mut out: Vec<T> = Vec::new();
    let mut i: usize = 0;
    proof {
        assert(model::shapes(out@) == Seq::<T::Shape>::empty());
    }
    while i < rows.len()
        invariant
            i <= rows.len(),
            all == model::shapes(rows@),
            model::shapes(out@) == table::put_all(Seq::empty(), all.take(i as int)),
        decreases rows.len() - i,
    {
        proof {
            let next = all.take(i + 1);
            assert(next.drop_last() == all.take(i as int));
            assert(next.last() == rows@[i as int].shape());
        }
        store(&mut out, rows[i].twin());
        i += 1;
    }
    proof {
        assert(all.take(all.len() as int) == all);
    }
    out
}

/// The events, each as it may be kept.
fn sanitize_all(events: &Vec<Event>) -> (r: Vec<Event>)
    ensures
        model::shapes(r@) == event::all_sanitized(model::shapes(events@)),
{
    let ghost all = event::all_sanitized(model::shapes(events@));
    let mut out: Vec<Event> = Vec::new();
    let mut i: usize = 0;
    while i < events.len()
        invariant
            i <= events.len(),
            all == event::all_sanitized(model::shapes(events@)),
            model::shapes(out@) == all.take(i as int),
        decreases events.len() - i,
    {
        let e = sanitized_event(&events[i]);
        let ghost before = out@;
        out.push(e);
        proof {
            assert(model::shapes(out@) == model::shapes(before).push(e@));
            assert(all.take(i + 1) == all.take(i as int).push(all[i as int]));
        }
        i += 1;
    }
    proof {
        assert(all.take(all.len() as int) == all);
    }
    out
}

/// The changes of the store that take what may not be kept out of these events.
fn repair_writes(events: &Vec<Event>) -> (r: Vec<StoreWrite>)
    ensures
        writes(r@) == seq![WriteView::CreateEventTable] + repairs(model::shapes(events@)),
{
    let ghost all = model::shapes(events@);
    let mut out: Vec<StoreWrite> = Vec::new();
    out.push(StoreWrite::CreateEventTable);
    let mut i: usize = 0;
    proof {
        assert(writes(out@) =~= seq![WriteView::CreateEventTable] + repairs(all.take(0)));
    }
    while i < events.len()
        invariant
            i <= events.len(),
            all == model::shapes(events@),
            writes(out@) == seq![WriteView::CreateEventTable] + repairs(all.take(i as int)),
        decreases events.len() - i,
    {
        let e = &events[i];
        let s = sanitized_event(e);
        let ghost before = out@;
        proof {
            let next = all.take(i + 1);
            assert(next.drop_last() == all.take(i as int));
            assert(next.last() == e@);
        }
        if !s.payload.same(&e.payload) {
            out.push(
                StoreWrite::Put { key: event_key(e.id.as_str()), value: Stored::Event(s.clone()) },
            );
            out.push(StoreWrite::DeleteEventRow(e.id.clone()));
            out.push(StoreWrite::InsertEventRow(s.clone()));
            proof {
                let three = seq![
                    WriteView::Put { key: event_key_text(e@.id), value: StoredView::Event(s@) },
                    WriteView::DeleteEventRow(e@.id),
                    WriteView::InsertEventRow(s@),
                ];
                assert(writes(out@) =~= writes(before) + three);
                assert(writes(before) + three =~= seq![WriteView::CreateEventTable] + (repairs(
                    all.take(i as int),
                ) + three));
            }
        }
        i += 1;
    }
    proof {
        assert(all.take(all.len() as int) == all);
    }
    out
}

/// Taking out what may not be kept leaves the order, and nothing more to take out.
pub proof fn lemma_all_sanitized_sorted(s: Seq<EventView>)
    requires
        table::sorted(s),
    ensures
        table::sorted(event::all_sanitized(s)),
        forall|i: int|
            0 <= i < event::all_sanitized(s).len() ==> event::sanitized(
                #[trigger] event::all_sanitized(s)[i],
            ) == event::all_sanitized(s)[i],
{
    let t = event::all_sanitized(s);
    assert forall|i: int, j: int| 0 <= i < j < t.len() implies crate::order::precedes(
        #[trigger] model::Keyed::key(t[i]),
        #[trigger] model::Keyed::key(t[j]),
    ) by {
        assert(crate::order::precedes(model::Keyed::key(s[i]), model::Keyed::key(s[j])));
    }
    assert forall|i: int| 0 <= i < t.len() implies event::sanitized(#[trigger] t[i]) == t[i] by {
        event::lemma_sanitized_idempotent(s[i]);
    }
}

impl ViaState {
    /// Opens the state of a node whose store holds `records`. Events that hold what
    /// may not be kept of them are mended.
    pub fn open(paths: ViaPaths, records: StoredRecords) -> (r: ViaState)
        ensures
            r@ == opened(paths@, records@),
            r.wf(),
    {
        let events = table_of(&records.events);
        let shown = sort_newest_first(&events);
        let journal = repair_writes(&shown);
        let state = ViaState {
            paths,
            running: true,
            mesh: records.mesh,
            local_node_id: records.local_node_id,
            nodes: table_of(&records.nodes),
            services: table_of(&records.services),
            secrets: table_of(&records.secrets),
            events: sanitize_all(&events),
            journal,
        };
        proof {
            table::lemma_put_all_sorted(Seq::empty(), records@.nodes);
            table::lemma_put_all_sorted(Seq::empty(), records@.services);
            table::lemma_put_all_sorted(Seq::empty(), records@.secrets);
            table::lemma_put_all_sorted(Seq::empty(), records@.events);
            lemma_all_sanitized_sorted(table::put_all(Seq::empty(), records@.events));
        }
        state
    }

    /// Takes over what another node says of the mesh.
    pub fn import_snapshot(&mut self, snapshot: MeshSnapshot)
        requires
            old(self).wf(),
        ensures
            final(self)@ == imported(old(self)@, snapshot@),
            final(self).wf(),
    {
        let ghost st = self@;
        if let Some(mesh) = &snapshot.mesh {
            self.save_mesh(mesh);
        }
        let ghost a = self@;
        let ghost nodes = snapshot@.nodes;
        let mut i: usize = 0;
        while i < snapshot.nodes.len()
            invariant
                i <= snapshot.nodes.len(),
                nodes == model::shapes(snapshot.nodes@),
                self.wf(),
                self@ == with_nodes(a, nodes.take(i as int)),
            decreases snapshot.nodes.len() - i,
        {
            proof {
                let next = nodes.take(i + 1);
                assert(next.drop_last() == nodes.take(i as int));
                assert(next.last() == snapshot.nodes@[i as int]@);
            }
            let node = self.adopt(&snapshot.nodes[i]);
            self.upsert_node(&node);
            i += 1;
        }
        proof {
            assert(nodes.take(nodes.len() as int) == nodes);
        }
        let ghost b0 = self@;
        let ghost services = snapshot@.services;
        let mut i: usize = 0;
        while i < snapshot.services.len()
            invariant
                i <= snapshot.services.len(),
                services == model::shapes(snapshot.services@),
                self.wf(),
                self@ == with_services(b0, services.take(i as int)),
            decreases snapshot.services.len() - i,
        {
            proof {
                let next = services.take(i + 1);
                assert(next.drop_last() == services.take(i as int));
                assert(next.last() == snapshot.services@[i as int]@);
            }
            self.upsert_service(&snapshot.services[i]);
            i += 1;
        }
        proof {
            assert(services.take(services.len() as int) == services);
        }
        let ghost b = self@;
        let known = self.secrets();
        let ghost known_view = b.secrets;
        let mut i: usize = 0;
        while i < known.len()
            invariant
                i <= known.len(),
                known_view == model::shapes(known@),
                self.wf(),
                self@ == pruned(b, known_view.take(i as int), model::shapes(snapshot.secrets@)),
            decreases known.len() - i,
        {
            proof {
                let next = known_view.take(i + 1);
                assert(next.drop_last() == known_view.take(i as int));
                assert(next.last() == known@[i as int]@);
            }
            if !names_a_secret(&snapshot.secrets, known[i].name.as_str()) {
                self.delete_secret(known[i].name.as_str());
            }
            i += 1;
        }
        proof {
            assert(known_view.take(known_view.len() as int) == known_view);
        }
        let ghost c0 = self@;
        let ghost secrets = snapshot@.secrets;
        let mut i: usize = 0;
        while i < snapshot.secrets.len()
            invariant
                i <= snapshot.secrets.len(),
                secrets == model::shapes(snapshot.secrets@),
                self.wf(),
                self@ == with_secrets(c0, secrets.take(i as int)),
            decreases snapshot.secrets.len() - i,
        {
            proof {
                let next = secrets.take(i + 1);
                assert(next.drop_last() == secrets.take(i as int));
                assert(next.last() == snapshot.secrets@[i as int]@);
            }
            self.upsert_secret(&snapshot.secrets[i]);
            i += 1;
        }
        proof {
            assert(secrets.take(secrets.len() as int) == secrets);
        }
        let ghost c = self@;
        let ghost events = snapshot@.events;
        let mut i: usize = 0;
        while i < snapshot.events.len()
            invariant
                i <= snapshot.events.len(),
                events == model::shapes(snapshot.events@),
                self.wf(),
                self@ == with_events(c, events.take(i as int)),
            decreases snapshot.events.len() - i,
        {
            proof {
                let next = events.take(i + 1);
                assert(next.drop_last() == events.take(i as int));
                assert(next.last() == snapshot.events@[i as int]@);
            }
            self.upsert_event(&snapshot.events[i]);
            i += 1;
        }
        proof {
            assert(events.take(events.len() as int) == events);
        }
    }

    /// A node of a snapshot as it is kept here.
    fn adopt(&self, node: &Node) -> (r: Node)
        ensures
            r@ == adopted(self@, node@),
    {
        let mut node = node.clone();
        let is_local = match &self.local_node_id {
            Some(id) => same(id.as_str(), node.id.as_str()),
            None => false,
        };
        if is_local {
            if let Some(known) = find_by_id(&self.nodes, node.id.as_str()) {
                node.last_seen_at = known.last_seen_at;
                node.daemon_addr = known.daemon_addr;
                node.addresses = known.addresses;
            }
        } else {
            node.last_seen_at = None;
        }
        node
    }

    /// The tables are in order, and no event holds what may not be kept of it.
    pub open spec fn wf(&self) -> bool {
        well_formed(self@)
    }

    fn note(&mut self, w: StoreWrite)
        ensures
            final(self)@ == with_write(old(self)@, w@),
    {
        self.journal.push(w);
        proof {
            assert(writes(self.journal@) == writes(old(self).journal@).push(w@));
        }
    }

    /// The directories that have to exist.
    pub fn ensure_dirs(&self) -> (r: Vec<String>)
        ensures
            text::texts(r@) == seq![
                self@.paths.root,
                self@.paths.lux,
                self@.paths.logs,
                self@.paths.bin,
            ],
    {
        self.paths.ensure()
    }

    /// Where the node keeps its files.
    pub fn paths(&self) -> (r: &ViaPaths)
        ensures
            r@ == self@.paths,
    {
        &self.paths
    }

    /// The changes of the store that are to be made, in order. They are handed out
    /// once.
    pub fn take_writes(&mut self) -> (r: Vec<StoreWrite>)
        ensures
            writes(r@) == old(self)@.journal,
            final(self)@ == (StateView { journal: Seq::empty(), ..old(self)@ }),
    {
        let mut out: Vec<StoreWrite> = Vec::new();
        out.append(&mut self.journal);
        proof {
            assert(out@ == old(self).journal@);
            assert(writes(self.journal@) == Seq::<WriteView>::empty());
        }
        out
    }

    /// Has everything written to disk.
    pub fn persist(&mut self)
        ensures
            final(self)@ == persisted(old(self)@),
    {
        self.note(StoreWrite::Save);
    }

    /// Has everything written to disk and the store shut down, once.
    pub fn shutdown(&mut self)
        ensures
            final(self)@ == (if old(self)@.running {
                StateView {
                    running: false,
                    ..with_write(persisted(old(self)@), WriteView::Close)
                }
            } else {
                persisted(old(self)@)
            }),
    {
        self.note(StoreWrite::Save);
        if self.running {
            self.running = false;
            self.note(StoreWrite::Close);
        }
    }

    /// The mesh, once there is one.
    pub fn mesh(&self) -> (r: Option<Mesh>)
        ensures
            model::opt_mesh(r) == self@.mesh,
    {
        match &self.mesh {
            Some(m) => Some(m.clone()),
            None => None,
        }
    }

    /// Keeps the mesh.
    pub fn save_mesh(&mut self, mesh: &Mesh)
        ensures
            final(self)@ == with_mesh(old(self)@, mesh@),
    {
        self.mesh = Some(mesh.clone());
        self.note(
            StoreWrite::Put { key: MESH_KEY.to_owned(), value: Stored::Mesh(mesh.clone()) },
        );
    }

    /// Keeps the identifier of the local node.
    pub fn save_local_node_id(&mut self, node_id: &str)
        ensures
            final(self)@ == with_local_node(old(self)@, node_id@),
    {
        self.local_node_id = Some(node_id.to_owned());
        self.note(
            StoreWrite::Put {
                key: LOCAL_NODE_KEY.to_owned(),
                value: Stored::Text(node_id.to_owned()),
            },
        );
    }

    /// The node called `slug`.
    pub fn node_by_slug(&self, slug: &str) -> (r: Option<Node>)
        ensures
            model::opt_node(r) == table::find(self@.nodes, slug@),
    {
        match lookup(&self.nodes, slug) {
            Some(n) => Some(n.clone()),
            None => None,
        }
    }

    /// All nodes, in the order of their slugs.
    pub fn nodes(&self) -> (r: Vec<Node>)
        ensures
            model::shapes(r@) == self@.nodes,
    {
        copy_rows(&self.nodes)
    }

    /// The node that this state belongs to.
    pub fn local_node(&self) -> (r: Result<Node, String>)
        ensures
            match r {
                Ok(n) => local(self@) == Ok::<NodeView, Seq<char>>(n@),
                Err(e) => local(self@) == Err::<NodeView, Seq<char>>(e@),
            },
    {
        match &self.local_node_id {
            Some(id) => match find_by_id(&self.nodes, id.as_str()) {
                Some(n) => Ok(n),
                None => Err("local node record is missing".to_owned()),
            },
            None => Err("local node is not initialized; run `via init` first".to_owned()),
        }
    }

    /// The node with this identifier.
    pub fn node_by_id(&self, node_id: &str) -> (r: Option<Node>)
        ensures
            model::opt_node(r) == node_with_id(self@.nodes, node_id@),
    {
        find_by_id(&self.nodes, node_id)
    }

    /// Keeps a node under its slug.
    pub fn upsert_node(&mut self, node: &Node)
        requires
            old(self).wf(),
        ensures
            final(self)@ == with_node(old(self)@, node@),
            final(self).wf(),
    {
        proof {
            table::lemma_put_sorted(self@.nodes, node@);
        }
        let fresh = store(&mut self.nodes, node.clone());
        self.note(
            StoreWrite::Put {
                key: node_key(node.slug.as_str()),
                value: Stored::Node(node.clone()),
            },
        );
        if fresh {
            let index = names(&self.nodes);
            self.note(
                StoreWrite::Put { key: NODE_INDEX_KEY.to_owned(), value: Stored::Names(index) },
            );
        }
        proof {
            assert(self@ =~= with_node(old(self)@, node@));
        }
    }

    /// Keeps no node under `slug`.
    pub fn delete_node_slug(&mut self, slug: &str)
        requires
            old(self).wf(),
        ensures
            final(self)@ == without_node(old(self)@, slug@),
            final(self).wf(),
    {
        proof {
            table::lemma_dropped_sorted(self@.nodes, slug@);
        }
        discard(&mut self.nodes, slug);
        self.note(StoreWrite::Delete { key: node_key(slug) });
        let index = names(&self.nodes);
        self.note(
            StoreWrite::Put { key: NODE_INDEX_KEY.to_owned(), value: Stored::Names(index) },
        );
        proof {
            assert(self@ =~= without_node(old(self)@, slug@));
        }
    }

    /// The service called `name`.
    pub fn service_by_name(&self, name: &str) -> (r: Option<Service>)
        ensures
            model::opt_service(r) == table::find(self@.services, name@),
    {
        match lookup(&self.services, name) {
            Some(s) => Some(s.clone()),
            None => None,
        }
    }

    /// All services, in the order of their names.
    pub fn services(&self) -> (r: Vec<Service>)
        ensures
            model::shapes(r@) == self@.services,
    {
        copy_rows(&self.services)
    }

    /// Keeps a service under its name.
    pub fn upsert_service(&mut self, service: &Service)
        requires
            old(self).wf(),
        ensures
            final(self)@ == with_service(old(self)@, service@),
            final(self).wf(),
    {
        proof {
            table::lemma_put_sorted(self@.services, service@);
        }
        let fresh = store(&mut self.services, service.clone());
        self.note(
            StoreWrite::Put {
                key: service_key(service.name.as_str()),
                value: Stored::Service(service.clone()),
            },
        );
        if fresh {
            let index = names(&self.services);
            self.note(
                StoreWrite::Put { key: SERVICE_INDEX_KEY.to_owned(), value: Stored::Names(index) },
            );
        }
        proof {
            assert(self@ =~= with_service(old(self)@, service@));
        }
    }

    /// Keeps no service under `name`.
    pub fn delete_service(&mut self, name: &str)
        requires
            old(self).wf(),
        ensures
            final(self)@ == without_service(old(self)@, name@),
            final(self).wf(),
    {
        proof {
            table::lemma_dropped_sorted(self@.services, name@);
        }
        discard(&mut self.services, name);
        self.note(StoreWrite::Delete { key: service_key(name) });
        let index = names(&self.services);
        self.note(
            StoreWrite::Put { key: SERVICE_INDEX_KEY.to_owned(), value: Stored::Names(index) },
        );
        proof {
            assert(self@ =~= without_service(old(self)@, name@));
        }
    }

    /// The secret called `name`.
    pub fn secret_by_name(&self, name: &str) -> (r: Option<Secret>)
        ensures
            model::opt_secret(r) == table::find(self@.secrets, name@),
    {
        match lookup(&self.secrets, name) {
            Some(s) => Some(s.clone()),
            None => None,
        }
    }

    /// All secrets, in the order of their names.
    pub fn secrets(&self) -> (r: Vec<Secret>)
        ensures
            model::shapes(r@) == self@.secrets,
    {
        copy_rows(&self.secrets)
    }

    /// Keeps a secret under its name.
    pub fn upsert_secret(&mut self, secret: &Secret)
        requires
            old(self).wf(),
        ensures
            final(self)@ == with_secret(old(self)@, secret@),
            final(self).wf(),
    {
        proof {
            table::lemma_put_sorted(self@.secrets, secret@);
        }
        let fresh = store(&mut self.secrets, secret.clone());
        self.note(
            StoreWrite::Put {
                key: secret_key(secret.name.as_str()),
                value: Stored::Secret(secret.clone()),
            },
        );
        if fresh {
            let index = names(&self.secrets);
            self.note(
                StoreWrite::Put { key: SECRET_INDEX_KEY.to_owned(), value: Stored::Names(index) },
            );
        }
        proof {
            assert(self@ =~= with_secret(old(self)@, secret@));
        }
    }

    /// Keeps no secret under `name`.
    pub fn delete_secret(&mut self, name: &str)
        requires
            old(self).wf(),
        ensures
            final(self)@ == without_secret(old(self)@, name@),
            final(self).wf(),
    {
        proof {
            table::lemma_dropped_sorted(self@.secrets, name@);
        }
        discard(&mut self.secrets, name);
        self.note(StoreWrite::Delete { key: secret_key(name) });
        let index = names(&self.secrets);
        self.note(
            StoreWrite::Put { key: SECRET_INDEX_KEY.to_owned(), value: Stored::Names(index) },
        );
        proof {
            assert(self@ =~= without_secret(old(self)@, name@));
        }
    }

    /// Records that something happened at `now`. Returns the identifier of the
    /// event.
    pub fn append_event(&mut self, kind: &str, payload: Payload, now: i64) -> (id: String)
        requires
            old(self).wf(),
        ensures
            ids::is_id(id@),
            final(self)@ == recorded(old(self)@, id@, kind@, payload@, now),
            final(self).wf(),
    {
        let id = fresh_id();
        let event = Event { id: id.clone(), kind: kind.to_owned(), payload, created_at: now };
        self.upsert_event(&event);
        id
    }

    /// The newest `limit` events, the latest first.
    pub fn events(&self, limit: usize) -> (r: Vec<Event>)
        ensures
            model::shapes(r@) == event::newest(self@.events, limit as int),
    {
        let mut events = sort_newest_first(&self.events);
        proof {
            event::lemma_newest_first_sorted(self@.events);
        }
        let ghost all = events@;
        events.truncate(limit);
        proof {
            if limit < all.len() {
                assert(model::shapes(events@) == model::shapes(all).take(limit as int));
            }
        }
        events
    }

    /// The event with this identifier.
    pub fn event_by_id(&self, id: &str) -> (r: Option<Event>)
        ensures
            model::opt_event(r) == table::find(self@.events, id@),
    {
        match lookup(&self.events, id) {
            Some(e) => Some(e.clone()),
            None => None,
        }
    }

    /// Keeps what may be kept of an event.
    pub fn upsert_event(&mut self, event: &Event)
        requires
            old(self).wf(),
        ensures
            final(self)@ == with_event(old(self)@, event@),
            final(self).wf(),
    {
        let ghost given = event@;
        let event = sanitized_event(event);
        proof {
            event::lemma_sanitized_idempotent(given);
            table::lemma_put_sorted(self@.events, event@);
        }
        let fresh = store(&mut self.events, event.clone());
        self.note(
            StoreWrite::Put {
                key: event_key(event.id.as_str()),
                value: Stored::Event(event.clone()),
            },
        );
        if fresh {
            let index = names(&self.events);
            self.note(
                StoreWrite::Put { key: EVENT_INDEX_KEY.to_owned(), value: Stored::Names(index) },
            );
        }
        self.note(StoreWrite::InsertEventRow(event.clone()));
        proof {
            assert(self@ =~= with_event(old(self)@, given));
            lemma_put_sanitized(old(self)@.events, event@);
        }
    }

    /// What the node says of its mesh.
    pub fn snapshot(&self) -> (r: MeshSnapshot)
        ensures
            r@ == snapshot_of(self@),
    {
        let mesh = self.mesh();
        let nodes = self.nodes();
        let services = self.services();
        let secrets = self.secrets();
        let events = sort_newest_first(&self.events);
        MeshSnapshot { mesh, nodes, services, secrets, events }
    }
}

/// Putting an event that may be kept as it is leaves a table of such events.
pub proof fn lemma_put_sanitized(s: Seq<EventView>, e: EventView)
    requires
        forall|i: int| 0 <= i < s.len() ==> event::sanitized(#[trigger] s[i]) == s[i],
        event::sanitized(e) == e,
    ensures
        forall|i: int|
            0 <= i < table::put(s, e).len() ==> event::sanitized(
                #[trigger] table::put(s, e)[i],
            ) == table::put(s, e)[i],
{
    let t = table::put(s, e);
    let r = table::rank(s, e.id);
    table::lemma_rank(s, e.id);
    assert forall|i: int| 0 <= i < t.len() implies event::sanitized(#[trigger] t[i]) == t[i] by {
        if table::kept(s, e.id) {
            if i != r {
                assert(t[i] == s[i]);
            }
        } else if i < r {
            assert(t[i] == s[i]);
        } else if i > r {
            assert(t[i] == s[i - 1]);
        }
    }
}

} // verus!
