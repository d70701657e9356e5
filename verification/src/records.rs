//! What a store holds of a node's state after changes were made to it, and how that is
//! read from it again.

use crate::model;
use crate::model::{Event, EventView, Keyed, Mesh, MeshView, Node, NodeView, Row};
use crate::model::{Secret, SecretView, Service, ServiceView};
use crate::state;
use crate::state::{event_key, node_key, secret_key, service_key};
use crate::state::{RecordsView, Stored, StoredRecords, StoredView, WriteView};
use crate::state::{
    EVENT_INDEX_KEY, LOCAL_NODE_KEY, MESH_KEY, NODE_INDEX_KEY, SECRET_INDEX_KEY, SERVICE_INDEX_KEY,
};
use crate::state_laws;
use crate::text;
use vstd::prelude::*;

verus! {

/// What a value in the store is of.
#[derive(Debug, Clone, Copy, PartialEq, Eq, Structural)]
pub enum StoredKind {
    Mesh,
    Text,
    Names,
    Node,
    Service,
    Secret,
    Event,
}

/// What comes next when a store is read.
#[derive(Debug)]
pub enum ReadStep {
    /// Read what is kept under `key`, which is of this kind.
    Read { key: String, kind: StoredKind },
    /// This is what the store holds.
    Finished(StoredRecords),
}

#[verifier::ext_equal]
pub enum ReadView {
    Read { key: Seq<char>, kind: StoredKind },
    Finished(RecordsView),
}

impl View for ReadStep {
    type V = ReadView;

    open spec fn view(&self) -> ReadView {
        match self {
            ReadStep::Read { key, kind } => ReadView::Read { key: key@, kind: *kind },
            ReadStep::Finished(r) => ReadView::Finished(r@),
        }
    }
}

// ---------------------------------------------------------------------------
// What a store holds.

/// What is kept under `key`.
pub open spec fn at(store: Map<Seq<char>, StoredView>, key: Seq<char>) -> Option<StoredView> {
    if store.contains_key(key) {
        Some(store[key])
    } else {
        None
    }
}

/// What a store holds after one change.
pub open spec fn changed(store: Map<Seq<char>, StoredView>, change: WriteView) -> Map<
    Seq<char>,
    StoredView,
> {
    match change {
        WriteView::Put { key, value } => store.insert(key, value),
        WriteView::Delete { key } => store.remove(key),
        WriteView::CreateEventTable => store,
        WriteView::InsertEventRow(_) => store,
        WriteView::DeleteEventRow(_) => store,
        WriteView::Save => store,
        WriteView::Close => store,
    }
}

/// What a store holds after these changes, one after the other.
pub open spec fn followed(store: Map<Seq<char>, StoredView>, changes: Seq<WriteView>) -> Map<
    Seq<char>,
    StoredView,
>
    decreases changes.len(),
{
    if changes.len() == 0 {
        store
    } else {
        changed(followed(store, changes.drop_last()), changes.last())
    }
}

/// The rows of the event table after one change, by the identifiers of their events.
pub open spec fn row_changed(rows: Map<Seq<char>, EventView>, change: WriteView) -> Map<
    Seq<char>,
    EventView,
> {
    match change {
        WriteView::InsertEventRow(e) => if rows.contains_key(e.id) {
            rows
        } else {
            rows.insert(e.id, e)
        },
        WriteView::DeleteEventRow(id) => rows.remove(id),
        WriteView::Put { .. } => rows,
        WriteView::Delete { .. } => rows,
        WriteView::CreateEventTable => rows,
        WriteView::Save => rows,
        WriteView::Close => rows,
    }
}

/// The rows of the event table after these changes, one after the other.
pub open spec fn rows_followed(rows: Map<Seq<char>, EventView>, changes: Seq<WriteView>) -> Map<
    Seq<char>,
    EventView,
>
    decreases changes.len(),
{
    if changes.len() == 0 {
        rows
    } else {
        row_changed(rows_followed(rows, changes.drop_last()), changes.last())
    }
}

/// A record that the store keeps under a key made from its name, with the names of all
/// records of its kind under the key of an index.
pub trait Shelved: Keyed {
    /// The key of the record called `name`.
    spec fn place(name: Seq<char>) -> Seq<char>;

    /// The key of the index.
    spec fn index_place() -> Seq<char>;

    /// What a value of this kind is of.
    spec fn kind() -> StoredKind;

    /// The record as it is stored.
    spec fn stored(self) -> StoredView;

    /// The record in a stored value, if it is one of this kind.
    spec fn taken(v: StoredView) -> Option<Self>;

    proof fn lemma_taken(self)
        ensures
            Self::taken(self.stored()) == Some(self),
    ;

    proof fn lemma_places(a: Seq<char>, b: Seq<char>)
        ensures
            Self::place(a) == Self::place(b) ==> a == b,
            Self::place(a) != Self::index_place(),
    ;
}

/// The names that an index holds.
pub open spec fn names_of(v: Option<StoredView>) -> Seq<Seq<char>> {
    match v {
        Some(StoredView::Names(names)) => names,
        _ => Seq::empty(),
    }
}

/// The records among what was read, in order.
pub open spec fn gathered<K: Shelved>(read: Seq<Option<StoredView>>) -> Seq<K>
    decreases read.len(),
{
    if read.len() == 0 {
        Seq::empty()
    } else {
        let before = gathered::<K>(read.drop_last());
        match taken_from::<K>(read.last()) {
            Some(r) => before.push(r),
            None => before,
        }
    }
}

/// The record in what was read.
pub open spec fn taken_from<K: Shelved>(v: Option<StoredView>) -> Option<K> {
    match v {
        Some(v) => K::taken(v),
        None => None,
    }
}

/// What the store keeps under the keys of these names.
pub open spec fn asked<K: Shelved>(
    store: Map<Seq<char>, StoredView>,
    names: Seq<Seq<char>>,
) -> Seq<Option<StoredView>> {
    names.map_values(|name: Seq<char>| at(store, K::place(name)))
}

/// The records that the index names, in its order. Names without a record are passed
/// over.
pub open spec fn shelf<K: Shelved>(store: Map<Seq<char>, StoredView>) -> Seq<K> {
    gathered::<K>(asked::<K>(store, names_of(at(store, K::index_place()))))
}

/// The mesh in a stored value.
pub open spec fn mesh_of(v: Option<StoredView>) -> Option<MeshView> {
    match v {
        Some(StoredView::Mesh(m)) => Some(m),
        _ => None,
    }
}

/// The text in a stored value.
pub open spec fn text_of(v: Option<StoredView>) -> Option<Seq<char>> {
    match v {
        Some(StoredView::Text(s)) => Some(s),
        _ => None,
    }
}

/// What is read from a store.
pub open spec fn records_in(store: Map<Seq<char>, StoredView>) -> RecordsView {
    RecordsView {
        mesh: mesh_of(at(store, MESH_KEY@)),
        local_node_id: text_of(at(store, LOCAL_NODE_KEY@)),
        nodes: shelf::<NodeView>(store),
        services: shelf::<ServiceView>(store),
        secrets: shelf::<SecretView>(store),
        events: shelf::<EventView>(store),
    }
}

impl Shelved for NodeView {
    open spec fn place(name: Seq<char>) -> Seq<char> {
        state::node_key_text(name)
    }

    open spec fn index_place() -> Seq<char> {
        NODE_INDEX_KEY@
    }

    open spec fn kind() -> StoredKind {
        StoredKind::Node
    }

    open spec fn stored(self) -> StoredView {
        StoredView::Node(self)
    }

    open spec fn taken(v: StoredView) -> Option<NodeView> {
        match v {
            StoredView::Node(n) => Some(n),
            _ => None,
        }
    }

    proof fn lemma_taken(self) {
    }

    proof fn lemma_places(a: Seq<char>, b: Seq<char>) {
        lemma_keys(a, b);
    }
}

impl Shelved for ServiceView {
    open spec fn place(name: Seq<char>) -> Seq<char> {
        state::service_key_text(name)
    }

    open spec fn index_place() -> Seq<char> {
        SERVICE_INDEX_KEY@
    }

    open spec fn kind() -> StoredKind {
        StoredKind::Service
    }

    open spec fn stored(self) -> StoredView {
        StoredView::Service(self)
    }

    open spec fn taken(v: StoredView) -> Option<ServiceView> {
        match v {
            StoredView::Service(s) => Some(s),
            _ => None,
        }
    }

    proof fn lemma_taken(self) {
    }

    proof fn lemma_places(a: Seq<char>, b: Seq<char>) {
        lemma_keys(a, b);
    }
}

impl Shelved for SecretView {
    open spec fn place(name: Seq<char>) -> Seq<char> {
        state::secret_key_text(name)
    }

    open spec fn index_place() -> Seq<char> {
        SECRET_INDEX_KEY@
    }

    open spec fn kind() -> StoredKind {
        StoredKind::Secret
    }

    open spec fn stored(self) -> StoredView {
        StoredView::Secret(self)
    }

    open spec fn taken(v: StoredView) -> Option<SecretView> {
        match v {
            StoredView::Secret(s) => Some(s),
            _ => None,
        }
    }

    proof fn lemma_taken(self) {
    }

    proof fn lemma_places(a: Seq<char>, b: Seq<char>) {
        lemma_keys(a, b);
    }
}

impl Shelved for EventView {
    open spec fn place(name: Seq<char>) -> Seq<char> {
        state::event_key_text(name)
    }

    open spec fn index_place() -> Seq<char> {
        EVENT_INDEX_KEY@
    }

    open spec fn kind() -> StoredKind {
        StoredKind::Event
    }

    open spec fn stored(self) -> StoredView {
        StoredView::Event(self)
    }

    open spec fn taken(v: StoredView) -> Option<EventView> {
        match v {
            StoredView::Event(e) => Some(e),
            _ => None,
        }
    }

    proof fn lemma_taken(self) {
    }

    proof fn lemma_places(a: Seq<char>, b: Seq<char>) {
        lemma_keys(a, b);
    }
}

proof fn lemma_keys(a: Seq<char>, b: Seq<char>)
    ensures
        state::node_key_text(a) == state::node_key_text(b) ==> a == b,
        state::service_key_text(a) == state::service_key_text(b) ==> a == b,
        state::secret_key_text(a) == state::secret_key_text(b) ==> a == b,
        state::event_key_text(a) == state::event_key_text(b) ==> a == b,
        state::node_key_text(a) != NODE_INDEX_KEY@,
        state::service_key_text(a) != SERVICE_INDEX_KEY@,
        state::secret_key_text(a) != SECRET_INDEX_KEY@,
        state::event_key_text(a) != EVENT_INDEX_KEY@,
{
    state_laws::law_keys_tell_names(a, b);
    state_laws::law_keys_are_apart(a, b);
    assert(state_laws::is_fixed_key(NODE_INDEX_KEY@));
    assert(state_laws::is_fixed_key(SERVICE_INDEX_KEY@));
    assert(state_laws::is_fixed_key(SECRET_INDEX_KEY@));
    assert(state_laws::is_fixed_key(EVENT_INDEX_KEY@));
}

// ---------------------------------------------------------------------------
// Reading a store.

/// What was read so far.
pub open spec fn read_view(read: Seq<Option<Stored>>) -> Seq<Option<StoredView>> {
    read.map_values(|v: Option<Stored>| opt_stored(v))
}

/// What was read under one key.
pub open spec fn opt_stored(v: Option<Stored>) -> Option<StoredView> {
    match v {
        Some(v) => Some(v@),
        None => None,
    }
}

/// Where the reading of the records of one kind stands.
#[verifier::ext_equal]
pub enum Stand {
    /// What is kept under this key comes next.
    Wanted(Seq<char>, StoredKind),
    /// All were read; what follows them starts here.
    Past(int),
}

/// Where the reading of the records of one kind stands, if it starts at `p`: the index
/// comes first, and then the record of each name in it.
pub open spec fn stand<K: Shelved>(read: Seq<Option<StoredView>>, p: int) -> Stand {
    let names = names_of(read[p]);
    if read.len() <= p {
        Stand::Wanted(K::index_place(), StoredKind::Names)
    } else if read.len() - p - 1 < names.len() {
        Stand::Wanted(K::place(names[read.len() - p - 1]), K::kind())
    } else {
        Stand::Past(p + 1 + names.len())
    }
}

/// The records of one kind, read from `p` on up to `q`.
pub open spec fn section<K: Shelved>(read: Seq<Option<StoredView>>, p: int, q: int) -> Seq<K> {
    gathered::<K>(read.subrange(p + 1, q))
}

/// What comes next after this was read: the mesh comes first, then the identifier of the
/// local node, and then the nodes, services, secrets and events.
pub open spec fn next_read_of(read: Seq<Option<StoredView>>) -> ReadView {
    if read.len() == 0 {
        ReadView::Read { key: MESH_KEY@, kind: StoredKind::Mesh }
    } else if read.len() == 1 {
        ReadView::Read { key: LOCAL_NODE_KEY@, kind: StoredKind::Text }
    } else {
        match stand::<NodeView>(read, 2) {
            Stand::Wanted(key, kind) => ReadView::Read { key, kind },
            Stand::Past(a) => match stand::<ServiceView>(read, a) {
                Stand::Wanted(key, kind) => ReadView::Read { key, kind },
                Stand::Past(b) => match stand::<SecretView>(read, b) {
                    Stand::Wanted(key, kind) => ReadView::Read { key, kind },
                    Stand::Past(c) => match stand::<EventView>(read, c) {
                        Stand::Wanted(key, kind) => ReadView::Read { key, kind },
                        Stand::Past(d) => ReadView::Finished(
                            RecordsView {
                                mesh: mesh_of(read[0]),
                                local_node_id: text_of(read[1]),
                                nodes: section::<NodeView>(read, 2, a),
                                services: section::<ServiceView>(read, a, b),
                                secrets: section::<SecretView>(read, b, c),
                                events: section::<EventView>(read, c, d),
                            },
                        ),
                    },
                },
            },
        }
    }
}

/// A record that is read from the store.
pub trait Readable: Row where Self::Shape: Shelved {
    /// The key of the record called `name`.
    fn place_of(name: &str) -> (r: String)
        ensures
            r@ == <Self::Shape as Shelved>::place(name@),
    ;

    /// The key of the index.
    fn index_key() -> (r: String)
        ensures
            r@ == <Self::Shape as Shelved>::index_place(),
    ;

    /// What a value of this kind is of.
    fn kind_of() -> (r: StoredKind)
        ensures
            r == <Self::Shape as Shelved>::kind(),
    ;

    /// The record in what was read.
    fn found_in(v: &Option<Stored>) -> (r: Option<Self>)
        ensures
            match r {
                Some(x) => taken_from::<Self::Shape>(opt_stored(*v)) == Some(x.shape()),
                None => taken_from::<Self::Shape>(opt_stored(*v)) is None,
            },
    ;
}

impl Readable for Node {
    fn place_of(name: &str) -> (r: String) {
        node_key(name)
    }

    fn index_key() -> (r: String) {
        NODE_INDEX_KEY.to_owned()
    }

    fn kind_of() -> (r: StoredKind) {
        StoredKind::Node
    }

    fn found_in(v: &Option<Stored>) -> (r: Option<Self>) {
        match v {
            Some(Stored::Node(x)) => Some(x.clone()),
            _ => None,
        }
    }
}

impl Readable for Service {
    fn place_of(name: &str) -> (r: String) {
        service_key(name)
    }

    fn index_key() -> (r: String) {
        SERVICE_INDEX_KEY.to_owned()
    }

    fn kind_of() -> (r: StoredKind) {
        StoredKind::Service
    }

    fn found_in(v: &Option<Stored>) -> (r: Option<Self>) {
        match v {
            Some(Stored::Service(x)) => Some(x.clone()),
            _ => None,
        }
    }
}

impl Readable for Secret {
    fn place_of(name: &str) -> (r: String) {
        secret_key(name)
    }

    fn index_key() -> (r: String) {
        SECRET_INDEX_KEY.to_owned()
    }

    fn kind_of() -> (r: StoredKind) {
        StoredKind::Secret
    }

    fn found_in(v: &Option<Stored>) -> (r: Option<Self>) {
        match v {
            Some(Stored::Secret(x)) => Some(x.clone()),
            _ => None,
        }
    }
}

impl Readable for Event {
    fn place_of(name: &str) -> (r: String) {
        event_key(name)
    }

    fn index_key() -> (r: String) {
        EVENT_INDEX_KEY.to_owned()
    }

    fn kind_of() -> (r: StoredKind) {
        StoredKind::Event
    }

    fn found_in(v: &Option<Stored>) -> (r: Option<Self>) {
        match v {
            Some(Stored::Event(x)) => Some(x.clone()),
            _ => None,
        }
    }
}

/// Where the reading of the records of one kind stands.
enum Progress {
    Wanted(String, StoredKind),
    Past(usize),
}

impl View for Progress {
    type V = Stand;

    closed spec fn view(&self) -> Stand {
        match self {
            Progress::Wanted(key, kind) => Stand::Wanted(key@, *kind),
            Progress::Past(p) => Stand::Past(*p as int),
        }
    }
}

fn progress<T: Readable>(read: &Vec<Option<Stored>>, p: usize) -> (r: Progress) where
    T::Shape: Shelved,

    requires
        p <= read@.len(),
    ensures
        r@ == stand::<T::Shape>(read_view(read@), p as int),
        r matches Progress::Past(q) ==> p < q <= read@.len(),
{
    let ghost all = read_view(read@);
    if read.len() <= p {
        return Progress::Wanted(T::index_key(), StoredKind::Names);
    }
    let i: usize = read.len() - p - 1;
    proof {
        assert(all[p as int] == opt_stored(read@[p as int]));
    }
    match &read[p] {
        Some(Stored::Names(names)) => {
            if i < names.len() {
                proof {
                    assert(text::texts(names@)[i as int] == names@[i as int]@);
                }
                Progress::Wanted(T::place_of(names[i].as_str()), T::kind_of())
            } else {
                Progress::Past(p + 1 + names.len())
            }
        },
        _ => Progress::Past(p + 1),
    }
}

/// The records of one kind, read from `p` on up to `q`.
fn gather<T: Readable>(read: &Vec<Option<Stored>>, p: usize, q: usize) -> (r: Vec<T>) where
    T::Shape: Shelved,

    requires
        p < q <= read@.len(),
    ensures
        model::shapes(r@) == section::<T::Shape>(read_view(read@), p as int, q as int),
{
    let ghost all = read_view(read@);
    let mut out: Vec<T> = Vec::new();
    let mut i: usize = p + 1;
    proof {
        assert(model::shapes(out@) =~= section::<T::Shape>(all, p as int, i as int));
    }
    while i < q
        invariant
            p < i <= q <= read@.len(),
            all == read_view(read@),
            model::shapes(out@) == section::<T::Shape>(all, p as int, i as int),
        decreases q - i,
    {
        let ghost before = out@;
        proof {
            let next = all.subrange(p + 1, i + 1);
            assert(next.drop_last() == all.subrange(p + 1, i as int));
            assert(next.last() == opt_stored(read@[i as int]));
        }
        if let Some(x) = T::found_in(&read[i]) {
            out.push(x);
            proof {
                assert(model::shapes(out@) == model::shapes(before).push(x.shape()));
            }
        }
        i += 1;
    }
    out
}

fn mesh_in(v: &Option<Stored>) -> (r: Option<Mesh>)
    ensures
        model::opt_mesh(r) == mesh_of(opt_stored(*v)),
{
    match v {
        Some(Stored::Mesh(m)) => Some(m.clone()),
        _ => None,
    }
}

fn text_in(v: &Option<Stored>) -> (r: Option<String>)
    ensures
        text::opt_text(r) == text_of(opt_stored(*v)),
{
    match v {
        Some(Stored::Text(s)) => Some(s.clone()),
        _ => None,
    }
}

/// Finds out what comes next after this was read from a store, in order.
pub fn next_read(read: &Vec<Option<Stored>>) -> (r: ReadStep)
    ensures
        r@ == next_read_of(read_view(read@)),
{
    let ghost all = read_view(read@);
    if read.len() == 0 {
        return ReadStep::Read { key: MESH_KEY.to_owned(), kind: StoredKind::Mesh };
    }
    if read.len() == 1 {
        return ReadStep::Read { key: LOCAL_NODE_KEY.to_owned(), kind: StoredKind::Text };
    }
    let a: usize = match progress::<Node>(read, 2) {
        Progress::Wanted(key, kind) => return ReadStep::Read { key, kind },
        Progress::Past(a) => a,
    };
    let b: usize = match progress::<Service>(read, a) {
        Progress::Wanted(key, kind) => return ReadStep::Read { key, kind },
        Progress::Past(b) => b,
    };
    let c: usize = match progress::<Secret>(read, b) {
        Progress::Wanted(key, kind) => return ReadStep::Read { key, kind },
        Progress::Past(c) => c,
    };
    let d: usize = match progress::<Event>(read, c) {
        Progress::Wanted(key, kind) => return ReadStep::Read { key, kind },
        Progress::Past(d) => d,
    };
    proof {
        assert(all[0] == opt_stored(read@[0]));
        assert(all[1] == opt_stored(read@[1]));
    }
    ReadStep::Finished(
        StoredRecords {
            mesh: mesh_in(&read[0]),
            local_node_id: text_in(&read[1]),
            nodes: gather::<Node>(read, 2, a),
            services: gather::<Service>(read, a, b),
            secrets: gather::<Secret>(read, b, c),
            events: gather::<Event>(read, c, d),
        },
    )
}

} // verus!
