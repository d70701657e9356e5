//! The records of a mesh: its nodes, services, secrets and events.

use crate::text;
use crate::text::{copy_opt, copy_texts, same};
use vstd::prelude::*;

verus! {

/// A private mesh.
#[derive(Debug)]
pub struct Mesh {
    pub id: String,
    pub created_at: i64,
}

/// A machine that belongs to the mesh.
#[derive(Debug)]
pub struct Node {
    pub id: String,
    pub slug: String,
    pub display_name: String,
    pub addresses: Vec<String>,
    pub daemon_addr: String,
    pub iroh_addr: Option<String>,
    pub public: bool,
    pub created_at: i64,
    pub last_seen_at: Option<i64>,
}

/// A container that runs on a node.
#[derive(Debug)]
pub struct Service {
    pub id: String,
    pub name: String,
    pub node_id: String,
    pub node_slug: String,
    pub node_addr: String,
    pub target: String,
    pub container: String,
    pub port: Option<String>,
    pub command: Vec<String>,
    pub status: ServiceStatus,
    pub published_private: bool,
    pub created_at: i64,
    pub updated_at: i64,
}

/// A value that services get in their environment, kept encrypted.
#[derive(Debug)]
pub struct Secret {
    pub name: String,
    pub ciphertext: String,
    pub created_at: i64,
    pub updated_at: i64,
}

/// Whether a service was last started or stopped.
#[derive(Debug, Clone, Copy, PartialEq, Eq, Structural)]
pub enum ServiceStatus {
    Running,
    Stopped,
}

/// One member of an event's payload. JSON that none of the other variants covers
/// is carried as its text.
#[derive(Debug)]
pub enum Value {
    Null,
    Bool(bool),
    Int(i64),
    Text(String),
    Texts(Vec<String>),
    Raw(String),
}

/// What an event says: a JSON object, or a single value.
#[derive(Debug)]
pub enum Payload {
    Object(Vec<(String, Value)>),
    Plain(Value),
}

/// Something that happened in the mesh.
#[derive(Debug)]
pub struct Event {
    pub id: String,
    pub kind: String,
    pub payload: Payload,
    pub created_at: i64,
}

/// All that a node knows of the mesh, as it is sent to other nodes.
#[derive(Debug)]
pub struct MeshSnapshot {
    pub mesh: Option<Mesh>,
    pub nodes: Vec<Node>,
    pub services: Vec<Service>,
    pub secrets: Vec<Secret>,
    pub events: Vec<Event>,
}

// ---------------------------------------------------------------------------
// Models.

#[verifier::ext_equal]
pub struct MeshView {
    pub id: Seq<char>,
    pub created_at: i64,
}

#[verifier::ext_equal]
pub struct NodeView {
    pub id: Seq<char>,
    pub slug: Seq<char>,
    pub display_name: Seq<char>,
    pub addresses: Seq<Seq<char>>,
    pub daemon_addr: Seq<char>,
    pub iroh_addr: Option<Seq<char>>,
    pub public: bool,
    pub created_at: i64,
    pub last_seen_at: Option<i64>,
}

#[verifier::ext_equal]
pub struct ServiceView {
    pub id: Seq<char>,
    pub name: Seq<char>,
    pub node_id: Seq<char>,
    pub node_slug: Seq<char>,
    pub node_addr: Seq<char>,
    pub target: Seq<char>,
    pub container: Seq<char>,
    pub port: Option<Seq<char>>,
    pub command: Seq<Seq<char>>,
    pub status: ServiceStatus,
    pub published_private: bool,
    pub created_at: i64,
    pub updated_at: i64,
}

#[verifier::ext_equal]
pub struct SecretView {
    pub name: Seq<char>,
    pub ciphertext: Seq<char>,
    pub created_at: i64,
    pub updated_at: i64,
}

#[verifier::ext_equal]
pub enum ValueView {
    Null,
    Bool(bool),
    Int(i64),
    Text(Seq<char>),
    Texts(Seq<Seq<char>>),
    Raw(Seq<char>),
}

#[verifier::ext_equal]
pub enum PayloadView {
    Object(Seq<(Seq<char>, ValueView)>),
    Plain(ValueView),
}

#[verifier::ext_equal]
pub struct EventView {
    pub id: Seq<char>,
    pub kind: Seq<char>,
    pub payload: PayloadView,
    pub created_at: i64,
}

#[verifier::ext_equal]
pub struct SnapshotView {
    pub mesh: Option<MeshView>,
    pub nodes: Seq<NodeView>,
    pub services: Seq<ServiceView>,
    pub secrets: Seq<SecretView>,
    pub events: Seq<EventView>,
}

impl View for Mesh {
    type V = MeshView;

    open spec fn view(&self) -> MeshView {
        MeshView { id: self.id@, created_at: self.created_at }
    }
}

impl View for Node {
    type V = NodeView;

    open spec fn view(&self) -> NodeView {
        NodeView {
            id: self.id@,
            slug: self.slug@,
            display_name: self.display_name@,
            addresses: text::texts(self.addresses@),
            daemon_addr: self.daemon_addr@,
            iroh_addr: text::opt_text(self.iroh_addr),
            public: self.public,
            created_at: self.created_at,
            last_seen_at: self.last_seen_at,
        }
    }
}

impl View for Service {
    type V = ServiceView;

    open spec fn view(&self) -> ServiceView {
        ServiceView {
            id: self.id@,
            name: self.name@,
            node_id: self.node_id@,
            node_slug: self.node_slug@,
            node_addr: self.node_addr@,
            target: self.target@,
            container: self.container@,
            port: text::opt_text(self.port),
            command: text::texts(self.command@),
            status: self.status,
            published_private: self.published_private,
            created_at: self.created_at,
            updated_at: self.updated_at,
        }
    }
}

impl View for Secret {
    type V = SecretView;

    open spec fn view(&self) -> SecretView {
        SecretView {
            name: self.name@,
            ciphertext: self.ciphertext@,
            created_at: self.created_at,
            updated_at: self.updated_at,
        }
    }
}

impl View for Value {
    type V = ValueView;

    open spec fn view(&self) -> ValueView {
        match self {
            Value::Null => ValueView::Null,
            Value::Bool(b) => ValueView::Bool(*b),
            Value::Int(n) => ValueView::Int(*n),
            Value::Text(s) => ValueView::Text(s@),
            Value::Texts(v) => ValueView::Texts(text::texts(v@)),
            Value::Raw(s) => ValueView::Raw(s@),
        }
    }
}

/// The members of a JSON object.
pub open spec fn fields(v: Seq<(String, Value)>) -> Seq<(Seq<char>, ValueView)> {
    v.map_values(|f: (String, Value)| (f.0@, f.1@))
}

impl View for Payload {
    type V = PayloadView;

    open spec fn view(&self) -> PayloadView {
        match self {
            Payload::Object(v) => PayloadView::Object(fields(v@)),
            Payload::Plain(v) => PayloadView::Plain(v@),
        }
    }
}

impl View for Event {
    type V = EventView;

    open spec fn view(&self) -> EventView {
        EventView {
            id: self.id@,
            kind: self.kind@,
            payload: self.payload@,
            created_at: self.created_at,
        }
    }
}

/// The contents of an optional mesh.
pub open spec fn opt_mesh(m: Option<Mesh>) -> Option<MeshView> {
    match m {
        Some(m) => Some(m@),
        None => None,
    }
}

/// The contents of an optional node.
pub open spec fn opt_node(n: Option<Node>) -> Option<NodeView> {
    match n {
        Some(n) => Some(n@),
        None => None,
    }
}

/// The contents of an optional service.
pub open spec fn opt_service(s: Option<Service>) -> Option<ServiceView> {
    match s {
        Some(s) => Some(s@),
        None => None,
    }
}

/// The contents of an optional secret.
pub open spec fn opt_secret(s: Option<Secret>) -> Option<SecretView> {
    match s {
        Some(s) => Some(s@),
        None => None,
    }
}

/// The contents of an optional event.
pub open spec fn opt_event(e: Option<Event>) -> Option<EventView> {
    match e {
        Some(e) => Some(e@),
        None => None,
    }
}

/// The model of a record that is kept under a name.
pub trait Keyed: Sized {
    /// The name.
    spec fn key(self) -> Seq<char>;
}

/// A record that is kept under a name.
pub trait Row: Sized {
    type Shape: Keyed;

    /// The record's contents.
    spec fn shape(&self) -> Self::Shape;

    /// The name under which the record is kept.
    fn name(&self) -> (r: &str)
        ensures
            r@ == self.shape().key(),
    ;

    /// A copy of the record.
    fn twin(&self) -> (r: Self)
        ensures
            r.shape() == self.shape(),
    ;
}

/// The contents of several records.
pub open spec fn shapes<T: Row>(v: Seq<T>) -> Seq<T::Shape> {
    v.map_values(|x: T| x.shape())
}

impl Keyed for NodeView {
    open spec fn key(self) -> Seq<char> {
        self.slug
    }
}

impl Keyed for ServiceView {
    open spec fn key(self) -> Seq<char> {
        self.name
    }
}

impl Keyed for SecretView {
    open spec fn key(self) -> Seq<char> {
        self.name
    }
}

impl Keyed for EventView {
    open spec fn key(self) -> Seq<char> {
        self.id
    }
}

impl Row for Node {
    type Shape = NodeView;

    open spec fn shape(&self) -> NodeView {
        self@
    }

    fn name(&self) -> (r: &str) {
        proof {
            assert(self.shape() == self@);
            assert(self.shape().key() == self.slug@);
        }
        self.slug.as_str()
    }

    fn twin(&self) -> (r: Self) {
        self.clone()
    }
}

impl Row for Service {
    type Shape = ServiceView;

    open spec fn shape(&self) -> ServiceView {
        self@
    }

    fn name(&self) -> (r: &str) {
        proof {
            assert(self.shape() == self@);
            assert(self.shape().key() == self.name@);
        }
        self.name.as_str()
    }

    fn twin(&self) -> (r: Self) {
        self.clone()
    }
}

impl Row for Secret {
    type Shape = SecretView;

    open spec fn shape(&self) -> SecretView {
        self@
    }

    fn name(&self) -> (r: &str) {
        proof {
            assert(self.shape() == self@);
            assert(self.shape().key() == self.name@);
        }
        self.name.as_str()
    }

    fn twin(&self) -> (r: Self) {
        self.clone()
    }
}

impl Row for Event {
    type Shape = EventView;

    open spec fn shape(&self) -> EventView {
        self@
    }

    fn name(&self) -> (r: &str) {
        proof {
            assert(self.shape() == self@);
            assert(self.shape().key() == self.id@);
        }
        self.id.as_str()
    }

    fn twin(&self) -> (r: Self) {
        self.clone()
    }
}

/// A copy of several records.
pub fn copy_rows<T: Row>(v: &Vec<T>) -> (r: Vec<T>)
    ensures
        shapes(r@) == shapes(v@),
{
    let mut out: Vec<T> = Vec::new();
    let mut i: usize = 0;
    while i < v.len()
        invariant
            i <= v.len(),
            shapes(out@) == shapes(v@).take(i as int),
        decreases v.len() - i,
    {
        let row = v[i].twin();
        let ghost before = out@;
        out.push(row);
        proof {
            assert(shapes(out@) == shapes(before).push(row.shape()));
            assert(shapes(v@).take(i + 1) == shapes(v@).take(i as int).push(v@[i as int].shape()));
        }
        i += 1;
    }
    proof {
        assert(shapes(v@).take(v@.len() as int) == shapes(v@));
    }
    out
}

impl View for MeshSnapshot {
    type V = SnapshotView;

    open spec fn view(&self) -> SnapshotView {
        SnapshotView {
            mesh: opt_mesh(self.mesh),
            nodes: shapes(self.nodes@),
            services: shapes(self.services@),
            secrets: shapes(self.secrets@),
            events: shapes(self.events@),
        }
    }
}

// ---------------------------------------------------------------------------
// Copies.

impl Clone for Mesh {
    fn clone(&self) -> (r: Self)
        ensures
            r@ == self@,
    {
        Mesh { id: self.id.clone(), created_at: self.created_at }
    }
}

impl Clone for Node {
    fn clone(&self) -> (r: Self)
        ensures
            r@ == self@,
    {
        Node {
            id: self.id.clone(),
            slug: self.slug.clone(),
            display_name: self.display_name.clone(),
            addresses: copy_texts(&self.addresses),
            daemon_addr: self.daemon_addr.clone(),
            iroh_addr: copy_opt(&self.iroh_addr),
            public: self.public,
            created_at: self.created_at,
            last_seen_at: self.last_seen_at,
        }
    }
}

impl Clone for Service {
    fn clone(&self) -> (r: Self)
        ensures
            r@ == self@,
    {
        Service {
            id: self.id.clone(),
            name: self.name.clone(),
            node_id: self.node_id.clone(),
            node_slug: self.node_slug.clone(),
            node_addr: self.node_addr.clone(),
            target: self.target.clone(),
            container: self.container.clone(),
            port: copy_opt(&self.port),
            command: copy_texts(&self.command),
            status: self.status,
            published_private: self.published_private,
            created_at: self.created_at,
            updated_at: self.updated_at,
        }
    }
}

impl Clone for Secret {
    fn clone(&self) -> (r: Self)
        ensures
            r@ == self@,
    {
        Secret {
            name: self.name.clone(),
            ciphertext: self.ciphertext.clone(),
            created_at: self.created_at,
            updated_at: self.updated_at,
        }
    }
}

impl Clone for Value {
    fn clone(&self) -> (r: Self)
        ensures
            r@ == self@,
    {
        match self {
            Value::Null => Value::Null,
            Value::Bool(b) => Value::Bool(*b),
            Value::Int(n) => Value::Int(*n),
            Value::Text(s) => Value::Text(s.clone()),
            Value::Texts(v) => Value::Texts(copy_texts(v)),
            Value::Raw(s) => Value::Raw(s.clone()),
        }
    }
}

impl Clone for Payload {
    fn clone(&self) -> (r: Self)
        ensures
            r@ == self@,
    {
        match self {
            Payload::Object(v) => Payload::Object(copy_fields(v)),
            Payload::Plain(v) => Payload::Plain(v.clone()),
        }
    }
}

impl Clone for Event {
    fn clone(&self) -> (r: Self)
        ensures
            r@ == self@,
    {
        Event {
            id: self.id.clone(),
            kind: self.kind.clone(),
            payload: self.payload.clone(),
            created_at: self.created_at,
        }
    }
}

fn copy_fields(v: &Vec<(String, Value)>) -> (r: Vec<(String, Value)>)
    ensures
        fields(r@) == fields(v@),
{
    let mut out: Vec<(String, Value)> = Vec::new();
    let mut i: usize = 0;
    while i < v.len()
        invariant
            i <= v.len(),
            fields(out@) == fields(v@).take(i as int),
        decreases v.len() - i,
    {
        let field = (v[i].0.clone(), v[i].1.clone());
        let ghost before = out@;
        out.push(field);
        proof {
            assert(fields(out@) == fields(before).push((field.0@, field.1@)));
            assert(fields(v@).take(i + 1) == fields(v@).take(i as int).push(fields(v@)[i as int]));
        }
        i += 1;
    }
    proof {
        assert(fields(v@).take(v@.len() as int) == fields(v@));
    }
    out
}

impl Clone for MeshSnapshot {
    fn clone(&self) -> (r: Self)
        ensures
            r@ == self@,
    {
        let mesh = match &self.mesh {
            Some(m) => Some(m.clone()),
            None => None,
        };
        MeshSnapshot {
            mesh,
            nodes: copy_rows(&self.nodes),
            services: copy_rows(&self.services),
            secrets: copy_rows(&self.secrets),
            events: copy_rows(&self.events),
        }
    }
}

// ---------------------------------------------------------------------------
// Service status.

/// The word that lists show for a status.
pub open spec fn status_word(s: ServiceStatus) -> Seq<char> {
    match s {
        ServiceStatus::Running => "running"@,
        ServiceStatus::Stopped => "stopped"@,
    }
}

impl ServiceStatus {
    /// The word that lists show for the status.
    pub fn as_str(&self) -> (r: &'static str)
        ensures
            r@ == status_word(*self),
    {
        match self {
            ServiceStatus::Running => "running",
            ServiceStatus::Stopped => "stopped",
        }
    }
}

// ---------------------------------------------------------------------------
// Payloads.

/// What a mesh says of itself in an event.
pub open spec fn mesh_payload(m: MeshView) -> PayloadView {
    PayloadView::Object(
        seq![("created_at"@, ValueView::Int(m.created_at)), ("id"@, ValueView::Text(m.id))],
    )
}

/// A JSON string, or null.
pub open spec fn opt_value(o: Option<Seq<char>>) -> ValueView {
    match o {
        Some(s) => ValueView::Text(s),
        None => ValueView::Null,
    }
}

/// What a node says of itself in an event.
pub open spec fn node_payload(n: NodeView) -> PayloadView {
    PayloadView::Object(
        seq![
            ("addresses"@, ValueView::Texts(n.addresses)),
            ("created_at"@, ValueView::Int(n.created_at)),
            ("daemon_addr"@, ValueView::Text(n.daemon_addr)),
            ("display_name"@, ValueView::Text(n.display_name)),
            ("id"@, ValueView::Text(n.id)),
            ("iroh_addr"@, opt_value(n.iroh_addr)),
            (
                "last_seen_at"@,
                match n.last_seen_at {
                    Some(t) => ValueView::Int(t),
                    None => ValueView::Null,
                },
            ),
            ("public"@, ValueView::Bool(n.public)),
            ("slug"@, ValueView::Text(n.slug)),
        ],
    )
}

/// What a service says of itself in an event, before the event is kept.
pub open spec fn service_payload(s: ServiceView) -> PayloadView {
    PayloadView::Object(
        seq![
            ("command"@, ValueView::Texts(s.command)),
            ("container"@, ValueView::Text(s.container)),
            ("created_at"@, ValueView::Int(s.created_at)),
            ("id"@, ValueView::Text(s.id)),
            ("name"@, ValueView::Text(s.name)),
            ("node_addr"@, ValueView::Text(s.node_addr)),
            ("node_id"@, ValueView::Text(s.node_id)),
            ("node_slug"@, ValueView::Text(s.node_slug)),
            ("port"@, opt_value(s.port)),
            ("published_private"@, ValueView::Bool(s.published_private)),
            ("status"@, ValueView::Text(status_word(s.status))),
            ("target"@, ValueView::Text(s.target)),
            ("updated_at"@, ValueView::Int(s.updated_at)),
        ],
    )
}

/// A payload member that is a JSON string.
pub fn text_value(key: &str, value: &str) -> (r: (String, Value))
    ensures
        r.0@ == key@,
        r.1@ == ValueView::Text(value@),
{
    (key.to_owned(), Value::Text(value.to_owned()))
}

fn opt_json(o: &Option<String>) -> (r: Value)
    ensures
        r@ == opt_value(text::opt_text(*o)),
{
    match o {
        Some(s) => Value::Text(s.clone()),
        None => Value::Null,
    }
}

impl Mesh {
    /// What the mesh says of itself in an event.
    pub fn payload(&self) -> (r: Payload)
        ensures
            r@ == mesh_payload(self@),
    {
        let v: Vec<(String, Value)> = vec![
            ("created_at".to_owned(), Value::Int(self.created_at)),
            text_value("id", self.id.as_str()),
        ];
        proof {
            assert(fields(v@) == mesh_payload(self@)->Object_0);
        }
        Payload::Object(v)
    }
}

impl Node {
    /// What the node says of itself in an event.
    pub fn payload(&self) -> (r: Payload)
        ensures
            r@ == node_payload(self@),
    {
        let v: Vec<(String, Value)> = vec![
            ("addresses".to_owned(), Value::Texts(copy_texts(&self.addresses))),
            ("created_at".to_owned(), Value::Int(self.created_at)),
            text_value("daemon_addr", self.daemon_addr.as_str()),
            text_value("display_name", self.display_name.as_str()),
            text_value("id", self.id.as_str()),
            ("iroh_addr".to_owned(), opt_json(&self.iroh_addr)),
            (
                "last_seen_at".to_owned(),
                match self.last_seen_at {
                    Some(t) => Value::Int(t),
                    None => Value::Null,
                },
            ),
            ("public".to_owned(), Value::Bool(self.public)),
            text_value("slug", self.slug.as_str()),
        ];
        proof {
            assert(fields(v@) == node_payload(self@)->Object_0);
        }
        Payload::Object(v)
    }
}

impl Service {
    /// What the service says of itself in an event, before the event is kept.
    pub fn payload(&self) -> (r: Payload)
        ensures
            r@ == service_payload(self@),
    {
        let v: Vec<(String, Value)> = vec![
            ("command".to_owned(), Value::Texts(copy_texts(&self.command))),
            text_value("container", self.container.as_str()),
            ("created_at".to_owned(), Value::Int(self.created_at)),
            text_value("id", self.id.as_str()),
            text_value("name", self.name.as_str()),
            text_value("node_addr", self.node_addr.as_str()),
            text_value("node_id", self.node_id.as_str()),
            text_value("node_slug", self.node_slug.as_str()),
            ("port".to_owned(), opt_json(&self.port)),
            ("published_private".to_owned(), Value::Bool(self.published_private)),
            text_value("status", self.status.as_str()),
            text_value("target", self.target.as_str()),
            ("updated_at".to_owned(), Value::Int(self.updated_at)),
        ];
        proof {
            assert(fields(v@) == service_payload(self@)->Object_0);
        }
        Payload::Object(v)
    }
}

/// Whether two lists hold the same strings.
pub fn same_texts(a: &Vec<String>, b: &Vec<String>) -> (r: bool)
    ensures
        r == (text::texts(a@) == text::texts(b@)),
{
    if a.len() != b.len() {
        proof {
            assert(text::texts(a@).len() != text::texts(b@).len());
        }
        return false;
    }
    let mut i: usize = 0;
    while i < a.len()
        invariant
            i <= a.len(),
            a.len() == b.len(),
            forall|j: int| 0 <= j < i ==> (#[trigger] text::texts(a@)[j]) == text::texts(b@)[j],
        decreases a.len() - i,
    {
        if !same(a[i].as_str(), b[i].as_str()) {
            proof {
                assert(text::texts(a@)[i as int] != text::texts(b@)[i as int]);
            }
            return false;
        }
        i += 1;
    }
    proof {
        assert(text::texts(a@) == text::texts(b@));
    }
    true
}

impl Value {
    /// Whether two payload members are the same.
    pub fn same(&self, other: &Value) -> (r: bool)
        ensures
            r == (self@ == other@),
    {
        match (self, other) {
            (Value::Null, Value::Null) => true,
            (Value::Bool(a), Value::Bool(b)) => *a == *b,
            (Value::Int(a), Value::Int(b)) => *a == *b,
            (Value::Text(a), Value::Text(b)) => same(a.as_str(), b.as_str()),
            (Value::Texts(a), Value::Texts(b)) => same_texts(a, b),
            (Value::Raw(a), Value::Raw(b)) => same(a.as_str(), b.as_str()),
            _ => false,
        }
    }
}

/// Whether two JSON objects have the same members.
fn same_fields(a: &Vec<(String, Value)>, b: &Vec<(String, Value)>) -> (r: bool)
    ensures
        r == (fields(a@) == fields(b@)),
{
    if a.len() != b.len() {
        proof {
            assert(fields(a@).len() != fields(b@).len());
        }
        return false;
    }
    let mut i: usize = 0;
    while i < a.len()
        invariant
            i <= a.len(),
            a.len() == b.len(),
            forall|j: int| 0 <= j < i ==> (#[trigger] fields(a@)[j]) == fields(b@)[j],
        decreases a.len() - i,
    {
        if !same(a[i].0.as_str(), b[i].0.as_str()) || !a[i].1.same(&b[i].1) {
            proof {
                assert(fields(a@)[i as int] != fields(b@)[i as int]);
            }
            return false;
        }
        i += 1;
    }
    proof {
        assert(fields(a@) == fields(b@));
    }
    true
}

impl Payload {
    /// Whether two payloads are the same.
    pub fn same(&self, other: &Payload) -> (r: bool)
        ensures
            r == (self@ == other@),
    {
        match (self, other) {
            (Payload::Plain(a), Payload::Plain(b)) => a.same(b),
            (Payload::Object(a), Payload::Object(b)) => same_fields(a, b),
            _ => false,
        }
    }
}

} // verus!
