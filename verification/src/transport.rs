//! Reaching other nodes directly or over iroh.

use crate::encoding;
use crate::encoding::{standard_decode, standard_encode};
use crate::model;
use crate::model::{Node, NodeView, Service, ServiceView};
use crate::number;
use crate::number::parse_unsigned;
use crate::rpc;
use crate::rpc::{ResponseView, RpcResponse};
use crate::security::InstalledKey;
use crate::state;
use crate::state::{StateView, ViaState};
use crate::text;
use crate::text::{rsplit_once_char, same, trim, until_char};
use vstd::prelude::*;

verus! {

/// The identifier in the text of an iroh address, as `serde_json` reads an
/// `iroh::EndpointAddr` from it, or what it says of the text.
pub uninterp spec fn endpoint_id(raw: Seq<char>) -> Result<Seq<char>, Seq<char>>;

/// Calls `serde_json::from_str` for an `iroh::EndpointAddr`, and takes the text of
/// its `id`. An error is turned into what it says.
#[verifier::external_body]
pub(crate) fn read_endpoint_id(raw: &str) -> (r: Result<String, String>)
    ensures
        text::text_outcome(r) == endpoint_id(raw@),
{
    let addr: iroh::EndpointAddr = serde_json::from_str(raw).map_err(|error| error.to_string())?;
    Ok(addr.id.to_string())
}

/// Calls `iroh::SecretKey::generate` and takes the bytes of the key. Which key comes
/// is left open; it has 32 bytes.
#[verifier::external_body]
pub(crate) fn generate_iroh_key() -> (r: Vec<u8>)
    ensures
        r@.len() == 32,
{
    iroh::SecretKey::generate().to_bytes().to_vec()
}

/// How another node is reached.
#[derive(Debug, Clone, Copy, PartialEq, Eq, Structural)]
pub enum PeerRoute {
    Auto,
    Direct,
    Iroh,
}

/// A connection to reach a node with.
#[derive(Debug, Clone, Copy, PartialEq, Eq, Structural)]
pub enum Link {
    Direct,
    Iroh,
}

/// What to do after a node was tried.
#[derive(Debug)]
pub enum PeerStep {
    /// The call is over.
    Done(Result<RpcResponse, String>),
    /// Try this one next.
    Try(Link),
}

// ---------------------------------------------------------------------------
// Calls.

/// What a node is tried with first.
pub open spec fn first_link(route: PeerRoute) -> Link {
    match route {
        PeerRoute::Iroh => Link::Iroh,
        _ => Link::Direct,
    }
}

/// What a node is tried with first.
pub fn open_call(route: PeerRoute) -> (r: Link)
    ensures
        r == first_link(route),
{
    match route {
        PeerRoute::Iroh => Link::Iroh,
        _ => Link::Direct,
    }
}

/// That `step` is what follows after a node was tried. `direct_error` is what was
/// said of the direct try, if that came before.
pub open spec fn is_next_step(
    step: PeerStep,
    route: PeerRoute,
    direct_error: Option<Seq<char>>,
    outcome: Result<ResponseView, Seq<char>>,
) -> bool {
    match outcome {
        Ok(x) => step matches PeerStep::Done(d) && rpc::call_view(d) == Ok::<
            ResponseView,
            Seq<char>,
        >(x),
        Err(e) => match direct_error {
            Some(direct) => step matches PeerStep::Done(d) && rpc::call_view(d) == Err::<
                ResponseView,
                Seq<char>,
            >("direct route failed: "@ + direct + "; iroh route failed: "@ + e),
            None => if route == PeerRoute::Auto {
                step == PeerStep::Try(Link::Iroh)
            } else {
                step matches PeerStep::Done(d) && rpc::call_view(d) == Err::<
                    ResponseView,
                    Seq<char>,
                >(e)
            },
        },
    }
}

/// What follows after a node was tried: on the automatic route iroh is tried after a
/// direct try that failed.
pub fn call_node(
    route: PeerRoute,
    direct_error: Option<&str>,
    outcome: Result<RpcResponse, String>,
) -> (r: PeerStep)
    ensures
        is_next_step(r, route, text::opt_str(direct_error), rpc::call_view(outcome)),
{
    match outcome {
        Ok(x) => PeerStep::Done(Ok(x)),
        Err(e) => match direct_error {
            Some(direct) => PeerStep::Done(
                Err(
                    "direct route failed: ".to_owned().concat(direct).concat(
                        "; iroh route failed: ",
                    ).concat(e.as_str()),
                ),
            ),
            None => match route {
                PeerRoute::Auto => PeerStep::Try(Link::Iroh),
                _ => PeerStep::Done(Err(e)),
            },
        },
    }
}

// ---------------------------------------------------------------------------
// Who is who.

/// The identifier that a node has on iroh, if it is known, or what is said of its
/// address.
pub open spec fn iroh_id_outcome(n: NodeView) -> Result<Option<Seq<char>>, Seq<char>> {
    match n.iroh_addr {
        None => Ok(None),
        Some(raw) => match endpoint_id(raw) {
            Ok(id) => Ok(Some(id)),
            Err(e) => Err(e),
        },
    }
}

/// The identifier that a node has on iroh, if it is known.
pub fn node_iroh_id(node: &Node) -> (r: Result<Option<String>, String>)
    ensures
        match r {
            Ok(id) => iroh_id_outcome(node@) == Ok::<Option<Seq<char>>, Seq<char>>(
                text::opt_text(id),
            ),
            Err(e) => iroh_id_outcome(node@) == Err::<Option<Seq<char>>, Seq<char>>(e@),
        },
{
    match &node.iroh_addr {
        None => Ok(None),
        Some(raw) => match read_endpoint_id(raw.as_str()) {
            Ok(id) => Ok(Some(id)),
            Err(e) => Err(e),
        },
    }
}

/// The iroh address of a node, or what is said of a node without one.
pub open spec fn iroh_addr_outcome(n: NodeView) -> Result<Seq<char>, Seq<char>> {
    match n.iroh_addr {
        Some(raw) => Ok(raw),
        None => Err("node '"@ + n.slug + "' has no iroh route yet"@),
    }
}

/// The iroh address of a node.
pub fn node_iroh_addr(node: &Node) -> (r: Result<String, String>)
    ensures
        text::text_outcome(r) == iroh_addr_outcome(node@),
{
    match &node.iroh_addr {
        Some(raw) => Ok(raw.clone()),
        None => Err(
            "node '".to_owned().concat(node.slug.as_str()).concat("' has no iroh route yet"),
        ),
    }
}

/// Whether one of the nodes has this identifier on iroh, where `ids` are the
/// identifiers of the nodes in their order. A node whose address cannot be read
/// ends the search.
pub open spec fn peer_outcome(
    ids: Seq<Result<Option<Seq<char>>, Seq<char>>>,
    remote: Seq<char>,
) -> Result<(), Seq<char>>
    decreases ids.len(),
{
    if ids.len() == 0 {
        Err("unknown iroh peer "@ + remote)
    } else {
        match ids[0] {
            Err(e) => Err(e),
            Ok(id) => if id == Some(remote) {
                Ok(())
            } else {
                peer_outcome(ids.skip(1), remote)
            },
        }
    }
}

/// The identifiers of nodes on iroh.
pub open spec fn iroh_ids(nodes: Seq<NodeView>) -> Seq<Result<Option<Seq<char>>, Seq<char>>> {
    nodes.map_values(|n: NodeView| iroh_id_outcome(n))
}

/// Lets a peer in that is a node of the mesh, and no other.
pub fn authorize_iroh_peer(state: &ViaState, remote: &str) -> (r: Result<(), String>)
    ensures
        text::unit_outcome(r) == peer_outcome(iroh_ids(state@.nodes), remote@),
{
    let nodes = state.nodes();
    let ghost all = iroh_ids(state@.nodes);
    let mut i: usize = 0;
    proof {
        assert(all.skip(0) == all);
    }
    while i < nodes.len()
        invariant
            i <= nodes.len(),
            all == iroh_ids(model::shapes(nodes@)),
            all == iroh_ids(state@.nodes),
            peer_outcome(all, remote@) == peer_outcome(all.skip(i as int), remote@),
        decreases nodes.len() - i,
    {
        proof {
            assert(all.skip(i as int)[0] == iroh_id_outcome(nodes@[i as int]@));
            assert(all.skip(i as int).skip(1) == all.skip(i + 1));
        }
        match node_iroh_id(&nodes[i]) {
            Err(e) => return Err(e),
            Ok(Some(id)) => {
                if same(id.as_str(), remote) {
                    return Ok(());
                }
            },
            Ok(None) => {},
        }
        i += 1;
    }
    Err("unknown iroh peer ".to_owned().concat(remote))
}

/// A peer that no node of the mesh is, is never let in.
pub proof fn law_strangers_are_refused(
    ids: Seq<Result<Option<Seq<char>>, Seq<char>>>,
    remote: Seq<char>,
)
    requires
        forall|i: int|
            0 <= i < ids.len() ==> #[trigger] ids[i] != Ok::<Option<Seq<char>>, Seq<char>>(
                Some(remote),
            ),
    ensures
        peer_outcome(ids, remote) is Err,
    decreases ids.len(),
{
    if ids.len() > 0 {
        assert(ids[0] != Ok::<Option<Seq<char>>, Seq<char>>(Some(remote)));
        assert forall|i: int| 0 <= i < ids.skip(1).len() implies #[trigger] ids.skip(1)[i] != Ok::<
            Option<Seq<char>>,
            Seq<char>,
        >(Some(remote)) by {
            assert(ids[i + 1] != Ok::<Option<Seq<char>>, Seq<char>>(Some(remote)));
        }
        law_strangers_are_refused(ids.skip(1), remote);
    }
}

/// The state after the node learned its own iroh address.
pub open spec fn with_own_addr(st: StateView, addr: Seq<char>, now: i64) -> StateView {
    match state::local(st) {
        Ok(n) => state::persisted(
            state::with_node(
                st,
                NodeView { iroh_addr: Some(addr), last_seen_at: Some(now), ..n },
            ),
        ),
        Err(_) => st,
    }
}

/// Keeps the node's own iroh address, if the node is initialized.
pub fn update_local_iroh_addr(state: &mut ViaState, addr: String, now: i64)
    requires
        old(state).wf(),
    ensures
        final(state)@ == with_own_addr(old(state)@, addr@, now),
        final(state).wf(),
{
    if let Ok(local) = state.local_node() {
        let mut local = local;
        local.iroh_addr = Some(addr);
        local.last_seen_at = Some(now);
        state.upsert_node(&local);
        state.persist();
    }
}

// ---------------------------------------------------------------------------
// The node's key on iroh.

/// The key that the text of an iroh key file stands for, or what is said of it.
pub open spec fn iroh_key_outcome(encoded: Seq<char>) -> Result<Seq<u8>, Seq<char>> {
    match encoding::standard_decoded(text::trimmed(encoded)) {
        Err(e) => Err(e),
        Ok(key) => if key.len() == 32 {
            Ok(key)
        } else {
            Err("invalid Via iroh key length"@)
        },
    }
}

/// The key in the text of an iroh key file, once its base64 was read.
pub fn checked_iroh_key(decoded: Result<Vec<u8>, String>) -> (r: Result<Vec<u8>, String>)
    ensures
        text::bytes_outcome(r) == (match text::bytes_outcome(decoded) {
            Err(e) => Err::<Seq<u8>, Seq<char>>(e),
            Ok(key) => if key.len() == 32 {
                Ok(key)
            } else {
                Err("invalid Via iroh key length"@)
            },
        }),
{
    match decoded {
        Err(e) => Err(e),
        Ok(key) => if key.len() == 32 {
            Ok(key)
        } else {
            Err("invalid Via iroh key length".to_owned())
        },
    }
}

/// The node's key on iroh: the one in the key file, or a new one. `file` is the text
/// of the file, if there is one. A new key is read back from its file.
pub fn ensure_iroh_key(file: Option<&str>) -> (r: Result<InstalledKey, String>)
    ensures
        match file {
            Some(f) => match r {
                Ok(k) => iroh_key_outcome(f@) == Ok::<Seq<u8>, Seq<char>>(k.key@) && k.file is None,
                Err(e) => iroh_key_outcome(f@) == Err::<Seq<u8>, Seq<char>>(e@),
            },
            None => r matches Ok(k) && k.key@.len() == 32 && k.file is Some && k.file->Some_0@
                == encoding::standard_encoded(k.key@) && iroh_key_outcome(k.file->Some_0@) == Ok::<
                Seq<u8>,
                Seq<char>,
            >(k.key@),
        },
{
    match file {
        Some(f) => match checked_iroh_key(standard_decode(trim(f))) {
            Ok(key) => Ok(InstalledKey { key, file: None }),
            Err(e) => Err(e),
        },
        None => {
            let key = generate_iroh_key();
            let encoded = standard_encode(&key);
            proof {
                encoding::lemma_trimmed_standard(encoded@);
            }
            Ok(InstalledKey { key, file: Some(encoded) })
        },
    }
}

// ---------------------------------------------------------------------------
// Forwarding to services.

/// The port on the host in a published port, or what is said of it.
pub open spec fn host_port_outcome(port: Seq<char>) -> Result<u16, Seq<char>> {
    let raw = text::until(port, ':');
    match number::read_unsigned(raw, u16::MAX as int) {
        Some(n) => Ok(n as u16),
        None => Err("invalid service host port '"@ + raw + "'"@),
    }
}

/// The port on the host in a published port.
pub fn host_port(port: &str) -> (r: Result<u16, String>)
    ensures
        match r {
            Ok(n) => host_port_outcome(port@) == Ok::<u16, Seq<char>>(n),
            Err(e) => host_port_outcome(port@) == Err::<u16, Seq<char>>(e@),
        },
{
    let raw = until_char(port, ':');
    match parse_unsigned(raw, 65535) {
        Some(n) => Ok(n as u16),
        None => Err("invalid service host port '".to_owned().concat(raw).concat("'")),
    }
}

/// What is needed to forward connections to a service.
#[derive(Debug)]
pub struct ProxyPlan {
    pub node: Node,
    pub port: u16,
    pub link: Link,
}

/// The node, the port and the connection for forwarding to a service, or what is
/// said of it.
pub open spec fn proxy_outcome(st: StateView, service: ServiceView, route: PeerRoute) -> Result<
    (NodeView, u16, Link),
    Seq<char>,
> {
    match state::node_with_id(st.nodes, service.node_id) {
        None => Err("service node '"@ + service.node_slug + "' is missing"@),
        Some(node) => match state::local(st) {
            Err(e) => Err(e),
            Ok(own) => match service.port {
                None => Err("service '"@ + service.name + "' has no published port"@),
                Some(p) => match host_port_outcome(p) {
                    Err(e) => Err(e),
                    Ok(n) => Ok(
                        (
                            node,
                            n,
                            if own.id == node.id || route == PeerRoute::Direct {
                                Link::Direct
                            } else {
                                Link::Iroh
                            },
                        ),
                    ),
                },
            },
        },
    }
}

/// Prepares forwarding connections to a service: directly if it runs here or that is
/// asked for, and else over iroh.
pub fn proxy_service(state: &ViaState, service: &Service, route: PeerRoute) -> (r: Result<
    ProxyPlan,
    String,
>)
    ensures
        match r {
            Ok(p) => proxy_outcome(state@, service@, route) == Ok::<
                (NodeView, u16, Link),
                Seq<char>,
            >((p.node@, p.port, p.link)),
            Err(e) => proxy_outcome(state@, service@, route) == Err::<
                (NodeView, u16, Link),
                Seq<char>,
            >(e@),
        },
{
    let node = match state.node_by_id(service.node_id.as_str()) {
        Some(n) => n,
        None => return Err(
            "service node '".to_owned().concat(service.node_slug.as_str()).concat("' is missing"),
        ),
    };
    let own = match state.local_node() {
        Ok(n) => n,
        Err(e) => return Err(e),
    };
    let port = match &service.port {
        Some(p) => p,
        None => return Err(
            "service '".to_owned().concat(service.name.as_str()).concat("' has no published port"),
        ),
    };
    let port: u16 = match host_port(port.as_str()) {
        Ok(n) => n,
        Err(e) => return Err(e),
    };
    let here = same(own.id.as_str(), node.id.as_str());
    let direct = match route {
        PeerRoute::Direct => true,
        _ => false,
    };
    let link = if here || direct {
        Link::Direct
    } else {
        Link::Iroh
    };
    Ok(ProxyPlan { node, port, link })
}

/// The host that a node is reached at directly.
pub open spec fn direct_host_of(daemon_addr: Seq<char>) -> Seq<char> {
    match text::rsplit_once(daemon_addr, ':') {
        Some(p) => p.0,
        None => "127.0.0.1"@,
    }
}

/// The host that a node is reached at directly.
pub fn proxy_direct(node: &Node) -> (r: String)
    ensures
        r@ == direct_host_of(node@.daemon_addr),
{
    match rsplit_once_char(node.daemon_addr.as_str(), ':') {
        Some(p) => p.0.to_owned(),
        None => "127.0.0.1".to_owned(),
    }
}

// ---------------------------------------------------------------------------
// The first line of a forwarded connection.

/// The most bytes that the first line of a forwarded connection may have.
pub const LONGEST_HEADER: usize = 0x1_0000;

/// A line that is read byte by byte.
#[derive(Debug)]
pub struct HeaderReader {
    line: Vec<u8>,
}

/// What reading on gave.
#[derive(Debug)]
pub enum HeaderStep {
    /// The line goes on.
    More,
    /// The line is over.
    Line(Vec<u8>),
    /// There is no such line.
    Failed(String),
}

impl View for HeaderReader {
    type V = Seq<u8>;

    closed spec fn view(&self) -> Seq<u8> {
        self.line@
    }
}

impl HeaderReader {
    /// Before the first byte.
    pub fn new() -> (r: HeaderReader)
        ensures
            r@ == Seq::<u8>::empty(),
    {
        HeaderReader { line: Vec::new() }
    }

    /// Takes what was read: a byte, or the end.
    pub fn read_json_line(&mut self, byte: Option<u8>) -> (r: HeaderStep)
        ensures
            match byte {
                None => final(self)@ == old(self)@ && (r matches HeaderStep::Failed(e) && e@
                    == "iroh stream ended before proxy request"@),
                Some(b) => if b == 10 {
                    final(self)@ == old(self)@ && (r matches HeaderStep::Line(l) && l@
                        == old(self)@)
                } else {
                    final(self)@ == old(self)@.push(b) && if old(self)@.len() + 1
                        > LONGEST_HEADER {
                        r matches HeaderStep::Failed(e) && e@ == "proxy request header too large"@
                    } else {
                        r is More
                    }
                },
            },
    {
        match byte {
            None => HeaderStep::Failed("iroh stream ended before proxy request".to_owned()),
            Some(b) => if b == 10 {
                HeaderStep::Line(self.line.clone())
            } else {
                self.line.push(b);
                if self.line.len() > LONGEST_HEADER {
                    HeaderStep::Failed("proxy request header too large".to_owned())
                } else {
                    HeaderStep::More
                }
            },
        }
    }
}

} // verus!
