//! Moving files between nodes.

use crate::cli::RouteMode;
use crate::commands;
use crate::hub::{HubNode, HubNodeView};
use crate::model;
use crate::model::{text_value, Node, NodeView, Payload, PayloadView, Value, ValueView};
use crate::process;
use crate::process::{program3, shell_quote, Run, RunView};
use crate::routes;
use crate::routes::{resolve_node_for_route, Resolved, ResolvedView};
use crate::rpc::{RequestView, RpcRequest};
use crate::state;
use crate::state::{StateView, ViaState};
use crate::text;
use crate::text::{contains_char, rsplit_once_char, same, split_once_char};
use vstd::prelude::*;

verus! {

/// Where a file is moved from or to: a path here, or one on a node.
#[derive(Debug)]
pub enum MoveEndpoint {
    Local(String),
    Remote { node: String, path: String },
}

#[verifier::ext_equal]
pub enum EndpointView {
    Local(Seq<char>),
    Remote { node: Seq<char>, path: Seq<char> },
}

impl View for MoveEndpoint {
    type V = EndpointView;

    open spec fn view(&self) -> EndpointView {
        match self {
            MoveEndpoint::Local(path) => EndpointView::Local(path@),
            MoveEndpoint::Remote { node, path } => EndpointView::Remote {
                node: node@,
                path: path@,
            },
        }
    }
}

/// The end that a text stands for. What comes before the first colon is a node,
/// unless it is empty or holds a slash.
pub open spec fn endpoint(raw: Seq<char>) -> EndpointView {
    match text::split_once(raw, ':') {
        Some(p) => if p.0.len() > 0 && !p.0.contains('/') {
            EndpointView::Remote { node: p.0, path: p.1 }
        } else {
            EndpointView::Local(raw)
        },
        None => EndpointView::Local(raw),
    }
}

impl MoveEndpoint {
    /// The end that a text stands for.
    pub fn parse(raw: &str) -> (r: MoveEndpoint)
        ensures
            r@ == endpoint(raw@),
    {
        if let Some(p) = split_once_char(raw, ':') {
            if !p.0.is_empty() && !contains_char(p.0, '/') {
                return MoveEndpoint::Remote { node: p.0.to_owned(), path: p.1.to_owned() };
            }
        }
        MoveEndpoint::Local(raw.to_owned())
    }
}

/// An end whose node was found. Without a node it is a path here.
#[derive(Debug)]
pub struct End {
    pub node: Option<Node>,
    pub path: String,
}

#[verifier::ext_equal]
pub struct EndView {
    pub node: Option<NodeView>,
    pub path: Seq<char>,
}

impl View for End {
    type V = EndView;

    open spec fn view(&self) -> EndView {
        EndView { node: model::opt_node(self.node), path: self.path@ }
    }
}

/// How a file is carried.
#[derive(Debug)]
pub enum Carry {
    /// By copying it here.
    Copy { src: String, dst: String },
    /// By running `scp` here.
    Scp { src: String, dst: String },
    /// By asking the node that has it to run `scp`.
    Ask { node: Node, request: RpcRequest },
}

#[verifier::ext_equal]
pub enum CarryView {
    Copy { src: Seq<char>, dst: Seq<char> },
    Scp { src: Seq<char>, dst: Seq<char> },
    Ask { node: NodeView, request: RequestView },
}

impl View for Carry {
    type V = CarryView;

    open spec fn view(&self) -> CarryView {
        match self {
            Carry::Copy { src, dst } => CarryView::Copy { src: src@, dst: dst@ },
            Carry::Scp { src, dst } => CarryView::Scp { src: src@, dst: dst@ },
            Carry::Ask { node, request } => CarryView::Ask { node: node@, request: request@ },
        }
    }
}

/// What is to be done to move a file.
#[derive(Debug)]
pub enum MoveStep {
    /// The hub's nodes have to be asked for.
    AskHub,
    /// Carry it. `from` and `to` are what is recorded of it, `shown` what is shown
    /// afterwards.
    Go { carry: Carry, from: String, to: String, shown: String },
}

#[verifier::ext_equal]
pub enum MoveStepView {
    AskHub,
    Go { carry: CarryView, from: Seq<char>, to: Seq<char>, shown: Seq<char> },
}

impl View for MoveStep {
    type V = MoveStepView;

    open spec fn view(&self) -> MoveStepView {
        match self {
            MoveStep::AskHub => MoveStepView::AskHub,
            MoveStep::Go { carry, from, to, shown } => MoveStepView::Go {
                carry: carry@,
                from: from@,
                to: to@,
                shown: shown@,
            },
        }
    }
}

// ---------------------------------------------------------------------------
// Reaching a node by SSH.

/// The first address that leads to a machine.
pub open spec fn usable_address(addresses: Seq<Seq<char>>) -> Option<Seq<char>>
    decreases addresses.len(),
{
    if addresses.len() == 0 {
        None
    } else if addresses[0].len() > 0 && addresses[0] != "hub"@ {
        Some(addresses[0])
    } else {
        usable_address(addresses.skip(1))
    }
}

/// The host of a node for SSH, or what is said if it has none.
pub open spec fn ssh_host(n: NodeView) -> Result<Seq<char>, Seq<char>> {
    match usable_address(n.addresses) {
        Some(a) => Ok(a),
        None => match text::rsplit_once(n.daemon_addr, ':') {
            None => Err("node '"@ + n.slug + "' has no SSH address for direct copy"@),
            Some(p) => if p.0 == "hub"@ {
                Err("node '"@ + n.slug + "' has no direct SSH address for copy"@)
            } else {
                Ok(p.0)
            },
        },
    }
}

fn first_usable(addresses: &Vec<String>) -> (r: Option<&str>)
    ensures
        text::opt_str(r) == usable_address(text::texts(addresses@)),
{
    let ghost all = text::texts(addresses@);
    let mut i: usize = 0;
    proof {
        assert(all.skip(0) == all);
    }
    while i < addresses.len()
        invariant
            i <= addresses.len(),
            all == text::texts(addresses@),
            usable_address(all) == usable_address(all.skip(i as int)),
        decreases addresses.len() - i,
    {
        let address = addresses[i].as_str();
        proof {
            let rest = all.skip(i as int);
            assert(rest[0] == address@);
            assert(rest.skip(1) == all.skip(i + 1));
        }
        if !address.is_empty() && !same(address, "hub") {
            return Some(address);
        }
        i += 1;
    }
    None
}

/// The host of a node for SSH.
pub fn ssh_target(node: &Node) -> (r: Result<String, String>)
    ensures
        text::text_outcome(r) == ssh_host(node@),
{
    match first_usable(&node.addresses) {
        Some(a) => Ok(a.to_owned()),
        None => match rsplit_once_char(node.daemon_addr.as_str(), ':') {
            None => Err(
                "node '".to_owned().concat(node.slug.as_str()).concat(
                    "' has no SSH address for direct copy",
                ),
            ),
            Some(p) => if same(p.0, "hub") {
                Err(
                    "node '".to_owned().concat(node.slug.as_str()).concat(
                        "' has no direct SSH address for copy",
                    ),
                )
            } else {
                Ok(p.0.to_owned())
            },
        },
    }
}

/// A path on a node as `scp` takes it, or what is said if the node has no host.
pub open spec fn spec_of(n: NodeView, path: Seq<char>) -> Result<Seq<char>, Seq<char>> {
    match ssh_host(n) {
        Ok(host) => Ok(host + ":"@ + path),
        Err(e) => Err(e),
    }
}

/// A path on a node as `scp` takes it.
pub fn remote_spec(node: &Node, path: &str) -> (r: Result<String, String>)
    ensures
        text::text_outcome(r) == spec_of(node@, path@),
{
    match ssh_target(node) {
        Ok(host) => Ok(host.concat(":").concat(path)),
        Err(e) => Err(e),
    }
}

// ---------------------------------------------------------------------------
// Moving.

/// The end with its node: nothing while the hub has to be asked.
pub open spec fn end_outcome(
    st: StateView,
    e: EndpointView,
    hub_configured: bool,
    listing: Option<Result<Seq<HubNodeView>, Seq<char>>>,
) -> Result<Option<EndView>, Seq<char>> {
    match e {
        EndpointView::Local(path) => Ok(Some(EndView { node: None, path })),
        EndpointView::Remote { node, path } => match routes::resolution(
            st,
            node,
            RouteMode::Auto,
            hub_configured,
            listing,
        ) {
            ResolvedView::Found(n) => Ok(Some(EndView { node: Some(n), path })),
            ResolvedView::AskHub => Ok(None),
            ResolvedView::Failed(e) => Err(e),
        },
    }
}

/// Whether an end is on this machine.
pub open spec fn is_here(e: EndView, own: NodeView) -> bool {
    match e.node {
        None => true,
        Some(n) => n.id == own.id,
    }
}

/// How an end is recorded.
pub open spec fn end_name(e: EndView) -> Seq<char> {
    match e.node {
        None => "local"@,
        Some(n) => n.slug,
    }
}

/// How an end is shown.
pub open spec fn end_shown(e: EndView) -> Seq<char> {
    match e.node {
        None => e.path,
        Some(n) => n.slug + ":"@ + e.path,
    }
}

/// What a node runs to send a file of its own to another.
pub open spec fn scp_line(src: Seq<char>, dst: Seq<char>) -> Seq<char> {
    "scp -o BatchMode=yes -r "@ + process::quoted(src) + " "@ + process::quoted(dst)
}

/// How a file is carried from one end to another, or what is said if it cannot be.
pub open spec fn carry_outcome(src: EndView, dst: EndView, own: NodeView) -> Result<
    CarryView,
    Seq<char>,
> {
    if is_here(src, own) && is_here(dst, own) {
        Ok(CarryView::Copy { src: src.path, dst: dst.path })
    } else if is_here(src, own) {
        match spec_of(dst.node->Some_0, dst.path) {
            Err(e) => Err(e),
            Ok(to) => Ok(CarryView::Scp { src: src.path, dst: to }),
        }
    } else if is_here(dst, own) {
        match spec_of(src.node->Some_0, src.path) {
            Err(e) => Err(e),
            Ok(from) => Ok(CarryView::Scp { src: from, dst: dst.path }),
        }
    } else {
        match spec_of(dst.node->Some_0, dst.path) {
            Err(e) => Err(e),
            Ok(to) => Ok(
                CarryView::Ask {
                    node: src.node->Some_0,
                    request: RequestView::Exec {
                        command: seq!["sh"@, "-lc"@, scp_line(src.path, to)],
                    },
                },
            ),
        }
    }
}

/// What is to be done to move a file, or what is said if it cannot be moved.
pub open spec fn move_outcome(
    st: StateView,
    from: Seq<char>,
    to: Seq<char>,
    hub_configured: bool,
    listing: Option<Result<Seq<HubNodeView>, Seq<char>>>,
) -> Result<MoveStepView, Seq<char>> {
    match state::local(st) {
        Err(e) => Err(e),
        Ok(own) => match end_outcome(st, endpoint(from), hub_configured, listing) {
            Err(e) => Err(e),
            Ok(None) => Ok(MoveStepView::AskHub),
            Ok(Some(src)) => match end_outcome(st, endpoint(to), hub_configured, listing) {
                Err(e) => Err(e),
                Ok(None) => Ok(MoveStepView::AskHub),
                Ok(Some(dst)) => match carry_outcome(src, dst, own) {
                    Err(e) => Err(e),
                    Ok(carry) => Ok(
                        MoveStepView::Go {
                            carry,
                            from: end_name(src),
                            to: end_name(dst),
                            shown: "Moved "@ + end_shown(src) + " to "@ + end_shown(dst) + "."@,
                        },
                    ),
                },
            },
        },
    }
}

fn resolve_end(
    state: &ViaState,
    e: MoveEndpoint,
    hub_configured: bool,
    listing: &Option<Result<Vec<HubNode>, String>>,
) -> (r: Result<Option<End>, String>)
    ensures
        match r {
            Ok(Some(end)) => end_outcome(
                state@,
                e@,
                hub_configured,
                routes::listing_view(*listing),
            ) == Ok::<Option<EndView>, Seq<char>>(Some(end@)),
            Ok(None) => end_outcome(
                state@,
                e@,
                hub_configured,
                routes::listing_view(*listing),
            ) == Ok::<Option<EndView>, Seq<char>>(None),
            Err(m) => end_outcome(
                state@,
                e@,
                hub_configured,
                routes::listing_view(*listing),
            ) == Err::<Option<EndView>, Seq<char>>(m@),
        },
{
    match e {
        MoveEndpoint::Local(path) => Ok(Some(End { node: None, path })),
        MoveEndpoint::Remote { node, path } => match resolve_node_for_route(
            state,
            node.as_str(),
            RouteMode::Auto,
            hub_configured,
            listing,
        ) {
            Resolved::Found(n) => Ok(Some(End { node: Some(n), path })),
            Resolved::AskHub => Ok(None),
            Resolved::Failed(m) => Err(m),
        },
    }
}

/// The node of an end that is on another machine.
fn elsewhere<'a>(e: &'a End, own: &Node) -> (r: Option<&'a Node>)
    ensures
        match r {
            None => is_here(e@, own@),
            Some(n) => !is_here(e@, own@) && e@.node == Some(n@),
        },
{
    match &e.node {
        None => None,
        Some(n) => if same(n.id.as_str(), own.id.as_str()) {
            None
        } else {
            Some(n)
        },
    }
}

fn end_label(e: &End) -> (r: String)
    ensures
        r@ == end_name(e@),
{
    match &e.node {
        None => "local".to_owned(),
        Some(n) => n.slug.clone(),
    }
}

fn end_text(e: &End) -> (r: String)
    ensures
        r@ == end_shown(e@),
{
    match &e.node {
        None => e.path.clone(),
        Some(n) => n.slug.clone().concat(":").concat(e.path.as_str()),
    }
}

/// How a file is carried from one end to another.
pub fn carry_between(src: &End, dst: &End, own: &Node) -> (r: Result<Carry, String>)
    ensures
        match r {
            Ok(c) => carry_outcome(src@, dst@, own@) == Ok::<CarryView, Seq<char>>(c@),
            Err(e) => carry_outcome(src@, dst@, own@) == Err::<CarryView, Seq<char>>(e@),
        },
{
    match (elsewhere(src, own), elsewhere(dst, own)) {
        (None, None) => Ok(Carry::Copy { src: src.path.clone(), dst: dst.path.clone() }),
        (None, Some(n)) => match remote_spec(n, dst.path.as_str()) {
            Err(e) => Err(e),
            Ok(to) => Ok(Carry::Scp { src: src.path.clone(), dst: to }),
        },
        (Some(n), None) => match remote_spec(n, src.path.as_str()) {
            Err(e) => Err(e),
            Ok(from) => Ok(Carry::Scp { src: from, dst: dst.path.clone() }),
        },
        (Some(n), Some(m)) => match remote_spec(m, dst.path.as_str()) {
            Err(e) => Err(e),
            Ok(to) => {
                let line = "scp -o BatchMode=yes -r ".to_owned().concat(
                    shell_quote(src.path.as_str()).as_str(),
                ).concat(" ").concat(shell_quote(to.as_str()).as_str());
                let command = vec!["sh".to_owned(), "-lc".to_owned(), line];
                proof {
                    assert(text::texts(command@) =~= seq!["sh"@, "-lc"@, line@]);
                }
                Ok(Carry::Ask { node: n.clone(), request: RpcRequest::Exec { command } })
            },
        },
    }
}

/// Finds out what is to be done to move a file. `listing` is what the hub listed, if
/// it was asked.
pub fn move_path(
    state: &ViaState,
    from: &str,
    to: &str,
    hub_configured: bool,
    listing: &Option<Result<Vec<HubNode>, String>>,
) -> (r: Result<MoveStep, String>)
    ensures
        match r {
            Ok(step) => move_outcome(
                state@,
                from@,
                to@,
                hub_configured,
                routes::listing_view(*listing),
            ) == Ok::<MoveStepView, Seq<char>>(step@),
            Err(e) => move_outcome(
                state@,
                from@,
                to@,
                hub_configured,
                routes::listing_view(*listing),
            ) == Err::<MoveStepView, Seq<char>>(e@),
        },
{
    let own = match state.local_node() {
        Ok(n) => n,
        Err(e) => return Err(e),
    };
    let src = match resolve_end(state, MoveEndpoint::parse(from), hub_configured, listing) {
        Err(e) => return Err(e),
        Ok(None) => return Ok(MoveStep::AskHub),
        Ok(Some(e)) => e,
    };
    let dst = match resolve_end(state, MoveEndpoint::parse(to), hub_configured, listing) {
        Err(e) => return Err(e),
        Ok(None) => return Ok(MoveStep::AskHub),
        Ok(Some(e)) => e,
    };
    match carry_between(&src, &dst, &own) {
        Err(e) => Err(e),
        Ok(carry) => {
            let shown = "Moved ".to_owned().concat(end_text(&src).as_str()).concat(" to ").concat(
                end_text(&dst).as_str(),
            ).concat(".");
            Ok(MoveStep::Go { carry, from: end_label(&src), to: end_label(&dst), shown })
        },
    }
}

/// A file whose ends are both paths here is copied here, and nobody is asked.
pub proof fn law_moves_stay_here(
    st: StateView,
    from: Seq<char>,
    to: Seq<char>,
    hub_configured: bool,
    listing: Option<Result<Seq<HubNodeView>, Seq<char>>>,
)
    requires
        endpoint(from) is Local,
        endpoint(to) is Local,
        state::local(st) is Ok,
    ensures
        move_outcome(st, from, to, hub_configured, listing) == Ok::<MoveStepView, Seq<char>>(
            MoveStepView::Go {
                carry: CarryView::Copy { src: from, dst: to },
                from: "local"@,
                to: "local"@,
                shown: "Moved "@ + from + " to "@ + to + "."@,
            },
        ),
{
}

/// The program that carries a file between this machine and another.
pub fn run_scp(src: &str, dst: &str) -> (r: Run)
    ensures
        r@ == (RunView::Program {
            program: "scp"@,
            args: seq!["-o"@, "BatchMode=yes"@, "-r"@, src@, dst@],
        }),
{
    let args = vec![
        "-o".to_owned(),
        "BatchMode=yes".to_owned(),
        "-r".to_owned(),
        src.to_owned(),
        dst.to_owned(),
    ];
    proof {
        assert(text::texts(args@) =~= seq!["-o"@, "BatchMode=yes"@, "-r"@, src@, dst@]);
    }
    Run::Program { program: "scp".to_owned(), args }
}

/// How something is copied here: a directory by a program, a file by itself.
#[derive(Debug)]
pub enum LocalCopy {
    Run(Run),
    File { src: String, dst: String, complaint: String },
}

/// How something is copied here; `is_dir` says whether it is a directory.
pub fn copy_local_to_local(src: &str, dst: &str, is_dir: bool) -> (r: LocalCopy)
    ensures
        if is_dir {
            r matches LocalCopy::Run(run) && run@ == (RunView::Program {
                program: "cp"@,
                args: seq!["-R"@, src@, dst@],
            })
        } else {
            r matches LocalCopy::File { src: s, dst: d, complaint } && s@ == src@ && d@ == dst@
                && complaint@ == "failed to copy "@ + src@ + " to "@ + dst@
        },
{
    if is_dir {
        LocalCopy::Run(program3("cp", "-R", src, dst))
    } else {
        LocalCopy::File {
            src: src.to_owned(),
            dst: dst.to_owned(),
            complaint: "failed to copy ".to_owned().concat(src).concat(" to ").concat(dst),
        }
    }
}

/// What is recorded of a move.
pub open spec fn move_payload(from: Seq<char>, to: Seq<char>) -> PayloadView {
    PayloadView::Object(seq![("from"@, ValueView::Text(from)), ("to"@, ValueView::Text(to))])
}

/// Keeps that a file was moved.
pub fn append_move_event(state: &mut ViaState, from: &str, to: &str, now: i64)
    requires
        old(state).wf(),
    ensures
        final(state).wf(),
        commands::was_recorded_and_saved(
            old(state)@,
            final(state)@,
            "node.move"@,
            move_payload(from@, to@),
            now,
        ),
{
    let fields: Vec<(String, Value)> = vec![text_value("from", from), text_value("to", to)];
    let payload = Payload::Object(fields);
    proof {
        assert(payload@ =~= move_payload(from@, to@));
    }
    state.append_event("node.move", payload, now);
    state.persist();
}

} // verus!
