//! By which way a node is reached.

use crate::cli::RouteMode;
use crate::hub;
use crate::hub::{node_by_slug, HubNode, HubNodeView};
use crate::model::{Node, NodeView};
use crate::rpc;
use crate::rpc::{ResponseView, RpcResponse};
use crate::state;
use crate::state::{StateView, ViaState};
use crate::table;
use crate::text;
use vstd::prelude::*;

verus! {

/// A way to reach a node.
#[derive(Debug, Clone, Copy, PartialEq, Eq, Structural)]
pub enum Way {
    Direct,
    Hub,
}

/// What to do after a node was tried.
#[derive(Debug)]
pub enum CallStep {
    /// The call is over.
    Done(Result<RpcResponse, String>),
    /// Try this way next.
    Try(Way),
}

/// The way that a node is tried by first.
pub open spec fn first_way(route: RouteMode) -> Way {
    match route {
        RouteMode::Hub => Way::Hub,
        _ => Way::Direct,
    }
}

/// The way that a node is tried by first.
pub fn open_call(route: RouteMode) -> (r: Way)
    ensures
        r == first_way(route),
{
    match route {
        RouteMode::Hub => Way::Hub,
        _ => Way::Direct,
    }
}

/// That `step` is what follows after a node was tried. `direct_error` is what was
/// said of the direct try, if that came before.
pub open spec fn is_next_step(
    step: CallStep,
    route: RouteMode,
    hub_configured: bool,
    direct_error: Option<Seq<char>>,
    outcome: Result<ResponseView, Seq<char>>,
) -> bool {
    match outcome {
        Ok(x) => step matches CallStep::Done(d) && rpc::call_view(d) == Ok::<
            ResponseView,
            Seq<char>,
        >(x),
        Err(e) => match direct_error {
            Some(direct) => step matches CallStep::Done(d) && rpc::call_view(d) == Err::<
                ResponseView,
                Seq<char>,
            >("direct route failed: "@ + direct + "; hub route failed: "@ + e),
            None => if route == RouteMode::Auto && hub_configured {
                step == CallStep::Try(Way::Hub)
            } else {
                step matches CallStep::Done(d) && rpc::call_view(d) == Err::<
                    ResponseView,
                    Seq<char>,
                >(e)
            },
        },
    }
}

/// What follows after a node was tried: on the automatic route the hub, if there is
/// one, is tried after a direct try that failed.
pub fn call_node(
    route: RouteMode,
    hub_configured: bool,
    direct_error: Option<&str>,
    outcome: Result<RpcResponse, String>,
) -> (r: CallStep)
    ensures
        is_next_step(r, route, hub_configured, text::opt_str(direct_error), rpc::call_view(outcome)),
{
    match outcome {
        Ok(x) => CallStep::Done(Ok(x)),
        Err(e) => match direct_error {
            Some(direct) => CallStep::Done(
                Err(
                    "direct route failed: ".to_owned().concat(direct).concat(
                        "; hub route failed: ",
                    ).concat(e.as_str()),
                ),
            ),
            None => match route {
                RouteMode::Auto if hub_configured => CallStep::Try(Way::Hub),
                _ => CallStep::Done(Err(e)),
            },
        },
    }
}

/// What is known of a node that someone named.
#[derive(Debug)]
pub enum Resolved {
    Found(Node),
    /// The hub's nodes have to be asked for.
    AskHub,
    Failed(String),
}

#[verifier::ext_equal]
pub enum ResolvedView {
    Found(NodeView),
    AskHub,
    Failed(Seq<char>),
}

impl View for Resolved {
    type V = ResolvedView;

    open spec fn view(&self) -> ResolvedView {
        match self {
            Resolved::Found(n) => ResolvedView::Found(n@),
            Resolved::AskHub => ResolvedView::AskHub,
            Resolved::Failed(e) => ResolvedView::Failed(e@),
        }
    }
}

/// The contents of what a hub listed.
pub open spec fn listing_view(l: Option<Result<Vec<HubNode>, String>>) -> Option<
    Result<Seq<HubNodeView>, Seq<char>>,
> {
    match l {
        None => None,
        Some(Ok(v)) => Some(Ok(hub::hub_nodes(v@))),
        Some(Err(e)) => Some(Err(e@)),
    }
}

/// What is said of a node that is not known.
pub open spec fn unknown_node(slug: Seq<char>) -> Seq<char> {
    "unknown node '"@ + slug + "'"@
}

/// What is known of the node called `slug`, where `listing` is what the hub listed
/// if it was asked.
pub open spec fn resolution(
    st: StateView,
    slug: Seq<char>,
    route: RouteMode,
    hub_configured: bool,
    listing: Option<Result<Seq<HubNodeView>, Seq<char>>>,
) -> ResolvedView {
    match table::find(st.nodes, slug) {
        Some(n) => ResolvedView::Found(n),
        None => if route == RouteMode::Direct || !hub_configured {
            ResolvedView::Failed(unknown_node(slug))
        } else {
            match listing {
                None => ResolvedView::AskHub,
                Some(Err(e)) => ResolvedView::Failed(e),
                Some(Ok(nodes)) => match hub::listed(nodes, slug) {
                    Some(n) => ResolvedView::Found(hub::node_of(n, Seq::empty())),
                    None => ResolvedView::Failed(unknown_node(slug)),
                },
            }
        },
    }
}

/// Finds the node called `slug`: among the known ones, and else among those of the
/// hub.
pub fn resolve_node_for_route(
    state: &ViaState,
    slug: &str,
    route: RouteMode,
    hub_configured: bool,
    listing: &Option<Result<Vec<HubNode>, String>>,
) -> (r: Resolved)
    ensures
        r@ == resolution(state@, slug@, route, hub_configured, listing_view(*listing)),
{
    if let Some(n) = state.node_by_slug(slug) {
        return Resolved::Found(n);
    }
    let direct = match route {
        RouteMode::Direct => true,
        _ => false,
    };
    if !direct && hub_configured {
        match listing {
            None => return Resolved::AskHub,
            Some(Err(e)) => return Resolved::Failed(e.clone()),
            Some(Ok(nodes)) => {
                if let Some(n) = node_by_slug(nodes, slug) {
                    return Resolved::Found(n);
                }
            },
        }
    }
    Resolved::Failed("unknown node '".to_owned().concat(slug).concat("'"))
}

} // verus!
