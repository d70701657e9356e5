//! Where moved files go, which way requests take, and what an update does.

use crate::cli::RouteMode;
use crate::daemon;
use crate::daemon::Work;
use crate::hub;
use crate::hub::HubNodeView;
use crate::model::NodeView;
use crate::moves;
use crate::moves::{CarryView, EndView, EndpointView, MoveStepView};
use crate::release;
use crate::routes;
use crate::routes::{CallStep, ResolvedView, Way};
use crate::rpc;
use crate::rpc::ResponseView;
use crate::shell;
use crate::shell_laws;
use crate::state;
use crate::state::StateView;
use crate::table;
use crate::text;
use crate::text_laws;
use crate::updates;
use crate::updates::{UpdateHowView, UpdateNextView};
use vstd::prelude::*;

verus! {

// ---------------------------------------------------------------------------
// Moving.

/// A place with a node before a colon is on that node; a place without a colon, or with a
/// slash before the first one, is here.
pub proof fn law_places_name_their_node(node: Seq<char>, path: Seq<char>)
    requires
        !node.contains(':'),
    ensures
        node.len() > 0 && !node.contains('/') ==> moves::endpoint(node + ":"@ + path) == (
        EndpointView::Remote { node, path }),
        node.len() == 0 || node.contains('/') ==> moves::endpoint(node + ":"@ + path)
            == EndpointView::Local(node + ":"@ + path),
        moves::endpoint(node) == EndpointView::Local(node),
{
    reveal_strlit(":");
    assert(":"@ =~= seq![':']);
    text_laws::law_split_at_the_first(node, ':', path);
}

/// A node is reached over SSH at the first of its addresses that is one and does not stand
/// for the hub, and else at the host of its daemon.
pub proof fn law_nodes_are_reached_at_their_address(n: NodeView, i: int)
    requires
        0 <= i < n.addresses.len(),
        n.addresses[i].len() > 0,
        n.addresses[i] != "hub"@,
        forall|j: int|
            0 <= j < i ==> (#[trigger] n.addresses[j]).len() == 0 || n.addresses[j] == "hub"@,
    ensures
        moves::ssh_host(n) == Ok::<Seq<char>, Seq<char>>(n.addresses[i]),
{
    lemma_usable(n.addresses, i);
}

proof fn lemma_usable(addresses: Seq<Seq<char>>, i: int)
    requires
        0 <= i < addresses.len(),
        addresses[i].len() > 0,
        addresses[i] != "hub"@,
        forall|j: int|
            0 <= j < i ==> (#[trigger] addresses[j]).len() == 0 || addresses[j] == "hub"@,
    ensures
        moves::usable_address(addresses) == Some(addresses[i]),
    decreases i,
{
    if i > 0 {
        let t = addresses.skip(1);
        assert(addresses[0].len() == 0 || addresses[0] == "hub"@);
        assert forall|j: int| 0 <= j < i - 1 implies (#[trigger] t[j]).len() == 0 || t[j]
            == "hub"@ by {
            assert(t[j] == addresses[j + 1]);
        }
        lemma_usable(t, i - 1);
    }
}

proof fn lemma_none_usable(addresses: Seq<Seq<char>>)
    requires
        forall|j: int|
            0 <= j < addresses.len() ==> (#[trigger] addresses[j]).len() == 0 || addresses[j]
                == "hub"@,
    ensures
        moves::usable_address(addresses) is None,
    decreases addresses.len(),
{
    if addresses.len() > 0 {
        let t = addresses.skip(1);
        assert(addresses[0].len() == 0 || addresses[0] == "hub"@);
        assert forall|j: int| 0 <= j < t.len() implies (#[trigger] t[j]).len() == 0 || t[j]
            == "hub"@ by {
            assert(t[j] == addresses[j + 1]);
        }
        lemma_none_usable(t);
    }
}

/// A node that has no address but its daemon's is reached at the daemon's host, unless that
/// stands for the hub.
pub proof fn law_nodes_without_address_are_reached_at_their_daemon(
    n: NodeView,
    host: Seq<char>,
    port: Seq<char>,
)
    requires
        forall|j: int|
            0 <= j < n.addresses.len() ==> (#[trigger] n.addresses[j]).len() == 0
                || n.addresses[j] == "hub"@,
        n.daemon_addr == host + ":"@ + port,
        !port.contains(':'),
    ensures
        host != "hub"@ ==> moves::ssh_host(n) == Ok::<Seq<char>, Seq<char>>(host),
        host == "hub"@ ==> moves::ssh_host(n) is Err,
{
    reveal_strlit(":");
    assert(":"@ =~= seq![':']);
    lemma_none_usable(n.addresses);
    text_laws::law_split_at_the_last(host, ':', port);
}

/// What is moved goes from the place named first to the place named second. Between two places
/// here it is copied here; between here and another node it goes over SSH, to or from the
/// path on that node; and between two other nodes the node that has it is asked to send it.
pub proof fn law_moves_go_from_source_to_destination(
    src: EndView,
    dst: EndView,
    own: NodeView,
    w: Work,
    far: StateView,
    now: i64,
)
    ensures
        ({
            let here = |e: EndView| e.node is None || e.node->Some_0.id == own.id;
            let at = |e: EndView|
                if here(e) {
                    e.path
                } else {
                    moves::ssh_host(e.node->Some_0)->Ok_0 + ":"@ + e.path
                };
            let r = moves::carry_outcome(src, dst, own);
            &&& here(src) && here(dst) ==> r == Ok::<CarryView, Seq<char>>(
                CarryView::Copy { src: src.path, dst: dst.path },
            )
            &&& here(src) != here(dst) && r is Ok ==> r->Ok_0 == (CarryView::Scp {
                src: at(src),
                dst: at(dst),
            })
            &&& here(src) && !here(dst) ==> (r is Ok) == (moves::ssh_host(
                dst.node->Some_0,
            ) is Ok)
            &&& !here(src) && here(dst) ==> (r is Ok) == (moves::ssh_host(
                src.node->Some_0,
            ) is Ok)
            &&& !here(src) && !here(dst) ==> (r is Ok) == (moves::ssh_host(
                dst.node->Some_0,
            ) is Ok)
            &&& !here(src) && !here(dst) && r is Ok ==> r->Ok_0 is Ask && r->Ok_0->Ask_node
                == src.node->Some_0 && (daemon::is_work_for(
                w,
                far,
                r->Ok_0->Ask_request,
                now,
            ) ==> w is Exec && text::texts(w->Exec_command@).len() == 3 && text::texts(
                w->Exec_command@,
            )[0] == "sh"@ && text::texts(w->Exec_command@)[1] == "-lc"@ && shell::words(
                text::texts(w->Exec_command@)[2],
            ) == seq![
                "scp"@,
                "-o"@,
                "BatchMode=yes"@,
                "-r"@,
                src.path,
                moves::ssh_host(dst.node->Some_0)->Ok_0 + ":"@ + dst.path,
            ])
        }),
{
    if !moves::is_here(src, own) && !moves::is_here(dst, own) && moves::carry_outcome(
        src,
        dst,
        own,
    ) is Ok {
        shell_laws::law_copies_go_from_source_to_destination(
            src.path,
            moves::ssh_host(dst.node->Some_0)->Ok_0 + ":"@ + dst.path,
        );
    }
}

/// A move between two places whose nodes are known takes the file from the first to the
/// second, and is recorded and shown that way round.
pub proof fn law_moves_are_told_as_they_go(
    st: StateView,
    a: Seq<char>,
    p: Seq<char>,
    b: Seq<char>,
    q: Seq<char>,
    hub_configured: bool,
    listing: Option<Result<Seq<HubNodeView>, Seq<char>>>,
)
    requires
        state::local(st) is Ok,
        a.len() > 0 && !a.contains(':') && !a.contains('/'),
        b.len() > 0 && !b.contains(':') && !b.contains('/'),
        table::find(st.nodes, a) is Some,
        table::find(st.nodes, b) is Some,
    ensures
        ({
            let src = EndView { node: table::find(st.nodes, a), path: p };
            let dst = EndView { node: table::find(st.nodes, b), path: q };
            let r = moves::move_outcome(
                st,
                a + ":"@ + p,
                b + ":"@ + q,
                hub_configured,
                listing,
            );
            let carry = moves::carry_outcome(src, dst, state::local(st)->Ok_0);
            &&& (r is Ok) == (carry is Ok)
            &&& r is Ok ==> r->Ok_0 is Go && r->Ok_0->carry == carry->Ok_0 && r->Ok_0->from == a
                && r->Ok_0->to == b && r->Ok_0->shown == "Moved "@ + (a + ":"@ + p) + " to "@ + (b
                + ":"@ + q) + "."@
        }),
{
    law_places_name_their_node(a, p);
    law_places_name_their_node(b, q);
    table::lemma_rank(st.nodes, a);
    table::lemma_rank(st.nodes, b);
}

/// A move to or from a node that is not known here goes no further than the hub's list, and
/// fails where there is no hub.
pub proof fn law_moves_need_known_nodes(
    st: StateView,
    a: Seq<char>,
    p: Seq<char>,
    to: Seq<char>,
    hub_configured: bool,
)
    requires
        state::local(st) is Ok,
        a.len() > 0 && !a.contains(':') && !a.contains('/'),
        table::find(st.nodes, a) is None,
    ensures
        moves::move_outcome(st, a + ":"@ + p, to, hub_configured, None) == (if hub_configured {
            Ok::<MoveStepView, Seq<char>>(MoveStepView::AskHub)
        } else {
            Err("unknown node '"@ + a + "'"@)
        }),
{
    law_places_name_their_node(a, p);
}

// ---------------------------------------------------------------------------
// Ways to a node.

/// A request that is to go through the hub goes there and nowhere else; any other goes directly
/// first.
pub proof fn law_the_first_way(route: RouteMode)
    ensures
        routes::first_way(route) == Way::Hub <==> route == RouteMode::Hub,
        routes::first_way(route) == Way::Direct <==> route != RouteMode::Hub,
{
}

/// An answer ends a call. A call that failed directly is tried through the hub if the way was
/// left open and there is a hub, and at most once; else what went wrong is said.
pub proof fn law_calls_fall_back_to_the_hub_once(
    step: CallStep,
    route: RouteMode,
    hub_configured: bool,
    direct_error: Option<Seq<char>>,
    outcome: Result<ResponseView, Seq<char>>,
)
    requires
        routes::is_next_step(step, route, hub_configured, direct_error, outcome),
    ensures
        outcome is Ok ==> (step matches CallStep::Done(d) && rpc::call_view(d) == outcome),
        step is Try ==> step == CallStep::Try(Way::Hub) && outcome is Err && direct_error is None
            && route == RouteMode::Auto && hub_configured,
        outcome is Err && direct_error is None && route == RouteMode::Auto && hub_configured
            ==> step is Try,
        outcome is Err && direct_error is None && !(route == RouteMode::Auto && hub_configured)
            ==> (step matches CallStep::Done(d) && rpc::call_view(d) == outcome),
        outcome is Err && direct_error is Some ==> (step matches CallStep::Done(d)
            && rpc::call_view(d) is Err && text::holds(
            rpc::call_view(d)->Err_0,
            outcome->Err_0,
        ) && text::holds(rpc::call_view(d)->Err_0, direct_error->Some_0)),
{
    if outcome is Err && direct_error is Some {
        let e = outcome->Err_0;
        let d = direct_error->Some_0;
        let a = "direct route failed: "@;
        let b = "; hub route failed: "@;
        let s = a + d + b + e;
        let i: int = a.len() as int;
        let j: int = i + d.len() + b.len();
        assert(s.subrange(i, i + d.len()) =~= d);
        assert(s.subrange(j, j + e.len()) =~= e);
    }
}

/// A node that is known here is found here, whatever the hub says. One that is not is looked for
/// at the hub, if the way is open and there is a hub, and is then as the hub lists it.
pub proof fn law_nodes_are_looked_for_here_first(
    st: StateView,
    slug: Seq<char>,
    route: RouteMode,
    hub_configured: bool,
    listing: Option<Result<Seq<HubNodeView>, Seq<char>>>,
    i: int,
)
    ensures
        ({
            let r = routes::resolution(st, slug, route, hub_configured, listing);
            let known = table::find(st.nodes, slug);
            let open = route != RouteMode::Direct && hub_configured;
            &&& known is Some ==> r == ResolvedView::Found(known->Some_0)
            &&& known is None && !open ==> r is Failed
            &&& known is None && open && listing is None ==> r == ResolvedView::AskHub
            &&& known is None && open && listing is Some && listing->Some_0 is Err ==> r
                == ResolvedView::Failed(listing->Some_0->Err_0)
            &&& known is None && open && listing is Some && listing->Some_0 is Ok && 0 <= i
                < listing->Some_0->Ok_0.len() && listing->Some_0->Ok_0[i].slug == slug && (
            forall|j: int| 0 <= j < i ==> (#[trigger] listing->Some_0->Ok_0[j]).slug != slug)
                ==> r is Found && r->Found_0.slug == slug && r->Found_0.id
                == listing->Some_0->Ok_0[i].id
        }),
{
    if listing is Some && listing->Some_0 is Ok && 0 <= i < listing->Some_0->Ok_0.len()
        && listing->Some_0->Ok_0[i].slug == slug && (forall|j: int|
        0 <= j < i ==> (#[trigger] listing->Some_0->Ok_0[j]).slug != slug) {
        lemma_listed(listing->Some_0->Ok_0, slug, i);
    }
}

/// The node of a hub's list that is called `slug` is the first that is.
pub proof fn lemma_listed(nodes: Seq<HubNodeView>, slug: Seq<char>, i: int)
    requires
        0 <= i < nodes.len(),
        nodes[i].slug == slug,
        forall|j: int| 0 <= j < i ==> (#[trigger] nodes[j]).slug != slug,
    ensures
        hub::listed(nodes, slug) == Some(nodes[i]),
    decreases i,
{
    if i > 0 {
        let t = nodes.skip(1);
        assert(nodes[0].slug != slug);
        assert forall|j: int| 0 <= j < i - 1 implies (#[trigger] t[j]).slug != slug by {
            assert(t[j] == nodes[j + 1]);
        }
        lemma_listed(t, slug, i - 1);
    }
}

// ---------------------------------------------------------------------------
// Updating.

/// An update of a node installs the release on that node, here or by asking the node, and the
/// same is run there as here.
pub proof fn law_updates_install_the_release(
    n: NodeView,
    own: NodeView,
    version: Seq<char>,
    w: Work,
    far: StateView,
    now: i64,
)
    requires
        shell::is_plain(version),
    ensures
        ({
            let step = updates::node_step(n, own, version);
            let good = |command: Seq<Seq<char>>|
                command.len() == 3 && command[0] == "sh"@ && command[1] == "-lc"@
                    && shell_laws::install_words(version).is_prefix_of(shell::words(command[2]));
            &&& step.node == n.slug
            &&& (step.how is Here) == (n.id == own.id)
            &&& step.how is Here ==> good(step.how->Here_0)
            &&& step.how is Ask ==> step.how->Ask_node == n && (daemon::is_work_for(
                w,
                far,
                step.how->Ask_request,
                now,
            ) ==> w is Exec && good(text::texts(w->Exec_command@)))
            &&& text::holds(step.banner, n.slug)
            &&& text::holds(step.banner, version)
        }),
{
    shell_laws::law_the_wanted_release_is_installed(version);
    let a = "Updating '"@;
    let b = "' to "@;
    let s = updates::node_step(n, own, version).banner;
    let i: int = a.len() as int;
    assert(s.subrange(i, i + n.slug.len()) =~= n.slug);
    let at: int = i + n.slug.len() + b.len();
    assert(s.subrange(at, at + version.len()) =~= version);
}

/// What an update is of: all nodes, one node, or this machine; and nothing is changed where it
/// is only asked for.
pub proof fn law_updates_go_where_they_are_sent(
    st: StateView,
    all: bool,
    node: Option<Seq<char>>,
    latest: Seq<char>,
    current: Seq<char>,
)
    ensures
        updates::update_outcome(st, true, all, node, latest, current) is Ok,
        updates::update_outcome(st, true, all, node, latest, current)->Ok_0 is Show,
        ({
            let r = updates::update_outcome(st, false, all, node, latest, current);
            let own = state::local(st);
            &&& all ==> (r is Ok) == (own is Ok)
            &&& all && r is Ok ==> r->Ok_0 is Go && r->Ok_0->scope == "all"@
                && r->Ok_0->steps.len() == st.nodes.len() && forall|i: int|
                0 <= i < st.nodes.len() ==> #[trigger] r->Ok_0->steps[i] == updates::node_step(
                    st.nodes[i],
                    own->Ok_0,
                    latest,
                )
            &&& !all && node is Some ==> (r is Ok) == (own is Ok && table::find(
                st.nodes,
                node->Some_0,
            ) is Some)
            &&& !all && node is Some && r is Ok ==> r->Ok_0 is Go && r->Ok_0->scope == "node"@
                && r->Ok_0->steps == seq![
                updates::node_step(
                    table::find(st.nodes, node->Some_0)->Some_0,
                    own->Ok_0,
                    latest,
                ),
            ]
            &&& !all && node is None ==> r is Ok && r->Ok_0 is Go && r->Ok_0->scope == "local"@
                && r->Ok_0->steps.len() == 1 && r->Ok_0->steps[0].how == UpdateHowView::Here(
                seq!["sh"@, "-lc"@, release::update_line(latest)],
            )
        }),
{
}

/// The release that is wanted is the one that was named, or else the one that the environment
/// names; all nodes and one node cannot be meant at once.
pub proof fn law_named_releases_come_first(
    all: bool,
    node: bool,
    version: Option<Seq<char>>,
    setting: Option<Seq<char>>,
)
    ensures
        ({
            let r = updates::wanted_outcome(all, node, version, setting);
            let named = if version is Some {
                version
            } else {
                setting
            };
            &&& all && node ==> r is Err
            &&& !(all && node) && named is None ==> r == Ok::<Option<Seq<char>>, Seq<char>>(None)
            &&& !(all && node) && named is Some ==> match release::release_outcome(
                named->Some_0,
            ) {
                Ok(v) => r == Ok::<Option<Seq<char>>, Seq<char>>(Some(v)),
                Err(e) => r == Err::<Option<Seq<char>>, Seq<char>>(e),
            }
        }),
{
}

proof fn lemma_release_chars(v: Seq<char>)
    requires
        v.len() > 0,
        forall|i: int|
            0 <= i < v.len() ==> text::is_alnum(#[trigger] v[i]) || v[i] == '.' || v[i] == '-'
                || v[i] == '_',
    ensures
        release::is_release(v),
        !text::is_white(v[0]),
        !text::is_white(v.last()),
{
    assert(text::is_alnum(v[0]) || v[0] == '.' || v[0] == '-' || v[0] == '_');
    let n = v.len() - 1;
    assert(text::is_alnum(v[n]) || v[n] == '.' || v[n] == '-' || v[n] == '_');
    assert forall|i: int| 0 <= i < v.len() implies release::is_release_char(#[trigger] v[i]) by {}
}

/// The name of a release is taken as it is, but for the letter of its tag.
#[verifier::spinoff_prover]
pub proof fn law_releases_keep_their_name(v: Seq<char>)
    requires
        v.len() > 0,
        v[0] != 'v',
        forall|i: int|
            0 <= i < v.len() ==> text::is_alnum(#[trigger] v[i]) || v[i] == '.' || v[i] == '-'
                || v[i] == '_',
    ensures
        release::release_outcome(v) == Ok::<Seq<char>, Seq<char>>(v),
        release::release_outcome("v"@ + v) == Ok::<Seq<char>, Seq<char>>(v),
{
    reveal_strlit("v");
    let tag = text::only('v');
    lemma_release_chars(v);
    text_laws::lemma_no_white(v);
    assert(text::drop_front(v, tag) == v);
    let w = "v"@ + v;
    assert(w[0] == 'v' && w.last() == v.last());
    assert(!text::is_white('v'));
    text_laws::lemma_no_white(w);
    assert(w.skip(1) =~= v);
    assert(text::drop_front(w, tag) == v);
}

/// A name that a shell would take for more than a name is no release.
#[verifier::spinoff_prover]
pub proof fn law_releases_are_plain(v: Seq<char>, i: int)
    requires
        0 <= i < v.len(),
        !text::is_white(v[0]),
        !text::is_white(v.last()),
        v[0] != 'v',
        v[i] == ';' || v[i] == '$' || v[i] == '&' || v[i] == '|' || v[i] == ' ' || v[i] == '`'
            || v[i] == '\'' || v[i] == '"' || v[i] == '\n',
    ensures
        release::release_outcome(v) is Err,
{
    text_laws::lemma_no_white(v);
    assert(text::drop_front(v, text::only('v')) == v);
    assert(!release::is_release_char(v[i]));
}

/// What went wrong on one node is said as it is; what went wrong on several is said of each of
/// them, and an update on which nothing went wrong is finished.
pub proof fn law_failed_updates_are_told(
    nodes: Seq<Seq<char>>,
    done: Seq<Result<(), Seq<char>>>,
    i: int,
)
    requires
        done.len() == nodes.len(),
        0 <= i < nodes.len(),
    ensures
        ({
            let r = updates::next_update(nodes, done);
            &&& r is Finished <==> forall|j: int|
                0 <= j < done.len() ==> (#[trigger] done[j]) is Ok
            &&& r is Finished || r is Failed
            &&& nodes.len() == 1 && done[0] is Err ==> r == UpdateNextView::Failed(
                done[0]->Err_0,
            )
            &&& nodes.len() > 1 && done[i] is Err ==> r is Failed && text::holds(
                r->Failed_0,
                "'"@ + nodes[i] + "': "@ + done[i]->Err_0,
            )
        }),
{
    let failed = updates::failures(nodes, done, nodes.len() as int);
    lemma_failures(nodes, done, nodes.len() as int);
    if done[i] is Err {
        let k = choose|k: int|
            0 <= k < failed.len() && failed[k] == (nodes[i], done[i]->Err_0);
        lemma_failure_list(failed, k);
    }
    if failed.len() > 0 {
        let j = choose|j: int|
            0 <= j < nodes.len() && done[j] is Err && failed[0] == (nodes[j], done[j]->Err_0);
        assert(done[j] is Err);
    }
}

proof fn lemma_failures(nodes: Seq<Seq<char>>, done: Seq<Result<(), Seq<char>>>, n: int)
    requires
        done.len() == nodes.len(),
        0 <= n <= nodes.len(),
    ensures
        ({
            let f = updates::failures(nodes, done, n);
            &&& forall|i: int|
                0 <= i < n && (#[trigger] done[i]) is Err ==> f.contains(
                    (nodes[i], done[i]->Err_0),
                )
            &&& forall|k: int|
                #![trigger f[k]]
                0 <= k < f.len() ==> exists|i: int|
                    0 <= i < n && done[i] is Err && f[k] == (nodes[i], done[i]->Err_0)
        }),
    decreases n,
{
    if n > 0 {
        lemma_failures(nodes, done, n - 1);
        let g = updates::failures(nodes, done, n - 1);
        let f = updates::failures(nodes, done, n);
        assert forall|i: int| 0 <= i < n && (#[trigger] done[i]) is Err implies f.contains(
            (nodes[i], done[i]->Err_0),
        ) by {
            if i < n - 1 {
                let k = choose|k: int| 0 <= k < g.len() && g[k] == (nodes[i], done[i]->Err_0);
                assert(f[k] == g[k]);
            } else {
                assert(f[f.len() - 1] == (nodes[i], done[i]->Err_0));
            }
        }
        assert forall|k: int| #![trigger f[k]] 0 <= k < f.len() implies exists|i: int|
            0 <= i < n && done[i] is Err && f[k] == (nodes[i], done[i]->Err_0) by {
            if k < g.len() {
                assert(f[k] == g[k]);
                let i = choose|i: int|
                    0 <= i < n - 1 && done[i] is Err && g[k] == (nodes[i], done[i]->Err_0);
                assert(0 <= i < n && done[i] is Err && f[k] == (nodes[i], done[i]->Err_0));
            } else {
                assert(done[n - 1] is Err && f[k] == (nodes[n - 1], done[n - 1]->Err_0));
            }
        }
    }
}

proof fn lemma_failure_list(failed: Seq<(Seq<char>, Seq<char>)>, k: int)
    requires
        0 <= k < failed.len(),
    ensures
        text::holds(
            updates::failure_list(failed),
            "'"@ + failed[k].0 + "': "@ + failed[k].1,
        ),
    decreases failed.len(),
{
    let x = "'"@ + failed[k].0 + "': "@ + failed[k].1;
    let p = failed.drop_last();
    let s = updates::failure_list(failed);
    if k < p.len() {
        lemma_failure_list(p, k);
        let t = updates::failure_list(p);
        let i = choose|i: int|
            0 <= i <= t.len() - x.len() && #[trigger] t.subrange(i, i + x.len()) == x;
        assert(s.subrange(i, i + x.len()) =~= t.subrange(i, i + x.len()));
    } else {
        let at = s.len() - x.len();
        assert(s.subrange(at, at + x.len()) =~= x);
    }
}

/// The latest release is looked up at the project's own place, unless another is set.
pub proof fn law_releases_are_looked_up(repo: Seq<char>)
    ensures
        release::lookup_url(Some(repo)) == "https://api.github.com/repos/"@ + repo
            + "/releases/latest"@,
        release::lookup_url(None) == "https://api.github.com/repos/"@ + "pompeii-labs/via"@
            + "/releases/latest"@,
{
}

/// What is at an address is downloaded by the program that is there, which is told the address
/// and writes what it finds to its output.
pub proof fn law_downloads_name_the_address(curl: bool, wget: bool, url: Seq<char>)
    ensures
        ({
            let r = release::download_outcome(curl, wget, url);
            &&& (r is Ok) == (curl || wget)
            &&& curl ==> r->Ok_0->Program_program == "curl"@ && r->Ok_0->Program_args.last() == url
            &&& !curl && wget ==> r->Ok_0->Program_program == "wget"@ && r->Ok_0->Program_args
                == seq!["-q"@, url, "-O"@, "-"@]
        }),
{
}

/// What is recorded of a move, an update and a command tells where they went and what they were,
/// but not the command.
pub proof fn law_what_was_done_is_recorded(
    from: Seq<char>,
    to: Seq<char>,
    version: Seq<char>,
    scope: Seq<char>,
    name: Seq<char>,
)
    ensures
        moves::move_payload(from, to)->Object_0 == seq![
            ("from"@, crate::model::ValueView::Text(from)),
            ("to"@, crate::model::ValueView::Text(to)),
        ],
        updates::update_payload(version, scope)->Object_0 == seq![
            ("scope"@, crate::model::ValueView::Text(scope)),
            ("version"@, crate::model::ValueView::Text(version)),
        ],
        crate::secrets::set_payload(name)->Object_0 == seq![
            ("name"@, crate::model::ValueView::Text(name)),
        ],
        moves::move_payload(from, to) is Object,
        updates::update_payload(version, scope) is Object,
        crate::secrets::set_payload(name) is Object,
{
}

/// What is recorded of a command that was run tells the node, whether that is this one, and how
/// many words the command had.
pub proof fn law_commands_are_recorded_by_their_length(slug: Seq<char>, argc: usize, local: bool)
    ensures
        ({
            let p = crate::commands::exec_payload(slug, argc, local);
            &&& p is Object
            &&& p->Object_0.len() == 3
            &&& p->Object_0.contains(("node"@, crate::model::ValueView::Text(slug)))
            &&& p->Object_0.contains(("local"@, crate::model::ValueView::Bool(local)))
            &&& p->Object_0.contains(("argc"@, crate::model::ValueView::Int(argc as i64)))
        }),
{
    let f = crate::commands::exec_payload(slug, argc, local)->Object_0;
    assert(f[0].0 == "argc"@ && f[1].0 == "local"@ && f[2].0 == "node"@);
}

/// Both versions are shown when it is asked whether there is a newer release.
pub proof fn law_both_versions_are_shown(latest: Seq<char>, current: Seq<char>)
    ensures
        release::check_lines(latest, current).len() == 3,
        release::check_lines(latest, current)[0] == "current: "@ + current,
        release::check_lines(latest, current)[1] == "latest:  "@ + latest,
{
}

} // verus!
