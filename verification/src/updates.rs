//! Updating Via on the nodes of a mesh.

use crate::commands;
use crate::model;
use crate::model::{text_value, Node, NodeView, Payload, PayloadView, Value, ValueView};
use crate::release;
use crate::release::{normalize_release_version, print_update_check, update_shell_command};
use crate::routes;
use crate::rpc::{RequestView, RpcRequest};
use crate::state;
use crate::state::{StateView, ViaState};
use crate::table;
use crate::text;
use crate::text::same;
use vstd::prelude::*;

verus! {

/// How Via is updated somewhere.
#[derive(Debug)]
pub enum UpdateHow {
    /// By running a command here and showing what it prints.
    Here(Vec<String>),
    /// By asking a node to run it.
    Ask { node: Node, request: RpcRequest },
}

/// Updating Via somewhere: on which node, and what is shown before.
#[derive(Debug)]
pub struct UpdateStep {
    pub node: String,
    pub banner: String,
    pub how: UpdateHow,
}

/// What is to be done to update Via.
#[derive(Debug)]
pub enum UpdatePlan {
    /// Only show these lines.
    Show(Vec<String>),
    /// Take these steps, one after the other, as `update_next` says. `scope` is what is
    /// recorded of them.
    Go { scope: String, steps: Vec<UpdateStep> },
}

#[verifier::ext_equal]
pub enum UpdateHowView {
    Here(Seq<Seq<char>>),
    Ask { node: NodeView, request: RequestView },
}

#[verifier::ext_equal]
pub struct UpdateStepView {
    pub node: Seq<char>,
    pub banner: Seq<char>,
    pub how: UpdateHowView,
}

#[verifier::ext_equal]
pub enum UpdatePlanView {
    Show(Seq<Seq<char>>),
    Go { scope: Seq<char>, steps: Seq<UpdateStepView> },
}

impl View for UpdateHow {
    type V = UpdateHowView;

    open spec fn view(&self) -> UpdateHowView {
        match self {
            UpdateHow::Here(command) => UpdateHowView::Here(text::texts(command@)),
            UpdateHow::Ask { node, request } => UpdateHowView::Ask {
                node: node@,
                request: request@,
            },
        }
    }
}

impl View for UpdateStep {
    type V = UpdateStepView;

    open spec fn view(&self) -> UpdateStepView {
        UpdateStepView { node: self.node@, banner: self.banner@, how: self.how@ }
    }
}

/// The contents of steps.
pub open spec fn steps_view(v: Seq<UpdateStep>) -> Seq<UpdateStepView> {
    v.map_values(|s: UpdateStep| s@)
}

impl View for UpdatePlan {
    type V = UpdatePlanView;

    open spec fn view(&self) -> UpdatePlanView {
        match self {
            UpdatePlan::Show(lines) => UpdatePlanView::Show(text::texts(lines@)),
            UpdatePlan::Go { scope, steps } => UpdatePlanView::Go {
                scope: scope@,
                steps: steps_view(steps@),
            },
        }
    }
}

/// The release to update to: one that was named, one that the environment names, or
/// nothing if the newest has to be looked up; or what is said.
pub open spec fn wanted_outcome(
    all: bool,
    node: bool,
    version: Option<Seq<char>>,
    setting: Option<Seq<char>>,
) -> Result<Option<Seq<char>>, Seq<char>> {
    if all && node {
        Err("use either --all or --node, not both"@)
    } else {
        match version {
            Some(v) => match release::release_outcome(v) {
                Ok(r) => Ok(Some(r)),
                Err(e) => Err(e),
            },
            None => match setting {
                Some(v) => match release::release_outcome(v) {
                    Ok(r) => Ok(Some(r)),
                    Err(e) => Err(e),
                },
                None => Ok(None),
            },
        }
    }
}

/// The release to update to, or nothing if the newest has to be looked up. `setting`
/// is the release that the environment names.
pub fn wanted_version(
    all: bool,
    node: bool,
    version: Option<&str>,
    setting: Option<&str>,
) -> (r: Result<Option<String>, String>)
    ensures
        match r {
            Ok(v) => wanted_outcome(all, node, text::opt_str(version), text::opt_str(setting))
                == Ok::<Option<Seq<char>>, Seq<char>>(text::opt_text(v)),
            Err(e) => wanted_outcome(all, node, text::opt_str(version), text::opt_str(setting))
                == Err::<Option<Seq<char>>, Seq<char>>(e@),
        },
{
    if all && node {
        return Err("use either --all or --node, not both".to_owned());
    }
    let named = match version {
        Some(v) => v,
        None => match setting {
            Some(v) => v,
            None => return Ok(None),
        },
    };
    match normalize_release_version(named) {
        Ok(r) => Ok(Some(r)),
        Err(e) => Err(e),
    }
}

/// The command that updates Via to a release.
pub open spec fn installer(version: Seq<char>) -> Seq<Seq<char>> {
    seq!["sh"@, "-lc"@, release::update_line(version)]
}

/// Updating Via on a node, where `own` is the local one.
pub open spec fn node_step(n: NodeView, own: NodeView, version: Seq<char>) -> UpdateStepView {
    UpdateStepView {
        node: n.slug,
        banner: "Updating '"@ + n.slug + "' to "@ + version + "..."@,
        how: if n.id == own.id {
            UpdateHowView::Here(installer(version))
        } else {
            UpdateHowView::Ask {
                node: n,
                request: RequestView::Exec { command: installer(version) },
            }
        },
    }
}

/// What is to be done to update Via to a release, or what is said.
pub open spec fn update_outcome(
    st: StateView,
    check: bool,
    all: bool,
    node: Option<Seq<char>>,
    latest: Seq<char>,
    current: Seq<char>,
) -> Result<UpdatePlanView, Seq<char>> {
    if check {
        Ok(UpdatePlanView::Show(release::check_lines(latest, current)))
    } else if all {
        match state::local(st) {
            Err(e) => Err(e),
            Ok(own) => Ok(
                UpdatePlanView::Go {
                    scope: "all"@,
                    steps: st.nodes.map_values(|n: NodeView| node_step(n, own, latest)),
                },
            ),
        }
    } else {
        match node {
            Some(slug) => match table::find(st.nodes, slug) {
                None => Err(routes::unknown_node(slug)),
                Some(n) => match state::local(st) {
                    Err(e) => Err(e),
                    Ok(own) => Ok(
                        UpdatePlanView::Go {
                            scope: "node"@,
                            steps: seq![node_step(n, own, latest)],
                        },
                    ),
                },
            },
            None => Ok(
                UpdatePlanView::Go {
                    scope: "local"@,
                    steps: seq![
                        UpdateStepView {
                            node: "local"@,
                            banner: "Updating local Via binary to "@ + latest + "..."@,
                            how: UpdateHowView::Here(installer(latest)),
                        },
                    ],
                },
            ),
        }
    }
}

fn installer_command(version: &str) -> (r: Vec<String>)
    ensures
        text::texts(r@) == installer(version@),
{
    let command = vec!["sh".to_owned(), "-lc".to_owned(), update_shell_command(version)];
    proof {
        assert(text::texts(command@) =~= installer(version@));
    }
    command
}

/// Updating Via on a node, where `own` is the local one.
pub fn update_node(node: &Node, own: &Node, version: &str) -> (r: UpdateStep)
    ensures
        r@ == node_step(node@, own@, version@),
{
    let banner = "Updating '".to_owned().concat(node.slug.as_str()).concat("' to ").concat(
        version,
    ).concat("...");
    let command = installer_command(version);
    let how = if same(node.id.as_str(), own.id.as_str()) {
        UpdateHow::Here(command)
    } else {
        UpdateHow::Ask { node: node.clone(), request: RpcRequest::Exec { command } }
    };
    UpdateStep { node: node.slug.clone(), banner, how }
}

fn update_nodes(state: &ViaState, own: &Node, version: &str) -> (r: Vec<UpdateStep>)
    ensures
        steps_view(r@) == state@.nodes.map_values(|n: NodeView| node_step(n, own@, version@)),
{
    let nodes = state.nodes();
    let ghost all = state@.nodes.map_values(|n: NodeView| node_step(n, own@, version@));
    let mut steps: Vec<UpdateStep> = Vec::new();
    let mut i: usize = 0;
    while i < nodes.len()
        invariant
            i <= nodes.len(),
            model::shapes(nodes@) == state@.nodes,
            all == state@.nodes.map_values(|n: NodeView| node_step(n, own@, version@)),
            steps_view(steps@) == all.take(i as int),
        decreases nodes.len() - i,
    {
        let step = update_node(&nodes[i], own, version);
        let ghost before = steps@;
        steps.push(step);
        proof {
            assert(state@.nodes[i as int] == nodes@[i as int]@);
            assert(all[i as int] == step@);
            assert(steps_view(steps@) =~= steps_view(before).push(step@));
            assert(all.take(i + 1) =~= all.take(i as int).push(all[i as int]));
        }
        i += 1;
    }
    proof {
        assert(all.take(all.len() as int) == all);
    }
    steps
}

/// Finds out what is to be done to update Via to the release `latest`, where
/// `current` is the release that runs.
pub fn update(
    state: &ViaState,
    check: bool,
    all: bool,
    node: Option<&str>,
    latest: &str,
    current: &str,
) -> (r: Result<UpdatePlan, String>)
    ensures
        match r {
            Ok(p) => update_outcome(state@, check, all, text::opt_str(node), latest@, current@)
                == Ok::<UpdatePlanView, Seq<char>>(p@),
            Err(e) => update_outcome(state@, check, all, text::opt_str(node), latest@, current@)
                == Err::<UpdatePlanView, Seq<char>>(e@),
        },
{
    if check {
        return Ok(UpdatePlan::Show(print_update_check(latest, current)));
    }
    if all {
        return match state.local_node() {
            Err(e) => Err(e),
            Ok(own) => Ok(
                UpdatePlan::Go { scope: "all".to_owned(), steps: update_nodes(state, &own, latest) },
            ),
        };
    }
    match node {
        Some(slug) => {
            let node = match state.node_by_slug(slug) {
                Some(n) => n,
                None => return Err("unknown node '".to_owned().concat(slug).concat("'")),
            };
            match state.local_node() {
                Err(e) => Err(e),
                Ok(own) => {
                    let steps = vec![update_node(&node, &own, latest)];
                    proof {
                        assert(steps_view(steps@) =~= seq![node_step(node@, own@, latest@)]);
                    }
                    Ok(UpdatePlan::Go { scope: "node".to_owned(), steps })
                },
            }
        },
        None => {
            let step = update_local(latest);
            let ghost view = step@;
            let steps = vec![step];
            proof {
                assert(steps_view(steps@) =~= seq![view]);
            }
            Ok(UpdatePlan::Go { scope: "local".to_owned(), steps })
        },
    }
}

/// Updating Via here.
pub fn update_local(version: &str) -> (r: UpdateStep)
    ensures
        r@ == (UpdateStepView {
            node: "local"@,
            banner: "Updating local Via binary to "@ + version@ + "..."@,
            how: UpdateHowView::Here(installer(version@)),
        }),
{
    UpdateStep {
        node: "local".to_owned(),
        banner: "Updating local Via binary to ".to_owned().concat(version).concat("..."),
        how: UpdateHow::Here(installer_command(version)),
    }
}

/// What is to be done next in an update.
#[derive(Debug)]
pub enum UpdateNext {
    /// Take the step with this number.
    Run(usize),
    /// Nothing: all steps were taken, and none failed.
    Finished,
    /// Say this: all steps were taken, and some failed.
    Failed(String),
}

#[verifier::ext_equal]
pub enum UpdateNextView {
    Run(int),
    Finished,
    Failed(Seq<char>),
}

impl View for UpdateNext {
    type V = UpdateNextView;

    open spec fn view(&self) -> UpdateNextView {
        match self {
            UpdateNext::Run(i) => UpdateNextView::Run(*i as int),
            UpdateNext::Finished => UpdateNextView::Finished,
            UpdateNext::Failed(e) => UpdateNextView::Failed(e@),
        }
    }
}

/// How steps ended.
pub open spec fn endings(done: Seq<Result<(), String>>) -> Seq<Result<(), Seq<char>>> {
    done.map_values(|r: Result<(), String>| text::unit_outcome(r))
}

/// The nodes among the first `n` on which the step failed, each with what was said.
pub open spec fn failures(
    nodes: Seq<Seq<char>>,
    done: Seq<Result<(), Seq<char>>>,
    n: int,
) -> Seq<(Seq<char>, Seq<char>)>
    decreases n,
{
    if n <= 0 {
        Seq::empty()
    } else {
        match done[n - 1] {
            Ok(_) => failures(nodes, done, n - 1),
            Err(e) => failures(nodes, done, n - 1).push((nodes[n - 1], e)),
        }
    }
}

/// Nodes with what was said of each, in one line.
pub open spec fn failure_list(failed: Seq<(Seq<char>, Seq<char>)>) -> Seq<char>
    decreases failed.len(),
{
    if failed.len() == 0 {
        "update failed on "@
    } else {
        failure_list(failed.drop_last()) + (if failed.len() > 1 {
            "; "@
        } else {
            ""@
        }) + "'"@ + failed.last().0 + "': "@ + failed.last().1
    }
}

/// What is to be done next in an update of `nodes` of which the first steps ended like
/// `done`: every step is taken, however those before it ended. What a single step says
/// is said as it is.
pub open spec fn next_update(nodes: Seq<Seq<char>>, done: Seq<Result<(), Seq<char>>>) ->
    UpdateNextView {
    let failed = failures(nodes, done, nodes.len() as int);
    if done.len() < nodes.len() {
        UpdateNextView::Run(done.len() as int)
    } else if failed.len() == 0 {
        UpdateNextView::Finished
    } else if nodes.len() == 1 {
        UpdateNextView::Failed(failed[0].1)
    } else {
        UpdateNextView::Failed(failure_list(failed))
    }
}

/// Finds out what is to be done next in an update of `nodes` of which the first steps
/// ended like `done`.
pub fn update_next(nodes: &Vec<String>, done: &Vec<Result<(), String>>) -> (r: UpdateNext)
    ensures
        r@ == next_update(text::texts(nodes@), endings(done@)),
{
    if done.len() < nodes.len() {
        return UpdateNext::Run(done.len());
    }
    let ghost names = text::texts(nodes@);
    let ghost ends = endings(done@);
    let mut line = "update failed on ".to_owned();
    let mut last: Option<&str> = None;
    let mut count: usize = 0;
    let mut i: usize = 0;
    proof {
        reveal_strlit("");
        assert(""@ =~= Seq::<char>::empty());
    }
    while i < nodes.len()
        invariant
            i <= nodes.len() <= done.len(),
            names == text::texts(nodes@),
            ends == endings(done@),
            ""@ == Seq::<char>::empty(),
            count == failures(names, ends, i as int).len(),
            count <= i,
            line@ == failure_list(failures(names, ends, i as int)),
            (count == 0) == (last is None),
            last is Some ==> last->Some_0@ == failures(names, ends, i as int).last().1,
        decreases nodes.len() - i,
    {
        let ghost before = failures(names, ends, i as int);
        proof {
            assert(ends[i as int] == text::unit_outcome(done@[i as int]));
            assert(names[i as int] == nodes@[i as int]@);
        }
        if let Err(e) = &done[i] {
            if count > 0 {
                line = line.concat("; ");
            }
            line = line.concat("'").concat(nodes[i].as_str()).concat("': ").concat(e.as_str());
            proof {
                let after = failures(names, ends, i + 1);
                assert(after == before.push((names[i as int], e@)));
                assert(after.drop_last() == before);
                assert(failure_list(before) + ""@ =~= failure_list(before));
            }
            last = Some(e.as_str());
            count += 1;
        }
        i += 1;
    }
    match last {
        None => UpdateNext::Finished,
        Some(e) => if nodes.len() == 1 {
            UpdateNext::Failed(e.to_owned())
        } else {
            UpdateNext::Failed(line)
        },
    }
}

/// An update of all nodes takes a step on each node of the mesh, however the steps
/// before it ended.
pub proof fn law_update_reaches_every_node(
    st: StateView,
    latest: Seq<char>,
    current: Seq<char>,
    nodes: Seq<Seq<char>>,
    done: Seq<Result<(), Seq<char>>>,
)
    requires
        state::local(st) is Ok,
        nodes == st.nodes.map_values(|n: NodeView| n.slug),
        done.len() < nodes.len(),
    ensures
        ({
            let plan = update_outcome(st, false, true, None, latest, current);
            let i = done.len() as int;
            &&& plan is Ok && plan->Ok_0 is Go
            &&& plan->Ok_0->steps.len() == st.nodes.len()
            &&& next_update(nodes, done) == UpdateNextView::Run(i)
            &&& plan->Ok_0->steps[i] == node_step(st.nodes[i], state::local(st)->Ok_0, latest)
            &&& plan->Ok_0->steps[i].node == nodes[i]
        }),
{
}

/// What is recorded of an update.
pub open spec fn update_payload(version: Seq<char>, scope: Seq<char>) -> PayloadView {
    PayloadView::Object(
        seq![("scope"@, ValueView::Text(scope)), ("version"@, ValueView::Text(version))],
    )
}

/// Keeps that Via was updated, in a node that belongs to a mesh. Returns whether it
/// does, and what is shown.
pub fn updated(state: &mut ViaState, version: &str, scope: &str, now: i64) -> (r: (bool, String))
    requires
        old(state).wf(),
    ensures
        final(state).wf(),
        r.0 == (old(state)@.mesh is Some),
        r.1@ == "Via binaries updated. Restart running daemons to use the new binary."@,
        if old(state)@.mesh is Some {
            commands::was_recorded_and_saved(
                old(state)@,
                final(state)@,
                "via.updated"@,
                update_payload(version@, scope@),
                now,
            )
        } else {
            final(state)@ == old(state)@
        },
{
    let shown =
        "Via binaries updated. Restart running daemons to use the new binary.".to_owned();
    if state.mesh().is_none() {
        return (false, shown);
    }
    let fields: Vec<(String, Value)> = vec![
        text_value("scope", scope),
        text_value("version", version),
    ];
    let payload = Payload::Object(fields);
    proof {
        assert(payload@ =~= update_payload(version@, scope@));
    }
    state.append_event("via.updated", payload, now);
    state.persist();
    (true, shown)
}

} // verus!
