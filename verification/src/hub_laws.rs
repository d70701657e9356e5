//! What a hub keeps, whom it serves, and what its rows say.

use crate::encoding;
use crate::grants;
use crate::grants::{GrantView, HeaderView};
use crate::hub;
use crate::hub::{ConfigView, HubNodeView, InvitePlan, InviteView, PostCmdView};
use crate::hub_db;
use crate::hub_db::{AgentView, MachineView};
use crate::hub_server;
use crate::hub_server::{AnswerView, PostActionView, PostEventView, WaitedView};
use crate::number;
use crate::rpc::FrameView;
use crate::security;
use crate::state;
use crate::state::StateView;
use crate::store;
use crate::text;
use crate::util;
use vstd::prelude::*;

verus! {

// ---------------------------------------------------------------------------
// Calls of the store.

/// An insertion names the table and hands over each field with its value, in order; an update
/// sets each field where the key has the value, and nowhere else; and a selection asks for the
/// rows where the key has the value.
pub proof fn law_store_calls_say_all(
    table: Seq<char>,
    fields: Seq<(Seq<char>, Seq<char>)>,
    key: Seq<char>,
    value: Seq<char>,
    saved: bool,
    i: int,
)
    requires
        0 <= i < fields.len(),
    ensures
        ({
            let put = store::insertion(table, fields);
            let set = store::update(table, fields, key, value, saved);
            let n = 2 * fields.len();
            &&& put.call.name == "TINSERT"@
            &&& put.saved
            &&& put.call.args.len() == 1 + n
            &&& put.call.args[0] == table
            &&& put.call.args[1 + 2 * i] == fields[i].0
            &&& put.call.args[2 + 2 * i] == fields[i].1
            &&& set.call.name == "TUPDATE"@
            &&& set.saved == saved
            &&& set.excused is None
            &&& set.call.args.len() == 6 + n
            &&& set.call.args[0] == table
            &&& set.call.args[1] == "SET"@
            &&& set.call.args[2 + 2 * i] == fields[i].0
            &&& set.call.args[3 + 2 * i] == fields[i].1
            &&& set.call.args.skip(2 + n as int) == seq!["WHERE"@, key, "="@, value]
        }),
        store::selection(table, key, value, false).name == "TSELECT"@,
        store::selection(table, key, value, false).args == seq![
            "*"@,
            "FROM"@,
            table,
            "WHERE"@,
            key,
            "="@,
            value,
        ],
        store::selection(table, key, value, true).args == seq![
            "*"@,
            "FROM"@,
            table,
            "WHERE"@,
            key,
            "="@,
            value,
            "LIMIT"@,
            "1"@,
        ],
{
    lemma_flat(fields, i);
    let set = store::update(table, fields, key, value, saved);
    let n = 2 * fields.len() as int;
    assert(set.call.args.skip(2 + n) =~= seq!["WHERE"@, key, "="@, value]);
    assert(store::selection(table, key, value, true).args =~= seq![
        "*"@,
        "FROM"@,
        table,
        "WHERE"@,
        key,
        "="@,
        value,
        "LIMIT"@,
        "1"@,
    ]);
}

proof fn lemma_flat(fields: Seq<(Seq<char>, Seq<char>)>, i: int)
    requires
        0 <= i < fields.len(),
    ensures
        store::flat(fields).len() == 2 * fields.len(),
        store::flat(fields)[2 * i] == fields[i].0,
        store::flat(fields)[2 * i + 1] == fields[i].1,
    decreases fields.len(),
{
    let p = fields.drop_last();
    if p.len() > 0 {
        lemma_flat(
            p,
            if i < p.len() {
                i
            } else {
                0
            },
        );
        if i < p.len() {
            assert(p[i] == fields[i]);
        }
    } else {
        assert(store::flat(p) =~= Seq::empty());
    }
}

/// The field of a row is the last one with its name.
pub proof fn law_last_field_counts(row: Seq<(Seq<char>, Seq<char>)>, i: int)
    requires
        0 <= i < row.len(),
        forall|j: int| i < j < row.len() ==> (#[trigger] row[j]).0 != row[i].0,
    ensures
        store::field_of(row, row[i].0) == Some(row[i].1),
    decreases row.len(),
{
    let p = row.drop_last();
    if i < p.len() {
        assert(row[row.len() - 1].0 != row[i].0);
        assert(p[i] == row[i]);
        assert forall|j: int| i < j < p.len() implies (#[trigger] p[j]).0 != p[i].0 by {
            assert(row[j].0 != row[i].0);
        }
        law_last_field_counts(p, i);
    }
}

/// A row that was kept field by field is read back with these fields, in order.
pub proof fn law_rows_are_read_field_by_field(
    row: Seq<(Seq<char>, Seq<char>)>,
    cells: Seq<store::CellView>,
)
    requires
        cells.len() == 2 * row.len(),
        forall|i: int|
            #![trigger row[i]]
            0 <= i < row.len() ==> cells[2 * i] == store::CellView::Simple(row[i].0) && cells[2 * i
                + 1] == store::CellView::Simple(row[i].1),
    ensures
        store::row_outcome(store::RowReplyView::Cells(cells)) == Ok::<
            Seq<(Seq<char>, Seq<char>)>,
            Seq<char>,
        >(row),
{
    lemma_fields_in(row, cells, row.len());
    assert(row.take(row.len() as int) =~= row);
}

proof fn lemma_fields_in(
    row: Seq<(Seq<char>, Seq<char>)>,
    cells: Seq<store::CellView>,
    n: nat,
)
    requires
        cells.len() == 2 * row.len(),
        n <= row.len(),
        forall|i: int|
            #![trigger row[i]]
            0 <= i < row.len() ==> cells[2 * i] == store::CellView::Simple(row[i].0) && cells[2 * i
                + 1] == store::CellView::Simple(row[i].1),
    ensures
        store::fields_in(cells, n) == Ok::<Seq<(Seq<char>, Seq<char>)>, Seq<char>>(
            row.take(n as int),
        ),
    decreases n,
{
    if n > 0 {
        lemma_fields_in(row, cells, (n - 1) as nat);
        let r = row[n - 1];
        assert(cells[2 * (n - 1)] == store::CellView::Simple(r.0));
        assert(row.take(n as int) =~= row.take(n - 1).push(r));
    } else {
        assert(row.take(0) =~= Seq::empty());
    }
}

proof fn lemma_node_words()
    ensures
        "id"@ != "os"@,
        "mesh"@ != "name"@ && "mesh"@ != "slug"@ && "mesh"@ != "arch"@ && "mesh"@ != "seen"@,
        "name"@ != "slug"@ && "name"@ != "arch"@ && "name"@ != "seen"@,
        "slug"@ != "arch"@ && "slug"@ != "seen"@ && "arch"@ != "seen"@,
        "id"@.len() == 2 && "os"@.len() == 2 && "ver"@.len() == 3,
        "mesh"@.len() == 4 && "name"@.len() == 4 && "slug"@.len() == 4 && "arch"@.len() == 4,
        "seen"@.len() == 4 && "status"@.len() == 6,
{
    reveal_strlit("id");
    reveal_strlit("os");
    reveal_strlit("ver");
    reveal_strlit("mesh");
    reveal_strlit("name");
    reveal_strlit("slug");
    reveal_strlit("arch");
    reveal_strlit("seen");
    reveal_strlit("status");
    assert("id"@[0] == 'i' && "os"@[0] == 'o');
    assert("mesh"@[0] == 'm' && "name"@[0] == 'n' && "slug"@[0] == 's' && "arch"@[0] == 'a');
    assert("seen"@[0] == 's' && "slug"@[1] == 'l' && "seen"@[1] == 'e');
}

// ---------------------------------------------------------------------------
// Nodes of a hub.

/// A node that registered is listed under its slug with its identifier, as online and seen
/// then; once its session ended it is listed as offline and seen at the end, and else as it
/// was.
pub proof fn law_registered_nodes_are_listed(
    mesh: Seq<char>,
    node: Seq<char>,
    slug: Seq<char>,
    machine: MachineView,
    now: i64,
    then: i64,
)
    requires
        slug.len() > 0,
    ensures
        ({
            let row = hub_db::node_row(mesh, node, slug, machine, now);
            let left = store::row_after(row, hub_db::seen_sets("offline"@, then));
            &&& hub_db::node_in(row) == HubNodeView {
                id: node,
                slug,
                name: slug,
                status: "online"@,
                seen: now,
            }
            &&& hub_db::node_in(left) == HubNodeView {
                id: node,
                slug,
                name: slug,
                status: "offline"@,
                seen: then,
            }
            &&& store::field_of(row, "mesh"@) == Some(mesh)
            &&& store::field_of(row, "os"@) == Some(machine.os)
            &&& store::field_of(row, "arch"@) == Some(machine.arch)
            &&& store::field_of(row, "ver"@) == Some(machine.version)
        }),
{
    lemma_node_words();
    let row = hub_db::node_row(mesh, node, slug, machine, now);
    let sets = hub_db::seen_sets("offline"@, then);
    number::lemma_read_back(now);
    number::lemma_read_back(then);
    law_last_field_counts(row, 0);
    law_last_field_counts(row, 1);
    law_last_field_counts(row, 2);
    law_last_field_counts(row, 3);
    law_last_field_counts(row, 4);
    law_last_field_counts(row, 5);
    law_last_field_counts(row, 6);
    law_last_field_counts(row, 7);
    law_last_field_counts(row, 8);
    law_last_field_counts(sets, 0);
    law_last_field_counts(sets, 1);
    lemma_field_absent(sets, "id"@);
    lemma_field_absent(sets, "slug"@);
    lemma_field_absent(sets, "name"@);
    store::lemma_field_after(row, sets, "id"@);
    store::lemma_field_after(row, sets, "slug"@);
    store::lemma_field_after(row, sets, "name"@);
    store::lemma_field_after(row, sets, "status"@);
    store::lemma_field_after(row, sets, "seen"@);
}

proof fn lemma_field_absent(row: Seq<(Seq<char>, Seq<char>)>, key: Seq<char>)
    requires
        forall|i: int| 0 <= i < row.len() ==> (#[trigger] row[i]).0 != key,
    ensures
        store::field_of(row, key) is None,
    decreases row.len(),
{
    if row.len() > 0 {
        let p = row.drop_last();
        assert(row[row.len() - 1].0 != key);
        assert forall|i: int| 0 <= i < p.len() implies (#[trigger] p[i]).0 != key by {
            assert(p[i] == row[i]);
        }
        lemma_field_absent(p, key);
    }
}

/// Every row that has a slug is listed, in order, and no other.
pub proof fn law_every_node_is_listed(rows: Seq<Seq<(Seq<char>, Seq<char>)>>)
    ensures
        hub_db::nodes_in(rows) == rows.map_values(
            |row: Seq<(Seq<char>, Seq<char>)>| hub_db::node_in(row),
        ).filter(|n: HubNodeView| n.slug.len() > 0),
    decreases rows.len(),
{
    reveal(Seq::filter);
    let all = rows.map_values(|row: Seq<(Seq<char>, Seq<char>)>| hub_db::node_in(row));
    let good = |n: HubNodeView| n.slug.len() > 0;
    if rows.len() > 0 {
        let p = rows.drop_last();
        law_every_node_is_listed(p);
        assert(all.drop_last() =~= p.map_values(
            |row: Seq<(Seq<char>, Seq<char>)>| hub_db::node_in(row),
        ));
        assert(all.last() == hub_db::node_in(rows.last()));
        assert(all.filter(good) == if good(all.last()) {
            all.drop_last().filter(good).push(all.last())
        } else {
            all.drop_last().filter(good)
        });
    } else {
        assert(all.filter(good) =~= Seq::empty());
    }
}

/// As many nodes are shown as connected as there are online ones.
pub proof fn law_online_nodes_are_counted(nodes: Seq<HubNodeView>)
    ensures
        hub::online_count(nodes) == nodes.filter(|n: HubNodeView| n.status == "online"@).len(),
        hub::online_count(nodes) <= nodes.len(),
    decreases nodes.len(),
{
    reveal(Seq::filter);
    let online = |n: HubNodeView| n.status == "online"@;
    if nodes.len() > 0 {
        law_online_nodes_are_counted(nodes.drop_last());
    } else {
        assert(nodes.filter(online) =~= Seq::empty());
    }
}

// ---------------------------------------------------------------------------
// Commands.

proof fn lemma_cmd_words()
    ensures
        "id"@.len() == 2 && "mesh"@.len() == 4 && "src"@.len() == 3 && "dst"@.len() == 3,
        "state"@.len() == 5 && "req"@.len() == 3 && "res"@.len() == 3 && "created"@.len() == 7,
        "updated"@.len() == 7 && "exp"@.len() == 3,
        "src"@ != "dst"@ && "src"@ != "req"@ && "src"@ != "res"@ && "src"@ != "exp"@,
        "dst"@ != "req"@ && "dst"@ != "res"@ && "dst"@ != "exp"@,
        "req"@ != "res"@ && "req"@ != "exp"@ && "res"@ != "exp"@,
        "created"@ != "updated"@,
{
    reveal_strlit("id");
    reveal_strlit("mesh");
    reveal_strlit("src");
    reveal_strlit("dst");
    reveal_strlit("state");
    reveal_strlit("req");
    reveal_strlit("res");
    reveal_strlit("created");
    reveal_strlit("updated");
    reveal_strlit("exp");
    assert("src"@[0] == 's' && "dst"@[0] == 'd' && "req"@[0] == 'r' && "res"@[0] == 'r');
    assert("exp"@[0] == 'e' && "req"@[2] == 'q' && "res"@[2] == 's');
    assert("created"@[0] == 'c' && "updated"@[0] == 'u');
}

/// A command is kept as it was posted, as pending, and ends in a minute; once it is finished
/// its row tells how, and what the answer was.
pub proof fn law_commands_are_kept_as_posted(
    id: Seq<char>,
    req: PostCmdView,
    now: i64,
    waited: WaitedView,
    then: i64,
)
    ensures
        ({
            let row = hub_db::cmd_row(id, req, now);
            let end = hub_server::ended_cmd(id, waited);
            let done = store::row_after(row, hub_db::finish_sets(end, then));
            &&& store::field_of(row, "id"@) == Some(id)
            &&& store::field_of(row, "mesh"@) == Some(req.mesh)
            &&& store::field_of(row, "src"@) == Some(req.src)
            &&& store::field_of(row, "dst"@) == Some(req.dst)
            &&& store::field_of(row, "req"@) == Some(req.req)
            &&& store::field_of(row, "state"@) == Some("pending"@)
            &&& store::field_of(row, "created"@) == Some(number::decimal(now as int))
            &&& store::field_of(row, "exp"@) == Some(number::decimal(now + 60))
            &&& end.id == id
            &&& waited matches WaitedView::Replied(answer) ==> end.res == Some(answer)
                && end.err is None && store::field_of(done, "state"@) == Some("done"@)
                && store::field_of(done, "res"@) == Some(answer) && hub::relayed_outcome(end)
                == Ok::<Seq<char>, Seq<char>>(answer)
            &&& !(waited is Replied) ==> end.res is None && end.err is Some && store::field_of(
                done,
                "state"@,
            ) == Some("error"@) && hub::relayed_outcome(end) is Err
            &&& store::field_of(done, "updated"@) == Some(number::decimal(then as int))
            &&& store::field_of(done, "req"@) == Some(req.req)
        }),
{
    lemma_cmd_words();
    let row = hub_db::cmd_row(id, req, now);
    let end = hub_server::ended_cmd(id, waited);
    let sets = hub_db::finish_sets(end, then);
    law_last_field_counts(row, 0);
    law_last_field_counts(row, 1);
    law_last_field_counts(row, 2);
    law_last_field_counts(row, 3);
    law_last_field_counts(row, 4);
    law_last_field_counts(row, 5);
    law_last_field_counts(row, 7);
    law_last_field_counts(row, 9);
    law_last_field_counts(sets, 0);
    law_last_field_counts(sets, 1);
    law_last_field_counts(sets, 2);
    lemma_field_absent(sets, "req"@);
    store::lemma_field_after(row, sets, "state"@);
    store::lemma_field_after(row, sets, "res"@);
    store::lemma_field_after(row, sets, "updated"@);
    store::lemma_field_after(row, sets, "req"@);
}

/// A command takes its way step by step: the token of its sender is looked for, the command is
/// kept, the node that it is for is looked for, the command is handed over as it is, and what
/// comes back is kept and answered. Each step that fails ends it with an answer that says so.
pub proof fn law_commands_take_their_way(
    id: Seq<char>,
    req: PostCmdView,
    now: i64,
    e: Seq<char>,
    waited: WaitedView,
)
    ensures
        req.token is None ==> hub_server::next_action(id, req, PostEventView::Arrived, now)
            == PostActionView::Answer(AnswerView::Said { status: 401, text: "missing hub token"@ }),
        req.token is Some ==> hub_server::next_action(id, req, PostEventView::Arrived, now)
            == PostActionView::Look(
            store::selection("tokens"@, "hash"@, hub_db::token_hash(req.token->Some_0), true),
        ),
        hub_server::next_action(
            id,
            req,
            PostEventView::Looked(Ok::<Option<Seq<(Seq<char>, Seq<char>)>>, Seq<char>>(None)),
            now,
        ) == PostActionView::Answer(AnswerView::Said { status: 401, text: "invalid hub token"@ }),
        hub_server::next_action(
            id,
            req,
            PostEventView::Stored(Err::<(), Seq<char>>(e)),
            now,
        ) == PostActionView::Answer(AnswerView::Said { status: 400, text: e }),
        hub_server::next_action(
            id,
            req,
            PostEventView::Stored(Ok::<(), Seq<char>>(())),
            now,
        ) == (PostActionView::FindSession { mesh: req.mesh, dst: req.dst }),
        hub_server::next_action(id, req, PostEventView::Session(true), now) == (
        PostActionView::Relay { id, req: req.req }),
        ({
            let gone = hub_server::next_action(id, req, PostEventView::Session(false), now);
            &&& gone is Answer && gone->Answer_0 is Cmd && gone->Answer_0->Cmd_status == 404
            &&& hub::relayed_outcome(gone->Answer_0->response) == Err::<Seq<char>, Seq<char>>(
                "node '"@ + req.dst + "' is not connected to the hub"@,
            )
        }),
        ({
            let lost = hub_server::next_action(
                id,
                req,
                PostEventView::Relayed(Err::<(), Seq<char>>(e)),
                now,
            );
            &&& lost is Answer && lost->Answer_0 is Cmd && lost->Answer_0->Cmd_status == 502
            &&& hub::relayed_outcome(lost->Answer_0->response) == Err::<Seq<char>, Seq<char>>(
                "failed to relay command: "@ + e,
            )
        }),
        hub_server::next_action(
            id,
            req,
            PostEventView::Relayed(Ok::<(), Seq<char>>(())),
            now,
        ) == PostActionView::Wait,
        ({
            let end = hub_server::next_action(id, req, PostEventView::Ended(waited), now);
            &&& end is Finish
            &&& end->Finish_response.id == id
            &&& waited matches WaitedView::Replied(answer) ==> hub::relayed_outcome(
                end->Finish_response,
            ) == Ok::<Seq<char>, Seq<char>>(answer)
            &&& !(waited is Replied) ==> hub::relayed_outcome(end->Finish_response) is Err
            &&& end->Finish_step == store::update(
                "cmds"@,
                hub_db::finish_sets(end->Finish_response, now),
                "id"@,
                id,
                true,
            )
        }),
{
}

/// A hub without an administrator's token is open to all; one with a token lets in exactly
/// those who show it.
pub proof fn law_administrators_show_their_token(
    token: Seq<char>,
    header: HeaderView,
)
    ensures
        hub_server::admin_outcome(None, header) is Ok,
        (hub_server::admin_outcome(Some(token), header) is Ok) == (header == HeaderView::Text(
            "Bearer "@ + token,
        )),
{
}

/// A request for another node is posted to this node's hub, in the name of this node's mesh and
/// slug, with this node's token, for that node.
pub proof fn law_requests_are_posted_in_this_nodes_name(
    config: ConfigView,
    st: StateView,
    dst: Seq<char>,
    frame: FrameView,
)
    requires
        st.mesh is Some,
        state::local(st) is Ok,
    ensures
        hub::relay_parts(Some(config), st) is Ok,
        hub::relay_parts(None, st) is Err,
        ({
            let call = hub::relay_call(hub::relay_parts(Some(config), st)->Ok_0, dst, frame);
            &&& call.url == config.url + "/v1/cmds"@
            &&& call.bearer is None
            &&& call.request is PostCmd
            &&& call.request->PostCmd_0.mesh == st.mesh->Some_0.id
            &&& call.request->PostCmd_0.src == state::local(st)->Ok_0.slug
            &&& call.request->PostCmd_0.dst == dst
            &&& call.request->PostCmd_0.req == frame
            &&& call.request->PostCmd_0.token == config.token
        }),
{
}

/// Asking a hub for its nodes takes a hub, this node's token for it, and a mesh.
pub proof fn law_who_can_list_nodes(config: Option<ConfigView>, st: StateView)
    ensures
        ({
            let r = hub::listing_parts(config, st);
            &&& (r is Ok) == (config is Some && config->Some_0.token is Some && st.mesh is Some
                && state::local(st) is Ok)
            &&& r is Ok ==> r->Ok_0.0 == config->Some_0.url && r->Ok_0.1
                == config->Some_0.token->Some_0 && r->Ok_0.2 == st.mesh->Some_0.id && r->Ok_0.3
                == state::local(st)->Ok_0
        }),
{
}

// ---------------------------------------------------------------------------
// Invites.

/// An invite brings a machine into this mesh: it names this node's hub and mesh and holds the
/// key of the mesh, and the token in it is the one that the hub was told of; so the hub lets
/// the machine in until the invite ends, and the machine then has the key.
pub proof fn law_invites_lead_into_this_mesh(
    p: InvitePlan,
    url: Seq<char>,
    mesh: Seq<char>,
    key_file: Seq<char>,
    bearer: Option<Seq<char>>,
    name: Option<Seq<char>>,
    exp: i64,
    secret: Seq<char>,
    id: Seq<char>,
    made: i64,
    given: Option<Seq<char>>,
    host: Result<Seq<char>, Seq<char>>,
    now: i64,
    token: Seq<char>,
)
    requires
        hub::is_invite_plan(p, url, mesh, key_file, bearer, name, exp as int, secret),
        security::key_outcome(key_file) is Ok,
        util::slug_outcome(hub::join_name(given, p.invite@, host)) is Ok,
    ensures
        ({
            let invite = p.invite@;
            let told = p.create_token@.request;
            let row = hub_db::invite_row(
                id,
                told->CreateToken_mesh,
                told->CreateToken_name,
                told->CreateToken_token,
                told->CreateToken_exp,
                made,
            );
            let none = hub::FilesView { mesh_key: None, hub_config: None };
            let after = hub::after_join(
                none,
                given,
                invite,
                host,
                now,
                Ok::<Seq<char>, Seq<char>>(token),
            );
            &&& told is CreateToken
            &&& p.create_token@.url == url + "/v1/tokens"@
            &&& p.create_token@.bearer == bearer
            &&& p.create_mesh@.url == url + "/v1/meshes"@
            &&& p.create_mesh@.request is CreateMesh
            &&& p.create_mesh@.request->CreateMesh_id == mesh
            &&& invite.hub == url
            &&& invite.mesh == mesh
            &&& store::field_of(row, "hash"@) == Some(hub_db::token_hash(invite.token))
            &&& (hub_db::invite_outcome(Some(row), invite.mesh, now) is Ok) == !(0 < exp < now)
            &&& now <= exp ==> after.1 is Ok && after.0.hub_config == Some(
                ConfigView { url, token: Some(token) },
            ) && security::key_outcome(after.0.mesh_key->Some_0) == security::key_outcome(
                key_file,
            )
            &&& exp < now ==> after.1 is Err && after.0 == none
        }),
{
    let invite = p.invite@;
    let row = hub_db::invite_row(id, mesh, name, secret, exp, made);
    hub_db::law_invite_is_good_once(id, mesh, name, secret, exp, made, mesh, mesh, now);
    hub::law_refused_join_changes_nothing(
        hub::FilesView { mesh_key: None, hub_config: None },
        given,
        invite,
        host,
        now,
        Ok::<Seq<char>, Seq<char>>(token),
    );
    text::lemma_trimmed_idempotent(key_file);
    lemma_hash_field(row);
}

proof fn lemma_hash_field(row: Seq<(Seq<char>, Seq<char>)>)
    requires
        row.len() == 9,
        row[2].0 == "hash"@,
        row[3].0 == "kind"@,
        row[4].0 == "node"@,
        row[5].0 == "name"@,
        row[6].0 == "exp"@,
        row[7].0 == "used"@,
        row[8].0 == "created"@,
    ensures
        store::field_of(row, "hash"@) == Some(row[2].1),
{
    reveal_strlit("hash");
    reveal_strlit("kind");
    reveal_strlit("node");
    reveal_strlit("name");
    reveal_strlit("exp");
    reveal_strlit("used");
    reveal_strlit("created");
    assert("hash"@[0] == 'h' && "kind"@[0] == 'k' && "node"@[0] == 'n' && "name"@[0] == 'n');
    assert("used"@[0] == 'u');
    law_last_field_counts(row, 2);
}

/// An invite lasts as long as was asked for, and at least a minute.
pub proof fn law_invites_last_at_least_a_minute(now: i64, ttl: i64)
    ensures
        ttl >= 60 ==> hub::invite_end(now, ttl) == now + ttl,
        ttl < 60 ==> hub::invite_end(now, ttl) == now + 60,
{
}

/// A machine joins under the name that it is given, or else the one in the invite, or else its
/// own; and exactly with an invite of the known kind that has not ended, if the name makes a
/// slug.
pub proof fn law_who_can_join(
    name: Option<Seq<char>>,
    invite: InviteView,
    host: Seq<char>,
    now: i64,
)
    ensures
        ({
            let called = if name is Some {
                name->Some_0
            } else if invite.name is Some {
                invite.name->Some_0
            } else {
                host
            };
            let r = hub::join_outcome(name, invite, Ok::<Seq<char>, Seq<char>>(host), now);
            &&& (r is Ok) == (invite.v == 1 && now <= invite.exp && util::slug_outcome(
                called,
            ) is Ok)
            &&& r is Ok ==> r->Ok_0.0 == called && util::slug_outcome(called) == Ok::<
                Seq<char>,
                Seq<char>,
            >(r->Ok_0.1)
        }),
{
}

/// The administrator's token comes before the API key, where both are at hand.
pub proof fn law_the_administrators_token_comes_first(
    admin: Option<Seq<char>>,
    key: Option<Seq<char>>,
)
    ensures
        ({
            let r = hub::bearer_of(admin, Ok::<Option<Seq<char>>, Seq<char>>(key));
            &&& admin is Some && admin->Some_0.len() > 0 ==> r == admin
            &&& !(admin is Some && admin->Some_0.len() > 0) ==> r == key
        }),
{
}

// ---------------------------------------------------------------------------
// Grants.

/// A grant is accepted exactly where it is of the known kind, has not ended, tells its
/// identifier, its account and its mesh, is meant for this hub, and did not come before.
pub proof fn law_which_grants_are_accepted(
    seen: Seq<(Seq<char>, i64)>,
    claims: GrantView,
    audience: Seq<char>,
    now: i64,
)
    ensures
        (grants::accept_outcome(
            seen,
            claims,
            Ok::<Seq<char>, Seq<char>>(audience),
            now,
        ) is Ok) == (claims.v == 1 && now <= claims.exp && text::trimmed(claims.jti).len() > 0
            && text::trimmed(claims.account).len() > 0 && text::trimmed(claims.mesh).len() > 0
            && crate::urls::http_url_outcome(claims.aud) == Ok::<Seq<char>, Seq<char>>(audience)
            && forall|i: int|
            0 <= i < seen.len() && (#[trigger] seen[i]).0 == claims.jti ==> seen[i].1 < now),
{
    lemma_standing(seen, now);
    let left = grants::standing(seen, now);
    if grants::is_seen(left, claims.jti) {
        let k = choose|k: int| 0 <= k < left.len() && (#[trigger] left[k]).0 == claims.jti;
        assert(left.contains(left[k]));
        let i = choose|i: int| 0 <= i < seen.len() && seen[i] == left[k];
        assert(seen[i].0 == claims.jti && seen[i].1 >= now);
    } else {
        assert forall|i: int|
            0 <= i < seen.len() && (#[trigger] seen[i]).0 == claims.jti implies seen[i].1 < now by {
            if seen[i].1 >= now {
                assert(left.contains(seen[i]));
                let k = choose|k: int| 0 <= k < left.len() && left[k] == seen[i];
                assert(left[k].0 == claims.jti);
            }
        }
    }
}

proof fn lemma_standing(seen: Seq<(Seq<char>, i64)>, now: i64)
    ensures
        forall|i: int|
            0 <= i < seen.len() && (#[trigger] seen[i]).1 >= now ==> grants::standing(
                seen,
                now,
            ).contains(seen[i]),
        forall|k: int|
            0 <= k < grants::standing(seen, now).len() ==> (#[trigger] grants::standing(
                seen,
                now,
            )[k]).1 >= now && seen.contains(grants::standing(seen, now)[k]),
    decreases seen.len(),
{
    if seen.len() > 0 {
        let p = seen.drop_last();
        let n = seen.len() - 1;
        lemma_standing(p, now);
        let before = grants::standing(p, now);
        let left = grants::standing(seen, now);
        assert forall|i: int| 0 <= i < seen.len() && (#[trigger] seen[i]).1 >= now implies
            left.contains(seen[i]) by {
            if i < n {
                assert(p[i] == seen[i]);
                let k = choose|k: int| 0 <= k < before.len() && before[k] == seen[i];
                assert(left[k] == seen[i]);
            } else {
                assert(left[left.len() - 1] == seen[i]);
            }
        }
        assert forall|k: int| 0 <= k < left.len() implies (#[trigger] left[k]).1 >= now
            && seen.contains(left[k]) by {
            if k < before.len() {
                assert(left[k] == before[k]);
                let i = choose|i: int| 0 <= i < p.len() && p[i] == before[k];
                assert(seen[i] == left[k]);
            } else {
                assert(seen[n] == left[k]);
            }
        }
    }
}

/// What is signed of a grant is the first of its two parts, and the signature is the second;
/// its prefix is left out.
pub proof fn law_grants_have_two_parts(payload: Seq<char>, signature: Seq<char>)
    requires
        !payload.contains('.'),
        !signature.contains('.'),
        !grants::GRANT_PREFIX@.is_prefix_of(payload + "."@ + signature),
    ensures
        grants::parts_outcome(payload + "."@ + signature) == Ok::<
            Option<(Seq<char>, Seq<char>)>,
            Seq<char>,
        >(Some((payload, signature))),
        grants::parts_outcome(grants::GRANT_PREFIX@ + (payload + "."@ + signature)) == Ok::<
            Option<(Seq<char>, Seq<char>)>,
            Seq<char>,
        >(Some((payload, signature))),
        grants::parts_outcome(grants::GRANT_PREFIX@ + payload) is Err,
{
    reveal_strlit(".");
    assert("."@ =~= seq!['.']);
    let x = grants::GRANT_PREFIX@;
    let raw = payload + "."@ + signature;
    assert forall|k: int| 0 <= k < payload.len() implies #[trigger] raw[k] != '.' by {
        assert(raw[k] == payload[k]);
        assert(payload.contains(payload[k]));
    }
    assert(raw[payload.len() as int] == '.');
    text::lemma_first_at(raw, '.', payload.len() as int);
    assert(raw.contains('.'));
    assert(raw.take(payload.len() as int) =~= payload);
    assert(raw.skip(payload.len() as int + 1) =~= signature);
    text::lemma_first_at_shape(signature, '.');
    assert(text::pieces(signature, '.') =~= seq![signature]);
    assert(text::pieces(raw, '.') =~= seq![payload, signature]);
    let whole = x + raw;
    assert(whole.take(x.len() as int) =~= x);
    assert(whole.skip(x.len() as int) =~= raw);
    let bare = x + payload;
    assert(bare.take(x.len() as int) =~= x);
    assert(bare.skip(x.len() as int) =~= payload);
    text::lemma_first_at_shape(payload, '.');
    assert(text::pieces(payload, '.') =~= seq![payload]);
}

/// Only what the issuer signed is taken for a grant.
pub proof fn law_grants_are_read_only_where_signed(
    issuer: Seq<u8>,
    payload: Seq<char>,
    signature: Seq<char>,
    json: Result<(Seq<char>, Seq<char>), Seq<char>>,
)
    requires
        !payload.contains('.'),
        !signature.contains('.'),
        !grants::GRANT_PREFIX@.is_prefix_of(payload + "."@ + signature),
    ensures
        ({
            let r = grants::payload_outcome(Some(issuer), payload + "."@ + signature, json);
            let p = encoding::url_decoded(payload);
            let s = encoding::any_decoded(signature);
            (r is Ok) == (p is Ok && s is Ok && s->Ok_0.len() == 64
                && crate::crypto::ed25519_accepts(issuer, p->Ok_0, s->Ok_0)) && (r is Ok ==> r == p)
        }),
{
    law_grants_have_two_parts(payload, signature);
}

// ---------------------------------------------------------------------------
// Taking steps and making tables.

/// A step of the store is well where nothing was complained of, or where the complaint says
/// what is excused, in upper or lower case; else the complaint is passed on.
pub proof fn law_excused_complaints_are_passed_over(
    step: store::StoreStepView,
    error: Seq<char>,
)
    ensures
        store::step_outcome(step, None) == Ok::<bool, Seq<char>>(step.saved),
        step.excused is None ==> store::step_outcome(step, Some(error)) == Err::<bool, Seq<char>>(
            error,
        ),
        step.excused is Some && text::holds(text::lowered(error), step.excused->Some_0)
            ==> store::step_outcome(step, Some(error)) == Ok::<bool, Seq<char>>(false),
        step.excused is Some && !text::holds(text::lowered(error), step.excused->Some_0)
            ==> store::step_outcome(step, Some(error)) == Err::<bool, Seq<char>>(error),
{
}

/// Every row of an answer is read, in order, or the first that cannot be is complained of.
pub proof fn law_every_row_is_read(v: Seq<store::RowReplyView>, i: int)
    requires
        0 <= i < v.len(),
    ensures
        (store::rows_in(v) is Ok) == (forall|j: int|
            0 <= j < v.len() ==> store::row_outcome(#[trigger] v[j]) is Ok),
        store::rows_in(v) is Ok ==> store::rows_in(v)->Ok_0.len() == v.len()
            && store::row_outcome(v[i]) == Ok::<Seq<(Seq<char>, Seq<char>)>, Seq<char>>(
            store::rows_in(v)->Ok_0[i],
        ),
    decreases v.len(),
{
    let t = v.skip(1);
    if t.len() > 0 {
        law_every_row_is_read(
            t,
            if i > 0 {
                i - 1
            } else {
                0
            },
        );
        if i > 0 {
            assert(t[i - 1] == v[i]);
        }
        if store::rows_in(v) is Ok {
            assert forall|j: int| 0 <= j < v.len() implies store::row_outcome(
                #[trigger] v[j],
            ) is Ok by {
                if j > 0 {
                    assert(store::row_outcome(t[j - 1]) is Ok);
                }
            }
        } else if forall|j: int| 0 <= j < v.len() ==> store::row_outcome(#[trigger] v[j]) is Ok {
            assert(store::row_outcome(v[0]) is Ok);
            assert forall|j: int| 0 <= j < t.len() implies store::row_outcome(
                #[trigger] t[j],
            ) is Ok by {
                assert(t[j] == v[j + 1]);
            }
        }
    } else {
        assert(store::rows_in(t) is Ok);
        assert(store::rows_in(t)->Ok_0.len() == 0);
        if store::row_outcome(v[0]) is Ok {
            assert forall|j: int| 0 <= j < v.len() implies store::row_outcome(
                #[trigger] v[j],
            ) is Ok by {}
        }
    }
}

/// The commands of a migration are its lines without white space around them, but for those
/// that are empty or comments.
pub proof fn law_comments_are_no_commands(lines: Seq<Seq<char>>)
    ensures
        store::command_lines(lines) == lines.map_values(
            |line: Seq<char>| text::trimmed(line),
        ).filter(
            |line: Seq<char>|
                line.len() > 0 && !"#"@.is_prefix_of(line) && !"--"@.is_prefix_of(line),
        ),
    decreases lines.len(),
{
    reveal(Seq::filter);
    let trim = |line: Seq<char>| text::trimmed(line);
    let good = |line: Seq<char>|
        line.len() > 0 && !"#"@.is_prefix_of(line) && !"--"@.is_prefix_of(line);
    let all = lines.map_values(trim);
    if lines.len() > 0 {
        let p = lines.drop_last();
        law_comments_are_no_commands(p);
        assert(all.drop_last() =~= p.map_values(trim));
        assert(all.last() == text::trimmed(lines.last()));
    } else {
        assert(all.filter(good) =~= Seq::empty());
    }
}

/// Each command of a migration becomes a step: its first word is what is called, with the
/// others, and what exists already is passed over.
pub proof fn law_every_command_is_a_step(commands: Seq<Seq<Seq<char>>>, i: int)
    requires
        forall|j: int| 0 <= j < commands.len() ==> (#[trigger] commands[j]).len() > 0,
        0 <= i < commands.len(),
    ensures
        store::planned(commands).1 is None,
        store::planned(commands).0.len() == commands.len(),
        store::planned(commands).0[i].call.name == commands[i][0],
        store::planned(commands).0[i].call.args == commands[i].skip(1),
        store::planned(commands).0[i].excused == Some("exists"@),
        !store::planned(commands).0[i].saved,
    decreases commands.len(),
{
    let t = commands.skip(1);
    assert(commands[0].len() > 0);
    if t.len() > 0 {
        assert forall|j: int| 0 <= j < t.len() implies (#[trigger] t[j]).len() > 0 by {
            assert(t[j] == commands[j + 1]);
        }
        law_every_command_is_a_step(
            t,
            if i > 0 {
                i - 1
            } else {
                0
            },
        );
        if i > 0 {
            assert(t[i - 1] == commands[i]);
        }
    } else {
        assert(store::planned(t).0 =~= Seq::empty());
    }
}

/// A node registers by being added to the nodes, unless it is there, and by being marked as
/// online; it gets a token of its own for its mesh and slug, which the hub keeps as a hash.
pub proof fn law_registering_keeps_node_and_token(
    plan: hub_db::RegisterPlan,
    first: Seq<store::StoreStepView>,
    token: Seq<char>,
    mesh: Seq<char>,
    node: Seq<char>,
    slug: Seq<char>,
    machine: MachineView,
    now: i64,
)
    requires
        hub_db::registered_with(
            plan,
            first,
            Ok::<Seq<char>, Seq<char>>(token),
            mesh,
            node,
            slug,
            machine,
            now,
        ),
    ensures
        ({
            let steps = store::store_steps(plan.steps@);
            let n = first.len() as int;
            &&& plan.token matches Ok(t) && t@ == token
            &&& steps.len() == n + 3
            &&& steps.take(n) == first
            &&& steps[n] == store::insertion(
                "nodes"@,
                hub_db::node_row(mesh, node, slug, machine, now),
            )
            &&& steps[n + 1] == store::update(
                "nodes"@,
                seq![("seen"@, number::decimal(now as int)), ("status"@, "online"@)],
                "id"@,
                node,
                true,
            )
            &&& exists|id: Seq<char>| #[trigger]
                hub_db::node_token_row(id, mesh, slug, token, now).len() == 9 && steps[n + 2]
                    == store::insertion(
                    "tokens"@,
                    hub_db::node_token_row(id, mesh, slug, token, now),
                )
        }),
{
    let steps = store::store_steps(plan.steps@);
    let kept = first + hub_db::node_steps(mesh, node, slug, machine, now);
    assert(steps.drop_last() == kept);
    assert(steps.take(first.len() as int) =~= first);
    let n = first.len() as int;
    assert(steps[n] == kept[n]);
    assert(steps[n + 1] == kept[n + 1]);
    let id = choose|id: Seq<char>|
        crate::ids::is_id(id) && steps.last() == store::insertion(
            "tokens"@,
            #[trigger] hub_db::node_token_row(id, mesh, slug, token, now),
        );
    assert(hub_db::node_token_row(id, mesh, slug, token, now).len() == 9);
}

/// A grant makes its mesh, under its name if it has one, and gives it to its account.
pub proof fn law_grants_make_their_mesh(
    mesh: Seq<char>,
    name: Option<Seq<char>>,
    account: Seq<char>,
    now: i64,
)
    ensures
        ({
            let steps = hub_db::grant_steps(mesh, name, account, now);
            let row = hub_db::mesh_row(mesh, hub_db::mesh_name(name), now);
            &&& steps.len() == 2
            &&& steps[0] == store::insertion("meshes"@, row)
            &&& row[0] == ("id"@, mesh)
            &&& row[1].0 == "name"@
            &&& row[1].1 == (if name is Some {
                name->Some_0
            } else {
                "default"@
            })
            &&& row[2] == ("created"@, number::decimal(now as int))
            &&& row[3] == ("updated"@, number::decimal(now as int))
            &&& steps[1] == store::update(
                "meshes"@,
                seq![("account"@, account)],
                "id"@,
                mesh,
                true,
            )
            &&& account.len() > 0 ==> hub_db::account_of(
                Some(store::row_after(row, seq![("account"@, account)])),
            ) == Some(account)
        }),
        hub_db::account_of(None) is None,
{
    let row = hub_db::mesh_row(mesh, hub_db::mesh_name(name), now);
    let sets = seq![("account"@, account)];
    law_last_field_counts(sets, 0);
    store::lemma_field_after(row, sets, "account"@);
}

/// A session is kept with its mesh and node, and is found again by its mesh and the slug of its
/// node.
pub proof fn law_sessions_are_kept(id: Seq<char>, query: AgentView, now: i64)
    ensures
        hub_server::session_of(query) == (query.mesh, query.slug),
        ({
            let row = hub_db::session_row(id, query, now);
            &&& row.contains(("id"@, id))
            &&& row.contains(("mesh"@, query.mesh))
            &&& row.contains(("node"@, query.slug))
            &&& row.contains(("started"@, number::decimal(now as int)))
            &&& row.contains(("seen"@, number::decimal(now as int)))
        }),
{
    let row = hub_db::session_row(id, query, now);
    assert(row[0] == ("id"@, id));
    assert(row[1] == ("mesh"@, query.mesh));
    assert(row[2] == ("node"@, query.slug));
    assert(row[3].0 == "started"@);
    assert(row[4].0 == "seen"@);
}

/// A session that begins marks its node as online, a session that is over marks it as offline,
/// and an answer that comes is handed on as it is.
pub proof fn law_sessions_mark_their_node(
    action: hub_server::AgentAction,
    query: AgentView,
    event: hub_server::AgentEvent,
    machine: MachineView,
    now: i64,
)
    requires
        hub_server::is_agent_action(action, query, event, machine, now),
    ensures
        event is Opened ==> action is Begin && store::store_steps(action->Begin_0.node@).len() == 2
            && store::store_steps(action->Begin_0.node@)[0] == store::insertion(
            "nodes"@,
            hub_db::node_row(query.mesh, query.node, query.slug, machine, now),
        ) && store::store_steps(action->Begin_0.node@)[1] == store::update(
            "nodes"@,
            seq![("seen"@, number::decimal(now as int)), ("status"@, "online"@)],
            "id"@,
            query.node,
            true,
        ),
        event is Over ==> action is End && action->End_step@ == store::update(
            "nodes"@,
            seq![("seen"@, number::decimal(now as int)), ("status"@, "offline"@)],
            "id"@,
            query.node,
            true,
        ),
        event matches hub_server::AgentEvent::Came(hub_server::AgentFrame::Text(Some(p)))
            ==> action is Deliver && action->Deliver_id@ == p.0@ && action->Deliver_res@ == p.1@,
        event matches hub_server::AgentEvent::Came(frame) && (frame is Closed || frame is Failed)
            ==> action is Stop,
{
}

/// The settings of a hub are those of the environment; what is empty counts as not set, and
/// usage is reported only by a hub that takes grants.
pub proof fn law_settings_come_from_the_environment(
    s: hub_server::HubSettings,
    env: hub_server::HubEnv,
)
    requires
        hub_server::is_settings(Ok(s), env),
    ensures
        ({
            let admin = text::opt_text(env.admin_token);
            let issuer = text::opt_text(env.issuer_pubkey);
            &&& text::opt_text(s.admin_token) == (if admin is Some && admin->Some_0.len() > 0 {
                admin
            } else {
                None
            })
            &&& (s.issuer_pubkey is Some) == (issuer is Some && issuer->Some_0.len() > 0)
            &&& s.issuer_pubkey is Some ==> s.issuer_pubkey->Some_0@.len() == 32
            &&& s.reporter is Some ==> s.issuer_pubkey is Some
            &&& env.hub_url is None ==> s.hub_url is None
        }),
{
}

/// The address for which a grant has to be is the hub's own, where that is set, and else the one
/// at which the hub was asked.
pub proof fn law_grants_are_for_this_hub(url: Seq<char>, host: Seq<char>, proto: Seq<char>)
    requires
        !proto.contains(','),
        text::trimmed(proto) == proto,
    ensures
        grants::audience_outcome(Some(url), HeaderView::Text(host), Some(proto)) == Ok::<
            Seq<char>,
            Seq<char>,
        >(url),
        grants::audience_outcome(None, HeaderView::Text(host), Some(proto))
            == crate::urls::http_url_outcome(proto + "://"@ + host),
        grants::audience_outcome(None, HeaderView::Missing, Some(proto)) is Err,
{
    crate::text_laws::law_split_at_the_first(proto, ',', proto);
}

/// A node can use a hub by its reference; it then asks to be let in with its mesh, its identifier
/// and its slug, if it has a mesh.
pub proof fn law_nodes_ask_to_use_a_hub(
    st: StateView,
    raw: Seq<char>,
    setting: Option<Seq<char>>,
)
    ensures
        ({
            let r = hub::use_outcome(st, raw, setting);
            let url = crate::urls::hub_ref_outcome(raw, setting);
            &&& r is Ok ==> url == Ok::<Seq<char>, Seq<char>>(r->Ok_0.0)
            &&& r is Ok && st.mesh is None ==> r->Ok_0.1 is None
            &&& r is Ok && st.mesh is Some ==> r->Ok_0.1 is Some && r->Ok_0.1->Some_0.1
                == st.mesh->Some_0.id && state::local(st) is Ok && r->Ok_0.1->Some_0.2
                == state::local(st)->Ok_0.id && r->Ok_0.1->Some_0.3 == state::local(st)->Ok_0.slug
            &&& url is Ok && st.mesh is None ==> r is Ok
        }),
{
}

/// What a hub says of its nodes is shown: that one is let in, what it says of this node, and how
/// many of its nodes are online.
pub proof fn law_the_hub_is_shown(nodes: Seq<HubNodeView>, slug: Seq<char>, i: int)
    requires
        0 <= i < nodes.len(),
        nodes[i].slug == slug,
        forall|j: int| 0 <= j < i ==> (#[trigger] nodes[j]).slug != slug,
    ensures
        hub::listing_lines(nodes, slug).len() == 3,
        hub::listing_lines(nodes, slug)[0] == "auth: ok"@,
        hub::listing_lines(nodes, slug)[1] == "daemon: "@ + nodes[i].status,
        hub::listing_lines(nodes, slug)[2] == "nodes: "@ + number::decimal_nat(
            nodes.filter(|n: HubNodeView| n.status == "online"@).len(),
        ) + "/"@ + number::decimal_nat(nodes.len()) + " connected"@,
{
    law_online_nodes_are_counted(nodes);
    crate::move_laws::lemma_listed(nodes, slug, i);
}

/// Without a key of its own a node uses the cloud's key for the hosted hub.
pub proof fn law_which_key_is_for_the_hosted_hub(key: Option<Seq<char>>, cloud: Seq<char>)
    requires
        text::trimmed(cloud).len() > 0,
    ensures
        hub::cloud_key_outcome(Ok::<Option<Seq<char>>, Seq<char>>(key), Some(cloud)) == Ok::<
            Seq<char>,
            Seq<char>,
        >(
            if key is Some {
                key->Some_0
            } else {
                text::trimmed(cloud)
            },
        ),
        hub::cloud_key_outcome(Ok::<Option<Seq<char>>, Seq<char>>(None), None) is Err,
{
}

/// Each line of a migration is read as the words that it lists, in order.
pub proof fn law_every_line_is_read(lines: Seq<Seq<char>>, i: int)
    requires
        0 <= i < lines.len(),
        store::commands_in(lines) is Ok,
    ensures
        store::commands_in(lines)->Ok_0.len() == lines.len(),
        store::json_texts(lines[i]) == Ok::<Seq<Seq<char>>, Seq<char>>(
            store::commands_in(lines)->Ok_0[i],
        ),
    decreases lines.len(),
{
    let p = lines.drop_last();
    if p.len() > 0 {
        law_every_line_is_read(
            p,
            if i < p.len() {
                i
            } else {
                0
            },
        );
        if i < p.len() {
            assert(p[i] == lines[i]);
        }
    } else {
        assert(store::commands_in(p)->Ok_0 =~= Seq::empty());
    }
}

/// The key of the issuer of grants is what its setting says, in any of its codes; without a
/// setting there is none.
pub proof fn law_the_issuers_key_is_read(raw: Seq<char>)
    requires
        raw.len() > 0,
    ensures
        grants::issuer_outcome(None) == Ok::<Option<Seq<u8>>, Seq<char>>(None),
        (grants::issuer_outcome(Some(raw)) is Ok) == (encoding::any_decoded(raw) is Ok
            && encoding::any_decoded(raw)->Ok_0.len() == 32),
        grants::issuer_outcome(Some(raw)) is Ok ==> grants::issuer_outcome(Some(raw)) == Ok::<
            Option<Seq<u8>>,
            Seq<char>,
        >(Some(encoding::any_decoded(raw)->Ok_0)),
        encoding::url_decoded(raw) is Ok ==> encoding::any_decoded(raw) == encoding::url_decoded(
            raw,
        ),
{
}

/// A grant without a dot is read as the JSON that it is: its payload and its signature.
pub proof fn law_grants_can_be_json(
    grant: Seq<char>,
    payload: Seq<char>,
    signature: Seq<char>,
)
    requires
        !grant.contains('.'),
    ensures
        grants::grant_outcome(grant, Ok::<(Seq<char>, Seq<char>), Seq<char>>((payload, signature)))
            == grants::signed_outcome(payload, signature),
{
    let x = grants::GRANT_PREFIX@;
    reveal_strlit("viahub1.");
    if x.is_prefix_of(grant) {
        assert(grant.subrange(0, 8)[7] == x[7]);
        assert(grant[7] == '.');
        assert(grant.contains('.'));
    }
}

/// The hub that a node uses is shown with its address, the mesh, and the node; the hub is asked
/// only where the node has a token for it.
pub proof fn law_the_used_hub_is_shown(
    step: hub::StatusStep,
    config: ConfigView,
    st: StateView,
)
    requires
        hub::is_status_step(step, Some(config), st),
        st.mesh is Some,
        state::local(st) is Ok,
    ensures
        config.token is Some ==> (step matches hub::StatusStep::Ask(l) && text::texts(l@) == seq![
            "hub: "@ + config.url,
            "mesh: "@ + st.mesh->Some_0.id,
            "node: "@ + state::local(st)->Ok_0.slug,
        ]),
        config.token is None ==> (step matches hub::StatusStep::Shown(l) && text::texts(
            l@,
        ).take(3) == seq![
            "hub: "@ + config.url,
            "mesh: "@ + st.mesh->Some_0.id,
            "node: "@ + state::local(st)->Ok_0.slug,
        ]),
{
    if let hub::StatusStep::Shown(l) = step {
        assert(text::texts(l@).take(3) =~= seq![
            "hub: "@ + config.url,
            "mesh: "@ + st.mesh->Some_0.id,
            "node: "@ + state::local(st)->Ok_0.slug,
        ]);
    }
}

/// What a hub keeps of a token depends on the token by its hash alone: where two have the same
/// hash, what is kept of them is the same.
pub proof fn law_tokens_are_kept_as_hashes(
    id: Seq<char>,
    mesh: Seq<char>,
    slug: Seq<char>,
    name: Option<Seq<char>>,
    exp: i64,
    now: i64,
    a: Seq<char>,
    b: Seq<char>,
)
    requires
        crate::crypto::sha256(vstd::utf8::encode_utf8(a)) == crate::crypto::sha256(
            vstd::utf8::encode_utf8(b),
        ),
    ensures
        hub_db::token_hash(a) == hub_db::token_hash(b),
        hub_db::node_token_row(id, mesh, slug, a, now) == hub_db::node_token_row(
            id,
            mesh,
            slug,
            b,
            now,
        ),
        hub_db::invite_row(id, mesh, name, a, exp, now) == hub_db::invite_row(
            id,
            mesh,
            name,
            b,
            exp,
            now,
        ),
{
}

} // verus!
