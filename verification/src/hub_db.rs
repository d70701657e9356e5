//! What a hub keeps in its store: meshes, nodes, tokens, sessions and commands.

use crate::crypto;
use crate::crypto::sha256_digest;
use crate::encoding;
use crate::encoding::url_encode;
use crate::hub;
use crate::hub::{CmdResponse, CmdView, HubNode, HubNodeView, PostCmdRequest, PostCmdView};
use crate::ids;
use crate::ids::fresh_id;
use crate::number;
use crate::number::{parse_i64, signed_text};
use crate::security;
use crate::security::nonce;
use crate::store;
use crate::store::{
    field, insert_ignore, pair, require_field, select_rows, set_where, StoreCall, StoreRow,
    StoreStep, StoreStepView,
};
use crate::text;
use crate::text::same;
use crate::urls;
use vstd::prelude::*;
use vstd::utf8;

verus! {

/// How long a command is waited for, in seconds.
pub const COMMAND_SECONDS: i64 = 60;

/// An agent that connects.
#[derive(Debug)]
pub struct AgentQuery {
    pub mesh: String,
    pub node: String,
    pub slug: String,
    pub token: Option<String>,
}

#[verifier::ext_equal]
pub struct AgentView {
    pub mesh: Seq<char>,
    pub node: Seq<char>,
    pub slug: Seq<char>,
    pub token: Option<Seq<char>>,
}

impl View for AgentQuery {
    type V = AgentView;

    open spec fn view(&self) -> AgentView {
        AgentView {
            mesh: self.mesh@,
            node: self.node@,
            slug: self.slug@,
            token: text::opt_text(self.token),
        }
    }
}

/// The machine that a hub runs on, as it is recorded with each node.
#[derive(Debug)]
pub struct Machine {
    pub os: String,
    pub arch: String,
    pub version: String,
}

#[verifier::ext_equal]
pub struct MachineView {
    pub os: Seq<char>,
    pub arch: Seq<char>,
    pub version: Seq<char>,
}

impl View for Machine {
    type V = MachineView;

    open spec fn view(&self) -> MachineView {
        MachineView { os: self.os@, arch: self.arch@, version: self.version@ }
    }
}

/// The text of a time stamp.
pub open spec fn time(now: i64) -> Seq<char> {
    number::decimal(now as int)
}

// ---------------------------------------------------------------------------
// Tokens.

/// What is kept of a token: never the token itself.
pub open spec fn token_hash(token: Seq<char>) -> Seq<char> {
    encoding::url_encoded(crypto::sha256(utf8::encode_utf8(token)))
}

/// What is kept of a token.
pub fn hash_token(token: &str) -> (r: String)
    ensures
        r@ == token_hash(token@),
{
    url_encode(&sha256_digest(&token.as_bytes_vec()))
}

/// The row of an invite.
pub open spec fn invite_row(
    id: Seq<char>,
    mesh: Seq<char>,
    name: Option<Seq<char>>,
    token: Seq<char>,
    exp: i64,
    now: i64,
) -> Seq<(Seq<char>, Seq<char>)> {
    seq![
        ("id"@, id),
        ("mesh"@, mesh),
        ("hash"@, token_hash(token)),
        ("kind"@, "invite"@),
        ("node"@, ""@),
        (
            "name"@,
            match name {
                Some(n) => n,
                None => ""@,
            },
        ),
        ("exp"@, time(exp)),
        ("used"@, "false"@),
        ("created"@, time(now)),
    ]
}

/// The row of a node's token.
pub open spec fn node_token_row(
    id: Seq<char>,
    mesh: Seq<char>,
    slug: Seq<char>,
    token: Seq<char>,
    now: i64,
) -> Seq<(Seq<char>, Seq<char>)> {
    seq![
        ("id"@, id),
        ("mesh"@, mesh),
        ("hash"@, token_hash(token)),
        ("kind"@, "node"@),
        ("node"@, slug),
        ("name"@, slug),
        ("exp"@, "0"@),
        ("used"@, "false"@),
        ("created"@, time(now)),
    ]
}

/// That a step keeps an invite, under some fresh identifier.
pub open spec fn keeps_invite(
    step: StoreStepView,
    mesh: Seq<char>,
    name: Option<Seq<char>>,
    token: Seq<char>,
    exp: i64,
    now: i64,
) -> bool {
    exists|id: Seq<char>|
        ids::is_id(id) && step == store::insertion(
            "tokens"@,
            #[trigger] invite_row(id, mesh, name, token, exp, now),
        )
}

/// Keeps an invite.
pub fn insert_invite_token(
    mesh: &str,
    name: Option<&str>,
    token: &str,
    exp: i64,
    now: i64,
) -> (r: StoreStep)
    ensures
        keeps_invite(r@, mesh@, text::opt_str(name), token@, exp, now),
{
    let id = fresh_id();
    let name_text = match name {
        Some(n) => n,
        None => "",
    };
    let fields = vec![
        pair("id", id.as_str()),
        pair("mesh", mesh),
        pair("hash", hash_token(token).as_str()),
        pair("kind", "invite"),
        pair("node", ""),
        pair("name", name_text),
        pair("exp", signed_text(exp).as_str()),
        pair("used", "false"),
        pair("created", signed_text(now).as_str()),
    ];
    proof {
        assert(urls::pairs_view(fields@) =~= invite_row(
            id@,
            mesh@,
            text::opt_str(name),
            token@,
            exp,
            now,
        ));
    }
    insert_ignore("tokens", &fields)
}

/// That a step keeps a token for a node, under some fresh identifier.
pub open spec fn keeps_token(
    step: StoreStepView,
    mesh: Seq<char>,
    slug: Seq<char>,
    token: Seq<char>,
    now: i64,
) -> bool {
    exists|id: Seq<char>|
        ids::is_id(id) && step == store::insertion(
            "tokens"@,
            #[trigger] node_token_row(id, mesh, slug, token, now),
        )
}

/// Keeps the token `token` for a node.
pub fn keep_node_token(mesh: &str, slug: &str, token: &str, now: i64) -> (r: StoreStep)
    ensures
        keeps_token(r@, mesh@, slug@, token@, now),
{
    let id = fresh_id();
    let fields = vec![
        pair("id", id.as_str()),
        pair("mesh", mesh),
        pair("hash", hash_token(token).as_str()),
        pair("kind", "node"),
        pair("node", slug),
        pair("name", slug),
        pair("exp", "0"),
        pair("used", "false"),
        pair("created", signed_text(now).as_str()),
    ];
    proof {
        assert(urls::pairs_view(fields@) =~= node_token_row(id@, mesh@, slug@, token@, now));
    }
    insert_ignore("tokens", &fields)
}

/// The token for a node that was drawn, and the step that keeps it, or why none was.
pub fn node_token_from(drawn: Result<String, String>, mesh: &str, slug: &str, now: i64) -> (r:
    Result<(String, StoreStep), String>)
    ensures
        match drawn {
            Ok(token) => r matches Ok(t) && t.0@ == token@ && keeps_token(
                t.1@,
                mesh@,
                slug@,
                token@,
                now,
            ),
            Err(e) => r is Err && r->Err_0@ == e@,
        },
{
    match drawn {
        Err(e) => Err(e),
        Ok(token) => {
            let step = keep_node_token(mesh, slug, token.as_str(), now);
            Ok((token, step))
        },
    }
}

/// A fresh token for a node, and the step that keeps it. Which token comes, and
/// whether the system has random bytes for one, is left open.
pub fn create_node_token(mesh: &str, slug: &str, now: i64) -> (r: Result<
    (String, StoreStep),
    String,
>)
    ensures
        r matches Ok(t) ==> security::is_nonce(t.0@) && keeps_token(
            t.1@,
            mesh@,
            slug@,
            t.0@,
            now,
        ),
{
    node_token_from(nonce(), mesh, slug, now)
}

/// Asks for the row of a token.
pub fn token_by_hash(token: &str) -> (r: StoreCall)
    ensures
        r@ == store::selection("tokens"@, "hash"@, token_hash(token@), true),
{
    select_rows("tokens", "hash", hash_token(token).as_str(), true)
}

/// When the token of a row ends; zero if it never does.
pub open spec fn row_end(row: Seq<(Seq<char>, Seq<char>)>) -> int {
    match store::field_of(row, "exp"@) {
        Some(s) => match number::read_signed(s) {
            Some(n) => n,
            None => 0,
        },
        None => 0,
    }
}

/// Whether the token of a row has ended.
pub open spec fn has_ended(row: Seq<(Seq<char>, Seq<char>)>, now: i64) -> bool {
    row_end(row) > 0 && row_end(row) < now
}

fn token_ended(row: &StoreRow, now: i64) -> (r: bool)
    ensures
        r == has_ended(row@, now),
{
    let exp: i64 = match field(row, "exp") {
        Some(s) => match parse_i64(s) {
            Some(n) => n,
            None => 0,
        },
        None => 0,
    };
    exp > 0 && exp < now
}

/// What is said of a node's token, where `row` is the row of the token, if there is
/// one.
pub open spec fn node_token_outcome(
    row: Option<Seq<(Seq<char>, Seq<char>)>>,
    mesh: Seq<char>,
    node: Seq<char>,
    now: i64,
) -> Result<(), Seq<char>> {
    match row {
        None => Err("invalid hub token"@),
        Some(r) => if store::field_of(r, "mesh"@) != Some(mesh) || store::field_of(r, "kind"@)
            != Some("node"@) || store::field_of(r, "node"@) != Some(node) {
            Err("invalid hub token"@)
        } else if has_ended(r, now) {
            Err("hub token expired"@)
        } else {
            Ok(())
        },
    }
}

/// Checks a node's token, where `row` is the row of the token, if there is one.
pub fn validate_node_token(row: &Option<StoreRow>, mesh: &str, node: &str, now: i64) -> (r: Result<
    (),
    String,
>)
    ensures
        text::unit_outcome(r) == node_token_outcome(store::opt_row(*row), mesh@, node@, now),
{
    let row = match row {
        Some(row) => row,
        None => return Err("invalid hub token".to_owned()),
    };
    if let Err(e) = require_field(row, "mesh", mesh) {
        return Err(e);
    }
    if let Err(e) = require_field(row, "kind", "node") {
        return Err(e);
    }
    if let Err(e) = require_field(row, "node", node) {
        return Err(e);
    }
    if token_ended(row, now) {
        return Err("hub token expired".to_owned());
    }
    Ok(())
}

/// What is said of an invite, where `row` is the row of the token, if there is one.
pub open spec fn invite_outcome(
    row: Option<Seq<(Seq<char>, Seq<char>)>>,
    mesh: Seq<char>,
    now: i64,
) -> Result<(), Seq<char>> {
    match row {
        None => Err("invalid invite token"@),
        Some(r) => if store::field_of(r, "mesh"@) != Some(mesh) || store::field_of(r, "kind"@)
            != Some("invite"@) {
            Err("invalid hub token"@)
        } else if store::field_of(r, "used"@) == Some("true"@) {
            Err("invite token has already been used"@)
        } else if has_ended(r, now) {
            Err("invite token expired"@)
        } else {
            Ok(())
        },
    }
}

/// What is set in the row of an invite that is claimed.
pub open spec fn claim_sets(slug: Seq<char>) -> Seq<(Seq<char>, Seq<char>)> {
    seq![("used"@, "true"@), ("node"@, slug)]
}

/// Claims an invite for a node, where `row` is the row of the token, if there is
/// one. Returns the step that marks it as used.
pub fn claim_invite(
    row: &Option<StoreRow>,
    mesh: &str,
    slug: &str,
    token: &str,
    now: i64,
) -> (r: Result<StoreStep, String>)
    ensures
        match invite_outcome(store::opt_row(*row), mesh@, now) {
            Err(e) => r is Err && r->Err_0@ == e,
            Ok(_) => r is Ok && r->Ok_0@ == store::update(
                "tokens"@,
                claim_sets(slug@),
                "hash"@,
                token_hash(token@),
                false,
            ),
        },
{
    let row = match row {
        Some(row) => row,
        None => return Err("invalid invite token".to_owned()),
    };
    if let Err(e) = require_field(row, "mesh", mesh) {
        return Err(e);
    }
    if let Err(e) = require_field(row, "kind", "invite") {
        return Err(e);
    }
    if let Some(used) = field(row, "used") {
        if same(used, "true") {
            return Err("invite token has already been used".to_owned());
        }
    }
    if token_ended(row, now) {
        return Err("invite token expired".to_owned());
    }
    let sets = vec![pair("used", "true"), pair("node", slug)];
    proof {
        assert(urls::pairs_view(sets@) =~= claim_sets(slug@));
    }
    Ok(set_where("tokens", &sets, "hash", hash_token(token).as_str(), false))
}

// ---------------------------------------------------------------------------
// Laws of tokens.

proof fn lemma_words_differ()
    ensures
        "node"@ != "invite"@,
        "true"@ != "false"@,
        "id"@ != "mesh"@,
        "id"@ != "hash"@,
        "id"@ != "kind"@,
        "id"@ != "node"@,
        "id"@ != "used"@,
        "id"@ != "exp"@,
        "mesh"@ != "hash"@,
        "mesh"@ != "kind"@,
        "mesh"@ != "node"@,
        "mesh"@ != "name"@,
        "mesh"@ != "exp"@,
        "mesh"@ != "used"@,
        "mesh"@ != "created"@,
        "kind"@ != "node"@,
        "kind"@ != "name"@,
        "kind"@ != "exp"@,
        "kind"@ != "used"@,
        "kind"@ != "created"@,
        "node"@ != "name"@,
        "node"@ != "exp"@,
        "node"@ != "used"@,
        "node"@ != "created"@,
        "exp"@ != "used"@,
        "exp"@ != "created"@,
        "used"@ != "created"@,
{
    reveal_strlit("node");
    reveal_strlit("invite");
    reveal_strlit("true");
    reveal_strlit("false");
    reveal_strlit("id");
    reveal_strlit("mesh");
    reveal_strlit("hash");
    reveal_strlit("kind");
    reveal_strlit("used");
    reveal_strlit("exp");
    reveal_strlit("name");
    reveal_strlit("created");
    assert("node"@[0] == 'n' && "node"@[1] == 'o');
    assert("mesh"@[0] == 'm');
    assert("kind"@[0] == 'k');
    assert("name"@[0] == 'n' && "name"@[1] == 'a');
    assert("hash"@[0] == 'h');
    assert("used"@[0] == 'u');
    assert("true"@.len() == 4 && "false"@.len() == 5);
    assert("id"@.len() == 2 && "exp"@.len() == 3);
}

proof fn lemma_token_fields(row: Seq<(Seq<char>, Seq<char>)>)
    requires
        row.len() == 9,
        row[0].0 == "id"@,
        row[1].0 == "mesh"@,
        row[2].0 == "hash"@,
        row[3].0 == "kind"@,
        row[4].0 == "node"@,
        row[5].0 == "name"@,
        row[6].0 == "exp"@,
        row[7].0 == "used"@,
        row[8].0 == "created"@,
    ensures
        store::field_of(row, "mesh"@) == Some(row[1].1),
        store::field_of(row, "kind"@) == Some(row[3].1),
        store::field_of(row, "node"@) == Some(row[4].1),
        store::field_of(row, "exp"@) == Some(row[6].1),
        store::field_of(row, "used"@) == Some(row[7].1),
{
    lemma_words_differ();
    reveal_with_fuel(store::field_of, 9);
}

/// A token that was given to a node is good for that node in its mesh at any time,
/// and for no other node or mesh.
pub proof fn law_node_token_is_good_for_its_node(
    id: Seq<char>,
    mesh: Seq<char>,
    slug: Seq<char>,
    token: Seq<char>,
    made: i64,
    other_mesh: Seq<char>,
    other: Seq<char>,
    now: i64,
)
    ensures
        node_token_outcome(
            Some(node_token_row(id, mesh, slug, token, made)),
            other_mesh,
            other,
            now,
        ) == (if other_mesh == mesh && other == slug {
            Ok::<(), Seq<char>>(())
        } else {
            Err("invalid hub token"@)
        }),
{
    lemma_token_fields(node_token_row(id, mesh, slug, token, made));
    number::lemma_read_back(0);
    reveal_strlit("0");
    assert(number::decimal(0) =~= "0"@);
}

/// An invite is good in its mesh until it ends, and for no other mesh. Once it was
/// claimed, it is refused.
pub proof fn law_invite_is_good_once(
    id: Seq<char>,
    mesh: Seq<char>,
    name: Option<Seq<char>>,
    token: Seq<char>,
    exp: i64,
    made: i64,
    slug: Seq<char>,
    other: Seq<char>,
    now: i64,
)
    ensures
        invite_outcome(Some(invite_row(id, mesh, name, token, exp, made)), other, now) == (if other
            != mesh {
            Err::<(), Seq<char>>("invalid hub token"@)
        } else if 0 < exp < now {
            Err("invite token expired"@)
        } else {
            Ok(())
        }),
        invite_outcome(
            Some(
                store::row_after(
                    invite_row(id, mesh, name, token, exp, made),
                    claim_sets(slug),
                ),
            ),
            mesh,
            now,
        ) == Err::<(), Seq<char>>("invite token has already been used"@),
{
    let row = invite_row(id, mesh, name, token, exp, made);
    let sets = claim_sets(slug);
    lemma_token_fields(row);
    lemma_words_differ();
    number::lemma_read_back(exp);
    store::lemma_field_after(row, sets, "mesh"@);
    store::lemma_field_after(row, sets, "kind"@);
    store::lemma_field_after(row, sets, "used"@);
    reveal_with_fuel(store::field_of, 3);
    assert(sets.drop_last() =~= seq![("used"@, "true"@)]);
    assert(sets.drop_last().drop_last() =~= Seq::empty());
}

/// Whatever the row of a token says besides, once it says that the token was used no
/// one can join with it.
pub proof fn law_used_tokens_are_refused(
    row: Seq<(Seq<char>, Seq<char>)>,
    slug: Seq<char>,
    mesh: Seq<char>,
    now: i64,
)
    ensures
        invite_outcome(Some(store::row_after(row, claim_sets(slug))), mesh, now) is Err,
{
    let sets = claim_sets(slug);
    lemma_words_differ();
    store::lemma_field_after(row, sets, "used"@);
    reveal_with_fuel(store::field_of, 3);
    assert(sets.drop_last() =~= seq![("used"@, "true"@)]);
    assert(sets.drop_last().drop_last() =~= Seq::empty());
}

/// An invite is no node's token, and a node's token is no invite.
pub proof fn law_kinds_of_tokens_are_apart(
    row: Seq<(Seq<char>, Seq<char>)>,
    mesh: Seq<char>,
    node: Seq<char>,
    now: i64,
)
    ensures
        node_token_outcome(Some(row), mesh, node, now) is Err || invite_outcome(
            Some(row),
            mesh,
            now,
        ) is Err,
{
    lemma_words_differ();
}

/// The rows of a table after `sets` were set where `key` is `value`.
pub open spec fn rows_after(
    rows: Seq<Seq<(Seq<char>, Seq<char>)>>,
    sets: Seq<(Seq<char>, Seq<char>)>,
    key: Seq<char>,
    value: Seq<char>,
) -> Seq<Seq<(Seq<char>, Seq<char>)>> {
    rows.map_values(
        |row: Seq<(Seq<char>, Seq<char>)>|
            if store::field_of(row, key) == Some(value) {
                store::row_after(row, sets)
            } else {
                row
            },
    )
}

/// Whatever tokens a hub keeps: once a node claimed an invite, each row with the hash of
/// the invite is refused whoever joins with it later, wherever and whenever, and is no
/// node's token, if it was none before.
pub proof fn law_claimed_invite_is_spent(
    rows: Seq<Seq<(Seq<char>, Seq<char>)>>,
    i: int,
    slug: Seq<char>,
    token: Seq<char>,
    mesh: Seq<char>,
    node: Seq<char>,
    now: i64,
)
    requires
        0 <= i < rows.len(),
        store::field_of(
            rows_after(rows, claim_sets(slug), "hash"@, token_hash(token))[i],
            "hash"@,
        ) == Some(token_hash(token)),
    ensures
        ({
            let row = rows_after(rows, claim_sets(slug), "hash"@, token_hash(token))[i];
            &&& invite_outcome(Some(row), mesh, now) is Err
            &&& store::field_of(rows[i], "kind"@) == Some("invite"@) ==> node_token_outcome(
                Some(rows[i]),
                mesh,
                node,
                now,
            ) is Err && node_token_outcome(Some(row), mesh, node, now) is Err
        }),
{
    let sets = claim_sets(slug);
    lemma_words_differ();
    reveal_strlit("hash");
    reveal_strlit("used");
    reveal_strlit("node");
    assert("hash"@[0] == 'h' && "used"@[0] == 'u' && "node"@[0] == 'n');
    store::lemma_field_after(rows[i], sets, "hash"@);
    store::lemma_field_after(rows[i], sets, "kind"@);
    reveal_with_fuel(store::field_of, 3);
    assert(sets.drop_last() =~= seq![("used"@, "true"@)]);
    assert(sets.drop_last().drop_last() =~= Seq::empty());
    law_used_tokens_are_refused(rows[i], slug, mesh, now);
}

// ---------------------------------------------------------------------------
// Meshes and nodes.

/// Keeps a mesh.
pub fn insert_mesh(id: &str, name: &str, now: i64) -> (r: StoreStep)
    ensures
        r@ == store::insertion("meshes"@, mesh_row(id@, name@, now)),
{
    let stamp = signed_text(now);
    let fields = vec![
        pair("id", id),
        pair("name", name),
        pair("created", stamp.as_str()),
        pair("updated", stamp.as_str()),
    ];
    proof {
        assert(urls::pairs_view(fields@) =~= mesh_row(id@, name@, now));
    }
    insert_ignore("meshes", &fields)
}

/// The row of a node.
pub open spec fn node_row(
    mesh: Seq<char>,
    node: Seq<char>,
    slug: Seq<char>,
    machine: MachineView,
    now: i64,
) -> Seq<(Seq<char>, Seq<char>)> {
    seq![
        ("id"@, node),
        ("mesh"@, mesh),
        ("name"@, slug),
        ("slug"@, slug),
        ("os"@, machine.os),
        ("arch"@, machine.arch),
        ("ver"@, machine.version),
        ("seen"@, time(now)),
        ("status"@, "online"@),
    ]
}

/// What is set in the row of a node that is seen.
pub open spec fn seen_sets(status: Seq<char>, now: i64) -> Seq<(Seq<char>, Seq<char>)> {
    seq![("seen"@, time(now)), ("status"@, status)]
}

/// The steps that keep a node that is there now.
pub open spec fn node_steps(
    mesh: Seq<char>,
    node: Seq<char>,
    slug: Seq<char>,
    machine: MachineView,
    now: i64,
) -> Seq<StoreStepView> {
    seq![
        store::insertion("nodes"@, node_row(mesh, node, slug, machine, now)),
        store::update("nodes"@, seen_sets("online"@, now), "id"@, node, true),
    ]
}

/// Keeps a node that is there now.
pub fn insert_node_record(mesh: &str, node: &str, slug: &str, machine: &Machine, now: i64) -> (r:
    Vec<StoreStep>)
    ensures
        store::store_steps(r@) == node_steps(mesh@, node@, slug@, machine@, now),
{
    let seen = signed_text(now);
    let fields = vec![
        pair("id", node),
        pair("mesh", mesh),
        pair("name", slug),
        pair("slug", slug),
        pair("os", machine.os.as_str()),
        pair("arch", machine.arch.as_str()),
        pair("ver", machine.version.as_str()),
        pair("seen", seen.as_str()),
        pair("status", "online"),
    ];
    let sets = vec![pair("seen", seen.as_str()), pair("status", "online")];
    proof {
        assert(urls::pairs_view(fields@) =~= node_row(mesh@, node@, slug@, machine@, now));
        assert(urls::pairs_view(sets@) =~= seen_sets("online"@, now));
    }
    let v = vec![
        insert_ignore("nodes", &fields),
        set_where("nodes", &sets, "id", node, true),
    ];
    proof {
        assert(store::store_steps(v@) =~= node_steps(mesh@, node@, slug@, machine@, now));
    }
    v
}

/// Keeps the node of an agent that connects.
pub fn insert_node(query: &AgentQuery, machine: &Machine, now: i64) -> (r: Vec<StoreStep>)
    ensures
        store::store_steps(r@) == node_steps(
            query@.mesh,
            query@.node,
            query@.slug,
            machine@,
            now,
        ),
{
    insert_node_record(
        query.mesh.as_str(),
        query.node.as_str(),
        query.slug.as_str(),
        machine,
        now,
    )
}

/// Keeps that a node is gone.
pub fn mark_node_offline(node: &str, now: i64) -> (r: StoreStep)
    ensures
        r@ == store::update("nodes"@, seen_sets("offline"@, now), "id"@, node@, true),
{
    let seen = signed_text(now);
    let sets = vec![pair("seen", seen.as_str()), pair("status", "offline")];
    proof {
        assert(urls::pairs_view(sets@) =~= seen_sets("offline"@, now));
    }
    set_where("nodes", &sets, "id", node, true)
}

/// What is to be done to register a node: the steps, and then the token that the node
/// gets, or what is said.
#[derive(Debug)]
pub struct RegisterPlan {
    pub steps: Vec<StoreStep>,
    pub token: Result<String, String>,
}

/// That a plan keeps a node after the steps `first`, and then the token that was drawn
/// for it, which the node gets; or says why none was.
pub open spec fn registered_with(
    plan: RegisterPlan,
    first: Seq<StoreStepView>,
    drawn: Result<Seq<char>, Seq<char>>,
    mesh: Seq<char>,
    node: Seq<char>,
    slug: Seq<char>,
    machine: MachineView,
    now: i64,
) -> bool {
    let kept = first + node_steps(mesh, node, slug, machine, now);
    let steps = store::store_steps(plan.steps@);
    &&& text::text_outcome(plan.token) == drawn
    &&& match drawn {
        Err(_) => steps == kept,
        Ok(token) => steps.len() == kept.len() + 1 && steps.drop_last() == kept && keeps_token(
            steps.last(),
            mesh,
            slug,
            token,
            now,
        ),
    }
}

/// That a plan keeps a node after the steps `first`, with a fresh token if one could be
/// drawn.
pub open spec fn is_registration(
    plan: RegisterPlan,
    first: Seq<StoreStepView>,
    mesh: Seq<char>,
    node: Seq<char>,
    slug: Seq<char>,
    machine: MachineView,
    now: i64,
) -> bool {
    &&& registered_with(
        plan,
        first,
        text::text_outcome(plan.token),
        mesh,
        node,
        slug,
        machine,
        now,
    )
    &&& plan.token matches Ok(token) ==> security::is_nonce(token@)
}

/// Registers a node after the steps `first`: it is kept, and gets the token that was
/// drawn for it.
pub fn register_with(
    first: Vec<StoreStep>,
    drawn: Result<String, String>,
    mesh: &str,
    node: &str,
    slug: &str,
    machine: &Machine,
    now: i64,
) -> (r: RegisterPlan)
    ensures
        registered_with(
            r,
            store::store_steps(first@),
            text::text_outcome(drawn),
            mesh@,
            node@,
            slug@,
            machine@,
            now,
        ),
{
    let mut steps = first;
    let ghost head = store::store_steps(steps@);
    let mut more = insert_node_record(mesh, node, slug, machine, now);
    let ghost before = steps@;
    let ghost added = more@;
    steps.append(&mut more);
    proof {
        assert(steps@ == before + added);
        assert(store::store_steps(steps@) =~= head + store::store_steps(added));
    }
    match node_token_from(drawn, mesh, slug, now) {
        Err(e) => RegisterPlan { steps, token: Err(e) },
        Ok(t) => {
            let ghost kept = steps@;
            let ghost last = t.1@;
            steps.push(t.1);
            proof {
                assert(store::store_steps(steps@) =~= store::store_steps(kept).push(last));
                assert(store::store_steps(steps@).drop_last() =~= store::store_steps(kept));
            }
            RegisterPlan { steps, token: Ok(t.0) }
        },
    }
}

fn register_after(
    first: Vec<StoreStep>,
    mesh: &str,
    node: &str,
    slug: &str,
    machine: &Machine,
    now: i64,
) -> (r: RegisterPlan)
    ensures
        is_registration(
            r,
            store::store_steps(first@),
            mesh@,
            node@,
            slug@,
            machine@,
            now,
        ),
{
    register_with(first, nonce(), mesh, node, slug, machine, now)
}

/// Registers a node: it is kept, and gets a fresh token.
pub fn register_node(mesh: &str, node: &str, slug: &str, machine: &Machine, now: i64) -> (r:
    RegisterPlan)
    ensures
        is_registration(r, Seq::empty(), mesh@, node@, slug@, machine@, now),
{
    let first: Vec<StoreStep> = Vec::new();
    proof {
        assert(store::store_steps(first@) =~= Seq::empty());
    }
    register_after(first, mesh, node, slug, machine, now)
}

/// The step that keeps the account of a mesh.
pub open spec fn account_step(mesh: Seq<char>, account: Seq<char>) -> StoreStepView {
    store::update("meshes"@, seq![("account"@, account)], "id"@, mesh, true)
}

/// Keeps the account of a mesh.
pub fn record_mesh_account(mesh: &str, account: &str) -> (r: StoreStep)
    ensures
        r@ == account_step(mesh@, account@),
{
    let sets = vec![pair("account", account)];
    proof {
        assert(urls::pairs_view(sets@) =~= seq![("account"@, account@)]);
    }
    set_where("meshes", &sets, "id", mesh, true)
}

/// The row of a mesh.
pub open spec fn mesh_row(id: Seq<char>, name: Seq<char>, now: i64) -> Seq<
    (Seq<char>, Seq<char>),
> {
    seq![("id"@, id), ("name"@, name), ("created"@, time(now)), ("updated"@, time(now))]
}

/// The name that a mesh gets, given the one that was asked for.
pub open spec fn mesh_name(name: Option<Seq<char>>) -> Seq<char> {
    match name {
        Some(n) => n,
        None => "default"@,
    }
}

/// The steps that keep a mesh that a grant was given for.
pub open spec fn grant_steps(
    mesh: Seq<char>,
    name: Option<Seq<char>>,
    account: Seq<char>,
    now: i64,
) -> Seq<StoreStepView> {
    seq![
        store::insertion("meshes"@, mesh_row(mesh, mesh_name(name), now)),
        account_step(mesh, account),
    ]
}

/// Keeps a mesh that a grant was given for, with its account, and registers a node.
pub fn provision_grant_mesh(
    mesh: &str,
    name: Option<&str>,
    account: &str,
    node: &str,
    slug: &str,
    machine: &Machine,
    now: i64,
) -> (r: RegisterPlan)
    ensures
        is_registration(
            r,
            grant_steps(mesh@, text::opt_str(name), account@, now),
            mesh@,
            node@,
            slug@,
            machine@,
            now,
        ),
{
    let title = match name {
        Some(n) => n,
        None => "default",
    };
    let first = vec![insert_mesh(mesh, title, now), record_mesh_account(mesh, account)];
    proof {
        assert(store::store_steps(first@) =~= grant_steps(
            mesh@,
            text::opt_str(name),
            account@,
            now,
        ));
    }
    register_after(first, mesh, node, slug, machine, now)
}

/// Registers a node that claimed an invite: the invite is marked as used before
/// anything else is kept.
pub fn register_claimed(
    claim: StoreStep,
    mesh: &str,
    node: &str,
    slug: &str,
    machine: &Machine,
    now: i64,
) -> (r: RegisterPlan)
    ensures
        is_registration(r, seq![claim@], mesh@, node@, slug@, machine@, now),
{
    let first = vec![claim];
    proof {
        assert(store::store_steps(first@) =~= seq![claim@]);
    }
    register_after(first, mesh, node, slug, machine, now)
}

/// Asks for the row of a mesh.
pub fn ask_mesh(mesh: &str) -> (r: StoreCall)
    ensures
        r@ == store::selection("meshes"@, "id"@, mesh@, true),
{
    select_rows("meshes", "id", mesh, true)
}

/// The account of a mesh, where `row` is its row, if there is one.
pub open spec fn account_of(row: Option<Seq<(Seq<char>, Seq<char>)>>) -> Option<Seq<char>> {
    match row {
        None => None,
        Some(r) => match store::field_of(r, "account"@) {
            Some(a) => if a.len() > 0 {
                Some(a)
            } else {
                None
            },
            None => None,
        },
    }
}

/// The account of a mesh, where `row` is its row, if there is one.
pub fn mesh_account(row: &Option<StoreRow>) -> (r: Option<String>)
    ensures
        text::opt_text(r) == account_of(store::opt_row(*row)),
{
    let row = match row {
        Some(row) => row,
        None => return None,
    };
    match field(row, "account") {
        Some(a) => if a.is_empty() {
            None
        } else {
            Some(a.to_owned())
        },
        None => None,
    }
}

/// Asks for the nodes of a mesh.
pub fn ask_nodes(mesh: &str) -> (r: StoreCall)
    ensures
        r@ == store::selection("nodes"@, "mesh"@, mesh@, false),
{
    select_rows("nodes", "mesh", mesh, false)
}

/// The value of a field, or else `usual`.
pub open spec fn field_or(
    row: Seq<(Seq<char>, Seq<char>)>,
    key: Seq<char>,
    usual: Seq<char>,
) -> Seq<char> {
    match store::field_of(row, key) {
        Some(v) => v,
        None => usual,
    }
}

/// A node as its row tells of it.
pub open spec fn node_in(row: Seq<(Seq<char>, Seq<char>)>) -> HubNodeView {
    HubNodeView {
        id: field_or(row, "id"@, Seq::empty()),
        slug: field_or(row, "slug"@, Seq::empty()),
        name: field_or(row, "name"@, Seq::empty()),
        status: field_or(row, "status"@, "unknown"@),
        seen: match store::field_of(row, "seen"@) {
            Some(s) => match number::read_signed(s) {
                Some(n) => n as i64,
                None => 0,
            },
            None => 0,
        },
    }
}

/// The nodes in some rows, without those that have no slug.
pub open spec fn nodes_in(rows: Seq<Seq<(Seq<char>, Seq<char>)>>) -> Seq<HubNodeView>
    decreases rows.len(),
{
    if rows.len() == 0 {
        Seq::empty()
    } else if node_in(rows.last()).slug.len() == 0 {
        nodes_in(rows.drop_last())
    } else {
        nodes_in(rows.drop_last()).push(node_in(rows.last()))
    }
}

fn text_or(row: &StoreRow, key: &str, usual: &str) -> (r: String)
    ensures
        r@ == field_or(row@, key@, usual@),
{
    match field(row, key) {
        Some(v) => v.to_owned(),
        None => usual.to_owned(),
    }
}

fn read_node(row: &StoreRow) -> (r: HubNode)
    ensures
        r@ == node_in(row@),
{
    proof {
        reveal_strlit("");
        assert(""@ =~= Seq::<char>::empty());
    }
    let seen: i64 = match field(row, "seen") {
        Some(s) => match parse_i64(s) {
            Some(n) => n,
            None => 0,
        },
        None => 0,
    };
    HubNode {
        id: text_or(row, "id", ""),
        slug: text_or(row, "slug", ""),
        name: text_or(row, "name", ""),
        status: text_or(row, "status", "unknown"),
        seen,
    }
}

/// The nodes in some rows.
pub fn nodes(rows: &Vec<StoreRow>) -> (r: Vec<HubNode>)
    ensures
        hub::hub_nodes(r@) == nodes_in(store::rows_view(rows@)),
{
    let ghost all = store::rows_view(rows@);
    let mut out: Vec<HubNode> = Vec::new();
    let mut i: usize = 0;
    proof {
        assert(hub::hub_nodes(out@) =~= nodes_in(all.take(0)));
    }
    while i < rows.len()
        invariant
            i <= rows.len(),
            all == store::rows_view(rows@),
            hub::hub_nodes(out@) == nodes_in(all.take(i as int)),
        decreases rows.len() - i,
    {
        proof {
            let next = all.take(i + 1);
            assert(next.drop_last() == all.take(i as int));
            assert(next.last() == rows@[i as int]@);
        }
        let node = read_node(&rows[i]);
        if !node.slug.as_str().is_empty() {
            let ghost before = out@;
            out.push(node);
            proof {
                assert(hub::hub_nodes(out@) =~= hub::hub_nodes(before).push(node@));
            }
        }
        i += 1;
    }
    proof {
        assert(all.take(all.len() as int) == all);
    }
    out
}

// ---------------------------------------------------------------------------
// Sessions and commands.

/// The row of a session.
pub open spec fn session_row(id: Seq<char>, query: AgentView, now: i64) -> Seq<
    (Seq<char>, Seq<char>),
> {
    seq![
        ("id"@, id),
        ("mesh"@, query.mesh),
        ("node"@, query.slug),
        ("started"@, time(now)),
        ("seen"@, time(now)),
        ("addr"@, ""@),
    ]
}

/// Keeps that an agent connected.
pub fn insert_session(id: &str, query: &AgentQuery, now: i64) -> (r: StoreStep)
    ensures
        r@ == store::insertion("sessions"@, session_row(id@, query@, now)),
{
    let stamp = signed_text(now);
    let fields = vec![
        pair("id", id),
        pair("mesh", query.mesh.as_str()),
        pair("node", query.slug.as_str()),
        pair("started", stamp.as_str()),
        pair("seen", stamp.as_str()),
        pair("addr", ""),
    ];
    proof {
        assert(urls::pairs_view(fields@) =~= session_row(id@, query@, now));
    }
    insert_ignore("sessions", &fields)
}

/// The row of a command that waits.
pub open spec fn cmd_row(id: Seq<char>, req: PostCmdView, now: i64) -> Seq<
    (Seq<char>, Seq<char>),
> {
    seq![
        ("id"@, id),
        ("mesh"@, req.mesh),
        ("src"@, req.src),
        ("dst"@, req.dst),
        ("state"@, "pending"@),
        ("req"@, req.req),
        ("res"@, ""@),
        ("created"@, time(now)),
        ("updated"@, time(now)),
        ("exp"@, number::decimal(now + COMMAND_SECONDS)),
    ]
}

/// Keeps a command that waits.
pub fn insert_cmd(id: &str, req: &PostCmdRequest, now: i64) -> (r: StoreStep)
    requires
        now + COMMAND_SECONDS <= i64::MAX,
    ensures
        r@ == store::insertion("cmds"@, cmd_row(id@, req@, now)),
{
    let stamp = signed_text(now);
    let exp = signed_text(now + COMMAND_SECONDS);
    let fields = vec![
        pair("id", id),
        pair("mesh", req.mesh.as_str()),
        pair("src", req.src.as_str()),
        pair("dst", req.dst.as_str()),
        pair("state", "pending"),
        pair("req", req.req.as_str()),
        pair("res", ""),
        pair("created", stamp.as_str()),
        pair("updated", stamp.as_str()),
        pair("exp", exp.as_str()),
    ];
    proof {
        assert(urls::pairs_view(fields@) =~= cmd_row(id@, req@, now));
    }
    insert_ignore("cmds", &fields)
}

/// What is set in the row of a command that came to an end.
pub open spec fn finish_sets(response: CmdView, now: i64) -> Seq<(Seq<char>, Seq<char>)> {
    let res = match response.res {
        Some(s) => s,
        None => Seq::empty(),
    };
    seq![("state"@, response.state), ("res"@, res), ("updated"@, time(now))]
}

/// The step that keeps what became of a command.
pub open spec fn finish_step(response: CmdView, now: i64) -> StoreStepView {
    store::update(
        "cmds"@,
        finish_sets(response, now),
        "id"@,
        response.id,
        true,
    )
}

/// Keeps what became of a command.
pub fn finish_cmd(response: &CmdResponse, now: i64) -> (r: StoreStep)
    ensures
        r@ == finish_step(response@, now),
{
    proof {
        reveal_strlit("");
        assert(""@ =~= Seq::<char>::empty());
    }
    let res = match &response.res {
        Some(s) => s.as_str(),
        None => "",
    };
    let sets = vec![
        pair("state", response.state.as_str()),
        pair("res", res),
        pair("updated", signed_text(now).as_str()),
    ];
    proof {
        assert(urls::pairs_view(sets@) =~= finish_sets(response@, now));
    }
    set_where("cmds", &sets, "id", response.id.as_str(), true)
}

} // verus!
