//! What a node asks of a hub, and what it makes of the answers.

use crate::auth;
use crate::auth::API_KEY_ENV;
use crate::crypto;
use crate::encoding;
use crate::encoding::{url_decode, url_encode};
use crate::ids;
use crate::ids::fresh_id;
use crate::model;
use crate::model::{Node, NodeView};
use crate::number;
use crate::number::unsigned_text;
use crate::rpc;
use crate::rpc::{encode_request, encode_response, Frame, FrameView};
use crate::security;
use crate::security::{install_mesh_key, nonce};
use crate::state;
use crate::state::{StateView, ViaState};
use crate::text;
use crate::text::{copy_opt, pad, same, strip_prefix, trim};
use crate::urls;
use crate::urls::{is_hosted_hub_url, normalize_hub_ref};
use crate::util;
use crate::util::normalize_slug;
use vstd::prelude::*;
use vstd::utf8;

verus! {

/// The path at which grants are asked for.
pub const CLOUD_PROVISION_PATH: &'static str = "/api/hub/provision";

/// The shortest time that an invite is good for, in seconds.
pub const SHORTEST_INVITE: i64 = 60;

/// The hub that a node uses, and its token there.
#[derive(Debug)]
pub struct HubConfig {
    pub url: String,
    pub token: Option<String>,
}

/// What an invite tells a machine that joins.
#[derive(Debug)]
pub struct InviteToken {
    pub v: u8,
    pub hub: String,
    pub mesh: String,
    pub key: String,
    pub token: String,
    pub name: Option<String>,
    pub exp: i64,
}

/// A node as a hub knows it.
#[derive(Debug)]
pub struct HubNode {
    pub id: String,
    pub slug: String,
    pub name: String,
    pub status: String,
    pub seen: i64,
}

/// A command that a hub is asked to relay.
#[derive(Debug)]
pub struct PostCmdRequest {
    pub mesh: String,
    pub src: String,
    pub dst: String,
    pub req: String,
    pub token: Option<String>,
}

/// A command as a node posts it to a hub.
#[derive(Debug)]
pub struct RelayRequest {
    pub mesh: String,
    pub src: String,
    pub dst: String,
    pub req: Frame,
    pub token: Option<String>,
}

/// What a node answers to a command that a hub relayed to it.
#[derive(Debug)]
pub struct RelayAnswer {
    pub id: String,
    pub res: Frame,
}

/// What became of a command.
#[derive(Debug)]
pub struct CmdResponse {
    pub id: String,
    pub state: String,
    pub res: Option<String>,
    pub err: Option<String>,
}

/// What a hub, or the service that gives grants, is asked.
#[derive(Debug)]
pub enum HubRequest {
    CloudProvision {
        hub_url: String,
        mesh_id: String,
        mesh_name: String,
        node_id: String,
        node_slug: String,
    },
    ProvisionGrant { grant: String, node: String, slug: String },
    CreateMesh { id: String, name: String },
    CreateToken { mesh: String, name: Option<String>, token: String, exp: i64 },
    RegisterNode { mesh: String, node: String, slug: String },
    Join { mesh: String, node: String, slug: String, token: String },
    PostCmd(RelayRequest),
    ListNodes { mesh: String, node: String, token: String },
}

/// One request, and where it goes.
#[derive(Debug)]
pub struct HubCall {
    pub url: String,
    pub bearer: Option<String>,
    pub request: HubRequest,
}

// ---------------------------------------------------------------------------
// Models.

#[verifier::ext_equal]
pub struct ConfigView {
    pub url: Seq<char>,
    pub token: Option<Seq<char>>,
}

#[verifier::ext_equal]
pub struct InviteView {
    pub v: u8,
    pub hub: Seq<char>,
    pub mesh: Seq<char>,
    pub key: Seq<char>,
    pub token: Seq<char>,
    pub name: Option<Seq<char>>,
    pub exp: i64,
}

#[verifier::ext_equal]
pub struct HubNodeView {
    pub id: Seq<char>,
    pub slug: Seq<char>,
    pub name: Seq<char>,
    pub status: Seq<char>,
    pub seen: i64,
}

#[verifier::ext_equal]
pub struct PostCmdView {
    pub mesh: Seq<char>,
    pub src: Seq<char>,
    pub dst: Seq<char>,
    pub req: Seq<char>,
    pub token: Option<Seq<char>>,
}

#[verifier::ext_equal]
pub struct RelayView {
    pub mesh: Seq<char>,
    pub src: Seq<char>,
    pub dst: Seq<char>,
    pub req: FrameView,
    pub token: Option<Seq<char>>,
}

#[verifier::ext_equal]
pub struct CmdView {
    pub id: Seq<char>,
    pub state: Seq<char>,
    pub res: Option<Seq<char>>,
    pub err: Option<Seq<char>>,
}

#[verifier::ext_equal]
pub enum HubRequestView {
    CloudProvision {
        hub_url: Seq<char>,
        mesh_id: Seq<char>,
        mesh_name: Seq<char>,
        node_id: Seq<char>,
        node_slug: Seq<char>,
    },
    ProvisionGrant { grant: Seq<char>, node: Seq<char>, slug: Seq<char> },
    CreateMesh { id: Seq<char>, name: Seq<char> },
    CreateToken { mesh: Seq<char>, name: Option<Seq<char>>, token: Seq<char>, exp: i64 },
    RegisterNode { mesh: Seq<char>, node: Seq<char>, slug: Seq<char> },
    Join { mesh: Seq<char>, node: Seq<char>, slug: Seq<char>, token: Seq<char> },
    PostCmd(RelayView),
    ListNodes { mesh: Seq<char>, node: Seq<char>, token: Seq<char> },
}

#[verifier::ext_equal]
pub struct HubCallView {
    pub url: Seq<char>,
    pub bearer: Option<Seq<char>>,
    pub request: HubRequestView,
}

impl View for HubConfig {
    type V = ConfigView;

    open spec fn view(&self) -> ConfigView {
        ConfigView { url: self.url@, token: text::opt_text(self.token) }
    }
}

impl View for InviteToken {
    type V = InviteView;

    open spec fn view(&self) -> InviteView {
        InviteView {
            v: self.v,
            hub: self.hub@,
            mesh: self.mesh@,
            key: self.key@,
            token: self.token@,
            name: text::opt_text(self.name),
            exp: self.exp,
        }
    }
}

impl View for HubNode {
    type V = HubNodeView;

    open spec fn view(&self) -> HubNodeView {
        HubNodeView {
            id: self.id@,
            slug: self.slug@,
            name: self.name@,
            status: self.status@,
            seen: self.seen,
        }
    }
}

impl View for PostCmdRequest {
    type V = PostCmdView;

    open spec fn view(&self) -> PostCmdView {
        PostCmdView {
            mesh: self.mesh@,
            src: self.src@,
            dst: self.dst@,
            req: self.req@,
            token: text::opt_text(self.token),
        }
    }
}

impl View for RelayRequest {
    type V = RelayView;

    open spec fn view(&self) -> RelayView {
        RelayView {
            mesh: self.mesh@,
            src: self.src@,
            dst: self.dst@,
            req: self.req@,
            token: text::opt_text(self.token),
        }
    }
}

impl View for CmdResponse {
    type V = CmdView;

    open spec fn view(&self) -> CmdView {
        CmdView {
            id: self.id@,
            state: self.state@,
            res: text::opt_text(self.res),
            err: text::opt_text(self.err),
        }
    }
}

impl View for HubRequest {
    type V = HubRequestView;

    open spec fn view(&self) -> HubRequestView {
        match self {
            HubRequest::CloudProvision { hub_url, mesh_id, mesh_name, node_id, node_slug } => {
                HubRequestView::CloudProvision {
                    hub_url: hub_url@,
                    mesh_id: mesh_id@,
                    mesh_name: mesh_name@,
                    node_id: node_id@,
                    node_slug: node_slug@,
                }
            },
            HubRequest::ProvisionGrant { grant, node, slug } => HubRequestView::ProvisionGrant {
                grant: grant@,
                node: node@,
                slug: slug@,
            },
            HubRequest::CreateMesh { id, name } => HubRequestView::CreateMesh {
                id: id@,
                name: name@,
            },
            HubRequest::CreateToken { mesh, name, token, exp } => HubRequestView::CreateToken {
                mesh: mesh@,
                name: text::opt_text(*name),
                token: token@,
                exp: *exp,
            },
            HubRequest::RegisterNode { mesh, node, slug } => HubRequestView::RegisterNode {
                mesh: mesh@,
                node: node@,
                slug: slug@,
            },
            HubRequest::Join { mesh, node, slug, token } => HubRequestView::Join {
                mesh: mesh@,
                node: node@,
                slug: slug@,
                token: token@,
            },
            HubRequest::PostCmd(req) => HubRequestView::PostCmd(req@),
            HubRequest::ListNodes { mesh, node, token } => HubRequestView::ListNodes {
                mesh: mesh@,
                node: node@,
                token: token@,
            },
        }
    }
}

impl View for HubCall {
    type V = HubCallView;

    open spec fn view(&self) -> HubCallView {
        HubCallView {
            url: self.url@,
            bearer: text::opt_text(self.bearer),
            request: self.request@,
        }
    }
}

/// The contents of several nodes of a hub.
pub open spec fn hub_nodes(v: Seq<HubNode>) -> Seq<HubNodeView> {
    v.map_values(|n: HubNode| n@)
}

/// The contents of an optional configuration.
pub open spec fn opt_config(c: Option<HubConfig>) -> Option<ConfigView> {
    match c {
        Some(c) => Some(c@),
        None => None,
    }
}

impl Clone for CmdResponse {
    fn clone(&self) -> (r: Self)
        ensures
            r@ == self@,
    {
        CmdResponse {
            id: self.id.clone(),
            state: self.state.clone(),
            res: copy_opt(&self.res),
            err: copy_opt(&self.err),
        }
    }
}

impl Clone for HubNode {
    fn clone(&self) -> (r: Self)
        ensures
            r@ == self@,
    {
        HubNode {
            id: self.id.clone(),
            slug: self.slug.clone(),
            name: self.name.clone(),
            status: self.status.clone(),
            seen: self.seen,
        }
    }
}

// ---------------------------------------------------------------------------
// Credentials.

/// What a node shows to administer a hub: the administrator's token, or else its API
/// key.
pub open spec fn bearer_of(
    admin: Option<Seq<char>>,
    api_key: Result<Option<Seq<char>>, Seq<char>>,
) -> Option<Seq<char>> {
    match admin {
        Some(t) => if t.len() > 0 {
            Some(t)
        } else {
            key_or_none(api_key)
        },
        None => key_or_none(api_key),
    }
}

/// The API key, if there is one and it could be read.
pub open spec fn key_or_none(api_key: Result<Option<Seq<char>>, Seq<char>>) -> Option<Seq<char>> {
    match api_key {
        Ok(k) => k,
        Err(_) => None,
    }
}

/// What a node shows to administer a hub.
pub fn admin_request(admin: Option<&str>, api_key: Result<Option<String>, String>) -> (r: Option<
    String,
>)
    ensures
        text::opt_text(r) == bearer_of(text::opt_str(admin), auth::lookup_view(api_key)),
{
    if let Some(t) = admin {
        if !t.is_empty() {
            return Some(t.to_owned());
        }
    }
    match api_key {
        Ok(k) => k,
        Err(_) => None,
    }
}

/// What is said if there is no API key for the hosted hub.
pub open spec fn missing_key_text() -> Seq<char> {
    "missing Via API key for hosted hub; run `via auth init` or set "@ + API_KEY_ENV@
        + " before running `via hub use hosted`"@
}

/// The API key for the hosted hub: the node's own, or else the one that the
/// environment has for the cloud; or what is said if there is none.
pub open spec fn cloud_key_outcome(
    api_key: Result<Option<Seq<char>>, Seq<char>>,
    cloud_env: Option<Seq<char>>,
) -> Result<Seq<char>, Seq<char>> {
    match api_key {
        Err(e) => Err(e),
        Ok(Some(k)) => Ok(k),
        Ok(None) => match auth::key_in(cloud_env) {
            Some(k) => Ok(k),
            None => Err(missing_key_text()),
        },
    }
}

/// The API key for the hosted hub.
pub fn cloud_api_key(api_key: Result<Option<String>, String>, cloud_env: Option<&str>) -> (r:
    Result<String, String>)
    ensures
        text::text_outcome(r) == cloud_key_outcome(
            auth::lookup_view(api_key),
            text::opt_str(cloud_env),
        ),
{
    match api_key {
        Err(e) => Err(e),
        Ok(Some(k)) => Ok(k),
        Ok(None) => match auth::nonblank(cloud_env) {
            Some(k) => Ok(k),
            None => Err(
                "missing Via API key for hosted hub; run `via auth init` or set ".to_owned().concat(
                    API_KEY_ENV,
                ).concat(" before running `via hub use hosted`"),
            ),
        },
    }
}

/// Whether a status says that one is not let in.
pub open spec fn is_refusal(status: Option<u16>) -> bool {
    status == Some(401u16) || status == Some(403u16)
}

fn refused(status: Option<u16>) -> (r: bool)
    ensures
        r == is_refusal(status),
{
    match status {
        Some(s) => s == 401 || s == 403,
        None => false,
    }
}

/// What is said of a request for a grant that was answered with an error.
pub fn cloud_provision_error(status: Option<u16>) -> (r: String)
    ensures
        r@ == (if is_refusal(status) {
            "Via cloud rejected the API key; check "@ + API_KEY_ENV@ + " and try again"@
        } else {
            "Via cloud rejected the hosted hub grant request"@
        }),
{
    if refused(status) {
        "Via cloud rejected the API key; check ".to_owned().concat(API_KEY_ENV).concat(
            " and try again",
        )
    } else {
        "Via cloud rejected the hosted hub grant request".to_owned()
    }
}

/// What is said of a grant that the hosted hub answered with an error.
pub fn hosted_hub_grant_error(status: Option<u16>) -> (r: String)
    ensures
        r@ == (if is_refusal(status) {
            "hosted hub rejected the cloud grant; it may have expired, retry `via hub use hosted`"@
        } else {
            "hosted hub rejected the cloud grant"@
        }),
{
    if refused(status) {
        "hosted hub rejected the cloud grant; it may have expired, retry `via hub use hosted`".to_owned()
    } else {
        "hosted hub rejected the cloud grant".to_owned()
    }
}

// ---------------------------------------------------------------------------
// Using a hub.

/// What is to be done to use a hub.
#[derive(Debug)]
pub struct UsePlan {
    pub url: String,
    pub provision: Option<Provision>,
}

/// How a node gets its token from a hub.
#[derive(Debug)]
pub struct Provision {
    pub hosted: bool,
    pub mesh_id: String,
    pub node_id: String,
    pub node_slug: String,
}

/// The address of the hub, and how the node gets its token there if it belongs to a
/// mesh; or what is said of it.
pub open spec fn use_outcome(st: StateView, raw: Seq<char>, setting: Option<Seq<char>>) -> Result<
    (Seq<char>, Option<(bool, Seq<char>, Seq<char>, Seq<char>)>),
    Seq<char>,
> {
    match urls::hub_ref_outcome(raw, setting) {
        Err(e) => Err(e),
        Ok(url) => match st.mesh {
            None => Ok((url, None)),
            Some(mesh) => match state::local(st) {
                Err(e) => Err(e),
                Ok(own) => match urls::is_hosted_outcome(url, setting) {
                    Err(e) => Err(e),
                    Ok(hosted) => Ok((url, Some((hosted, mesh.id, own.id, own.slug)))),
                },
            },
        },
    }
}

/// The contents of a plan to use a hub.
pub open spec fn use_view(p: UsePlan) -> (
    Seq<char>,
    Option<(bool, Seq<char>, Seq<char>, Seq<char>)>,
) {
    (
        p.url@,
        match p.provision {
            Some(v) => Some((v.hosted, v.mesh_id@, v.node_id@, v.node_slug@)),
            None => None,
        },
    )
}

/// Finds out what is to be done to use a hub.
pub fn use_hub(state: &ViaState, url: &str, setting: Option<&str>) -> (r: Result<UsePlan, String>)
    ensures
        match r {
            Ok(p) => use_outcome(state@, url@, text::opt_str(setting)) == Ok::<
                (Seq<char>, Option<(bool, Seq<char>, Seq<char>, Seq<char>)>),
                Seq<char>,
            >(use_view(p)),
            Err(e) => use_outcome(state@, url@, text::opt_str(setting)) == Err::<
                (Seq<char>, Option<(bool, Seq<char>, Seq<char>, Seq<char>)>),
                Seq<char>,
            >(e@),
        },
{
    let url = match normalize_hub_ref(url, setting) {
        Ok(u) => u,
        Err(e) => return Err(e),
    };
    match state.mesh() {
        None => Ok(UsePlan { url, provision: None }),
        Some(mesh) => match state.local_node() {
            Err(e) => Err(e),
            Ok(own) => match is_hosted_hub_url(url.as_str(), setting) {
                Err(e) => Err(e),
                Ok(hosted) => Ok(
                    UsePlan {
                        url,
                        provision: Some(
                            Provision {
                                hosted,
                                mesh_id: mesh.id,
                                node_id: own.id,
                                node_slug: own.slug,
                            },
                        ),
                    },
                ),
            },
        },
    }
}

/// What is kept once a hub is used.
pub fn hub_used(url: String, token: Option<String>) -> (r: (HubConfig, String))
    ensures
        r.0@ == (ConfigView { url: url@, token: text::opt_text(token) }),
        r.1@ == "Via hub set to "@ + url@ + "."@,
{
    let line = "Via hub set to ".to_owned().concat(url.as_str()).concat(".");
    (HubConfig { url, token }, line)
}

/// Asks for a grant for the hosted hub.
pub fn provision_hosted_hub(cloud_url: &str, api_key: String, hub_url: &str, p: &Provision) -> (r:
    HubCall)
    ensures
        r@ == (HubCallView {
            url: cloud_url@ + CLOUD_PROVISION_PATH@,
            bearer: Some(api_key@),
            request: HubRequestView::CloudProvision {
                hub_url: hub_url@,
                mesh_id: p.mesh_id@,
                mesh_name: "default"@,
                node_id: p.node_id@,
                node_slug: p.node_slug@,
            },
        }),
{
    HubCall {
        url: cloud_url.to_owned().concat(CLOUD_PROVISION_PATH),
        bearer: Some(api_key),
        request: HubRequest::CloudProvision {
            hub_url: hub_url.to_owned(),
            mesh_id: p.mesh_id.clone(),
            mesh_name: "default".to_owned(),
            node_id: p.node_id.clone(),
            node_slug: p.node_slug.clone(),
        },
    }
}

/// Shows a grant to the hosted hub.
pub fn redeem_grant(hub_url: &str, grant: String, p: &Provision) -> (r: HubCall)
    ensures
        r@ == (HubCallView {
            url: hub_url@ + "/v1/grants/provision"@,
            bearer: None,
            request: HubRequestView::ProvisionGrant {
                grant: grant@,
                node: p.node_id@,
                slug: p.node_slug@,
            },
        }),
{
    HubCall {
        url: hub_url.to_owned().concat("/v1/grants/provision"),
        bearer: None,
        request: HubRequest::ProvisionGrant {
            grant,
            node: p.node_id.clone(),
            slug: p.node_slug.clone(),
        },
    }
}

/// Makes the mesh known to a hub.
pub fn create_mesh_call(hub_url: &str, bearer: &Option<String>, mesh_id: &str) -> (r: HubCall)
    ensures
        r@ == (HubCallView {
            url: hub_url@ + "/v1/meshes"@,
            bearer: text::opt_text(*bearer),
            request: HubRequestView::CreateMesh { id: mesh_id@, name: "default"@ },
        }),
{
    HubCall {
        url: hub_url.to_owned().concat("/v1/meshes"),
        bearer: copy_opt(bearer),
        request: HubRequest::CreateMesh { id: mesh_id.to_owned(), name: "default".to_owned() },
    }
}

/// Gets a node's token from a hub that one administers: the mesh is made known, and
/// then the node.
pub fn provision_self_hosted_hub(hub_url: &str, bearer: &Option<String>, p: &Provision) -> (r: (
    HubCall,
    HubCall,
))
    ensures
        r.0@ == (HubCallView {
            url: hub_url@ + "/v1/meshes"@,
            bearer: text::opt_text(*bearer),
            request: HubRequestView::CreateMesh { id: p.mesh_id@, name: "default"@ },
        }),
        r.1@ == (HubCallView {
            url: hub_url@ + "/v1/nodes/register"@,
            bearer: text::opt_text(*bearer),
            request: HubRequestView::RegisterNode {
                mesh: p.mesh_id@,
                node: p.node_id@,
                slug: p.node_slug@,
            },
        }),
{
    (
        create_mesh_call(hub_url, bearer, p.mesh_id.as_str()),
        HubCall {
            url: hub_url.to_owned().concat("/v1/nodes/register"),
            bearer: copy_opt(bearer),
            request: HubRequest::RegisterNode {
                mesh: p.mesh_id.clone(),
                node: p.node_id.clone(),
                slug: p.node_slug.clone(),
            },
        },
    )
}

// ---------------------------------------------------------------------------
// Invites.

/// The moment at which an invite made at `now` runs out.
pub open spec fn invite_end(now: i64, ttl: i64) -> int {
    now + (if ttl > SHORTEST_INVITE {
        ttl
    } else {
        SHORTEST_INVITE
    })
}

/// An invite, and what a hub has to be told of it.
#[derive(Debug)]
pub struct InvitePlan {
    pub invite: InviteToken,
    pub create_mesh: HubCall,
    pub create_token: HubCall,
}

/// What an invite needs that a node may not have, or what is said then.
pub open spec fn invite_parts(config: Option<ConfigView>, st: StateView) -> Result<
    (Seq<char>, Seq<char>),
    Seq<char>,
> {
    match config {
        None => Err("run `via hub use <url>` first"@),
        Some(c) => match st.mesh {
            None => Err("run `via init` before creating invites"@),
            Some(m) => Ok((c.url, m.id)),
        },
    }
}

/// That a plan makes an invite with this secret.
pub open spec fn is_invite_plan(
    p: InvitePlan,
    hub: Seq<char>,
    mesh: Seq<char>,
    key_file: Seq<char>,
    bearer: Option<Seq<char>>,
    name: Option<Seq<char>>,
    exp: int,
    secret: Seq<char>,
) -> bool {
    &&& p.invite@ == (InviteView {
        v: 1,
        hub,
        mesh,
        key: text::trimmed(key_file),
        token: secret,
        name,
        exp: exp as i64,
    })
    &&& p.create_mesh@ == (HubCallView {
        url: hub + "/v1/meshes"@,
        bearer,
        request: HubRequestView::CreateMesh { id: mesh, name: "default"@ },
    })
    &&& p.create_token@ == (HubCallView {
        url: hub + "/v1/tokens"@,
        bearer,
        request: HubRequestView::CreateToken { mesh, name, token: secret, exp: exp as i64 },
    })
}

/// Makes an invite with the secret `secret`.
pub fn invite_with_secret(
    hub: &str,
    mesh: &str,
    key_file: &str,
    bearer: &Option<String>,
    name: &Option<String>,
    ttl: i64,
    now: i64,
    secret: String,
) -> (r: InvitePlan)
    requires
        invite_end(now, ttl) <= i64::MAX,
    ensures
        is_invite_plan(
            r,
            hub@,
            mesh@,
            key_file@,
            text::opt_text(*bearer),
            text::opt_text(*name),
            invite_end(now, ttl),
            secret@,
        ),
{
    let exp: i64 = now + (if ttl > SHORTEST_INVITE {
        ttl
    } else {
        SHORTEST_INVITE
    });
    InvitePlan {
        invite: InviteToken {
            v: 1,
            hub: hub.to_owned(),
            mesh: mesh.to_owned(),
            key: trim(key_file).to_owned(),
            token: secret.clone(),
            name: copy_opt(name),
            exp,
        },
        create_mesh: create_mesh_call(hub, bearer, mesh),
        create_token: HubCall {
            url: hub.to_owned().concat("/v1/tokens"),
            bearer: copy_opt(bearer),
            request: HubRequest::CreateToken {
                mesh: mesh.to_owned(),
                name: copy_opt(name),
                token: secret,
                exp,
            },
        },
    }
}

/// Makes an invite. `key_file` is the text of the node's key file. The invite's
/// secret is fresh.
pub fn create_invite(
    config: &Option<HubConfig>,
    state: &ViaState,
    key_file: &str,
    bearer: &Option<String>,
    name: &Option<String>,
    ttl: i64,
    now: i64,
) -> (r: Result<InvitePlan, String>)
    requires
        invite_end(now, ttl) <= i64::MAX,
    ensures
        match invite_parts(opt_config(*config), state@) {
            Err(e) => r is Err && r->Err_0@ == e,
            Ok(p) => r matches Ok(plan) ==> is_invite_plan(
                plan,
                p.0,
                p.1,
                key_file@,
                text::opt_text(*bearer),
                text::opt_text(*name),
                invite_end(now, ttl),
                plan.invite.token@,
            ) && security::is_nonce(plan.invite.token@),
        },
{
    let config = match config {
        Some(c) => c,
        None => return Err("run `via hub use <url>` first".to_owned()),
    };
    let mesh = match state.mesh() {
        Some(m) => m,
        None => return Err("run `via init` before creating invites".to_owned()),
    };
    let secret = match nonce() {
        Ok(n) => n,
        Err(e) => return Err(e),
    };
    Ok(
        invite_with_secret(
            config.url.as_str(),
            mesh.id.as_str(),
            key_file,
            bearer,
            name,
            ttl,
            now,
            secret,
        ),
    )
}

/// The text of an invite, from its JSON. The JSON is read back from it.
pub fn invite_text(json: &Vec<u8>) -> (r: String)
    ensures
        r@ == "via1."@ + encoding::url_encoded(json@),
        invite_bytes_outcome(r@) == Ok::<Seq<u8>, Seq<char>>(json@),
{
    let encoded = url_encode(json);
    let r = "via1.".to_owned().concat(encoded.as_str());
    proof {
        reveal_strlit("via1.");
        assert(r@.subrange(0, 5) =~= "via1."@);
        assert("via1."@.is_prefix_of(r@));
        assert(r@.skip(5) =~= encoded@);
    }
    r
}

/// The JSON in the text of an invite, or what is said of the text.
pub open spec fn invite_bytes_outcome(token: Seq<char>) -> Result<Seq<u8>, Seq<char>> {
    if "via1."@.is_prefix_of(token) {
        encoding::url_decoded(token.skip("via1."@.len() as int))
    } else {
        Err("invalid Via invite token"@)
    }
}

/// The JSON in the text of an invite.
pub fn invite_bytes(token: &str) -> (r: Result<Vec<u8>, String>)
    ensures
        text::bytes_outcome(r) == invite_bytes_outcome(token@),
{
    match strip_prefix(token, "via1.") {
        Some(raw) => url_decode(raw),
        None => Err("invalid Via invite token".to_owned()),
    }
}

/// An invite that can be used, or what is said of it.
pub open spec fn invite_outcome(v: u8) -> Result<(), Seq<char>> {
    if v != 1 {
        Err("unsupported Via invite version"@)
    } else {
        Ok(())
    }
}

/// Checks an invite after its JSON was read.
pub fn decode_invite(invite: &InviteToken) -> (r: Result<(), String>)
    ensures
        text::unit_outcome(r) == invite_outcome(invite@.v),
{
    if invite.v != 1 {
        Err("unsupported Via invite version".to_owned())
    } else {
        Ok(())
    }
}

/// What a machine does to join a mesh.
#[derive(Debug)]
pub struct JoinPlan {
    pub node_name: String,
    pub mesh_id: String,
    pub node_id: String,
    pub call: HubCall,
}

/// The name under which a machine joins: the one that was given, or else the one in
/// the invite, or else the machine's own.
pub open spec fn join_name(
    name: Option<Seq<char>>,
    invite: InviteView,
    host: Result<Seq<char>, Seq<char>>,
) -> Seq<char> {
    match name {
        Some(n) => n,
        None => match invite.name {
            Some(n) => n,
            None => match host {
                Ok(h) => h,
                Err(_) => "node"@,
            },
        },
    }
}

/// The name and the slug under which a machine joins at `now`, or what is said of
/// the invite.
pub open spec fn join_outcome(
    name: Option<Seq<char>>,
    invite: InviteView,
    host: Result<Seq<char>, Seq<char>>,
    now: i64,
) -> Result<(Seq<char>, Seq<char>), Seq<char>> {
    if invite.v != 1 {
        Err("unsupported Via invite version"@)
    } else if invite.exp < now {
        Err("invite token expired"@)
    } else {
        match util::slug_outcome(join_name(name, invite, host)) {
            Err(e) => Err(e),
            Ok(s) => Ok((join_name(name, invite, host), s)),
        }
    }
}

/// What a machine does to join a mesh with an invite. `host` is the machine's name,
/// which matters only if no other is given. The node gets a fresh identifier.
pub fn join(
    name: Option<String>,
    invite: &InviteToken,
    host: Result<String, String>,
    now: i64,
) -> (r: Result<JoinPlan, String>)
    ensures
        match join_outcome(text::opt_text(name), invite@, text::text_outcome(host), now) {
            Err(e) => r is Err && r->Err_0@ == e,
            Ok(p) => r matches Ok(plan) && plan.node_name@ == p.0 && plan.mesh_id@ == invite@.mesh
                && ids::is_id(plan.node_id@) && plan.call@ == (HubCallView {
                url: invite@.hub + "/v1/join"@,
                bearer: None,
                request: HubRequestView::Join {
                    mesh: invite@.mesh,
                    node: plan.node_id@,
                    slug: p.1,
                    token: invite@.token,
                },
            }),
        },
{
    if let Err(e) = decode_invite(invite) {
        return Err(e);
    }
    if invite.exp < now {
        return Err("invite token expired".to_owned());
    }
    let node_name = match name {
        Some(n) => n,
        None => match &invite.name {
            Some(n) => n.clone(),
            None => match host {
                Ok(h) => h,
                Err(_) => "node".to_owned(),
            },
        },
    };
    let slug = match normalize_slug(node_name.as_str()) {
        Ok(s) => s,
        Err(e) => return Err(e),
    };
    let node_id = fresh_id();
    let call = HubCall {
        url: invite.hub.clone().concat("/v1/join"),
        bearer: None,
        request: HubRequest::Join {
            mesh: invite.mesh.clone(),
            node: node_id.clone(),
            slug,
            token: invite.token.clone(),
        },
    };
    Ok(JoinPlan { node_name, mesh_id: invite.mesh.clone(), node_id, call })
}

/// What the files of a node hold that joining a mesh can change: the text of the key
/// file, and the hub that the node uses.
#[derive(Debug)]
pub struct NodeFiles {
    pub mesh_key: Option<String>,
    pub hub_config: Option<HubConfig>,
}

#[verifier::ext_equal]
pub struct FilesView {
    pub mesh_key: Option<Seq<char>>,
    pub hub_config: Option<ConfigView>,
}

impl View for NodeFiles {
    type V = FilesView;

    open spec fn view(&self) -> FilesView {
        FilesView {
            mesh_key: text::opt_text(self.mesh_key),
            hub_config: opt_config(self.hub_config),
        }
    }
}

/// What the files of a node hold once the hub answered who joins with a token or a
/// refusal, or what is said.
pub open spec fn joined_outcome(
    files: FilesView,
    invite: InviteView,
    answer: Result<Seq<char>, Seq<char>>,
) -> Result<FilesView, Seq<char>> {
    match answer {
        Err(e) => Err(e),
        Ok(token) => match security::install_outcome(files.mesh_key, invite.key) {
            Err(e) => Err(e),
            Ok(installed) => Ok(
                FilesView {
                    mesh_key: match installed.1 {
                        Some(file) => Some(file),
                        None => files.mesh_key,
                    },
                    hub_config: Some(ConfigView { url: invite.hub, token: Some(token) }),
                },
            ),
        },
    }
}

/// Takes the hub's answer to who joins: its key is taken over and its hub is used from
/// now on. If the hub refuses, or the key is not the one that the node has, the files
/// stay as they are.
pub fn joined(files: &mut NodeFiles, invite: &InviteToken, answer: Result<String, String>) -> (r:
    Result<(), String>)
    ensures
        match joined_outcome(old(files)@, invite@, text::text_outcome(answer)) {
            Ok(after) => r is Ok && final(files)@ == after,
            Err(e) => r is Err && r->Err_0@ == e && *final(files) == *old(files),
        },
{
    let token = match answer {
        Ok(t) => t,
        Err(e) => return Err(e),
    };
    let file: Option<&str> = match &files.mesh_key {
        Some(f) => Some(f.as_str()),
        None => None,
    };
    let installed = match install_mesh_key(file, invite.key.as_str()) {
        Ok(k) => k,
        Err(e) => return Err(e),
    };
    if let Some(text) = installed.file {
        files.mesh_key = Some(text);
    }
    files.hub_config = Some(HubConfig { url: invite.hub.clone(), token: Some(token) });
    Ok(())
}

/// What the files of a node hold after someone asked it to join with an invite, and
/// what is said if that failed. `answer` is what the hub answers, if it is asked.
pub open spec fn after_join(
    files: FilesView,
    name: Option<Seq<char>>,
    invite: InviteView,
    host: Result<Seq<char>, Seq<char>>,
    now: i64,
    answer: Result<Seq<char>, Seq<char>>,
) -> (FilesView, Result<(), Seq<char>>) {
    match join_outcome(name, invite, host, now) {
        Err(e) => (files, Err(e)),
        Ok(_) => match joined_outcome(files, invite, answer) {
            Err(e) => (files, Err(e)),
            Ok(after) => (after, Ok(())),
        },
    }
}

/// Joining with an invite that has ended, or that the hub refuses, fails and leaves the
/// key file and the hub as they were. Otherwise the node has the invite's key and uses
/// its hub, unless it had another key before.
pub proof fn law_refused_join_changes_nothing(
    files: FilesView,
    name: Option<Seq<char>>,
    invite: InviteView,
    host: Result<Seq<char>, Seq<char>>,
    now: i64,
    answer: Result<Seq<char>, Seq<char>>,
)
    ensures
        ({
            let after = after_join(files, name, invite, host, now, answer);
            &&& (invite.v != 1 || invite.exp < now || answer is Err) ==> after.1 is Err
            &&& after.1 is Err ==> after.0 == files
            &&& after.1 is Ok ==> after.0.mesh_key is Some && after.0.hub_config == Some(
                ConfigView { url: invite.hub, token: Some(answer->Ok_0) },
            ) && security::key_outcome(after.0.mesh_key->Some_0) == security::key_outcome(
                invite.key,
            )
        }),
{
    text::lemma_trimmed_idempotent(invite.key);
}

// ---------------------------------------------------------------------------
// Calls through a hub.

/// What a call through a hub needs that a node may not have, or what is said then.
pub open spec fn relay_parts(config: Option<ConfigView>, st: StateView) -> Result<
    (ConfigView, Seq<char>, NodeView),
    Seq<char>,
> {
    match config {
        None => Err("run `via hub use <url>` first"@),
        Some(c) => match st.mesh {
            None => Err("run `via init` first"@),
            Some(m) => match state::local(st) {
                Err(e) => Err(e),
                Ok(own) => Ok((c, m.id, own)),
            },
        },
    }
}

/// What is posted to a hub to have a frame relayed to the node called `dst`.
pub open spec fn relay_call(
    parts: (ConfigView, Seq<char>, NodeView),
    dst: Seq<char>,
    frame: FrameView,
) -> HubCallView {
    HubCallView {
        url: parts.0.url + "/v1/cmds"@,
        bearer: None,
        request: HubRequestView::PostCmd(
            RelayView {
                mesh: parts.1,
                src: parts.2.slug,
                dst,
                req: frame,
                token: parts.0.token,
            },
        ),
    }
}

/// The frame that a call posts.
pub open spec fn posted(call: HubCallView) -> FrameView {
    call.request->PostCmd_0.req
}

/// Asks a hub to relay a request to a node, where `key` is the key of the mesh, if there is
/// one, or why it cannot be read. With a key the hub is given nothing of the request but
/// what sealing it makes.
pub fn call_node(
    config: &Option<HubConfig>,
    state: &ViaState,
    key: &Result<Option<Vec<u8>>, String>,
    node: &Node,
    request: String,
) -> (r: Result<HubCall, String>)
    ensures
        match relay_parts(opt_config(*config), state@) {
            Err(e) => r is Err && r->Err_0@ == e,
            Ok(parts) => match *key {
                Err(e) => r is Err && r->Err_0@ == e@,
                Ok(k) => {
                    &&& r matches Ok(call) ==> call@ == relay_call(
                        parts,
                        node@.slug,
                        posted(call@),
                    ) && rpc::is_frame_for(
                        posted(call@),
                        rpc::opt_key(k),
                        "rpc.request"@,
                        request@,
                    )
                    &&& k is Some && r is Ok ==> posted(r->Ok_0@) is Sealed
                    &&& k is None ==> r is Ok
                    &&& k is Some && k->Some_0@.len() != 32 ==> r is Err && r->Err_0@
                        == "Invalid Length"@
                    &&& k is Some && utf8::encode_utf8(request@).len() > crypto::LONGEST_PLAINTEXT
                        ==> r is Err
                },
            },
        },
{
    let config = match config {
        Some(c) => c,
        None => return Err("run `via hub use <url>` first".to_owned()),
    };
    let mesh = match state.mesh() {
        Some(m) => m,
        None => return Err("run `via init` first".to_owned()),
    };
    let own = match state.local_node() {
        Ok(n) => n,
        Err(e) => return Err(e),
    };
    let key = match key {
        Ok(k) => k,
        Err(e) => return Err(e.clone()),
    };
    let req = match encode_request(key, request) {
        Ok(frame) => frame,
        Err(e) => return Err(e),
    };
    Ok(
        HubCall {
            url: config.url.clone().concat("/v1/cmds"),
            bearer: None,
            request: HubRequest::PostCmd(
                RelayRequest {
                    mesh: mesh.id,
                    src: own.slug,
                    dst: node.slug.clone(),
                    req,
                    token: copy_opt(&config.token),
                },
            ),
        },
    )
}

/// Answers a command that a hub relayed. With a key the hub is given nothing of the
/// response but what sealing it makes.
pub fn answer_relayed(
    id: String,
    key: &Result<Option<Vec<u8>>, String>,
    response: String,
) -> (r: Result<RelayAnswer, String>)
    ensures
        match *key {
            Err(e) => r is Err && r->Err_0@ == e@,
            Ok(k) => {
                &&& r matches Ok(answer) ==> answer.id@ == id@ && rpc::is_frame_for(
                    answer.res@,
                    rpc::opt_key(k),
                    "rpc.response"@,
                    response@,
                )
                &&& k is Some && r is Ok ==> r->Ok_0.res@ is Sealed
                &&& k is None ==> r is Ok
                &&& k is Some && k->Some_0@.len() != 32 ==> r is Err && r->Err_0@
                    == "Invalid Length"@
                &&& k is Some && utf8::encode_utf8(response@).len() > crypto::LONGEST_PLAINTEXT
                    ==> r is Err
            },
        },
{
    let key = match key {
        Ok(k) => k,
        Err(e) => return Err(e.clone()),
    };
    match encode_response(key, response) {
        Ok(res) => Ok(RelayAnswer { id, res }),
        Err(e) => Err(e),
    }
}

/// The sealed response in what became of a command, or what is said of it.
pub open spec fn relayed_outcome(c: CmdView) -> Result<Seq<char>, Seq<char>> {
    match c.err {
        Some(e) => Err(e),
        None => match c.res {
            Some(r) => Ok(r),
            None => Err("hub command returned no response"@),
        },
    }
}

/// The sealed response in what became of a command.
pub fn relayed(response: CmdResponse) -> (r: Result<String, String>)
    ensures
        text::text_outcome(r) == relayed_outcome(response@),
{
    match response.err {
        Some(e) => Err(e),
        None => match response.res {
            Some(r) => Ok(r),
            None => Err("hub command returned no response".to_owned()),
        },
    }
}

/// What asking a hub for its nodes needs that a node may not have, or what is said
/// then.
pub open spec fn listing_parts(config: Option<ConfigView>, st: StateView) -> Result<
    (Seq<char>, Seq<char>, Seq<char>, NodeView),
    Seq<char>,
> {
    match config {
        None => Err("run `via hub use <url>` first"@),
        Some(c) => match c.token {
            None => Err("hub is configured but missing a node token"@),
            Some(t) => match st.mesh {
                None => Err("run `via init` first"@),
                Some(m) => match state::local(st) {
                    Err(e) => Err(e),
                    Ok(own) => Ok((c.url, t, m.id, own)),
                },
            },
        },
    }
}

/// Asks a hub for its nodes.
pub fn nodes(config: &Option<HubConfig>, state: &ViaState) -> (r: Result<HubCall, String>)
    ensures
        match listing_parts(opt_config(*config), state@) {
            Err(e) => r is Err && r->Err_0@ == e,
            Ok(p) => r matches Ok(call) && call@ == (HubCallView {
                url: p.0 + "/v1/nodes"@,
                bearer: None,
                request: HubRequestView::ListNodes { mesh: p.2, node: p.3.slug, token: p.1 },
            }),
        },
{
    let config = match config {
        Some(c) => c,
        None => return Err("run `via hub use <url>` first".to_owned()),
    };
    let token = match &config.token {
        Some(t) => t.clone(),
        None => return Err("hub is configured but missing a node token".to_owned()),
    };
    let mesh = match state.mesh() {
        Some(m) => m,
        None => return Err("run `via init` first".to_owned()),
    };
    let own = match state.local_node() {
        Ok(n) => n,
        Err(e) => return Err(e),
    };
    Ok(
        HubCall {
            url: config.url.clone().concat("/v1/nodes"),
            bearer: None,
            request: HubRequest::ListNodes { mesh: mesh.id, node: own.slug, token },
        },
    )
}

/// Whether a hub listed its nodes. `status` is what it answered with.
pub fn check_listing(success: bool, status: &str) -> (r: Result<(), String>)
    ensures
        text::unit_outcome(r) == (if success {
            Ok::<(), Seq<char>>(())
        } else {
            Err("hub node discovery failed with status "@ + status@)
        }),
{
    if success {
        Ok(())
    } else {
        Err("hub node discovery failed with status ".to_owned().concat(status))
    }
}

/// A node of a hub, as a node that is reached at these addresses.
pub open spec fn node_of(n: HubNodeView, addresses: Seq<Seq<char>>) -> NodeView {
    NodeView {
        id: n.id,
        slug: n.slug,
        display_name: n.name,
        addresses,
        daemon_addr: Seq::empty(),
        iroh_addr: None,
        public: false,
        created_at: n.seen,
        last_seen_at: if n.status == "online"@ {
            Some(n.seen)
        } else {
            None
        },
    }
}

/// The first node of a hub that is called `slug`.
pub open spec fn listed(nodes: Seq<HubNodeView>, slug: Seq<char>) -> Option<HubNodeView>
    decreases nodes.len(),
{
    if nodes.len() == 0 {
        None
    } else if nodes[0].slug == slug {
        Some(nodes[0])
    } else {
        listed(nodes.skip(1), slug)
    }
}

/// A node of a hub, as a node that is reached at these addresses.
pub fn as_node(n: &HubNode, addresses: Vec<String>) -> (r: Node)
    ensures
        r@ == node_of(n@, text::texts(addresses@)),
{
    let seen = if same(n.status.as_str(), "online") {
        Some(n.seen)
    } else {
        None
    };
    Node {
        id: n.id.clone(),
        slug: n.slug.clone(),
        display_name: n.name.clone(),
        addresses,
        daemon_addr: String::new(),
        iroh_addr: None,
        public: false,
        created_at: n.seen,
        last_seen_at: seen,
    }
}

/// The first node of a hub that is called `slug`.
pub fn find_listed<'a>(nodes: &'a Vec<HubNode>, slug: &str) -> (r: Option<&'a HubNode>)
    ensures
        match r {
            Some(n) => listed(hub_nodes(nodes@), slug@) == Some(n@),
            None => listed(hub_nodes(nodes@), slug@) is None,
        },
{
    let ghost all = hub_nodes(nodes@);
    let mut i: usize = 0;
    proof {
        assert(all.skip(0) == all);
    }
    while i < nodes.len()
        invariant
            i <= nodes.len(),
            all == hub_nodes(nodes@),
            listed(all, slug@) == listed(all.skip(i as int), slug@),
        decreases nodes.len() - i,
    {
        proof {
            assert(all.skip(i as int)[0] == nodes@[i as int]@);
            assert(all.skip(i as int).skip(1) == all.skip(i + 1));
        }
        if same(nodes[i].slug.as_str(), slug) {
            return Some(&nodes[i]);
        }
        i += 1;
    }
    None
}

/// The node of a hub that is called `slug`, which is reached through the hub only.
pub fn node_by_slug(nodes: &Vec<HubNode>, slug: &str) -> (r: Option<Node>)
    ensures
        model::opt_node(r) == (match listed(hub_nodes(nodes@), slug@) {
            Some(n) => Some(node_of(n, Seq::empty())),
            None => None,
        }),
{
    match find_listed(nodes, slug) {
        Some(n) => {
            let none: Vec<String> = Vec::new();
            proof {
                assert(text::texts(none@) =~= Seq::<Seq<char>>::empty());
            }
            Some(as_node(n, none))
        },
        None => None,
    }
}

// ---------------------------------------------------------------------------
// What is shown of a hub.

/// How many of the nodes are connected.
pub open spec fn online_count(nodes: Seq<HubNodeView>) -> nat
    decreases nodes.len(),
{
    if nodes.len() == 0 {
        0
    } else {
        online_count(nodes.drop_last()) + (if nodes.last().status == "online"@ {
            1nat
        } else {
            0nat
        })
    }
}

/// What is shown first of the hub that a node uses, and whether its nodes are to be
/// asked for.
#[derive(Debug)]
pub enum StatusStep {
    /// This is all.
    Shown(Vec<String>),
    /// These lines come first; the hub's nodes are to be asked for.
    Ask(Vec<String>),
    /// These lines come first, and then it fails.
    Failed(Vec<String>, String),
}

/// That `step` is what is shown first of the hub that a node uses.
pub open spec fn is_status_step(step: StatusStep, config: Option<ConfigView>, st: StateView) -> bool {
    match config {
        None => step matches StatusStep::Shown(l) && text::texts(l@) == seq!["hub: none"@],
        Some(c) => match st.mesh {
            None => step matches StatusStep::Failed(l, e) && text::texts(l@) == seq![
                "hub: "@ + c.url,
            ] && e@ == "run `via init` first"@,
            Some(m) => match state::local(st) {
                Err(x) => step matches StatusStep::Failed(l, e) && text::texts(l@) == seq![
                    "hub: "@ + c.url,
                    "mesh: "@ + m.id,
                ] && e@ == x,
                Ok(own) => match c.token {
                    None => step matches StatusStep::Shown(l) && text::texts(l@) == seq![
                        "hub: "@ + c.url,
                        "mesh: "@ + m.id,
                        "node: "@ + own.slug,
                        "auth: missing token"@,
                    ],
                    Some(_) => step matches StatusStep::Ask(l) && text::texts(l@) == seq![
                        "hub: "@ + c.url,
                        "mesh: "@ + m.id,
                        "node: "@ + own.slug,
                    ],
                },
            },
        },
    }
}

/// What is shown first of the hub that a node uses.
pub fn status(config: &Option<HubConfig>, state: &ViaState) -> (r: StatusStep)
    ensures
        is_status_step(r, opt_config(*config), state@),
{
    let config = match config {
        Some(c) => c,
        None => {
            let lines = vec!["hub: none".to_owned()];
            proof {
                assert(text::texts(lines@) =~= seq!["hub: none"@]);
            }
            return StatusStep::Shown(lines);
        },
    };
    let mut lines = vec!["hub: ".to_owned().concat(config.url.as_str())];
    proof {
        assert(text::texts(lines@) =~= seq!["hub: "@ + config.url@]);
    }
    let mesh = match state.mesh() {
        Some(m) => m,
        None => return StatusStep::Failed(lines, "run `via init` first".to_owned()),
    };
    lines.push("mesh: ".to_owned().concat(mesh.id.as_str()));
    proof {
        assert(text::texts(lines@) =~= seq!["hub: "@ + config.url@, "mesh: "@ + mesh.id@]);
    }
    let own = match state.local_node() {
        Ok(n) => n,
        Err(e) => return StatusStep::Failed(lines, e),
    };
    lines.push("node: ".to_owned().concat(own.slug.as_str()));
    let ghost three = seq!["hub: "@ + config.url@, "mesh: "@ + mesh.id@, "node: "@ + own.slug@];
    proof {
        assert(text::texts(lines@) =~= three);
    }
    match &config.token {
        None => {
            lines.push("auth: missing token".to_owned());
            proof {
                assert(text::texts(lines@) =~= three.push("auth: missing token"@));
                assert(text::texts(lines@) =~= seq![
                    "hub: "@ + config.url@,
                    "mesh: "@ + mesh.id@,
                    "node: "@ + own.slug@,
                    "auth: missing token"@,
                ]);
            }
            StatusStep::Shown(lines)
        },
        Some(_) => StatusStep::Ask(lines),
    }
}

/// What is shown of a hub's nodes, where `slug` is the local node's.
pub open spec fn listing_lines(nodes: Seq<HubNodeView>, slug: Seq<char>) -> Seq<Seq<char>> {
    seq![
        "auth: ok"@,
        "daemon: "@ + (match listed(nodes, slug) {
            Some(n) => n.status,
            None => "unknown"@,
        }),
        "nodes: "@ + number::decimal_nat(online_count(nodes)) + "/"@ + number::decimal_nat(
            nodes.len(),
        ) + " connected"@,
    ]
}

/// What is shown of a hub after its nodes were asked for.
pub fn status_listing(listing: Result<Vec<HubNode>, String>, slug: &str) -> (r: Vec<String>)
    ensures
        text::texts(r@) == (match listing {
            Ok(nodes) => listing_lines(hub_nodes(nodes@), slug@),
            Err(e) => seq!["auth: failed"@, "error: "@ + e@],
        }),
{
    match listing {
        Err(e) => {
            let lines = vec!["auth: failed".to_owned(), "error: ".to_owned().concat(e.as_str())];
            proof {
                assert(text::texts(lines@) =~= seq!["auth: failed"@, "error: "@ + e@]);
            }
            lines
        },
        Ok(nodes) => {
            let ghost all = hub_nodes(nodes@);
            let mut connected: u64 = 0;
            let mut i: usize = 0;
            while i < nodes.len()
                invariant
                    i <= nodes.len(),
                    all == hub_nodes(nodes@),
                    connected == online_count(all.take(i as int)),
                    connected <= i,
                decreases nodes.len() - i,
            {
                proof {
                    let next = all.take(i + 1);
                    assert(next.drop_last() == all.take(i as int));
                    assert(next.last() == nodes@[i as int]@);
                }
                if same(nodes[i].status.as_str(), "online") {
                    connected += 1;
                }
                i += 1;
            }
            proof {
                assert(all.take(all.len() as int) == all);
            }
            let own = match find_listed(&nodes, slug) {
                Some(n) => n.status.clone(),
                None => "unknown".to_owned(),
            };
            let lines = vec![
                "auth: ok".to_owned(),
                "daemon: ".to_owned().concat(own.as_str()),
                "nodes: ".to_owned().concat(unsigned_text(connected).as_str()).concat("/").concat(
                    unsigned_text(nodes.len() as u64).as_str(),
                ).concat(" connected"),
            ];
            proof {
                assert(text::texts(lines@) =~= listing_lines(all, slug@));
            }
            lines
        },
    }
}

/// What is shown of the hubs that a node can use.
pub fn list(config: &Option<HubConfig>) -> (r: Vec<String>)
    ensures
        text::texts(r@) == (match *config {
            None => seq!["No hub configured."@],
            Some(c) => seq![
                text::padded("ACTIVE"@, 8) + " URL"@,
                text::padded("yes"@, 8) + " "@ + c.url@,
            ],
        }),
{
    match config {
        None => {
            let lines = vec!["No hub configured.".to_owned()];
            proof {
                assert(text::texts(lines@) =~= seq!["No hub configured."@]);
            }
            lines
        },
        Some(c) => {
            let lines = vec![
                pad("ACTIVE", 8).concat(" URL"),
                pad("yes", 8).concat(" ").concat(c.url.as_str()),
            ];
            proof {
                assert(text::texts(lines@) =~= seq![
                    text::padded("ACTIVE"@, 8) + " URL"@,
                    text::padded("yes"@, 8) + " "@ + c.url@,
                ]);
            }
            lines
        },
    }
}

/// What is shown when a node stops using its hub; whether it had one is
/// `configured`. Only then there is a file to remove.
pub fn drop_hub(configured: bool) -> (r: String)
    ensures
        r@ == (if configured {
            "Via hub disconnected for this node."@
        } else {
            "No hub configured."@
        }),
{
    if configured {
        "Via hub disconnected for this node.".to_owned()
    } else {
        "No hub configured.".to_owned()
    }
}

} // verus!
