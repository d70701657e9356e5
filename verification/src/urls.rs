//! The addresses of hubs.

use crate::text;
use crate::text::{same, trim, trim_end_char};
use vstd::prelude::*;

verus! {

/// The hub that the project runs.
pub const HOSTED_HUB_URL: &'static str = "https://hub.via.pompeiilabs.com";

/// Where grants for the hosted hub are asked for.
pub const DEFAULT_CLOUD_API_URL: &'static str = "https://api.via.pompeiilabs.com";

/// The path at which an agent connects to a hub.
pub const AGENT_PATH: &'static str = "/v1/agent/connect";

/// The last position in an address that can be told.
pub const LAST_POSITION: usize = 0xffff_ffff;

/// The most characters that an agent's address is made from. A position in an address is
/// told in 32 bits, and a character can take up to twelve bytes there.
pub const LONGEST_ADDRESS: usize = 0x0800_0000;

/// The scheme and the path of an address as `url::Url::parse` reads it, and where the
/// path ends in its text; or what it says of the text.
pub uninterp spec fn url_parts(raw: Seq<char>) -> Result<
    (Seq<char>, Seq<char>, usize),
    Seq<char>,
>;

/// The text of the address that `url::Url::parse` reads from `raw`, after
/// `url::Url::set_path` with `path`.
pub uninterp spec fn url_with_path(raw: Seq<char>, path: Seq<char>) -> Seq<char>;

/// The text of the address that `url::Url::parse` reads from `raw`, after
/// `url::Url::set_scheme`, `url::Url::set_path`, and with more query pairs; nothing
/// if the scheme cannot be set.
pub uninterp spec fn url_rebuilt(
    raw: Seq<char>,
    scheme: Seq<char>,
    path: Seq<char>,
    pairs: Seq<(Seq<char>, Seq<char>)>,
) -> Option<Seq<char>>;

/// The contents of a scheme and a path with its end, or of what was said instead.
pub open spec fn parts_view(r: Result<(String, String, usize), String>) -> Result<
    (Seq<char>, Seq<char>, usize),
    Seq<char>,
> {
    match r {
        Ok(p) => Ok((p.0@, p.1@, p.2)),
        Err(e) => Err(e@),
    }
}

/// The contents of several pairs of strings.
pub open spec fn pairs_view(v: Seq<(String, String)>) -> Seq<(Seq<char>, Seq<char>)> {
    v.map_values(|p: (String, String)| (p.0@, p.1@))
}

/// Calls `url::Url::parse` and takes the scheme, the path, and how many bytes of the
/// address come before `url::Position::AfterPath`. An error is turned into what it
/// says.
#[verifier::external_body]
pub(crate) fn parse_url(raw: &str) -> (r: Result<(String, String, usize), String>)
    ensures
        parts_view(r) == url_parts(raw@),
{
    let url = url::Url::parse(raw).map_err(|error| error.to_string())?;
    let end = url[..url::Position::AfterPath].len();
    Ok((url.scheme().to_string(), url.path().to_string(), end))
}

/// Calls `url::Url::set_path` on the address that `url::Url::parse` reads from
/// `raw`, and takes the text of the address. It panics where the path ends behind what
/// 32 bits can tell; a path that begins the present one ends no later than that.
#[verifier::external_body]
pub(crate) fn set_url_path(raw: &str, path: &str) -> (r: String)
    requires
        url_parts(raw@) is Ok,
        url_parts(raw@)->Ok_0.0 == "http"@ || url_parts(raw@)->Ok_0.0 == "https"@,
        path@.is_prefix_of(url_parts(raw@)->Ok_0.1),
        url_parts(raw@)->Ok_0.2 <= LAST_POSITION,
    ensures
        r@ == url_with_path(raw@, path@),
{
    let mut url = url::Url::parse(raw).expect("an address that was read before");
    url.set_path(path);
    url.to_string()
}

/// Calls `url::Url::set_scheme`, `url::Url::set_path` and `extend_pairs` of
/// `url::Url::query_pairs_mut` on the address that `url::Url::parse` reads from
/// `raw`, and takes the text of the address. The lengths keep the address within
/// what it can be.
#[verifier::external_body]
pub(crate) fn rebuild_url(
    raw: &str,
    scheme: &str,
    path: &str,
    pairs: &Vec<(String, String)>,
) -> (r: Option<String>)
    requires
        url_parts(raw@) is Ok,
        raw@.len() + scheme@.len() + path@.len() + pairs_length(pairs_view(pairs@)) + 2
            * pairs@.len() <= LONGEST_ADDRESS,
    ensures
        text::opt_text(r) == url_rebuilt(raw@, scheme@, path@, pairs_view(pairs@)),
{
    let mut url = url::Url::parse(raw).expect("an address that was read before");
    url.set_scheme(scheme).ok()?;
    url.set_path(path);
    url.query_pairs_mut().extend_pairs(pairs);
    Some(url.to_string())
}

/// The number of characters in some pairs of strings.
pub open spec fn pairs_length(v: Seq<(Seq<char>, Seq<char>)>) -> nat
    decreases v.len(),
{
    if v.len() == 0 {
        0
    } else {
        pairs_length(v.drop_last()) + v.last().0.len() + v.last().1.len()
    }
}

/// The path under which a hub with this scheme and path is reached, or what is said
/// of the address.
pub open spec fn hub_path_outcome(parts: Result<(Seq<char>, Seq<char>, usize), Seq<char>>) -> Result<
    Seq<char>,
    Seq<char>,
> {
    match parts {
        Err(e) => Err(e),
        Ok(p) => if p.0 != "http"@ && p.0 != "https"@ {
            Err("hub URL must start with http:// or https://"@)
        } else if p.2 > LAST_POSITION {
            Err("hub URL is too long"@)
        } else {
            Ok(text::drop_back(p.1, text::only('/')))
        },
    }
}

/// The form in which the address of a hub is kept, or what is said of it.
pub open spec fn http_url_outcome(raw: Seq<char>) -> Result<Seq<char>, Seq<char>> {
    match hub_path_outcome(url_parts(raw)) {
        Err(e) => Err(e),
        Ok(path) => Ok(text::drop_back(url_with_path(raw, path), text::only('/'))),
    }
}

/// The address that a setting gives, or else the usual one.
pub open spec fn setting_or(setting: Option<Seq<char>>, usual: Seq<char>) -> Result<
    Seq<char>,
    Seq<char>,
> {
    match setting {
        Some(s) => if text::trimmed(s).len() > 0 {
            http_url_outcome(text::trimmed(s))
        } else {
            Ok(usual)
        },
        None => Ok(usual),
    }
}

/// The address of the hub that someone means by `raw`.
pub open spec fn hub_ref_outcome(raw: Seq<char>, setting: Option<Seq<char>>) -> Result<
    Seq<char>,
    Seq<char>,
> {
    if raw == "hosted"@ || raw == "via"@ || raw == "default"@ {
        setting_or(setting, HOSTED_HUB_URL@)
    } else {
        http_url_outcome(raw)
    }
}

/// Whether an address is that of the hosted hub, or what is said of it.
pub open spec fn is_hosted_outcome(url: Seq<char>, setting: Option<Seq<char>>) -> Result<
    bool,
    Seq<char>,
> {
    match http_url_outcome(url) {
        Err(e) => Err(e),
        Ok(a) => match setting_or(setting, HOSTED_HUB_URL@) {
            Err(e) => Err(e),
            Ok(b) => Ok(a == b),
        },
    }
}

/// The path under which a hub is reached, once its address was read.
pub fn hub_path(parts: Result<(String, String, usize), String>) -> (r: Result<String, String>)
    ensures
        text::text_outcome(r) == hub_path_outcome(parts_view(parts)),
{
    match parts {
        Err(e) => Err(e),
        Ok(p) => if !same(p.0.as_str(), "http") && !same(p.0.as_str(), "https") {
            Err("hub URL must start with http:// or https://".to_owned())
        } else if p.2 > LAST_POSITION {
            Err("hub URL is too long".to_owned())
        } else {
            Ok(trim_end_char(p.1.as_str(), '/').to_owned())
        },
    }
}

/// The form in which the address of a hub is kept.
pub fn normalize_http_url(raw: &str) -> (r: Result<String, String>)
    ensures
        text::text_outcome(r) == http_url_outcome(raw@),
{
    match hub_path(parse_url(raw)) {
        Err(e) => Err(e),
        Ok(path) => {
            proof {
                let whole = url_parts(raw@)->Ok_0.1;
                text::lemma_drop_back_shape(whole, text::only('/'));
                assert(path@ == whole.take(path@.len() as int));
                assert(path@.is_prefix_of(whole));
            }
            let url = set_url_path(raw, path.as_str());
            Ok(trim_end_char(url.as_str(), '/').to_owned())
        },
    }
}

fn from_setting(setting: Option<&str>, usual: &str) -> (r: Result<String, String>)
    ensures
        text::text_outcome(r) == setting_or(text::opt_str(setting), usual@),
{
    match setting {
        Some(s) => {
            let url = trim(s);
            if url.is_empty() {
                Ok(usual.to_owned())
            } else {
                normalize_http_url(url)
            }
        },
        None => Ok(usual.to_owned()),
    }
}

/// The address of the hosted hub; `setting` is what the environment says of it.
pub fn hosted_hub_url(setting: Option<&str>) -> (r: Result<String, String>)
    ensures
        text::text_outcome(r) == setting_or(text::opt_str(setting), HOSTED_HUB_URL@),
{
    from_setting(setting, HOSTED_HUB_URL)
}

/// The address at which grants are asked for; `setting` is what the environment
/// says of it.
pub fn cloud_api_url(setting: Option<&str>) -> (r: Result<String, String>)
    ensures
        text::text_outcome(r) == setting_or(text::opt_str(setting), DEFAULT_CLOUD_API_URL@),
{
    from_setting(setting, DEFAULT_CLOUD_API_URL)
}

/// Whether an address is that of the hosted hub.
pub fn is_hosted_hub_url(url: &str, setting: Option<&str>) -> (r: Result<bool, String>)
    ensures
        match r {
            Ok(b) => is_hosted_outcome(url@, text::opt_str(setting)) == Ok::<bool, Seq<char>>(b),
            Err(e) => is_hosted_outcome(url@, text::opt_str(setting)) == Err::<bool, Seq<char>>(e@),
        },
{
    match normalize_http_url(url) {
        Err(e) => Err(e),
        Ok(a) => match hosted_hub_url(setting) {
            Err(e) => Err(e),
            Ok(b) => Ok(same(a.as_str(), b.as_str())),
        },
    }
}

/// The address of the hub that someone means by `raw`: the hosted hub has short
/// names.
pub fn normalize_hub_ref(raw: &str, setting: Option<&str>) -> (r: Result<String, String>)
    ensures
        text::text_outcome(r) == hub_ref_outcome(raw@, text::opt_str(setting)),
{
    if same(raw, "hosted") || same(raw, "via") || same(raw, "default") {
        hosted_hub_url(setting)
    } else {
        normalize_http_url(raw)
    }
}

/// The scheme of an agent's connection to a hub with this scheme, or what is said
/// of it.
pub open spec fn socket_scheme_outcome(parts: Result<(Seq<char>, Seq<char>, usize), Seq<char>>) -> Result<
    Seq<char>,
    Seq<char>,
> {
    match parts {
        Err(e) => Err(e),
        Ok(p) => if p.0 == "https"@ {
            Ok("wss"@)
        } else if p.0 == "http"@ {
            Ok("ws"@)
        } else {
            Err("unsupported hub URL scheme '"@ + p.0 + "'"@)
        },
    }
}

/// What an agent tells a hub of itself when it connects.
pub open spec fn agent_pairs(
    mesh: Seq<char>,
    node: Seq<char>,
    slug: Seq<char>,
    token: Option<Seq<char>>,
) -> Seq<(Seq<char>, Seq<char>)> {
    let base = seq![("mesh"@, mesh), ("node"@, node), ("slug"@, slug)];
    match token {
        Some(t) => base.push(("token"@, t)),
        None => base,
    }
}

/// The address at which an agent connects to a hub, or what is said of it.
pub open spec fn agent_url_outcome(
    url: Seq<char>,
    mesh: Seq<char>,
    node: Seq<char>,
    slug: Seq<char>,
    token: Option<Seq<char>>,
) -> Result<Seq<char>, Seq<char>> {
    match socket_scheme_outcome(url_parts(url)) {
        Err(e) => Err(e),
        Ok(scheme) => match url_rebuilt(
            url,
            scheme,
            AGENT_PATH@,
            agent_pairs(mesh, node, slug, token),
        ) {
            Some(u) => Ok(u),
            None => Err("failed to set websocket scheme"@),
        },
    }
}

/// The scheme of an agent's connection, once the hub's address was read.
pub fn socket_scheme(parts: Result<(String, String, usize), String>) -> (r: Result<String, String>)
    ensures
        text::text_outcome(r) == socket_scheme_outcome(parts_view(parts)),
{
    match parts {
        Err(e) => Err(e),
        Ok(p) => if same(p.0.as_str(), "https") {
            Ok("wss".to_owned())
        } else if same(p.0.as_str(), "http") {
            Ok("ws".to_owned())
        } else {
            Err("unsupported hub URL scheme '".to_owned().concat(p.0.as_str()).concat("'"))
        },
    }
}

/// The number of characters in an optional string.
pub open spec fn opt_length(o: Option<Seq<char>>) -> nat {
    match o {
        Some(s) => s.len(),
        None => 0,
    }
}

/// The address at which an agent connects to a hub.
pub fn agent_ws_url(
    url: &str,
    mesh: &str,
    node: &str,
    slug: &str,
    token: &Option<String>,
) -> (r: Result<String, String>)
    requires
        url@.len() + mesh@.len() + node@.len() + slug@.len() + opt_length(text::opt_text(*token))
            + 64 <= LONGEST_ADDRESS,
    ensures
        text::text_outcome(r) == agent_url_outcome(
            url@,
            mesh@,
            node@,
            slug@,
            text::opt_text(*token),
        ),
{
    match socket_scheme(parse_url(url)) {
        Err(e) => Err(e),
        Ok(scheme) => {
            let mut pairs: Vec<(String, String)> = vec![
                ("mesh".to_owned(), mesh.to_owned()),
                ("node".to_owned(), node.to_owned()),
                ("slug".to_owned(), slug.to_owned()),
            ];
            let ghost base = seq![("mesh"@, mesh@), ("node"@, node@), ("slug"@, slug@)];
            proof {
                assert(pairs_view(pairs@) == base);
            }
            if let Some(t) = token {
                let ghost before = pairs@;
                pairs.push(("token".to_owned(), t.clone()));
                proof {
                    assert(pairs_view(pairs@) == pairs_view(before).push(("token"@, t@)));
                }
            }
            let ghost all = agent_pairs(mesh@, node@, slug@, text::opt_text(*token));
            proof {
                assert(pairs_view(pairs@) == all);
                reveal_strlit("mesh");
                reveal_strlit("node");
                reveal_strlit("slug");
                reveal_strlit("token");
                reveal_strlit("/v1/agent/connect");
                reveal_strlit("wss");
                reveal_strlit("ws");
                reveal_with_fuel(pairs_length, 5);
                assert(base.drop_last() == seq![("mesh"@, mesh@), ("node"@, node@)]);
                assert(base.drop_last().drop_last() == seq![("mesh"@, mesh@)]);
                assert(base.drop_last().drop_last().drop_last() == Seq::<
                    (Seq<char>, Seq<char>),
                >::empty());
                assert(pairs_length(base) == 12 + mesh@.len() + node@.len() + slug@.len());
                if token is Some {
                    assert(all.drop_last() == base);
                }
            }
            match rebuild_url(url, scheme.as_str(), AGENT_PATH, &pairs) {
                Some(u) => Ok(u),
                None => Err("failed to set websocket scheme".to_owned()),
            }
        },
    }
}

} // verus!
