//! Grants: what an issuer signed so that a node may use a hub.

use crate::crypto;
use crate::crypto::signature_accepts;
use crate::encoding;
use crate::encoding::{decode_base64, url_decode};
use crate::text;
use crate::text::{contains_char, same, split_char, strip_prefix, trim, until_char};
use crate::urls;
use crate::urls::normalize_http_url;
use vstd::prelude::*;

verus! {

/// What a grant in its usual form begins with.
pub const GRANT_PREFIX: &'static str = "viahub1.";

/// A grant as a JSON document.
#[derive(Debug)]
pub struct SignedGrantJson {
    pub payload: String,
    pub signature: String,
}

/// What a grant says.
#[derive(Debug)]
pub struct HubProvisionGrant {
    pub v: u8,
    pub aud: String,
    pub exp: i64,
    pub jti: String,
    pub account: String,
    pub mesh: String,
    pub name: Option<String>,
}

#[verifier::ext_equal]
pub struct GrantView {
    pub v: u8,
    pub aud: Seq<char>,
    pub exp: i64,
    pub jti: Seq<char>,
    pub account: Seq<char>,
    pub mesh: Seq<char>,
    pub name: Option<Seq<char>>,
}

impl View for HubProvisionGrant {
    type V = GrantView;

    open spec fn view(&self) -> GrantView {
        GrantView {
            v: self.v,
            aud: self.aud@,
            exp: self.exp,
            jti: self.jti@,
            account: self.account@,
            mesh: self.mesh@,
            name: text::opt_text(self.name),
        }
    }
}

/// A header of a request: it may be missing, or not be text.
#[derive(Debug)]
pub enum Header {
    Missing,
    Unreadable,
    Text(String),
}

#[verifier::ext_equal]
pub enum HeaderView {
    Missing,
    Unreadable,
    Text(Seq<char>),
}

impl View for Header {
    type V = HeaderView;

    open spec fn view(&self) -> HeaderView {
        match self {
            Header::Missing => HeaderView::Missing,
            Header::Unreadable => HeaderView::Unreadable,
            Header::Text(s) => HeaderView::Text(s@),
        }
    }
}

/// Bytes, if there are some.
pub open spec fn opt_bytes(o: Option<Vec<u8>>) -> Option<Seq<u8>> {
    match o {
        Some(b) => Some(b@),
        None => None,
    }
}

// ---------------------------------------------------------------------------
// The issuer.

/// The key of the issuer that the environment gives, or what is said of it.
pub open spec fn issuer_outcome(setting: Option<Seq<char>>) -> Result<
    Option<Seq<u8>>,
    Seq<char>,
> {
    match setting {
        None => Ok(None),
        Some(raw) => if raw.len() == 0 {
            Ok(None)
        } else {
            match encoding::any_decoded(raw) {
                Err(_) => Err("invalid issuer public key"@),
                Ok(key) => if key.len() != 32 {
                    Err("issuer public key must be 32 bytes"@)
                } else {
                    Ok(Some(key))
                },
            }
        },
    }
}

/// The key of the issuer, where `setting` is what the environment says of it.
pub fn load_issuer_pubkey(setting: Option<&str>) -> (r: Result<Option<Vec<u8>>, String>)
    ensures
        match r {
            Ok(key) => issuer_outcome(text::opt_str(setting)) == Ok::<Option<Seq<u8>>, Seq<char>>(
                opt_bytes(key),
            ),
            Err(e) => issuer_outcome(text::opt_str(setting)) == Err::<Option<Seq<u8>>, Seq<char>>(
                e@,
            ),
        },
{
    let raw = match setting {
        Some(raw) => raw,
        None => return Ok(None),
    };
    if raw.is_empty() {
        return Ok(None);
    }
    match decode_base64(raw) {
        Err(_) => Err("invalid issuer public key".to_owned()),
        Ok(key) => if key.len() != 32 {
            Err("issuer public key must be 32 bytes".to_owned())
        } else {
            Ok(Some(key))
        },
    }
}

// ---------------------------------------------------------------------------
// Signed grants.

/// The two parts of a grant, nothing if it has to be read as a JSON document, or
/// what is said of it.
pub open spec fn parts_outcome(grant: Seq<char>) -> Result<
    Option<(Seq<char>, Seq<char>)>,
    Seq<char>,
> {
    if GRANT_PREFIX@.is_prefix_of(grant) {
        two_parts(grant.skip(GRANT_PREFIX@.len() as int))
    } else if grant.contains('.') {
        two_parts(grant)
    } else {
        Ok(None)
    }
}

/// The two parts of a text around its only dot, or what is said of it.
pub open spec fn two_parts(raw: Seq<char>) -> Result<Option<(Seq<char>, Seq<char>)>, Seq<char>> {
    let parts = text::pieces(raw, '.');
    if parts.len() < 2 {
        Err("grant missing signature"@)
    } else if parts.len() > 2 {
        Err("invalid grant format"@)
    } else {
        Ok(Some((parts[0], parts[1])))
    }
}

fn split_in_two(raw: &str) -> (r: Result<Option<(String, String)>, String>)
    ensures
        match r {
            Ok(Some(p)) => two_parts(raw@) == Ok::<Option<(Seq<char>, Seq<char>)>, Seq<char>>(
                Some((p.0@, p.1@)),
            ),
            Ok(None) => false,
            Err(e) => two_parts(raw@) == Err::<Option<(Seq<char>, Seq<char>)>, Seq<char>>(e@),
        },
{
    let mut parts = split_char(raw, '.');
    let ghost all = text::texts(parts@);
    if parts.len() < 2 {
        return Err("grant missing signature".to_owned());
    }
    if parts.len() > 2 {
        return Err("invalid grant format".to_owned());
    }
    proof {
        assert(all[0] == parts@[0]@ && all[1] == parts@[1]@);
    }
    let signature = parts.remove(1);
    let payload = parts.remove(0);
    Ok(Some((payload, signature)))
}

/// The bytes of the two parts of a grant, or what is said of them.
pub open spec fn signed_outcome(payload: Seq<char>, signature: Seq<char>) -> Result<
    (Seq<u8>, Seq<u8>),
    Seq<char>,
> {
    match encoding::url_decoded(payload) {
        Err(e) => Err(e),
        Ok(p) => match encoding::any_decoded(signature) {
            Err(e) => Err(e),
            Ok(s) => if s.len() != 64 {
                Err("grant signature must be 64 bytes"@)
            } else {
                Ok((p, s))
            },
        },
    }
}

/// The contents of two parts.
pub open spec fn signed_view(r: Result<(Vec<u8>, Vec<u8>), String>) -> Result<
    (Seq<u8>, Seq<u8>),
    Seq<char>,
> {
    match r {
        Ok(p) => Ok((p.0@, p.1@)),
        Err(e) => Err(e@),
    }
}

/// The bytes of the two parts of a grant.
pub fn signed_grant_parts(payload: &str, signature: &str) -> (r: Result<
    (Vec<u8>, Vec<u8>),
    String,
>)
    ensures
        signed_view(r) == signed_outcome(payload@, signature@),
{
    match url_decode(payload) {
        Err(e) => Err(e),
        Ok(p) => match decode_base64(signature) {
            Err(e) => Err(e),
            Ok(s) => if s.len() != 64 {
                Err("grant signature must be 64 bytes".to_owned())
            } else {
                Ok((p, s))
            },
        },
    }
}

/// The two parts of a JSON document, or what is said of it.
pub open spec fn json_parts(json: Result<SignedGrantJson, String>) -> Result<
    (Seq<char>, Seq<char>),
    Seq<char>,
> {
    match json {
        Ok(j) => Ok((j.payload@, j.signature@)),
        Err(e) => Err(e@),
    }
}

/// The payload and the signature of a grant, or what is said of it. `json` is the
/// grant read as a JSON document.
pub open spec fn grant_outcome(
    grant: Seq<char>,
    json: Result<(Seq<char>, Seq<char>), Seq<char>>,
) -> Result<(Seq<u8>, Seq<u8>), Seq<char>> {
    match parts_outcome(grant) {
        Err(e) => Err(e),
        Ok(Some(p)) => signed_outcome(p.0, p.1),
        Ok(None) => match json {
            Err(e) => Err(e),
            Ok(p) => signed_outcome(p.0, p.1),
        },
    }
}

/// The payload and the signature of a grant. `json` is the grant read as a JSON
/// document.
pub fn decode_signed_grant(grant: &str, json: &Result<SignedGrantJson, String>) -> (r: Result<
    (Vec<u8>, Vec<u8>),
    String,
>)
    ensures
        signed_view(r) == grant_outcome(grant@, json_parts(*json)),
{
    let raw: &str = match strip_prefix(grant, GRANT_PREFIX) {
        Some(raw) => raw,
        None => if contains_char(grant, '.') {
            grant
        } else {
            return match json {
                Err(e) => Err(e.clone()),
                Ok(j) => signed_grant_parts(j.payload.as_str(), j.signature.as_str()),
            };
        },
    };
    match split_in_two(raw) {
        Err(e) => Err(e),
        Ok(Some(p)) => signed_grant_parts(p.0.as_str(), p.1.as_str()),
        Ok(None) => Err("grant missing signature".to_owned()),
    }
}

/// The payload of a grant that the issuer signed, or what is said of the grant.
pub open spec fn payload_outcome(
    issuer: Option<Seq<u8>>,
    grant: Seq<char>,
    json: Result<(Seq<char>, Seq<char>), Seq<char>>,
) -> Result<Seq<u8>, Seq<char>> {
    match issuer {
        None => Err("grant provisioning is not configured"@),
        Some(key) => match grant_outcome(grant, json) {
            Err(e) => Err(e),
            Ok(p) => if crypto::ed25519_accepts(key, p.0, p.1) {
                Ok(p.0)
            } else {
                Err("invalid grant signature"@)
            },
        },
    }
}

/// The payload of a grant that the issuer signed.
pub fn signed_payload(
    issuer: &Option<Vec<u8>>,
    grant: &str,
    json: &Result<SignedGrantJson, String>,
) -> (r: Result<Vec<u8>, String>)
    ensures
        text::bytes_outcome(r) == payload_outcome(opt_bytes(*issuer), grant@, json_parts(*json)),
{
    let key = match issuer {
        Some(key) => key,
        None => return Err("grant provisioning is not configured".to_owned()),
    };
    match decode_signed_grant(grant, json) {
        Err(e) => Err(e),
        Ok(p) => if signature_accepts(key, &p.0, &p.1) {
            Ok(p.0)
        } else {
            Err("invalid grant signature".to_owned())
        },
    }
}

/// Nothing of a grant is read unless there is an issuer and its signature of just
/// that payload is in the grant.
pub proof fn law_only_signed_grants_are_read(
    issuer: Option<Seq<u8>>,
    grant: Seq<char>,
    json: Result<(Seq<char>, Seq<char>), Seq<char>>,
)
    requires
        payload_outcome(issuer, grant, json) is Ok,
    ensures
        issuer matches Some(key) && exists|signature: Seq<u8>|
            signature.len() == 64 && crypto::ed25519_accepts(
                key,
                payload_outcome(issuer, grant, json)->Ok_0,
                signature,
            ),
{
    let p = grant_outcome(grant, json)->Ok_0;
    assert(crypto::ed25519_accepts(issuer->Some_0, p.0, p.1));
}

// ---------------------------------------------------------------------------
// The audience of a grant.

/// The hub that grants have to be meant for, or what is said if it is not known.
pub open spec fn audience_outcome(
    hub_url: Option<Seq<char>>,
    host: HeaderView,
    proto: Option<Seq<char>>,
) -> Result<Seq<char>, Seq<char>> {
    match hub_url {
        Some(url) => Ok(url),
        None => match host {
            HeaderView::Missing => Err("missing host header"@),
            HeaderView::Unreadable => Err("invalid host header"@),
            HeaderView::Text(host) => urls::http_url_outcome(
                text::trimmed(
                    text::until(
                        match proto {
                            Some(p) => p,
                            None => "http"@,
                        },
                        ',',
                    ),
                ) + "://"@ + host,
            ),
        },
    }
}

/// The hub that grants have to be meant for: the one that the hub was told to be, or
/// else the one that the request was sent to.
pub fn grant_audience(hub_url: Option<&str>, host: &Header, proto: Option<&str>) -> (r: Result<
    String,
    String,
>)
    ensures
        text::text_outcome(r) == audience_outcome(
            text::opt_str(hub_url),
            host@,
            text::opt_str(proto),
        ),
{
    if let Some(url) = hub_url {
        return Ok(url.to_owned());
    }
    let host = match host {
        Header::Missing => return Err("missing host header".to_owned()),
        Header::Unreadable => return Err("invalid host header".to_owned()),
        Header::Text(s) => s,
    };
    let proto = match proto {
        Some(p) => p,
        None => "http",
    };
    let scheme = trim(until_char(proto, ','));
    normalize_http_url(scheme.to_owned().concat("://").concat(host.as_str()).as_str())
}

// ---------------------------------------------------------------------------
// Accepting grants.

/// The grants that were accepted and have not ended: their identifiers and ends.
pub struct SeenGrants {
    seen: Vec<(String, i64)>,
}

impl View for SeenGrants {
    type V = Seq<(Seq<char>, i64)>;

    closed spec fn view(&self) -> Seq<(Seq<char>, i64)> {
        seen_view(self.seen@)
    }
}

spec fn seen_view(v: Seq<(String, i64)>) -> Seq<(Seq<char>, i64)> {
    v.map_values(|g: (String, i64)| (g.0@, g.1))
}

/// The grants that have not ended.
pub open spec fn standing(seen: Seq<(Seq<char>, i64)>, now: i64) -> Seq<(Seq<char>, i64)>
    decreases seen.len(),
{
    if seen.len() == 0 {
        Seq::empty()
    } else if seen.last().1 >= now {
        standing(seen.drop_last(), now).push(seen.last())
    } else {
        standing(seen.drop_last(), now)
    }
}

/// Whether a grant with this identifier is among those.
pub open spec fn is_seen(seen: Seq<(Seq<char>, i64)>, jti: Seq<char>) -> bool {
    exists|i: int| 0 <= i < seen.len() && (#[trigger] seen[i]).0 == jti
}

/// What is said of a grant by itself.
pub open spec fn claims_outcome(
    claims: GrantView,
    audience: Result<Seq<char>, Seq<char>>,
    now: i64,
) -> Result<(), Seq<char>> {
    if claims.v != 1 {
        Err("unsupported grant version"@)
    } else if claims.exp < now {
        Err("grant expired"@)
    } else if text::trimmed(claims.jti).len() == 0 {
        Err("grant missing jti"@)
    } else if text::trimmed(claims.account).len() == 0 {
        Err("grant missing account"@)
    } else if text::trimmed(claims.mesh).len() == 0 {
        Err("grant missing mesh"@)
    } else {
        match audience {
            Err(e) => Err(e),
            Ok(expected) => match urls::http_url_outcome(claims.aud) {
                Err(e) => Err(e),
                Ok(aud) => if aud != expected {
                    Err("grant audience mismatch"@)
                } else {
                    Ok(())
                },
            },
        }
    }
}

/// What is said of a grant after others were accepted.
pub open spec fn accept_outcome(
    seen: Seq<(Seq<char>, i64)>,
    claims: GrantView,
    audience: Result<Seq<char>, Seq<char>>,
    now: i64,
) -> Result<(), Seq<char>> {
    match claims_outcome(claims, audience, now) {
        Err(e) => Err(e),
        Ok(_) => if is_seen(standing(seen, now), claims.jti) {
            Err("grant replayed"@)
        } else {
            Ok(())
        },
    }
}

/// The accepted grants after one more came.
pub open spec fn seen_after(
    seen: Seq<(Seq<char>, i64)>,
    claims: GrantView,
    audience: Result<Seq<char>, Seq<char>>,
    now: i64,
) -> Seq<(Seq<char>, i64)> {
    match claims_outcome(claims, audience, now) {
        Err(_) => seen,
        Ok(_) => if is_seen(standing(seen, now), claims.jti) {
            standing(seen, now)
        } else {
            standing(seen, now).push((claims.jti, claims.exp))
        },
    }
}

/// Looks at a grant by itself.
pub fn check_claims(claims: &HubProvisionGrant, audience: &Result<String, String>, now: i64) -> (r:
    Result<(), String>)
    ensures
        text::unit_outcome(r) == claims_outcome(claims@, text::text_outcome(*audience), now),
{
    if claims.v != 1 {
        return Err("unsupported grant version".to_owned());
    }
    if claims.exp < now {
        return Err("grant expired".to_owned());
    }
    if trim(claims.jti.as_str()).is_empty() {
        return Err("grant missing jti".to_owned());
    }
    if trim(claims.account.as_str()).is_empty() {
        return Err("grant missing account".to_owned());
    }
    if trim(claims.mesh.as_str()).is_empty() {
        return Err("grant missing mesh".to_owned());
    }
    let expected = match audience {
        Ok(a) => a,
        Err(e) => return Err(e.clone()),
    };
    match normalize_http_url(claims.aud.as_str()) {
        Err(e) => Err(e),
        Ok(aud) => if same(aud.as_str(), expected.as_str()) {
            Ok(())
        } else {
            Err("grant audience mismatch".to_owned())
        },
    }
}

impl SeenGrants {
    /// Before any grant.
    pub fn new() -> (r: SeenGrants)
        ensures
            r@ == Seq::<(Seq<char>, i64)>::empty(),
    {
        let r = SeenGrants { seen: Vec::new() };
        proof {
            assert(r@ =~= Seq::empty());
        }
        r
    }

    fn retain(&mut self, now: i64)
        ensures
            final(self)@ == standing(old(self)@, now),
    {
        let ghost all = self@;
        let mut kept: Vec<(String, i64)> = Vec::new();
        let mut i: usize = 0;
        proof {
            assert(seen_view(kept@) =~= standing(all.take(0), now));
        }
        while i < self.seen.len()
            invariant
                i <= self.seen.len(),
                all == self@,
                seen_view(kept@) == standing(all.take(i as int), now),
            decreases self.seen.len() - i,
        {
            proof {
                let next = all.take(i + 1);
                assert(next.drop_last() == all.take(i as int));
                assert(next.last() == (self.seen@[i as int].0@, self.seen@[i as int].1));
            }
            if self.seen[i].1 >= now {
                let grant = (self.seen[i].0.clone(), self.seen[i].1);
                let ghost before = seen_view(kept@);
                kept.push(grant);
                proof {
                    assert(seen_view(kept@) =~= before.push((grant.0@, grant.1)));
                }
            }
            i += 1;
        }
        proof {
            assert(all.take(all.len() as int) == all);
        }
        self.seen = kept;
    }

    fn contains(&self, jti: &str) -> (r: bool)
        ensures
            r == is_seen(self@, jti@),
    {
        let mut i: usize = 0;
        while i < self.seen.len()
            invariant
                i <= self.seen.len(),
                forall|j: int| 0 <= j < i ==> (#[trigger] self@[j]).0 != jti@,
            decreases self.seen.len() - i,
        {
            if same(self.seen[i].0.as_str(), jti) {
                proof {
                    assert(self@[i as int].0 == jti@);
                }
                return true;
            }
            i += 1;
        }
        false
    }

    /// Accepts a grant, once.
    pub fn verify_grant(
        &mut self,
        claims: &HubProvisionGrant,
        audience: &Result<String, String>,
        now: i64,
    ) -> (r: Result<(), String>)
        ensures
            text::unit_outcome(r) == accept_outcome(
                old(self)@,
                claims@,
                text::text_outcome(*audience),
                now,
            ),
            final(self)@ == seen_after(
                old(self)@,
                claims@,
                text::text_outcome(*audience),
                now,
            ),
    {
        if let Err(e) = check_claims(claims, audience, now) {
            return Err(e);
        }
        self.retain(now);
        if self.contains(claims.jti.as_str()) {
            return Err("grant replayed".to_owned());
        }
        let ghost before = self.seen@;
        let grant = (claims.jti.clone(), claims.exp);
        self.seen.push(grant);
        proof {
            assert(seen_view(self.seen@) =~= seen_view(before).push((grant.0@, grant.1)));
        }
        Ok(())
    }
}

// ---------------------------------------------------------------------------
// No grant is accepted twice.

/// A grant that came, with the hub that it was expected to be meant for and the time.
#[verifier::ext_equal]
pub struct Arrival {
    pub claims: GrantView,
    pub audience: Result<Seq<char>, Seq<char>>,
    pub now: i64,
}

/// The accepted grants after others came, one after the other.
pub open spec fn seen_after_all(seen: Seq<(Seq<char>, i64)>, came: Seq<Arrival>) -> Seq<
    (Seq<char>, i64),
>
    decreases came.len(),
{
    if came.len() == 0 {
        seen
    } else {
        seen_after(
            seen_after_all(seen, came.drop_last()),
            came.last().claims,
            came.last().audience,
            came.last().now,
        )
    }
}

/// Whether the grant is remembered with its end.
spec fn remembered(seen: Seq<(Seq<char>, i64)>, jti: Seq<char>, exp: i64) -> bool {
    exists|i: int| 0 <= i < seen.len() && #[trigger] seen[i] == (jti, exp)
}

proof fn lemma_standing_keeps(seen: Seq<(Seq<char>, i64)>, now: i64, jti: Seq<char>, exp: i64)
    requires
        remembered(seen, jti, exp),
        exp >= now,
    ensures
        remembered(standing(seen, now), jti, exp),
    decreases seen.len(),
{
    let i = choose|i: int| 0 <= i < seen.len() && #[trigger] seen[i] == (jti, exp);
    let before = standing(seen.drop_last(), now);
    if i == seen.len() - 1 {
        assert(seen.last() == (jti, exp));
        assert(standing(seen, now)[before.len() as int] == (jti, exp));
    } else {
        assert(seen.drop_last()[i] == (jti, exp));
        lemma_standing_keeps(seen.drop_last(), now, jti, exp);
        let j = choose|j: int| 0 <= j < before.len() && #[trigger] before[j] == (jti, exp);
        assert(standing(seen, now)[j] == (jti, exp));
    }
}

proof fn lemma_after_keeps(
    seen: Seq<(Seq<char>, i64)>,
    a: Arrival,
    jti: Seq<char>,
    exp: i64,
)
    requires
        remembered(seen, jti, exp),
        exp >= a.now,
    ensures
        remembered(seen_after(seen, a.claims, a.audience, a.now), jti, exp),
{
    lemma_standing_keeps(seen, a.now, jti, exp);
    let kept = standing(seen, a.now);
    let j = choose|j: int| 0 <= j < kept.len() && #[trigger] kept[j] == (jti, exp);
    assert(kept.push((a.claims.jti, a.claims.exp))[j] == (jti, exp));
}

/// A grant that was accepted is refused ever after, whatever came in between, as long
/// as the clock does not run backwards.
pub proof fn law_no_grant_is_accepted_twice(
    seen: Seq<(Seq<char>, i64)>,
    claims: GrantView,
    audience: Result<Seq<char>, Seq<char>>,
    first: i64,
    between: Seq<Arrival>,
    again: Result<Seq<char>, Seq<char>>,
    then: i64,
)
    requires
        accept_outcome(seen, claims, audience, first) is Ok,
        forall|i: int| 0 <= i < between.len() ==> (#[trigger] between[i]).now <= then,
    ensures
        accept_outcome(
            seen_after_all(seen_after(seen, claims, audience, first), between),
            claims,
            again,
            then,
        ) is Err,
{
    if claims.exp >= then {
        let after = seen_after(seen, claims, audience, first);
        assert(after[after.len() - 1] == (claims.jti, claims.exp));
        lemma_all_keep(after, between, claims.jti, claims.exp, then);
        let late = seen_after_all(after, between);
        lemma_standing_keeps(late, then, claims.jti, claims.exp);
        let kept = standing(late, then);
        let j = choose|j: int|
            0 <= j < kept.len() && #[trigger] kept[j] == (claims.jti, claims.exp);
        assert(kept[j].0 == claims.jti);
    }
}

proof fn lemma_all_keep(
    seen: Seq<(Seq<char>, i64)>,
    came: Seq<Arrival>,
    jti: Seq<char>,
    exp: i64,
    then: i64,
)
    requires
        remembered(seen, jti, exp),
        exp >= then,
        forall|i: int| 0 <= i < came.len() ==> (#[trigger] came[i]).now <= then,
    ensures
        remembered(seen_after_all(seen, came), jti, exp),
    decreases came.len(),
{
    if came.len() > 0 {
        let most = came.drop_last();
        assert forall|i: int| 0 <= i < most.len() implies (#[trigger] most[i]).now <= then by {
            assert(came[i].now <= then);
        }
        lemma_all_keep(seen, most, jti, exp, then);
        assert(came[came.len() - 1].now <= then);
        lemma_after_keeps(seen_after_all(seen, most), came.last(), jti, exp);
    }
}

/// A grant that has ended is refused.
pub proof fn law_ended_grants_are_refused(
    seen: Seq<(Seq<char>, i64)>,
    claims: GrantView,
    audience: Result<Seq<char>, Seq<char>>,
    now: i64,
)
    requires
        claims.exp < now,
    ensures
        accept_outcome(seen, claims, audience, now) is Err,
        seen_after(seen, claims, audience, now) == seen,
{
}

} // verus!
