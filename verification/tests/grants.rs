use base64::engine::general_purpose::URL_SAFE_NO_PAD;
use base64::Engine;
use ring::signature::{Ed25519KeyPair, KeyPair};
use serde_json::Value;
use via::grants::{
    decode_signed_grant, grant_audience, load_issuer_pubkey, signed_payload, Header,
    HubProvisionGrant, SeenGrants, SignedGrantJson, GRANT_PREFIX,
};

const HUB: &str = "https://hub.example";

fn key_pair(seed_byte: u8) -> Ed25519KeyPair {
    Ed25519KeyPair::from_seed_unchecked(&[seed_byte; 32]).unwrap()
}

fn issuer() -> Option<Vec<u8>> {
    let public = URL_SAFE_NO_PAD.encode(key_pair(7).public_key().as_ref());
    load_issuer_pubkey(Some(&public)).unwrap()
}

fn no_json() -> Result<SignedGrantJson, String> {
    Err("not JSON".to_string())
}

fn claims(aud: &str, exp: i64, jti: &str) -> HubProvisionGrant {
    HubProvisionGrant {
        v: 1,
        aud: aud.to_string(),
        exp,
        jti: jti.to_string(),
        account: "acct_test".to_string(),
        mesh: "mesh".to_string(),
        name: Some("default".to_string()),
    }
}

fn payload(claims: &HubProvisionGrant) -> Vec<u8> {
    let mut map = serde_json::Map::new();
    map.insert("v".to_string(), Value::from(claims.v));
    map.insert("aud".to_string(), Value::from(claims.aud.clone()));
    map.insert("exp".to_string(), Value::from(claims.exp));
    map.insert("jti".to_string(), Value::from(claims.jti.clone()));
    map.insert("account".to_string(), Value::from(claims.account.clone()));
    map.insert("mesh".to_string(), Value::from(claims.mesh.clone()));
    serde_json::to_vec(&Value::Object(map)).unwrap()
}

fn signed_grant(key: &Ed25519KeyPair, claims: &HubProvisionGrant) -> String {
    let payload = payload(claims);
    let signature = key.sign(&payload);
    format!(
        "{GRANT_PREFIX}{}.{}",
        URL_SAFE_NO_PAD.encode(&payload),
        URL_SAFE_NO_PAD.encode(signature.as_ref())
    )
}

fn audience() -> Result<String, String> {
    Ok(HUB.to_string())
}

#[test]
fn signed_grants_are_read() {
    let claims = claims(HUB, 160, "jti-valid");
    let grant = signed_grant(&key_pair(7), &claims);
    assert_eq!(signed_payload(&issuer(), &grant, &no_json()).unwrap(), payload(&claims));
    let bare = grant.strip_prefix(GRANT_PREFIX).unwrap();
    assert_eq!(signed_payload(&issuer(), bare, &no_json()).unwrap(), payload(&claims));
    let (first, second) = bare.split_once('.').unwrap();
    let json = Ok(SignedGrantJson {
        payload: first.to_string(),
        signature: second.to_string(),
    });
    assert_eq!(signed_payload(&issuer(), "{}", &json).unwrap(), payload(&claims));
}

#[test]
fn bad_signature_grant_is_rejected() {
    let grant = signed_grant(&key_pair(8), &claims(HUB, 160, "jti-bad-sig"));
    assert_eq!(
        signed_payload(&issuer(), &grant, &no_json()).unwrap_err(),
        "invalid grant signature"
    );
    assert_eq!(
        signed_payload(&None, &grant, &no_json()).unwrap_err(),
        "grant provisioning is not configured"
    );
}

#[test]
fn grants_have_two_parts() {
    assert_eq!(
        decode_signed_grant("viahub1.abc", &no_json()).unwrap_err(),
        "grant missing signature"
    );
    assert_eq!(
        decode_signed_grant("viahub1.a.b.c", &no_json()).unwrap_err(),
        "invalid grant format"
    );
    assert_eq!(decode_signed_grant("abc", &no_json()).unwrap_err(), "not JSON");
    assert_eq!(
        decode_signed_grant("viahub1.AAAA.AAAA", &no_json()).unwrap_err(),
        "grant signature must be 64 bytes"
    );
}

#[test]
fn expired_grant_is_rejected() {
    let mut seen = SeenGrants::new();
    let expired = claims(HUB, 99, "jti-expired");
    assert_eq!(
        seen.verify_grant(&expired, &audience(), 100).unwrap_err(),
        "grant expired"
    );
    assert!(seen.verify_grant(&expired, &audience(), 99).is_ok());
}

#[test]
fn wrong_audience_grant_is_rejected() {
    let mut seen = SeenGrants::new();
    let wrong = claims("https://wrong-hub.example", 160, "jti-wrong-aud");
    assert_eq!(
        seen.verify_grant(&wrong, &audience(), 100).unwrap_err(),
        "grant audience mismatch"
    );
    let slashed = claims("https://hub.example/", 160, "jti-slash");
    assert!(seen.verify_grant(&slashed, &audience(), 100).is_ok());
}

#[test]
fn replayed_grant_jti_is_rejected() {
    let mut seen = SeenGrants::new();
    let grant = claims(HUB, 160, "jti-replay");
    assert!(seen.verify_grant(&grant, &audience(), 100).is_ok());
    assert_eq!(
        seen.verify_grant(&grant, &audience(), 101).unwrap_err(),
        "grant replayed"
    );
    assert!(seen.verify_grant(&claims(HUB, 300, "jti-other"), &audience(), 160).is_ok());
    assert_eq!(
        seen.verify_grant(&grant, &audience(), 160).unwrap_err(),
        "grant replayed"
    );
    assert_eq!(
        seen.verify_grant(&grant, &audience(), 161).unwrap_err(),
        "grant expired"
    );
}

#[test]
fn incomplete_grants_are_rejected() {
    let mut seen = SeenGrants::new();
    let refuse = |seen: &mut SeenGrants, change: fn(&mut HubProvisionGrant)| {
        let mut grant = claims(HUB, 160, "jti");
        change(&mut grant);
        seen.verify_grant(&grant, &audience(), 100).unwrap_err()
    };
    assert_eq!(refuse(&mut seen, |g| g.v = 2), "unsupported grant version");
    assert_eq!(refuse(&mut seen, |g| g.jti = " ".to_string()), "grant missing jti");
    assert_eq!(refuse(&mut seen, |g| g.account = String::new()), "grant missing account");
    assert_eq!(refuse(&mut seen, |g| g.mesh = "\t".to_string()), "grant missing mesh");
    let grant = claims(HUB, 160, "jti");
    assert_eq!(
        seen.verify_grant(&grant, &Err("missing host header".to_string()), 100).unwrap_err(),
        "missing host header"
    );
}

#[test]
fn issuer_keys_have_32_bytes() {
    assert!(load_issuer_pubkey(None).unwrap().is_none());
    assert!(load_issuer_pubkey(Some("")).unwrap().is_none());
    assert_eq!(
        load_issuer_pubkey(Some("AAAA")).unwrap_err(),
        "issuer public key must be 32 bytes"
    );
    assert_eq!(
        load_issuer_pubkey(Some("!")).unwrap_err(),
        "invalid issuer public key"
    );
    assert_eq!(issuer().unwrap(), key_pair(7).public_key().as_ref());
}

#[test]
fn the_audience_is_the_hub_that_was_asked() {
    let host = Header::Text("hub.example:8080".to_string());
    assert_eq!(grant_audience(Some(HUB), &Header::Missing, None).unwrap(), HUB);
    assert_eq!(grant_audience(None, &host, None).unwrap(), "http://hub.example:8080");
    assert_eq!(
        grant_audience(None, &host, Some("https, http")).unwrap(),
        "https://hub.example:8080"
    );
    assert_eq!(
        grant_audience(None, &Header::Missing, None).unwrap_err(),
        "missing host header"
    );
    assert_eq!(
        grant_audience(None, &Header::Unreadable, None).unwrap_err(),
        "invalid host header"
    );
}
