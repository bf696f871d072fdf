use base64::engine::general_purpose::URL_SAFE_NO_PAD;
use base64::Engine;
use mcpg_plugin_identity_oidc_core::algorithm::{Algorithm, KeyAlgorithm};
use mcpg_plugin_identity_oidc_core::circuit::NANOS_PER_SEC;
use mcpg_plugin_identity_oidc_core::claims::{parse_json, ClaimValue};
use mcpg_plugin_identity_oidc_core::config::{
    ClaimMappingConfig, OidcOAuthConfig, OidcProviderConfig, TokenSourceConfig, TokenSourceKind,
    VerificationConfig,
};
use mcpg_plugin_identity_oidc_core::exchange::{
    DiscoveryDocument, DiscoveryReply, IntrospectionReply, JwksReply, Notice, ProviderStep,
    Purpose, RefreshWait,
};
use mcpg_plugin_identity_oidc_core::jwt::{
    extract_unverified_issuer, key_entry, usable_keys, verify_with_key, JwtHeader, TokenRules,
};
use mcpg_plugin_identity_oidc_core::provider::{
    is_leeway_defined, judge_introspection, judge_outcome, rules_for, ProviderState,
};
use mcpg_plugin_identity_oidc_core::resolver::{are_leeways_defined, Resolution};
use mcpg_plugin_identity_oidc_core::{OidcOAuthResolver, OidcVerificationResult};

const ISSUER: &str = "https://login.example.com/";
const SEC: u64 = NANOS_PER_SEC;
const NOON: u64 = 1_000_000 * SEC;

// -- builders --

fn provider_config(issuer: &str, verification: VerificationConfig) -> OidcProviderConfig {
    OidcProviderConfig {
        issuer: issuer.to_owned(),
        discovery_uri: None,
        audiences: vec!["mcpg".to_owned()],
        verification,
        claim_mappings: ClaimMappingConfig::default(),
        clock_skew_secs: 60,
        allowed_issuer_hosts: Vec::new(),
        allow_private_issuer: false,
        allow_any_audience: false,
    }
}

fn jwks(algs: &[&str]) -> VerificationConfig {
    VerificationConfig::OidcJwks {
        allowed_algs: algs.iter().map(|a| (*a).to_owned()).collect(),
        refresh_interval_secs: 300,
        timeout_ms: 1500,
        max_staleness_secs: 3600,
        allow_hmac: true,
    }
}

fn introspection() -> VerificationConfig {
    VerificationConfig::OauthIntrospection {
        introspection_url: "https://login.example.com/introspect".to_owned(),
        client_id: "gw".to_owned(),
        client_secret_ref: "shh".to_owned(),
        timeout_ms: 700,
    }
}

fn provider(config: OidcProviderConfig) -> ProviderState {
    match ProviderState::new(config) {
        Ok(provider) => provider,
        Err(e) => panic!("{}", e.to_string()),
    }
}

fn token(kid: Option<&str>, secret: &str, claims: &str) -> String {
    let mut header = jsonwebtoken::Header::new(jsonwebtoken::Algorithm::HS256);
    header.kid = kid.map(|k| k.to_owned());
    let claims: serde_json::Value = serde_json::from_str(claims).unwrap();
    jsonwebtoken::encode(
        &header,
        &claims,
        &jsonwebtoken::EncodingKey::from_secret(secret.as_bytes()),
    )
    .unwrap()
}

fn good_claims() -> String {
    format!(r#"{{"iss": "{ISSUER}", "aud": "mcpg", "exp": 4102444800, "sub": "user-1"}}"#)
}

fn key(kid: &str, secret: &str, alg: &str) -> String {
    format!(
        r#"{{"kty": "oct", "kid": "{kid}", "k": "{}"{alg}}}"#,
        URL_SAFE_NO_PAD.encode(secret)
    )
}

fn key_set(keys: &[String]) -> String {
    format!(r#"{{"keys": [{}]}}"#, keys.join(","))
}

fn hs256(kid: &str, secret: &str) -> String {
    key(kid, secret, r#", "alg": "HS256""#)
}

fn document(issuer: &str) -> DiscoveryReply {
    DiscoveryReply::Responded {
        status: 200,
        document: Some(DiscoveryDocument {
            issuer: issuer.to_owned(),
            jwks_uri: "https://login.example.com/jwks".to_owned(),
        }),
    }
}

fn keys_reply(body: String) -> JwksReply {
    JwksReply::Responded { status: 200, body: Some(body) }
}

fn discovery_wait(step: ProviderStep) -> RefreshWait {
    match step {
        ProviderStep::FetchDiscovery { wait, timeout_ms, check_remote_addr } => {
            assert_eq!(timeout_ms, 1500);
            assert!(check_remote_addr);
            wait
        }
        other => panic!("expected FetchDiscovery, got {other:?}"),
    }
}

fn jwks_wait(step: ProviderStep) -> RefreshWait {
    match step {
        ProviderStep::FetchJwks { wait, timeout_ms } => {
            assert_eq!(timeout_ms, 1500);
            wait
        }
        other => panic!("expected FetchJwks, got {other:?}"),
    }
}

fn refusal(step: ProviderStep) -> String {
    match step {
        ProviderStep::Done(OidcVerificationResult::Invalid(msg)) => msg,
        other => panic!("expected Invalid, got {other:?}"),
    }
}

fn subject(step: ProviderStep) -> String {
    match step {
        ProviderStep::Done(OidcVerificationResult::Verified(id)) => id.subject_id,
        other => panic!("expected Verified, got {other:?}"),
    }
}

/// A provider whose keys were fetched at `at`.
fn warmed(keys: &[String], at: u64) -> ProviderState {
    let mut p = provider(provider_config(ISSUER, jwks(&["HS256"])));
    let wait = discovery_wait(p.verify_token("x", at));
    let wait = jwks_wait(p.on_discovery(wait, document(ISSUER), at));
    p.on_jwks(wait, keys_reply(key_set(keys)), at);
    p
}

// -- tokens --

#[test]
fn extract_unverified_issuer_from_jwt() {
    let header = URL_SAFE_NO_PAD.encode(r#"{"alg":"RS256","typ":"JWT"}"#);
    let payload =
        URL_SAFE_NO_PAD.encode(r#"{"iss":"https://login.example.com/","sub":"user-1"}"#);
    let fake_token = format!("{header}.{payload}.fakesignature");

    assert_eq!(
        extract_unverified_issuer(&fake_token),
        Some("https://login.example.com/".to_owned())
    );
}

#[test]
fn extract_unverified_issuer_from_opaque_token() {
    assert_eq!(extract_unverified_issuer("opaque-token-no-dots"), None);
}

#[test]
fn unverified_issuer_needs_only_a_payload() {
    let payload = URL_SAFE_NO_PAD.encode(r#"{"iss":"i"}"#);
    assert_eq!(extract_unverified_issuer(&format!(".{payload}")), Some("i".to_owned()));
    assert_eq!(extract_unverified_issuer(&format!("a.{payload}.b.c")), Some("i".to_owned()));
    assert_eq!(extract_unverified_issuer("a.@@@.c"), None);
    assert_eq!(extract_unverified_issuer(&format!("a.{}", URL_SAFE_NO_PAD.encode("{"))), None);
    let number = URL_SAFE_NO_PAD.encode(r#"{"iss":7}"#);
    assert_eq!(extract_unverified_issuer(&format!("a.{number}.c")), None);
}

#[test]
fn rules_require_what_they_check() {
    let bound = rules_for(&provider_config(ISSUER, jwks(&["HS256"])), Algorithm::ES384);
    assert_eq!(bound.algorithm, Algorithm::ES384);
    assert_eq!(bound.leeway, 60);
    assert!(bound.validate_exp && bound.validate_nbf && bound.validate_aud);
    assert_eq!(bound.issuers, vec![ISSUER]);
    assert_eq!(bound.audiences, Some(vec!["mcpg".to_owned()]));
    assert_eq!(bound.required_claims, vec!["exp", "iss", "aud"]);
    let mut config = provider_config(ISSUER, jwks(&["HS256"]));
    config.audiences = vec![];
    let free = rules_for(&config, Algorithm::RS256);
    assert!(!free.validate_aud);
    assert_eq!(free.audiences, None);
    assert_eq!(free.required_claims, vec!["exp", "iss"]);
}

fn verify(claims: &str, rules: &TokenRules) -> Result<ClaimValue, String> {
    verify_with_key(
        &token(None, "secret", claims),
        &jsonwebtoken::DecodingKey::from_secret(b"secret"),
        rules,
    )
}

#[test]
fn tokens_are_bound_to_the_rules() {
    let rules = rules_for(&provider_config(ISSUER, jwks(&["HS256"])), Algorithm::HS256);
    let claims = verify(&good_claims(), &rules).unwrap();
    assert_eq!(claims.get("sub").unwrap().as_str(), Some("user-1"));
    for (claims, why) in [
        (r#"{"iss": "I", "aud": "mcpg"}"#, "Missing required claim: exp"),
        (r#"{"aud": "mcpg", "exp": 4102444800}"#, "Missing required claim: iss"),
        (r#"{"iss": "I", "exp": 4102444800}"#, "Missing required claim: aud"),
        (r#"{"iss": "other", "aud": "mcpg", "exp": 4102444800}"#, "InvalidIssuer"),
        (r#"{"iss": "I", "aud": "other", "exp": 4102444800}"#, "InvalidAudience"),
        (r#"{"iss": "I", "aud": "mcpg", "exp": 1000000000}"#, "ExpiredSignature"),
        (
            r#"{"iss": "I", "aud": "mcpg", "exp": 4102444800, "nbf": 4102444000}"#,
            "ImmatureSignature",
        ),
    ] {
        let claims = claims.replace("\"I\"", &format!("\"{ISSUER}\""));
        assert_eq!(verify(&claims, &rules).unwrap_err(), why);
    }
    let listed = format!(
        r#"{{"iss": ["x", "{ISSUER}"], "aud": ["a", "mcpg"], "exp": 4102444800.5, "sub": "s"}}"#
    );
    assert!(verify(&listed, &rules).is_ok());
    let other = verify_with_key(
        &token(None, "secret", &good_claims()),
        &jsonwebtoken::DecodingKey::from_secret(b"other"),
        &rules,
    );
    assert_eq!(other.unwrap_err(), "InvalidSignature");
    let mismatch = rules_for(&provider_config(ISSUER, jwks(&["HS256"])), Algorithm::HS384);
    assert_eq!(verify(&good_claims(), &mismatch).unwrap_err(), "InvalidAlgorithm");
}

fn unix_time() -> u64 {
    std::time::SystemTime::now()
        .duration_since(std::time::UNIX_EPOCH)
        .unwrap()
        .as_secs()
}

#[test]
fn leeway_is_granted_and_no_more() {
    let rules = rules_for(&provider_config(ISSUER, jwks(&["HS256"])), Algorithm::HS256);
    let at = |exp: u64, nbf: u64| {
        let claims =
            format!(r#"{{"iss": "{ISSUER}", "aud": "mcpg", "exp": {exp}, "nbf": {nbf}}}"#);
        verify(&claims, &rules)
    };
    let now = unix_time();
    assert!(at(now - 30, now + 30).is_ok());
    assert_eq!(at(now - 120, now).unwrap_err(), "ExpiredSignature");
    assert_eq!(at(now + 600, now + 300).unwrap_err(), "ImmatureSignature");
}

#[test]
fn times_with_a_fraction_are_judged_to_the_second() {
    let rules = rules_for(&provider_config(ISSUER, jwks(&["HS256"])), Algorithm::HS256);
    let at = |exp: String, nbf: String| {
        let claims =
            format!(r#"{{"iss": "{ISSUER}", "aud": "mcpg", "exp": {exp}, "nbf": {nbf}}}"#);
        verify(&claims, &rules)
    };
    let now = unix_time();
    let claims = at(format!("{}.50", now - 30), format!("{}.25", now + 30)).unwrap();
    // A number is kept as it is written back.
    assert!(matches!(
        claims.get("exp"),
        Some(ClaimValue::Number(n)) if *n == format!("{}.5", now - 30)
    ));
    assert_eq!(
        at(format!("{}.9", now - 120), now.to_string()).unwrap_err(),
        "ExpiredSignature"
    );
    assert_eq!(
        at(format!("{}.0", now + 600), format!("{}.1", now + 300)).unwrap_err(),
        "ImmatureSignature"
    );
}

#[test]
fn claims_in_an_array_make_no_identity() {
    let claims = format!(r#"[4102444800, null, "s", "{ISSUER}", "mcpg"]"#);
    let rules = rules_for(&provider_config(ISSUER, jwks(&["HS256"])), Algorithm::HS256);
    assert!(matches!(verify(&claims, &rules), Ok(ClaimValue::Array(_))));
    let mut p = warmed(&[hs256("k1", "secret")], NOON);
    assert_eq!(
        refusal(p.verify_token(&token(None, "secret", &claims), NOON)),
        "missing or empty 'sub' claim for issuer 'https://login.example.com/'"
    );
}

#[test]
fn routing_agrees_with_verified_claims() {
    let rules = rules_for(&provider_config(ISSUER, jwks(&["HS256"])), Algorithm::HS256);
    let jwt = token(None, "secret", &good_claims());
    let key = jsonwebtoken::DecodingKey::from_secret(b"secret");
    let claims = verify_with_key(&jwt, &key, &rules).unwrap();
    assert_eq!(
        extract_unverified_issuer(&jwt).as_deref(),
        claims.get("iss").unwrap().as_str()
    );
}

#[test]
fn outcomes_are_judged() {
    let config = provider_config(ISSUER, jwks(&["HS256"]));
    assert!(judge_outcome(&config, Err("InvalidSignature".to_owned())).is_none());
    let claims = parse_json(br#"{"sub": "s"}"#).unwrap();
    match judge_outcome(&config, Ok(claims)) {
        Some(OidcVerificationResult::Verified(id)) => assert_eq!(id.subject_id, "s"),
        other => panic!("expected Verified, got {other:?}"),
    }
    match judge_outcome(&config, Ok(ClaimValue::Null)) {
        Some(OidcVerificationResult::Invalid(_)) => {}
        other => panic!("expected Invalid, got {other:?}"),
    }
}

#[test]
fn keys_without_an_algorithm_are_rejected() {
    let body = key_set(&[
        hs256("a", "one"),
        key("b", "two", ""),
        key("c", "three", r#", "alg": "RSA-OAEP""#),
        r#"{"kty": "RSA", "kid": "d", "alg": "RS256", "n": "@", "e": "AQAB"}"#.to_owned(),
        key("e", "five", r#", "alg": "HS512""#),
    ]);
    let set: jsonwebtoken::jwk::JwkSet = serde_json::from_str(&body).unwrap();
    let keys = usable_keys(&set.keys);
    let found: Vec<_> = keys.iter().map(|k| (k.kid.clone(), k.algorithm)).collect();
    assert_eq!(
        found,
        vec![
            (Some("a".to_owned()), Some(Algorithm::HS256)),
            (Some("c".to_owned()), None),
            (Some("e".to_owned()), Some(Algorithm::HS512)),
        ]
    );
}

// -- JWT path --

#[test]
fn unsupported_algorithm_is_no_provider() {
    let config = provider_config(ISSUER, jwks(&["RS256", "none"]));
    match ProviderState::new(config) {
        Ok(_) => panic!("expected an error"),
        Err(e) => assert_eq!(e.to_string(), "unsupported algorithm: 'none'"),
    }
}

#[test]
fn a_cold_provider_discovers_fetches_and_verifies() {
    let mut p = provider(provider_config(ISSUER, jwks(&["HS256"])));
    let jwt = token(Some("k1"), "secret", &good_claims());
    let wait = discovery_wait(p.verify_token(&jwt, NOON));
    assert_eq!(wait.uri, "https://login.example.com/.well-known/openid-configuration");
    assert_eq!(wait.token, jwt);
    assert!(!wait.stale_ok);
    let wait = jwks_wait(p.on_discovery(wait, document(ISSUER), NOON));
    assert_eq!(wait.uri, "https://login.example.com/jwks");
    let body = key_set(&[hs256("k0", "other"), hs256("k1", "secret")]);
    assert_eq!(subject(p.on_jwks(wait, keys_reply(body), NOON)), "user-1");
    // The keys are cached now.
    assert_eq!(subject(p.verify_token(&jwt, NOON + 299 * SEC)), "user-1");
    assert!(p.take_notices().is_empty());
}

#[test]
fn a_token_without_kid_tries_every_key() {
    let mut p = warmed(&[hs256("k0", "other"), hs256("k1", "secret")], NOON);
    let jwt = token(None, "secret", &good_claims());
    assert_eq!(subject(p.verify_token(&jwt, NOON)), "user-1");
    let forged = token(None, "guess", &good_claims());
    assert_eq!(
        refusal(p.verify_token(&forged, NOON)),
        "token signature verification failed"
    );
}

#[test]
fn a_kid_selects_its_keys() {
    let mut p = warmed(&[hs256("k0", "other"), hs256("k1", "secret")], NOON);
    let wrong = token(Some("k0"), "secret", &good_claims());
    assert_eq!(
        refusal(p.verify_token(&wrong, NOON)),
        "token signature verification failed"
    );
}

#[test]
fn algorithms_off_the_list_are_refused() {
    let mut p = warmed(&[hs256("k1", "secret")], NOON);
    let claims: serde_json::Value = serde_json::from_str(&good_claims()).unwrap();
    let jwt = jsonwebtoken::encode(
        &jsonwebtoken::Header::new(jsonwebtoken::Algorithm::HS512),
        &claims,
        &jsonwebtoken::EncodingKey::from_secret(b"secret"),
    )
    .unwrap();
    assert_eq!(
        refusal(p.verify_token(&jwt, NOON)),
        "algorithm HS512 not in allowed list for issuer 'https://login.example.com/'"
    );
    assert_eq!(
        refusal(p.verify_token("x", NOON)),
        "invalid JWT header: InvalidToken"
    );
}

#[test]
fn without_a_list_hs256_is_refused() {
    let mut p = provider(provider_config(ISSUER, jwks(&[])));
    let jwt = token(Some("k1"), "secret", &good_claims());
    let wait = discovery_wait(p.verify_token(&jwt, NOON));
    let wait = jwks_wait(p.on_discovery(wait, document(ISSUER), NOON));
    let body = key_set(&[hs256("k1", "secret")]);
    assert_eq!(
        refusal(p.on_jwks(wait, keys_reply(body), NOON)),
        "algorithm 'none' is not allowed"
    );
}

#[test]
fn an_unknown_kid_refreshes_once_per_floor() {
    let mut p = warmed(&[hs256("k1", "secret")], NOON);
    let jwt = token(Some("k2"), "rotated", &good_claims());
    let wait = jwks_wait(p.verify_token(&jwt, NOON + SEC));
    assert!(wait.stale_ok);
    assert!(matches!(
        &wait.purpose,
        Purpose::UnknownKid { kid, alg: Algorithm::HS256 } if kid == "k2"
    ));
    let body = key_set(&[hs256("k2", "rotated")]);
    assert_eq!(subject(p.on_jwks(wait, keys_reply(body), NOON + SEC)), "user-1");
    let jwt = token(Some("k3"), "rotated", &good_claims());
    assert_eq!(
        refusal(p.verify_token(&jwt, NOON + 60 * SEC)),
        "no key for kid 'k3' (refresh rate-limited)"
    );
    let wait = jwks_wait(p.verify_token(&jwt, NOON + 61 * SEC));
    let body = key_set(&[hs256("k2", "rotated")]);
    assert_eq!(
        refusal(p.on_jwks(wait, keys_reply(body), NOON + 61 * SEC)),
        "no key found for kid 'k3' after JWKS refresh"
    );
    let wait = jwks_wait(p.verify_token(&jwt, NOON + 200 * SEC));
    let unreadable = JwksReply::Responded { status: 200, body: None };
    assert_eq!(
        refusal(p.on_jwks(wait, unreadable, NOON + 200 * SEC)),
        "no key found for kid 'k3' after JWKS refresh"
    );
}

#[test]
fn discovery_failures() {
    let unavailable = "JWKS unavailable for issuer 'https://login.example.com/': ";
    let uri = "https://login.example.com/.well-known/openid-configuration";
    for (reply, why) in [
        (
            DiscoveryReply::SendFailed,
            format!("failed to fetch OIDC discovery from {uri}"),
        ),
        (
            DiscoveryReply::RemoteAddrBlocked("10.0.0.1".to_owned()),
            "OIDC discovery SSRF blocked: 10.0.0.1".to_owned(),
        ),
        (
            DiscoveryReply::Responded { status: 503, document: None },
            format!("OIDC discovery from {uri} returned status 503 Service Unavailable"),
        ),
        (
            DiscoveryReply::Responded { status: 200, document: None },
            format!("failed to parse OIDC discovery from {uri}"),
        ),
        (
            document("https://evil.example.net/"),
            "OIDC discovery issuer mismatch: expected 'https://login.example.com/', got \
             'https://evil.example.net/'"
                .to_owned(),
        ),
    ] {
        let mut p = provider(provider_config(ISSUER, jwks(&["HS256"])));
        let wait = discovery_wait(p.verify_token("x", NOON));
        assert_eq!(
            refusal(p.on_discovery(wait, reply, NOON)),
            format!("{unavailable}{why}")
        );
    }
}

#[test]
fn a_document_of_another_issuer_is_not_cached() {
    let mut p = provider(provider_config(ISSUER, jwks(&["HS256"])));
    let wait = discovery_wait(p.verify_token("x", NOON));
    p.on_discovery(wait, document("https://evil.example.net/"), NOON);
    discovery_wait(p.verify_token("x", NOON));
}

#[test]
fn headers_are_judged() {
    let mut p = warmed(&[hs256("k1", "secret")], NOON);
    let jwt = token(Some("k1"), "secret", &good_claims());
    assert_eq!(
        refusal(p.on_header(&jwt, Err("why".to_owned()), NOON)),
        "invalid JWT header: why"
    );
    let header = JwtHeader { alg: Algorithm::RS256, kid: None };
    assert_eq!(
        refusal(p.on_header(&jwt, Ok(header), NOON)),
        "algorithm RS256 not in allowed list for issuer 'https://login.example.com/'"
    );
    let header = JwtHeader { alg: Algorithm::HS256, kid: Some("k1".to_owned()) };
    assert_eq!(subject(p.on_header(&jwt, Ok(header), NOON)), "user-1");
    let mut cold = provider(provider_config(ISSUER, jwks(&["HS256"])));
    let header = JwtHeader { alg: Algorithm::HS256, kid: None };
    assert_eq!(
        refusal(cold.on_header(&jwt, Ok(header), NOON)),
        "no JWKS keys available for issuer 'https://login.example.com/'"
    );
}

#[test]
fn keys_are_taken_as_they_are_given() {
    let mut p = provider(provider_config(ISSUER, jwks(&["HS256"])));
    let jwt = token(Some("k1"), "secret", &good_claims());
    let wait = discovery_wait(p.verify_token(&jwt, NOON));
    let wait = jwks_wait(p.on_discovery(wait, document(ISSUER), NOON));
    let secret = jsonwebtoken::DecodingKey::from_secret(b"secret");
    let entry = key_entry(Some("k1".to_owned()), Some(secret), Some(KeyAlgorithm::HS256));
    assert_eq!(subject(p.on_keys(wait, vec![entry.unwrap()], NOON)), "user-1");
    assert!(key_entry(None, None, Some(KeyAlgorithm::HS256)).is_none());
    let secret = jsonwebtoken::DecodingKey::from_secret(b"secret");
    assert!(key_entry(None, Some(secret.clone()), None).is_none());
    let entry = key_entry(None, Some(secret), Some(KeyAlgorithm::RSA_OAEP)).unwrap();
    assert_eq!(entry.algorithm, None);
    assert_eq!(entry.algorithm_for(Algorithm::HS384), Algorithm::HS384);
}

#[test]
fn keys_for_encryption_are_tried_under_the_algorithm_of_the_token() {
    let odd = key("k1", "secret", r#", "alg": "RSA-OAEP-256""#);
    let mut p = warmed(&[odd], NOON);
    let jwt = token(Some("k1"), "secret", &good_claims());
    assert_eq!(subject(p.verify_token(&jwt, NOON)), "user-1");
    // The same after a refresh for its key id.
    let mut p = warmed(&[hs256("k1", "secret")], NOON);
    let jwt = token(Some("k2"), "secret", &good_claims());
    let wait = jwks_wait(p.verify_token(&jwt, NOON));
    let body = key_set(&[key("k2", "secret", r#", "alg": "RSA1_5""#)]);
    assert_eq!(subject(p.on_jwks(wait, keys_reply(body), NOON)), "user-1");
    // A key that names another signature algorithm is tried under that one.
    let mut p = warmed(&[key("k1", "secret", r#", "alg": "HS512""#)], NOON);
    let jwt = token(Some("k1"), "secret", &good_claims());
    assert_eq!(
        refusal(p.verify_token(&jwt, NOON)),
        "token signature verification failed"
    );
}

#[test]
fn refreshes_for_unknown_key_ids_are_spaced() {
    let mut p = warmed(&[hs256("k1", "secret")], NOON);
    let mut begun = Vec::new();
    for n in 0..20 {
        let now = NOON + n * 10 * SEC;
        let jwt = token(Some(&format!("x{n}")), "secret", &good_claims());
        match p.verify_token(&jwt, now) {
            ProviderStep::FetchJwks { wait, .. } => {
                begun.push(n * 10);
                // Whether the fetch succeeds is of no account.
                let reply = if n < 10 {
                    keys_reply(key_set(&[hs256("k1", "secret")]))
                } else {
                    JwksReply::SendFailed("refused".to_owned())
                };
                p.on_jwks(wait, reply, now);
            }
            step => assert_eq!(
                refusal(step),
                format!("no key for kid 'x{n}' (refresh rate-limited)")
            ),
        }
    }
    assert_eq!(begun, vec![0, 60, 120, 180]);
}

#[test]
fn key_set_failures() {
    let unavailable = "JWKS unavailable for issuer 'https://login.example.com/': ";
    for (reply, why) in [
        (JwksReply::SendFailed("refused".to_owned()), "refused"),
        (
            JwksReply::Responded { status: 599, body: None },
            "JWKS fetch from https://login.example.com/jwks returned status 599 <unknown status \
             code>",
        ),
        (
            JwksReply::Responded { status: 200, body: None },
            "failed to read JWKS response body",
        ),
        (keys_reply("{}".to_owned()), "failed to parse JWKS JSON"),
        (
            keys_reply(key_set(&[key("b", "two", "")])),
            "JWKS from https://login.example.com/jwks contains no usable keys",
        ),
    ] {
        let mut p = provider(provider_config(ISSUER, jwks(&["HS256"])));
        let wait = discovery_wait(p.verify_token("x", NOON));
        let wait = jwks_wait(p.on_discovery(wait, document(ISSUER), NOON));
        assert_eq!(
            refusal(p.on_jwks(wait, reply, NOON)),
            format!("{unavailable}{why}")
        );
    }
}

#[test]
fn the_guard_stands_before_every_fetch() {
    let mut config = provider_config("http://login.example.com/", jwks(&["HS256"]));
    config.issuer = "http://login.example.com/".to_owned();
    let mut p = provider(config);
    assert_eq!(
        refusal(p.verify_token("x", NOON)),
        "JWKS unavailable for issuer 'http://login.example.com/': OIDC URL \
         'http://login.example.com/.well-known/openid-configuration' must use https (set \
         allow_private_issuer only for dev)"
    );
    let mut p = provider(provider_config(ISSUER, jwks(&["HS256"])));
    let wait = discovery_wait(p.verify_token("x", NOON));
    let reply = DiscoveryReply::Responded {
        status: 200,
        document: Some(DiscoveryDocument {
            issuer: ISSUER.to_owned(),
            jwks_uri: "https://169.254.169.254/keys".to_owned(),
        }),
    };
    assert!(refusal(p.on_discovery(wait, reply, NOON)).contains("private/loopback"));
}

#[test]
fn introspection_goes_nowhere_that_the_guard_refuses() {
    let at = |url: &str| VerificationConfig::OauthIntrospection {
        introspection_url: url.to_owned(),
        client_id: "gw".to_owned(),
        client_secret_ref: "shh".to_owned(),
        timeout_ms: 700,
    };
    let mut p = provider(provider_config(ISSUER, at("https://10.0.0.5/introspect")));
    assert!(refusal(p.verify_token("opaque", NOON)).contains("private/loopback"));
    let mut p = provider(provider_config(ISSUER, at("http://login.example.com/introspect")));
    assert_eq!(
        refusal(p.verify_token("opaque", NOON)),
        "OIDC URL 'http://login.example.com/introspect' must use https (set \
         allow_private_issuer only for dev)"
    );
    let mut config = provider_config(ISSUER, introspection());
    config.allowed_issuer_hosts = vec!["other.example.com".to_owned()];
    let mut p = provider(config);
    assert!(refusal(p.verify_token("opaque", NOON)).contains("login.example.com"));
    // The next provider is asked after such a refusal.
    let mut r = resolver(vec![
        provider_config("https://first.example.com/", at("https://10.0.0.5/introspect")),
        provider_config(ISSUER, introspection()),
    ]);
    match r.verify_token("opaque", NOON) {
        Resolution::Pending { route, step: ProviderStep::Introspect(request) } => {
            assert_eq!(route.provider, 1);
            assert_eq!(request.url, "https://login.example.com/introspect");
        }
        other => panic!("expected Introspect, got {other:?}"),
    }
}

fn reasons_of(notices: Vec<Notice>) -> Vec<String> {
    notices
        .into_iter()
        .map(|n| match n {
            Notice::StaleServed { reason } => reason,
            Notice::ShortCircuited => "short".to_owned(),
        })
        .collect()
}

#[test]
fn discovery_that_serves_no_document_is_bridged() {
    for reply in [
        DiscoveryReply::RemoteAddrBlocked("10.0.0.1".to_owned()),
        DiscoveryReply::Responded { status: 503, document: None },
        DiscoveryReply::Responded { status: 200, document: None },
        document("https://evil.example.com/"),
    ] {
        let mut p = warmed(&[hs256("k1", "secret")], NOON);
        let jwt = token(Some("k1"), "secret", &good_claims());
        let later = NOON + 301 * SEC;
        let wait = discovery_wait(p.verify_token(&jwt, later));
        assert_eq!(subject(p.on_discovery(wait, reply, later)), "user-1");
        assert_eq!(reasons_of(p.take_notices()), vec!["discovery_failed"]);
    }
}

#[test]
fn a_key_address_that_the_guard_refuses_is_not_bridged() {
    let mut p = warmed(&[hs256("k1", "secret")], NOON);
    let jwt = token(Some("k1"), "secret", &good_claims());
    let later = NOON + 301 * SEC;
    let wait = discovery_wait(p.verify_token(&jwt, later));
    assert!(wait.stale_ok);
    let reply = DiscoveryReply::Responded {
        status: 200,
        document: Some(DiscoveryDocument {
            issuer: ISSUER.to_owned(),
            jwks_uri: "https://169.254.169.254/keys".to_owned(),
        }),
    };
    assert!(refusal(p.on_discovery(wait, reply, later)).contains("private/loopback"));
}

#[test]
fn stale_keys_bridge_an_outage() {
    let mut p = warmed(&[hs256("k1", "secret")], NOON);
    let jwt = token(Some("k1"), "secret", &good_claims());
    // Keys and document are due.
    let later = NOON + 301 * SEC;
    let wait = discovery_wait(p.verify_token(&jwt, later));
    assert!(wait.stale_ok);
    assert_eq!(subject(p.on_discovery(wait, DiscoveryReply::SendFailed, later)), "user-1");
    let wait = discovery_wait(p.verify_token(&jwt, later));
    let wait = jwks_wait(p.on_discovery(wait, document(ISSUER), later));
    let reply = JwksReply::Responded { status: 502, body: None };
    assert_eq!(subject(p.on_jwks(wait, reply, later)), "user-1");
    let wait = jwks_wait(p.verify_token(&jwt, later));
    let reply = JwksReply::SendFailed("refused".to_owned());
    assert_eq!(subject(p.on_jwks(wait, reply, later)), "user-1");
    assert_eq!(
        reasons_of(p.take_notices()),
        vec!["discovery_failed", "http_502", "fetch_error"]
    );
    // An answer that is no key set, or that breaks off, is a failure as well.
    let wait = jwks_wait(p.verify_token(&jwt, later));
    let reply = JwksReply::Responded { status: 200, body: None };
    assert_eq!(subject(p.on_jwks(wait, reply, later)), "user-1");
    let wait = jwks_wait(p.verify_token(&jwt, later));
    assert_eq!(subject(p.on_jwks(wait, keys_reply("<html>".to_owned()), later)), "user-1");
    assert_eq!(
        reasons_of(p.take_notices()),
        vec!["body_error", "parse_error"]
    );
    // Those were five failures.
    assert_eq!(subject(p.verify_token(&jwt, later)), "user-1");
    assert_eq!(reasons_of(p.take_notices()), vec!["short"]);
    // An empty set keeps the old keys, and counts as an answer.
    let later = later + 30 * SEC;
    let wait = jwks_wait(p.verify_token(&jwt, later));
    assert_eq!(subject(p.on_jwks(wait, keys_reply(key_set(&[])), later)), "user-1");
    assert!(p.take_notices().is_empty());
}

#[test]
fn an_open_circuit_serves_stale_keys_and_then_fails_fast() {
    let mut p = warmed(&[hs256("k1", "secret")], NOON);
    let jwt = token(Some("k1"), "secret", &good_claims());
    let later = NOON + 3590 * SEC;
    for _ in 0..5 {
        let wait = discovery_wait(p.verify_token(&jwt, later));
        p.on_discovery(wait, DiscoveryReply::SendFailed, later);
    }
    p.take_notices();
    assert_eq!(subject(p.verify_token(&jwt, later + SEC)), "user-1");
    assert!(matches!(p.take_notices()[..], [Notice::ShortCircuited]));
    assert_eq!(
        refusal(p.verify_token(&jwt, later + 10 * SEC)),
        "JWKS unavailable for issuer 'https://login.example.com/': JWKS circuit breaker open; \
         stale keys exhausted"
    );
    discovery_wait(p.verify_token(&jwt, later + 30 * SEC));
}

#[test]
fn a_clock_that_stands_still_or_turns_back_ages_nothing() {
    let mut p = warmed(&[hs256("k1", "secret")], NOON);
    let jwt = token(Some("k1"), "secret", &good_claims());
    assert_eq!(subject(p.verify_token(&jwt, NOON - SEC)), "user-1");
}

// -- introspection --

fn introspected(config: &OidcProviderConfig, body: &str) -> Result<String, String> {
    match judge_introspection(config, &parse_json(body.as_bytes()).unwrap()) {
        OidcVerificationResult::Verified(id) => Ok(id.subject_id),
        OidcVerificationResult::Invalid(msg) => Err(msg),
        OidcVerificationResult::NoToken => Err("no token".to_owned()),
    }
}

#[test]
fn introspection_responses_are_judged() {
    let config = provider_config(ISSUER, introspection());
    let ok = Ok("s".to_owned());
    assert_eq!(introspected(&config, r#"{"active": true, "aud": "mcpg", "sub": "s"}"#), ok);
    assert_eq!(
        introspected(&config, r#"{"active": true, "aud": [1, "x", "mcpg"], "sub": "s", "iss": 1}"#),
        ok
    );
    for body in [r#"{"sub": "s"}"#, r#"{"active": "true"}"#, r#"{"active": false}"#, "[]"] {
        assert_eq!(
            introspected(&config, body),
            Err("token is not active (introspection)".to_owned())
        );
    }
    assert_eq!(
        introspected(&config, r#"{"active": true, "iss": "https://x/", "aud": "mcpg"}"#),
        Err("introspection issuer mismatch: expected 'https://login.example.com/', got \
             'https://x/'"
            .to_owned())
    );
    assert_eq!(
        introspected(&config, r#"{"active": true, "sub": "s"}"#),
        Err("introspection response for issuer 'https://login.example.com/' carries no `aud`; \
             cannot honour the configured audience binding (set allow_any_audience to accept \
             this)"
            .to_owned())
    );
    for aud in ["\"other\"", "[\"other\"]", "{}", "null"] {
        assert_eq!(
            introspected(&config, &format!(r#"{{"active": true, "aud": {aud}, "sub": "s"}}"#)),
            Err("audience mismatch for issuer 'https://login.example.com/'".to_owned())
        );
    }
    let mut free = provider_config(ISSUER, introspection());
    free.audiences = vec![];
    assert_eq!(introspected(&free, r#"{"active": true, "sub": "s"}"#), ok);
    assert_eq!(
        introspected(&free, r#"{"active": true}"#),
        Err("missing or empty 'sub' claim for issuer 'https://login.example.com/'".to_owned())
    );
}

#[test]
fn introspection_round_trip() {
    let mut p = provider(provider_config(ISSUER, introspection()));
    match p.verify_token("opaque", NOON) {
        ProviderStep::Introspect(request) => {
            assert_eq!(request.url, "https://login.example.com/introspect");
            assert_eq!(request.client_id, "gw");
            assert_eq!(request.client_secret, "shh");
            assert_eq!(request.token, "opaque");
            assert_eq!(request.timeout_ms, 700);
        }
        other => panic!("expected Introspect, got {other:?}"),
    }
    let body = br#"{"active": true, "aud": "mcpg", "sub": "s"}"#.to_vec();
    match p.on_introspection(IntrospectionReply::Responded { status: 200, body: Ok(body) }) {
        OidcVerificationResult::Verified(id) => assert_eq!(id.subject_id, "s"),
        other => panic!("expected Verified, got {other:?}"),
    }
    for (reply, why) in [
        (
            IntrospectionReply::SendFailed("refused".to_owned()),
            "introspection request failed for issuer 'https://login.example.com/': refused",
        ),
        (
            IntrospectionReply::Responded { status: 401, body: Ok(vec![]) },
            "introspection returned status 401 Unauthorized for issuer \
             'https://login.example.com/'",
        ),
        (
            IntrospectionReply::Responded { status: 200, body: Err("cut off".to_owned()) },
            "failed to parse introspection response for issuer 'https://login.example.com/': cut \
             off",
        ),
        (
            IntrospectionReply::Responded { status: 200, body: Ok(b"".to_vec()) },
            "failed to parse introspection response for issuer 'https://login.example.com/': \
             error decoding response body",
        ),
    ] {
        match p.on_introspection(reply) {
            OidcVerificationResult::Invalid(msg) => assert_eq!(msg, why),
            other => panic!("expected Invalid, got {other:?}"),
        }
    }
    let jwks_only = provider(provider_config(ISSUER, jwks(&["HS256"])));
    assert_eq!(
        refusal(jwks_only.introspect_token("t")),
        "introspection not configured for this provider"
    );
}

// -- hybrid --

fn hybrid_provider() -> ProviderState {
    let config = OidcProviderConfig {
        issuer: "https://127.0.0.1:1/".to_owned(),
        discovery_uri: None,
        audiences: vec![],
        verification: VerificationConfig::Hybrid {
            allowed_algs: vec!["RS256".to_owned()],
            refresh_interval_secs: 300,
            timeout_ms: 500,
            max_staleness_secs: 3600,
            introspection_url: "http://127.0.0.1:1/introspect".to_owned(),
            client_id: "gw".to_owned(),
            client_secret_ref: "shh".to_owned(),
            introspection_timeout_ms: 500,
            allow_hmac: false,
        },
        claim_mappings: ClaimMappingConfig::default(),
        clock_skew_secs: 60,
        allowed_issuer_hosts: Vec::new(),
        allow_private_issuer: true,
        allow_any_audience: false,
    };
    provider(config)
}

/// Performs every step against endpoints that refuse connections.
fn refused_everywhere(mut p: ProviderState, token: &str) -> OidcVerificationResult {
    let mut step = p.verify_token(token, NOON);
    loop {
        step = match step {
            ProviderStep::Done(result) => return result,
            ProviderStep::FetchDiscovery { wait, check_remote_addr, .. } => {
                assert!(!check_remote_addr);
                p.on_discovery(wait, DiscoveryReply::SendFailed, NOON)
            }
            ProviderStep::FetchJwks { wait, .. } => {
                p.on_jwks(wait, JwksReply::SendFailed("refused".to_owned()), NOON)
            }
            ProviderStep::Introspect(_) => ProviderStep::Done(
                p.on_introspection(IntrospectionReply::SendFailed("refused".to_owned())),
            ),
        };
    }
}

#[test]
fn hybrid_does_not_retry_a_rejected_jwt_against_introspection() {
    let header = URL_SAFE_NO_PAD.encode(r#"{"alg":"RS256","typ":"JWT"}"#);
    let payload = URL_SAFE_NO_PAD.encode(r#"{"iss":"https://127.0.0.1:1/","sub":"user-1"}"#);
    let jwt = format!("{header}.{payload}.notarealsignature");

    match refused_everywhere(hybrid_provider(), &jwt) {
        OidcVerificationResult::Invalid(msg) => {
            assert!(
                !msg.contains("introspection"),
                "JWT rejection fell through to introspection: {msg}"
            );
        }
        other => panic!("expected Invalid, got {other:?}"),
    }
}

#[test]
fn hybrid_still_introspects_a_token_that_is_not_a_jws() {
    match refused_everywhere(hybrid_provider(), "opaque-access-token") {
        OidcVerificationResult::Invalid(msg) => {
            assert!(
                msg.contains("introspection"),
                "opaque token was not introspected: {msg}"
            );
        }
        other => panic!("expected Invalid, got {other:?}"),
    }
}

// -- resolver --

fn resolver(providers: Vec<OidcProviderConfig>) -> OidcOAuthResolver {
    let config = OidcOAuthConfig { token_source: TokenSourceConfig::default(), providers };
    match OidcOAuthResolver::from_config(&config) {
        Ok(resolver) => resolver,
        Err(e) => panic!("{}", e.to_string()),
    }
}

#[test]
fn resolver_from_config() {
    let config = OidcOAuthConfig {
        token_source: TokenSourceConfig::default(),
        providers: vec![OidcProviderConfig {
            issuer: "https://login.example.com/".to_owned(),
            discovery_uri: None,
            audiences: vec!["mcpg".to_owned()],
            verification: VerificationConfig::OidcJwks {
                allowed_algs: vec!["RS256".to_owned()],
                refresh_interval_secs: 300,
                timeout_ms: 2000,
                max_staleness_secs: 3600,
                allow_hmac: false,
            },
            claim_mappings: ClaimMappingConfig::default(),
            clock_skew_secs: 60,
            allowed_issuer_hosts: Vec::new(),
            allow_private_issuer: true,
            allow_any_audience: false,
        }],
    };

    let resolver = match OidcOAuthResolver::from_config(&config) {
        Ok(resolver) => resolver,
        Err(e) => panic!("{e:?}"),
    };
    assert_eq!(resolver.provider_count(), 1);
    assert_eq!(resolver.issuers(), vec!["https://login.example.com/"]);
    assert_eq!(resolver.header_name(), "authorization");
}

#[test]
fn resolver_returns_no_token_when_header_missing() {
    let config = OidcOAuthConfig {
        token_source: TokenSourceConfig::default(),
        providers: vec![OidcProviderConfig {
            issuer: "https://login.example.com/".to_owned(),
            discovery_uri: None,
            audiences: vec![],
            verification: VerificationConfig::OidcJwks {
                allowed_algs: vec!["RS256".to_owned()],
                refresh_interval_secs: 300,
                timeout_ms: 2000,
                max_staleness_secs: 3600,
                allow_hmac: false,
            },
            claim_mappings: ClaimMappingConfig::default(),
            clock_skew_secs: 60,
            allowed_issuer_hosts: Vec::new(),
            allow_private_issuer: true,
            allow_any_audience: false,
        }],
    };

    let mut resolver = match OidcOAuthResolver::from_config(&config) {
        Ok(resolver) => resolver,
        Err(e) => panic!("{e:?}"),
    };
    let headers = http::HeaderMap::new();

    match resolver.verify_from_headers(&headers, NOON) {
        Resolution::Done(OidcVerificationResult::NoToken) => {}
        other => panic!("expected NoToken, got {other:?}"),
    }
}

#[test]
fn a_large_clock_skew_is_no_obstacle_to_a_resolver() {
    let skewed = |verification: VerificationConfig| {
        let mut config = provider_config(ISSUER, verification);
        config.clock_skew_secs = u64::MAX;
        config
    };
    assert!(is_leeway_defined(&provider_config(ISSUER, jwks(&["HS256"]))));
    assert!(is_leeway_defined(&skewed(introspection())));
    assert!(!is_leeway_defined(&skewed(jwks(&["HS256"]))));
    let config = OidcOAuthConfig {
        token_source: TokenSourceConfig::default(),
        providers: vec![skewed(introspection())],
    };
    assert!(are_leeways_defined(&config));
    let mut r = resolver(config.providers);
    let route = match r.verify_token("opaque", NOON) {
        Resolution::Pending { route, .. } => route,
        other => panic!("expected Pending, got {other:?}"),
    };
    let body = br#"{"active": true, "aud": "mcpg", "sub": "s"}"#.to_vec();
    let active = IntrospectionReply::Responded { status: 200, body: Ok(body) };
    match r.on_introspection(route, active, NOON) {
        Resolution::Done(OidcVerificationResult::Verified(id)) => assert_eq!(id.subject_id, "s"),
        other => panic!("expected Verified, got {other:?}"),
    }
    let config = OidcOAuthConfig {
        token_source: TokenSourceConfig::default(),
        providers: vec![
            provider_config("https://first.example.com/", introspection()),
            skewed(jwks(&["HS256"])),
        ],
    };
    assert!(!are_leeways_defined(&config));
    let r = resolver(config.providers);
    assert_eq!(r.issuers(), vec!["https://first.example.com/", ISSUER]);
}

#[test]
fn a_resolver_follows_its_configuration() {
    let mut config = OidcOAuthConfig {
        token_source: TokenSourceConfig::default(),
        providers: vec![
            provider_config("https://b.example.com/", jwks(&["RS256", "ES256"])),
            provider_config("https://a.example.com/", introspection()),
        ],
    };
    assert!(config.validate().is_ok());
    let r = resolver(vec![config.providers[0].clone(), config.providers[1].clone()]);
    assert_eq!(r.provider_count(), 2);
    assert_eq!(r.issuers(), vec!["https://b.example.com/", "https://a.example.com/"]);
    config.providers.push(provider_config(ISSUER, jwks(&["RS256", "nope"])));
    match OidcOAuthResolver::from_config(&config) {
        Ok(_) => panic!("expected an unsupported algorithm"),
        Err(e) => assert_eq!(e.name, "nope"),
    }
}

#[test]
fn tokens_are_read_from_headers() {
    let bearer = resolver(vec![provider_config(ISSUER, introspection())]);
    let mut headers = http::HeaderMap::new();
    headers.insert("authorization", http::HeaderValue::from_static("Bearer abc"));
    headers.append("authorization", http::HeaderValue::from_static("Bearer def"));
    assert_eq!(bearer.extract_token(&headers), Some("abc"));
    headers.insert("authorization", http::HeaderValue::from_static("bearer abc"));
    assert_eq!(bearer.extract_token(&headers), None);
    headers.insert(
        "authorization",
        http::HeaderValue::from_bytes(b"Bearer \xff").unwrap(),
    );
    assert_eq!(bearer.extract_token(&headers), None);
    let custom = OidcOAuthConfig {
        token_source: TokenSourceConfig {
            kind: TokenSourceKind::CustomHeader,
            header_name: Some("X-Api-Key".to_owned()),
            header_prefix: None,
        },
        providers: vec![],
    };
    let custom = match OidcOAuthResolver::from_config(&custom) {
        Ok(resolver) => resolver,
        Err(e) => panic!("{e:?}"),
    };
    headers.insert("x-api-key", http::HeaderValue::from_static("k e\ty"));
    assert_eq!(custom.extract_token(&headers), Some("k e\ty"));
    assert_eq!(custom.header_name(), "X-Api-Key");
}

fn two_providers() -> OidcOAuthResolver {
    let second = VerificationConfig::OauthIntrospection {
        introspection_url: "https://second.example.com/introspect".to_owned(),
        client_id: "gw".to_owned(),
        client_secret_ref: "shh".to_owned(),
        timeout_ms: 700,
    };
    resolver(vec![
        provider_config("https://first.example.com/", introspection()),
        provider_config("https://second.example.com/", second),
    ])
}

#[test]
fn a_named_issuer_decides_the_route() {
    let mut r = two_providers();
    let payload = URL_SAFE_NO_PAD.encode(r#"{"iss":"https://second.example.com/"}"#);
    match r.verify_token(&format!("h.{payload}.s"), NOON) {
        Resolution::Pending { route, step } => {
            assert_eq!(route.provider, 1);
            assert!(!route.fallback);
            assert!(matches!(&step, ProviderStep::Introspect(_)));
            // The verdict is final.
            let reply = IntrospectionReply::SendFailed("refused".to_owned());
            match r.on_introspection(route, reply, NOON) {
                Resolution::Done(OidcVerificationResult::Invalid(msg)) => assert_eq!(
                    msg,
                    "introspection request failed for issuer 'https://second.example.com/': \
                     refused"
                ),
                other => panic!("expected Invalid, got {other:?}"),
            }
        }
        other => panic!("expected Pending, got {other:?}"),
    }
}

/// Takes a token through a resolver, with the given reply to each
/// introspection, and tells which providers were asked.
fn run(
    r: &mut OidcOAuthResolver,
    token: &str,
    bodies: &[&str],
) -> (Vec<usize>, OidcVerificationResult) {
    let mut asked = Vec::new();
    let mut resolution = r.verify_token(token, NOON);
    loop {
        resolution = match resolution {
            Resolution::Done(result) => return (asked, result),
            Resolution::Pending { route, .. } => {
                let i = route.provider;
                asked.push(i);
                let body = Ok(bodies[i].as_bytes().to_vec());
                let reply = IntrospectionReply::Responded { status: 200, body };
                // Another token comes in between.
                assert!(matches!(r.verify_token("other", NOON), Resolution::Pending { .. }));
                r.on_introspection(route, reply, NOON)
            }
        };
    }
}

#[test]
fn a_run_ends_with_the_first_that_verifies() {
    let active = r#"{"active": true, "aud": "mcpg", "sub": "s"}"#;
    let inactive = r#"{"active": false}"#;
    let issuers = ["https://a.example.com/", "https://b.example.com/", "https://c.example.com/"];
    let configs = |n: usize| -> Vec<OidcProviderConfig> {
        issuers[..n].iter().map(|iss| provider_config(iss, introspection())).collect()
    };
    let verified_by = |result: &OidcVerificationResult| match result {
        OidcVerificationResult::Verified(id) => id.issuer.clone(),
        other => panic!("expected Verified, got {other:?}"),
    };
    let mut r = resolver(configs(3));
    // Nobody is named: each in order, and none after the first that verifies.
    let (asked, result) = run(&mut r, "opaque", &[inactive, active, active]);
    assert_eq!(asked, vec![0, 1]);
    assert_eq!(verified_by(&result), issuers[1]);
    let (asked, result) = run(&mut r, "opaque", &[inactive, inactive, inactive]);
    assert_eq!(asked, vec![0, 1, 2]);
    assert!(matches!(result, OidcVerificationResult::Invalid(_)));
    // Somebody is named: they alone, though others would verify.
    let payload = URL_SAFE_NO_PAD.encode(format!(r#"{{"iss":"{}"}}"#, issuers[2]));
    let named = format!("h.{payload}.s");
    let (asked, result) = run(&mut r, &named, &[active, active, inactive]);
    assert_eq!(asked, vec![2]);
    assert!(matches!(result, OidcVerificationResult::Invalid(_)));
    let (asked, result) = run(&mut r, &named, &[inactive, inactive, active]);
    assert_eq!(asked, vec![2]);
    assert_eq!(verified_by(&result), issuers[2]);
    // One provider: its verdict, whoever is named.
    let mut one = resolver(configs(1));
    let (asked, result) = run(&mut one, &named, &[active]);
    assert_eq!(asked, vec![0]);
    assert_eq!(verified_by(&result), issuers[0]);
}

#[test]
fn opaque_tokens_try_each_provider() {
    let mut r = two_providers();
    let mut headers = http::HeaderMap::new();
    headers.insert("authorization", http::HeaderValue::from_static("Bearer opaque"));
    let route = match r.verify_from_headers(&headers, NOON) {
        Resolution::Pending { route, .. } => route,
        other => panic!("expected Pending, got {other:?}"),
    };
    assert_eq!(route.provider, 0);
    assert!(route.fallback);
    let inactive = IntrospectionReply::Responded { status: 200, body: Ok(b"{}".to_vec()) };
    let route = match r.on_introspection(route, inactive, NOON) {
        Resolution::Pending { route, .. } => route,
        other => panic!("expected Pending, got {other:?}"),
    };
    assert_eq!(route.provider, 1);
    let body = br#"{"active": true, "aud": "mcpg", "sub": "s"}"#.to_vec();
    let active = IntrospectionReply::Responded { status: 200, body: Ok(body) };
    match r.on_introspection(route, active, NOON) {
        Resolution::Done(OidcVerificationResult::Verified(id)) => {
            assert_eq!(id.issuer, "https://second.example.com/");
        }
        other => panic!("expected Verified, got {other:?}"),
    }
}

#[test]
fn when_no_provider_verifies_the_last_error_is_told() {
    let mut r = two_providers();
    let mut resolution = r.verify_token("opaque", NOON);
    let mut n = 0;
    let msg = loop {
        resolution = match resolution {
            Resolution::Done(OidcVerificationResult::Invalid(msg)) => break msg,
            Resolution::Done(other) => panic!("expected Invalid, got {other:?}"),
            Resolution::Pending { route, .. } => {
                n += 1;
                r.on_introspection(route, IntrospectionReply::SendFailed(format!("e{n}")), NOON)
            }
        };
    };
    assert_eq!(
        msg,
        "no configured provider could verify the token (last error: introspection request failed \
         for issuer 'https://second.example.com/': e2)"
    );
    match resolver(vec![]).verify_token("t", NOON) {
        Resolution::Done(OidcVerificationResult::Invalid(msg)) => assert_eq!(
            msg,
            "no configured provider could verify the token (last error: )"
        ),
        other => panic!("expected Invalid, got {other:?}"),
    }
}

#[test]
fn a_broken_provider_leaves_others_alone() {
    let other = "https://other.example.com/";
    let mut r = resolver(vec![
        provider_config(ISSUER, jwks(&["HS256"])),
        provider_config(other, jwks(&["HS256"])),
    ]);
    let named = |iss: &str| {
        let payload = URL_SAFE_NO_PAD.encode(format!(r#"{{"iss":"{iss}"}}"#));
        format!("h.{payload}.s")
    };
    for _ in 0..5 {
        match r.verify_token(&named(other), NOON) {
            Resolution::Pending { route, step } => {
                assert_eq!(route.provider, 1);
                r.on_discovery(route, discovery_wait(step), DiscoveryReply::SendFailed, NOON);
            }
            done => panic!("expected Pending, got {done:?}"),
        }
    }
    assert!(matches!(r.verify_token(&named(other), NOON), Resolution::Done(_)));
    assert_eq!(r.take_notices(1).len(), 1);
    match r.verify_token(&named(ISSUER), NOON) {
        Resolution::Pending { route, step } => {
            assert_eq!(route.provider, 0);
            discovery_wait(step);
        }
        done => panic!("expected Pending, got {done:?}"),
    }
    assert!(r.take_notices(0).is_empty());
    assert_eq!(r.issuers(), vec![ISSUER, other]);
}

#[test]
fn a_routed_jwt_is_verified_step_by_step() {
    let mut r = resolver(vec![
        provider_config("https://first.example.com/", introspection()),
        provider_config(ISSUER, jwks(&["HS256"])),
    ]);
    let jwt = token(Some("k1"), "secret", &good_claims());
    let (route, wait) = match r.verify_token(&jwt, NOON) {
        Resolution::Pending { route, step } => (route, discovery_wait(step)),
        other => panic!("expected Pending, got {other:?}"),
    };
    assert_eq!(route.provider, 1);
    let (route, wait) = match r.on_discovery(route, wait, document(ISSUER), NOON) {
        Resolution::Pending { route, step } => (route, jwks_wait(step)),
        other => panic!("expected Pending, got {other:?}"),
    };
    let reply = keys_reply(key_set(&[hs256("k1", "secret")]));
    match r.on_jwks(route, wait, reply, NOON) {
        Resolution::Done(OidcVerificationResult::Verified(id)) => {
            assert_eq!(id.subject_id, "user-1");
            assert_eq!(id.provider_label, ISSUER);
        }
        other => panic!("expected Verified, got {other:?}"),
    }
    assert!(r.take_notices(1).is_empty());
}
