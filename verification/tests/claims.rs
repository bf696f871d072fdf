use mcpg_plugin_identity_oidc_core::claims::{
    extract_scope_claims, extract_string_claim, extract_string_list_claims, parse_json,
    resolve_json_path, ClaimValue,
};
use mcpg_plugin_identity_oidc_core::config::{
    ClaimMappingConfig, OidcProviderConfig, VerificationConfig,
};
use mcpg_plugin_identity_oidc_core::provider::{resolve_secret_ref, ProviderState};
use mcpg_plugin_identity_oidc_core::string_map::StringMap;
use mcpg_plugin_identity_oidc_core::OidcVerificationResult;

fn json(text: &str) -> ClaimValue {
    parse_json(text.as_bytes()).unwrap()
}

#[test]
fn resolve_json_path_simple() {
    let claims = json(r#"{"sub": "user-1", "email": "user@example.com"}"#);
    assert_eq!(resolve_json_path(&claims, "sub"), Some(&json(r#""user-1""#)));
    assert_eq!(
        resolve_json_path(&claims, "email"),
        Some(&json(r#""user@example.com""#))
    );
    assert_eq!(resolve_json_path(&claims, "missing"), None);
}

#[test]
fn resolve_json_path_nested() {
    let claims = json(r#"{"realm_access": {"roles": ["admin", "editor"]}}"#);
    assert_eq!(
        resolve_json_path(&claims, "realm_access.roles"),
        Some(&json(r#"["admin", "editor"]"#))
    );
}

#[test]
fn paths_stop_at_what_is_no_object() {
    let claims = json(r#"{"a": {"": 1, "b": "x"}, "list": [{"b": 2}]}"#);
    assert_eq!(resolve_json_path(&claims, "a.b.c"), None);
    assert_eq!(resolve_json_path(&claims, "list.0"), None);
    assert_eq!(resolve_json_path(&claims, "a."), Some(&json("1")));
    assert_eq!(resolve_json_path(&claims, ""), None);
    assert_eq!(resolve_json_path(&json(r#"{"": null}"#), ""), Some(&ClaimValue::Null));
}

#[test]
fn extract_string_claim_works() {
    let claims = json(r#"{"sub": "alice", "email": "alice@example.com"}"#);
    assert_eq!(
        extract_string_claim(&claims, "sub"),
        Some("alice".to_owned())
    );
    assert_eq!(extract_string_claim(&claims, "missing"), None);
}

#[test]
fn extract_string_claim_takes_texts_only() {
    let claims = json(r#"{"n": 7, "b": true, "l": ["x"], "o": {}, "z": null}"#);
    for path in ["n", "b", "l", "o", "z"] {
        assert_eq!(extract_string_claim(&claims, path), None);
    }
}

#[test]
fn extract_string_list_from_array() {
    let claims = json(r#"{"groups": ["admin", "dev"], "roles": ["editor"]}"#);
    let result = extract_string_list_claims(&claims, &["groups".to_owned(), "roles".to_owned()]);
    assert_eq!(result, vec!["admin", "dev", "editor"]);
}

#[test]
fn extract_string_list_from_space_separated() {
    let claims = json(r#"{"scope": "openid profile email"}"#);
    let result = extract_string_list_claims(&claims, &["scope".to_owned()]);
    assert_eq!(result, vec!["openid", "profile", "email"]);
}

#[test]
fn extract_string_list_from_nested_path() {
    let claims = json(r#"{"realm_access": {"roles": ["admin", "user"]}}"#);
    let result = extract_string_list_claims(&claims, &["realm_access.roles".to_owned()]);
    assert_eq!(result, vec!["admin", "user"]);
}

#[test]
fn lists_skip_what_is_no_text_and_split_at_any_white_space() {
    let claims = json(r#"{"l": ["a b", 1, null, "c"], "s": "\t x y \n", "n": 3}"#);
    let paths = ["n".to_owned(), "l".to_owned(), "s".to_owned(), "q".to_owned()];
    assert_eq!(
        extract_scope_claims(&claims, &paths),
        vec!["a b", "c", "x", "y"]
    );
}

#[test]
fn json_documents() {
    assert_eq!(
        json(r#"{"b": [true, null, "t", 1.5, -2], "a": {}}"#),
        ClaimValue::Object(vec![
            ("a".to_owned(), ClaimValue::Object(vec![])),
            (
                "b".to_owned(),
                ClaimValue::Array(vec![
                    ClaimValue::Bool(true),
                    ClaimValue::Null,
                    ClaimValue::String("t".to_owned()),
                    ClaimValue::Number("1.5".to_owned()),
                    ClaimValue::Number("-2".to_owned()),
                ])
            ),
        ])
    );
    assert!(parse_json(b"{").is_err());
    assert!(parse_json(b"{} x").unwrap_err().contains("trailing characters"));
}

fn config(claim_mappings: ClaimMappingConfig, audiences: Vec<String>) -> OidcProviderConfig {
    OidcProviderConfig {
        issuer: "https://login.example.com/".to_owned(),
        discovery_uri: None,
        audiences,
        verification: VerificationConfig::OidcJwks {
            allowed_algs: vec!["RS256".to_owned()],
            refresh_interval_secs: 300,
            timeout_ms: 2000,
            max_staleness_secs: 3600,
            allow_hmac: false,
        },
        claim_mappings,
        clock_skew_secs: 60,
        allowed_issuer_hosts: Vec::new(),
        allow_private_issuer: true,
        allow_any_audience: false,
    }
}

#[test]
fn claim_mapping_full() {
    let claims = json(
        r#"{
            "sub": "user-42",
            "iss": "https://login.example.com/",
            "aud": "mcpg",
            "groups": ["engineers"],
            "realm_access": {"roles": ["admin"]},
            "scope": "openid profile",
            "email": "user@example.com",
            "department": "engineering"
        }"#,
    );

    let config = config(
        ClaimMappingConfig {
            subject_claim: "sub".to_owned(),
            group_claim_paths: vec!["groups".to_owned()],
            role_claim_paths: vec!["realm_access.roles".to_owned()],
            scope_claim_paths: vec!["scope".to_owned()],
            attribute_claim_mappings: {
                let mut m = StringMap::new();
                m.insert("email".to_owned(), "email".to_owned());
                m.insert("department".to_owned(), "department".to_owned());
                m
            },
        },
        vec!["mcpg".to_owned()],
    );

    let provider = match ProviderState::new(config) {
        Ok(provider) => provider,
        Err(e) => panic!("{e:?}"),
    };

    match provider.map_claims(&claims) {
        OidcVerificationResult::Verified(id) => {
            assert_eq!(id.subject_id, "user-42");
            assert_eq!(id.issuer, "https://login.example.com/");
            assert_eq!(id.groups, vec!["engineers"]);
            assert_eq!(id.roles, vec!["admin"]);
            assert_eq!(id.scopes, vec!["openid", "profile"]);
            assert_eq!(id.attributes.get("email").unwrap(), "user@example.com");
            assert_eq!(id.attributes.get("department").unwrap(), "engineering");
        }
        other => panic!("expected Verified, got {other:?}"),
    }
}

#[test]
fn claim_mapping_missing_subject_returns_invalid() {
    let claims = json(r#"{"email": "user@example.com"}"#);
    let config = config(ClaimMappingConfig::default(), vec![]);
    let provider = match ProviderState::new(config) {
        Ok(provider) => provider,
        Err(e) => panic!("{e:?}"),
    };
    match provider.map_claims(&claims) {
        OidcVerificationResult::Invalid(msg) => {
            assert!(msg.contains("sub"), "error should mention 'sub': {msg}");
        }
        other => panic!("expected Invalid, got {other:?}"),
    }
}

#[test]
fn blank_subject_is_no_subject() {
    let provider = match ProviderState::new(config(ClaimMappingConfig::default(), vec![])) {
        Ok(provider) => provider,
        Err(e) => panic!("{e:?}"),
    };
    for claims in [r#"{"sub": " \t"}"#, r#"{"sub": 7}"#, r#"["sub"]"#] {
        match provider.map_claims(&json(claims)) {
            OidcVerificationResult::Invalid(msg) => assert_eq!(
                msg,
                "missing or empty 'sub' claim for issuer 'https://login.example.com/'"
            ),
            other => panic!("expected Invalid, got {other:?}"),
        }
    }
}

#[test]
fn greatest_claim_path_decides_a_shared_attribute() {
    let mut mappings = StringMap::new();
    mappings.insert("z".to_owned(), "name".to_owned());
    mappings.insert("a".to_owned(), "name".to_owned());
    mappings.insert("m".to_owned(), "name".to_owned());
    let mapping = ClaimMappingConfig {
        attribute_claim_mappings: mappings,
        ..ClaimMappingConfig::default()
    };
    let provider = match ProviderState::new(config(mapping, vec![])) {
        Ok(provider) => provider,
        Err(e) => panic!("{e:?}"),
    };
    let name = |claims: &str| match provider.map_claims(&json(claims)) {
        OidcVerificationResult::Verified(id) => id.attributes.get("name").cloned(),
        other => panic!("expected Verified, got {other:?}"),
    };
    assert_eq!(
        name(r#"{"sub": "s", "a": "1", "m": "2", "z": "3"}"#),
        Some("3".to_owned())
    );
    assert_eq!(
        name(r#"{"sub": "s", "a": "1", "m": "2", "z": 3}"#),
        Some("2".to_owned())
    );
    assert_eq!(name(r#"{"sub": "s"}"#), None);
}

#[test]
fn string_map_is_walked_in_order() {
    let mut m = StringMap::new();
    assert_eq!(m.insert("b".to_owned(), "1".to_owned()), None);
    assert_eq!(m.insert("ab".to_owned(), "2".to_owned()), None);
    assert_eq!(m.insert("a".to_owned(), "3".to_owned()), None);
    assert_eq!(m.insert("b".to_owned(), "4".to_owned()), Some("1".to_owned()));
    assert_eq!(m.insert("é".to_owned(), "5".to_owned()), None);
    let walked: Vec<_> = (0..m.len()).map(|i| m.entry(i)).collect();
    assert_eq!(walked, vec![("a", "3"), ("ab", "2"), ("b", "4"), ("é", "5")]);
    assert_eq!(m.get("ab").unwrap(), "2");
    assert!(m.get("c").is_none());
    assert_eq!(m.clone(), m);
}

#[test]
fn resolve_secret_ref_passes_value_through() {
    assert_eq!(resolve_secret_ref("my-secret"), "my-secret");
}

#[test]
fn resolve_secret_ref_literal() {
    assert_eq!(resolve_secret_ref("literal-value"), "literal-value");
}
