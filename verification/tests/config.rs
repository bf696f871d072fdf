use mcpg_plugin_identity_oidc_core::algorithm::{map_key_algorithm, Algorithm, KeyAlgorithm};
use mcpg_plugin_identity_oidc_core::config::{
    default_allowed_algs, default_clock_skew_secs, default_introspection_timeout_ms,
    default_jwks_max_staleness_secs, default_jwks_refresh_interval_secs, default_jwks_timeout_ms,
    default_scope_claim_paths, default_subject_claim, default_token_source_kind, is_hmac_alg,
    ClaimMappingConfig, OidcConfigError, OidcOAuthConfig, OidcProviderConfig, ProviderConfigError,
    TokenSourceConfig, TokenSourceKind, VerificationConfig, VerificationConfigError,
    MAX_CLOCK_SKEW_SECS, MAX_JWKS_STALENESS_SECS,
};
use mcpg_plugin_identity_oidc_core::parse_algorithm;

fn provider(clock_skew_secs: u64) -> OidcProviderConfig {
    OidcProviderConfig {
        issuer: "https://login.example.com/".to_owned(),
        discovery_uri: None,
        audiences: vec!["mcpg".to_owned()],
        verification: VerificationConfig::OidcJwks {
            allowed_algs: vec!["RS256".to_owned()],
            refresh_interval_secs: default_jwks_refresh_interval_secs(),
            timeout_ms: default_jwks_timeout_ms(),
            max_staleness_secs: default_jwks_max_staleness_secs(),
            allow_hmac: false,
        },
        claim_mappings: ClaimMappingConfig::default(),
        clock_skew_secs,
        allowed_issuer_hosts: Vec::new(),
        allow_private_issuer: true,
        allow_any_audience: false,
    }
}

#[test]
fn default_clock_skew_is_60_seconds() {
    assert_eq!(default_clock_skew_secs(), 60);
}

#[test]
fn rejects_excessive_clock_skew() {
    let err = provider(60_000).validate().unwrap_err().to_string();
    assert!(err.contains("clock_skew_secs"), "got: {err}");
    provider(60).validate().unwrap();
    provider(MAX_CLOCK_SKEW_SECS).validate().unwrap();
}

#[test]
fn clock_skew_message_names_both_values() {
    assert_eq!(
        provider(301).validate().unwrap_err().to_string(),
        "clock_skew_secs 301 exceeds the maximum 300s — a larger leeway is a token replay window, \
         not clock-drift tolerance"
    );
}

#[test]
fn jwks_window_defaults_are_seconds() {
    assert_eq!(default_jwks_refresh_interval_secs(), 300);
    assert_eq!(default_jwks_max_staleness_secs(), 3_600);
}

#[test]
fn other_defaults() {
    assert_eq!(default_jwks_timeout_ms(), 2000);
    assert_eq!(default_introspection_timeout_ms(), 2000);
    assert_eq!(default_allowed_algs(), vec!["RS256"]);
    assert_eq!(default_subject_claim(), "sub");
    assert_eq!(default_scope_claim_paths(), vec!["scope", "scp"]);
    assert_eq!(default_token_source_kind(), TokenSourceKind::AuthorizationBearer);
    let mappings = ClaimMappingConfig::default();
    assert_eq!(mappings.subject_claim, "sub");
    assert!(mappings.group_claim_paths.is_empty());
    assert!(mappings.role_claim_paths.is_empty());
    assert_eq!(mappings.scope_claim_paths, vec!["scope", "scp"]);
    assert_eq!(mappings.attribute_claim_mappings.len(), 0);
}

#[test]
fn rejects_excessive_jwks_staleness() {
    let staleness = |secs| VerificationConfig::OidcJwks {
        allowed_algs: default_allowed_algs(),
        refresh_interval_secs: default_jwks_refresh_interval_secs(),
        timeout_ms: default_jwks_timeout_ms(),
        max_staleness_secs: secs,
        allow_hmac: false,
    };
    let err = staleness(3_600_000).validate().unwrap_err().to_string();
    assert!(err.contains("max_staleness_secs"), "got: {err}");
    staleness(MAX_JWKS_STALENESS_SECS).validate().unwrap();
    staleness(default_jwks_max_staleness_secs())
        .validate()
        .unwrap();
}

fn oidc_jwks(allowed_algs: Vec<String>, allow_hmac: bool) -> VerificationConfig {
    VerificationConfig::OidcJwks {
        allowed_algs,
        refresh_interval_secs: default_jwks_refresh_interval_secs(),
        timeout_ms: default_jwks_timeout_ms(),
        max_staleness_secs: default_jwks_max_staleness_secs(),
        allow_hmac,
    }
}

#[test]
fn rejects_hmac_without_opt_in() {
    let cfg = oidc_jwks(vec!["HS256".to_owned()], false);
    let err = cfg.validate().unwrap_err().to_string();
    assert!(err.contains("HMAC"), "got: {err}");
}

#[test]
fn accepts_hmac_with_opt_in() {
    let cfg = oidc_jwks(vec!["HS256".to_owned()], true);
    cfg.validate().unwrap();
}

#[test]
fn rs256_only_unaffected_by_flag() {
    oidc_jwks(vec!["RS256".to_owned()], false)
        .validate()
        .unwrap();
    oidc_jwks(vec!["RS256".to_owned()], true)
        .validate()
        .unwrap();
}

/// What a configuration of an issuer, an audience and an algorithm comes to
/// with the defaults.
fn valid_provider() -> OidcProviderConfig {
    OidcProviderConfig {
        allow_private_issuer: false,
        ..provider(default_clock_skew_secs())
    }
}

#[test]
fn empty_audiences_without_opt_in_fails_validate() {
    let mut cfg = valid_provider();
    cfg.validate().unwrap();
    cfg.audiences = Vec::new();
    let err = cfg.validate().unwrap_err().to_string();
    assert!(err.contains("audiences"), "got: {err}");
}

#[test]
fn empty_audiences_with_opt_in_validates() {
    let mut cfg = valid_provider();
    cfg.audiences = Vec::new();
    cfg.allow_any_audience = true;
    cfg.validate().unwrap();
}

fn plain_provider(issuer: &str, audiences: Vec<String>) -> OidcProviderConfig {
    OidcProviderConfig {
        issuer: issuer.to_owned(),
        discovery_uri: None,
        audiences,
        verification: VerificationConfig::OidcJwks {
            allowed_algs: vec!["RS256".to_owned()],
            refresh_interval_secs: 300,
            timeout_ms: 2000,
            max_staleness_secs: 3600,
            allow_hmac: false,
        },
        claim_mappings: ClaimMappingConfig::default(),
        clock_skew_secs: 60,
        allowed_issuer_hosts: Vec::new(),
        allow_private_issuer: true,
        allow_any_audience: false,
    }
}

#[test]
fn oidc_provider_config_validation() {
    let valid = plain_provider("https://login.example.com/", vec!["mcpg".to_owned()]);
    assert!(valid.validate().is_ok());
}

#[test]
fn oidc_provider_requires_https_issuer() {
    let bad = plain_provider("not-a-url", vec![]);
    let err = bad.validate().unwrap_err();
    assert!(err.to_string().contains("https://"));
}

#[test]
fn oidc_config_rejects_empty_providers() {
    let config = OidcOAuthConfig {
        token_source: TokenSourceConfig::default(),
        providers: vec![],
    };
    let err = config.validate().unwrap_err();
    assert!(err.to_string().contains("at least one provider"));
}

#[test]
fn oidc_config_rejects_duplicate_issuers() {
    let provider = plain_provider("https://login.example.com/", vec!["mcpg".to_owned()]);
    let config = OidcOAuthConfig {
        token_source: TokenSourceConfig::default(),
        providers: vec![provider.clone(), provider],
    };
    let err = config.validate().unwrap_err();
    assert!(err.to_string().contains("duplicate issuer"));
}

#[test]
fn faulty_provider_is_named_by_its_place() {
    let config = OidcOAuthConfig {
        token_source: TokenSourceConfig::default(),
        providers: vec![
            plain_provider("https://login.example.com/", vec!["mcpg".to_owned()]),
            plain_provider("  ", vec!["mcpg".to_owned()]),
        ],
    };
    let err = config.validate().unwrap_err();
    assert_eq!(err.to_string(), "oidc_oauth.providers[1]");
    assert!(matches!(
        err,
        OidcConfigError::Provider { index: 1, error: ProviderConfigError::IssuerEmpty }
    ));
}

#[test]
fn distinct_issuers_validate() {
    let config = OidcOAuthConfig {
        token_source: TokenSourceConfig::default(),
        providers: vec![
            plain_provider("https://a.example.com/", vec!["mcpg".to_owned()]),
            plain_provider("https://b.example.com/", vec!["mcpg".to_owned()]),
        ],
    };
    assert!(config.validate().is_ok());
    assert_eq!(config.clone(), config);
}

#[test]
fn provider_faults_come_in_order() {
    let mut cfg = plain_provider("\u{a0}\t", vec![]);
    cfg.discovery_uri = Some("ftp://x".to_owned());
    cfg.clock_skew_secs = 301;
    assert_eq!(cfg.validate().unwrap_err().to_string(), "issuer must not be empty");
    cfg.issuer = "ftp://idp".to_owned();
    assert_eq!(
        cfg.validate().unwrap_err().to_string(),
        "issuer 'ftp://idp' must start with https:// or http://"
    );
    cfg.issuer = "http://idp".to_owned();
    assert_eq!(
        cfg.validate().unwrap_err().to_string(),
        "discovery_uri must start with https:// or http://"
    );
    cfg.discovery_uri = None;
    assert!(matches!(
        cfg.validate(),
        Err(ProviderConfigError::ClockSkewTooLong { secs: 301 })
    ));
    cfg.clock_skew_secs = 300;
    assert!(matches!(cfg.validate(), Err(ProviderConfigError::NoAudiences)));
    cfg.allow_any_audience = true;
    cfg.verification = oidc_jwks(vec![], false);
    assert!(matches!(
        cfg.validate(),
        Err(ProviderConfigError::Verification(VerificationConfigError::NoAllowedAlgs))
    ));
}

#[test]
fn effective_discovery_uri_default() {
    let config = plain_provider("https://login.example.com", vec![]);
    assert_eq!(
        config.effective_discovery_uri(),
        "https://login.example.com/.well-known/openid-configuration"
    );
}

#[test]
fn effective_discovery_uri_drops_slashes_at_the_end() {
    let config = plain_provider("https://login.example.com/realm//", vec![]);
    assert_eq!(
        config.effective_discovery_uri(),
        "https://login.example.com/realm/.well-known/openid-configuration"
    );
}

#[test]
fn effective_discovery_uri_explicit() {
    let mut config = plain_provider("https://login.example.com/", vec![]);
    config.discovery_uri = Some("https://custom.example.com/discovery".to_owned());
    assert_eq!(
        config.effective_discovery_uri(),
        "https://custom.example.com/discovery"
    );
}

#[test]
fn token_source_defaults() {
    let ts = TokenSourceConfig::default();
    assert_eq!(ts.effective_header_name(), "authorization");
    assert_eq!(ts.effective_header_prefix(), "Bearer ");
}

#[test]
fn token_source_custom_header() {
    let ts = TokenSourceConfig {
        kind: TokenSourceKind::CustomHeader,
        header_name: Some("x-api-key".to_owned()),
        header_prefix: Some("".to_owned()),
    };
    assert_eq!(ts.effective_header_name(), "x-api-key");
    assert_eq!(ts.effective_header_prefix(), "");
}

#[test]
fn token_source_fallbacks() {
    let unnamed = TokenSourceConfig {
        kind: TokenSourceKind::CustomHeader,
        header_name: None,
        header_prefix: None,
    };
    assert_eq!(unnamed.effective_header_name(), "authorization");
    assert_eq!(unnamed.effective_header_prefix(), "");
    let bearer = TokenSourceConfig {
        kind: TokenSourceKind::AuthorizationBearer,
        header_name: Some("x-ignored".to_owned()),
        header_prefix: Some("Token ".to_owned()),
    };
    assert_eq!(bearer.effective_header_name(), "authorization");
    assert_eq!(bearer.effective_header_prefix(), "Token ");
}

#[test]
fn verification_config_rejects_empty_algs() {
    let config = VerificationConfig::OidcJwks {
        allowed_algs: vec![],
        refresh_interval_secs: 300,
        timeout_ms: 2000,
        max_staleness_secs: 3600,
        allow_hmac: false,
    };
    let err = config.validate().unwrap_err();
    assert!(err.to_string().contains("allowed_algs"));
}

#[test]
fn verification_config_rejects_unknown_algorithm() {
    let config = VerificationConfig::OidcJwks {
        allowed_algs: vec!["INVALID".to_owned()],
        refresh_interval_secs: 300,
        timeout_ms: 2000,
        max_staleness_secs: 3600,
        allow_hmac: false,
    };
    let err = config.validate().unwrap_err();
    assert!(err.to_string().contains("unsupported algorithm"));
}

#[test]
fn introspection_config_validates() {
    let config = VerificationConfig::OauthIntrospection {
        introspection_url: "https://oauth.example.com/introspect".to_owned(),
        client_id: "mcpg".to_owned(),
        client_secret_ref: "resolved-secret".to_owned(),
        timeout_ms: 2000,
    };
    assert!(config.validate().is_ok());
}

#[test]
fn introspection_config_rejects_empty_url() {
    let config = VerificationConfig::OauthIntrospection {
        introspection_url: "".to_owned(),
        client_id: "mcpg".to_owned(),
        client_secret_ref: "resolved-secret".to_owned(),
        timeout_ms: 2000,
    };
    let err = config.validate().unwrap_err();
    assert!(
        err.to_string()
            .contains("introspection_url must not be empty")
    );
}

fn introspection(url: &str, id: &str, secret: &str) -> VerificationConfig {
    VerificationConfig::OauthIntrospection {
        introspection_url: url.to_owned(),
        client_id: id.to_owned(),
        client_secret_ref: secret.to_owned(),
        timeout_ms: 2000,
    }
}

fn hybrid(url: &str, id: &str, secret: &str) -> VerificationConfig {
    VerificationConfig::Hybrid {
        allowed_algs: vec!["ES256".to_owned()],
        refresh_interval_secs: 300,
        timeout_ms: 2000,
        max_staleness_secs: 3600,
        introspection_url: url.to_owned(),
        client_id: id.to_owned(),
        client_secret_ref: secret.to_owned(),
        introspection_timeout_ms: 2000,
        allow_hmac: false,
    }
}

#[test]
fn introspection_faults() {
    assert_eq!(
        introspection("ldap://x", "id", "secret").validate().unwrap_err().to_string(),
        "verification.introspection_url must start with https:// or http:///"
    );
    assert_eq!(
        introspection("https://x", " ", "secret").validate().unwrap_err().to_string(),
        "verification.client_id must not be empty"
    );
    assert_eq!(
        introspection("https://x", "id", "\n").validate().unwrap_err().to_string(),
        "verification.client_secret_ref must not be empty"
    );
}

#[test]
fn hybrid_faults() {
    assert!(hybrid("anything", "id", "secret").validate().is_ok());
    assert!(matches!(
        hybrid(" ", "id", "secret").validate(),
        Err(VerificationConfigError::IntrospectionUrlEmpty)
    ));
    assert!(matches!(
        hybrid("u", "", "secret").validate(),
        Err(VerificationConfigError::ClientIdEmpty)
    ));
    assert!(matches!(
        hybrid("u", "id", "").validate(),
        Err(VerificationConfigError::ClientSecretRefEmpty)
    ));
}

#[test]
fn first_faulty_algorithm_is_reported() {
    let cfg = oidc_jwks(
        vec!["RS256".to_owned(), "HS384".to_owned(), "none".to_owned()],
        false,
    );
    assert_eq!(
        cfg.validate().unwrap_err().to_string(),
        "verification.allowed_algs contains HMAC algorithm 'HS384'; set \
         verification.allow_hmac=true only if your IdP only signs with HS*"
    );
    let cfg = oidc_jwks(
        vec!["RS256".to_owned(), "HS384".to_owned(), "none".to_owned()],
        true,
    );
    assert_eq!(
        cfg.validate().unwrap_err().to_string(),
        "unsupported algorithm: 'none'"
    );
}

#[test]
fn algorithms_by_name() {
    let all = [
        (Algorithm::HS256, "HS256"),
        (Algorithm::HS384, "HS384"),
        (Algorithm::HS512, "HS512"),
        (Algorithm::RS256, "RS256"),
        (Algorithm::RS384, "RS384"),
        (Algorithm::RS512, "RS512"),
        (Algorithm::PS256, "PS256"),
        (Algorithm::PS384, "PS384"),
        (Algorithm::PS512, "PS512"),
        (Algorithm::ES256, "ES256"),
        (Algorithm::ES384, "ES384"),
        (Algorithm::EdDSA, "EdDSA"),
    ];
    for (algorithm, name) in all {
        assert_eq!(parse_algorithm(name).unwrap(), algorithm);
        assert_eq!(algorithm.name(), name);
        assert_eq!(is_hmac_alg(name), name.starts_with("HS"));
    }
    let err = parse_algorithm("rs256").unwrap_err();
    assert_eq!(err.to_string(), "unsupported algorithm: 'rs256'");
    assert!(!is_hmac_alg("HS"));
}

#[test]
fn key_algorithms_that_sign() {
    assert_eq!(map_key_algorithm(KeyAlgorithm::PS384), Some(Algorithm::PS384));
    assert_eq!(map_key_algorithm(KeyAlgorithm::EdDSA), Some(Algorithm::EdDSA));
    assert_eq!(map_key_algorithm(KeyAlgorithm::RSA1_5), None);
    assert_eq!(map_key_algorithm(KeyAlgorithm::RSA_OAEP), None);
    assert_eq!(map_key_algorithm(KeyAlgorithm::RSA_OAEP_256), None);
}
