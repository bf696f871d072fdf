use mcpg_plugin_identity_oidc_core::resolver::enforce_discovery_url_safety;
use mcpg_plugin_identity_oidc_core::url_guard::{
    check_parsed_url, host_is_listed, is_private_address, IpAddress, ParsedUrl, UrlGuardError,
    UrlHost,
};

#[test]
fn accepts_public_https_host() {
    assert!(
        enforce_discovery_url_safety(
            "https://login.example.com/.well-known/openid-configuration",
            &[],
            false,
        )
        .is_ok()
    );
}

#[test]
fn rejects_plain_http_without_dev_flag() {
    let err = enforce_discovery_url_safety(
        "http://idp.example.com/.well-known/openid-configuration",
        &[],
        false,
    )
    .unwrap_err();
    assert!(err.to_string().contains("https"), "got: {}", err.to_string());
}

#[test]
fn rejects_private_ipv4_by_default() {
    let err = enforce_discovery_url_safety("https://10.0.0.5/jwks", &[], false).unwrap_err();
    assert!(
        err.to_string().contains("private/loopback"),
        "got: {}",
        err.to_string()
    );
}

#[test]
fn rejects_loopback_ipv4_by_default() {
    let err = enforce_discovery_url_safety("https://127.0.0.1/jwks", &[], false).unwrap_err();
    assert!(
        err.to_string().contains("private/loopback"),
        "got: {}",
        err.to_string()
    );
}

#[test]
fn rejects_link_local_ipv6_by_default() {
    let err = enforce_discovery_url_safety("https://[fe80::1]/jwks", &[], false).unwrap_err();
    assert!(
        err.to_string().contains("private/loopback"),
        "got: {}",
        err.to_string()
    );
}

#[test]
fn permits_private_ipv4_with_dev_flag() {
    assert!(
        enforce_discovery_url_safety(
            "http://127.0.0.1:8080/.well-known/openid-configuration",
            &[],
            true,
        )
        .is_ok()
    );
}

#[test]
fn allowlist_accepts_exact_host() {
    assert!(
        enforce_discovery_url_safety(
            "https://idp.example.com/jwks",
            &["idp.example.com".to_owned()],
            false,
        )
        .is_ok()
    );
}

#[test]
fn allowlist_rejects_off_list_host() {
    let err = enforce_discovery_url_safety(
        "https://evil.example.net/jwks",
        &["idp.example.com".to_owned()],
        false,
    )
    .unwrap_err();
    assert!(
        err.to_string().contains("not in allowed_issuer_hosts"),
        "got: {}",
        err.to_string()
    );
}

#[test]
fn allowlist_accepts_subdomain_of_listed_root() {
    assert!(
        enforce_discovery_url_safety(
            "https://eu.idp.example.com/jwks",
            &["idp.example.com".to_owned()],
            false,
        )
        .is_ok()
    );
}

#[test]
fn allowlist_needs_a_dot_before_the_listed_host() {
    assert!(!host_is_listed("evilidp.example.com", "idp.example.com"));
    assert!(host_is_listed("EU.Idp.example.com", "iDP.example.COM"));
    assert!(host_is_listed("idp.example.com", "IDP.EXAMPLE.COM"));
    assert!(!host_is_listed("example.com", "idp.example.com"));
    assert!(host_is_listed(".a", "a"));
}

#[test]
fn allowlist_holds_with_the_dev_flag_too() {
    assert!(matches!(
        enforce_discovery_url_safety("http://127.0.0.1/", &["idp".to_owned()], true),
        Err(UrlGuardError::HostNotAllowed { .. })
    ));
}

#[test]
fn text_that_is_no_url() {
    let err = enforce_discovery_url_safety("not a url", &[], false).unwrap_err();
    assert_eq!(err.to_string(), "invalid OIDC URL 'not a url'");
    match err {
        UrlGuardError::InvalidUrl { url, cause } => {
            assert_eq!(url, "not a url");
            assert_eq!(cause, "relative URL without a base");
        }
        other => panic!("expected InvalidUrl, got {other:?}"),
    }
}

#[test]
fn url_without_a_host() {
    let err = enforce_discovery_url_safety("mailto:a@b", &[], true).unwrap_err();
    assert_eq!(err.to_string(), "OIDC URL 'mailto:a@b' has no host");
}

#[test]
fn other_schemes_are_refused() {
    assert!(matches!(
        enforce_discovery_url_safety("ftp://idp.example.com/", &[], true),
        Err(UrlGuardError::NotHttps { .. })
    ));
}

#[test]
fn addresses_in_odd_notation_are_seen() {
    // The parser normalises these to 127.0.0.1.
    for url in ["https://2130706433/", "https://0x7f.1/", "https://127.1/"] {
        assert!(matches!(
            enforce_discovery_url_safety(url, &[], false),
            Err(UrlGuardError::PrivateAddress { .. })
        ));
    }
    assert!(enforce_discovery_url_safety("https://8.8.8.8/", &[], false).is_ok());
    assert!(enforce_discovery_url_safety("https://[2606:4700::1]/", &[], false).is_ok());
}

#[test]
fn private_ranges() {
    let v4 = |a, b, c, d| is_private_address(&IpAddress::V4([a, b, c, d]));
    assert!(v4(127, 255, 0, 1));
    assert!(v4(10, 1, 2, 3));
    assert!(v4(172, 16, 0, 0) && v4(172, 31, 255, 255));
    assert!(!v4(172, 15, 0, 0) && !v4(172, 32, 0, 0));
    assert!(v4(192, 168, 0, 1) && !v4(192, 167, 0, 1));
    assert!(v4(169, 254, 169, 254) && !v4(169, 253, 0, 0));
    assert!(v4(255, 255, 255, 255) && v4(0, 0, 0, 0) && v4(240, 0, 0, 0));
    assert!(v4(224, 0, 0, 1) && v4(239, 1, 1, 1) && !v4(223, 1, 1, 1));
    assert!(v4(100, 64, 0, 0) && v4(100, 127, 0, 0));
    assert!(!v4(100, 63, 0, 0) && !v4(100, 128, 0, 0));
    assert!(!v4(8, 8, 8, 8));
    let v6 = |first, last| is_private_address(&IpAddress::V6([first, 0, 0, 0, 0, 0, 0, last]));
    assert!(v6(0, 0) && v6(0, 1) && !v6(0, 2));
    assert!(v6(0xff00, 0) && v6(0xffff, 9));
    assert!(v6(0xfc00, 1) && v6(0xfdff, 1) && !v6(0xfbff, 1) && !v6(0xfe00, 1));
    assert!(v6(0xfe80, 1) && v6(0xfebf, 1) && !v6(0xfec0, 1));
    assert!(!v6(0x2606, 1));
}

#[test]
fn a_domain_that_writes_an_address_is_judged_by_it() {
    let parsed = ParsedUrl {
        scheme: "https".to_owned(),
        host: Some(UrlHost::Domain),
        host_text: Some("10.0.0.1".to_owned()),
    };
    let private = Some(IpAddress::V4([10, 0, 0, 1]));
    assert!(matches!(
        check_parsed_url("u", &parsed, private, &[], false),
        Err(UrlGuardError::PrivateAddress { .. })
    ));
    assert!(check_parsed_url("u", &parsed, None, &[], false).is_ok());
    let hostless = ParsedUrl { scheme: "https".to_owned(), host: None, host_text: None };
    assert!(matches!(
        check_parsed_url("u", &hostless, None, &[], false),
        Err(UrlGuardError::NoHost { .. })
    ));
}
