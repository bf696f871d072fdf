//! Configuration types, their defaults, and what makes a configuration valid.

use vstd::prelude::*;
use crate::algorithm::{algorithm_named, hmac_name};
pub use crate::algorithm::{is_hmac_alg, parse_algorithm};
use crate::string_map::StringMap;
use crate::text::{
    blank, blank_texts_have_no_words, copy_text, copy_texts, decimal, decimal_text, is_blank,
    same_text, starts_with, trim_end, trimmed_end, trimming_takes_the_whole_run, words,
};

verus! {

/// Hard upper bound on `clock_skew_secs`. Beyond a few minutes the leeway
/// stops being clock-drift tolerance and becomes a replay window.
pub const MAX_CLOCK_SKEW_SECS: u64 = 300;

/// Hard upper bound on `max_staleness_secs`. Serving stale keys is a
/// deliberate availability trade; past a day it becomes a window in which a
/// revoked signing key still verifies tokens.
pub const MAX_JWKS_STALENESS_SECS: u64 = 86_400;

// ---------------------------------------------------------------------------
// Token source
// ---------------------------------------------------------------------------

/// Which header carries the token.
#[derive(Debug, Clone, Copy, PartialEq, Eq, Structural)]
pub enum TokenSourceKind {
    AuthorizationBearer,
    CustomHeader,
}

/// How the bearer token is taken from a request.
#[derive(Debug, PartialEq, Eq)]
pub struct TokenSourceConfig {
    pub kind: TokenSourceKind,
    pub header_name: Option<String>,
    pub header_prefix: Option<String>,
}

/// What a [`TokenSourceConfig`] says.
#[verifier::ext_equal]
pub struct TokenSourceView {
    pub kind: TokenSourceKind,
    pub header_name: Option<Seq<char>>,
    pub header_prefix: Option<Seq<char>>,
}

impl View for TokenSourceConfig {
    type V = TokenSourceView;

    open spec fn view(&self) -> TokenSourceView {
        TokenSourceView {
            kind: self.kind,
            header_name: self.header_name.deep_view(),
            header_prefix: self.header_prefix.deep_view(),
        }
    }
}

impl TokenSourceView {
    /// The header that is read: a custom source names its own.
    pub open spec fn effective_header_name(self) -> Seq<char> {
        match (self.kind, self.header_name) {
            (TokenSourceKind::CustomHeader, Some(name)) => name,
            _ => "authorization"@,
        }
    }

    /// What stands before the token in that header.
    pub open spec fn effective_header_prefix(self) -> Seq<char> {
        match (self.header_prefix, self.kind) {
            (Some(prefix), _) => prefix,
            (None, TokenSourceKind::AuthorizationBearer) => "Bearer "@,
            (None, TokenSourceKind::CustomHeader) => ""@,
        }
    }
}

impl Clone for TokenSourceConfig {
    fn clone(&self) -> (r: Self)
        ensures
            r@ == self@,
    {
        TokenSourceConfig {
            kind: self.kind,
            header_name: copy_text(&self.header_name),
            header_prefix: copy_text(&self.header_prefix),
        }
    }
}

/// Tokens come in the `Authorization` header unless configured otherwise.
pub fn default_token_source_kind() -> (r: TokenSourceKind)
    ensures
        r == TokenSourceKind::AuthorizationBearer,
{
    TokenSourceKind::AuthorizationBearer
}

impl Default for TokenSourceConfig {
    fn default() -> (r: Self)
        ensures
            r@ == (TokenSourceView {
                kind: TokenSourceKind::AuthorizationBearer,
                header_name: None,
                header_prefix: None,
            }),
    {
        TokenSourceConfig {
            kind: default_token_source_kind(),
            header_name: None,
            header_prefix: None,
        }
    }
}

impl TokenSourceConfig {
    /// The header that is read.
    pub fn effective_header_name(&self) -> (r: &str)
        ensures
            r@ == self@.effective_header_name(),
    {
        match self.kind {
            TokenSourceKind::AuthorizationBearer => "authorization",
            TokenSourceKind::CustomHeader => match &self.header_name {
                Some(name) => name.as_str(),
                None => "authorization",
            },
        }
    }

    /// What stands before the token in that header.
    pub fn effective_header_prefix(&self) -> (r: &str)
        ensures
            r@ == self@.effective_header_prefix(),
    {
        if let Some(prefix) = &self.header_prefix {
            return prefix.as_str();
        }
        match self.kind {
            TokenSourceKind::AuthorizationBearer => "Bearer ",
            TokenSourceKind::CustomHeader => "",
        }
    }
}

// ---------------------------------------------------------------------------
// Claim mappings
// ---------------------------------------------------------------------------

/// Which claims make up an identity. Paths are dotted.
#[derive(Debug, PartialEq, Eq)]
pub struct ClaimMappingConfig {
    pub subject_claim: String,
    pub group_claim_paths: Vec<String>,
    pub role_claim_paths: Vec<String>,
    pub scope_claim_paths: Vec<String>,
    /// From a claim's path to the name of the attribute that it fills.
    pub attribute_claim_mappings: StringMap,
}

/// What a [`ClaimMappingConfig`] says; the attribute mappings as they are
/// walked.
#[verifier::ext_equal]
pub struct ClaimMappingView {
    pub subject_claim: Seq<char>,
    pub group_claim_paths: Seq<Seq<char>>,
    pub role_claim_paths: Seq<Seq<char>>,
    pub scope_claim_paths: Seq<Seq<char>>,
    pub attribute_claim_mappings: Seq<(Seq<char>, Seq<char>)>,
}

impl View for ClaimMappingConfig {
    type V = ClaimMappingView;

    open spec fn view(&self) -> ClaimMappingView {
        ClaimMappingView {
            subject_claim: self.subject_claim@,
            group_claim_paths: self.group_claim_paths.deep_view(),
            role_claim_paths: self.role_claim_paths.deep_view(),
            scope_claim_paths: self.scope_claim_paths.deep_view(),
            attribute_claim_mappings: self.attribute_claim_mappings.entries(),
        }
    }
}

impl Clone for ClaimMappingConfig {
    fn clone(&self) -> (r: Self)
        ensures
            r@ == self@,
    {
        ClaimMappingConfig {
            subject_claim: self.subject_claim.clone(),
            group_claim_paths: copy_texts(&self.group_claim_paths),
            role_claim_paths: copy_texts(&self.role_claim_paths),
            scope_claim_paths: copy_texts(&self.scope_claim_paths),
            attribute_claim_mappings: self.attribute_claim_mappings.clone(),
        }
    }
}

/// The claim that holds the subject unless configured otherwise.
pub fn default_subject_claim() -> (r: String)
    ensures
        r@ == "sub"@,
{
    "sub".to_owned()
}

/// The claims that hold the scopes unless configured otherwise.
pub fn default_scope_claim_paths() -> (r: Vec<String>)
    ensures
        r.deep_view() == seq!["scope"@, "scp"@],
{
    let mut r: Vec<String> = Vec::new();
    r.push("scope".to_owned());
    r.push("scp".to_owned());
    assert(r.deep_view() =~= seq!["scope"@, "scp"@]);
    r
}

impl Default for ClaimMappingConfig {
    fn default() -> (r: Self)
        ensures
            r@ == (ClaimMappingView {
                subject_claim: "sub"@,
                group_claim_paths: Seq::empty(),
                role_claim_paths: Seq::empty(),
                scope_claim_paths: seq!["scope"@, "scp"@],
                attribute_claim_mappings: Seq::empty(),
            }),
    {
        let r = ClaimMappingConfig {
            subject_claim: default_subject_claim(),
            group_claim_paths: Vec::new(),
            role_claim_paths: Vec::new(),
            scope_claim_paths: default_scope_claim_paths(),
            attribute_claim_mappings: StringMap::new(),
        };
        assert(r@.group_claim_paths =~= Seq::empty());
        assert(r@.role_claim_paths =~= Seq::empty());
        r
    }
}

// ---------------------------------------------------------------------------
// Verification
// ---------------------------------------------------------------------------

/// How a provider's tokens are verified.
#[derive(Debug, PartialEq, Eq)]
pub enum VerificationConfig {
    /// Against the keys that the provider publishes.
    OidcJwks {
        allowed_algs: Vec<String>,
        refresh_interval_secs: u64,
        timeout_ms: u64,
        max_staleness_secs: u64,
        /// HMAC algorithms share a secret across the trust boundary; they
        /// take an explicit opt-in.
        allow_hmac: bool,
    },
    /// By asking the authorization server (RFC 7662).
    OauthIntrospection {
        introspection_url: String,
        client_id: String,
        client_secret_ref: String,
        timeout_ms: u64,
    },
    /// JWTs are verified against the keys; opaque tokens are introspected.
    ///
    /// The token's *shape* selects the path, not whether the first path
    /// accepted it: a token that is a JWS is adjudicated by the JWT path and
    /// that verdict stands.
    Hybrid {
        allowed_algs: Vec<String>,
        refresh_interval_secs: u64,
        timeout_ms: u64,
        max_staleness_secs: u64,
        introspection_url: String,
        client_id: String,
        client_secret_ref: String,
        introspection_timeout_ms: u64,
        /// See `OidcJwks.allow_hmac`.
        allow_hmac: bool,
    },
}

/// What a [`VerificationConfig`] says.
#[verifier::ext_equal]
pub enum VerificationView {
    OidcJwks {
        allowed_algs: Seq<Seq<char>>,
        refresh_interval_secs: u64,
        timeout_ms: u64,
        max_staleness_secs: u64,
        allow_hmac: bool,
    },
    OauthIntrospection {
        introspection_url: Seq<char>,
        client_id: Seq<char>,
        client_secret_ref: Seq<char>,
        timeout_ms: u64,
    },
    Hybrid {
        allowed_algs: Seq<Seq<char>>,
        refresh_interval_secs: u64,
        timeout_ms: u64,
        max_staleness_secs: u64,
        introspection_url: Seq<char>,
        client_id: Seq<char>,
        client_secret_ref: Seq<char>,
        introspection_timeout_ms: u64,
        allow_hmac: bool,
    },
}

impl View for VerificationConfig {
    type V = VerificationView;

    open spec fn view(&self) -> VerificationView {
        match *self {
            VerificationConfig::OidcJwks {
                allowed_algs,
                refresh_interval_secs,
                timeout_ms,
                max_staleness_secs,
                allow_hmac,
            } => VerificationView::OidcJwks {
                allowed_algs: allowed_algs.deep_view(),
                refresh_interval_secs,
                timeout_ms,
                max_staleness_secs,
                allow_hmac,
            },
            VerificationConfig::OauthIntrospection {
                introspection_url,
                client_id,
                client_secret_ref,
                timeout_ms,
            } => VerificationView::OauthIntrospection {
                introspection_url: introspection_url@,
                client_id: client_id@,
                client_secret_ref: client_secret_ref@,
                timeout_ms,
            },
            VerificationConfig::Hybrid {
                allowed_algs,
                refresh_interval_secs,
                timeout_ms,
                max_staleness_secs,
                introspection_url,
                client_id,
                client_secret_ref,
                introspection_timeout_ms,
                allow_hmac,
            } => VerificationView::Hybrid {
                allowed_algs: allowed_algs.deep_view(),
                refresh_interval_secs,
                timeout_ms,
                max_staleness_secs,
                introspection_url: introspection_url@,
                client_id: client_id@,
                client_secret_ref: client_secret_ref@,
                introspection_timeout_ms,
                allow_hmac,
            },
        }
    }
}

impl VerificationView {
    /// The names of the algorithms that the JWT path accepts.
    pub open spec fn algs(self) -> Seq<Seq<char>> {
        match self {
            VerificationView::OidcJwks { allowed_algs, .. } => allowed_algs,
            VerificationView::Hybrid { allowed_algs, .. } => allowed_algs,
            VerificationView::OauthIntrospection { .. } => Seq::empty(),
        }
    }

    /// How old cached keys and documents may be before they are fetched anew.
    pub open spec fn refresh_interval_secs(self) -> u64 {
        match self {
            VerificationView::OidcJwks { refresh_interval_secs, .. } => refresh_interval_secs,
            VerificationView::Hybrid { refresh_interval_secs, .. } => refresh_interval_secs,
            VerificationView::OauthIntrospection { .. } => 300,
        }
    }

    /// How old cached keys may be and still stand in for a failed fetch.
    pub open spec fn max_staleness_secs(self) -> u64 {
        match self {
            VerificationView::OidcJwks { max_staleness_secs, .. } => max_staleness_secs,
            VerificationView::Hybrid { max_staleness_secs, .. } => max_staleness_secs,
            VerificationView::OauthIntrospection { .. } => 3600,
        }
    }

    /// How long a discovery or key fetch may take.
    pub open spec fn jwks_timeout_ms(self) -> u64 {
        match self {
            VerificationView::OidcJwks { timeout_ms, .. } => timeout_ms,
            VerificationView::Hybrid { timeout_ms, .. } => timeout_ms,
            VerificationView::OauthIntrospection { .. } => 2000,
        }
    }

    /// How long an introspection may take.
    pub open spec fn introspection_timeout_ms(self) -> u64 {
        match self {
            VerificationView::OauthIntrospection { timeout_ms, .. } => timeout_ms,
            VerificationView::Hybrid { introspection_timeout_ms, .. } => introspection_timeout_ms,
            VerificationView::OidcJwks { .. } => 2000,
        }
    }
}

impl Clone for VerificationConfig {
    fn clone(&self) -> (r: Self)
        ensures
            r@ == self@,
    {
        match self {
            VerificationConfig::OidcJwks {
                allowed_algs,
                refresh_interval_secs,
                timeout_ms,
                max_staleness_secs,
                allow_hmac,
            } => VerificationConfig::OidcJwks {
                allowed_algs: copy_texts(allowed_algs),
                refresh_interval_secs: *refresh_interval_secs,
                timeout_ms: *timeout_ms,
                max_staleness_secs: *max_staleness_secs,
                allow_hmac: *allow_hmac,
            },
            VerificationConfig::OauthIntrospection {
                introspection_url,
                client_id,
                client_secret_ref,
                timeout_ms,
            } => VerificationConfig::OauthIntrospection {
                introspection_url: introspection_url.clone(),
                client_id: client_id.clone(),
                client_secret_ref: client_secret_ref.clone(),
                timeout_ms: *timeout_ms,
            },
            VerificationConfig::Hybrid {
                allowed_algs,
                refresh_interval_secs,
                timeout_ms,
                max_staleness_secs,
                introspection_url,
                client_id,
                client_secret_ref,
                introspection_timeout_ms,
                allow_hmac,
            } => VerificationConfig::Hybrid {
                allowed_algs: copy_texts(allowed_algs),
                refresh_interval_secs: *refresh_interval_secs,
                timeout_ms: *timeout_ms,
                max_staleness_secs: *max_staleness_secs,
                introspection_url: introspection_url.clone(),
                client_id: client_id.clone(),
                client_secret_ref: client_secret_ref.clone(),
                introspection_timeout_ms: *introspection_timeout_ms,
                allow_hmac: *allow_hmac,
            },
        }
    }
}

/// The algorithms that are accepted unless configured otherwise.
pub fn default_allowed_algs() -> (r: Vec<String>)
    ensures
        r.deep_view() == seq!["RS256"@],
{
    let mut r: Vec<String> = Vec::new();
    r.push("RS256".to_owned());
    assert(r.deep_view() =~= seq!["RS256"@]);
    r
}

/// How often cached keys and discovery documents are fetched anew, in
/// SECONDS. It is also the floor on how long a key that the issuer has
/// revoked keeps verifying tokens.
pub fn default_jwks_refresh_interval_secs() -> (r: u64)
    ensures
        r == 300,
{
    300
}

/// How long a key or discovery fetch may take, in milliseconds.
pub fn default_jwks_timeout_ms() -> (r: u64)
    ensures
        r == 2000,
{
    2000
}

/// How long stale keys may still be served when a refresh fails, in SECONDS.
/// Spanning a short outage is worth more than failing closed; spanning a key
/// rotation is not.
pub fn default_jwks_max_staleness_secs() -> (r: u64)
    ensures
        r == 3600,
{
    3600
}

/// How long an introspection may take, in milliseconds.
pub fn default_introspection_timeout_ms() -> (r: u64)
    ensures
        r == 2000,
{
    2000
}

/// What is wrong with a verification strategy.
#[derive(Debug)]
pub enum VerificationConfigError {
    NoAllowedAlgs,
    UnsupportedAlgorithm { name: String },
    HmacWithoutOptIn { name: String },
    StalenessTooLong { secs: u64 },
    IntrospectionUrlEmpty,
    IntrospectionUrlScheme,
    ClientIdEmpty,
    ClientSecretRefEmpty,
}

/// What a [`VerificationConfigError`] says.
#[verifier::ext_equal]
pub enum VerificationFault {
    NoAllowedAlgs,
    UnsupportedAlgorithm { name: Seq<char> },
    HmacWithoutOptIn { name: Seq<char> },
    StalenessTooLong { secs: u64 },
    IntrospectionUrlEmpty,
    IntrospectionUrlScheme,
    ClientIdEmpty,
    ClientSecretRefEmpty,
}

impl View for VerificationConfigError {
    type V = VerificationFault;

    open spec fn view(&self) -> VerificationFault {
        match *self {
            VerificationConfigError::NoAllowedAlgs => VerificationFault::NoAllowedAlgs,
            VerificationConfigError::UnsupportedAlgorithm { name } => {
                VerificationFault::UnsupportedAlgorithm { name: name@ }
            },
            VerificationConfigError::HmacWithoutOptIn { name } => {
                VerificationFault::HmacWithoutOptIn { name: name@ }
            },
            VerificationConfigError::StalenessTooLong { secs } => {
                VerificationFault::StalenessTooLong { secs }
            },
            VerificationConfigError::IntrospectionUrlEmpty => {
                VerificationFault::IntrospectionUrlEmpty
            },
            VerificationConfigError::IntrospectionUrlScheme => {
                VerificationFault::IntrospectionUrlScheme
            },
            VerificationConfigError::ClientIdEmpty => VerificationFault::ClientIdEmpty,
            VerificationConfigError::ClientSecretRefEmpty => VerificationFault::ClientSecretRefEmpty,
        }
    }
}

impl VerificationFault {
    /// The message for the operator.
    pub open spec fn message(self) -> Seq<char> {
        match self {
            VerificationFault::NoAllowedAlgs => "verification.allowed_algs must not be empty"@,
            VerificationFault::UnsupportedAlgorithm { name } => {
                "unsupported algorithm: '"@ + name + "'"@
            },
            VerificationFault::HmacWithoutOptIn { name } => {
                "verification.allowed_algs contains HMAC algorithm '"@ + name
                    + "'; set verification.allow_hmac=true only if your IdP only signs with HS*"@
            },
            VerificationFault::StalenessTooLong { secs } => {
                "verification.max_staleness_secs "@ + decimal(secs as nat)
                    + " exceeds the maximum "@ + decimal(MAX_JWKS_STALENESS_SECS as nat)
                    + "s — past a day a stale JWKS stops covering an IdP outage and becomes a window in which a revoked signing key still verifies tokens"@
            },
            VerificationFault::IntrospectionUrlEmpty => {
                "verification.introspection_url must not be empty"@
            },
            VerificationFault::IntrospectionUrlScheme => {
                "verification.introspection_url must start with https:// or http:///"@
            },
            VerificationFault::ClientIdEmpty => "verification.client_id must not be empty"@,
            VerificationFault::ClientSecretRefEmpty => {
                "verification.client_secret_ref must not be empty"@
            },
        }
    }
}

impl VerificationConfigError {
    /// The message for the operator.
    pub fn to_string(&self) -> (r: String)
        ensures
            r@ == self@.message(),
    {
        match self {
            VerificationConfigError::NoAllowedAlgs => {
                "verification.allowed_algs must not be empty".to_owned()
            },
            VerificationConfigError::UnsupportedAlgorithm { name } => {
                let mut r = "unsupported algorithm: '".to_owned();
                r.append(name.as_str());
                r.append("'");
                r
            },
            VerificationConfigError::HmacWithoutOptIn { name } => {
                let mut r = "verification.allowed_algs contains HMAC algorithm '".to_owned();
                r.append(name.as_str());
                r.append(
                    "'; set verification.allow_hmac=true only if your IdP only signs with HS*",
                );
                r
            },
            VerificationConfigError::StalenessTooLong { secs } => {
                let mut r = "verification.max_staleness_secs ".to_owned();
                r.append(decimal_text(*secs).as_str());
                r.append(" exceeds the maximum ");
                r.append(decimal_text(MAX_JWKS_STALENESS_SECS).as_str());
                r.append(
                    "s — past a day a stale JWKS stops covering an IdP outage and becomes a window in which a revoked signing key still verifies tokens",
                );
                r
            },
            VerificationConfigError::IntrospectionUrlEmpty => {
                "verification.introspection_url must not be empty".to_owned()
            },
            VerificationConfigError::IntrospectionUrlScheme => {
                "verification.introspection_url must start with https:// or http:///".to_owned()
            },
            VerificationConfigError::ClientIdEmpty => {
                "verification.client_id must not be empty".to_owned()
            },
            VerificationConfigError::ClientSecretRefEmpty => {
                "verification.client_secret_ref must not be empty".to_owned()
            },
        }
    }
}

/// Web addresses start with `https://` or `http://`.
pub open spec fn web_address(s: Seq<char>) -> bool {
    "https://"@.is_prefix_of(s) || "http://"@.is_prefix_of(s)
}

fn is_web_address(s: &str) -> (r: bool)
    ensures
        r == web_address(s@),
{
    starts_with(s, "https://") || starts_with(s, "http://")
}

/// What is wrong with one allowed algorithm.
pub open spec fn alg_fault(name: Seq<char>, allow_hmac: bool) -> Option<VerificationFault> {
    if algorithm_named(name) is None {
        Some(VerificationFault::UnsupportedAlgorithm { name })
    } else if hmac_name(name) && !allow_hmac {
        Some(VerificationFault::HmacWithoutOptIn { name })
    } else {
        None
    }
}

/// What is wrong with the first faulty one of a list of algorithms.
pub open spec fn first_alg_fault(algs: Seq<Seq<char>>, allow_hmac: bool) -> Option<
    VerificationFault,
>
    decreases algs.len(),
{
    if algs.len() == 0 {
        None
    } else {
        match alg_fault(algs[0], allow_hmac) {
            Some(fault) => Some(fault),
            None => first_alg_fault(algs.drop_first(), allow_hmac),
        }
    }
}

/// What is wrong with the keys' part of a strategy.
pub open spec fn jwks_fault(
    algs: Seq<Seq<char>>,
    allow_hmac: bool,
    max_staleness_secs: u64,
) -> Option<VerificationFault> {
    if algs.len() == 0 {
        Some(VerificationFault::NoAllowedAlgs)
    } else if first_alg_fault(algs, allow_hmac) is Some {
        first_alg_fault(algs, allow_hmac)
    } else if max_staleness_secs > MAX_JWKS_STALENESS_SECS {
        Some(VerificationFault::StalenessTooLong { secs: max_staleness_secs })
    } else {
        None
    }
}

/// What is wrong with the credentials for introspection.
pub open spec fn client_fault(client_id: Seq<char>, client_secret_ref: Seq<char>) -> Option<
    VerificationFault,
> {
    if blank(client_id) {
        Some(VerificationFault::ClientIdEmpty)
    } else if blank(client_secret_ref) {
        Some(VerificationFault::ClientSecretRefEmpty)
    } else {
        None
    }
}

/// What is wrong with a verification strategy; the first fault if there are
/// several.
pub open spec fn verification_fault(v: VerificationView) -> Option<VerificationFault> {
    match v {
        VerificationView::OidcJwks { allowed_algs, allow_hmac, max_staleness_secs, .. } => {
            jwks_fault(allowed_algs, allow_hmac, max_staleness_secs)
        },
        VerificationView::OauthIntrospection {
            introspection_url,
            client_id,
            client_secret_ref,
            ..
        } => {
            if blank(introspection_url) {
                Some(VerificationFault::IntrospectionUrlEmpty)
            } else if !web_address(introspection_url) {
                Some(VerificationFault::IntrospectionUrlScheme)
            } else {
                client_fault(client_id, client_secret_ref)
            }
        },
        VerificationView::Hybrid {
            allowed_algs,
            allow_hmac,
            max_staleness_secs,
            introspection_url,
            client_id,
            client_secret_ref,
            ..
        } => {
            if jwks_fault(allowed_algs, allow_hmac, max_staleness_secs) is Some {
                jwks_fault(allowed_algs, allow_hmac, max_staleness_secs)
            } else if blank(introspection_url) {
                Some(VerificationFault::IntrospectionUrlEmpty)
            } else {
                client_fault(client_id, client_secret_ref)
            }
        },
    }
}

/// The fault that a check found.
pub open spec fn verification_failure(r: Result<(), VerificationConfigError>) -> Option<
    VerificationFault,
> {
    match r {
        Ok(_) => None,
        Err(e) => Some(e@),
    }
}

fn check_jwks(algs: &[String], allow_hmac: bool, max_staleness_secs: u64) -> (r: Result<
    (),
    VerificationConfigError,
>)
    ensures
        verification_failure(r) == jwks_fault(algs.deep_view(), allow_hmac, max_staleness_secs),
{
    if algs.len() == 0 {
        return Err(VerificationConfigError::NoAllowedAlgs);
    }
    let ghost names = algs.deep_view();
    let mut i: usize = 0;
    assert(names.skip(0) =~= names);
    while i < algs.len()
        invariant
            i <= algs@.len(),
            algs@.len() > 0,
            names == algs.deep_view(),
            first_alg_fault(names, allow_hmac) == first_alg_fault(names.skip(i as int), allow_hmac),
        decreases algs@.len() - i,
    {
        assert(names.skip(i as int)[0] == algs@[i as int]@);
        assert(names.skip(i as int).drop_first() =~= names.skip(i + 1));
        let name = algs[i].as_str();
        if let Err(e) = parse_algorithm(name) {
            return Err(VerificationConfigError::UnsupportedAlgorithm { name: e.name });
        }
        if is_hmac_alg(name) && !allow_hmac {
            return Err(VerificationConfigError::HmacWithoutOptIn { name: name.to_owned() });
        }
        i = i + 1;
    }
    if max_staleness_secs > MAX_JWKS_STALENESS_SECS {
        return Err(VerificationConfigError::StalenessTooLong { secs: max_staleness_secs });
    }
    Ok(())
}

fn check_client(client_id: &str, client_secret_ref: &str) -> (r: Result<
    (),
    VerificationConfigError,
>)
    ensures
        verification_failure(r) == client_fault(client_id@, client_secret_ref@),
{
    if is_blank(client_id) {
        return Err(VerificationConfigError::ClientIdEmpty);
    }
    if is_blank(client_secret_ref) {
        return Err(VerificationConfigError::ClientSecretRefEmpty);
    }
    Ok(())
}

impl VerificationConfig {
    /// Checks the strategy.
    pub fn validate(&self) -> (r: Result<(), VerificationConfigError>)
        ensures
            verification_failure(r) == verification_fault(self@),
    {
        match self {
            VerificationConfig::OidcJwks { allowed_algs, allow_hmac, max_staleness_secs, .. } => {
                check_jwks(allowed_algs, *allow_hmac, *max_staleness_secs)
            },
            VerificationConfig::OauthIntrospection {
                introspection_url,
                client_id,
                client_secret_ref,
                ..
            } => {
                if is_blank(introspection_url.as_str()) {
                    return Err(VerificationConfigError::IntrospectionUrlEmpty);
                }
                if !is_web_address(introspection_url.as_str()) {
                    return Err(VerificationConfigError::IntrospectionUrlScheme);
                }
                check_client(client_id.as_str(), client_secret_ref.as_str())
            },
            VerificationConfig::Hybrid {
                allowed_algs,
                allow_hmac,
                max_staleness_secs,
                introspection_url,
                client_id,
                client_secret_ref,
                ..
            } => {
                if let Err(e) = check_jwks(allowed_algs, *allow_hmac, *max_staleness_secs) {
                    return Err(e);
                }
                if is_blank(introspection_url.as_str()) {
                    return Err(VerificationConfigError::IntrospectionUrlEmpty);
                }
                check_client(client_id.as_str(), client_secret_ref.as_str())
            },
        }
    }
}

// ---------------------------------------------------------------------------
// Provider
// ---------------------------------------------------------------------------

/// One identity provider.
#[derive(Debug, PartialEq, Eq)]
pub struct OidcProviderConfig {
    pub issuer: String,
    pub discovery_uri: Option<String>,
    pub audiences: Vec<String>,
    pub verification: VerificationConfig,
    pub claim_mappings: ClaimMappingConfig,
    /// Leeway on a token's expiry and start, in SECONDS.
    pub clock_skew_secs: u64,
    /// Optional hostname allowlist for discovery and key fetches and for
    /// introspection. Empty means that only the private-range blocklist
    /// applies.
    pub allowed_issuer_hosts: Vec<String>,
    /// Dev escape hatch: permit private and loopback ranges in OIDC URLs.
    /// Production MUST leave this false.
    pub allow_private_issuer: bool,
    /// Explicit opt-in to SKIP audience (`aud`) validation. When false, an
    /// empty `audiences` is a configuration error. Production MUST leave this
    /// false and set `audiences`.
    pub allow_any_audience: bool,
}

/// What an [`OidcProviderConfig`] says.
#[verifier::ext_equal]
pub struct ProviderView {
    pub issuer: Seq<char>,
    pub discovery_uri: Option<Seq<char>>,
    pub audiences: Seq<Seq<char>>,
    pub verification: VerificationView,
    pub claim_mappings: ClaimMappingView,
    pub clock_skew_secs: u64,
    pub allowed_issuer_hosts: Seq<Seq<char>>,
    pub allow_private_issuer: bool,
    pub allow_any_audience: bool,
}

impl View for OidcProviderConfig {
    type V = ProviderView;

    open spec fn view(&self) -> ProviderView {
        ProviderView {
            issuer: self.issuer@,
            discovery_uri: self.discovery_uri.deep_view(),
            audiences: self.audiences.deep_view(),
            verification: self.verification@,
            claim_mappings: self.claim_mappings@,
            clock_skew_secs: self.clock_skew_secs,
            allowed_issuer_hosts: self.allowed_issuer_hosts.deep_view(),
            allow_private_issuer: self.allow_private_issuer,
            allow_any_audience: self.allow_any_audience,
        }
    }
}

impl ProviderView {
    /// Where the discovery document is: where the configuration says, or at
    /// the well-known place below the issuer.
    pub open spec fn effective_discovery_uri(self) -> Seq<char> {
        match self.discovery_uri {
            Some(uri) => uri,
            None => trimmed_end(self.issuer, '/') + "/.well-known/openid-configuration"@,
        }
    }
}

impl Clone for OidcProviderConfig {
    fn clone(&self) -> (r: Self)
        ensures
            r@ == self@,
    {
        OidcProviderConfig {
            issuer: self.issuer.clone(),
            discovery_uri: copy_text(&self.discovery_uri),
            audiences: copy_texts(&self.audiences),
            verification: self.verification.clone(),
            claim_mappings: self.claim_mappings.clone(),
            clock_skew_secs: self.clock_skew_secs,
            allowed_issuer_hosts: copy_texts(&self.allowed_issuer_hosts),
            allow_private_issuer: self.allow_private_issuer,
            allow_any_audience: self.allow_any_audience,
        }
    }
}

/// Leeway on a token's expiry and start, in SECONDS. 60 s absorbs normal
/// clock drift; a large value widens the replay window of a leaked token.
pub fn default_clock_skew_secs() -> (r: u64)
    ensures
        r == 60,
{
    60
}

/// What is wrong with a provider.
#[derive(Debug)]
pub enum ProviderConfigError {
    IssuerEmpty,
    IssuerScheme { issuer: String },
    DiscoveryUriScheme,
    ClockSkewTooLong { secs: u64 },
    NoAudiences,
    Verification(VerificationConfigError),
}

/// What a [`ProviderConfigError`] says.
#[verifier::ext_equal]
pub enum ProviderFault {
    IssuerEmpty,
    IssuerScheme { issuer: Seq<char> },
    DiscoveryUriScheme,
    ClockSkewTooLong { secs: u64 },
    NoAudiences,
    Verification(VerificationFault),
}

impl View for ProviderConfigError {
    type V = ProviderFault;

    open spec fn view(&self) -> ProviderFault {
        match *self {
            ProviderConfigError::IssuerEmpty => ProviderFault::IssuerEmpty,
            ProviderConfigError::IssuerScheme { issuer } => {
                ProviderFault::IssuerScheme { issuer: issuer@ }
            },
            ProviderConfigError::DiscoveryUriScheme => ProviderFault::DiscoveryUriScheme,
            ProviderConfigError::ClockSkewTooLong { secs } => ProviderFault::ClockSkewTooLong {
                secs,
            },
            ProviderConfigError::NoAudiences => ProviderFault::NoAudiences,
            ProviderConfigError::Verification(e) => ProviderFault::Verification(e@),
        }
    }
}

impl ProviderFault {
    /// The message for the operator.
    pub open spec fn message(self) -> Seq<char> {
        match self {
            ProviderFault::IssuerEmpty => "issuer must not be empty"@,
            ProviderFault::IssuerScheme { issuer } => {
                "issuer '"@ + issuer + "' must start with https:// or http://"@
            },
            ProviderFault::DiscoveryUriScheme => {
                "discovery_uri must start with https:// or http://"@
            },
            ProviderFault::ClockSkewTooLong { secs } => {
                "clock_skew_secs "@ + decimal(secs as nat) + " exceeds the maximum "@ + decimal(
                    MAX_CLOCK_SKEW_SECS as nat,
                ) + "s — a larger leeway is a token replay window, not clock-drift tolerance"@
            },
            ProviderFault::NoAudiences => {
                "audiences is empty — refusing to skip `aud` validation (a token minted for another gateway would be accepted). Set `audiences`, or for the rare provider that issues no audience claim opt in explicitly with `allow_any_audience: true`"@
            },
            ProviderFault::Verification(fault) => fault.message(),
        }
    }
}

impl ProviderConfigError {
    /// The message for the operator.
    pub fn to_string(&self) -> (r: String)
        ensures
            r@ == self@.message(),
    {
        match self {
            ProviderConfigError::IssuerEmpty => "issuer must not be empty".to_owned(),
            ProviderConfigError::IssuerScheme { issuer } => {
                let mut r = "issuer '".to_owned();
                r.append(issuer.as_str());
                r.append("' must start with https:// or http://");
                r
            },
            ProviderConfigError::DiscoveryUriScheme => {
                "discovery_uri must start with https:// or http://".to_owned()
            },
            ProviderConfigError::ClockSkewTooLong { secs } => {
                let mut r = "clock_skew_secs ".to_owned();
                r.append(decimal_text(*secs).as_str());
                r.append(" exceeds the maximum ");
                r.append(decimal_text(MAX_CLOCK_SKEW_SECS).as_str());
                r.append(
                    "s — a larger leeway is a token replay window, not clock-drift tolerance",
                );
                r
            },
            ProviderConfigError::NoAudiences => {
                "audiences is empty — refusing to skip `aud` validation (a token minted for another gateway would be accepted). Set `audiences`, or for the rare provider that issues no audience claim opt in explicitly with `allow_any_audience: true`".to_owned()
            },
            ProviderConfigError::Verification(e) => e.to_string(),
        }
    }
}

/// What is wrong with a provider; the first fault if there are several.
pub open spec fn provider_fault(p: ProviderView) -> Option<ProviderFault> {
    if blank(p.issuer) {
        Some(ProviderFault::IssuerEmpty)
    } else if !web_address(p.issuer) {
        Some(ProviderFault::IssuerScheme { issuer: p.issuer })
    } else if p.discovery_uri matches Some(uri) && !web_address(uri) {
        Some(ProviderFault::DiscoveryUriScheme)
    } else if p.clock_skew_secs > MAX_CLOCK_SKEW_SECS {
        Some(ProviderFault::ClockSkewTooLong { secs: p.clock_skew_secs })
    } else if p.audiences.len() == 0 && !p.allow_any_audience {
        Some(ProviderFault::NoAudiences)
    } else {
        match verification_fault(p.verification) {
            Some(fault) => Some(ProviderFault::Verification(fault)),
            None => None,
        }
    }
}

/// The fault that a check found.
pub open spec fn provider_failure(r: Result<(), ProviderConfigError>) -> Option<ProviderFault> {
    match r {
        Ok(_) => None,
        Err(e) => Some(e@),
    }
}

impl OidcProviderConfig {
    /// Where the discovery document is.
    pub fn effective_discovery_uri(&self) -> (r: String)
        ensures
            r@ == self@.effective_discovery_uri(),
    {
        if let Some(uri) = &self.discovery_uri {
            return uri.clone();
        }
        let mut r = trim_end(self.issuer.as_str(), '/').to_owned();
        r.append("/.well-known/openid-configuration");
        r
    }

    /// Checks the provider.
    pub fn validate(&self) -> (r: Result<(), ProviderConfigError>)
        ensures
            provider_failure(r) == provider_fault(self@),
    {
        if is_blank(self.issuer.as_str()) {
            return Err(ProviderConfigError::IssuerEmpty);
        }
        if !is_web_address(self.issuer.as_str()) {
            return Err(ProviderConfigError::IssuerScheme { issuer: self.issuer.clone() });
        }
        if let Some(uri) = &self.discovery_uri {
            if !is_web_address(uri.as_str()) {
                return Err(ProviderConfigError::DiscoveryUriScheme);
            }
        }
        if self.clock_skew_secs > MAX_CLOCK_SKEW_SECS {
            return Err(ProviderConfigError::ClockSkewTooLong { secs: self.clock_skew_secs });
        }
        if self.audiences.len() == 0 && !self.allow_any_audience {
            return Err(ProviderConfigError::NoAudiences);
        }
        match self.verification.validate() {
            Ok(_) => Ok(()),
            Err(e) => Err(ProviderConfigError::Verification(e)),
        }
    }
}

// ---------------------------------------------------------------------------
// The whole configuration
// ---------------------------------------------------------------------------

/// Where tokens come from, and the providers that may have issued them.
#[derive(Debug, PartialEq, Eq)]
pub struct OidcOAuthConfig {
    pub token_source: TokenSourceConfig,
    /// One or more identity providers.
    pub providers: Vec<OidcProviderConfig>,
}

/// What an [`OidcOAuthConfig`] says.
#[verifier::ext_equal]
pub struct ConfigView {
    pub token_source: TokenSourceView,
    pub providers: Seq<ProviderView>,
}

/// What a list of provider configurations says.
pub open spec fn provider_views(providers: Seq<OidcProviderConfig>) -> Seq<ProviderView> {
    providers.map_values(|p: OidcProviderConfig| p@)
}

impl View for OidcOAuthConfig {
    type V = ConfigView;

    open spec fn view(&self) -> ConfigView {
        ConfigView {
            token_source: self.token_source@,
            providers: provider_views(self.providers@),
        }
    }
}

impl Clone for OidcOAuthConfig {
    fn clone(&self) -> (r: Self)
        ensures
            r@ == self@,
    {
        let mut providers: Vec<OidcProviderConfig> = Vec::new();
        let mut i: usize = 0;
        while i < self.providers.len()
            invariant
                i <= self.providers@.len(),
                providers@.len() == i,
                forall|j: int| 0 <= j < i ==> (#[trigger] providers@[j])@ == self.providers@[j]@,
            decreases self.providers@.len() - i,
        {
            providers.push(self.providers[i].clone());
            i = i + 1;
        }
        assert(provider_views(providers@) =~= provider_views(self.providers@));
        OidcOAuthConfig { token_source: self.token_source.clone(), providers }
    }
}

/// What is wrong with a configuration.
#[derive(Debug)]
pub enum OidcConfigError {
    NoProviders,
    Provider { index: usize, error: ProviderConfigError },
    DuplicateIssuer { issuer: String },
}

/// What an [`OidcConfigError`] says.
#[verifier::ext_equal]
pub enum ConfigFault {
    NoProviders,
    Provider { index: nat, fault: ProviderFault },
    DuplicateIssuer { issuer: Seq<char> },
}

impl View for OidcConfigError {
    type V = ConfigFault;

    open spec fn view(&self) -> ConfigFault {
        match *self {
            OidcConfigError::NoProviders => ConfigFault::NoProviders,
            OidcConfigError::Provider { index, error } => {
                ConfigFault::Provider { index: index as nat, fault: error@ }
            },
            OidcConfigError::DuplicateIssuer { issuer } => {
                ConfigFault::DuplicateIssuer { issuer: issuer@ }
            },
        }
    }
}

impl ConfigFault {
    /// The message for the operator; of a faulty provider only which one it
    /// is.
    pub open spec fn message(self) -> Seq<char> {
        match self {
            ConfigFault::NoProviders => "oidc_oauth.providers must have at least one provider"@,
            ConfigFault::Provider { index, .. } => {
                "oidc_oauth.providers["@ + decimal(index) + "]"@
            },
            ConfigFault::DuplicateIssuer { issuer } => {
                "oidc_oauth.providers: duplicate issuer '"@ + issuer + "'"@
            },
        }
    }
}

impl OidcConfigError {
    /// The message for the operator; of a faulty provider only which one it
    /// is.
    pub fn to_string(&self) -> (r: String)
        ensures
            r@ == self@.message(),
    {
        match self {
            OidcConfigError::NoProviders => {
                "oidc_oauth.providers must have at least one provider".to_owned()
            },
            OidcConfigError::Provider { index, .. } => {
                let mut r = "oidc_oauth.providers[".to_owned();
                r.append(decimal_text(*index as u64).as_str());
                r.append("]");
                r
            },
            OidcConfigError::DuplicateIssuer { issuer } => {
                let mut r = "oidc_oauth.providers: duplicate issuer '".to_owned();
                r.append(issuer.as_str());
                r.append("'");
                r
            },
        }
    }
}

/// The first faulty provider, counting from `from`.
pub open spec fn first_provider_fault(providers: Seq<ProviderView>, from: nat) -> Option<
    ConfigFault,
>
    decreases providers.len(),
{
    if providers.len() == 0 {
        None
    } else {
        match provider_fault(providers[0]) {
            Some(fault) => Some(ConfigFault::Provider { index: from, fault }),
            None => first_provider_fault(providers.drop_first(), from + 1),
        }
    }
}

/// The issuers of a list of providers.
pub open spec fn issuers_of(providers: Seq<ProviderView>) -> Seq<Seq<char>> {
    providers.map_values(|p: ProviderView| p.issuer)
}

/// The first issuer that stands in a list for the second time.
pub open spec fn repeated(issuers: Seq<Seq<char>>) -> Option<Seq<char>>
    decreases issuers.len(),
{
    if issuers.len() == 0 {
        None
    } else if repeated(issuers.drop_last()) is Some {
        repeated(issuers.drop_last())
    } else if issuers.drop_last().contains(issuers.last()) {
        Some(issuers.last())
    } else {
        None
    }
}

/// What is wrong with a configuration; the first fault if there are several.
pub open spec fn config_fault(c: ConfigView) -> Option<ConfigFault> {
    if c.providers.len() == 0 {
        Some(ConfigFault::NoProviders)
    } else if first_provider_fault(c.providers, 0) is Some {
        first_provider_fault(c.providers, 0)
    } else {
        match repeated(issuers_of(c.providers)) {
            Some(issuer) => Some(ConfigFault::DuplicateIssuer { issuer }),
            None => None,
        }
    }
}

/// The fault that a check found.
pub open spec fn config_failure(r: Result<(), OidcConfigError>) -> Option<ConfigFault> {
    match r {
        Ok(_) => None,
        Err(e) => Some(e@),
    }
}

/// A prefix repeats an issuer where the whole list does, if it does.
proof fn lemma_repeated_in_prefix(issuers: Seq<Seq<char>>, k: int)
    requires
        0 <= k <= issuers.len(),
        repeated(issuers.take(k)) is Some,
    ensures
        repeated(issuers) == repeated(issuers.take(k)),
    decreases issuers.len() - k,
{
    if k == issuers.len() {
        assert(issuers.take(k) =~= issuers);
    } else {
        assert(issuers.take(k + 1).drop_last() =~= issuers.take(k));
        lemma_repeated_in_prefix(issuers, k + 1);
    }
}

/// Whether one of the first `n` providers has that issuer.
fn issuer_among(providers: &[OidcProviderConfig], n: usize, issuer: &str) -> (r: bool)
    requires
        n <= providers@.len(),
    ensures
        r == issuers_of(provider_views(providers@)).take(n as int).contains(issuer@),
{
    let ghost issuers = issuers_of(provider_views(providers@)).take(n as int);
    let mut i: usize = 0;
    while i < n
        invariant
            i <= n <= providers@.len(),
            issuers == issuers_of(provider_views(providers@)).take(n as int),
            forall|j: int| 0 <= j < i ==> issuers[j] != issuer@,
        decreases n - i,
    {
        assert(issuers[i as int] == providers@[i as int].issuer@);
        if same_text(providers[i].issuer.as_str(), issuer) {
            return true;
        }
        i = i + 1;
    }
    false
}

impl OidcOAuthConfig {
    /// Checks the configuration.
    pub fn validate(&self) -> (r: Result<(), OidcConfigError>)
        ensures
            config_failure(r) == config_fault(self@),
    {
        if self.providers.len() == 0 {
            return Err(OidcConfigError::NoProviders);
        }
        let ghost all = self@.providers;
        let ghost issuers = issuers_of(all);
        let mut i: usize = 0;
        assert(all.skip(0) =~= all);
        while i < self.providers.len()
            invariant
                i <= self.providers@.len(),
                self.providers@.len() > 0,
                all == self@.providers,
                first_provider_fault(all, 0) == first_provider_fault(all.skip(i as int), i as nat),
            decreases self.providers@.len() - i,
        {
            assert(all.skip(i as int)[0] == self.providers@[i as int]@);
            assert(all.skip(i as int).drop_first() =~= all.skip(i + 1));
            if let Err(error) = self.providers[i].validate() {
                return Err(OidcConfigError::Provider { index: i, error });
            }
            i = i + 1;
        }
        let mut k: usize = 0;
        while k < self.providers.len()
            invariant
                k <= self.providers@.len(),
                self.providers@.len() > 0,
                all == self@.providers,
                issuers == issuers_of(all),
                first_provider_fault(all, 0) is None,
                repeated(issuers.take(k as int)) is None,
            decreases self.providers@.len() - k,
        {
            proof {
                assert(issuers.take(k + 1).drop_last() =~= issuers.take(k as int));
                assert(issuers.take(k + 1).last() == self.providers@[k as int].issuer@);
            }
            let issuer = self.providers[k].issuer.as_str();
            if issuer_among(&self.providers, k, issuer) {
                proof {
                    lemma_repeated_in_prefix(issuers, k + 1);
                }
                return Err(OidcConfigError::DuplicateIssuer { issuer: issuer.to_owned() });
            }
            k = k + 1;
        }
        assert(issuers.take(k as int) =~= issuers);
        Ok(())
    }
}

// ---------------------------------------------------------------------------
// What validity means
// ---------------------------------------------------------------------------

proof fn lemma_no_alg_fault(algs: Seq<Seq<char>>, allow_hmac: bool, i: int)
    requires
        first_alg_fault(algs, allow_hmac) is None,
        0 <= i < algs.len(),
    ensures
        alg_fault(algs[i], allow_hmac) is None,
    decreases algs.len(),
{
    if i > 0 {
        lemma_no_alg_fault(algs.drop_first(), allow_hmac, i - 1);
        assert(algs.drop_first()[i - 1] == algs[i]);
    }
}

/// Whether a strategy opts in to HMAC algorithms.
pub open spec fn hmac_opt_in(v: VerificationView) -> bool {
    match v {
        VerificationView::OidcJwks { allow_hmac, .. } => allow_hmac,
        VerificationView::Hybrid { allow_hmac, .. } => allow_hmac,
        VerificationView::OauthIntrospection { .. } => false,
    }
}

/// Where keys verify tokens, a valid strategy allows at least one algorithm,
/// only algorithms that exist, and HMAC algorithms only after an opt-in; and
/// it serves stale keys for a day at most.
pub proof fn valid_jwks_strategy(v: VerificationView)
    requires
        verification_fault(v) is None,
        !(v is OauthIntrospection),
    ensures
        v.algs().len() > 0,
        forall|i: int|
            0 <= i < v.algs().len() ==> algorithm_named(#[trigger] v.algs()[i]) is Some && (
            hmac_name(v.algs()[i]) ==> hmac_opt_in(v)),
        v.max_staleness_secs() <= MAX_JWKS_STALENESS_SECS,
{
    assert forall|i: int| 0 <= i < v.algs().len() implies algorithm_named(#[trigger] v.algs()[i]) is Some
        && (hmac_name(v.algs()[i]) ==> hmac_opt_in(v)) by {
        lemma_no_alg_fault(v.algs(), hmac_opt_in(v), i);
    }
}

/// A valid provider is bound to its audiences unless it opted out, tolerates
/// five minutes of clock drift at most, and has an issuer that is a web
/// address.
pub proof fn valid_provider(p: ProviderView)
    requires
        provider_fault(p) is None,
    ensures
        p.audiences.len() > 0 || p.allow_any_audience,
        p.clock_skew_secs <= MAX_CLOCK_SKEW_SECS,
        !blank(p.issuer),
        web_address(p.issuer),
        p.discovery_uri matches Some(uri) ==> web_address(uri),
        verification_fault(p.verification) is None,
{
}

proof fn lemma_no_provider_fault(providers: Seq<ProviderView>, from: nat, i: int)
    requires
        first_provider_fault(providers, from) is None,
        0 <= i < providers.len(),
    ensures
        provider_fault(providers[i]) is None,
    decreases providers.len(),
{
    if i > 0 {
        lemma_no_provider_fault(providers.drop_first(), from + 1, i - 1);
        assert(providers.drop_first()[i - 1] == providers[i]);
    }
}

proof fn lemma_nothing_repeated(issuers: Seq<Seq<char>>, i: int, j: int)
    requires
        repeated(issuers) is None,
        0 <= i < j < issuers.len(),
    ensures
        issuers[i] != issuers[j],
    decreases issuers.len(),
{
    let init = issuers.drop_last();
    if j < init.len() {
        lemma_nothing_repeated(init, i, j);
    } else {
        assert(init[i] == issuers[i]);
    }
}

/// A valid configuration has a provider, every provider of it is valid, and
/// no two share an issuer.
pub proof fn valid_config(c: ConfigView)
    requires
        config_fault(c) is None,
    ensures
        c.providers.len() > 0,
        forall|i: int|
            0 <= i < c.providers.len() ==> provider_fault(#[trigger] c.providers[i]) is None,
        forall|i: int, j: int|
            0 <= i < j < c.providers.len() ==> (#[trigger] c.providers[i]).issuer != (
            #[trigger] c.providers[j]).issuer,
{
    assert forall|i: int| 0 <= i < c.providers.len() implies provider_fault(
        #[trigger] c.providers[i],
    ) is None by {
        lemma_no_provider_fault(c.providers, 0, i);
    }
    assert forall|i: int, j: int| 0 <= i < j < c.providers.len() implies (
    #[trigger] c.providers[i]).issuer != (#[trigger] c.providers[j]).issuer by {
        lemma_nothing_repeated(issuers_of(c.providers), i, j);
    }
}

/// A configuration is seen as it is written, field by field.
pub proof fn configurations_are_seen_as_written(
    source: TokenSourceConfig,
    mappings: ClaimMappingConfig,
    v: VerificationConfig,
    p: OidcProviderConfig,
    c: OidcOAuthConfig,
)
    ensures
        source@.kind == source.kind,
        source@.header_name == source.header_name.deep_view(),
        source@.header_prefix == source.header_prefix.deep_view(),
        mappings@.subject_claim == mappings.subject_claim@,
        mappings@.group_claim_paths == mappings.group_claim_paths.deep_view(),
        mappings@.role_claim_paths == mappings.role_claim_paths.deep_view(),
        mappings@.scope_claim_paths == mappings.scope_claim_paths.deep_view(),
        mappings@.attribute_claim_mappings == mappings.attribute_claim_mappings.entries(),
        v matches VerificationConfig::OidcJwks {
            allowed_algs,
            refresh_interval_secs,
            timeout_ms,
            max_staleness_secs,
            allow_hmac,
        } ==> v@ == (VerificationView::OidcJwks {
            allowed_algs: allowed_algs.deep_view(),
            refresh_interval_secs,
            timeout_ms,
            max_staleness_secs,
            allow_hmac,
        }),
        v matches VerificationConfig::OauthIntrospection {
            introspection_url,
            client_id,
            client_secret_ref,
            timeout_ms,
        } ==> v@ == (VerificationView::OauthIntrospection {
            introspection_url: introspection_url@,
            client_id: client_id@,
            client_secret_ref: client_secret_ref@,
            timeout_ms,
        }),
        v matches VerificationConfig::Hybrid {
            allowed_algs,
            refresh_interval_secs,
            timeout_ms,
            max_staleness_secs,
            introspection_url,
            client_id,
            client_secret_ref,
            introspection_timeout_ms,
            allow_hmac,
        } ==> v@ == (VerificationView::Hybrid {
            allowed_algs: allowed_algs.deep_view(),
            refresh_interval_secs,
            timeout_ms,
            max_staleness_secs,
            introspection_url: introspection_url@,
            client_id: client_id@,
            client_secret_ref: client_secret_ref@,
            introspection_timeout_ms,
            allow_hmac,
        }),
        p@.issuer == p.issuer@,
        p@.discovery_uri == p.discovery_uri.deep_view(),
        p@.audiences == p.audiences.deep_view(),
        p@.verification == p.verification@,
        p@.claim_mappings == p.claim_mappings@,
        p@.clock_skew_secs == p.clock_skew_secs,
        p@.allowed_issuer_hosts == p.allowed_issuer_hosts.deep_view(),
        p@.allow_private_issuer == p.allow_private_issuer,
        p@.allow_any_audience == p.allow_any_audience,
        c@.token_source == c.token_source@,
        c@.providers.len() == c.providers@.len(),
        forall|i: int|
            0 <= i < c.providers@.len() ==> (#[trigger] c@.providers[i]) == c.providers@[i]@,
{
}

/// A strategy goes by what it is configured with: its algorithms, how often
/// keys are fetched anew, how long stale ones are served, and how long
/// requests may take.
pub proof fn strategies_go_by_their_settings(v: VerificationView)
    ensures
        v matches VerificationView::OidcJwks {
            allowed_algs,
            refresh_interval_secs,
            timeout_ms,
            max_staleness_secs,
            allow_hmac,
        } ==> v.algs() == allowed_algs && v.refresh_interval_secs() == refresh_interval_secs
            && v.jwks_timeout_ms() == timeout_ms && v.max_staleness_secs() == max_staleness_secs
            && hmac_opt_in(v) == allow_hmac,
        v matches VerificationView::Hybrid {
            allowed_algs,
            refresh_interval_secs,
            timeout_ms,
            max_staleness_secs,
            introspection_timeout_ms,
            allow_hmac,
            ..
        } ==> v.algs() == allowed_algs && v.refresh_interval_secs() == refresh_interval_secs
            && v.jwks_timeout_ms() == timeout_ms && v.max_staleness_secs() == max_staleness_secs
            && v.introspection_timeout_ms() == introspection_timeout_ms && hmac_opt_in(v)
            == allow_hmac,
        v matches VerificationView::OauthIntrospection { timeout_ms, .. }
            ==> v.introspection_timeout_ms() == timeout_ms && v.algs().len() == 0 && !hmac_opt_in(
            v,
        ),
{
}

/// Where tokens are looked for by a source: a custom one names its own header,
/// every other reads `authorization`.
pub proof fn sources_read_their_header(source: TokenSourceView)
    ensures
        source.kind is AuthorizationBearer ==> source.effective_header_name() == "authorization"@,
        source.kind is CustomHeader ==> source.effective_header_name() == (
        match source.header_name {
            Some(name) => name,
            None => "authorization"@,
        }),
        source.header_prefix matches Some(prefix) ==> source.effective_header_prefix() == prefix,
        source.header_prefix is None && source.kind is AuthorizationBearer
            ==> source.effective_header_prefix() == "Bearer "@,
        source.header_prefix is None && source.kind is CustomHeader
            ==> source.effective_header_prefix().len() == 0,
{
    reveal_strlit("");
}

/// The discovery document is where the configuration says; where it says
/// nothing, it is at the well-known place below the issuer, however many
/// slashes the issuer ends in.
pub proof fn documents_are_below_the_issuer(p: ProviderView, base: Seq<char>, slashes: nat)
    ensures
        p.discovery_uri matches Some(uri) ==> p.effective_discovery_uri() == uri,
        p.discovery_uri is None && (base.len() > 0 ==> base.last() != '/') && p.issuer == base
            + Seq::new(slashes, |i: int| '/') ==> p.effective_discovery_uri() == base
            + "/.well-known/openid-configuration"@,
{
    if p.issuer == base + Seq::new(slashes, |i: int| '/') && (base.len() > 0 ==> base.last()
        != '/') {
        trimming_takes_the_whole_run(p.issuer, '/');
        let kept = trimmed_end(p.issuer, '/');
        if kept.len() < base.len() {
            assert(p.issuer[base.len() - 1] == base.last());
        } else if kept.len() > base.len() {
            assert(kept.last() == p.issuer[kept.len() - 1]);
        }
        assert(kept =~= base);
    }
}

/// Whether a text begins with `https://` or `http://`.
pub open spec fn begins_like_a_web_address(s: Seq<char>) -> bool {
    ||| exists|rest: Seq<char>| s == #[trigger] ("https://"@ + rest)
    ||| exists|rest: Seq<char>| s == #[trigger] ("http://"@ + rest)
}

/// Web addresses are the texts that begin so.
pub proof fn web_addresses_begin_with_their_scheme(s: Seq<char>)
    ensures
        web_address(s) <==> begins_like_a_web_address(s),
{
    if "https://"@.is_prefix_of(s) {
        assert(s =~= "https://"@ + s.skip("https://"@.len() as int));
    }
    if "http://"@.is_prefix_of(s) {
        assert(s =~= "http://"@ + s.skip("http://"@.len() as int));
    }
    if exists|rest: Seq<char>| s == #[trigger] ("https://"@ + rest) {
        let rest = choose|rest: Seq<char>| s == #[trigger] ("https://"@ + rest);
        assert(s.subrange(0, "https://"@.len() as int) =~= "https://"@);
    }
    if exists|rest: Seq<char>| s == #[trigger] ("http://"@ + rest) {
        let rest = choose|rest: Seq<char>| s == #[trigger] ("http://"@ + rest);
        assert(s.subrange(0, "http://"@.len() as int) =~= "http://"@);
    }
}

/// Whether a list of algorithms and a staleness are fit for verifying tokens
/// with keys: there are algorithms, each is the name of one, those that begin
/// with `HS` are opted in to, and stale keys are served for a day at most.
pub open spec fn fit_for_keys(
    algs: Seq<Seq<char>>,
    allow_hmac: bool,
    max_staleness_secs: u64,
) -> bool {
    &&& algs.len() > 0
    &&& forall|i: int|
        0 <= i < algs.len() ==> algorithm_named(#[trigger] algs[i]) is Some && (algs[i] == "HS256"@
            || algs[i] == "HS384"@ || algs[i] == "HS512"@ ==> allow_hmac)
    &&& max_staleness_secs <= 86_400
}

/// A strategy is accepted exactly where what it needs is there: for keys, fit
/// settings; for introspection, an address and credentials that are not blank,
/// and of an address that stands alone that it is one of the web.
pub proof fn sound_strategies_are_accepted(v: VerificationView)
    ensures
        verification_fault(v) is None <==> (match v {
            VerificationView::OidcJwks { allowed_algs, allow_hmac, max_staleness_secs, .. } => {
                fit_for_keys(allowed_algs, allow_hmac, max_staleness_secs)
            },
            VerificationView::OauthIntrospection {
                introspection_url,
                client_id,
                client_secret_ref,
                ..
            } => begins_like_a_web_address(introspection_url) && words(introspection_url).len() > 0
                && words(client_id).len() > 0 && words(client_secret_ref).len() > 0,
            VerificationView::Hybrid {
                allowed_algs,
                allow_hmac,
                max_staleness_secs,
                introspection_url,
                client_id,
                client_secret_ref,
                ..
            } => fit_for_keys(allowed_algs, allow_hmac, max_staleness_secs) && words(
                introspection_url,
            ).len() > 0 && words(client_id).len() > 0 && words(client_secret_ref).len() > 0,
        }),
{
    match v {
        VerificationView::OidcJwks { allowed_algs, allow_hmac, .. } => {
            lemma_alg_faults(allowed_algs, allow_hmac);
        },
        VerificationView::OauthIntrospection {
            introspection_url,
            client_id,
            client_secret_ref,
            ..
        } => {
            web_addresses_begin_with_their_scheme(introspection_url);
            blank_texts_have_no_words(introspection_url);
            blank_texts_have_no_words(client_id);
            blank_texts_have_no_words(client_secret_ref);
        },
        VerificationView::Hybrid {
            allowed_algs,
            allow_hmac,
            introspection_url,
            client_id,
            client_secret_ref,
            ..
        } => {
            lemma_alg_faults(allowed_algs, allow_hmac);
            blank_texts_have_no_words(introspection_url);
            blank_texts_have_no_words(client_id);
            blank_texts_have_no_words(client_secret_ref);
        },
    }
}

/// No algorithm is at fault exactly where each is not.
proof fn lemma_alg_faults(algs: Seq<Seq<char>>, allow_hmac: bool)
    ensures
        first_alg_fault(algs, allow_hmac) is None <==> forall|i: int|
            0 <= i < algs.len() ==> algorithm_named(#[trigger] algs[i]) is Some && (algs[i]
                == "HS256"@ || algs[i] == "HS384"@ || algs[i] == "HS512"@ ==> allow_hmac),
    decreases algs.len(),
{
    if algs.len() > 0 {
        let rest = algs.drop_first();
        lemma_alg_faults(rest, allow_hmac);
        if first_alg_fault(algs, allow_hmac) is None {
            assert forall|i: int| 0 <= i < algs.len() implies algorithm_named(#[trigger] algs[i])
                is Some && (algs[i] == "HS256"@ || algs[i] == "HS384"@ || algs[i] == "HS512"@
                ==> allow_hmac) by {
                lemma_no_alg_fault(algs, allow_hmac, i);
            }
        }
        if forall|i: int|
            0 <= i < algs.len() ==> algorithm_named(#[trigger] algs[i]) is Some && (algs[i]
                == "HS256"@ || algs[i] == "HS384"@ || algs[i] == "HS512"@ ==> allow_hmac) {
            assert(algorithm_named(algs[0]) is Some);
            assert forall|i: int| 0 <= i < rest.len() implies algorithm_named(#[trigger] rest[i])
                is Some && (rest[i] == "HS256"@ || rest[i] == "HS384"@ || rest[i] == "HS512"@
                ==> allow_hmac) by {
                assert(rest[i] == algs[i + 1]);
            }
        }
    }
}

/// A provider is accepted exactly where its issuer, and the place of its
/// document if it has one, begin like web addresses, the clock may be off by
/// five minutes at most, it names audiences or opts out of them, and its
/// strategy is accepted.
pub proof fn sound_providers_are_accepted(p: ProviderView)
    ensures
        provider_fault(p) is None <==> ({
            &&& words(p.issuer).len() > 0
            &&& begins_like_a_web_address(p.issuer)
            &&& p.discovery_uri matches Some(uri) ==> begins_like_a_web_address(uri)
            &&& p.clock_skew_secs <= 300
            &&& p.audiences.len() > 0 || p.allow_any_audience
            &&& verification_fault(p.verification) is None
        }),
{
    blank_texts_have_no_words(p.issuer);
    web_addresses_begin_with_their_scheme(p.issuer);
    if let Some(uri) = p.discovery_uri {
        web_addresses_begin_with_their_scheme(uri);
    }
}

/// A configuration is accepted exactly where it has a provider, each of them
/// is accepted, and no two share an issuer.
pub proof fn sound_configurations_are_accepted(c: ConfigView)
    ensures
        config_fault(c) is None <==> ({
            &&& c.providers.len() > 0
            &&& forall|i: int|
                0 <= i < c.providers.len() ==> provider_fault(#[trigger] c.providers[i]) is None
            &&& forall|i: int, j: int|
                0 <= i < j < c.providers.len() ==> (#[trigger] c.providers[i]).issuer != (
                #[trigger] c.providers[j]).issuer
        }),
{
    if config_fault(c) is None {
        valid_config(c);
    }
    if forall|i: int|
        0 <= i < c.providers.len() ==> provider_fault(#[trigger] c.providers[i]) is None {
        lemma_no_faulty_provider(c.providers, 0);
    }
    if forall|i: int, j: int|
        0 <= i < j < c.providers.len() ==> (#[trigger] c.providers[i]).issuer != (
        #[trigger] c.providers[j]).issuer {
        let issuers = issuers_of(c.providers);
        assert forall|i: int, j: int| 0 <= i < j < issuers.len() implies #[trigger] issuers[i]
            != #[trigger] issuers[j] by {
            assert(c.providers[i].issuer != c.providers[j].issuer);
        }
        lemma_none_repeated(issuers);
    }
}

proof fn lemma_no_faulty_provider(providers: Seq<ProviderView>, from: nat)
    requires
        forall|i: int|
            0 <= i < providers.len() ==> provider_fault(#[trigger] providers[i]) is None,
    ensures
        first_provider_fault(providers, from) is None,
    decreases providers.len(),
{
    if providers.len() > 0 {
        let rest = providers.drop_first();
        assert(provider_fault(providers[0]) is None);
        assert forall|i: int| 0 <= i < rest.len() implies provider_fault(#[trigger] rest[i])
            is None by {
            assert(rest[i] == providers[i + 1]);
        }
        lemma_no_faulty_provider(rest, from + 1);
    }
}

proof fn lemma_none_repeated(issuers: Seq<Seq<char>>)
    requires
        forall|i: int, j: int|
            0 <= i < j < issuers.len() ==> #[trigger] issuers[i] != #[trigger] issuers[j],
    ensures
        repeated(issuers) is None,
    decreases issuers.len(),
{
    if issuers.len() > 0 {
        let init = issuers.drop_last();
        assert forall|i: int, j: int| 0 <= i < j < init.len() implies #[trigger] init[i]
            != #[trigger] init[j] by {
            assert(issuers[i] != issuers[j]);
        }
        lemma_none_repeated(init);
        if init.contains(issuers.last()) {
            let i = choose|i: int| 0 <= i < init.len() && init[i] == issuers.last();
            assert(issuers[i] != issuers[issuers.len() - 1]);
        }
    }
}

/// A fault names what is at fault: the provider at its place, of those before
/// it none is; an issuer that two providers share; an algorithm of the list
/// that no algorithm goes by, or one that is not opted in to; the number that
/// is too large.
pub proof fn configuration_faults_name_their_cause(c: ConfigView, p: ProviderView)
    ensures
        config_fault(c) matches Some(ConfigFault::Provider { index, fault }) ==> index
            < c.providers.len() && provider_fault(c.providers[index as int]) == Some(fault)
            && forall|i: int|
            0 <= i < index ==> provider_fault(#[trigger] c.providers[i]) is None,
        config_fault(c) matches Some(ConfigFault::DuplicateIssuer { issuer }) ==> exists|
            i: int,
            j: int,
        |
            0 <= i < j < c.providers.len() && (#[trigger] c.providers[i]).issuer == issuer && (
            #[trigger] c.providers[j]).issuer == issuer,
        config_fault(c) matches Some(ConfigFault::NoProviders) <==> c.providers.len() == 0,
        match provider_fault(p) {
            None => true,
            Some(ProviderFault::IssuerEmpty) => words(p.issuer).len() == 0,
            Some(ProviderFault::IssuerScheme { issuer }) => issuer == p.issuer
                && !begins_like_a_web_address(issuer),
            Some(ProviderFault::DiscoveryUriScheme) => p.discovery_uri matches Some(uri)
                && !begins_like_a_web_address(uri),
            Some(ProviderFault::ClockSkewTooLong { secs }) => secs == p.clock_skew_secs && secs
                > 300,
            Some(ProviderFault::NoAudiences) => p.audiences.len() == 0 && !p.allow_any_audience,
            Some(ProviderFault::Verification(fault)) => verification_fault(p.verification) == Some(
                fault,
            ),
        },
        match verification_fault(p.verification) {
            None => true,
            Some(VerificationFault::NoAllowedAlgs) => p.verification.algs().len() == 0 && !(
            p.verification is OauthIntrospection),
            Some(VerificationFault::UnsupportedAlgorithm { name }) => p.verification.algs().contains(
                name,
            ) && algorithm_named(name) is None,
            Some(VerificationFault::HmacWithoutOptIn { name }) => p.verification.algs().contains(
                name,
            ) && (name == "HS256"@ || name == "HS384"@ || name == "HS512"@) && !hmac_opt_in(
                p.verification,
            ),
            Some(VerificationFault::StalenessTooLong { secs }) => secs
                == p.verification.max_staleness_secs() && secs > 86_400,
            Some(VerificationFault::IntrospectionUrlEmpty) => match p.verification {
                VerificationView::OauthIntrospection { introspection_url, .. } => words(
                    introspection_url,
                ).len() == 0,
                VerificationView::Hybrid { introspection_url, .. } => words(introspection_url).len()
                    == 0,
                _ => false,
            },
            Some(VerificationFault::IntrospectionUrlScheme) => p.verification
                matches VerificationView::OauthIntrospection { introspection_url, .. }
                && !begins_like_a_web_address(introspection_url),
            Some(VerificationFault::ClientIdEmpty) => match p.verification {
                VerificationView::OauthIntrospection { client_id, .. } => words(client_id).len()
                    == 0,
                VerificationView::Hybrid { client_id, .. } => words(client_id).len() == 0,
                _ => false,
            },
            Some(VerificationFault::ClientSecretRefEmpty) => match p.verification {
                VerificationView::OauthIntrospection { client_secret_ref, .. } => words(
                    client_secret_ref,
                ).len() == 0,
                VerificationView::Hybrid { client_secret_ref, .. } => words(client_secret_ref).len()
                    == 0,
                _ => false,
            },
        },
{
    if c.providers.len() > 0 {
        lemma_first_faulty_provider(c.providers, 0);
        if repeated(issuers_of(c.providers)) is Some {
            let (i, j) = lemma_repeated_twice(issuers_of(c.providers));
            assert(c.providers[i].issuer == c.providers[j].issuer);
        }
    }
    blank_texts_have_no_words(p.issuer);
    web_addresses_begin_with_their_scheme(p.issuer);
    if let Some(uri) = p.discovery_uri {
        web_addresses_begin_with_their_scheme(uri);
    }
    lemma_first_faulty_alg(p.verification.algs(), hmac_opt_in(p.verification));
    match p.verification {
        VerificationView::OauthIntrospection {
            introspection_url,
            client_id,
            client_secret_ref,
            ..
        } => {
            web_addresses_begin_with_their_scheme(introspection_url);
            blank_texts_have_no_words(introspection_url);
            blank_texts_have_no_words(client_id);
            blank_texts_have_no_words(client_secret_ref);
        },
        VerificationView::Hybrid { introspection_url, client_id, client_secret_ref, .. } => {
            blank_texts_have_no_words(introspection_url);
            blank_texts_have_no_words(client_id);
            blank_texts_have_no_words(client_secret_ref);
        },
        VerificationView::OidcJwks { .. } => {},
    }
}

proof fn lemma_first_faulty_provider(providers: Seq<ProviderView>, from: nat)
    ensures
        match first_provider_fault(providers, from) {
            None => true,
            Some(ConfigFault::Provider { index, fault }) => from <= index < from + providers.len()
                && provider_fault(providers[index - from]) == Some(fault) && forall|i: int|
                0 <= i < index - from ==> provider_fault(#[trigger] providers[i]) is None,
            Some(_) => false,
        },
    decreases providers.len(),
{
    if providers.len() > 0 {
        let rest = providers.drop_first();
        lemma_first_faulty_provider(rest, from + 1);
        if provider_fault(providers[0]) is None {
            if let Some(ConfigFault::Provider { index, fault }) = first_provider_fault(
                rest,
                from + 1,
            ) {
                assert(rest[index - from - 1] == providers[index - from]);
                assert forall|i: int| 0 <= i < index - from implies provider_fault(
                    #[trigger] providers[i],
                ) is None by {
                    if i > 0 {
                        assert(rest[i - 1] == providers[i]);
                    }
                }
            }
        }
    }
}

proof fn lemma_repeated_twice(issuers: Seq<Seq<char>>) -> (r: (int, int))
    requires
        repeated(issuers) is Some,
    ensures
        0 <= r.0 < r.1 < issuers.len(),
        issuers[r.0] == repeated(issuers).unwrap(),
        issuers[r.1] == repeated(issuers).unwrap(),
    decreases issuers.len(),
{
    let init = issuers.drop_last();
    if repeated(init) is Some {
        lemma_repeated_twice(init)
    } else {
        let i = choose|i: int| 0 <= i < init.len() && init[i] == issuers.last();
        (i, issuers.len() - 1)
    }
}

proof fn lemma_first_faulty_alg(algs: Seq<Seq<char>>, allow_hmac: bool)
    ensures
        match first_alg_fault(algs, allow_hmac) {
            None => true,
            Some(VerificationFault::UnsupportedAlgorithm { name }) => algs.contains(name)
                && algorithm_named(name) is None,
            Some(VerificationFault::HmacWithoutOptIn { name }) => algs.contains(name) && (name
                == "HS256"@ || name == "HS384"@ || name == "HS512"@) && !allow_hmac,
            Some(_) => false,
        },
    decreases algs.len(),
{
    if algs.len() > 0 {
        let rest = algs.drop_first();
        lemma_first_faulty_alg(rest, allow_hmac);
        assert(algs.contains(algs[0]));
        assert forall|name: Seq<char>| rest.contains(name) implies algs.contains(name) by {
            let i = choose|i: int| 0 <= i < rest.len() && rest[i] == name;
            assert(algs[i + 1] == name);
        }
    }
}

/// Of several faults the first is told: those of a provider come in the order
/// issuer, place of the document, clock skew, audiences, strategy, and a fault
/// of one means that there is none of those before it.
pub proof fn provider_faults_come_in_order(p: ProviderView)
    ensures
        ({
            let named = words(p.issuer).len() > 0;
            let placed = named && begins_like_a_web_address(p.issuer);
            let found = placed && (p.discovery_uri matches Some(uri) ==> begins_like_a_web_address(
                uri,
            ));
            let timed = found && p.clock_skew_secs <= 300;
            let bound = timed && (p.audiences.len() > 0 || p.allow_any_audience);
            match provider_fault(p) {
                Some(ProviderFault::IssuerEmpty) => !named,
                Some(ProviderFault::IssuerScheme { .. }) => named && !placed,
                Some(ProviderFault::DiscoveryUriScheme) => placed && !found,
                Some(ProviderFault::ClockSkewTooLong { .. }) => found && !timed,
                Some(ProviderFault::NoAudiences) => timed && !bound,
                Some(ProviderFault::Verification(_)) => bound,
                None => bound,
            }
        }),
{
    blank_texts_have_no_words(p.issuer);
    web_addresses_begin_with_their_scheme(p.issuer);
    if let Some(uri) = p.discovery_uri {
        web_addresses_begin_with_their_scheme(uri);
    }
}

/// Whether a name may stand on the list of a strategy.
pub open spec fn may_be_listed(name: Seq<char>, allow_hmac: bool) -> bool {
    algorithm_named(name) is Some && (name == "HS256"@ || name == "HS384"@ || name == "HS512"@
        ==> allow_hmac)
}

/// Whether a fault is of the first name of a list that may not stand there.
pub open spec fn of_the_first_bad_name(
    algs: Seq<Seq<char>>,
    allow_hmac: bool,
    name: Seq<char>,
) -> bool {
    exists|i: int|
        0 <= i < algs.len() && #[trigger] algs[i] == name && !may_be_listed(name, allow_hmac) && (
        forall|j: int| 0 <= j < i ==> may_be_listed(#[trigger] algs[j], allow_hmac))
}

/// Of several faults of a strategy the first is told: those of the algorithms
/// in the order of the list, then that of the staleness, of the address, of
/// the client and of its secret.
pub proof fn strategy_faults_come_in_order(v: VerificationView)
    ensures
        match v {
            VerificationView::OidcJwks { allowed_algs, allow_hmac, max_staleness_secs, .. } => {
                keys_fault_in_order(
                    verification_fault(v),
                    allowed_algs,
                    allow_hmac,
                    max_staleness_secs,
                )
            },
            VerificationView::OauthIntrospection { introspection_url, client_id, .. } => {
                match verification_fault(v) {
                    Some(VerificationFault::IntrospectionUrlScheme) => words(
                        introspection_url,
                    ).len() > 0,
                    Some(VerificationFault::ClientIdEmpty) => begins_like_a_web_address(
                        introspection_url,
                    ),
                    Some(VerificationFault::ClientSecretRefEmpty) => begins_like_a_web_address(
                        introspection_url,
                    ) && words(client_id).len() > 0,
                    _ => true,
                }
            },
            VerificationView::Hybrid {
                allowed_algs,
                allow_hmac,
                max_staleness_secs,
                introspection_url,
                client_id,
                ..
            } => match verification_fault(v) {
                Some(VerificationFault::IntrospectionUrlEmpty) => fit_for_keys(
                    allowed_algs,
                    allow_hmac,
                    max_staleness_secs,
                ),
                Some(VerificationFault::ClientIdEmpty) => fit_for_keys(
                    allowed_algs,
                    allow_hmac,
                    max_staleness_secs,
                ) && words(introspection_url).len() > 0,
                Some(VerificationFault::ClientSecretRefEmpty) => fit_for_keys(
                    allowed_algs,
                    allow_hmac,
                    max_staleness_secs,
                ) && words(introspection_url).len() > 0 && words(client_id).len() > 0,
                fault => keys_fault_in_order(fault, allowed_algs, allow_hmac, max_staleness_secs),
            },
        },
{
    sound_strategies_are_accepted(v);
    match v {
        VerificationView::OidcJwks { allowed_algs, allow_hmac, .. } => {
            lemma_alg_faults(allowed_algs, allow_hmac);
            lemma_first_bad_name(allowed_algs, allow_hmac);
        },
        VerificationView::OauthIntrospection { introspection_url, client_id, .. } => {
            web_addresses_begin_with_their_scheme(introspection_url);
            blank_texts_have_no_words(introspection_url);
            blank_texts_have_no_words(client_id);
        },
        VerificationView::Hybrid {
            allowed_algs,
            allow_hmac,
            introspection_url,
            client_id,
            ..
        } => {
            lemma_alg_faults(allowed_algs, allow_hmac);
            lemma_first_bad_name(allowed_algs, allow_hmac);
            blank_texts_have_no_words(introspection_url);
            blank_texts_have_no_words(client_id);
        },
    }
}

/// Whether a fault in the settings for keys is the first of them.
pub open spec fn keys_fault_in_order(
    fault: Option<VerificationFault>,
    algs: Seq<Seq<char>>,
    allow_hmac: bool,
    max_staleness_secs: u64,
) -> bool {
    match fault {
        Some(VerificationFault::NoAllowedAlgs) => algs.len() == 0,
        Some(VerificationFault::UnsupportedAlgorithm { name }) => of_the_first_bad_name(
            algs,
            allow_hmac,
            name,
        ),
        Some(VerificationFault::HmacWithoutOptIn { name }) => of_the_first_bad_name(
            algs,
            allow_hmac,
            name,
        ),
        Some(VerificationFault::StalenessTooLong { secs }) => secs == max_staleness_secs
            && algs.len() > 0 && forall|i: int|
            0 <= i < algs.len() ==> may_be_listed(#[trigger] algs[i], allow_hmac),
        Some(_) => false,
        None => fit_for_keys(algs, allow_hmac, max_staleness_secs),
    }
}

proof fn lemma_first_bad_name(algs: Seq<Seq<char>>, allow_hmac: bool)
    ensures
        match first_alg_fault(algs, allow_hmac) {
            None => forall|i: int|
                0 <= i < algs.len() ==> may_be_listed(#[trigger] algs[i], allow_hmac),
            Some(VerificationFault::UnsupportedAlgorithm { name }) => of_the_first_bad_name(
                algs,
                allow_hmac,
                name,
            ),
            Some(VerificationFault::HmacWithoutOptIn { name }) => of_the_first_bad_name(
                algs,
                allow_hmac,
                name,
            ),
            Some(_) => false,
        },
    decreases algs.len(),
{
    if algs.len() > 0 {
        let rest = algs.drop_first();
        lemma_first_bad_name(rest, allow_hmac);
        if alg_fault(algs[0], allow_hmac) is Some {
            assert(algs[0] == algs[0] && !may_be_listed(algs[0], allow_hmac));
        } else {
            assert(may_be_listed(algs[0], allow_hmac));
            match first_alg_fault(rest, allow_hmac) {
                None => {
                    assert forall|i: int| 0 <= i < algs.len() implies may_be_listed(
                        #[trigger] algs[i],
                        allow_hmac,
                    ) by {
                        if i > 0 {
                            assert(may_be_listed(rest[i - 1], allow_hmac));
                        }
                    }
                },
                Some(VerificationFault::UnsupportedAlgorithm { name }) => {
                    lemma_bad_name_later(algs, allow_hmac, name);
                },
                Some(VerificationFault::HmacWithoutOptIn { name }) => {
                    lemma_bad_name_later(algs, allow_hmac, name);
                },
                Some(_) => {},
            }
        }
    }
}

proof fn lemma_bad_name_later(algs: Seq<Seq<char>>, allow_hmac: bool, name: Seq<char>)
    requires
        algs.len() > 0,
        may_be_listed(algs[0], allow_hmac),
        of_the_first_bad_name(algs.drop_first(), allow_hmac, name),
    ensures
        of_the_first_bad_name(algs, allow_hmac, name),
{
    let rest = algs.drop_first();
    let i = choose|i: int|
        0 <= i < rest.len() && #[trigger] rest[i] == name && !may_be_listed(name, allow_hmac) && (
        forall|j: int| 0 <= j < i ==> may_be_listed(#[trigger] rest[j], allow_hmac));
    assert(algs[i + 1] == name);
    assert forall|j: int| 0 <= j < i + 1 implies may_be_listed(#[trigger] algs[j], allow_hmac) by {
        if j > 0 {
            assert(may_be_listed(rest[j - 1], allow_hmac));
        }
    }
}

/// Of the faults of a configuration those of its providers come first; and of
/// the issuers that are shared, the one that is told is that of the first
/// provider whose issuer another before it has.
pub proof fn shared_issuers_are_told_last(c: ConfigView)
    ensures
        config_fault(c) matches Some(ConfigFault::DuplicateIssuer { issuer }) ==> (forall|i: int|
            0 <= i < c.providers.len() ==> provider_fault(#[trigger] c.providers[i]) is None)
            && exists|k: int|
            0 <= k < c.providers.len() && (#[trigger] c.providers[k]).issuer == issuer && issuers_of(
                c.providers,
            ).take(k).contains(issuer) && repeated(issuers_of(c.providers).take(k)) is None,
{
    if let Some(ConfigFault::DuplicateIssuer { issuer }) = config_fault(c) {
        let issuers = issuers_of(c.providers);
        lemma_first_faulty_provider(c.providers, 0);
        assert forall|i: int| 0 <= i < c.providers.len() implies provider_fault(
            #[trigger] c.providers[i],
        ) is None by {
            lemma_no_provider_fault(c.providers, 0, i);
        }
        let k = lemma_first_repeated(issuers);
        assert(c.providers[k].issuer == issuer);
    }
}

proof fn lemma_first_repeated(issuers: Seq<Seq<char>>) -> (k: int)
    requires
        repeated(issuers) is Some,
    ensures
        0 <= k < issuers.len(),
        issuers[k] == repeated(issuers).unwrap(),
        issuers.take(k).contains(issuers[k]),
        repeated(issuers.take(k)) is None,
    decreases issuers.len(),
{
    let init = issuers.drop_last();
    if repeated(init) is Some {
        let k = lemma_first_repeated(init);
        assert(init.take(k) =~= issuers.take(k));
        k
    } else {
        assert(issuers.take(issuers.len() - 1) =~= init);
        issuers.len() - 1
    }
}

/// The messages for the operator say which setting is at fault, and by how
/// much.
pub proof fn messages_tell_the_setting(secs: u64)
    ensures
        VerificationFault::NoAllowedAlgs.message() == "verification.allowed_algs must not be empty"@,
        (VerificationFault::StalenessTooLong { secs }).message()
            == "verification.max_staleness_secs "@ + decimal(secs as nat) + " exceeds the maximum "@
            + decimal(86_400)
            + "s — past a day a stale JWKS stops covering an IdP outage and becomes a window in which a revoked signing key still verifies tokens"@,
        (ProviderFault::ClockSkewTooLong { secs }).message() == "clock_skew_secs "@ + decimal(
            secs as nat,
        ) + " exceeds the maximum "@ + decimal(300)
            + "s — a larger leeway is a token replay window, not clock-drift tolerance"@,
        ProviderFault::NoAudiences.message()
            == "audiences is empty — refusing to skip `aud` validation (a token minted for another gateway would be accepted). Set `audiences`, or for the rare provider that issues no audience claim opt in explicitly with `allow_any_audience: true`"@,
{
}

} // verus!
