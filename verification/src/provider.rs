//! A provider at work: cached keys and discovery document, circuit breaker,
//! and the verification of tokens step by step.

use vstd::prelude::*;
use crate::algorithm::{algorithm_named, parse_algorithm, Algorithm, UnsupportedAlgorithm};
use crate::circuit::{closed_circuit, countable, JwksCircuit, NANOS_PER_SEC};
use crate::claims::{parse_json, texts_in, ClaimValue};
use crate::config::{OidcProviderConfig, ProviderView, VerificationConfig};
use crate::exchange::{
    is_success, notice_views, write_status, DiscoveryDocument, DiscoveryReply, DocumentView,
    IntrospectionReply, IntrospectionRequest, JwksReply, Notice, ProviderStep, Purpose,
    RefreshWait,
};
use crate::identity::{claims_verdict, map_claims, OidcVerificationResult, Verdict};
use crate::jwt::{
    answer_of, decode_header, header_outcome, key_answers, key_views, parse_jwk_set, usable_keys,
    verify_with_key, JwtHeader, KeyEntry, KeyView, TokenRules, MAX_LEEWAY_SECS,
};
use crate::model::{
    answer_verdict, audiences_named, introspected, introspection_request, introspection_step,
    introspection_verdict, keys_verdict, leeway_defined, overlap, token_rules, with_kid,
    within, CachedDocumentView, CachedKeysView, ProviderModel, RefreshView,
    UNKNOWN_KID_REFRESH_FLOOR_SECS,
};
use crate::text::{copy_texts, decimal_text, holds_text, pieces, same_text};
use crate::url_guard::{enforce_discovery_url_safety, url_failure, UrlGuardError};

verus! {

/// Usable keys, and when they were fetched. They are refreshed on an interval
/// and served stale for a while, so that a short outage of the issuer does
/// not block verification.
struct CachedJwks {
    keys: Vec<KeyEntry>,
    fetched_at: u64,
}

/// A discovery document, and when it was fetched.
struct CachedDiscovery {
    document: DiscoveryDocument,
    fetched_at: u64,
}

/// Runtime state of a single provider. Each provider keeps its own keys, its
/// own discovery document and its own circuit breaker: a broken provider
/// cannot take down healthy ones.
pub struct ProviderState {
    config: OidcProviderConfig,
    allowed_algs: Vec<Algorithm>,
    jwks: Option<CachedJwks>,
    discovery: Option<CachedDiscovery>,
    circuit: JwksCircuit,
    last_kid_refresh: Option<u64>,
    notices: Vec<Notice>,
}

impl View for ProviderState {
    type V = ProviderModel;

    closed spec fn view(&self) -> ProviderModel {
        ProviderModel {
            config: self.config@,
            allowed_algs: self.allowed_algs@,
            jwks: match self.jwks {
                Some(c) => Some(
                    CachedKeysView { keys: key_views(c.keys@), fetched_at: c.fetched_at },
                ),
                None => None,
            },
            discovery: match self.discovery {
                Some(c) => Some(
                    CachedDocumentView { document: c.document@, fetched_at: c.fetched_at },
                ),
                None => None,
            },
            circuit: self.circuit,
            last_kid_refresh: self.last_kid_refresh,
            notices: notice_views(self.notices@),
        }
    }
}

/// Where a key refresh stands.
enum Refresh {
    Finished(Result<(), String>),
    FetchDiscovery { uri: String, stale_ok: bool },
    FetchJwks { uri: String, stale_ok: bool },
}

impl View for Refresh {
    type V = RefreshView;

    closed spec fn view(&self) -> RefreshView {
        match *self {
            Refresh::Finished(r) => RefreshView::Finished(
                match r {
                    Ok(_) => Ok(()),
                    Err(e) => Err(e@),
                },
            ),
            Refresh::FetchDiscovery { uri, stale_ok } => {
                RefreshView::FetchDiscovery { uri: uri@, stale_ok }
            },
            Refresh::FetchJwks { uri, stale_ok } => RefreshView::FetchJwks { uri: uri@, stale_ok },
        }
    }
}

/// Whether what happened at `then` is less than `secs` seconds ago.
fn is_within(then: u64, now: u64, secs: u64) -> (r: bool)
    ensures
        r == within(then, now, secs),
{
    let age: u64 = if now >= then {
        now - then
    } else {
        0
    };
    let limit: u128 = secs as u128 * NANOS_PER_SEC as u128;
    (age as u128) < limit
}

/// The algorithms that a list of names stands for.
pub open spec fn algorithms_named(names: Seq<Seq<char>>) -> Seq<Algorithm> {
    names.map_values(|name: Seq<char>| algorithm_named(name).unwrap())
}

/// The first name that no algorithm has.
pub open spec fn first_unsupported(names: Seq<Seq<char>>) -> Option<Seq<char>>
    decreases names.len(),
{
    if names.len() == 0 {
        None
    } else if algorithm_named(names[0]) is None {
        Some(names[0])
    } else {
        first_unsupported(names.drop_first())
    }
}

fn parse_algorithms(names: &[String]) -> (r: Result<Vec<Algorithm>, UnsupportedAlgorithm>)
    ensures
        match r {
            Ok(algs) => first_unsupported(names.deep_view()) is None && algs@ == algorithms_named(
                names.deep_view(),
            ),
            Err(e) => first_unsupported(names.deep_view()) == Some(e.name@),
        },
{
    let ghost all = names.deep_view();
    let mut algs: Vec<Algorithm> = Vec::new();
    let mut i: usize = 0;
    assert(all.skip(0) =~= all);
    while i < names.len()
        invariant
            i <= names@.len(),
            all == names.deep_view(),
            first_unsupported(all) == first_unsupported(all.skip(i as int)),
            algs@ == algorithms_named(all.take(i as int)),
        decreases names@.len() - i,
    {
        assert(all.skip(i as int)[0] == names@[i as int]@);
        assert(all.skip(i as int).drop_first() =~= all.skip(i + 1));
        match parse_algorithm(names[i].as_str()) {
            Ok(a) => {
                algs.push(a);
            },
            Err(e) => {
                return Err(e);
            },
        }
        assert(algs@ =~= algorithms_named(all.take(i + 1)));
        i = i + 1;
    }
    assert(all.take(i as int) =~= all);
    Ok(algs)
}

/// The state in which a provider starts: nothing cached, the circuit closed.
pub open spec fn new_provider(p: ProviderView) -> ProviderModel {
    ProviderModel {
        config: p,
        allowed_algs: algorithms_named(p.verification.algs()),
        jwks: None,
        discovery: None,
        circuit: closed_circuit(),
        last_kid_refresh: None,
        notices: Seq::empty(),
    }
}

/// Whether verification is defined for the leeway of a provider.
pub fn is_leeway_defined(config: &OidcProviderConfig) -> (r: bool)
    ensures
        r == leeway_defined(config@),
{
    match &config.verification {
        VerificationConfig::OauthIntrospection { .. } => true,
        _ => config.clock_skew_secs <= MAX_LEEWAY_SECS,
    }
}

impl ProviderState {
    /// A provider with nothing cached.
    pub fn new(config: OidcProviderConfig) -> (r: Result<ProviderState, UnsupportedAlgorithm>)
        ensures
            match r {
                Ok(s) => first_unsupported(config@.verification.algs()) is None && s@
                    == new_provider(config@) && s@.wf() == leeway_defined(config@),
                Err(e) => first_unsupported(config@.verification.algs()) == Some(e.name@),
            },
    {
        let parsed = match &config.verification {
            VerificationConfig::OidcJwks { allowed_algs, .. } => parse_algorithms(allowed_algs),
            VerificationConfig::Hybrid { allowed_algs, .. } => parse_algorithms(allowed_algs),
            VerificationConfig::OauthIntrospection { .. } => Ok(Vec::new()),
        };
        let allowed_algs = match parsed {
            Ok(algs) => algs,
            Err(e) => return Err(e),
        };
        assert(allowed_algs@ =~= algorithms_named(config@.verification.algs()));
        let s = ProviderState {
            config,
            allowed_algs,
            jwks: None,
            discovery: None,
            circuit: JwksCircuit::Closed { consecutive_failures: 0 },
            last_kid_refresh: None,
            notices: Vec::new(),
        };
        assert(s@.notices =~= Seq::empty());
        Ok(s)
    }

    /// The configured issuer.
    pub fn issuer(&self) -> (r: &str)
        ensures
            r@ == self@.config.issuer,
    {
        self.config.issuer.as_str()
    }

    /// Takes the notices that have gathered.
    pub fn take_notices(&mut self) -> (r: Vec<Notice>)
        ensures
            notice_views(r@) == old(self)@.notices,
            final(self)@ == (ProviderModel { notices: Seq::empty(), ..old(self)@ }),
    {
        let mut taken: Vec<Notice> = Vec::new();
        std::mem::swap(&mut taken, &mut self.notices);
        assert(self@.notices =~= Seq::empty());
        taken
    }

    fn note(&mut self, notice: Notice)
        ensures
            final(self)@ == old(self)@.noting(notice@),
    {
        let ghost had = self@.notices;
        let ghost n = notice@;
        self.notices.push(notice);
        assert(self@.notices =~= had.push(n));
    }

    fn jwks_timeout_ms(&self) -> (r: u64)
        ensures
            r == self@.config.verification.jwks_timeout_ms(),
    {
        match &self.config.verification {
            VerificationConfig::OidcJwks { timeout_ms, .. } => *timeout_ms,
            VerificationConfig::Hybrid { timeout_ms, .. } => *timeout_ms,
            VerificationConfig::OauthIntrospection { .. } => 2000,
        }
    }

    fn refresh_interval_secs(&self) -> (r: u64)
        ensures
            r == self@.config.verification.refresh_interval_secs(),
    {
        match &self.config.verification {
            VerificationConfig::OidcJwks { refresh_interval_secs, .. } => *refresh_interval_secs,
            VerificationConfig::Hybrid { refresh_interval_secs, .. } => *refresh_interval_secs,
            VerificationConfig::OauthIntrospection { .. } => 300,
        }
    }

    fn max_staleness_secs(&self) -> (r: u64)
        ensures
            r == self@.config.verification.max_staleness_secs(),
    {
        match &self.config.verification {
            VerificationConfig::OidcJwks { max_staleness_secs, .. } => *max_staleness_secs,
            VerificationConfig::Hybrid { max_staleness_secs, .. } => *max_staleness_secs,
            VerificationConfig::OauthIntrospection { .. } => 3600,
        }
    }

    fn introspection_timeout_ms(&self) -> (r: u64)
        ensures
            r == self@.config.verification.introspection_timeout_ms(),
    {
        match &self.config.verification {
            VerificationConfig::OauthIntrospection { timeout_ms, .. } => *timeout_ms,
            VerificationConfig::Hybrid { introspection_timeout_ms, .. } => {
                *introspection_timeout_ms
            },
            VerificationConfig::OidcJwks { .. } => 2000,
        }
    }

    fn guard(&self, uri: &str) -> (r: Result<(), UrlGuardError>)
        ensures
            url_failure(r) == self@.guard(uri@),
    {
        enforce_discovery_url_safety(
            uri,
            &self.config.allowed_issuer_hosts,
            self.config.allow_private_issuer,
        )
    }

    fn has_fresh_keys(&self, now: u64) -> (r: bool)
        ensures
            r == self@.has_fresh_keys(now),
    {
        match &self.jwks {
            Some(cached) => is_within(cached.fetched_at, now, self.refresh_interval_secs()),
            None => false,
        }
    }

    fn stale_ok(&self, now: u64) -> (r: bool)
        ensures
            r == self@.stale_ok(now),
    {
        match &self.jwks {
            Some(cached) => is_within(cached.fetched_at, now, self.max_staleness_secs()),
            None => false,
        }
    }

    /// Where the keys are, by a discovery document that needs no refresh.
    fn fresh_jwks_uri(&self, now: u64) -> (r: Option<String>)
        ensures
            r.deep_view() == (match self@.fresh_document(now) {
                Some(d) => Some(d.jwks_uri),
                None => None,
            }),
    {
        if let Some(cached) = &self.discovery {
            if is_within(cached.fetched_at, now, self.refresh_interval_secs()) {
                return Some(cached.document.jwks_uri.clone());
            }
        }
        None
    }

    fn upstream_failed(&mut self, stale_ok: bool, reason: String, message: String, now: u64) -> (r:
        Refresh)
        requires
            old(self)@.wf(),
            countable(now),
        ensures
            (final(self)@, r@) == old(self)@.upstream_failed(stale_ok, reason@, message@, now),
            final(self)@.wf(),
    {
        self.circuit.record_failure(now);
        if stale_ok {
            self.note(Notice::StaleServed { reason });
            Refresh::Finished(Ok(()))
        } else {
            Refresh::Finished(Err(message))
        }
    }

    /// Asks for keys where the document says they are. A refused address fails
    /// closed: stale keys do not stand in for it.
    fn request_keys(&self, uri: String, stale_ok: bool) -> (r: Refresh)
        ensures
            r@ == self@.request_keys(uri@, stale_ok),
    {
        match self.guard(uri.as_str()) {
            Ok(_) => Refresh::FetchJwks { uri, stale_ok },
            Err(e) => Refresh::Finished(Err(e.to_string())),
        }
    }

    /// Begins a key refresh. While the circuit is open nothing is tried, and
    /// cached keys go on serving within their staleness.
    fn refresh_jwks(&mut self, now: u64) -> (r: Refresh)
        requires
            old(self)@.wf(),
            countable(now),
        ensures
            (final(self)@, r@) == old(self)@.refresh(now),
            final(self)@.wf(),
    {
        let stale_ok = self.stale_ok(now);
        if !self.circuit.allow_attempt(now) {
            self.note(Notice::ShortCircuited);
            if stale_ok {
                return Refresh::Finished(Ok(()));
            }
            return Refresh::Finished(
                Err("JWKS circuit breaker open; stale keys exhausted".to_owned()),
            );
        }
        if let Some(uri) = self.fresh_jwks_uri(now) {
            return self.request_keys(uri, stale_ok);
        }
        let uri = self.config.effective_discovery_uri();
        match self.guard(uri.as_str()) {
            Ok(_) => Refresh::FetchDiscovery { uri, stale_ok },
            Err(e) => {
                let message = e.to_string();
                self.upstream_failed(stale_ok, "discovery_failed".to_owned(), message, now)
            },
        }
    }

    /// The discovery document that a reply holds, or why it is not accepted.
    fn accept_document(&self, uri: &str, reply: DiscoveryReply) -> (r: Result<
        DiscoveryDocument,
        String,
    >)
        requires
            reply@.wf(),
        ensures
            self@.accepted_document(uri@, reply@) == (match r {
                Ok(d) => Ok::<DocumentView, Seq<char>>(d@),
                Err(e) => Err(e@),
            }),
    {
        match reply {
            DiscoveryReply::SendFailed => {
                let mut message = "failed to fetch OIDC discovery from ".to_owned();
                message.append(uri);
                Err(message)
            },
            DiscoveryReply::RemoteAddrBlocked(why) => {
                let mut message = "OIDC discovery SSRF blocked: ".to_owned();
                message.append(why.as_str());
                Err(message)
            },
            DiscoveryReply::Responded { status, document } => {
                if !is_success(status) {
                    let mut message = "OIDC discovery from ".to_owned();
                    message.append(uri);
                    message.append(" returned status ");
                    message.append(write_status(status).as_str());
                    return Err(message);
                }
                match document {
                    None => {
                        let mut message = "failed to parse OIDC discovery from ".to_owned();
                        message.append(uri);
                        Err(message)
                    },
                    Some(d) => {
                        if !same_text(d.issuer.as_str(), self.config.issuer.as_str()) {
                            let mut message = "OIDC discovery issuer mismatch: expected '".to_owned();
                            message.append(self.config.issuer.as_str());
                            message.append("', got '");
                            message.append(d.issuer.as_str());
                            message.append("'");
                            return Err(message);
                        }
                        Ok(d)
                    },
                }
            },
        }
    }

    fn discovered(&mut self, uri: &str, stale_ok: bool, reply: DiscoveryReply, now: u64) -> (r:
        Refresh)
        requires
            old(self)@.wf(),
            countable(now),
            reply@.wf(),
        ensures
            (final(self)@, r@) == old(self)@.discovered(uri@, stale_ok, reply@, now),
            final(self)@.wf(),
    {
        match self.accept_document(uri, reply) {
            Ok(document) => {
                let jwks_uri = document.jwks_uri.clone();
                self.discovery = Some(CachedDiscovery { document, fetched_at: now });
                self.request_keys(jwks_uri, stale_ok)
            },
            Err(message) => self.upstream_failed(
                stale_ok,
                "discovery_failed".to_owned(),
                message,
                now,
            ),
        }
    }

    fn keys_read(&mut self, uri: &str, stale_ok: bool, keys: Vec<KeyEntry>, now: u64) -> (r:
        Refresh)
        requires
            old(self)@.wf(),
        ensures
            (final(self)@, r@) == old(self)@.keys_read(uri@, stale_ok, key_views(keys@), now),
            final(self)@.wf(),
    {
        assert(key_views(keys@).len() == keys@.len());
        if keys.len() == 0 && !stale_ok {
            let mut message = "JWKS from ".to_owned();
            message.append(uri);
            message.append(" contains no usable keys");
            return Refresh::Finished(Err(message));
        }
        if keys.len() > 0 {
            self.jwks = Some(CachedJwks { keys, fetched_at: now });
        }
        self.circuit.record_success();
        Refresh::Finished(Ok(()))
    }

    fn keys_fetched(&mut self, uri: &str, stale_ok: bool, reply: JwksReply, now: u64) -> (r:
        Refresh)
        requires
            old(self)@.wf(),
            countable(now),
            reply@.wf(),
        ensures
            (final(self)@, r@) == old(self)@.keys_fetched(uri@, stale_ok, reply@, now),
            final(self)@.wf(),
    {
        match reply {
            JwksReply::SendFailed(why) => self.upstream_failed(
                stale_ok,
                "fetch_error".to_owned(),
                why,
                now,
            ),
            JwksReply::Responded { status, body } => {
                if !is_success(status) {
                    let mut reason = "http_".to_owned();
                    reason.append(decimal_text(status as u64).as_str());
                    let mut message = "JWKS fetch from ".to_owned();
                    message.append(uri);
                    message.append(" returned status ");
                    message.append(write_status(status).as_str());
                    return self.upstream_failed(stale_ok, reason, message, now);
                }
                let text = match body {
                    Some(text) => text,
                    None => {
                        return self.upstream_failed(
                            stale_ok,
                            "body_error".to_owned(),
                            "failed to read JWKS response body".to_owned(),
                            now,
                        );
                    },
                };
                match parse_jwk_set(text.as_str()) {
                    Some(jwks) => {
                        let keys = usable_keys(&jwks);
                        self.keys_read(uri, stale_ok, keys, now)
                    },
                    None => self.upstream_failed(
                        stale_ok,
                        "parse_error".to_owned(),
                        "failed to parse JWKS JSON".to_owned(),
                        now,
                    ),
                }
            },
        }
    }
}

// ---------------------------------------------------------------------------
// JWT verification
// ---------------------------------------------------------------------------

/// What a list of borrowed keys says.
pub open spec fn borrowed_views(keys: Seq<&KeyEntry>) -> Seq<KeyView> {
    keys.map_values(|k: &KeyEntry| k@)
}

/// The keys with that key id.
fn matching_keys<'a>(keys: &'a [KeyEntry], kid: &str) -> (r: Vec<&'a KeyEntry>)
    ensures
        borrowed_views(r@) == with_kid(key_views(keys@), kid@),
{
    let ghost all = key_views(keys@);
    let mut found: Vec<&'a KeyEntry> = Vec::new();
    let mut i: usize = 0;
    assert(all.take(0) =~= Seq::empty());
    assert(borrowed_views(found@) =~= Seq::empty());
    while i < keys.len()
        invariant
            i <= keys@.len(),
            all == key_views(keys@),
            borrowed_views(found@) == with_kid(all.take(i as int), kid@),
        decreases keys@.len() - i,
    {
        let ghost had = borrowed_views(found@);
        assert(all.take(i + 1).drop_last() =~= all.take(i as int));
        assert(all.take(i + 1).last() == keys@[i as int]@);
        let key = &keys[i];
        if let Some(id) = &key.kid {
            if same_text(id.as_str(), kid) {
                found.push(key);
                assert(borrowed_views(found@) =~= had.push(key@));
            }
        }
        i = i + 1;
    }
    assert(all.take(i as int) =~= all);
    found
}

/// All keys.
fn borrowed_keys<'a>(keys: &'a [KeyEntry]) -> (r: Vec<&'a KeyEntry>)
    ensures
        borrowed_views(r@) == key_views(keys@),
{
    let mut found: Vec<&'a KeyEntry> = Vec::new();
    let mut i: usize = 0;
    while i < keys.len()
        invariant
            i <= keys@.len(),
            found@.len() == i,
            forall|j: int| 0 <= j < i ==> *(#[trigger] found@[j]) == keys@[j],
        decreases keys@.len() - i,
    {
        found.push(&keys[i]);
        i = i + 1;
    }
    assert(borrowed_views(found@) =~= key_views(keys@));
    found
}

fn holds_algorithm(algs: &[Algorithm], alg: Algorithm) -> (r: bool)
    ensures
        r == algs@.contains(alg),
{
    let mut i: usize = 0;
    while i < algs.len()
        invariant
            i <= algs@.len(),
            forall|j: int| 0 <= j < i ==> algs@[j] != alg,
        decreases algs@.len() - i,
    {
        if algs[i] == alg {
            return true;
        }
        i = i + 1;
    }
    false
}

/// What tokens of a provider are verified against, beside the key.
pub fn rules_for(config: &OidcProviderConfig, algorithm: Algorithm) -> (r: TokenRules)
    ensures
        r@ == token_rules(config@, algorithm),
{
    let mut issuers: Vec<String> = Vec::new();
    issuers.push(config.issuer.clone());
    assert(issuers.deep_view() =~= seq![config@.issuer]);
    // A claim that is only checked when present can be left out of a token:
    // every claim that is checked is required as well.
    let mut required_claims: Vec<String> = Vec::new();
    required_claims.push("exp".to_owned());
    required_claims.push("iss".to_owned());
    let bound = config.audiences.len() > 0;
    if bound {
        required_claims.push("aud".to_owned());
        assert(required_claims.deep_view() =~= seq!["exp"@, "iss"@, "aud"@]);
    } else {
        assert(required_claims.deep_view() =~= seq!["exp"@, "iss"@]);
    }
    TokenRules {
        algorithm,
        leeway: config.clock_skew_secs,
        validate_exp: true,
        validate_nbf: true,
        validate_aud: bound,
        issuers,
        audiences: if bound {
            Some(copy_texts(&config.audiences))
        } else {
            None
        },
        required_claims,
    }
}

/// What is returned for the outcome of one key: the verdict on the claims if
/// the key accepted the token, and otherwise nothing yet.
pub fn judge_outcome(config: &OidcProviderConfig, outcome: Result<ClaimValue, String>) -> (r:
    Option<OidcVerificationResult>)
    ensures
        answer_verdict(config@, answer_of(outcome)) == (match r {
            Some(verdict) => Some(verdict@),
            None => None,
        }),
{
    match outcome {
        Ok(claims) => Some(map_claims(config, &claims)),
        Err(_) => None,
    }
}

impl ProviderState {
    /// Maps verified claims, of a JWT or from introspection, into an identity.
    pub fn map_claims(&self, claims: &ClaimValue) -> (r: OidcVerificationResult)
        ensures
            r@ == claims_verdict(self@.config, claims@),
    {
        map_claims(&self.config, claims)
    }

    /// Tries keys on a token that names `alg`, one after the other.
    fn try_keys(&self, keys: &[&KeyEntry], alg: Algorithm, token: &str) -> (r:
        OidcVerificationResult)
        requires
            self@.wf(),
            self@.has_jwt_path(),
        ensures
            keys_verdict(self@.config, borrowed_views(keys@), alg, token@, r@),
    {
        let ghost all = borrowed_views(keys@);
        let mut i: usize = 0;
        assert(all.skip(0) =~= all);
        while i < keys.len()
            invariant
                i <= keys@.len(),
                all == borrowed_views(keys@),
                self@.wf(),
                self@.has_jwt_path(),
                forall|v: Verdict| #[trigger]
                    keys_verdict(self@.config, all.skip(i as int), alg, token@, v) ==> keys_verdict(
                        self@.config,
                        all,
                        alg,
                        token@,
                        v,
                    ),
            decreases keys@.len() - i,
        {
            let entry = keys[i];
            let ghost rest = all.skip(i as int);
            assert(rest[0] == entry@);
            assert(rest.drop_first() =~= all.skip(i + 1));
            let rules = rules_for(&self.config, entry.algorithm_for(alg));
            let outcome = verify_with_key(token, &entry.key, &rules);
            assert(key_answers(
                token@,
                rest[0].key,
                token_rules(self@.config, rest[0].algorithm_for(alg)),
                answer_of(outcome),
            ));
            if let Some(verdict) = judge_outcome(&self.config, outcome) {
                assert(keys_verdict(self@.config, rest, alg, token@, verdict@));
                return verdict;
            }
            proof {
                let p = self@.config;
                assert forall|v: Verdict| #[trigger]
                    keys_verdict(p, all.skip(i + 1), alg, token@, v) implies keys_verdict(
                    p,
                    all,
                    alg,
                    token@,
                    v,
                ) by {
                    assert(keys_verdict(p, rest, alg, token@, v));
                }
            }
            i = i + 1;
        }
        let refusal = OidcVerificationResult::Invalid(
            "token signature verification failed".to_owned(),
        );
        assert(keys_verdict(self@.config, all.skip(i as int), alg, token@, refusal@));
        refusal
    }

    /// Claims the slot for a refresh for an unknown key id, stamping the
    /// attempt.
    ///
    /// It is stamped whether or not the fetch then succeeds: an unknown key id
    /// produces a *successful* fetch, so the circuit never limits this path.
    fn may_refresh_for_unknown_kid(&mut self, now: u64) -> (r: bool)
        ensures
            old(self)@.kid_slot_claimed(now, final(self)@, r),
    {
        if let Some(at) = self.last_kid_refresh {
            if is_within(at, now, UNKNOWN_KID_REFRESH_FLOOR_SECS) {
                return false;
            }
        }
        self.last_kid_refresh = Some(now);
        true
    }

    fn kid_refreshed(&self, token: &str, kid: &str, alg: Algorithm, ok: bool) -> (r: ProviderStep)
        requires
            self@.wf(),
            self@.has_jwt_path(),
        ensures
            self@.kid_refreshed(token@, kid@, alg, ok, r@),
    {
        if ok {
            if let Some(cached) = &self.jwks {
                let retry = matching_keys(&cached.keys, kid);
                assert(borrowed_views(retry@).len() == retry@.len());
                if retry.len() == 0 {
                    let mut message = "no key found for kid '".to_owned();
                    message.append(kid);
                    message.append("' after JWKS refresh");
                    return ProviderStep::Done(OidcVerificationResult::Invalid(message));
                }
                return ProviderStep::Done(self.try_keys(&retry, alg, token));
            }
        }
        let mut message = "no key found for kid '".to_owned();
        message.append(kid);
        message.append("'");
        ProviderStep::Done(OidcVerificationResult::Invalid(message))
    }

    fn wait_for_discovery(&self, token: &str, purpose: Purpose, stale_ok: bool, uri: String) -> (r:
        ProviderStep)
        ensures
            r@ == self@.waiting(
                token@,
                purpose@,
                RefreshView::FetchDiscovery { uri: uri@, stale_ok },
            ),
    {
        ProviderStep::FetchDiscovery {
            wait: RefreshWait { token: token.to_owned(), purpose, stale_ok, uri },
            timeout_ms: self.jwks_timeout_ms(),
            check_remote_addr: !self.config.allow_private_issuer,
        }
    }

    fn wait_for_jwks(&self, token: &str, purpose: Purpose, stale_ok: bool, uri: String) -> (r:
        ProviderStep)
        ensures
            r@ == self@.waiting(
                token@,
                purpose@,
                RefreshView::FetchJwks { uri: uri@, stale_ok },
            ),
    {
        ProviderStep::FetchJwks {
            wait: RefreshWait { token: token.to_owned(), purpose, stale_ok, uri },
            timeout_ms: self.jwks_timeout_ms(),
        }
    }

    fn alg_refusal(&self, alg: Algorithm) -> (r: Option<String>)
        ensures
            r.deep_view() == self@.alg_refusal(alg),
    {
        if self.allowed_algs.len() > 0 && !holds_algorithm(&self.allowed_algs, alg) {
            let mut message = "algorithm ".to_owned();
            message.append(alg.name());
            message.append(" not in allowed list for issuer '");
            message.append(self.config.issuer.as_str());
            message.append("'");
            return Some(message);
        }
        if alg == Algorithm::HS256 && !holds_algorithm(&self.allowed_algs, Algorithm::HS256) {
            return Some("algorithm 'none' is not allowed".to_owned());
        }
        None
    }

    /// Goes on with a token whose key id the cached keys lack.
    fn kid_unknown(&mut self, token: &str, kid: &str, alg: Algorithm, now: u64) -> (r:
        ProviderStep)
        requires
            old(self)@.wf(),
            old(self)@.has_jwt_path(),
            countable(now),
            old(self)@.jwks matches Some(cached) && with_kid(cached.keys, kid@).len() == 0,
        ensures
            old(self)@.kid_looked_up(
                token@,
                kid@,
                alg,
                old(self)@.jwks.unwrap().keys,
                now,
                final(self)@,
                r@,
            ),
            final(self)@.wf(),
            final(self)@.same_setup(old(self)@),
    {
        if !self.may_refresh_for_unknown_kid(now) {
            let mut message = "no key for kid '".to_owned();
            message.append(kid);
            message.append("' (refresh rate-limited)");
            return ProviderStep::Done(OidcVerificationResult::Invalid(message));
        }
        let purpose = Purpose::UnknownKid { kid: kid.to_owned(), alg };
        match self.refresh_jwks(now) {
            Refresh::Finished(result) => self.kid_refreshed(token, kid, alg, result.is_ok()),
            Refresh::FetchDiscovery { uri, stale_ok } => {
                self.wait_for_discovery(token, purpose, stale_ok, uri)
            },
            Refresh::FetchJwks { uri, stale_ok } => {
                self.wait_for_jwks(token, purpose, stale_ok, uri)
            },
        }
    }

    /// Goes on with a token and what its header came to, once keys have been
    /// made sure of.
    pub fn on_header(&mut self, token: &str, header: Result<JwtHeader, String>, now: u64) -> (r:
        ProviderStep)
        requires
            old(self)@.wf(),
            old(self)@.has_jwt_path(),
            countable(now),
        ensures
            old(self)@.header_read(token@, header_outcome(header), now, final(self)@, r@),
            final(self)@.wf(),
            final(self)@.same_setup(old(self)@),
    {
        let header: JwtHeader = match header {
            Ok(header) => header,
            Err(e) => {
                let mut message = "invalid JWT header: ".to_owned();
                message.append(e.as_str());
                return ProviderStep::Done(OidcVerificationResult::Invalid(message));
            },
        };
        if let Some(message) = self.alg_refusal(header.alg) {
            return ProviderStep::Done(OidcVerificationResult::Invalid(message));
        }
        let cached = match &self.jwks {
            Some(cached) => cached,
            None => {
                let mut message = "no JWKS keys available for issuer '".to_owned();
                message.append(self.config.issuer.as_str());
                message.append("'");
                return ProviderStep::Done(OidcVerificationResult::Invalid(message));
            },
        };
        let kid = match &header.kid {
            Some(kid) => kid.as_str(),
            None => {
                let keys = borrowed_keys(&cached.keys);
                return ProviderStep::Done(self.try_keys(&keys, header.alg, token));
            },
        };
        let matching = matching_keys(&cached.keys, kid);
        assert(borrowed_views(matching@).len() == matching@.len());
        if matching.len() > 0 {
            return ProviderStep::Done(self.try_keys(&matching, header.alg, token));
        }
        self.kid_unknown(token, kid, header.alg, now)
    }

    /// Goes on with a token once keys have been made sure of.
    fn keys_ensured(&mut self, token: &str, now: u64) -> (r: ProviderStep)
        requires
            old(self)@.wf(),
            old(self)@.has_jwt_path(),
            countable(now),
        ensures
            old(self)@.keys_ensured(token@, now, final(self)@, r@),
            final(self)@.wf(),
            final(self)@.same_setup(old(self)@),
    {
        self.on_header(token, decode_header(token), now)
    }

    /// Goes on with a verification where its key refresh has come to.
    fn refresh_leads(&mut self, token: &str, purpose: Purpose, next: Refresh, now: u64) -> (r:
        ProviderStep)
        requires
            old(self)@.wf(),
            old(self)@.has_jwt_path(),
            countable(now),
        ensures
            old(self)@.refresh_leads(token@, purpose@, next@, now, final(self)@, r@),
            final(self)@.wf(),
            final(self)@.same_setup(old(self)@),
    {
        match next {
            Refresh::FetchDiscovery { uri, stale_ok } => {
                self.wait_for_discovery(token, purpose, stale_ok, uri)
            },
            Refresh::FetchJwks { uri, stale_ok } => {
                self.wait_for_jwks(token, purpose, stale_ok, uri)
            },
            Refresh::Finished(result) => match purpose {
                Purpose::UnknownKid { kid, alg } => {
                    self.kid_refreshed(token, kid.as_str(), alg, result.is_ok())
                },
                Purpose::Freshness => match result {
                    Ok(_) => self.keys_ensured(token, now),
                    Err(e) => {
                        let mut message = "JWKS unavailable for issuer '".to_owned();
                        message.append(self.config.issuer.as_str());
                        message.append("': ");
                        message.append(e.as_str());
                        ProviderStep::Done(OidcVerificationResult::Invalid(message))
                    },
                },
            },
        }
    }

    /// Begins to verify a JWT with cached keys, refreshing them if needed.
    pub fn verify_jwt(&mut self, token: &str, now: u64) -> (r: ProviderStep)
        requires
            old(self)@.wf(),
            old(self)@.has_jwt_path(),
            countable(now),
        ensures
            old(self)@.jwt_begins(token@, now, final(self)@, r@),
            final(self)@.wf(),
            final(self)@.same_setup(old(self)@),
    {
        if self.has_fresh_keys(now) {
            return self.keys_ensured(token, now);
        }
        let next = self.refresh_jwks(now);
        self.refresh_leads(token, Purpose::Freshness, next, now)
    }

    /// Goes on with the reply to a discovery fetch.
    pub fn on_discovery(&mut self, wait: RefreshWait, reply: DiscoveryReply, now: u64) -> (r:
        ProviderStep)
        requires
            old(self)@.wf(),
            old(self)@.has_jwt_path(),
            countable(now),
            reply@.wf(),
        ensures
            old(self)@.discovery_resumes(wait@, reply@, now, final(self)@, r@),
            final(self)@.wf(),
            final(self)@.same_setup(old(self)@),
    {
        let next = self.discovered(wait.uri.as_str(), wait.stale_ok, reply, now);
        self.refresh_leads(wait.token.as_str(), wait.purpose, next, now)
    }

    /// Goes on with the usable keys of a set that was fetched.
    pub fn on_keys(&mut self, wait: RefreshWait, keys: Vec<KeyEntry>, now: u64) -> (r: ProviderStep)
        requires
            old(self)@.wf(),
            old(self)@.has_jwt_path(),
            countable(now),
        ensures
            old(self)@.keys_resume(wait@, key_views(keys@), now, final(self)@, r@),
            final(self)@.wf(),
            final(self)@.same_setup(old(self)@),
    {
        let next = self.keys_read(wait.uri.as_str(), wait.stale_ok, keys, now);
        self.refresh_leads(wait.token.as_str(), wait.purpose, next, now)
    }

    /// Goes on with the reply to a fetch of the key set.
    pub fn on_jwks(&mut self, wait: RefreshWait, reply: JwksReply, now: u64) -> (r: ProviderStep)
        requires
            old(self)@.wf(),
            old(self)@.has_jwt_path(),
            countable(now),
            reply@.wf(),
        ensures
            old(self)@.jwks_resumes(wait@, reply@, now, final(self)@, r@),
            final(self)@.wf(),
            final(self)@.same_setup(old(self)@),
    {
        let next = self.keys_fetched(wait.uri.as_str(), wait.stale_ok, reply, now);
        self.refresh_leads(wait.token.as_str(), wait.purpose, next, now)
    }
}

// ---------------------------------------------------------------------------
// Introspection
// ---------------------------------------------------------------------------

/// The client secret. References in the configuration are resolved before it
/// arrives, so the value is used as it is.
pub fn resolve_secret_ref(secret_ref: &str) -> (r: String)
    ensures
        r@ == secret_ref@,
{
    secret_ref.to_owned()
}

/// The audiences that an `aud` claim names.
fn named_audiences(aud: &ClaimValue) -> (r: Vec<String>)
    ensures
        r.deep_view() == audiences_named(aud@),
{
    let mut named: Vec<String> = Vec::new();
    match aud {
        ClaimValue::String(s) => {
            named.push(s.clone());
            assert(named.deep_view() =~= seq![s@]);
        },
        ClaimValue::Array(items) => {
            let ghost all = aud@->List_0;
            let mut i: usize = 0;
            assert(all.take(0) =~= Seq::empty());
            assert(named.deep_view() =~= Seq::empty());
            while i < items.len()
                invariant
                    i <= items@.len(),
                    *aud == ClaimValue::Array(*items),
                    all == aud@->List_0,
                    named.deep_view() == texts_in(all.take(i as int)),
                decreases items@.len() - i,
            {
                let ghost had = named.deep_view();
                assert(all[i as int] == items@[i as int]@);
                assert(all.take(i + 1).drop_last() =~= all.take(i as int));
                if let Some(s) = items[i].as_str() {
                    named.push(s.to_owned());
                    assert(named.deep_view() =~= had.push(s@));
                }
                i = i + 1;
            }
            assert(all.take(i as int) =~= all);
        },
        _ => {
            assert(named.deep_view() =~= Seq::empty());
        },
    }
    named
}

fn any_held(expected: &[String], named: &[String]) -> (r: bool)
    ensures
        r == overlap(expected.deep_view(), named.deep_view()),
{
    let ghost wanted = expected.deep_view();
    let mut i: usize = 0;
    while i < expected.len()
        invariant
            i <= expected@.len(),
            wanted == expected.deep_view(),
            forall|j: int| 0 <= j < i ==> !named.deep_view().contains(#[trigger] wanted[j]),
        decreases expected@.len() - i,
    {
        assert(wanted[i as int] == expected@[i as int]@);
        if holds_text(named, expected[i].as_str()) {
            return true;
        }
        i = i + 1;
    }
    false
}

/// The verdict on the claims of an introspection response.
pub fn judge_introspection(config: &OidcProviderConfig, body: &ClaimValue) -> (r:
    OidcVerificationResult)
    ensures
        r@ == introspected(config@, body@),
{
    let active = match body.get("active") {
        Some(v) => match v.as_bool() {
            Some(b) => b,
            None => false,
        },
        None => false,
    };
    if !active {
        return OidcVerificationResult::Invalid("token is not active (introspection)".to_owned());
    }
    if let Some(v) = body.get("iss") {
        if let Some(iss) = v.as_str() {
            if !same_text(iss, config.issuer.as_str()) {
                let mut message = "introspection issuer mismatch: expected '".to_owned();
                message.append(config.issuer.as_str());
                message.append("', got '");
                message.append(iss);
                message.append("'");
                return OidcVerificationResult::Invalid(message);
            }
        }
    }
    if config.audiences.len() > 0 {
        // A response may leave `aud` out, but audiences were configured to be
        // bound to: without it there is nothing to bind.
        let aud = match body.get("aud") {
            Some(aud) => aud,
            None => {
                let mut message = "introspection response for issuer '".to_owned();
                message.append(config.issuer.as_str());
                message.append(
                    "' carries no `aud`; cannot honour the configured audience binding (set allow_any_audience to accept this)",
                );
                return OidcVerificationResult::Invalid(message);
            },
        };
        let named = named_audiences(aud);
        if !any_held(&config.audiences, &named) {
            let mut message = "audience mismatch for issuer '".to_owned();
            message.append(config.issuer.as_str());
            message.append("'");
            return OidcVerificationResult::Invalid(message);
        }
    }
    map_claims(config, body)
}

impl ProviderState {
    fn introspection_request(&self, token: &str) -> (r: Option<IntrospectionRequest>)
        ensures
            introspection_request(self@.config, token@) == (match r {
                Some(request) => Some(request@),
                None => None,
            }),
    {
        match &self.config.verification {
            VerificationConfig::OauthIntrospection {
                introspection_url,
                client_id,
                client_secret_ref,
                ..
            } => Some(
                IntrospectionRequest {
                    url: introspection_url.clone(),
                    client_id: client_id.clone(),
                    client_secret: resolve_secret_ref(client_secret_ref.as_str()),
                    token: token.to_owned(),
                    timeout_ms: self.introspection_timeout_ms(),
                },
            ),
            VerificationConfig::Hybrid { introspection_url, client_id, client_secret_ref, .. } => {
                Some(
                    IntrospectionRequest {
                        url: introspection_url.clone(),
                        client_id: client_id.clone(),
                        client_secret: resolve_secret_ref(client_secret_ref.as_str()),
                        token: token.to_owned(),
                        timeout_ms: self.introspection_timeout_ms(),
                    },
                )
            },
            VerificationConfig::OidcJwks { .. } => None,
        }
    }

    /// Begins to introspect a token (RFC 7662). Neither the token nor the
    /// client's credentials go where the guard refuses.
    pub fn introspect_token(&self, token: &str) -> (r: ProviderStep)
        ensures
            r@ == introspection_step(self@.config, token@),
    {
        let request = match self.introspection_request(token) {
            Some(request) => request,
            None => {
                return ProviderStep::Done(
                    OidcVerificationResult::Invalid(
                        "introspection not configured for this provider".to_owned(),
                    ),
                );
            },
        };
        match self.guard(request.url.as_str()) {
            Ok(_) => ProviderStep::Introspect(request),
            Err(e) => ProviderStep::Done(OidcVerificationResult::Invalid(e.to_string())),
        }
    }

    /// The verdict that an introspection comes to.
    pub fn on_introspection(&self, reply: IntrospectionReply) -> (r: OidcVerificationResult)
        requires
            reply@.wf(),
        ensures
            r@ == introspection_verdict(self@.config, reply@),
    {
        match reply {
            IntrospectionReply::SendFailed(why) => {
                let mut message = "introspection request failed for issuer '".to_owned();
                message.append(self.config.issuer.as_str());
                message.append("': ");
                message.append(why.as_str());
                OidcVerificationResult::Invalid(message)
            },
            IntrospectionReply::Responded { status, body } => {
                if !is_success(status) {
                    let mut message = "introspection returned status ".to_owned();
                    message.append(write_status(status).as_str());
                    message.append(" for issuer '");
                    message.append(self.config.issuer.as_str());
                    message.append("'");
                    return OidcVerificationResult::Invalid(message);
                }
                let read = match body {
                    Ok(bytes) => match parse_json(bytes.as_slice()) {
                        Ok(document) => Ok(document),
                        Err(_) => Err("error decoding response body".to_owned()),
                    },
                    Err(why) => Err(why),
                };
                match read {
                    Ok(claims) => judge_introspection(&self.config, &claims),
                    Err(why) => {
                        let mut message =
                            "failed to parse introspection response for issuer '".to_owned();
                        message.append(self.config.issuer.as_str());
                        message.append("': ");
                        message.append(why.as_str());
                        OidcVerificationResult::Invalid(message)
                    },
                }
            },
        }
    }

    /// Begins to verify a token, a JWS or none, with the configured strategy.
    ///
    /// Introspection cannot re-apply `allowed_algs`, so it must not adjudicate
    /// what the JWT path has rejected: a hybrid provider introspects only a
    /// token that is no JWS at all.
    pub fn verify_classified(&mut self, token: &str, jws: bool, now: u64) -> (r: ProviderStep)
        requires
            old(self)@.wf(),
            countable(now),
        ensures
            old(self)@.token_classified(token@, jws, now, final(self)@, r@),
            final(self)@.wf(),
            final(self)@.same_setup(old(self)@),
    {
        match &self.config.verification {
            VerificationConfig::OidcJwks { .. } => self.verify_jwt(token, now),
            VerificationConfig::OauthIntrospection { .. } => self.introspect_token(token),
            VerificationConfig::Hybrid { .. } => {
                if !jws {
                    return self.introspect_token(token);
                }
                self.verify_jwt(token, now)
            },
        }
    }

    /// Begins to verify a token with the configured strategy.
    pub fn verify_token(&mut self, token: &str, now: u64) -> (r: ProviderStep)
        requires
            old(self)@.wf(),
            countable(now),
        ensures
            old(self)@.begins(token@, now, final(self)@, r@),
            final(self)@.wf(),
            final(self)@.same_setup(old(self)@),
            old(self)@.config.verification is Hybrid && pieces(token@, '.').len() != 3 ==> r@
                == introspection_step(old(self)@.config, token@),
    {
        let jws = match &self.config.verification {
            VerificationConfig::Hybrid { .. } => decode_header(token).is_ok(),
            _ => true,
        };
        self.verify_classified(token, jws, now)
    }

    /// Whether a token that names this issuer, unverified, is this provider's.
    pub fn matches_issuer(&self, unverified_iss: Option<&str>) -> (r: bool)
        ensures
            r == (unverified_iss.deep_view() == Some(self@.config.issuer)),
    {
        match unverified_iss {
            Some(iss) => same_text(iss, self.config.issuer.as_str()),
            None => false,
        }
    }
}

} // verus!
