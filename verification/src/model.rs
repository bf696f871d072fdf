//! The model of a provider at work: what it remembers, and how each step of a
//! verification changes that and comes to the next step.

use vstd::prelude::*;
use crate::algorithm::{algorithm_name, Algorithm};
use crate::circuit::{closed_circuit, JwksCircuit, NANOS_PER_SEC};
use crate::claims::{json_document, member, texts_in, Json};
use crate::config::{ProviderView, VerificationView};
use crate::exchange::{
    status_text, success, DiscoveryReplyView, DocumentView, IntrospectionReplyView,
    IntrospectionView, JwksReplyView, NoticeView, PurposeView, StepView, WaitView,
};
use crate::identity::{claims_verdict, Verdict};
use crate::jwt::{
    jwk_set, jwt_header, key_answers, usable, HeaderView, KeyView, RulesView,
    MAX_LEEWAY_SECS,
};
use crate::text::decimal;
use crate::url_guard::{url_fault, UrlFault};

verus! {

/// Minimum spacing between key refreshes for unknown key ids, per provider,
/// in seconds.
pub const UNKNOWN_KID_REFRESH_FLOOR_SECS: u64 = 60;

/// Keys, and when they were fetched.
#[verifier::ext_equal]
pub struct CachedKeysView {
    pub keys: Seq<KeyView>,
    pub fetched_at: u64,
}

/// A discovery document, and when it was fetched.
#[verifier::ext_equal]
pub struct CachedDocumentView {
    pub document: DocumentView,
    pub fetched_at: u64,
}

/// What a provider is configured for and what it remembers.
#[verifier::ext_equal]
pub struct ProviderModel {
    pub config: ProviderView,
    pub allowed_algs: Seq<Algorithm>,
    pub jwks: Option<CachedKeysView>,
    pub discovery: Option<CachedDocumentView>,
    pub circuit: JwksCircuit,
    /// When keys were last refreshed for an unknown key id, whether or not
    /// that succeeded.
    pub last_kid_refresh: Option<u64>,
    pub notices: Seq<NoticeView>,
}

/// Whether what happened at `then` is less than `secs` seconds ago; the clock
/// does not run backwards.
pub open spec fn within(then: u64, now: u64, secs: u64) -> bool {
    (if now >= then {
        now - then
    } else {
        0
    }) < secs * NANOS_PER_SEC
}

/// Whether verification is defined for the leeway of a provider: a provider
/// that verifies no token with keys has no use for one.
pub open spec fn leeway_defined(p: ProviderView) -> bool {
    p.verification is OauthIntrospection || p.clock_skew_secs <= MAX_LEEWAY_SECS
}

/// Where a key refresh stands.
#[verifier::ext_equal]
pub enum RefreshView {
    /// It is over: keys may be used, or the message why not.
    Finished(Result<(), Seq<char>>),
    /// The discovery document is needed.
    FetchDiscovery { uri: Seq<char>, stale_ok: bool },
    /// The key set is needed.
    FetchJwks { uri: Seq<char>, stale_ok: bool },
}

impl ProviderModel {
    /// The circuit is in order, and verification is defined for the leeway.
    pub open spec fn wf(self) -> bool {
        self.circuit.wf() && leeway_defined(self.config)
    }

    /// What they are configured for is the same.
    pub open spec fn same_setup(self, other: ProviderModel) -> bool {
        self.config == other.config && self.allowed_algs == other.allowed_algs
    }

    /// Whether some tokens are verified with keys.
    pub open spec fn has_jwt_path(self) -> bool {
        !(self.config.verification is OauthIntrospection)
    }

    /// Whether there are keys that need no refresh.
    pub open spec fn has_fresh_keys(self, now: u64) -> bool {
        self.jwks matches Some(cached) && within(
            cached.fetched_at,
            now,
            self.config.verification.refresh_interval_secs(),
        )
    }

    /// Whether there are keys that may stand in for a failed refresh.
    pub open spec fn stale_ok(self, now: u64) -> bool {
        self.jwks matches Some(cached) && within(
            cached.fetched_at,
            now,
            self.config.verification.max_staleness_secs(),
        )
    }

    /// The discovery document that needs no refresh.
    pub open spec fn fresh_document(self, now: u64) -> Option<DocumentView> {
        match self.discovery {
            Some(cached) if within(
                cached.fetched_at,
                now,
                self.config.verification.refresh_interval_secs(),
            ) => Some(cached.document),
            _ => None,
        }
    }

    /// Why the URL guard refuses a URL for this provider, if it does.
    pub open spec fn guard(self, uri: Seq<char>) -> Option<UrlFault> {
        url_fault(uri, self.config.allowed_issuer_hosts, self.config.allow_private_issuer)
    }

    /// One notice more.
    pub open spec fn noting(self, notice: NoticeView) -> ProviderModel {
        ProviderModel { notices: self.notices.push(notice), ..self }
    }

    /// A refresh that failed upstream at `now`: the circuit takes note, and
    /// stale keys are served while they may be.
    pub open spec fn upstream_failed(
        self,
        stale_ok: bool,
        reason: Seq<char>,
        message: Seq<char>,
        now: u64,
    ) -> (ProviderModel, RefreshView) {
        let failed = ProviderModel { circuit: self.circuit.after_failure(now), ..self };
        if stale_ok {
            (failed.noting(NoticeView::StaleServed { reason }), RefreshView::Finished(Ok(())))
        } else {
            (failed, RefreshView::Finished(Err(message)))
        }
    }

    /// The document is there: the keys are fetched from where it says, unless
    /// the guard refuses. A refused address fails closed, stale keys or not: a
    /// document that leads there may be a compromised one, and that is no
    /// outage to be bridged.
    pub open spec fn request_keys(self, uri: Seq<char>, stale_ok: bool) -> RefreshView {
        match self.guard(uri) {
            Some(fault) => RefreshView::Finished(Err(fault.message())),
            None => RefreshView::FetchJwks { uri, stale_ok },
        }
    }

    /// A key refresh begins.
    pub open spec fn refresh(self, now: u64) -> (ProviderModel, RefreshView) {
        let stale_ok = self.stale_ok(now);
        if !self.circuit.admits(now) {
            (
                self.noting(NoticeView::ShortCircuited),
                RefreshView::Finished(
                    if stale_ok {
                        Ok(())
                    } else {
                        Err("JWKS circuit breaker open; stale keys exhausted"@)
                    },
                ),
            )
        } else {
            let tried = ProviderModel { circuit: self.circuit.after_attempt(now), ..self };
            let uri = self.config.effective_discovery_uri();
            match self.fresh_document(now) {
                Some(document) => (tried, tried.request_keys(document.jwks_uri, stale_ok)),
                None => match self.guard(uri) {
                    Some(fault) => tried.upstream_failed(
                        stale_ok,
                        "discovery_failed"@,
                        fault.message(),
                        now,
                    ),
                    None => (tried, RefreshView::FetchDiscovery { uri, stale_ok }),
                },
            }
        }
    }

    /// The discovery document that a reply holds, or why it is not accepted.
    pub open spec fn accepted_document(self, uri: Seq<char>, reply: DiscoveryReplyView) -> Result<
        DocumentView,
        Seq<char>,
    > {
        match reply {
            DiscoveryReplyView::SendFailed => Err(
                "failed to fetch OIDC discovery from "@ + uri,
            ),
            DiscoveryReplyView::RemoteAddrBlocked(why) => Err(
                "OIDC discovery SSRF blocked: "@ + why,
            ),
            DiscoveryReplyView::Responded { status, document } => {
                if !success(status) {
                    Err(
                        "OIDC discovery from "@ + uri + " returned status "@ + status_text(status),
                    )
                } else {
                    match document {
                        None => Err("failed to parse OIDC discovery from "@ + uri),
                        Some(d) => if d.issuer != self.config.issuer {
                            Err(
                                "OIDC discovery issuer mismatch: expected '"@ + self.config.issuer
                                    + "', got '"@ + d.issuer + "'"@,
                            )
                        } else {
                            Ok(d)
                        },
                    }
                }
            },
        }
    }

    /// A refresh goes on with the reply to its discovery fetch.
    pub open spec fn discovered(
        self,
        uri: Seq<char>,
        stale_ok: bool,
        reply: DiscoveryReplyView,
        now: u64,
    ) -> (ProviderModel, RefreshView) {
        match self.accepted_document(uri, reply) {
            Ok(document) => {
                let cached = ProviderModel {
                    discovery: Some(CachedDocumentView { document, fetched_at: now }),
                    ..self
                };
                (cached, cached.request_keys(document.jwks_uri, stale_ok))
            },
            Err(message) => self.upstream_failed(stale_ok, "discovery_failed"@, message, now),
        }
    }

    /// A refresh ends with the keys of a set.
    pub open spec fn keys_read(
        self,
        uri: Seq<char>,
        stale_ok: bool,
        keys: Seq<KeyView>,
        now: u64,
    ) -> (ProviderModel, RefreshView) {
        let served = ProviderModel { circuit: closed_circuit(), ..self };
        if keys.len() > 0 {
            (
                ProviderModel { jwks: Some(CachedKeysView { keys, fetched_at: now }), ..served },
                RefreshView::Finished(Ok(())),
            )
        } else if stale_ok {
            (served, RefreshView::Finished(Ok(())))
        } else {
            (
                self,
                RefreshView::Finished(Err("JWKS from "@ + uri + " contains no usable keys"@)),
            )
        }
    }

    /// A refresh ends with the reply to its fetch of the key set.
    pub open spec fn keys_fetched(
        self,
        uri: Seq<char>,
        stale_ok: bool,
        reply: JwksReplyView,
        now: u64,
    ) -> (ProviderModel, RefreshView) {
        match reply {
            JwksReplyView::SendFailed(why) => self.upstream_failed(
                stale_ok,
                "fetch_error"@,
                why,
                now,
            ),
            JwksReplyView::Responded { status, body } => {
                if !success(status) {
                    self.upstream_failed(
                        stale_ok,
                        "http_"@ + decimal(status as nat),
                        "JWKS fetch from "@ + uri + " returned status "@ + status_text(status),
                        now,
                    )
                } else {
                    match body {
                        None => self.upstream_failed(
                            stale_ok,
                            "body_error"@,
                            "failed to read JWKS response body"@,
                            now,
                        ),
                        Some(text) => match jwk_set(text) {
                            None => self.upstream_failed(
                                stale_ok,
                                "parse_error"@,
                                "failed to parse JWKS JSON"@,
                                now,
                            ),
                            Some(jwks) => self.keys_read(uri, stale_ok, usable(jwks), now),
                        },
                    }
                }
            },
        }
    }
}

// ---------------------------------------------------------------------------
// Verdicts by keys
// ---------------------------------------------------------------------------

/// What tokens of a provider are verified against, beside the key: exp and
/// nbf with the configured leeway, the issuer, and the audiences where there
/// are any. Every claim that is checked is required.
pub open spec fn token_rules(p: ProviderView, algorithm: Algorithm) -> RulesView {
    RulesView {
        algorithm,
        leeway: p.clock_skew_secs,
        validate_exp: true,
        validate_nbf: true,
        validate_aud: p.audiences.len() > 0,
        issuers: seq![p.issuer],
        audiences: if p.audiences.len() > 0 {
            Some(p.audiences)
        } else {
            None
        },
        required_claims: if p.audiences.len() > 0 {
            seq!["exp"@, "iss"@, "aud"@]
        } else {
            seq!["exp"@, "iss"@]
        },
    }
}

/// Whether a key can accept a token under `alg` with these claims.
pub open spec fn key_accepts(
    p: ProviderView,
    key: KeyView,
    alg: Algorithm,
    token: Seq<char>,
    claims: Json,
) -> bool {
    key_answers(token, key.key, token_rules(p, key.algorithm_for(alg)), Some(claims))
}

/// What is returned for the answer of one key: the verdict on the claims if
/// the key accepted the token, and otherwise nothing yet.
pub open spec fn answer_verdict(p: ProviderView, answer: Option<Json>) -> Option<Verdict> {
    match answer {
        Some(claims) => Some(claims_verdict(p, claims)),
        None => None,
    }
}

/// What comes of trying keys on a token that names `alg`, one after the other
/// and each under its own algorithm where it has one: the verdict on the claims
/// that the first key to accept it hands back, or a refusal when none does.
/// What a key answers depends on the time.
pub open spec fn keys_verdict(
    p: ProviderView,
    keys: Seq<KeyView>,
    alg: Algorithm,
    token: Seq<char>,
    verdict: Verdict,
) -> bool
    decreases keys.len(),
{
    if keys.len() == 0 {
        verdict == Verdict::Invalid("token signature verification failed"@)
    } else {
        exists|answer: Option<Json>| #[trigger]
            key_answers(
                token,
                keys[0].key,
                token_rules(p, keys[0].algorithm_for(alg)),
                answer,
            ) && match answer_verdict(p, answer) {
                Some(v) => verdict == v,
                None => keys_verdict(p, keys.drop_first(), alg, token, verdict),
            }
    }
}

/// The keys with that key id, in order.
pub open spec fn with_kid(keys: Seq<KeyView>, kid: Seq<char>) -> Seq<KeyView>
    decreases keys.len(),
{
    if keys.len() == 0 {
        Seq::empty()
    } else if keys.last().kid == Some(kid) {
        with_kid(keys.drop_last(), kid).push(keys.last())
    } else {
        with_kid(keys.drop_last(), kid)
    }
}

// ---------------------------------------------------------------------------
// Steps of a JWT verification
// ---------------------------------------------------------------------------

impl ProviderModel {
    /// The step by which a refresh that needs a fetch waits for it.
    pub open spec fn waiting(
        self,
        token: Seq<char>,
        purpose: PurposeView,
        next: RefreshView,
    ) -> StepView
        recommends
            !(next is Finished),
    {
        match next {
            RefreshView::FetchDiscovery { uri, stale_ok } => StepView::FetchDiscovery {
                wait: WaitView { token, purpose, stale_ok, uri },
                timeout_ms: self.config.verification.jwks_timeout_ms(),
                check_remote_addr: !self.config.allow_private_issuer,
            },
            RefreshView::FetchJwks { uri, stale_ok } => StepView::FetchJwks {
                wait: WaitView { token, purpose, stale_ok, uri },
                timeout_ms: self.config.verification.jwks_timeout_ms(),
            },
            RefreshView::Finished(_) => StepView::Done(Verdict::NoToken),
        }
    }

    /// Whether a refresh for an unknown key id may be tried.
    pub open spec fn may_refresh_for_unknown_kid(self, now: u64) -> bool {
        self.last_kid_refresh matches Some(at) ==> !within(at, now, UNKNOWN_KID_REFRESH_FLOOR_SECS)
    }

    /// The slot for a refresh for an unknown key id is claimed: it is granted
    /// where such a refresh may be tried, and stamped then.
    pub open spec fn kid_slot_claimed(self, now: u64, after: ProviderModel, granted: bool) -> bool {
        &&& granted == self.may_refresh_for_unknown_kid(now)
        &&& after == if granted {
            ProviderModel { last_kid_refresh: Some(now), ..self }
        } else {
            self
        }
    }

    /// What a refresh for an unknown key id that is over leads to, by whether
    /// keys may be used.
    pub open spec fn kid_refreshed(
        self,
        token: Seq<char>,
        kid: Seq<char>,
        alg: Algorithm,
        ok: bool,
        step: StepView,
    ) -> bool {
        match self.jwks {
            Some(cached) if ok => {
                if with_kid(cached.keys, kid).len() == 0 {
                    step == StepView::Done(
                        Verdict::Invalid(
                            "no key found for kid '"@ + kid + "' after JWKS refresh"@,
                        ),
                    )
                } else {
                    step matches StepView::Done(verdict) && keys_verdict(
                        self.config,
                        with_kid(cached.keys, kid),
                        alg,
                        token,
                        verdict,
                    )
                }
            },
            _ => step == StepView::Done(
                Verdict::Invalid("no key found for kid '"@ + kid + "'"@),
            ),
        }
    }

    /// Why the algorithm of a token is refused, if it is.
    pub open spec fn alg_refusal(self, alg: Algorithm) -> Option<Seq<char>> {
        if self.allowed_algs.len() > 0 && !self.allowed_algs.contains(alg) {
            Some(
                "algorithm "@ + algorithm_name(alg) + " not in allowed list for issuer '"@
                    + self.config.issuer + "'"@,
            )
        } else if alg == Algorithm::HS256 && !self.allowed_algs.contains(Algorithm::HS256) {
            Some("algorithm 'none' is not allowed"@)
        } else {
            None
        }
    }

    /// What a token with that key id and algorithm leads to, with these keys in
    /// the cache.
    pub open spec fn kid_looked_up(
        self,
        token: Seq<char>,
        kid: Seq<char>,
        alg: Algorithm,
        keys: Seq<KeyView>,
        now: u64,
        after: ProviderModel,
        step: StepView,
    ) -> bool {
        if with_kid(keys, kid).len() > 0 {
            after == self && (step matches StepView::Done(verdict) && keys_verdict(
                self.config,
                with_kid(keys, kid),
                alg,
                token,
                verdict,
            ))
        } else if !self.may_refresh_for_unknown_kid(now) {
            after == self && step == StepView::Done(
                Verdict::Invalid("no key for kid '"@ + kid + "' (refresh rate-limited)"@),
            )
        } else {
            let stamped = ProviderModel { last_kid_refresh: Some(now), ..self };
            let (refreshed, next) = stamped.refresh(now);
            after == refreshed && match next {
                RefreshView::Finished(result) => refreshed.kid_refreshed(
                    token,
                    kid,
                    alg,
                    result is Ok,
                    step,
                ),
                _ => step == refreshed.waiting(
                    token,
                    PurposeView::UnknownKid { kid, alg },
                    next,
                ),
            }
        }
    }

    /// What a token with this header, or with none that can be read, leads to
    /// once keys have been made sure of.
    pub open spec fn header_read(
        self,
        token: Seq<char>,
        header: Result<HeaderView, Seq<char>>,
        now: u64,
        after: ProviderModel,
        step: StepView,
    ) -> bool {
        match header {
            Err(e) => after == self && step == StepView::Done(
                Verdict::Invalid("invalid JWT header: "@ + e),
            ),
            Ok(header) => match self.alg_refusal(header.alg) {
                Some(message) => after == self && step == StepView::Done(Verdict::Invalid(message)),
                None => match self.jwks {
                    None => after == self && step == StepView::Done(
                        Verdict::Invalid(
                            "no JWKS keys available for issuer '"@ + self.config.issuer + "'"@,
                        ),
                    ),
                    Some(cached) => match header.kid {
                        None => after == self && (step matches StepView::Done(verdict)
                            && keys_verdict(self.config, cached.keys, header.alg, token, verdict)),
                        Some(kid) => self.kid_looked_up(
                            token,
                            kid,
                            header.alg,
                            cached.keys,
                            now,
                            after,
                            step,
                        ),
                    },
                },
            },
        }
    }

    /// What a token leads to once keys have been made sure of.
    pub open spec fn keys_ensured(
        self,
        token: Seq<char>,
        now: u64,
        after: ProviderModel,
        step: StepView,
    ) -> bool {
        self.header_read(token, jwt_header(token), now, after, step)
    }

    /// What a refresh that is over leads to, by what it was for.
    pub open spec fn refresh_over(
        self,
        token: Seq<char>,
        purpose: PurposeView,
        result: Result<(), Seq<char>>,
        now: u64,
        after: ProviderModel,
        step: StepView,
    ) -> bool {
        match purpose {
            PurposeView::Freshness => match result {
                Ok(_) => self.keys_ensured(token, now, after, step),
                Err(e) => after == self && step == StepView::Done(
                    Verdict::Invalid(
                        "JWKS unavailable for issuer '"@ + self.config.issuer + "': "@ + e,
                    ),
                ),
            },
            PurposeView::UnknownKid { kid, alg } => after == self && self.kid_refreshed(
                token,
                kid,
                alg,
                result is Ok,
                step,
            ),
        }
    }

    /// Where a refresh leads a verification, over or not.
    pub open spec fn refresh_leads(
        self,
        token: Seq<char>,
        purpose: PurposeView,
        next: RefreshView,
        now: u64,
        after: ProviderModel,
        step: StepView,
    ) -> bool {
        match next {
            RefreshView::Finished(result) => self.refresh_over(
                token,
                purpose,
                result,
                now,
                after,
                step,
            ),
            _ => after == self && step == self.waiting(token, purpose, next),
        }
    }

    /// The JWT path begins.
    pub open spec fn jwt_begins(
        self,
        token: Seq<char>,
        now: u64,
        after: ProviderModel,
        step: StepView,
    ) -> bool {
        if self.has_fresh_keys(now) {
            self.keys_ensured(token, now, after, step)
        } else {
            let (refreshed, next) = self.refresh(now);
            refreshed.refresh_leads(token, PurposeView::Freshness, next, now, after, step)
        }
    }

    /// The JWT path goes on with the reply to a discovery fetch.
    pub open spec fn discovery_resumes(
        self,
        wait: WaitView,
        reply: DiscoveryReplyView,
        now: u64,
        after: ProviderModel,
        step: StepView,
    ) -> bool {
        let (refreshed, next) = self.discovered(wait.uri, wait.stale_ok, reply, now);
        refreshed.refresh_leads(wait.token, wait.purpose, next, now, after, step)
    }

    /// The JWT path goes on with the reply to a fetch of a key set.
    pub open spec fn jwks_resumes(
        self,
        wait: WaitView,
        reply: JwksReplyView,
        now: u64,
        after: ProviderModel,
        step: StepView,
    ) -> bool {
        let (refreshed, next) = self.keys_fetched(wait.uri, wait.stale_ok, reply, now);
        refreshed.refresh_leads(wait.token, wait.purpose, next, now, after, step)
    }

    /// The JWT path goes on with the usable keys of a set.
    pub open spec fn keys_resume(
        self,
        wait: WaitView,
        keys: Seq<KeyView>,
        now: u64,
        after: ProviderModel,
        step: StepView,
    ) -> bool {
        let (refreshed, next) = self.keys_read(wait.uri, wait.stale_ok, keys, now);
        refreshed.refresh_leads(wait.token, wait.purpose, next, now, after, step)
    }

    /// A verification begins, of a token that is a JWS or is none.
    pub open spec fn token_classified(
        self,
        token: Seq<char>,
        jws: bool,
        now: u64,
        after: ProviderModel,
        step: StepView,
    ) -> bool {
        match self.config.verification {
            VerificationView::OidcJwks { .. } => self.jwt_begins(token, now, after, step),
            VerificationView::OauthIntrospection { .. } => after == self && step
                == introspection_step(self.config, token),
            VerificationView::Hybrid { .. } => if jws {
                self.jwt_begins(token, now, after, step)
            } else {
                after == self && step == introspection_step(self.config, token)
            },
        }
    }

    /// A verification begins. A token is a JWS where its header can be read.
    pub open spec fn begins(
        self,
        token: Seq<char>,
        now: u64,
        after: ProviderModel,
        step: StepView,
    ) -> bool {
        self.token_classified(token, jwt_header(token) is Ok, now, after, step)
    }
}

// ---------------------------------------------------------------------------
// Introspection
// ---------------------------------------------------------------------------

/// How a token is introspected by a provider, where it is configured to.
pub open spec fn introspection_request(p: ProviderView, token: Seq<char>) -> Option<
    IntrospectionView,
> {
    match p.verification {
        VerificationView::OauthIntrospection {
            introspection_url,
            client_id,
            client_secret_ref,
            timeout_ms,
        } => Some(
            IntrospectionView {
                url: introspection_url,
                client_id,
                client_secret: client_secret_ref,
                token,
                timeout_ms,
            },
        ),
        VerificationView::Hybrid {
            introspection_url,
            client_id,
            client_secret_ref,
            introspection_timeout_ms,
            ..
        } => Some(
            IntrospectionView {
                url: introspection_url,
                client_id,
                client_secret: client_secret_ref,
                token,
                timeout_ms: introspection_timeout_ms,
            },
        ),
        VerificationView::OidcJwks { .. } => None,
    }
}

/// An introspection begins: the request is handed out, unless the guard
/// refuses where it would go.
pub open spec fn introspection_step(p: ProviderView, token: Seq<char>) -> StepView {
    match introspection_request(p, token) {
        Some(request) => match url_fault(
            request.url,
            p.allowed_issuer_hosts,
            p.allow_private_issuer,
        ) {
            Some(fault) => StepView::Done(Verdict::Invalid(fault.message())),
            None => StepView::Introspect(request),
        },
        None => StepView::Done(
            Verdict::Invalid("introspection not configured for this provider"@),
        ),
    }
}

/// The audiences that an `aud` claim names.
pub open spec fn audiences_named(aud: Json) -> Seq<Seq<char>> {
    match aud {
        Json::Text(t) => seq![t],
        Json::List(items) => texts_in(items),
        _ => Seq::empty(),
    }
}

/// Whether two lists have an element in common.
pub open spec fn overlap(expected: Seq<Seq<char>>, named: Seq<Seq<char>>) -> bool {
    exists|i: int| 0 <= i < expected.len() && named.contains(#[trigger] expected[i])
}

/// The verdict on the claims of an introspection response.
pub open spec fn introspected(p: ProviderView, body: Json) -> Verdict {
    if member(body, "active"@) != Some(Json::Bool(true)) {
        Verdict::Invalid("token is not active (introspection)"@)
    } else if member(body, "iss"@) matches Some(Json::Text(iss)) && iss != p.issuer {
        Verdict::Invalid(
            "introspection issuer mismatch: expected '"@ + p.issuer + "', got '"@ + member(
                body,
                "iss"@,
            ).unwrap()->Text_0 + "'"@,
        )
    } else if p.audiences.len() > 0 && member(body, "aud"@) is None {
        Verdict::Invalid(
            "introspection response for issuer '"@ + p.issuer
                + "' carries no `aud`; cannot honour the configured audience binding (set allow_any_audience to accept this)"@,
        )
    } else if p.audiences.len() > 0 && !overlap(
        p.audiences,
        audiences_named(member(body, "aud"@).unwrap()),
    ) {
        Verdict::Invalid("audience mismatch for issuer '"@ + p.issuer + "'"@)
    } else {
        claims_verdict(p, body)
    }
}

/// The JSON document that the body of a response holds, or why there is none.
pub open spec fn body_document(body: Result<Seq<u8>, Seq<char>>) -> Result<Json, Seq<char>> {
    match body {
        Ok(bytes) => match json_document(bytes) {
            Ok(document) => Ok(document),
            Err(_) => Err("error decoding response body"@),
        },
        Err(why) => Err(why),
    }
}

/// The verdict that an introspection comes to.
pub open spec fn introspection_verdict(p: ProviderView, reply: IntrospectionReplyView) -> Verdict {
    match reply {
        IntrospectionReplyView::SendFailed(why) => Verdict::Invalid(
            "introspection request failed for issuer '"@ + p.issuer + "': "@ + why,
        ),
        IntrospectionReplyView::Responded { status, body } => {
            if !success(status) {
                Verdict::Invalid(
                    "introspection returned status "@ + status_text(status) + " for issuer '"@
                        + p.issuer + "'"@,
                )
            } else {
                match body_document(body) {
                    Ok(claims) => introspected(p, claims),
                    Err(why) => Verdict::Invalid(
                        "failed to parse introspection response for issuer '"@ + p.issuer + "': "@
                            + why,
                    ),
                }
            }
        },
    }
}

} // verus!
