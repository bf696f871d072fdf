//! What verification guarantees, whatever order tokens and replies come in.

use vstd::prelude::*;
use crate::algorithm::{
    algorithm_name, algorithm_named, hmac_names_are_symmetric, names_name_one_algorithm, symmetric,
    Algorithm,
};
use crate::circuit::{countable, JwksCircuit};
use crate::claims::{json_document, member, Json};
use crate::config::{
    hmac_opt_in, provider_fault, valid_jwks_strategy, verification_fault, ProviderView,
};
use crate::exchange::{
    success, DiscoveryReplyView, IntrospectionReplyView, JwksReplyView, NoticeView, PurposeView,
    StepView, WaitView,
};
use crate::identity::{claims_verdict, identity_has_subject_and_issuer, Verdict};
use crate::jwt::{
    claim_names, claims_bound, in_time, jwk_set, jwt_header, key_answers, key_answers_at, seconds,
    usable, KeyView,
};
use crate::model::{
    answer_verdict, audiences_named, introspected, introspection_request, introspection_step,
    introspection_verdict, key_accepts, keys_verdict, leeway_defined, overlap, token_rules,
    with_kid, CachedDocumentView, CachedKeysView, ProviderModel, RefreshView,
};
use crate::provider::{algorithms_named, first_unsupported, new_provider};
use crate::text::{blank, pieces_rejoin};

verus! {

/// What moves a provider: a token, or the reply to a fetch that it waits for.
pub enum Event {
    Token(Seq<char>),
    Discovery(WaitView, DiscoveryReplyView),
    Jwks(WaitView, JwksReplyView),
}

/// How an event at `now` moves a provider, and to which step.
pub open spec fn moves(
    m: ProviderModel,
    event: Event,
    now: u64,
    after: ProviderModel,
    step: StepView,
) -> bool {
    match event {
        Event::Token(token) => m.begins(token, now, after, step),
        Event::Discovery(wait, reply) => m.discovery_resumes(wait, reply, now, after, step),
        Event::Jwks(wait, reply) => m.jwks_resumes(wait, reply, now, after, step),
    }
}

/// The fetch that a step waits for.
pub open spec fn awaited(step: StepView) -> Option<WaitView> {
    match step {
        StepView::FetchDiscovery { wait, .. } => Some(wait),
        StepView::FetchJwks { wait, .. } => Some(wait),
        _ => None,
    }
}

/// The token that an event is about.
pub open spec fn event_token(event: Event) -> Seq<char> {
    match event {
        Event::Token(token) => token,
        Event::Discovery(wait, _) => wait.token,
        Event::Jwks(wait, _) => wait.token,
    }
}

/// The fetch that an event replies to.
pub open spec fn event_wait(event: Event) -> Option<WaitView> {
    match event {
        Event::Token(_) => None,
        Event::Discovery(wait, _) => Some(wait),
        Event::Jwks(wait, _) => Some(wait),
    }
}

/// Whether a circuit has failures to remember: it has counted some, or is
/// open and its period is not over.
pub open spec fn troubled(circuit: JwksCircuit, now: u64) -> bool {
    match circuit {
        JwksCircuit::Closed { consecutive_failures } => consecutive_failures > 0,
        JwksCircuit::Open { .. } => !circuit.admits(now),
    }
}

/// The usable keys of the set that a reply at `now` holds, if it holds one.
pub open spec fn served_keys(reply: JwksReplyView, now: u64) -> Option<CachedKeysView> {
    match reply {
        JwksReplyView::Responded { status, body: Some(text) } if success(status) => {
            match jwk_set(text) {
                Some(jwks) => Some(CachedKeysView { keys: usable(jwks), fetched_at: now }),
                None => None,
            }
        },
        _ => None,
    }
}

/// The discovery document that a reply at `now` holds, if it holds one.
pub open spec fn served_document(reply: DiscoveryReplyView, now: u64) -> Option<
    CachedDocumentView,
> {
    match reply {
        DiscoveryReplyView::Responded { status, document: Some(document) } if success(status) => {
            Some(CachedDocumentView { document, fetched_at: now })
        },
        _ => None,
    }
}

// ---------------------------------------------------------------------------
// The stages of an event
// ---------------------------------------------------------------------------

/// Whether an event is a token that is introspected.
pub open spec fn introspects(m: ProviderModel, event: Event) -> bool {
    event matches Event::Token(token) && (m.config.verification is OauthIntrospection || (
    m.config.verification is Hybrid && jwt_header(token) is Err))
}

/// What the refresh of an event is for.
pub open spec fn event_purpose(event: Event) -> PurposeView {
    match event_wait(event) {
        Some(wait) => wait.purpose,
        None => PurposeView::Freshness,
    }
}

/// Where the refresh of an event comes to.
pub open spec fn event_refresh(m: ProviderModel, event: Event, now: u64) -> (
    ProviderModel,
    RefreshView,
) {
    match event {
        Event::Token(_) => if m.has_fresh_keys(now) {
            (m, RefreshView::Finished(Ok(())))
        } else {
            m.refresh(now)
        },
        Event::Discovery(wait, reply) => m.discovered(wait.uri, wait.stale_ok, reply, now),
        Event::Jwks(wait, reply) => m.keys_fetched(wait.uri, wait.stale_ok, reply, now),
    }
}

/// Whether keys are as before, or usable ones that the event served.
spec fn keys_replaced(m: ProviderModel, event: Event, now: u64, after: ProviderModel) -> bool {
    after.jwks == m.jwks || (event matches Event::Jwks(_, reply) && after.jwks == served_keys(
        reply,
        now,
    ) && (after.jwks matches Some(cached) && cached.keys.len() > 0))
}

/// Whether the document is as before, or one of the issuer that the event
/// served.
spec fn document_replaced(m: ProviderModel, event: Event, now: u64, after: ProviderModel) -> bool {
    after.discovery == m.discovery || (event matches Event::Discovery(_, reply) && after.discovery
        == served_document(reply, now) && (after.discovery matches Some(cached)
        && cached.document.issuer == m.config.issuer))
}

/// An event is a token that is introspected, or a refresh and what it leads
/// to.
proof fn lemma_stages(
    m: ProviderModel,
    event: Event,
    now: u64,
    after: ProviderModel,
    step: StepView,
)
    requires
        moves(m, event, now, after, step),
    ensures
        introspects(m, event) ==> after == m && step == introspection_step(
            m.config,
            event_token(event),
        ),
        !introspects(m, event) ==> event_refresh(m, event, now).0.refresh_leads(
            event_token(event),
            event_purpose(event),
            event_refresh(m, event, now).1,
            now,
            after,
            step,
        ),
{
}

/// What a refresh that begins keeps, and where it comes to.
proof fn lemma_refresh(m: ProviderModel, now: u64)
    ensures
        ({
            let (refreshed, next) = m.refresh(now);
            &&& refreshed.config == m.config
            &&& refreshed.allowed_algs == m.allowed_algs
            &&& m.wf() ==> refreshed.wf()
            &&& refreshed.jwks == m.jwks
            &&& refreshed.discovery == m.discovery
            &&& refreshed.last_kid_refresh == m.last_kid_refresh
            &&& !m.circuit.admits(now) ==> next is Finished && refreshed.circuit == m.circuit
            &&& countable(now) && troubled(m.circuit, now) ==> troubled(refreshed.circuit, now)
            &&& match next {
                RefreshView::FetchDiscovery { uri, stale_ok } => m.guard(uri) is None && uri
                    == m.config.effective_discovery_uri() && stale_ok == m.stale_ok(now),
                RefreshView::FetchJwks { uri, stale_ok } => m.guard(uri) is None && stale_ok
                    == m.stale_ok(now),
                RefreshView::Finished(result) => result is Ok ==> m.stale_ok(now),
            }
        }),
{
}

/// What the reply to a discovery fetch keeps, and where the refresh comes to.
proof fn lemma_discovered(
    m: ProviderModel,
    uri: Seq<char>,
    stale_ok: bool,
    reply: DiscoveryReplyView,
    now: u64,
)
    ensures
        ({
            let (refreshed, next) = m.discovered(uri, stale_ok, reply, now);
            &&& refreshed.config == m.config
            &&& refreshed.allowed_algs == m.allowed_algs
            &&& m.wf() ==> refreshed.wf()
            &&& refreshed.jwks == m.jwks
            &&& refreshed.discovery == m.discovery || (refreshed.discovery matches Some(cached)
                && refreshed.discovery == served_document(reply, now) && cached.document.issuer
                == m.config.issuer)
            &&& refreshed.last_kid_refresh == m.last_kid_refresh
            &&& countable(now) && troubled(m.circuit, now) ==> troubled(refreshed.circuit, now)
            &&& match next {
                RefreshView::FetchDiscovery { .. } => false,
                RefreshView::FetchJwks { uri: keys, stale_ok: kept } => m.guard(keys) is None
                    && kept == stale_ok,
                RefreshView::Finished(result) => result is Ok ==> stale_ok,
            }
        }),
{
}

/// What the reply to a fetch of a key set keeps, and where the refresh comes
/// to.
proof fn lemma_keys_fetched(
    m: ProviderModel,
    uri: Seq<char>,
    stale_ok: bool,
    reply: JwksReplyView,
    now: u64,
)
    ensures
        ({
            let (refreshed, next) = m.keys_fetched(uri, stale_ok, reply, now);
            &&& refreshed.config == m.config
            &&& refreshed.allowed_algs == m.allowed_algs
            &&& m.wf() ==> refreshed.wf()
            &&& refreshed.jwks == m.jwks || (refreshed.jwks matches Some(cached) && refreshed.jwks
                == served_keys(reply, now) && cached.keys.len() > 0)
            &&& refreshed.discovery == m.discovery
            &&& refreshed.last_kid_refresh == m.last_kid_refresh
            &&& countable(now) && troubled(m.circuit, now) ==> troubled(refreshed.circuit, now)
                || served_keys(reply, now) is Some
            &&& next matches RefreshView::Finished(result) && (result is Ok ==> stale_ok || (
            refreshed.jwks matches Some(cached) && cached.fetched_at == now))
        }),
{
}

/// What the refresh of an event keeps, and where it comes to.
proof fn lemma_event_refresh(m: ProviderModel, event: Event, now: u64)
    ensures
        ({
            let (refreshed, next) = event_refresh(m, event, now);
            &&& refreshed.config == m.config
            &&& refreshed.allowed_algs == m.allowed_algs
            &&& m.wf() ==> refreshed.wf()
            &&& keys_replaced(m, event, now, refreshed)
            &&& document_replaced(m, event, now, refreshed)
            &&& refreshed.last_kid_refresh == m.last_kid_refresh
            &&& event is Token && !m.circuit.admits(now) ==> next is Finished && refreshed.circuit
                == m.circuit
            &&& countable(now) && troubled(m.circuit, now) ==> troubled(refreshed.circuit, now) || (
            event matches Event::Jwks(_, reply) && served_keys(reply, now) is Some)
            &&& match next {
                RefreshView::FetchDiscovery { uri, stale_ok } => m.guard(uri) is None && uri
                    == m.config.effective_discovery_uri() && stale_ok == m.stale_ok(now)
                    && event is Token,
                RefreshView::FetchJwks { uri, stale_ok } => m.guard(uri) is None && (stale_ok
                    ==> m.stale_ok(now) || (event_wait(event) matches Some(wait)
                    && wait.stale_ok)),
                RefreshView::Finished(result) => result is Ok ==> m.has_fresh_keys(now)
                    || m.stale_ok(now) || (event_wait(event) matches Some(wait) && wait.stale_ok)
                    || (refreshed.jwks matches Some(cached) && cached.fetched_at == now),
            }
        }),
{
    match event {
        Event::Token(_) => {
            lemma_refresh(m, now);
        },
        Event::Discovery(wait, reply) => {
            lemma_discovered(m, wait.uri, wait.stale_ok, reply, now);
        },
        Event::Jwks(wait, reply) => {
            lemma_keys_fetched(m, wait.uri, wait.stale_ok, reply, now);
        },
    }
}

/// What trying keys can come to.
proof fn lemma_keys_verdict(
    p: ProviderView,
    keys: Seq<KeyView>,
    alg: Algorithm,
    token: Seq<char>,
    verdict: Verdict,
)
    requires
        keys_verdict(p, keys, alg, token, verdict),
    ensures
        verdict != Verdict::NoToken,
        verdict matches Verdict::Verified(id) ==> id.issuer == p.issuer && id.provider_label
            == p.issuer && !blank(id.subject_id),
    decreases keys.len(),
{
    if keys.len() > 0 {
        let answer = choose|answer: Option<Json>| #[trigger]
            key_answers(
                token,
                keys[0].key,
                token_rules(p, keys[0].algorithm_for(alg)),
                answer,
            ) && match (answer_verdict(p, answer)) {
                Some(v) => verdict == v,
                None => keys_verdict(p, keys.drop_first(), alg, token, verdict),
            };
        match answer {
            Some(claims) => {
                identity_has_subject_and_issuer(p, claims);
            },
            None => {
                lemma_keys_verdict(p, keys.drop_first(), alg, token, verdict);
            },
        }
    }
}

/// What every step of a JWT verification has in common.
spec fn jwt_step(p: ProviderView, step: StepView) -> bool {
    &&& !(step is Introspect)
    &&& step != StepView::Done(Verdict::NoToken)
    &&& step matches StepView::Done(Verdict::Verified(id)) ==> id.issuer == p.issuer
        && id.provider_label == p.issuer && !blank(id.subject_id)
    &&& step matches StepView::FetchDiscovery { check_remote_addr, .. } ==> check_remote_addr
        == !p.allow_private_issuer
}

/// What a refresh for an unknown key id that is over comes to.
proof fn lemma_kid_refreshed(
    m: ProviderModel,
    token: Seq<char>,
    kid: Seq<char>,
    alg: Algorithm,
    ok: bool,
    step: StepView,
)
    requires
        m.kid_refreshed(token, kid, alg, ok, step),
    ensures
        jwt_step(m.config, step),
        awaited(step) is None,
        (step matches StepView::Done(verdict) && verdict is Verified) ==> ok && (
        m.jwks matches Some(cached) && keys_verdict(
            m.config,
            with_kid(cached.keys, kid),
            alg,
            token,
            step->Done_0,
        )),
{
    if let Some(cached) = m.jwks {
        let verdict = step->Done_0;
        if keys_verdict(m.config, with_kid(cached.keys, kid), alg, token, verdict) {
            lemma_keys_verdict(m.config, with_kid(cached.keys, kid), alg, token, verdict);
        }
    }
}

/// Whether a header names that key id and that algorithm, which is allowed.
spec fn names_kid(m: ProviderModel, token: Seq<char>, kid: Seq<char>, alg: Algorithm) -> bool {
    jwt_header(token) matches Ok(header) && header.kid == Some(kid) && header.alg == alg
        && m.alg_refusal(alg) is None
}

/// What looking up keys keeps, and what it comes to.
proof fn lemma_ensured(
    m: ProviderModel,
    token: Seq<char>,
    now: u64,
    after: ProviderModel,
    step: StepView,
)
    requires
        m.keys_ensured(token, now, after, step),
    ensures
        after.config == m.config,
        after.allowed_algs == m.allowed_algs,
        m.wf() ==> after.wf(),
        after.jwks == m.jwks,
        after.discovery == m.discovery,
        after.last_kid_refresh == m.last_kid_refresh || (after.last_kid_refresh == Some(now)
            && m.may_refresh_for_unknown_kid(now)),
        !m.circuit.admits(now) ==> awaited(step) is None && after.circuit == m.circuit,
        countable(now) && troubled(m.circuit, now) ==> troubled(after.circuit, now),
        jwt_step(m.config, step),
        step matches StepView::FetchDiscovery { wait, .. } ==> wait.uri
            == m.config.effective_discovery_uri(),
        awaited(step) matches Some(wait) ==> m.guard(wait.uri) is None && wait.token == token
            && wait.stale_ok == m.stale_ok(now) && after.last_kid_refresh == Some(now) && (
        wait.purpose matches PurposeView::UnknownKid { kid, alg } && names_kid(m, token, kid, alg)),
        (step matches StepView::Done(verdict) && verdict is Verified) ==> m.jwks is Some,
{
    if let Ok(header) = jwt_header(token) {
        if let Some(cached) = m.jwks {
            let keys = match header.kid {
                Some(kid) => with_kid(cached.keys, kid),
                None => cached.keys,
            };
            if step is Done && keys_verdict(m.config, keys, header.alg, token, step->Done_0) {
                lemma_keys_verdict(m.config, keys, header.alg, token, step->Done_0);
            }
            if let Some(kid) = header.kid {
                let stamped = ProviderModel { last_kid_refresh: Some(now), ..m };
                lemma_refresh(stamped, now);
                let (refreshed, next) = stamped.refresh(now);
                if let RefreshView::Finished(result) = next {
                    if refreshed.kid_refreshed(token, kid, header.alg, result is Ok, step) {
                        lemma_kid_refreshed(refreshed, token, kid, header.alg, result is Ok, step);
                    }
                }
            }
        }
    }
}

/// What a verification keeps where its refresh leads it, and what it comes
/// to.
proof fn lemma_leads(
    m: ProviderModel,
    token: Seq<char>,
    purpose: PurposeView,
    next: RefreshView,
    now: u64,
    after: ProviderModel,
    step: StepView,
)
    requires
        m.refresh_leads(token, purpose, next, now, after, step),
    ensures
        after.config == m.config,
        after.allowed_algs == m.allowed_algs,
        m.wf() ==> after.wf(),
        after.jwks == m.jwks,
        after.discovery == m.discovery,
        after.last_kid_refresh == m.last_kid_refresh || (after.last_kid_refresh == Some(now)
            && m.may_refresh_for_unknown_kid(now)),
        next is Finished && !m.circuit.admits(now) ==> awaited(step) is None && after.circuit
            == m.circuit,
        countable(now) && troubled(m.circuit, now) ==> troubled(after.circuit, now),
        jwt_step(m.config, step),
        step matches StepView::FetchDiscovery { wait, .. } ==> wait.uri
            == m.config.effective_discovery_uri() || next == (RefreshView::FetchDiscovery {
            uri: wait.uri,
            stale_ok: wait.stale_ok,
        }),
        awaited(step) matches Some(wait) ==> wait.token == token && (match next {
            RefreshView::FetchDiscovery { uri, stale_ok } => wait.uri == uri && wait.stale_ok
                == stale_ok && wait.purpose == purpose,
            RefreshView::FetchJwks { uri, stale_ok } => wait.uri == uri && wait.stale_ok == stale_ok
                && wait.purpose == purpose,
            RefreshView::Finished(_) => m.guard(wait.uri) is None && wait.stale_ok == m.stale_ok(
                now,
            ) && after.last_kid_refresh == Some(now) && (wait.purpose
                matches PurposeView::UnknownKid { kid, alg } && names_kid(m, token, kid, alg)),
        }),
        (step matches StepView::Done(verdict) && verdict is Verified) ==> m.jwks is Some && (next
            matches RefreshView::Finished(result) && result is Ok),
{
    if let RefreshView::Finished(result) = next {
        match purpose {
            PurposeView::Freshness => {
                if result is Ok {
                    lemma_ensured(m, token, now, after, step);
                }
            },
            PurposeView::UnknownKid { kid, alg } => {
                lemma_kid_refreshed(m, token, kid, alg, result is Ok, step);
            },
        }
    }
}

/// What an event keeps, and what it comes to.
proof fn lemma_moves(
    m: ProviderModel,
    event: Event,
    now: u64,
    after: ProviderModel,
    step: StepView,
)
    requires
        moves(m, event, now, after, step),
    ensures
        introspects(m, event) ==> after == m && step == introspection_step(
            m.config,
            event_token(event),
        ),
        step is Introspect ==> introspects(m, event),
        !introspects(m, event) ==> jwt_step(m.config, step),
        after.config == m.config,
        after.allowed_algs == m.allowed_algs,
        m.wf() ==> after.wf(),
        keys_replaced(m, event, now, after),
        document_replaced(m, event, now, after),
        after.last_kid_refresh == m.last_kid_refresh || (after.last_kid_refresh == Some(now)
            && m.may_refresh_for_unknown_kid(now)),
        event is Token && !m.circuit.admits(now) ==> awaited(step) is None && after.circuit
            == m.circuit,
        countable(now) && troubled(m.circuit, now) ==> troubled(after.circuit, now) || (
        event matches Event::Jwks(_, reply) && served_keys(reply, now) is Some),
        step matches StepView::FetchDiscovery { wait, .. } ==> wait.uri
            == m.config.effective_discovery_uri(),
        awaited(step) matches Some(wait) ==> m.guard(wait.uri) is None && wait.token == event_token(
            event,
        ) && (wait.stale_ok ==> after.stale_ok(now) || (event_wait(event) matches Some(earlier)
            && earlier.stale_ok)) && (wait.purpose == event_purpose(event) || (
        after.last_kid_refresh == Some(now) && (wait.purpose
            matches PurposeView::UnknownKid { kid, alg } && names_kid(
            m,
            event_token(event),
            kid,
            alg,
        )))),
        (step matches StepView::Done(verdict) && verdict is Verified) ==> (after.jwks
            matches Some(cached) && (cached.fetched_at == now || after.has_fresh_keys(now)
            || after.stale_ok(now) || (event_wait(event) matches Some(wait) && wait.stale_ok))),
{
    lemma_stages(m, event, now, after, step);
    lemma_event_refresh(m, event, now);
    if !introspects(m, event) {
        let (refreshed, next) = event_refresh(m, event, now);
        lemma_leads(
            refreshed,
            event_token(event),
            event_purpose(event),
            next,
            now,
            after,
            step,
        );
    }
}

// ---------------------------------------------------------------------------
// Fetches
// ---------------------------------------------------------------------------

/// Every URL that is requested, be it for a discovery document, for keys or
/// for an introspection, has passed the URL guard; the first and the last are
/// the configured ones, and the response to a discovery fetch is checked for
/// its address unless private addresses are permitted.
pub proof fn fetches_are_guarded(
    m: ProviderModel,
    event: Event,
    now: u64,
    after: ProviderModel,
    step: StepView,
)
    requires
        moves(m, event, now, after, step),
    ensures
        awaited(step) matches Some(wait) ==> m.guard(wait.uri) is None,
        step matches StepView::FetchDiscovery { wait, check_remote_addr, .. } ==> wait.uri
            == m.config.effective_discovery_uri() && check_remote_addr
            == !m.config.allow_private_issuer,
        step matches StepView::Introspect(request) ==> m.guard(request.url) is None
            && introspection_request(m.config, event_token(event)) == Some(request),
{
    lemma_moves(m, event, now, after, step);
}

/// Nothing changes what a provider is configured for, and a provider that is
/// in order stays in order.
pub proof fn configuration_stays(
    m: ProviderModel,
    event: Event,
    now: u64,
    after: ProviderModel,
    step: StepView,
)
    requires
        moves(m, event, now, after, step),
    ensures
        after.config == m.config,
        after.allowed_algs == m.allowed_algs,
        m.wf() ==> after.wf(),
{
    lemma_moves(m, event, now, after, step);
}

/// While the circuit is open, no token leads to a fetch.
pub proof fn open_circuit_fetches_nothing(
    m: ProviderModel,
    token: Seq<char>,
    now: u64,
    after: ProviderModel,
    step: StepView,
)
    requires
        moves(m, Event::Token(token), now, after, step),
        !m.circuit.admits(now),
    ensures
        awaited(step) is None,
        after.circuit == m.circuit,
{
    lemma_moves(m, Event::Token(token), now, after, step);
}

/// Only a key set that was served mends the circuit: stale keys that stand in
/// for a failed fetch do not.
pub proof fn only_served_keys_mend_the_circuit(
    m: ProviderModel,
    event: Event,
    now: u64,
    after: ProviderModel,
    step: StepView,
)
    requires
        moves(m, event, now, after, step),
        countable(now),
        troubled(m.circuit, now),
    ensures
        troubled(after.circuit, now) || (event matches Event::Jwks(_, reply) && served_keys(
            reply,
            now,
        ) is Some),
{
    lemma_moves(m, event, now, after, step);
}

/// With the circuit open and no keys within their staleness, a token of the
/// JWT path is refused at once.
pub proof fn exhausted_keys_fail_fast(
    m: ProviderModel,
    token: Seq<char>,
    now: u64,
    after: ProviderModel,
    step: StepView,
)
    requires
        m.jwt_begins(token, now, after, step),
        !m.circuit.admits(now),
        !m.has_fresh_keys(now),
        !m.stale_ok(now),
    ensures
        step == StepView::Done(
            Verdict::Invalid(
                "JWKS unavailable for issuer '"@ + m.config.issuer + "': "@
                    + "JWKS circuit breaker open; stale keys exhausted"@,
            ),
        ),
        after == m.noting(NoticeView::ShortCircuited),
{
}

/// An outage of the issuer is bridged: while keys are within their staleness,
/// a discovery fetch that serves no document of the issuer and a fetch that
/// serves no usable keys end the refresh well, be it that nothing was sent,
/// that the address was blocked, that the answer was an error, or that its
/// body could not be read or did not parse. The keys stay as they were and may
/// be used, and the circuit counts one failure, but where a key set came that
/// has no usable keys.
pub proof fn outage_is_bridged(
    m: ProviderModel,
    uri: Seq<char>,
    discovery: DiscoveryReplyView,
    jwks: JwksReplyView,
    now: u64,
)
    ensures
        (served_document(discovery, now) matches Some(cached) ==> cached.document.issuer
            != m.config.issuer) ==> ({
            let (after, next) = m.discovered(uri, true, discovery, now);
            &&& next == RefreshView::Finished(Ok(()))
            &&& after.jwks == m.jwks
            &&& after.discovery == m.discovery
            &&& after.circuit == m.circuit.after_failure(now)
        }),
        (served_keys(jwks, now) matches Some(cached) ==> cached.keys.len() == 0) ==> ({
            let (after, next) = m.keys_fetched(uri, true, jwks, now);
            &&& next == RefreshView::Finished(Ok(()))
            &&& after.jwks == m.jwks
            &&& served_keys(jwks, now) is None ==> after.circuit == m.circuit.after_failure(now)
        }),
{
}

/// Whether a reply to a fetch serves nothing that could be used: no document
/// of the issuer, or no key.
pub open spec fn serves_nothing(m: ProviderModel, event: Event, now: u64) -> bool {
    match event {
        Event::Token(_) => false,
        Event::Discovery(_, reply) => served_document(reply, now) matches Some(cached)
            ==> cached.document.issuer != m.config.issuer,
        Event::Jwks(_, reply) => served_keys(reply, now) matches Some(cached) ==> cached.keys.len()
            == 0,
    }
}

/// A token that waits for keys goes on with those that are cached, where they
/// were within their staleness when its refresh began and the fetch serves
/// nothing.
pub proof fn bridged_tokens_meet_the_cached_keys(
    m: ProviderModel,
    event: Event,
    now: u64,
    after: ProviderModel,
    step: StepView,
) -> (bridged: ProviderModel)
    requires
        moves(m, event, now, after, step),
        event_wait(event) matches Some(wait) && wait.stale_ok && wait.purpose is Freshness,
        serves_nothing(m, event, now),
    ensures
        bridged.config == m.config,
        bridged.allowed_algs == m.allowed_algs,
        bridged.jwks == m.jwks,
        bridged.keys_ensured(event_token(event), now, after, step),
{
    lemma_stages(m, event, now, after, step);
    lemma_event_refresh(m, event, now);
    event_refresh(m, event, now).0
}

// ---------------------------------------------------------------------------
// What is remembered
// ---------------------------------------------------------------------------

/// What is cached is good: a discovery document names the configured issuer,
/// and a key set has a usable key.
pub open spec fn caches_good(m: ProviderModel) -> bool {
    &&& m.discovery matches Some(cached) ==> cached.document.issuer == m.config.issuer
    &&& m.jwks matches Some(cached) ==> cached.keys.len() > 0
}

/// What is cached stays good: a provider starts with empty caches, and no
/// event puts anything else into them.
pub proof fn caches_stay_good(
    m: ProviderModel,
    event: Event,
    now: u64,
    after: ProviderModel,
    step: StepView,
)
    requires
        moves(m, event, now, after, step),
        caches_good(m),
    ensures
        caches_good(after),
{
    lemma_moves(m, event, now, after, step);
}

/// Keys are only ever replaced by the usable keys of a set that has just been
/// fetched, a discovery document by one that has just been fetched.
pub proof fn caches_hold_what_was_fetched(
    m: ProviderModel,
    event: Event,
    now: u64,
    after: ProviderModel,
    step: StepView,
)
    requires
        moves(m, event, now, after, step),
    ensures
        after.jwks != m.jwks ==> (event matches Event::Jwks(_, reply) && after.jwks is Some
            && after.jwks == served_keys(reply, now)),
        after.discovery != m.discovery ==> (event matches Event::Discovery(_, reply)
            && after.discovery is Some && after.discovery == served_document(reply, now)),
{
    lemma_moves(m, event, now, after, step);
}

/// The key id for which an event asks for a refresh: keys have been made sure
/// of, and they have none for the key id that the token names under an
/// algorithm that is allowed.
pub open spec fn unknown_kid(m: ProviderModel, event: Event, now: u64) -> Option<Seq<char>> {
    let (refreshed, next) = event_refresh(m, event, now);
    if introspects(m, event) || event_purpose(event) is UnknownKid {
        None
    } else {
        match (next, jwt_header(event_token(event)), refreshed.jwks) {
            (RefreshView::Finished(Ok(_)), Ok(header), Some(cached)) if m.alg_refusal(
                header.alg,
            ) is None => match header.kid {
                Some(kid) if with_kid(cached.keys, kid).len() == 0 => Some(kid),
                _ => None,
            },
            _ => None,
        }
    }
}

/// A refresh for an unknown key id is begun, and stamped, exactly where an
/// event asks for one and one may be tried. Where one may not, the token is
/// refused; and nothing else touches the stamp.
pub proof fn unknown_kids_claim_the_slot(
    m: ProviderModel,
    event: Event,
    now: u64,
    after: ProviderModel,
    step: StepView,
)
    requires
        moves(m, event, now, after, step),
    ensures
        match unknown_kid(m, event, now) {
            Some(kid) => if m.may_refresh_for_unknown_kid(now) {
                after.last_kid_refresh == Some(now)
            } else {
                after.last_kid_refresh == m.last_kid_refresh && step == StepView::Done(
                    Verdict::Invalid("no key for kid '"@ + kid + "' (refresh rate-limited)"@),
                )
            },
            None => after.last_kid_refresh == m.last_kid_refresh,
        },
{
    lemma_stages(m, event, now, after, step);
    lemma_event_refresh(m, event, now);
    let refreshed = event_refresh(m, event, now).0;
    lemma_refresh(ProviderModel { last_kid_refresh: Some(now), ..refreshed }, now);
}

/// A fetch for an unknown key id is awaited only where a refresh for it has
/// just been stamped or was under way.
pub proof fn kid_fetches_are_stamped(
    m: ProviderModel,
    event: Event,
    now: u64,
    after: ProviderModel,
    step: StepView,
)
    requires
        moves(m, event, now, after, step),
        awaited(step) matches Some(wait) && wait.purpose is UnknownKid,
    ensures
        after.last_kid_refresh == Some(now) || (event matches Event::Discovery(wait, _)
            && wait.purpose is UnknownKid),
{
    lemma_moves(m, event, now, after, step);
}

// ---------------------------------------------------------------------------
// Verdicts of the JWT path
// ---------------------------------------------------------------------------

/// A fetch for an unknown key id is for the key id and the algorithm that the
/// token's header names, and that algorithm is allowed.
pub open spec fn honest(m: ProviderModel, wait: WaitView) -> bool {
    wait.purpose matches PurposeView::UnknownKid { kid, alg } ==> (jwt_header(
        wait.token,
    ) matches Ok(header) && header.kid == Some(kid) && header.alg == alg && m.alg_refusal(alg)
        is None)
}

/// Every fetch that is awaited is for the token of the event, and honest.
pub proof fn awaited_fetches_are_honest(
    m: ProviderModel,
    event: Event,
    now: u64,
    after: ProviderModel,
    step: StepView,
)
    requires
        moves(m, event, now, after, step),
        event_wait(event) matches Some(wait) ==> honest(m, wait),
    ensures
        awaited(step) matches Some(wait) ==> wait.token == event_token(event) && honest(
            after,
            wait,
        ),
{
    lemma_moves(m, event, now, after, step);
}

proof fn lemma_with_kid(keys: Seq<KeyView>, kid: Seq<char>, i: int)
    requires
        0 <= i < with_kid(keys, kid).len(),
    ensures
        keys.contains(with_kid(keys, kid)[i]),
        with_kid(keys, kid)[i].kid == Some(kid),
    decreases keys.len(),
{
    let init = keys.drop_last();
    let found = with_kid(init, kid);
    if i < found.len() {
        lemma_with_kid(init, kid, i);
        let j = choose|j: int| 0 <= j < init.len() && init[j] == found[i];
        assert(keys[j] == found[i]);
    } else {
        assert(keys[keys.len() - 1] == keys.last());
    }
}

/// Claims that an identity is resolved from are a JSON object.
pub proof fn identities_come_from_objects(p: ProviderView, claims: Json)
    requires
        claims_verdict(p, claims) is Verified,
    ensures
        claims is Object,
{
    pieces_rejoin(p.claim_mappings.subject_claim, '.');
}

/// What vouches for a token with these claims: a cached key, for the key id
/// that the token names if it names one and under the token's algorithm,
/// which is allowed, has signed it; and its claims are bound to the issuer
/// and, where audiences are configured, to one of them.
pub open spec fn vouched_for(
    m: ProviderModel,
    keys: Seq<KeyView>,
    token: Seq<char>,
    claims: Json,
) -> bool {
    exists|key: KeyView| #[trigger]
        keys.contains(key) && (jwt_header(token) matches Ok(header) && key_accepts(
            m.config,
            key,
            header.alg,
            token,
            claims,
        ) && m.alg_refusal(header.alg) is None && key.algorithm_for(header.alg) == header.alg && (
        header.kid is Some ==> key.kid == header.kid)) && claims is Object && member(
            claims,
            "exp"@,
        ) is Some && claim_names(member(claims, "iss"@), seq![m.config.issuer]) && (
        m.config.audiences.len() > 0 ==> claim_names(member(claims, "aud"@), m.config.audiences))
}

proof fn lemma_vouched(
    m: ProviderModel,
    all: Seq<KeyView>,
    keys: Seq<KeyView>,
    alg: Algorithm,
    token: Seq<char>,
    verdict: Verdict,
)
    requires
        keys_verdict(m.config, keys, alg, token, verdict),
        verdict is Verified,
        jwt_header(token) matches Ok(header) && header.alg == alg && m.alg_refusal(alg) is None,
        forall|i: int|
            0 <= i < keys.len() ==> all.contains(#[trigger] keys[i]) && (jwt_header(
                token,
            )->Ok_0.kid is Some ==> keys[i].kid == jwt_header(token)->Ok_0.kid),
    ensures
        exists|claims: Json| #[trigger]
            claims_verdict(m.config, claims) == verdict && vouched_for(m, all, token, claims),
    decreases keys.len(),
{
    let p = m.config;
    let rules = token_rules(p, keys[0].algorithm_for(alg));
    let answer = choose|answer: Option<Json>| #[trigger]
        key_answers(token, keys[0].key, rules, answer) && match (answer_verdict(p, answer)) {
            Some(v) => verdict == v,
            None => keys_verdict(p, keys.drop_first(), alg, token, verdict),
        };
    match answer {
        Some(claims) => {
            identities_come_from_objects(p, claims);
            assert(claims_bound(claims, rules));
            assert(rules.required_claims[0] == "exp"@);
            assert(rules.required_claims[1] == "iss"@);
            if p.audiences.len() > 0 {
                assert(rules.required_claims[2] == "aud"@);
            }
            assert(all.contains(keys[0]));
            assert(key_accepts(p, keys[0], alg, token, claims));
        },
        None => {
            let rest = keys.drop_first();
            assert forall|i: int| 0 <= i < rest.len() implies all.contains(#[trigger] rest[i]) && (
            jwt_header(token)->Ok_0.kid is Some ==> rest[i].kid == jwt_header(token)->Ok_0.kid) by {
                assert(rest[i] == keys[i + 1]);
            }
            lemma_vouched(m, all, rest, alg, token, verdict);
        },
    }
}

/// Where looking up keys and trying them ends with an identity, cached keys
/// vouch for the token.
proof fn lemma_ensured_vouched(
    m: ProviderModel,
    token: Seq<char>,
    now: u64,
    after: ProviderModel,
    step: StepView,
)
    requires
        m.keys_ensured(token, now, after, step),
        step matches StepView::Done(verdict) && verdict is Verified,
    ensures
        after.jwks == m.jwks,
        m.jwks matches Some(cached) && exists|claims: Json| #[trigger]
            claims_verdict(m.config, claims) == step->Done_0 && vouched_for(
                m,
                cached.keys,
                token,
                claims,
            ),
{
    let header = jwt_header(token)->Ok_0;
    let cached = m.jwks.unwrap();
    match header.kid {
        None => {
            lemma_vouched(m, cached.keys, cached.keys, header.alg, token, step->Done_0);
        },
        Some(kid) => {
            lemma_kid_vouched(m, cached.keys, token, kid, header.alg, step->Done_0);
        },
    }
}

proof fn lemma_kid_vouched(
    m: ProviderModel,
    all: Seq<KeyView>,
    token: Seq<char>,
    kid: Seq<char>,
    alg: Algorithm,
    verdict: Verdict,
)
    requires
        keys_verdict(m.config, with_kid(all, kid), alg, token, verdict),
        verdict is Verified,
        jwt_header(token) matches Ok(header) && header.kid == Some(kid) && header.alg == alg
            && m.alg_refusal(alg) is None,
    ensures
        exists|claims: Json| #[trigger]
            claims_verdict(m.config, claims) == verdict && vouched_for(m, all, token, claims),
{
    let keys = with_kid(all, kid);
    assert forall|i: int| 0 <= i < keys.len() implies all.contains(#[trigger] keys[i]) && keys[i].kid
        == Some(kid) by {
        lemma_with_kid(all, kid, i);
    }
    lemma_vouched(m, all, keys, alg, token, verdict);
}

/// A key accepts a token only at a time, by the clock that it is verified
/// against, that is not past its expiry and not before its start by more than
/// the configured leeway.
pub proof fn accepted_tokens_are_in_time(
    p: ProviderView,
    key: KeyView,
    alg: Algorithm,
    token: Seq<char>,
    claims: Json,
    exp: nat,
    nbf: nat,
)
    requires
        key_accepts(p, key, alg, token, claims),
    ensures
        exists|unix_time: u64| #[trigger]
            key_answers_at(
                token,
                key.key,
                token_rules(p, key.algorithm_for(alg)),
                unix_time,
                Some(claims),
            ) && ((member(claims, "exp"@) matches Some(Json::Number(number)) && seconds(number, exp))
                ==> unix_time <= exp + p.clock_skew_secs) && ((member(claims, "nbf"@) matches Some(
                Json::Number(number),
            ) && seconds(number, nbf)) ==> nbf <= unix_time + p.clock_skew_secs),
{
    let rules = token_rules(p, key.algorithm_for(alg));
    let unix_time = choose|unix_time: u64|
        key_answers_at(token, key.key, rules, unix_time, Some(claims));
    assert(in_time(claims, rules, unix_time));
}

/// An identity that the JWT path resolves is that of claims that cached keys
/// vouch for: signed under an allowed algorithm by a key for the token's key
/// id, and bound to the issuer and the configured audiences.
pub proof fn verified_tokens_are_vouched_for(
    m: ProviderModel,
    event: Event,
    now: u64,
    after: ProviderModel,
    step: StepView,
)
    requires
        moves(m, event, now, after, step),
        event_wait(event) matches Some(wait) ==> honest(m, wait),
        step matches StepView::Done(verdict) && verdict is Verified,
    ensures
        after.jwks matches Some(cached) && exists|claims: Json| #[trigger]
            claims_verdict(m.config, claims) == step->Done_0 && vouched_for(
                m,
                cached.keys,
                event_token(event),
                claims,
            ),
{
    let token = event_token(event);
    let refreshed = event_refresh(m, event, now).0;
    lemma_event_refresh(m, event, now);
    match event_purpose(event) {
        PurposeView::Freshness => {
            lemma_ensured_vouched(refreshed, token, now, after, step);
            let claims = choose|claims: Json| #[trigger]
                claims_verdict(m.config, claims) == step->Done_0 && vouched_for(
                    refreshed,
                    after.jwks.unwrap().keys,
                    token,
                    claims,
                );
            assert(vouched_for(m, after.jwks.unwrap().keys, token, claims));
        },
        PurposeView::UnknownKid { kid, alg } => {
            lemma_kid_vouched(
                m,
                after.jwks.unwrap().keys,
                token,
                kid,
                alg,
                step->Done_0,
            );
        },
    }
}

/// Keys that verify a token are live: they were fetched just now, or are
/// within the refresh interval, or within the staleness that bridges an
/// outage; the last of these when the refresh began.
pub proof fn verified_by_live_keys(
    m: ProviderModel,
    event: Event,
    now: u64,
    after: ProviderModel,
    step: StepView,
)
    requires
        moves(m, event, now, after, step),
        step matches StepView::Done(verdict) && verdict is Verified,
    ensures
        after.jwks matches Some(cached) && (cached.fetched_at == now || after.has_fresh_keys(now)
            || after.stale_ok(now) || (event_wait(event) matches Some(wait) && wait.stale_ok)),
{
    lemma_moves(m, event, now, after, step);
}

/// What a refresh remembers of its beginning: the fetch that a token leads to
/// may be replaced by stale keys only if there are keys within their
/// staleness.
pub proof fn waits_remember_staleness(
    m: ProviderModel,
    event: Event,
    now: u64,
    after: ProviderModel,
    step: StepView,
)
    requires
        moves(m, event, now, after, step),
    ensures
        awaited(step) matches Some(wait) ==> (wait.stale_ok ==> after.stale_ok(now) || (
        event_wait(event) matches Some(earlier) && earlier.stale_ok)),
{
    lemma_moves(m, event, now, after, step);
}

/// The JWT path never comes to an introspection, and no path to the verdict
/// that there was no token.
pub proof fn jwt_path_never_introspects(
    m: ProviderModel,
    event: Event,
    now: u64,
    after: ProviderModel,
    step: StepView,
)
    requires
        moves(m, event, now, after, step),
    ensures
        !(event is Token) ==> !(step is Introspect),
        m.config.verification is OidcJwks ==> !(step is Introspect),
        m.config.verification is Hybrid && jwt_header(event_token(event)) is Ok ==> !(
        step is Introspect),
        step != StepView::Done(Verdict::NoToken),
{
    lemma_moves(m, event, now, after, step);
}

/// A hybrid provider introspects a token exactly where it is no JWS, an
/// introspecting provider introspects every token, and neither remembers
/// anything of it. Where the guard refuses the address, the token is refused
/// instead and goes nowhere.
pub proof fn opaque_tokens_are_introspected(
    m: ProviderModel,
    token: Seq<char>,
    now: u64,
    after: ProviderModel,
    step: StepView,
)
    requires
        moves(m, Event::Token(token), now, after, step),
    ensures
        match introspection_request(m.config, token) {
            Some(request) if !(m.config.verification is Hybrid) || jwt_header(token) is Err => {
                &&& after == m
                &&& step == match m.guard(request.url) {
                    None => StepView::Introspect(request),
                    Some(fault) => StepView::Done(Verdict::Invalid(fault.message())),
                }
            },
            _ => !(step is Introspect),
        },
{
    lemma_moves(m, Event::Token(token), now, after, step);
}

// ---------------------------------------------------------------------------
// Verdicts of introspection
// ---------------------------------------------------------------------------

/// An identity that introspection resolves is that of a response that says
/// the token is active, names no other issuer, names one of the audiences
/// where there are any, and has a subject.
pub proof fn introspected_tokens_are_bound(p: ProviderView, body: Json)
    requires
        introspected(p, body) is Verified,
    ensures
        member(body, "active"@) == Some(Json::Bool(true)),
        member(body, "iss"@) matches Some(Json::Text(iss)) ==> iss == p.issuer,
        p.audiences.len() > 0 ==> (member(body, "aud"@) matches Some(aud) && overlap(
            p.audiences,
            audiences_named(aud),
        )),
        introspected(p, body) == claims_verdict(p, body),
        introspected(p, body)->Verified_0.issuer == p.issuer,
        !blank(introspected(p, body)->Verified_0.subject_id),
{
    identity_has_subject_and_issuer(p, body);
}

/// An introspection resolves an identity only from a response of success, and
/// from the JSON document that is its body.
pub proof fn introspection_needs_a_response(p: ProviderView, reply: IntrospectionReplyView)
    requires
        introspection_verdict(p, reply) is Verified,
    ensures
        reply matches IntrospectionReplyView::Responded { status, body } && success(status) && (
        body matches Ok(bytes) && (json_document(bytes) matches Ok(claims)
            && introspection_verdict(p, reply) == introspected(p, claims))),
{
}

/// Whatever path resolves it, an identity carries the issuer of the provider.
pub proof fn identities_carry_the_issuer(
    m: ProviderModel,
    event: Event,
    now: u64,
    after: ProviderModel,
    step: StepView,
)
    requires
        moves(m, event, now, after, step),
    ensures
        step matches StepView::Done(Verdict::Verified(id)) ==> id.issuer == m.config.issuer
            && id.provider_label == m.config.issuer && !blank(id.subject_id),
{
    lemma_moves(m, event, now, after, step);
}

// ---------------------------------------------------------------------------
// What a valid configuration adds
// ---------------------------------------------------------------------------

/// A new provider has nothing cached that is not good, and has begun no
/// refresh.
pub proof fn new_providers_are_good(p: ProviderView)
    ensures
        caches_good(new_provider(p)),
        new_provider(p).allowed_algs == algorithms_named(p.verification.algs()),
        new_provider(p).wf() == leeway_defined(p),
        new_provider(p).last_kid_refresh is None,
{
}

/// An algorithm that is not refused is one of those that the configuration
/// names, where it names any.
pub proof fn accepted_algorithms_are_configured(m: ProviderModel, alg: Algorithm)
    requires
        m.allowed_algs == algorithms_named(m.config.verification.algs()),
        m.config.verification.algs().len() > 0,
        first_unsupported(m.config.verification.algs()) is None,
        m.alg_refusal(alg) is None,
    ensures
        m.config.verification.algs().contains(algorithm_name(alg)),
{
    let names = m.config.verification.algs();
    let i = choose|i: int| 0 <= i < m.allowed_algs.len() && m.allowed_algs[i] == alg;
    lemma_all_supported(names, i);
    names_name_one_algorithm(alg, names[i]);
}

proof fn lemma_all_supported(names: Seq<Seq<char>>, i: int)
    requires
        first_unsupported(names) is None,
        0 <= i < names.len(),
    ensures
        algorithm_named(names[i]) is Some,
    decreases names.len(),
{
    if i > 0 {
        lemma_all_supported(names.drop_first(), i - 1);
        assert(names.drop_first()[i - 1] == names[i]);
    }
}

/// Without the opt-in, a valid strategy refuses every token under an HMAC
/// algorithm.
pub proof fn hmac_tokens_need_the_opt_in(m: ProviderModel, alg: Algorithm)
    requires
        m.allowed_algs == algorithms_named(m.config.verification.algs()),
        verification_fault(m.config.verification) is None,
        !(m.config.verification is OauthIntrospection),
        !hmac_opt_in(m.config.verification),
        symmetric(alg),
    ensures
        m.alg_refusal(alg) is Some,
{
    let names = m.config.verification.algs();
    valid_jwks_strategy(m.config.verification);
    if m.allowed_algs.contains(alg) {
        let i = choose|i: int| 0 <= i < m.allowed_algs.len() && m.allowed_algs[i] == alg;
        hmac_names_are_symmetric(names[i]);
    }
}

/// Unless it opted out, a valid provider resolves an identity only from
/// claims that name one of its audiences, be they of a token or of an
/// introspection response.
pub proof fn valid_providers_bind_audiences(
    p: ProviderView,
    key: KeyView,
    alg: Algorithm,
    token: Seq<char>,
    claims: Json,
)
    requires
        provider_fault(p) is None,
        !p.allow_any_audience,
    ensures
        p.audiences.len() > 0,
        key_accepts(p, key, alg, token, claims) && claims_verdict(p, claims) is Verified
            ==> claim_names(member(claims, "aud"@), p.audiences),
        introspected(p, claims) is Verified ==> (member(claims, "aud"@) matches Some(aud)
            && overlap(p.audiences, audiences_named(aud))),
{
    if key_accepts(p, key, alg, token, claims) && claims_verdict(p, claims) is Verified {
        identities_come_from_objects(p, claims);
        let rules = token_rules(p, key.algorithm_for(alg));
        assert(claims_bound(claims, rules));
        assert(rules.required_claims[2] == "aud"@);
    }
}

} // verus!
