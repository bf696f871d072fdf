//! What verification owes: that what is good is accepted, and that what is
//! configured is what happens.

use vstd::prelude::*;
use crate::algorithm::{algorithm_name, algorithm_named, names_name_one_algorithm, Algorithm};
use crate::circuit::JwksCircuit;
use crate::claims::{an_array_holds_its_texts, at_path, json_document, member, Json};
use crate::config::{ConfigView, ProviderView, VerificationView};
use crate::exchange::{
    DiscoveryReplyView, DocumentView, IntrospectionReplyView, IntrospectionView,
    JwksReplyView, NoticeView, PurposeView, StepView, WaitView,
};
use crate::guarantees::awaited;
use crate::identity::{claims_verdict, claims_with_a_subject_make_an_identity, Verdict};
use crate::jwt::{jwk_set, jwt_header, key_answers, usable, HeaderView, KeyView};
use crate::model::{
    answer_verdict, audiences_named, introspected, introspection_request, introspection_step,
    introspection_verdict, keys_verdict, leeway_defined, overlap, token_rules, with_kid,
    CachedDocumentView, CachedKeysView, ProviderModel,
};
use crate::provider::{algorithms_named, first_unsupported, new_provider};
use crate::resolver::{first_unsupported_of, new_resolver};
use crate::text::{decimal, words};
use crate::url_guard::url_fault;

verus! {

// ---------------------------------------------------------------------------
// Settings
// ---------------------------------------------------------------------------

/// Whether a strategy verifies tokens with keys, fetched anew after `interval`
/// seconds, served stale for `staleness` seconds, and with `timeout`
/// milliseconds for a fetch.
pub open spec fn set_to(v: VerificationView, interval: u64, staleness: u64, timeout: u64) -> bool {
    match v {
        VerificationView::OidcJwks {
            refresh_interval_secs,
            max_staleness_secs,
            timeout_ms,
            ..
        } => refresh_interval_secs == interval && max_staleness_secs == staleness && timeout_ms
            == timeout,
        VerificationView::Hybrid {
            refresh_interval_secs,
            max_staleness_secs,
            timeout_ms,
            ..
        } => refresh_interval_secs == interval && max_staleness_secs == staleness && timeout_ms
            == timeout,
        VerificationView::OauthIntrospection { .. } => false,
    }
}

/// Whether what came at `then` is less than `secs` seconds old at `now`. What
/// comes out of the future is of no age.
pub open spec fn younger(then: u64, now: u64, secs: u64) -> bool {
    now < then + secs * 1_000_000_000 && (now >= then || secs > 0)
}

/// Whether a provider has keys that are younger than that.
pub open spec fn has_keys_younger(m: ProviderModel, now: u64, secs: u64) -> bool {
    m.jwks matches Some(cached) && younger(cached.fetched_at, now, secs)
}

/// Whether no open circuit bars a fetch.
pub open spec fn fetches_admitted(m: ProviderModel, now: u64) -> bool {
    match m.circuit {
        JwksCircuit::Closed { .. } => true,
        JwksCircuit::Open { until } => now >= until,
    }
}

/// A provider whose circuit was asked whether a fetch may be tried: an open one
/// whose period is over is closed, and has no failures to remember.
pub open spec fn asked(m: ProviderModel, now: u64) -> ProviderModel {
    ProviderModel {
        circuit: match m.circuit {
            JwksCircuit::Open { until } if now >= until => {
                JwksCircuit::Closed { consecutive_failures: 0 }
            },
            circuit => circuit,
        },
        ..m
    }
}

/// A provider that has one failure more, and has noted why stale keys are
/// served.
pub open spec fn failed(m: ProviderModel, reason: Seq<char>, now: u64) -> ProviderModel {
    ProviderModel {
        circuit: m.circuit.after_failure(now),
        notices: m.notices.push(NoticeView::StaleServed { reason }),
        ..m
    }
}

/// The step that fetches keys for a token.
pub open spec fn fetch_of_keys(
    token: Seq<char>,
    purpose: PurposeView,
    stale_ok: bool,
    uri: Seq<char>,
    timeout_ms: u64,
) -> StepView {
    StepView::FetchJwks { wait: WaitView { token, purpose, stale_ok, uri }, timeout_ms }
}

/// The step that fetches the document for a token.
pub open spec fn fetch_of_document(
    p: ProviderView,
    token: Seq<char>,
    purpose: PurposeView,
    stale_ok: bool,
    timeout_ms: u64,
) -> StepView {
    StepView::FetchDiscovery {
        wait: WaitView { token, purpose, stale_ok, uri: p.effective_discovery_uri() },
        timeout_ms,
        check_remote_addr: !p.allow_private_issuer,
    }
}

/// The guard of a provider goes by its own allowlist and escape hatch.
pub proof fn guards_go_by_their_provider(m: ProviderModel, uri: Seq<char>)
    ensures
        m.guard(uri) == url_fault(
            uri,
            m.config.allowed_issuer_hosts,
            m.config.allow_private_issuer,
        ),
{
}

/// A token of the JWT path is judged by the cached keys while they are younger
/// than the configured interval, and leads to no fetch for freshness.
pub proof fn young_keys_are_not_fetched_anew(
    m: ProviderModel,
    token: Seq<char>,
    now: u64,
    after: ProviderModel,
    step: StepView,
    interval: u64,
    staleness: u64,
    timeout: u64,
)
    requires
        set_to(m.config.verification, interval, staleness, timeout),
        m.begins(token, now, after, step),
        m.config.verification is Hybrid ==> jwt_header(token) is Ok,
        has_keys_younger(m, now, interval),
    ensures
        m.keys_ensured(token, now, after, step),
        awaited(step) matches Some(wait) ==> wait.purpose is UnknownKid,
{
}

/// A token of the JWT path that comes when the keys are as old as the
/// configured interval, or older, or when there are none, is not judged by
/// what is cached while fetches are admitted. It leads to a fetch: of the
/// keys, from where the document says, while the document is younger than the
/// interval, and otherwise of the document. Either takes the configured time
/// at most and goes where the guard lets it; and it is noted whether the keys
/// are young enough to be served stale.
pub proof fn old_keys_are_fetched_anew(
    m: ProviderModel,
    token: Seq<char>,
    now: u64,
    after: ProviderModel,
    step: StepView,
    interval: u64,
    staleness: u64,
    timeout: u64,
)
    requires
        set_to(m.config.verification, interval, staleness, timeout),
        m.begins(token, now, after, step),
        m.config.verification is Hybrid ==> jwt_header(token) is Ok,
        !has_keys_younger(m, now, interval),
        fetches_admitted(m, now),
    ensures
        ({
            let stale_ok = has_keys_younger(m, now, staleness);
            match m.discovery {
                Some(cached) if younger(cached.fetched_at, now, interval) => match url_fault(
                    cached.document.jwks_uri,
                    m.config.allowed_issuer_hosts,
                    m.config.allow_private_issuer,
                ) {
                    None => step == fetch_of_keys(
                        token,
                        PurposeView::Freshness,
                        stale_ok,
                        cached.document.jwks_uri,
                        timeout,
                    ),
                    Some(_) => after == asked(m, now) && (step matches StepView::Done(verdict)
                        && verdict is Invalid),
                },
                _ => match url_fault(
                    m.config.effective_discovery_uri(),
                    m.config.allowed_issuer_hosts,
                    m.config.allow_private_issuer,
                ) {
                    None => step == fetch_of_document(
                        m.config,
                        token,
                        PurposeView::Freshness,
                        stale_ok,
                        timeout,
                    ),
                    Some(_) => if stale_ok {
                        failed(asked(m, now), "discovery_failed"@, now).keys_ensured(
                            token,
                            now,
                            after,
                            step,
                        )
                    } else {
                        after == (ProviderModel {
                            circuit: asked(m, now).circuit.after_failure(now),
                            ..m
                        }) && (step matches StepView::Done(verdict) && verdict is Invalid)
                    },
                },
            }
        }),
        step.fetches() && awaited(step).unwrap().purpose is Freshness ==> after == asked(m, now),
{
}

/// While an open circuit bars fetches, a token that would need one is judged by
/// the cached keys as long as they may be served stale, and refused after
/// that. Either is noted.
pub proof fn a_barred_refresh_serves_stale_keys(
    m: ProviderModel,
    token: Seq<char>,
    now: u64,
    after: ProviderModel,
    step: StepView,
    interval: u64,
    staleness: u64,
    timeout: u64,
)
    requires
        set_to(m.config.verification, interval, staleness, timeout),
        m.begins(token, now, after, step),
        m.config.verification is Hybrid ==> jwt_header(token) is Ok,
        !has_keys_younger(m, now, interval),
        !fetches_admitted(m, now),
    ensures
        ({
            let noted = ProviderModel {
                notices: m.notices.push(NoticeView::ShortCircuited),
                ..m
            };
            if has_keys_younger(m, now, staleness) {
                noted.keys_ensured(token, now, after, step)
            } else {
                after == noted && (step matches StepView::Done(verdict) && verdict is Invalid)
            }
        }),
{
}

/// A provider that only introspects never looks for keys, and one that only
/// verifies with keys never introspects: the strategy decides, and in a hybrid
/// the shape of the token.
pub proof fn the_strategy_decides_the_path(
    m: ProviderModel,
    token: Seq<char>,
    now: u64,
    after: ProviderModel,
    step: StepView,
)
    requires
        m.begins(token, now, after, step),
    ensures
        m.config.verification is OidcJwks ==> m.jwt_begins(token, now, after, step),
        m.config.verification is Hybrid && jwt_header(token) is Ok ==> m.jwt_begins(
            token,
            now,
            after,
            step,
        ),
        m.config.verification is OauthIntrospection || (m.config.verification is Hybrid
            && jwt_header(token) is Err) ==> after == m && step == introspection_step(
            m.config,
            token,
        ),
{
}

// ---------------------------------------------------------------------------
// Replies
// ---------------------------------------------------------------------------

/// A document of the issuer is remembered from now on, and the keys are
/// fetched from where it says, for the same token and purpose, if the guard
/// lets them.
pub proof fn good_documents_lead_to_their_keys(
    m: ProviderModel,
    wait: WaitView,
    status: u16,
    document: DocumentView,
    now: u64,
    after: ProviderModel,
    step: StepView,
    interval: u64,
    staleness: u64,
    timeout: u64,
)
    requires
        set_to(m.config.verification, interval, staleness, timeout),
        status / 100 == 2,
        document.issuer == m.config.issuer,
        m.discovery_resumes(
            wait,
            DiscoveryReplyView::Responded { status, document: Some(document) },
            now,
            after,
            step,
        ),
    ensures
        after == (ProviderModel {
            discovery: Some(CachedDocumentView { document, fetched_at: now }),
            ..m
        }),
        match url_fault(
            document.jwks_uri,
            m.config.allowed_issuer_hosts,
            m.config.allow_private_issuer,
        ) {
            None => step == fetch_of_keys(
                wait.token,
                wait.purpose,
                wait.stale_ok,
                document.jwks_uri,
                timeout,
            ),
            Some(_) => step matches StepView::Done(verdict) && verdict is Invalid,
        },
{
}

/// The usable keys of a set are remembered from now on, the circuit is closed,
/// and the token goes on with them.
pub proof fn good_keys_are_used(
    m: ProviderModel,
    wait: WaitView,
    status: u16,
    text: Seq<char>,
    jwks: Seq<jsonwebtoken::jwk::Jwk>,
    now: u64,
    after: ProviderModel,
    step: StepView,
)
    requires
        status / 100 == 2,
        jwk_set(text) == Some(jwks),
        usable(jwks).len() > 0,
        m.jwks_resumes(
            wait,
            JwksReplyView::Responded { status, body: Some(text) },
            now,
            after,
            step,
        ),
    ensures
        ({
            let supplied = ProviderModel {
                jwks: Some(CachedKeysView { keys: usable(jwks), fetched_at: now }),
                circuit: JwksCircuit::Closed { consecutive_failures: 0 },
                ..m
            };
            match wait.purpose {
                PurposeView::Freshness => supplied.keys_ensured(wait.token, now, after, step),
                PurposeView::UnknownKid { kid, alg } => after == supplied
                    && supplied.kid_refreshed(wait.token, kid, alg, true, step),
            }
        }),
{
}

/// A key set without usable keys is an answer of the issuer: where stale keys
/// may be served, the circuit is closed, the keys stay as they are and the
/// token goes on with them. Otherwise the token is refused and nothing is
/// remembered.
pub proof fn a_set_without_usable_keys_changes_no_keys(
    m: ProviderModel,
    wait: WaitView,
    status: u16,
    text: Seq<char>,
    jwks: Seq<jsonwebtoken::jwk::Jwk>,
    now: u64,
    after: ProviderModel,
    step: StepView,
)
    requires
        status / 100 == 2,
        jwk_set(text) == Some(jwks),
        usable(jwks).len() == 0,
        m.jwks_resumes(
            wait,
            JwksReplyView::Responded { status, body: Some(text) },
            now,
            after,
            step,
        ),
    ensures
        ({
            let answered = ProviderModel {
                circuit: JwksCircuit::Closed { consecutive_failures: 0 },
                ..m
            };
            if !wait.stale_ok {
                after == m && (step matches StepView::Done(verdict) && verdict is Invalid)
            } else {
                match wait.purpose {
                    PurposeView::Freshness => answered.keys_ensured(wait.token, now, after, step),
                    PurposeView::UnknownKid { kid, alg } => after == answered
                        && answered.kid_refreshed(wait.token, kid, alg, true, step),
                }
            }
        }),
{
}

/// To go on with keys is to go on with a response of success that holds a set
/// with these usable keys.
pub proof fn keys_stand_for_the_set_that_held_them(
    m: ProviderModel,
    wait: WaitView,
    status: u16,
    text: Seq<char>,
    jwks: Seq<jsonwebtoken::jwk::Jwk>,
    now: u64,
    after: ProviderModel,
    step: StepView,
)
    requires
        status / 100 == 2,
        jwk_set(text) == Some(jwks),
    ensures
        m.keys_resume(wait, usable(jwks), now, after, step) <==> m.jwks_resumes(
            wait,
            JwksReplyView::Responded { status, body: Some(text) },
            now,
            after,
            step,
        ),
{
}

/// Whether a fetch of a document came to nothing: no response, one from an
/// address that is refused, an error, no document, or one of another issuer.
pub open spec fn no_document(p: ProviderView, reply: DiscoveryReplyView) -> bool {
    match reply {
        DiscoveryReplyView::SendFailed => true,
        DiscoveryReplyView::RemoteAddrBlocked(_) => true,
        DiscoveryReplyView::Responded { status, document } => status / 100 != 2 || (document
            matches Some(d) ==> d.issuer != p.issuer),
    }
}

/// Whether a fetch of keys came to nothing: no response, an error, or no key
/// set.
pub open spec fn no_key_set(reply: JwksReplyView) -> bool {
    match reply {
        JwksReplyView::SendFailed(_) => true,
        JwksReplyView::Responded { status, body } => status / 100 != 2 || (body matches Some(text)
            ==> jwk_set(text) is None),
    }
}

/// A fetch that comes to nothing counts as a failure. Where stale keys may not
/// be served, the token is refused and nothing else is remembered.
pub proof fn failures_count_and_refuse(
    m: ProviderModel,
    wait: WaitView,
    discovery: DiscoveryReplyView,
    jwks: JwksReplyView,
    now: u64,
    after: ProviderModel,
    step: StepView,
)
    requires
        !wait.stale_ok,
        ({
            ||| no_document(m.config, discovery) && m.discovery_resumes(
                wait,
                discovery,
                now,
                after,
                step,
            )
            ||| no_key_set(jwks) && m.jwks_resumes(wait, jwks, now, after, step)
        }),
    ensures
        after == (ProviderModel { circuit: m.circuit.after_failure(now), ..m }),
        step matches StepView::Done(verdict) && verdict is Invalid,
{
}

/// A fetch that comes to nothing while stale keys may be served counts as a
/// failure, is noted once, with a reason that tells it apart, and changes
/// nothing else; then the token goes on with the keys that are there.
pub proof fn failures_are_bridged_and_noted(
    m: ProviderModel,
    wait: WaitView,
    discovery: DiscoveryReplyView,
    jwks: JwksReplyView,
    now: u64,
    after: ProviderModel,
    step: StepView,
)
    requires
        wait.stale_ok,
        wait.purpose is Freshness,
    ensures
        no_document(m.config, discovery) && m.discovery_resumes(wait, discovery, now, after, step)
            ==> failed(m, "discovery_failed"@, now).keys_ensured(wait.token, now, after, step),
        no_key_set(jwks) && m.jwks_resumes(wait, jwks, now, after, step) ==> failed(
            m,
            match jwks {
                JwksReplyView::SendFailed(_) => "fetch_error"@,
                JwksReplyView::Responded { status, body } => if status / 100 != 2 {
                    "http_"@ + decimal(status as nat)
                } else if body is None {
                    "body_error"@
                } else {
                    "parse_error"@
                },
            },
            now,
        ).keys_ensured(wait.token, now, after, step),
{
}

// ---------------------------------------------------------------------------
// Keys
// ---------------------------------------------------------------------------

/// What a token is verified against is what the provider is configured with:
/// its expiry and its start with the configured clock skew, the provider's
/// issuer and no other, and its audiences where there are any; and each of
/// these must be there.
pub proof fn rules_follow_the_configuration(p: ProviderView, alg: Algorithm, t: Seq<char>)
    ensures
        ({
            let rules = token_rules(p, alg);
            &&& rules.algorithm == alg
            &&& rules.leeway == p.clock_skew_secs
            &&& rules.validate_exp
            &&& rules.validate_nbf
            &&& rules.issuers.contains(t) <==> t == p.issuer
            &&& rules.validate_aud == (p.audiences.len() > 0)
            &&& p.audiences.len() > 0 ==> rules.audiences == Some(p.audiences)
            &&& p.audiences.len() == 0 ==> rules.audiences is None
            &&& rules.required_claims.contains(t) <==> t == "exp"@ || t == "iss"@ || (t == "aud"@
                && p.audiences.len() > 0)
        }),
{
    let rules = token_rules(p, alg);
    assert(rules.issuers[0] == p.issuer);
    assert(rules.required_claims[0] == "exp"@);
    assert(rules.required_claims[1] == "iss"@);
    if p.audiences.len() > 0 {
        assert(rules.required_claims[2] == "aud"@);
    }
}

/// An algorithm is accepted exactly where it is on the list, or where there is
/// no list and it is not HS256.
pub proof fn listed_algorithms_are_accepted(m: ProviderModel, alg: Algorithm)
    ensures
        m.alg_refusal(alg) is None <==> m.allowed_algs.contains(alg) || (m.allowed_algs.len() == 0
            && alg != Algorithm::HS256),
{
}

/// Once keys have been made sure of, a token goes on with what its own header
/// says.
pub proof fn tokens_go_by_their_own_header(
    m: ProviderModel,
    token: Seq<char>,
    now: u64,
    after: ProviderModel,
    step: StepView,
)
    ensures
        m.keys_ensured(token, now, after, step) <==> m.header_read(
            token,
            jwt_header(token),
            now,
            after,
            step,
        ),
{
}

/// The keys of a key id are those that carry it, in their order.
pub proof fn keys_are_found_by_their_id(keys: Seq<KeyView>, kid: Seq<char>)
    ensures
        with_kid(keys, kid) == keys.filter(|key: KeyView| key.kid == Some(kid)),
    decreases keys.len(),
{
    reveal(Seq::filter);
    if keys.len() > 0 {
        keys_are_found_by_their_id(keys.drop_last(), kid);
    }
}

/// Whether a verdict is what comes of trying keys on a token, in order and with
/// these answers: each under its own algorithm, or where it has none under the
/// one that the token names. The first key that accepts the token ends it, with
/// the verdict on the claims that it hands back; where no key does, the token
/// is refused.
pub open spec fn tried_in_order(
    p: ProviderView,
    keys: Seq<KeyView>,
    alg: Algorithm,
    token: Seq<char>,
    answers: Seq<Option<Json>>,
    verdict: Verdict,
) -> bool {
    &&& answers.len() <= keys.len()
    &&& forall|j: int|
        0 <= j < answers.len() ==> answered(p, keys[j], alg, token, #[trigger] answers[j])
    &&& forall|j: int| 0 <= j < answers.len() - 1 ==> (#[trigger] answers[j]) is None
    &&& match answers.last() {
        Some(claims) if answers.len() > 0 => verdict == claims_verdict(p, claims),
        _ => answers.len() == keys.len() && verdict is Invalid,
    }
}

/// Whether a key can give that answer to a token that names `alg`.
pub open spec fn answered(
    p: ProviderView,
    key: KeyView,
    alg: Algorithm,
    token: Seq<char>,
    answer: Option<Json>,
) -> bool {
    match key.algorithm {
        Some(own) => key_answers(token, key.key, token_rules(p, own), answer),
        None => key_answers(token, key.key, token_rules(p, alg), answer),
    }
}

/// Keys are tried in order, none is passed over, and the first that accepts the
/// token decides.
pub proof fn the_first_key_to_accept_decides(
    p: ProviderView,
    keys: Seq<KeyView>,
    alg: Algorithm,
    token: Seq<char>,
    verdict: Verdict,
) -> (answers: Seq<Option<Json>>)
    requires
        keys_verdict(p, keys, alg, token, verdict),
    ensures
        tried_in_order(p, keys, alg, token, answers, verdict),
    decreases keys.len(),
{
    if keys.len() == 0 {
        Seq::empty()
    } else {
        let rest = keys.drop_first();
        let answer = choose|answer: Option<Json>| #[trigger]
            key_answers(
                token,
                keys[0].key,
                token_rules(p, keys[0].algorithm_for(alg)),
                answer,
            ) && match answer_verdict(p, answer) {
                Some(v) => verdict == v,
                None => keys_verdict(p, rest, alg, token, verdict),
            };
        match answer {
            Some(claims) => {
                let answers = seq![answer];
                assert(answers.last() == Some(claims));
                answers
            },
            None => {
                let others = the_first_key_to_accept_decides(p, rest, alg, token, verdict);
                let answers = seq![answer] + others;
                assert forall|j: int| 0 <= j < answers.len() implies answered(
                    p,
                    keys[j],
                    alg,
                    token,
                    #[trigger] answers[j],
                ) by {
                    if j > 0 {
                        assert(answered(p, rest[j - 1], alg, token, others[j - 1]));
                    }
                }
                assert forall|j: int| 0 <= j < answers.len() - 1 implies (
                #[trigger] answers[j]) is None by {
                    if j > 0 {
                        assert(others[j - 1] is None);
                    }
                }
                if others.len() > 0 {
                    assert(answers.last() == others.last());
                } else {
                    assert(answers.last() == answer);
                }
                answers
            },
        }
    }
}

/// The keys that are tried on a token with that header: those that carry the
/// key id that it names, or where it names none all of them.
pub open spec fn candidates(header: HeaderView, keys: Seq<KeyView>) -> Seq<KeyView> {
    match header.kid {
        Some(kid) => keys.filter(|key: KeyView| key.kid == Some(kid)),
        None => keys,
    }
}

/// A good token is verified: once keys have been made sure of, a token whose
/// header names an algorithm that is accepted is tried on the cached keys that
/// are candidates for it. It is verified where the first to accept it hands back claims that
/// make up an identity; and nothing is remembered of it.
pub proof fn tokens_are_judged_by_the_candidates(
    m: ProviderModel,
    token: Seq<char>,
    header: HeaderView,
    cached: CachedKeysView,
    now: u64,
    after: ProviderModel,
    step: StepView,
) -> (answers: Seq<Option<Json>>)
    requires
        m.header_read(token, Ok(header), now, after, step),
        m.allowed_algs.contains(header.alg) || (m.allowed_algs.len() == 0 && header.alg
            != Algorithm::HS256),
        m.jwks == Some(cached),
        header.kid is None || candidates(header, cached.keys).len() > 0,
    ensures
        after == m,
        step matches StepView::Done(verdict) && tried_in_order(
            m.config,
            candidates(header, cached.keys),
            header.alg,
            token,
            answers,
            verdict,
        ),
{
    listed_algorithms_are_accepted(m, header.alg);
    if let Some(kid) = header.kid {
        keys_are_found_by_their_id(cached.keys, kid);
    }
    the_first_key_to_accept_decides(
        m.config,
        candidates(header, cached.keys),
        header.alg,
        token,
        step->Done_0,
    )
}

/// Once keys have been made sure of, a token is refused and nothing is
/// remembered of it where its header cannot be read, where its algorithm is
/// not accepted, and where there are no keys at all.
pub proof fn other_tokens_are_refused(
    m: ProviderModel,
    token: Seq<char>,
    header: Result<HeaderView, Seq<char>>,
    now: u64,
    after: ProviderModel,
    step: StepView,
)
    requires
        m.header_read(token, header, now, after, step),
        match header {
            Err(_) => true,
            Ok(header) => m.jwks is None || (m.allowed_algs.len() > 0 && !m.allowed_algs.contains(
                header.alg,
            )) || (m.allowed_algs.len() == 0 && header.alg == Algorithm::HS256),
        },
    ensures
        after == m,
        step matches StepView::Done(verdict) && verdict is Invalid,
{
}

/// A token whose key id no cached key carries leads to a fetch for that key id,
/// unless such a fetch was begun less than a minute ago, an open circuit bars
/// it, or the guard refuses where it would go. In the first case the token is
/// refused and nothing is remembered of it.
pub proof fn unknown_key_ids_are_looked_for(
    m: ProviderModel,
    token: Seq<char>,
    header: HeaderView,
    kid: Seq<char>,
    cached: CachedKeysView,
    now: u64,
    after: ProviderModel,
    step: StepView,
    interval: u64,
    staleness: u64,
    timeout: u64,
)
    requires
        set_to(m.config.verification, interval, staleness, timeout),
        m.header_read(token, Ok(header), now, after, step),
        header.kid == Some(kid),
        m.allowed_algs.contains(header.alg) || (m.allowed_algs.len() == 0 && header.alg
            != Algorithm::HS256),
        m.jwks == Some(cached),
        candidates(header, cached.keys).len() == 0,
    ensures
        ({
            let stale_ok = has_keys_younger(m, now, staleness);
            let purpose = PurposeView::UnknownKid { kid, alg: header.alg };
            if m.last_kid_refresh matches Some(at) && now < at + 60_000_000_000 {
                after == m && (step matches StepView::Done(verdict) && verdict is Invalid)
            } else {
                &&& after.last_kid_refresh == Some(now)
                &&& fetches_admitted(m, now) ==> match m.discovery {
                    Some(known) if younger(known.fetched_at, now, interval) => match url_fault(
                        known.document.jwks_uri,
                        m.config.allowed_issuer_hosts,
                        m.config.allow_private_issuer,
                    ) {
                        None => step == fetch_of_keys(
                            token,
                            purpose,
                            stale_ok,
                            known.document.jwks_uri,
                            timeout,
                        ),
                        Some(_) => step matches StepView::Done(verdict) && verdict is Invalid,
                    },
                    _ => match url_fault(
                        m.config.effective_discovery_uri(),
                        m.config.allowed_issuer_hosts,
                        m.config.allow_private_issuer,
                    ) {
                        None => step == fetch_of_document(
                            m.config,
                            token,
                            purpose,
                            stale_ok,
                            timeout,
                        ),
                        Some(_) => step matches StepView::Done(verdict) && verdict is Invalid,
                    },
                }
                &&& !fetches_admitted(m, now) ==> (step matches StepView::Done(verdict)
                    && verdict is Invalid)
                &&& step.fetches() ==> after == (ProviderModel {
                    last_kid_refresh: Some(now),
                    ..asked(m, now)
                })
            }
        }),
{
    keys_are_found_by_their_id(cached.keys, kid);
    listed_algorithms_are_accepted(m, header.alg);
}

/// After a refresh for a key id, the keys that carry it are tried in order.
/// Where none carries it, or where the refresh left no keys to use, the token
/// is refused.
pub proof fn refreshed_keys_are_tried(
    m: ProviderModel,
    token: Seq<char>,
    kid: Seq<char>,
    alg: Algorithm,
    ok: bool,
    step: StepView,
) -> (answers: Seq<Option<Json>>)
    requires
        m.kid_refreshed(token, kid, alg, ok, step),
    ensures
        step matches StepView::Done(verdict) && match m.jwks {
            Some(cached) if ok => tried_in_order(
                m.config,
                cached.keys.filter(|key: KeyView| key.kid == Some(kid)),
                alg,
                token,
                answers,
                verdict,
            ),
            _ => verdict is Invalid,
        },
{
    let verdict = step->Done_0;
    match m.jwks {
        Some(cached) if ok => {
            keys_are_found_by_their_id(cached.keys, kid);
            if with_kid(cached.keys, kid).len() > 0 {
                the_first_key_to_accept_decides(
                    m.config,
                    with_kid(cached.keys, kid),
                    alg,
                    token,
                    verdict,
                )
            } else {
                Seq::empty()
            }
        },
        _ => Seq::empty(),
    }
}

// ---------------------------------------------------------------------------
// Introspection
// ---------------------------------------------------------------------------

/// A token is introspected where the strategy says, by the client that it
/// says, within the time that it says, if the guard lets it; the request holds
/// that token. A provider that verifies with keys only introspects nothing.
pub proof fn introspections_follow_the_configuration(p: ProviderView, token: Seq<char>)
    ensures
        match p.verification {
            VerificationView::OidcJwks { .. } => introspection_step(p, token) matches StepView::Done(
                verdict,
            ) && verdict is Invalid,
            VerificationView::OauthIntrospection {
                introspection_url,
                client_id,
                client_secret_ref,
                timeout_ms,
            } => match url_fault(
                introspection_url,
                p.allowed_issuer_hosts,
                p.allow_private_issuer,
            ) {
                Some(_) => introspection_step(p, token) matches StepView::Done(verdict)
                    && verdict is Invalid,
                None => introspection_step(p, token) == StepView::Introspect(
                    IntrospectionView {
                        url: introspection_url,
                        client_id,
                        client_secret: client_secret_ref,
                        token,
                        timeout_ms,
                    },
                ),
            },
            VerificationView::Hybrid {
                introspection_url,
                client_id,
                client_secret_ref,
                introspection_timeout_ms,
                ..
            } => match url_fault(
                introspection_url,
                p.allowed_issuer_hosts,
                p.allow_private_issuer,
            ) {
                Some(_) => introspection_step(p, token) matches StepView::Done(verdict)
                    && verdict is Invalid,
                None => introspection_step(p, token) == StepView::Introspect(
                    IntrospectionView {
                        url: introspection_url,
                        client_id,
                        client_secret: client_secret_ref,
                        token,
                        timeout_ms: introspection_timeout_ms,
                    },
                ),
            },
        },
        introspection_request(p, token) is Some <==> !(p.verification is OidcJwks),
        introspection_request(p, token) matches Some(request) ==> request.token == token,
{
}

/// Whether an `aud` claim names an audience: as that text, or in an array that
/// holds it.
pub open spec fn names_audience(aud: Json, audience: Seq<char>) -> bool {
    match aud {
        Json::Text(t) => t == audience,
        Json::List(items) => items.contains(Json::Text(audience)),
        _ => false,
    }
}

/// An introspection response makes an identity exactly where it says that the
/// token is active, names no issuer or as a text the provider's, names one of
/// the audiences where there are any, and has a subject with a word in it. It
/// is the identity that its claims make up. Every other response refuses the
/// token.
pub proof fn good_responses_are_accepted(p: ProviderView, body: Json)
    ensures
        introspected(p, body) is Verified <==> ({
            &&& member(body, "active"@) == Some(Json::Bool(true))
            &&& member(body, "iss"@) matches Some(Json::Text(iss)) ==> iss == p.issuer
            &&& p.audiences.len() > 0 ==> (member(body, "aud"@) matches Some(aud) && exists|i: int|
                0 <= i < p.audiences.len() && names_audience(aud, #[trigger] p.audiences[i]))
            &&& at_path(body, p.claim_mappings.subject_claim) matches Some(Json::Text(subject))
            &&& words(subject).len() > 0
        }),
        introspected(p, body) is Verified ==> introspected(p, body) == claims_verdict(p, body),
        !(introspected(p, body) is Verified) ==> introspected(p, body) is Invalid,
{
    claims_with_a_subject_make_an_identity(p, body);
    if let Some(aud) = member(body, "aud"@) {
        let named = audiences_named(aud);
        assert forall|i: int| 0 <= i < p.audiences.len() implies named.contains(
            #[trigger] p.audiences[i],
        ) == names_audience(aud, p.audiences[i]) by {
            match aud {
                Json::Text(t) => {
                    assert(seq![t][0] == t);
                },
                Json::List(items) => {
                    an_array_holds_its_texts(items, p.audiences[i]);
                },
                _ => {},
            }
        }
        if overlap(p.audiences, named) {
            let i = choose|i: int|
                0 <= i < p.audiences.len() && named.contains(#[trigger] p.audiences[i]);
            assert(names_audience(aud, p.audiences[i]));
        }
        if exists|i: int|
            0 <= i < p.audiences.len() && names_audience(aud, #[trigger] p.audiences[i]) {
            let i = choose|i: int|
                0 <= i < p.audiences.len() && names_audience(aud, #[trigger] p.audiences[i]);
            assert(named.contains(p.audiences[i]));
        }
    }
}

/// The JSON document in a response of success is what an introspection is
/// judged by; any other reply refuses the token.
pub proof fn introspections_are_judged_by_their_document(
    p: ProviderView,
    reply: IntrospectionReplyView,
)
    ensures
        match reply {
            IntrospectionReplyView::Responded { status, body: Ok(bytes) } if status / 100 == 2 => {
                match json_document(bytes) {
                    Ok(document) => introspection_verdict(p, reply) == introspected(p, document),
                    Err(_) => introspection_verdict(p, reply) is Invalid,
                }
            },
            _ => introspection_verdict(p, reply) is Invalid,
        },
{
}

// ---------------------------------------------------------------------------
// Providers
// ---------------------------------------------------------------------------

/// The first name of a list that no algorithm has is told; without one, every
/// name of it is that of an algorithm.
pub proof fn unsupported_names_are_told(names: Seq<Seq<char>>)
    ensures
        match first_unsupported(names) {
            None => forall|i: int|
                0 <= i < names.len() ==> algorithm_named(#[trigger] names[i]) is Some,
            Some(name) => algorithm_named(name) is None && exists|i: int|
                0 <= i < names.len() && #[trigger] names[i] == name && (forall|j: int|
                    0 <= j < i ==> algorithm_named(#[trigger] names[j]) is Some),
        },
    decreases names.len(),
{
    if names.len() > 0 {
        let rest = names.drop_first();
        unsupported_names_are_told(rest);
        if algorithm_named(names[0]) is Some {
            match first_unsupported(rest) {
                None => {
                    assert forall|i: int| 0 <= i < names.len() implies algorithm_named(
                        #[trigger] names[i],
                    ) is Some by {
                        if i > 0 {
                            assert(algorithm_named(rest[i - 1]) is Some);
                        }
                    }
                },
                Some(name) => {
                    let i = choose|i: int|
                        0 <= i < rest.len() && #[trigger] rest[i] == name && (forall|j: int|
                            0 <= j < i ==> algorithm_named(#[trigger] rest[j]) is Some);
                    assert(names[i + 1] == name);
                    assert forall|j: int| 0 <= j < i + 1 implies algorithm_named(
                        #[trigger] names[j],
                    ) is Some by {
                        if j > 0 {
                            assert(algorithm_named(rest[j - 1]) is Some);
                        }
                    }
                },
            }
        } else {
            assert(names[0] == first_unsupported(names).unwrap());
        }
    }
}

/// A new provider goes by its configuration and remembers nothing: it has no
/// keys and no document, its circuit is closed, and it has begun no refresh.
/// It accepts exactly the algorithms whose names are on its list.
pub proof fn new_providers_go_by_their_configuration(p: ProviderView, alg: Algorithm)
    ensures
        ({
            let m = new_provider(p);
            &&& m.config == p
            &&& m.jwks is None
            &&& m.discovery is None
            &&& m.circuit == (JwksCircuit::Closed { consecutive_failures: 0 })
            &&& m.last_kid_refresh is None
            &&& m.notices.len() == 0
        }),
        p.verification matches VerificationView::OidcJwks { allowed_algs, .. } ==> (first_unsupported(
            allowed_algs,
        ) is None ==> new_provider(p).allowed_algs.len() == allowed_algs.len() && (new_provider(
            p,
        ).allowed_algs.contains(alg) <==> allowed_algs.contains(algorithm_name(alg)))),
        p.verification matches VerificationView::Hybrid { allowed_algs, .. } ==> (first_unsupported(
            allowed_algs,
        ) is None ==> new_provider(p).allowed_algs.len() == allowed_algs.len() && (new_provider(
            p,
        ).allowed_algs.contains(alg) <==> allowed_algs.contains(algorithm_name(alg)))),
{
    match p.verification {
        VerificationView::OidcJwks { allowed_algs, .. } => {
            if first_unsupported(allowed_algs) is None {
                lemma_algorithms_by_name(allowed_algs, alg);
            }
        },
        VerificationView::Hybrid { allowed_algs, .. } => {
            if first_unsupported(allowed_algs) is None {
                lemma_algorithms_by_name(allowed_algs, alg);
            }
        },
        VerificationView::OauthIntrospection { .. } => {},
    }
}

proof fn lemma_algorithms_by_name(names: Seq<Seq<char>>, alg: Algorithm)
    requires
        first_unsupported(names) is None,
    ensures
        algorithms_named(names).contains(alg) <==> names.contains(algorithm_name(alg)),
{
    let algs = algorithms_named(names);
    unsupported_names_are_told(names);
    if algs.contains(alg) {
        let i = choose|i: int| 0 <= i < algs.len() && algs[i] == alg;
        assert(algorithm_named(names[i]) == Some(alg));
        names_name_one_algorithm(alg, names[i]);
    }
    if names.contains(algorithm_name(alg)) {
        let i = choose|i: int| 0 <= i < names.len() && names[i] == algorithm_name(alg);
        names_name_one_algorithm(alg, names[i]);
        assert(algs[i] == alg);
    }
}

/// A new resolver has one new provider for each that is configured, in the same
/// order, and reads tokens where it is configured to.
pub proof fn new_resolvers_go_by_their_configuration(c: ConfigView)
    ensures
        new_resolver(c).token_source == c.token_source,
        new_resolver(c).providers.len() == c.providers.len(),
        forall|i: int|
            0 <= i < c.providers.len() ==> (#[trigger] new_resolver(c).providers[i])
                == new_provider(c.providers[i]),
{
}

/// A resolver cannot be built exactly where a list of one of its providers has
/// a name that no algorithm has, and such a name is told.
pub proof fn unsupported_algorithms_keep_a_resolver_from_being_built(providers: Seq<ProviderView>)
    ensures
        match first_unsupported_of(providers) {
            None => forall|i: int|
                0 <= i < providers.len() ==> first_unsupported(
                    (#[trigger] providers[i]).verification.algs(),
                ) is None,
            Some(name) => exists|i: int|
                0 <= i < providers.len() && first_unsupported(
                    (#[trigger] providers[i]).verification.algs(),
                ) == Some(name),
        },
    decreases providers.len(),
{
    if providers.len() > 0 {
        let rest = providers.drop_first();
        unsupported_algorithms_keep_a_resolver_from_being_built(rest);
        if first_unsupported(providers[0].verification.algs()) is None {
            match first_unsupported_of(rest) {
                None => {
                    assert forall|i: int| 0 <= i < providers.len() implies first_unsupported(
                        (#[trigger] providers[i]).verification.algs(),
                    ) is None by {
                        if i > 0 {
                            assert(rest[i - 1] == providers[i]);
                        }
                    }
                },
                Some(name) => {
                    let i = choose|i: int|
                        0 <= i < rest.len() && first_unsupported(
                            (#[trigger] rest[i]).verification.algs(),
                        ) == Some(name);
                    assert(providers[i + 1] == rest[i]);
                },
            }
        }
    }
}

/// Verification is defined for a clock skew of up to a thousand million
/// seconds, and for any where no key is ever used.
pub proof fn leeways_are_defined_up_to_their_bound(p: ProviderView)
    ensures
        leeway_defined(p) <==> p.verification is OauthIntrospection || p.clock_skew_secs
            <= 1_000_000_000,
{
}

// ---------------------------------------------------------------------------
// What refusals tell
// ---------------------------------------------------------------------------

/// A response that refuses a token tells the first reason: that the token is
/// not active, that it is of another issuer, that it names no audience or none
/// of the provider's, or that it has no subject.
pub proof fn refusing_responses_tell_the_first_reason(p: ProviderView, body: Json)
    ensures
        ({
            let verdict = introspected(p, body);
            let active = member(body, "active"@) == Some(Json::Bool(true));
            let ours = active && (member(body, "iss"@) matches Some(Json::Text(iss)) ==> iss
                == p.issuer);
            let audience = ours && (p.audiences.len() > 0 ==> member(body, "aud"@) is Some);
            let bound = audience && (p.audiences.len() > 0 ==> exists|i: int|
                0 <= i < p.audiences.len() && names_audience(
                    member(body, "aud"@).unwrap(),
                    #[trigger] p.audiences[i],
                ));
            &&& !active ==> verdict == Verdict::Invalid("token is not active (introspection)"@)
            &&& active && !ours ==> (member(body, "iss"@) matches Some(Json::Text(iss)) && verdict
                == Verdict::Invalid(
                "introspection issuer mismatch: expected '"@ + p.issuer + "', got '"@ + iss + "'"@,
            ))
            &&& ours && !audience ==> verdict == Verdict::Invalid(
                "introspection response for issuer '"@ + p.issuer
                    + "' carries no `aud`; cannot honour the configured audience binding (set allow_any_audience to accept this)"@,
            )
            &&& audience && !bound ==> verdict == Verdict::Invalid(
                "audience mismatch for issuer '"@ + p.issuer + "'"@,
            )
            &&& bound ==> verdict == claims_verdict(p, body)
        }),
        claims_verdict(p, body) matches Verdict::Invalid(message) ==> message == "missing or empty '"@
            + p.claim_mappings.subject_claim + "' claim for issuer '"@ + p.issuer + "'"@,
{
    good_responses_are_accepted(p, body);
    if let Some(aud) = member(body, "aud"@) {
        let named = audiences_named(aud);
        assert forall|i: int| 0 <= i < p.audiences.len() implies named.contains(
            #[trigger] p.audiences[i],
        ) == names_audience(aud, p.audiences[i]) by {
            match aud {
                Json::Text(t) => {
                    assert(seq![t][0] == t);
                },
                Json::List(items) => {
                    an_array_holds_its_texts(items, p.audiences[i]);
                },
                _ => {},
            }
        }
    }
}

/// A token that is refused before any key is tried is told why, the first
/// reason first: that its header cannot be read, that its algorithm is not on
/// the list or is not acceptable without one, that there are no keys, or that
/// its key id is unknown and was looked for too recently.
pub proof fn refused_tokens_are_told_the_first_reason(
    m: ProviderModel,
    token: Seq<char>,
    header: Result<HeaderView, Seq<char>>,
    now: u64,
    after: ProviderModel,
    step: StepView,
)
    requires
        m.header_read(token, header, now, after, step),
    ensures
        match header {
            Err(why) => step == StepView::Done(Verdict::Invalid("invalid JWT header: "@ + why)),
            Ok(header) => {
                &&& m.allowed_algs.len() > 0 && !m.allowed_algs.contains(header.alg) ==> step
                    == StepView::Done(
                    Verdict::Invalid(
                        "algorithm "@ + algorithm_name(header.alg)
                            + " not in allowed list for issuer '"@ + m.config.issuer + "'"@,
                    ),
                )
                &&& m.allowed_algs.len() == 0 && header.alg == Algorithm::HS256 ==> step
                    == StepView::Done(Verdict::Invalid("algorithm 'none' is not allowed"@))
                &&& (m.allowed_algs.contains(header.alg) || (m.allowed_algs.len() == 0 && header.alg
                    != Algorithm::HS256)) && m.jwks is None ==> step == StepView::Done(
                    Verdict::Invalid(
                        "no JWKS keys available for issuer '"@ + m.config.issuer + "'"@,
                    ),
                )
            },
        },
{
}

/// Where no key that is tried accepts a token, that is what is told; where a
/// refresh for its key id brought no such key, that.
pub proof fn failed_trials_are_told(
    m: ProviderModel,
    keys: Seq<KeyView>,
    kid: Seq<char>,
    alg: Algorithm,
    token: Seq<char>,
    verdict: Verdict,
    ok: bool,
    step: StepView,
)
    ensures
        keys.len() == 0 && keys_verdict(m.config, keys, alg, token, verdict) ==> verdict
            == Verdict::Invalid("token signature verification failed"@),
        m.kid_refreshed(token, kid, alg, ok, step) && (!ok || m.jwks is None) ==> step
            == StepView::Done(Verdict::Invalid("no key found for kid '"@ + kid + "'"@)),
        m.kid_refreshed(token, kid, alg, ok, step) && ok && (m.jwks matches Some(cached)
            && cached.keys.filter(|key: KeyView| key.kid == Some(kid)).len() == 0) ==> step
            == StepView::Done(
            Verdict::Invalid("no key found for kid '"@ + kid + "' after JWKS refresh"@),
        ),
{
    if let Some(cached) = m.jwks {
        keys_are_found_by_their_id(cached.keys, kid);
    }
}

} // verus!
