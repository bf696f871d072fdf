//! What resolution over several providers guarantees, from a token to its
//! verdict.

use vstd::prelude::*;
use crate::algorithm::algorithm_named;
use crate::claims::{json_document, Json};
use crate::config::{
    config_fault, issuers_of, valid_config, valid_jwks_strategy, valid_provider,
    verification_fault, ConfigView, ProviderView, VerificationView,
};
use crate::exchange::{DiscoveryReplyView, IntrospectionReplyView, JwksReplyView, StepView};
use crate::guarantees::{
    awaited, awaited_fetches_are_honest, configuration_stays, event_token, event_wait,
    fetches_are_guarded, honest, identities_carry_the_issuer, jwt_path_never_introspects, moves,
    new_providers_are_good, verified_tokens_are_vouched_for, vouched_for, Event,
};
use crate::identity::{claims_verdict, identity_has_subject_and_issuer, Verdict};
use crate::jwt::{carried_claims, issuer_named};
use crate::model::{introspection_request, introspection_verdict, ProviderModel};
use crate::provider::first_unsupported;
use crate::resolver::{
    first_unsupported_of, issuer_index, lemma_issuer_index, new_resolver, none_verified,
    ResolutionView, ResolverModel, RouteView,
};

verus! {

/// The reply to a step.
pub enum Reply {
    Discovery(DiscoveryReplyView),
    Jwks(JwksReplyView),
    Introspection(IntrospectionReplyView),
}

/// What a resolver is called with: a token, or the reply to the step that a
/// resolution waits for.
pub enum Call {
    Token(Seq<char>),
    Resume { route: RouteView, step: StepView, reply: Reply },
}

/// What a resolver makes of a call.
pub open spec fn answers(
    m: ResolverModel,
    call: Call,
    now: u64,
    after: ResolverModel,
    resolution: ResolutionView,
) -> bool {
    match call {
        Call::Token(token) => m.begins(token, now, after, resolution),
        Call::Resume { route, step, reply } => match (step, reply) {
            (StepView::FetchDiscovery { wait, .. }, Reply::Discovery(r)) => {
                m.discovery_resumes(route, wait, r, now, after, resolution)
            },
            (StepView::FetchJwks { wait, .. }, Reply::Jwks(r)) => {
                m.jwks_resumes(route, wait, r, now, after, resolution)
            },
            (StepView::Introspect(_), Reply::Introspection(r)) => {
                m.introspection_resumes(route, r, now, after, resolution)
            },
            _ => false,
        },
    }
}

/// The route that a call is on.
pub open spec fn route_taken(m: ResolverModel, call: Call) -> RouteView {
    match call {
        Call::Token(token) => m.route_of(token),
        Call::Resume { route, .. } => route,
    }
}

/// What a provider makes of the reply to its step.
pub open spec fn resumes(
    m: ProviderModel,
    step: StepView,
    reply: Reply,
    now: u64,
    after: ProviderModel,
    next: StepView,
) -> bool {
    match (step, reply) {
        (StepView::FetchDiscovery { wait, .. }, Reply::Discovery(r)) => {
            m.discovery_resumes(wait, r, now, after, next)
        },
        (StepView::FetchJwks { wait, .. }, Reply::Jwks(r)) => {
            m.jwks_resumes(wait, r, now, after, next)
        },
        (StepView::Introspect(_), Reply::Introspection(r)) => {
            after == m && next == StepView::Done(introspection_verdict(m.config, r))
        },
        _ => false,
    }
}

// ---------------------------------------------------------------------------
// One call
// ---------------------------------------------------------------------------

/// The step of a provider never says that there was no token, and an identity
/// in it carries the provider's issuer.
spec fn step_in_order(p: ProviderView, step: StepView) -> bool {
    &&& step != StepView::Done(Verdict::NoToken)
    &&& step matches StepView::Done(Verdict::Verified(id)) ==> id.issuer == p.issuer
}

/// A token leaves a provider's configuration as it is and comes to a step
/// that is in order.
proof fn lemma_begins(
    m: ProviderModel,
    token: Seq<char>,
    now: u64,
    after: ProviderModel,
    step: StepView,
)
    requires
        m.begins(token, now, after, step),
    ensures
        after.same_setup(m),
        step_in_order(m.config, step),
{
    let event = Event::Token(token);
    configuration_stays(m, event, now, after, step);
    identities_carry_the_issuer(m, event, now, after, step);
    jwt_path_never_introspects(m, event, now, after, step);
}

/// So does a reply.
proof fn lemma_resumes(
    m: ProviderModel,
    step: StepView,
    reply: Reply,
    now: u64,
    after: ProviderModel,
    next: StepView,
)
    requires
        resumes(m, step, reply, now, after, next),
    ensures
        after.same_setup(m),
        step_in_order(m.config, next),
{
    match (step, reply) {
        (StepView::FetchDiscovery { wait, .. }, Reply::Discovery(r)) => {
            let event = Event::Discovery(wait, r);
            configuration_stays(m, event, now, after, next);
            identities_carry_the_issuer(m, event, now, after, next);
            jwt_path_never_introspects(m, event, now, after, next);
        },
        (StepView::FetchJwks { wait, .. }, Reply::Jwks(r)) => {
            let event = Event::Jwks(wait, r);
            configuration_stays(m, event, now, after, next);
            identities_carry_the_issuer(m, event, now, after, next);
            jwt_path_never_introspects(m, event, now, after, next);
        },
        (StepView::Introspect(_), Reply::Introspection(r)) => {
            lemma_introspection_verdict(m.config, r);
        },
        _ => {},
    }
}

proof fn lemma_introspection_verdict(p: ProviderView, reply: IntrospectionReplyView)
    ensures
        introspection_verdict(p, reply) != Verdict::NoToken,
        introspection_verdict(p, reply) matches Verdict::Verified(id) ==> id.issuer == p.issuer,
{
    if let IntrospectionReplyView::Responded { body, .. } = reply {
        if let Ok(bytes) = body {
            if let Ok(claims) = json_document(bytes) {
                identity_has_subject_and_issuer(p, claims);
            }
        }
    }
}

/// A token's route begins at a provider.
proof fn lemma_route(m: ResolverModel, token: Seq<char>)
    requires
        m.providers.len() > 0,
    ensures
        m.route_of(token).provider < m.providers.len(),
        m.route_of(token).token == token,
{
    if let Some(issuer) = issuer_named(carried_claims(token)) {
        lemma_issuer_index(m.providers, issuer, 0);
    }
}

/// What settling keeps, and which provider it reaches.
proof fn lemma_settles(
    m: ResolverModel,
    route: RouteView,
    step: StepView,
    now: u64,
    after: ResolverModel,
    resolution: ResolutionView,
) -> (reached: nat)
    requires
        m.settles(route, step, now, after, resolution),
        route.provider < m.providers.len(),
        step_in_order(m.providers[route.provider as int].config, step),
    ensures
        route.provider <= reached < m.providers.len(),
        !route.fallback ==> reached == route.provider,
        after.same_setup(m),
        forall|i: int|
            0 <= i < m.providers.len() && (i <= route.provider || reached < i) ==> (
            #[trigger] after.providers[i]) == m.providers[i],
        ends_in_order(m, reached, resolution),
    decreases m.providers.len() - route.provider,
{
    if step is Done && step->Done_0 is Invalid && route.fallback && route.provider + 1
        < m.providers.len() {
        let next = RouteView { provider: route.provider + 1, ..route };
        let k = next.provider as int;
        let (p, s) = choose|p: ProviderModel, s: StepView| #[trigger]
            m.providers[k].begins(route.token, now, p, s) && m.with(next.provider, p).settles(
                next,
                s,
                now,
                after,
                resolution,
            );
        lemma_begins(m.providers[k], route.token, now, p, s);
        lemma_settles(m.with(next.provider, p), next, s, now, after, resolution)
    } else {
        route.provider
    }
}

/// A resolution does not say that there was no token, an identity in it
/// carries the issuer of the provider that was reached, and where it waits it
/// waits for that provider.
pub open spec fn ends_in_order(
    m: ResolverModel,
    reached: nat,
    resolution: ResolutionView,
) -> bool {
    &&& resolution != ResolutionView::Done(Verdict::NoToken)
    &&& resolution matches ResolutionView::Done(Verdict::Verified(id)) ==> id.issuer
        == m.providers[reached as int].config.issuer
    &&& resolution matches ResolutionView::Pending { route, step } ==> route.provider == reached
        && !(step is Done)
}

/// A broken provider cannot take down healthy ones: a call asks the provider
/// whose turn it is and, on the way through all of them, those after it up to
/// some provider, and leaves what every other remembers untouched. That is so
/// of a token and of a reply of every kind. It never changes what the
/// providers are configured for, never says of a token that there was none,
/// and an identity carries the issuer of the provider that was asked last.
pub proof fn others_stay_untouched(
    m: ResolverModel,
    call: Call,
    now: u64,
    after: ResolverModel,
    resolution: ResolutionView,
) -> (reached: nat)
    requires
        answers(m, call, now, after, resolution),
        m.providers.len() > 0,
        route_taken(m, call).provider < m.providers.len(),
    ensures
        route_taken(m, call).provider <= reached < m.providers.len(),
        !route_taken(m, call).fallback ==> reached == route_taken(m, call).provider,
        after.same_setup(m),
        forall|i: int|
            0 <= i < m.providers.len() && (i < route_taken(m, call).provider || reached < i) ==> (
            #[trigger] after.providers[i]) == m.providers[i],
        ends_in_order(m, reached, resolution),
{
    let route = route_taken(m, call);
    let (p, s) = lemma_asks(m, call, now, after, resolution);
    lemma_settles(m.with(route.provider, p), route, s, now, after, resolution)
}

/// A call moves the provider whose turn it is, and goes on from its step.
proof fn lemma_asks(
    m: ResolverModel,
    call: Call,
    now: u64,
    after: ResolverModel,
    resolution: ResolutionView,
) -> (r: (ProviderModel, StepView))
    requires
        answers(m, call, now, after, resolution),
        m.providers.len() > 0,
        route_taken(m, call).provider < m.providers.len(),
    ensures
        ({
            let route = route_taken(m, call);
            let was = m.providers[route.provider as int];
            &&& match call {
                Call::Token(token) => was.begins(token, now, r.0, r.1),
                Call::Resume { step, reply, .. } => resumes(was, step, reply, now, r.0, r.1),
            }
            &&& r.0.same_setup(was)
            &&& step_in_order(was.config, r.1)
            &&& m.with(route.provider, r.0).settles(route, r.1, now, after, resolution)
        }),
{
    let route = route_taken(m, call);
    let k = route.provider as int;
    match call {
        Call::Token(token) => {
            let (p, s) = choose|p: ProviderModel, s: StepView| #[trigger]
                m.providers[k].begins(token, now, p, s) && m.with(route.provider, p).settles(
                    route,
                    s,
                    now,
                    after,
                    resolution,
                );
            lemma_begins(m.providers[k], token, now, p, s);
            (p, s)
        },
        Call::Resume { step, reply, .. } => match (step, reply) {
            (StepView::FetchDiscovery { wait, .. }, Reply::Discovery(r)) => {
                let (p, s) = choose|p: ProviderModel, s: StepView| #[trigger]
                    m.providers[k].discovery_resumes(wait, r, now, p, s) && m.with(
                        route.provider,
                        p,
                    ).settles(route, s, now, after, resolution);
                lemma_resumes(m.providers[k], step, reply, now, p, s);
                (p, s)
            },
            (StepView::FetchJwks { wait, .. }, Reply::Jwks(r)) => {
                let (p, s) = choose|p: ProviderModel, s: StepView| #[trigger]
                    m.providers[k].jwks_resumes(wait, r, now, p, s) && m.with(
                        route.provider,
                        p,
                    ).settles(route, s, now, after, resolution);
                lemma_resumes(m.providers[k], step, reply, now, p, s);
                (p, s)
            },
            (StepView::Introspect(_), Reply::Introspection(r)) => {
                let p = m.providers[k];
                let s = StepView::Done(introspection_verdict(p.config, r));
                lemma_resumes(p, step, reply, now, p, s);
                assert(m.with(route.provider, p).providers =~= m.providers);
                (p, s)
            },
            _ => (m.providers[k], step),
        },
    }
}

// ---------------------------------------------------------------------------
// A whole run
// ---------------------------------------------------------------------------

/// One call of a resolver. Between two calls of a run, other tokens may have
/// been at the providers.
pub struct Exchange {
    pub call: Call,
    pub now: u64,
    pub before: ResolverModel,
    pub after: ResolverModel,
    pub resolution: ResolutionView,
}

/// The calls that take a token through a resolver of that setup: the first
/// hands it the token, and each of the others the reply to the step that the
/// call before came to.
pub open spec fn run(setup: ResolverModel, token: Seq<char>, calls: Seq<Exchange>) -> bool
    decreases calls.len(),
{
    &&& calls.len() > 0
    &&& calls.last().before.same_setup(setup)
    &&& answers(
        calls.last().before,
        calls.last().call,
        calls.last().now,
        calls.last().after,
        calls.last().resolution,
    )
    &&& if calls.len() == 1 {
        calls.last().call == Call::Token(token)
    } else {
        &&& run(setup, token, calls.drop_last())
        &&& calls.last().call matches Call::Resume { route, step, .. }
        &&& calls.drop_last().last().resolution == (ResolutionView::Pending { route, step })
    }
}

/// A provider's part in one call.
pub struct Turn {
    /// Which call.
    pub call: nat,
    /// The reply that came, but for the turn that begins.
    pub reply: Option<Reply>,
    pub now: u64,
    pub before: ProviderModel,
    pub after: ProviderModel,
    pub step: StepView,
}

/// The turns in which a provider of that setup verifies a token, as far as
/// they have come: the first begins with the token, and each of the others
/// goes on with the reply to the step before.
pub open spec fn verification(p: ProviderModel, token: Seq<char>, turns: Seq<Turn>) -> bool
    decreases turns.len(),
{
    &&& turns.len() > 0
    &&& turns.last().before.same_setup(p)
    &&& if turns.len() == 1 {
        &&& turns.last().reply is None
        &&& turns.last().before.begins(
            token,
            turns.last().now,
            turns.last().after,
            turns.last().step,
        )
    } else {
        &&& verification(p, token, turns.drop_last())
        &&& turns.last().reply matches Some(reply)
        &&& resumes(
            turns.last().before,
            turns.drop_last().last().step,
            reply,
            turns.last().now,
            turns.last().after,
            turns.last().step,
        )
    }
}

/// The verdict that a verification has come to.
pub open spec fn verdict_of(turns: Seq<Turn>) -> Option<Verdict> {
    match turns.last().step {
        StepView::Done(verdict) => Some(verdict),
        _ => None,
    }
}

/// A turn of the provider at `k` is part of the calls: it finds and leaves the
/// provider as its call does, and the reply is the one that came.
pub open spec fn takes_place(calls: Seq<Exchange>, k: int, turn: Turn) -> bool {
    &&& turn.call < calls.len()
    &&& turn.now == calls[turn.call as int].now
    &&& turn.before == calls[turn.call as int].before.providers[k]
    &&& turn.after == calls[turn.call as int].after.providers[k]
    &&& turn.reply matches Some(reply) ==> (calls[turn.call as int].call matches Call::Resume {
        reply: came,
        ..
    } && came == reply)
}

/// Turns of the provider at `k`, in consecutive calls.
pub open spec fn take_place(calls: Seq<Exchange>, k: int, turns: Seq<Turn>) -> bool {
    forall|i: int|
        0 <= i < turns.len() ==> takes_place(calls, k, #[trigger] turns[i]) && turns[i].call
            == turns[0].call + i
}

/// The verifications that a run consists of: of the provider that the token's
/// route begins at, and then, where the route goes on, of one provider after
/// the other. Each but the last has refused the token, and the next has begun
/// in the call in which it did.
pub open spec fn asked_in_order(
    setup: ResolverModel,
    token: Seq<char>,
    calls: Seq<Exchange>,
    asked: Seq<Seq<Turn>>,
) -> bool {
    let first = setup.route_of(token);
    &&& 0 < asked.len()
    &&& first.provider + asked.len() <= setup.providers.len()
    &&& asked.len() > 1 ==> first.fallback
    &&& forall|j: int|
        0 <= j < asked.len() ==> verification(
            setup.providers[first.provider + j],
            token,
            #[trigger] asked[j],
        )
    &&& forall|j: int|
        0 <= j < asked.len() ==> take_place(calls, first.provider + j, #[trigger] asked[j])
    &&& forall|j: int|
        0 <= j < asked.len() - 1 ==> (verdict_of(#[trigger] asked[j]) matches Some(verdict)
            && verdict is Invalid)
    &&& asked[0][0].call == 0
    &&& forall|i: int, j: int|
        #![trigger asked[i], asked[j]]
        0 <= i && j == i + 1 && j < asked.len() ==> asked[j][0].call == asked[i].last().call
    &&& asked.last().last().call == calls.len() - 1
}

/// What a run has come to: while the last provider's verification waits for a
/// reply, so does the run. Then its verdict is the result; but where the route
/// goes on, a refusal is the result only after all providers were asked.
pub open spec fn result_of(
    setup: ResolverModel,
    token: Seq<char>,
    asked: Seq<Seq<Turn>>,
    resolution: ResolutionView,
) -> bool {
    let first = setup.route_of(token);
    match verdict_of(asked.last()) {
        None => resolution == (ResolutionView::Pending {
            route: RouteView { provider: (first.provider + asked.len() - 1) as nat, ..first },
            step: asked.last().last().step,
        }),
        Some(Verdict::Invalid(message)) if first.fallback => first.provider + asked.len()
            == setup.providers.len() && resolution == ResolutionView::Done(
            none_verified(message),
        ),
        Some(verdict) => resolution == ResolutionView::Done(verdict),
    }
}

/// No call changes what a provider outside of `from..to` remembers.
pub open spec fn others_left_alone(calls: Seq<Exchange>, from: nat, to: nat) -> bool {
    forall|e: int, i: int|
        #![trigger calls[e].after.providers[i]]
        0 <= e < calls.len() && 0 <= i < calls[e].before.providers.len() && !(from <= i < to)
            ==> calls[e].after.providers[i] == calls[e].before.providers[i]
}

/// Routes depend on the setup alone.
proof fn lemma_same_route(m: ResolverModel, setup: ResolverModel, token: Seq<char>)
    requires
        m.same_setup(setup),
    ensures
        m.route_of(token) == setup.route_of(token),
{
    if let Some(issuer) = issuer_named(carried_claims(token)) {
        lemma_same_index(m, setup, issuer, 0);
    }
}

proof fn lemma_same_index(m: ResolverModel, setup: ResolverModel, issuer: Seq<char>, from: nat)
    requires
        m.same_setup(setup),
    ensures
        issuer_index(m.providers, issuer, from) == issuer_index(setup.providers, issuer, from),
    decreases m.providers.len() - from,
{
    if from < m.providers.len() {
        assert(m.providers[from as int].same_setup(setup.providers[from as int]));
        lemma_same_index(m, setup, issuer, from + 1);
    }
}

/// The last call of a run goes on from the step of the provider that was asked
/// last, and has not come to those after it.
spec fn goes_on(
    setup: ResolverModel,
    token: Seq<char>,
    calls: Seq<Exchange>,
    asked: Seq<Seq<Turn>>,
    m: ResolverModel,
) -> bool {
    let first = setup.route_of(token);
    let k = first.provider + asked.len() - 1;
    &&& calls.len() > 0
    &&& asked_in_order(setup, token, calls, asked)
    &&& m.same_setup(setup)
    &&& m.settles(
        RouteView { provider: k as nat, ..first },
        asked.last().last().step,
        calls.last().now,
        calls.last().after,
        calls.last().resolution,
    )
    &&& forall|i: int|
        k < i < m.providers.len() ==> (#[trigger] m.providers[i])
            == calls.last().before.providers[i]
}

/// From a provider's step the last call of a run goes on in order.
proof fn lemma_settles_in_order(
    setup: ResolverModel,
    token: Seq<char>,
    calls: Seq<Exchange>,
    asked: Seq<Seq<Turn>>,
    m: ResolverModel,
) -> (all: Seq<Seq<Turn>>)
    requires
        goes_on(setup, token, calls, asked, m),
        setup.route_of(token).token == token,
    ensures
        asked_in_order(setup, token, calls, all),
        result_of(setup, token, all, calls.last().resolution),
        all.len() >= asked.len(),
        forall|i: int|
            setup.route_of(token).provider + all.len() <= i < m.providers.len() ==> (
            #[trigger] calls.last().after.providers[i]) == calls.last().before.providers[i],
    decreases m.providers.len() - asked.len(),
{
    let x = calls.last();
    let first = setup.route_of(token);
    let step = asked.last().last().step;
    let route = RouteView { provider: (first.provider + asked.len() - 1) as nat, ..first };
    if step is Done && step->Done_0 is Invalid && route.fallback && route.provider + 1
        < m.providers.len() {
        let next = RouteView { provider: route.provider + 1, ..route };
        let k = next.provider as int;
        let (p, s) = choose|p: ProviderModel, s: StepView| #[trigger]
            m.providers[k].begins(route.token, x.now, p, s) && m.with(next.provider, p).settles(
                next,
                s,
                x.now,
                x.after,
                x.resolution,
            );
        let mid = m.with(next.provider, p);
        lemma_begins(m.providers[k], token, x.now, p, s);
        lemma_settles(mid, next, s, x.now, x.after, x.resolution);
        assert(x.after.providers[k] == p);
        let turn = Turn {
            call: (calls.len() - 1) as nat,
            reply: None,
            now: x.now,
            before: m.providers[k],
            after: p,
            step: s,
        };
        let turns = seq![turn];
        let more = asked.push(turns);
        assert(turns.last() == turn);
        assert(verification(setup.providers[k], token, turns));
        assert(take_place(calls, k, turns));
        assert(more.last() == turns);
        lemma_settles_in_order(setup, token, calls, more, mid)
    } else {
        asked
    }
}

/// Verifications that are part of a run are part of it when it goes on.
proof fn lemma_take_place(calls: Seq<Exchange>, k: int, turns: Seq<Turn>)
    requires
        calls.len() > 0,
        take_place(calls.drop_last(), k, turns),
    ensures
        take_place(calls, k, turns),
{
    assert forall|i: int| 0 <= i < turns.len() implies takes_place(calls, k, #[trigger] turns[i])
        && turns[i].call == turns[0].call + i by {
        assert(takes_place(calls.drop_last(), k, turns[i]));
    }
}

/// A run begins with the first provider of the token's route.
proof fn lemma_first_turn(setup: ResolverModel, token: Seq<char>, calls: Seq<Exchange>) -> (r: (
    Seq<Seq<Turn>>,
    ResolverModel,
))
    requires
        run(setup, token, calls),
        setup.providers.len() > 0,
        calls.len() == 1,
    ensures
        goes_on(setup, token, calls, r.0, r.1),
        others_left_alone(calls, setup.route_of(token).provider, setup.providers.len()),
{
    let x = calls.last();
    let first = setup.route_of(token);
    let k = first.provider as int;
    lemma_route(setup, token);
    lemma_same_route(x.before, setup, token);
    let (p, s) = lemma_asks(x.before, x.call, x.now, x.after, x.resolution);
    let mid = x.before.with(first.provider, p);
    lemma_settles(mid, first, s, x.now, x.after, x.resolution);
    assert(x.after.providers[k] == p);
    let turn = Turn {
        call: 0,
        reply: None,
        now: x.now,
        before: x.before.providers[k],
        after: p,
        step: s,
    };
    let turns = seq![turn];
    let asked = seq![turns];
    assert(turns.last() == turn);
    assert(verification(setup.providers[k], token, turns));
    assert(take_place(calls, k, turns));
    assert(asked.last() == turns);
    (asked, mid)
}

/// A run goes on with the provider that waits for the reply.
proof fn lemma_next_turn(
    setup: ResolverModel,
    token: Seq<char>,
    calls: Seq<Exchange>,
    earlier: Seq<Seq<Turn>>,
) -> (r: (Seq<Seq<Turn>>, ResolverModel))
    requires
        run(setup, token, calls),
        calls.len() > 1,
        asked_in_order(setup, token, calls.drop_last(), earlier),
        result_of(setup, token, earlier, calls.drop_last().last().resolution),
    ensures
        goes_on(setup, token, calls, r.0, r.1),
        r.0.len() == earlier.len(),
        forall|i: int|
            0 <= i < setup.route_of(token).provider ==> (
            #[trigger] calls.last().after.providers[i]) == calls.last().before.providers[i],
{
    let x = calls.last();
    let first = setup.route_of(token);
    let k = first.provider + earlier.len() - 1;
    let route = RouteView { provider: k as nat, ..first };
    let (p, s) = lemma_asks(x.before, x.call, x.now, x.after, x.resolution);
    let mid = x.before.with(route.provider, p);
    lemma_settles(mid, route, s, x.now, x.after, x.resolution);
    assert(x.after.providers[k] == p);
    let turn = Turn {
        call: (calls.len() - 1) as nat,
        reply: Some(x.call->reply),
        now: x.now,
        before: x.before.providers[k],
        after: p,
        step: s,
    };
    let turns = earlier.last().push(turn);
    let asked = earlier.drop_last().push(turns);
    assert(turns.drop_last() =~= earlier.last());
    assert(turns.last() == turn);
    assert(verification(setup.providers[k], token, turns));
    lemma_take_place(calls, k, earlier.last());
    assert(take_place(calls, k, turns));
    assert forall|j: int| 0 <= j < asked.len() implies take_place(
        calls,
        first.provider + j,
        #[trigger] asked[j],
    ) by {
        lemma_take_place(calls, first.provider + j, earlier[j]);
    }
    assert(asked.last() == turns);
    (asked, mid)
}

/// Providers that no call of a run touches are left alone by it.
proof fn lemma_left_alone(calls: Seq<Exchange>, from: nat, to: nat, more: nat)
    requires
        calls.len() > 0,
        others_left_alone(calls.drop_last(), from, to),
        to <= more,
        forall|i: int|
            0 <= i < calls.last().before.providers.len() && !(from <= i < more) ==> (
            #[trigger] calls.last().after.providers[i]) == calls.last().before.providers[i],
    ensures
        others_left_alone(calls, from, more),
{
    assert forall|e: int, i: int|
        #![trigger calls[e].after.providers[i]]
        0 <= e < calls.len() && 0 <= i < calls[e].before.providers.len() && !(from <= i
            < more) implies calls[e].after.providers[i] == calls[e].before.providers[i] by {
        if e < calls.len() - 1 {
            assert(calls.drop_last()[e].after.providers[i]
                == calls.drop_last()[e].before.providers[i]);
        }
    }
}

/// A run asks one provider after the other, in order, and its result is that
/// of the last that was asked. Those that were not asked are left alone.
///
/// This is so whatever happens between the calls, as long as it keeps the
/// setup, as every call does.
pub proof fn a_run_asks_in_order(setup: ResolverModel, token: Seq<char>, calls: Seq<Exchange>) -> (
    asked: Seq<Seq<Turn>>)
    requires
        run(setup, token, calls),
        setup.providers.len() > 0,
    ensures
        asked_in_order(setup, token, calls, asked),
        result_of(setup, token, asked, calls.last().resolution),
        others_left_alone(
            calls,
            setup.route_of(token).provider,
            setup.route_of(token).provider + asked.len(),
        ),
    decreases calls.len(),
{
    let first = setup.route_of(token);
    lemma_route(setup, token);
    if calls.len() == 1 {
        let (asked, m) = lemma_first_turn(setup, token, calls);
        lemma_settles_in_order(setup, token, calls, asked, m)
    } else {
        let earlier = a_run_asks_in_order(setup, token, calls.drop_last());
        let (asked, m) = lemma_next_turn(setup, token, calls, earlier);
        let all = lemma_settles_in_order(setup, token, calls, asked, m);
        lemma_left_alone(
            calls,
            first.provider,
            first.provider + earlier.len(),
            first.provider + all.len(),
        );
        all
    }
}

/// A verification never comes to the verdict that there was no token, and an
/// identity that it comes to carries the provider's issuer.
pub proof fn verifications_end_in_order(p: ProviderModel, token: Seq<char>, turns: Seq<Turn>)
    requires
        verification(p, token, turns),
    ensures
        verdict_of(turns) != Some(Verdict::NoToken),
        verdict_of(turns) matches Some(Verdict::Verified(id)) ==> id.issuer == p.config.issuer,
{
    let last = turns.last();
    if turns.len() == 1 {
        lemma_begins(last.before, token, last.now, last.after, last.step);
    } else {
        lemma_resumes(
            last.before,
            turns.drop_last().last().step,
            last.reply.unwrap(),
            last.now,
            last.after,
            last.step,
        );
    }
}

/// A verification that waits, waits on behalf of its token: for keys with the
/// key id that the token names, or for the introspection of that token by the
/// configured client at an address that the guard has passed.
pub proof fn verifications_wait_for_their_token(
    p: ProviderModel,
    token: Seq<char>,
    turns: Seq<Turn>,
)
    requires
        verification(p, token, turns),
    ensures
        awaited(turns.last().step) matches Some(wait) ==> wait.token == token && honest(p, wait)
            && p.guard(wait.uri) is None,
        turns.last().step matches StepView::Introspect(request) ==> introspection_request(
            p.config,
            token,
        ) == Some(request) && p.guard(request.url) is None,
    decreases turns.len(),
{
    let last = turns.last();
    if turns.len() == 1 {
        let event = Event::Token(token);
        awaited_fetches_are_honest(last.before, event, last.now, last.after, last.step);
        fetches_are_guarded(last.before, event, last.now, last.after, last.step);
        configuration_stays(last.before, event, last.now, last.after, last.step);
    } else {
        verifications_wait_for_their_token(p, token, turns.drop_last());
        match (turns.drop_last().last().step, last.reply.unwrap()) {
            (StepView::FetchDiscovery { wait, .. }, Reply::Discovery(r)) => {
                let event = Event::Discovery(wait, r);
                awaited_fetches_are_honest(last.before, event, last.now, last.after, last.step);
                fetches_are_guarded(last.before, event, last.now, last.after, last.step);
                configuration_stays(last.before, event, last.now, last.after, last.step);
                jwt_path_never_introspects(last.before, event, last.now, last.after, last.step);
            },
            (StepView::FetchJwks { wait, .. }, Reply::Jwks(r)) => {
                let event = Event::Jwks(wait, r);
                awaited_fetches_are_honest(last.before, event, last.now, last.after, last.step);
                fetches_are_guarded(last.before, event, last.now, last.after, last.step);
                configuration_stays(last.before, event, last.now, last.after, last.step);
                jwt_path_never_introspects(last.before, event, last.now, last.after, last.step);
            },
            _ => {},
        }
    }
}

/// What an identity that a verification resolves rests on: the response to
/// the introspection of the token, or claims that the keys vouch for which
/// are cached when it ends.
pub open spec fn well_founded(p: ProviderModel, token: Seq<char>, turns: Seq<Turn>) -> bool {
    let last = turns.last();
    match last.reply {
        Some(Reply::Introspection(reply)) => {
            &&& turns.drop_last().last().step matches StepView::Introspect(request)
            &&& introspection_request(p.config, token) == Some(request)
            &&& last.step == StepView::Done(introspection_verdict(p.config, reply))
        },
        _ => {
            &&& last.after.jwks matches Some(cached)
            &&& exists|claims: Json| #[trigger]
                claims_verdict(p.config, claims) == last.step->Done_0 && vouched_for(
                    p,
                    cached.keys,
                    token,
                    claims,
                )
        },
    }
}

/// Every identity that a verification resolves is well founded, whatever
/// replies it was handed and whatever happened in between.
pub proof fn verified_identities_are_well_founded(
    p: ProviderModel,
    token: Seq<char>,
    turns: Seq<Turn>,
)
    requires
        verification(p, token, turns),
        verdict_of(turns) matches Some(verdict) && verdict is Verified,
    ensures
        well_founded(p, token, turns),
{
    let last = turns.last();
    if turns.len() == 1 {
        lemma_vouched_for(p, Event::Token(token), last);
    } else {
        verifications_wait_for_their_token(p, token, turns.drop_last());
        match (turns.drop_last().last().step, last.reply.unwrap()) {
            (StepView::FetchDiscovery { wait, .. }, Reply::Discovery(r)) => {
                lemma_vouched_for(p, Event::Discovery(wait, r), last);
            },
            (StepView::FetchJwks { wait, .. }, Reply::Jwks(r)) => {
                lemma_vouched_for(p, Event::Jwks(wait, r), last);
            },
            _ => {},
        }
    }
}

proof fn lemma_vouched_for(p: ProviderModel, event: Event, turn: Turn)
    requires
        moves(turn.before, event, turn.now, turn.after, turn.step),
        turn.before.same_setup(p),
        event_wait(event) matches Some(wait) ==> honest(p, wait),
        turn.step matches StepView::Done(verdict) && verdict is Verified,
    ensures
        turn.after.jwks matches Some(cached) && exists|claims: Json| #[trigger]
            claims_verdict(p.config, claims) == turn.step->Done_0 && vouched_for(
                p,
                cached.keys,
                event_token(event),
                claims,
            ),
{
    verified_tokens_are_vouched_for(turn.before, event, turn.now, turn.after, turn.step);
    let keys = turn.after.jwks.unwrap().keys;
    let claims = choose|claims: Json| #[trigger]
        claims_verdict(p.config, claims) == turn.step->Done_0 && vouched_for(
            turn.before,
            keys,
            event_token(event),
            claims,
        );
    assert(vouched_for(p, keys, event_token(event), claims));
}

/// Every identity that a run ends with is that of a provider whose
/// verification of the token was part of the run, and is well founded.
pub proof fn resolved_identities_are_well_founded(
    setup: ResolverModel,
    token: Seq<char>,
    calls: Seq<Exchange>,
) -> (r: (int, Seq<Turn>))
    requires
        run(setup, token, calls),
        calls.last().resolution matches ResolutionView::Done(verdict) && verdict is Verified,
    ensures
        0 <= r.0 < setup.providers.len(),
        verification(setup.providers[r.0], token, r.1),
        take_place(calls, r.0, r.1),
        calls.last().resolution == ResolutionView::Done(verdict_of(r.1).unwrap()),
        verdict_of(r.1) is Some,
        well_founded(setup.providers[r.0], token, r.1),
{
    if setup.providers.len() == 0 {
        no_provider_verifies_nothing(setup, token, calls);
    }
    let asked = a_run_asks_in_order(setup, token, calls);
    let j = asked.len() - 1;
    let k = setup.route_of(token).provider + j;
    verified_identities_are_well_founded(setup.providers[k], token, asked[j]);
    (k, asked[j])
}

/// What a run comes to that is one provider's verification.
pub open spec fn decided_by(
    setup: ResolverModel,
    k: nat,
    token: Seq<char>,
    calls: Seq<Exchange>,
    turns: Seq<Turn>,
) -> bool {
    &&& verification(setup.providers[k as int], token, turns)
    &&& take_place(calls, k as int, turns)
    &&& turns[0].call == 0
    &&& turns.last().call == calls.len() - 1
    &&& calls.last().resolution == match verdict_of(turns) {
        Some(verdict) => ResolutionView::Done(verdict),
        None => ResolutionView::Pending {
            route: RouteView { token, provider: k, fallback: false },
            step: turns.last().step,
        },
    }
    &&& others_left_alone(calls, k, k + 1)
}

/// With one provider, what it makes of a token is the result, whatever issuer
/// the token names.
pub proof fn the_only_provider_decides(
    setup: ResolverModel,
    token: Seq<char>,
    calls: Seq<Exchange>,
) -> (turns: Seq<Turn>)
    requires
        run(setup, token, calls),
        setup.providers.len() == 1,
    ensures
        decided_by(setup, 0, token, calls, turns),
{
    let asked = a_run_asks_in_order(setup, token, calls);
    assert(asked[0] == asked.last());
    asked[0]
}

/// Of several providers, the first whose issuer a token names decides alone:
/// what it makes of the token is the result, be it a refusal, and no other
/// provider is asked.
pub proof fn the_named_issuer_decides(
    setup: ResolverModel,
    token: Seq<char>,
    calls: Seq<Exchange>,
    k: nat,
) -> (turns: Seq<Turn>)
    requires
        run(setup, token, calls),
        setup.providers.len() > 1,
        k < setup.providers.len(),
        issuer_named(carried_claims(token)) == Some(setup.providers[k as int].config.issuer),
        forall|i: int|
            0 <= i < k ==> (#[trigger] setup.providers[i]).config.issuer
                != setup.providers[k as int].config.issuer,
    ensures
        decided_by(setup, k, token, calls, turns),
{
    lemma_first_issuer(setup.providers, 0, k);
    let asked = a_run_asks_in_order(setup, token, calls);
    assert(asked[0] == asked.last());
    asked[0]
}

proof fn lemma_first_issuer(providers: Seq<ProviderModel>, from: nat, k: nat)
    requires
        from <= k < providers.len(),
        forall|i: int|
            0 <= i < k ==> (#[trigger] providers[i]).config.issuer
                != providers[k as int].config.issuer,
    ensures
        issuer_index(providers, providers[k as int].config.issuer, from) == Some(k),
    decreases k - from,
{
    if from < k {
        lemma_first_issuer(providers, from + 1, k);
    }
}

/// A token that names the issuer of none of several providers, or none at
/// all, goes through all of them in order. An identity is that of the first
/// that verified the token, after all before it refused; where there is none,
/// every provider was asked and refused, and the result is a refusal with the
/// reason of the last. Providers after the one that is asked last are left
/// alone.
pub proof fn the_first_that_verifies_decides(
    setup: ResolverModel,
    token: Seq<char>,
    calls: Seq<Exchange>,
) -> (asked: Seq<Seq<Turn>>)
    requires
        run(setup, token, calls),
        setup.providers.len() > 1,
        issuer_named(carried_claims(token)) matches Some(issuer) ==> forall|i: int|
            0 <= i < setup.providers.len() ==> (#[trigger] setup.providers[i]).config.issuer
                != issuer,
    ensures
        0 < asked.len() <= setup.providers.len(),
        forall|j: int|
            0 <= j < asked.len() ==> verification(
                setup.providers[j],
                token,
                #[trigger] asked[j],
            ) && take_place(calls, j, asked[j]),
        forall|j: int|
            0 <= j < asked.len() - 1 ==> (verdict_of(#[trigger] asked[j]) matches Some(verdict)
                && verdict is Invalid),
        match calls.last().resolution {
            ResolutionView::Done(Verdict::Verified(id)) => verdict_of(asked.last()) == Some(
                Verdict::Verified(id),
            ),
            ResolutionView::Done(refusal) => asked.len() == setup.providers.len() && (verdict_of(
                asked.last(),
            ) matches Some(Verdict::Invalid(message)) && refusal == none_verified(message)),
            ResolutionView::Pending { route, step } => verdict_of(asked.last()) is None && step
                == asked.last().last().step && route == (RouteView {
                token,
                provider: (asked.len() - 1) as nat,
                fallback: true,
            }),
        },
        others_left_alone(calls, 0, asked.len()),
{
    if let Some(issuer) = issuer_named(carried_claims(token)) {
        lemma_issuer_index(setup.providers, issuer, 0);
    }
    let asked = a_run_asks_in_order(setup, token, calls);
    let last = asked.len() - 1;
    verifications_end_in_order(setup.providers[last], token, asked[last]);
    asked
}

/// Without providers every token is refused.
pub proof fn no_provider_verifies_nothing(
    setup: ResolverModel,
    token: Seq<char>,
    calls: Seq<Exchange>,
)
    requires
        run(setup, token, calls),
        setup.providers.len() == 0,
    ensures
        calls.len() == 1,
        calls.last().resolution == ResolutionView::Done(none_verified(""@)),
        calls.last().after == calls.last().before,
    decreases calls.len(),
{
    if calls.len() > 1 {
        no_provider_verifies_nothing(setup, token, calls.drop_last());
    }
}

// ---------------------------------------------------------------------------
// What a resolver starts from
// ---------------------------------------------------------------------------

/// A new resolver has a provider for each that is configured, in the same
/// order.
pub proof fn new_resolvers_keep_the_order(c: ConfigView)
    ensures
        new_resolver(c).providers.len() == c.providers.len(),
        new_resolver(c).providers.map_values(|p: ProviderModel| p.config.issuer) == issuers_of(
            c.providers,
        ),
{
    assert(new_resolver(c).providers.map_values(|p: ProviderModel| p.config.issuer) =~= issuers_of(
        c.providers,
    ));
}

/// A valid configuration gives a resolver, and one that is in order.
pub proof fn valid_configs_give_resolvers(c: ConfigView)
    requires
        config_fault(c) is None,
    ensures
        first_unsupported_of(c.providers) is None,
        new_resolver(c).wf(),
{
    valid_config(c);
    assert forall|i: int| 0 <= i < c.providers.len() implies first_unsupported(
        (#[trigger] c.providers[i]).verification.algs(),
    ) is None && new_resolver(c).providers[i].wf() by {
        valid_provider(c.providers[i]);
        lemma_valid_algs(c.providers[i].verification);
        new_providers_are_good(c.providers[i]);
    }
    lemma_all_supported(c.providers);
}

proof fn lemma_valid_algs(v: VerificationView)
    requires
        verification_fault(v) is None,
    ensures
        first_unsupported(v.algs()) is None,
{
    if !(v is OauthIntrospection) {
        valid_jwks_strategy(v);
    }
    lemma_supported(v.algs());
}

proof fn lemma_supported(names: Seq<Seq<char>>)
    requires
        forall|i: int| 0 <= i < names.len() ==> algorithm_named(#[trigger] names[i]) is Some,
    ensures
        first_unsupported(names) is None,
    decreases names.len(),
{
    if names.len() > 0 {
        assert(algorithm_named(names[0]) is Some);
        assert forall|i: int| 0 <= i < names.drop_first().len() implies algorithm_named(
            #[trigger] names.drop_first()[i],
        ) is Some by {
            assert(names.drop_first()[i] == names[i + 1]);
        }
        lemma_supported(names.drop_first());
    }
}

proof fn lemma_all_supported(providers: Seq<ProviderView>)
    requires
        forall|i: int|
            0 <= i < providers.len() ==> first_unsupported(
                (#[trigger] providers[i]).verification.algs(),
            ) is None,
    ensures
        first_unsupported_of(providers) is None,
    decreases providers.len(),
{
    if providers.len() > 0 {
        assert(first_unsupported(providers[0].verification.algs()) is None);
        assert forall|i: int| 0 <= i < providers.drop_first().len() implies first_unsupported(
            (#[trigger] providers.drop_first()[i]).verification.algs(),
        ) is None by {
            assert(providers.drop_first()[i] == providers[i + 1]);
        }
        lemma_all_supported(providers.drop_first());
    }
}

/// Where every provider refuses a token, the refusal tells the reason of the
/// last: it stands in it word for word, and different reasons make different
/// refusals.
pub proof fn the_last_reason_is_told(reason: Seq<char>, other: Seq<char>)
    ensures
        none_verified(reason) matches Verdict::Invalid(message) && exists|
            front: Seq<char>,
            back: Seq<char>,
        |
            message == #[trigger] (front + reason + back),
        none_verified(reason) == none_verified(other) ==> reason == other,
{
    let front = "no configured provider could verify the token (last error: "@;
    let message = front + reason + ")"@;
    let at = front.len() as int;
    assert(none_verified(reason) == Verdict::Invalid(front + reason + ")"@));
    assert(message.subrange(at, at + reason.len()) =~= reason);
    let second = front + other + ")"@;
    if message == second {
        assert(message.len() == front.len() + reason.len() + ")"@.len());
        assert(second.len() == front.len() + other.len() + ")"@.len());
        assert(second.subrange(at, at + other.len()) =~= other);
    }
}

} // verus!
