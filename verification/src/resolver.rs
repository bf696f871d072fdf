//! Multi-provider resolution: from request headers to a verdict.

use vstd::prelude::*;
pub use crate::algorithm::map_key_algorithm;
pub use crate::identity::{OidcIdentity, OidcVerificationResult};
pub use crate::url_guard::enforce_discovery_url_safety;
use crate::algorithm::UnsupportedAlgorithm;
use crate::circuit::countable;
use crate::config::{
    ConfigView, OidcOAuthConfig, ProviderView, TokenSourceConfig, TokenSourceView,
};
use crate::exchange::{
    notice_views, DiscoveryReply, DiscoveryReplyView, IntrospectionReply, IntrospectionReplyView,
    JwksReply, JwksReplyView, Notice, ProviderStep, RefreshWait, StepView, WaitView,
};
use crate::headers::{carried_token, token_from_headers};
use crate::identity::Verdict;
use crate::jwt::{carried_claims, extract_unverified_issuer, issuer_named};
use crate::model::{introspection_verdict, leeway_defined, ProviderModel};
use crate::provider::{first_unsupported, is_leeway_defined, new_provider, ProviderState};

verus! {

/// Top-level identity resolver over one or more providers.
pub struct OidcOAuthResolver {
    providers: Vec<ProviderState>,
    token_source: TokenSourceConfig,
}

/// What a resolver is configured for and what its providers remember.
#[verifier::ext_equal]
pub struct ResolverModel {
    pub providers: Seq<ProviderModel>,
    pub token_source: TokenSourceView,
}

impl View for OidcOAuthResolver {
    type V = ResolverModel;

    closed spec fn view(&self) -> ResolverModel {
        ResolverModel {
            providers: self.providers@.map_values(|p: ProviderState| p@),
            token_source: self.token_source@,
        }
    }
}

/// How a token is on its way through the providers.
#[derive(Debug)]
pub struct Route {
    pub token: String,
    /// The provider whose turn it is.
    pub provider: usize,
    /// Whether the next provider is tried when this one refuses.
    pub fallback: bool,
}

/// What a [`Route`] says.
#[verifier::ext_equal]
pub struct RouteView {
    pub token: Seq<char>,
    pub provider: nat,
    pub fallback: bool,
}

impl View for Route {
    type V = RouteView;

    open spec fn view(&self) -> RouteView {
        RouteView {
            token: self.token@,
            provider: self.provider as nat,
            fallback: self.fallback,
        }
    }
}

/// How far a resolution has come.
#[derive(Debug)]
pub enum Resolution {
    /// The verdict is there.
    Done(OidcVerificationResult),
    /// The step has to be performed, and the reply handed back.
    Pending { route: Route, step: ProviderStep },
}

/// What a [`Resolution`] says.
#[verifier::ext_equal]
pub enum ResolutionView {
    Done(Verdict),
    Pending { route: RouteView, step: StepView },
}

impl View for Resolution {
    type V = ResolutionView;

    open spec fn view(&self) -> ResolutionView {
        match *self {
            Resolution::Done(verdict) => ResolutionView::Done(verdict@),
            Resolution::Pending { route, step } => {
                ResolutionView::Pending { route: route@, step: step@ }
            },
        }
    }
}

impl ResolutionView {
    /// A resolution that is pending waits for a reply, and names a provider:
    /// one that has a use for keys, where it waits for a document or for keys.
    pub open spec fn resumable(self, m: ResolverModel) -> bool {
        self matches ResolutionView::Pending { route, step } ==> {
            &&& !(step is Done)
            &&& route.provider < m.providers.len()
            &&& step.fetches() ==> m.providers[route.provider as int].has_jwt_path()
        }
    }
}

/// The refusal when no provider could verify the token.
pub open spec fn none_verified(last_error: Seq<char>) -> Verdict {
    Verdict::Invalid(
        "no configured provider could verify the token (last error: "@ + last_error + ")"@,
    )
}

fn refuse(last_error: &str) -> (r: OidcVerificationResult)
    ensures
        r@ == none_verified(last_error@),
{
    let mut message = "no configured provider could verify the token (last error: ".to_owned();
    message.append(last_error);
    message.append(")");
    OidcVerificationResult::Invalid(message)
}

/// The first provider from `from` on with that issuer.
pub open spec fn issuer_index(providers: Seq<ProviderModel>, issuer: Seq<char>, from: nat) -> Option<
    nat,
>
    decreases providers.len() - from,
{
    if from >= providers.len() {
        None
    } else if providers[from as int].config.issuer == issuer {
        Some(from)
    } else {
        issuer_index(providers, issuer, from + 1)
    }
}

impl ResolverModel {
    /// Every provider is in order.
    pub open spec fn wf(self) -> bool {
        forall|i: int| 0 <= i < self.providers.len() ==> (#[trigger] self.providers[i]).wf()
    }

    /// What each provider is configured for, and where tokens are read from,
    /// are the same.
    pub open spec fn same_setup(self, other: ResolverModel) -> bool {
        &&& self.token_source == other.token_source
        &&& self.providers.len() == other.providers.len()
        &&& forall|i: int|
            0 <= i < self.providers.len() ==> (#[trigger] self.providers[i]).same_setup(
                other.providers[i],
            )
    }

    /// One provider changed.
    pub open spec fn with(self, i: nat, provider: ProviderModel) -> ResolverModel {
        ResolverModel { providers: self.providers.update(i as int, provider), ..self }
    }

    /// Where a token goes: to the only provider, or to the one whose issuer it
    /// names unverified, and nowhere else then; or else to each in turn.
    pub open spec fn route_of(self, token: Seq<char>) -> RouteView {
        if self.providers.len() == 1 {
            RouteView { token, provider: 0, fallback: false }
        } else {
            match issuer_named(carried_claims(token)) {
                Some(issuer) => match issuer_index(self.providers, issuer, 0) {
                    Some(i) => RouteView { token, provider: i, fallback: false },
                    None => RouteView { token, provider: 0, fallback: true },
                },
                None => RouteView { token, provider: 0, fallback: true },
            }
        }
    }

    /// Where a resolution goes from a provider's step: it waits for a step
    /// that needs a reply, it ends with a verdict, and after a refusal on the
    /// way through all providers it goes on with the next one.
    pub open spec fn settles(
        self,
        route: RouteView,
        step: StepView,
        now: u64,
        after: ResolverModel,
        resolution: ResolutionView,
    ) -> bool
        decreases self.providers.len() - route.provider,
    {
        match step {
            StepView::Done(Verdict::Invalid(message)) if route.fallback => {
                let next = RouteView { provider: route.provider + 1, ..route };
                if next.provider >= self.providers.len() {
                    after == self && resolution == ResolutionView::Done(none_verified(message))
                } else {
                    exists|p: ProviderModel, s: StepView| #[trigger]
                        self.providers[next.provider as int].begins(route.token, now, p, s)
                            && self.with(next.provider, p).settles(next, s, now, after, resolution)
                }
            },
            StepView::Done(verdict) => after == self && resolution == ResolutionView::Done(verdict),
            _ => after == self && resolution == ResolutionView::Pending { route, step },
        }
    }

    /// A resolution of a token begins.
    pub open spec fn begins(
        self,
        token: Seq<char>,
        now: u64,
        after: ResolverModel,
        resolution: ResolutionView,
    ) -> bool {
        if self.providers.len() == 0 {
            after == self && resolution == ResolutionView::Done(none_verified(""@))
        } else {
            let route = self.route_of(token);
            exists|p: ProviderModel, s: StepView| #[trigger]
                self.providers[route.provider as int].begins(token, now, p, s) && self.with(
                    route.provider,
                    p,
                ).settles(route, s, now, after, resolution)
        }
    }

    /// A resolution goes on with the reply to a discovery fetch.
    pub open spec fn discovery_resumes(
        self,
        route: RouteView,
        wait: WaitView,
        reply: DiscoveryReplyView,
        now: u64,
        after: ResolverModel,
        resolution: ResolutionView,
    ) -> bool {
        exists|p: ProviderModel, s: StepView| #[trigger]
            self.providers[route.provider as int].discovery_resumes(wait, reply, now, p, s)
                && self.with(route.provider, p).settles(route, s, now, after, resolution)
    }

    /// A resolution goes on with the reply to a fetch of a key set.
    pub open spec fn jwks_resumes(
        self,
        route: RouteView,
        wait: WaitView,
        reply: JwksReplyView,
        now: u64,
        after: ResolverModel,
        resolution: ResolutionView,
    ) -> bool {
        exists|p: ProviderModel, s: StepView| #[trigger]
            self.providers[route.provider as int].jwks_resumes(wait, reply, now, p, s)
                && self.with(route.provider, p).settles(route, s, now, after, resolution)
    }

    /// A resolution goes on with the reply to an introspection.
    pub open spec fn introspection_resumes(
        self,
        route: RouteView,
        reply: IntrospectionReplyView,
        now: u64,
        after: ResolverModel,
        resolution: ResolutionView,
    ) -> bool {
        self.settles(
            route,
            StepView::Done(
                introspection_verdict(self.providers[route.provider as int].config, reply),
            ),
            now,
            after,
            resolution,
        )
    }
}

/// The first name, among all providers in turn, that no algorithm has.
pub open spec fn first_unsupported_of(providers: Seq<ProviderView>) -> Option<Seq<char>>
    decreases providers.len(),
{
    if providers.len() == 0 {
        None
    } else {
        match first_unsupported(providers[0].verification.algs()) {
            Some(name) => Some(name),
            None => first_unsupported_of(providers.drop_first()),
        }
    }
}

/// Whether verification is defined for the leeway of every provider.
pub open spec fn leeways_defined(providers: Seq<ProviderView>) -> bool {
    forall|i: int| 0 <= i < providers.len() ==> leeway_defined(#[trigger] providers[i])
}

/// The resolver in which a configuration starts.
pub open spec fn new_resolver(c: ConfigView) -> ResolverModel {
    ResolverModel {
        providers: c.providers.map_values(|p: ProviderView| new_provider(p)),
        token_source: c.token_source,
    }
}

/// Whether verification is defined for the leeway of every provider.
pub fn are_leeways_defined(config: &OidcOAuthConfig) -> (r: bool)
    ensures
        r == leeways_defined(config@.providers),
{
    let mut i: usize = 0;
    while i < config.providers.len()
        invariant
            i <= config.providers@.len(),
            forall|j: int| 0 <= j < i ==> leeway_defined(#[trigger] config@.providers[j]),
        decreases config.providers@.len() - i,
    {
        assert(config@.providers[i as int] == config.providers@[i as int]@);
        if !is_leeway_defined(&config.providers[i]) {
            return false;
        }
        i = i + 1;
    }
    true
}

impl OidcOAuthResolver {
    /// Builds a resolver from configuration. It can verify tokens where
    /// verification is defined for the leeways.
    pub fn from_config(config: &OidcOAuthConfig) -> (r: Result<
        OidcOAuthResolver,
        UnsupportedAlgorithm,
    >)
        ensures
            match r {
                Ok(s) => first_unsupported_of(config@.providers) is None && s@ == new_resolver(
                    config@,
                ) && s@.wf() == leeways_defined(config@.providers),
                Err(e) => first_unsupported_of(config@.providers) == Some(e.name@),
            },
    {
        let ghost all = config@.providers;
        let mut providers: Vec<ProviderState> = Vec::new();
        let mut i: usize = 0;
        assert(all.skip(0) =~= all);
        while i < config.providers.len()
            invariant
                i <= config.providers@.len(),
                all == config@.providers,
                first_unsupported_of(all) == first_unsupported_of(all.skip(i as int)),
                providers@.len() == i,
                forall|j: int|
                    0 <= j < i ==> (#[trigger] providers@[j])@ == new_provider(all[j]),
            decreases config.providers@.len() - i,
        {
            assert(all.skip(i as int)[0] == all[i as int]);
            assert(all[i as int] == config.providers@[i as int]@);
            assert(all.skip(i as int).drop_first() =~= all.skip(i + 1));
            match ProviderState::new(config.providers[i].clone()) {
                Ok(state) => {
                    providers.push(state);
                },
                Err(e) => {
                    return Err(e);
                },
            }
            i = i + 1;
        }
        let s = OidcOAuthResolver { providers, token_source: config.token_source.clone() };
        assert(s@.providers =~= new_resolver(config@).providers);
        proof {
            lemma_new_resolver(config@);
        }
        Ok(s)
    }

    /// The header that tokens are read from.
    pub fn header_name(&self) -> (r: &str)
        ensures
            r@ == self@.token_source.effective_header_name(),
    {
        self.token_source.effective_header_name()
    }

    /// How many providers are configured.
    pub fn provider_count(&self) -> (r: usize)
        ensures
            r == self@.providers.len(),
    {
        self.providers.len()
    }

    /// The configured issuers.
    pub fn issuers(&self) -> (r: Vec<&str>)
        ensures
            r.deep_view() == self@.providers.map_values(|p: ProviderModel| p.config.issuer),
    {
        let mut issuers: Vec<&str> = Vec::new();
        let mut i: usize = 0;
        while i < self.providers.len()
            invariant
                i <= self.providers@.len(),
                issuers@.len() == i,
                forall|j: int|
                    0 <= j < i ==> (#[trigger] issuers@[j])@ == self.providers@[j]@.config.issuer,
            decreases self.providers@.len() - i,
        {
            issuers.push(self.providers[i].issuer());
            i = i + 1;
        }
        assert(issuers.deep_view() =~= self@.providers.map_values(
            |p: ProviderModel| p.config.issuer,
        ));
        issuers
    }

    /// The token that headers carry.
    pub fn extract_token<'a>(&self, headers: &'a http::HeaderMap) -> (r: Option<&'a str>)
        ensures
            r.deep_view() == carried_token(self@.token_source, *headers),
    {
        token_from_headers(&self.token_source, headers)
    }

    /// Takes the notices that a provider has gathered.
    pub fn take_notices(&mut self, provider: usize) -> (r: Vec<Notice>)
        requires
            provider < old(self)@.providers.len(),
        ensures
            notice_views(r@) == old(self)@.providers[provider as int].notices,
            final(self)@ == old(self)@.with(
                provider as nat,
                ProviderModel {
                    notices: Seq::empty(),
                    ..old(self)@.providers[provider as int]
                },
            ),
            old(self)@.wf() ==> final(self)@.wf(),
            final(self)@.same_setup(old(self)@),
    {
        let ghost was = self@;
        let r = self.providers[provider].take_notices();
        assert(self@.providers =~= was.with(
            provider as nat,
            ProviderModel { notices: Seq::empty(), ..was.providers[provider as int] },
        ).providers);
        r
    }

    /// A token comes to a provider.
    fn begin_at(&mut self, i: usize, token: &str, now: u64) -> (r: ProviderStep)
        requires
            old(self)@.wf(),
            countable(now),
            i < old(self)@.providers.len(),
        ensures
            old(self)@.providers[i as int].begins(
                token@,
                now,
                final(self)@.providers[i as int],
                r@,
            ),
            final(self)@ == old(self)@.with(i as nat, final(self)@.providers[i as int]),
            final(self)@.wf(),
            final(self)@.same_setup(old(self)@),
            r@.fetches() ==> final(self)@.providers[i as int].has_jwt_path(),
    {
        let ghost was = self@;
        assert(was.providers[i as int].wf());
        let step = self.providers[i].verify_token(token, now);
        assert(self@.providers =~= was.with(i as nat, self@.providers[i as int]).providers);
        step
    }

    /// Goes on from a provider's step.
    fn settle(&mut self, route: Route, step: ProviderStep, now: u64) -> (r: Resolution)
        requires
            old(self)@.wf(),
            countable(now),
            route.provider < old(self)@.providers.len(),
            step@.fetches() ==> old(self)@.providers[route.provider as int].has_jwt_path(),
        ensures
            old(self)@.settles(route@, step@, now, final(self)@, r@),
            final(self)@.wf(),
            final(self)@.same_setup(old(self)@),
            r@.resumable(final(self)@),
        decreases old(self)@.providers.len() - route.provider,
    {
        let ghost was = self@;
        let count: usize = self.providers.len();
        let verdict = match step {
            ProviderStep::Done(verdict) => verdict,
            _ => {
                return Resolution::Pending { route, step };
            },
        };
        let message = match verdict {
            OidcVerificationResult::Invalid(message) => message,
            _ => {
                return Resolution::Done(verdict);
            },
        };
        if !route.fallback {
            return Resolution::Done(OidcVerificationResult::Invalid(message));
        }
        let next: usize = route.provider + 1;
        if next >= count {
            return Resolution::Done(refuse(message.as_str()));
        }
        let begun = self.begin_at(next, route.token.as_str(), now);
        assert(was.providers[next as int].begins(
            route.token@,
            now,
            self@.providers[next as int],
            begun@,
        ));
        self.settle(Route { token: route.token, provider: next, fallback: true }, begun, now)
    }

    /// The first provider with that issuer.
    fn find_issuer(&self, issuer: &str) -> (r: Option<usize>)
        ensures
            issuer_index(self@.providers, issuer@, 0) == (match r {
                Some(i) => Some(i as nat),
                None => None,
            }),
    {
        let mut i: usize = 0;
        while i < self.providers.len()
            invariant
                i <= self.providers@.len(),
                issuer_index(self@.providers, issuer@, 0) == issuer_index(
                    self@.providers,
                    issuer@,
                    i as nat,
                ),
            decreases self.providers@.len() - i,
        {
            assert(self@.providers[i as int] == self.providers@[i as int]@);
            if self.providers[i].matches_issuer(Some(issuer)) {
                return Some(i);
            }
            i = i + 1;
        }
        None
    }

    /// Where a token goes first.
    fn route(&self, token: &str) -> (r: Route)
        ensures
            r@ == self@.route_of(token@),
    {
        if self.providers.len() == 1 {
            return Route { token: token.to_owned(), provider: 0, fallback: false };
        }
        if let Some(issuer) = extract_unverified_issuer(token) {
            if let Some(i) = self.find_issuer(issuer.as_str()) {
                return Route { token: token.to_owned(), provider: i, fallback: false };
            }
        }
        Route { token: token.to_owned(), provider: 0, fallback: true }
    }

    /// Begins to verify a raw token against the configured providers.
    pub fn verify_token(&mut self, token: &str, now: u64) -> (r: Resolution)
        requires
            old(self)@.wf(),
            countable(now),
        ensures
            old(self)@.begins(token@, now, final(self)@, r@),
            final(self)@.wf(),
            final(self)@.same_setup(old(self)@),
            r@.resumable(final(self)@),
    {
        if self.providers.len() == 0 {
            return Resolution::Done(refuse(""));
        }
        let ghost was = self@;
        let route = self.route(token);
        proof {
            if let Some(issuer) = issuer_named(carried_claims(token@)) {
                lemma_issuer_index(was.providers, issuer, 0);
            }
        }
        let step = self.begin_at(route.provider, token, now);
        assert(was.providers[route.provider as int].begins(
            token@,
            now,
            self@.providers[route.provider as int],
            step@,
        ));
        self.settle(route, step, now)
    }

    /// Begins to verify the bearer token that headers carry.
    pub fn verify_from_headers(&mut self, headers: &http::HeaderMap, now: u64) -> (r: Resolution)
        requires
            old(self)@.wf(),
            countable(now),
        ensures
            match carried_token(old(self)@.token_source, *headers) {
                Some(token) => old(self)@.begins(token, now, final(self)@, r@),
                None => r@ == ResolutionView::Done(Verdict::NoToken) && final(self)@ == old(self)@,
            },
            final(self)@.wf(),
            final(self)@.same_setup(old(self)@),
            r@.resumable(final(self)@),
    {
        match self.extract_token(headers) {
            Some(token) => self.verify_token(token, now),
            None => Resolution::Done(OidcVerificationResult::NoToken),
        }
    }

    /// Goes on with the reply to a discovery fetch.
    pub fn on_discovery(
        &mut self,
        route: Route,
        wait: RefreshWait,
        reply: DiscoveryReply,
        now: u64,
    ) -> (r: Resolution)
        requires
            old(self)@.wf(),
            countable(now),
            reply@.wf(),
            route.provider < old(self)@.providers.len(),
            old(self)@.providers[route.provider as int].has_jwt_path(),
        ensures
            old(self)@.discovery_resumes(route@, wait@, reply@, now, final(self)@, r@),
            final(self)@.wf(),
            final(self)@.same_setup(old(self)@),
            r@.resumable(final(self)@),
    {
        let ghost was = self@;
        let i: usize = route.provider;
        assert(was.providers[i as int].wf());
        let ghost w = wait@;
        let ghost rep = reply@;
        let step = self.providers[i].on_discovery(wait, reply, now);
        assert(self@.providers =~= was.with(i as nat, self@.providers[i as int]).providers);
        assert(was.providers[i as int].discovery_resumes(
            w,
            rep,
            now,
            self@.providers[i as int],
            step@,
        ));
        self.settle(route, step, now)
    }

    /// Goes on with the reply to a fetch of a key set.
    pub fn on_jwks(&mut self, route: Route, wait: RefreshWait, reply: JwksReply, now: u64) -> (r:
        Resolution)
        requires
            old(self)@.wf(),
            countable(now),
            reply@.wf(),
            route.provider < old(self)@.providers.len(),
            old(self)@.providers[route.provider as int].has_jwt_path(),
        ensures
            old(self)@.jwks_resumes(route@, wait@, reply@, now, final(self)@, r@),
            final(self)@.wf(),
            final(self)@.same_setup(old(self)@),
            r@.resumable(final(self)@),
    {
        let ghost was = self@;
        let i: usize = route.provider;
        assert(was.providers[i as int].wf());
        let ghost w = wait@;
        let ghost rep = reply@;
        let step = self.providers[i].on_jwks(wait, reply, now);
        assert(self@.providers =~= was.with(i as nat, self@.providers[i as int]).providers);
        assert(was.providers[i as int].jwks_resumes(
            w,
            rep,
            now,
            self@.providers[i as int],
            step@,
        ));
        self.settle(route, step, now)
    }

    /// Goes on with the reply to an introspection.
    pub fn on_introspection(&mut self, route: Route, reply: IntrospectionReply, now: u64) -> (r:
        Resolution)
        requires
            old(self)@.wf(),
            countable(now),
            reply@.wf(),
            route.provider < old(self)@.providers.len(),
        ensures
            old(self)@.introspection_resumes(route@, reply@, now, final(self)@, r@),
            final(self)@.wf(),
            final(self)@.same_setup(old(self)@),
            r@.resumable(final(self)@),
    {
        let verdict = self.providers[route.provider].on_introspection(reply);
        self.settle(route, ProviderStep::Done(verdict), now)
    }
}

/// A new resolver is in order exactly where verification is defined for the
/// leeway of every provider.
proof fn lemma_new_resolver(c: ConfigView)
    ensures
        new_resolver(c).wf() == leeways_defined(c.providers),
{
    let m = new_resolver(c);
    assert forall|i: int| 0 <= i < c.providers.len() implies #[trigger] m.providers[i].wf()
        == leeway_defined(c.providers[i]) by {}
    if m.wf() {
        assert forall|i: int| 0 <= i < c.providers.len() implies leeway_defined(
            #[trigger] c.providers[i],
        ) by {
            assert(m.providers[i].wf());
        }
    }
}

/// An issuer is found at a provider that has it.
pub proof fn lemma_issuer_index(providers: Seq<ProviderModel>, issuer: Seq<char>, from: nat)
    ensures
        issuer_index(providers, issuer, from) matches Some(i) ==> from <= i < providers.len()
            && providers[i as int].config.issuer == issuer,
    decreases providers.len() - from,
{
    if from < providers.len() && providers[from as int].config.issuer != issuer {
        lemma_issuer_index(providers, issuer, from + 1);
    }
}

} // verus!
