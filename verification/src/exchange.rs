//! What verification asks of the outside world, and what comes back.
//!
//! The library performs no I/O. Where it needs a document, keys or an
//! introspection, it hands out a step; the caller performs it and hands the
//! reply back.

use vstd::prelude::*;
use crate::algorithm::Algorithm;
use crate::identity::{OidcVerificationResult, Verdict};

verus! {

// ---------------------------------------------------------------------------
// Steps
// ---------------------------------------------------------------------------

/// What a key refresh is for.
#[derive(Debug)]
pub enum Purpose {
    /// To have keys at all before a token is looked at.
    Freshness,
    /// To find a key id that the cached keys lack, for a token under this
    /// algorithm.
    UnknownKid { kid: String, alg: Algorithm },
}

/// What a [`Purpose`] says.
#[verifier::ext_equal]
pub enum PurposeView {
    Freshness,
    UnknownKid { kid: Seq<char>, alg: Algorithm },
}

impl View for Purpose {
    type V = PurposeView;

    open spec fn view(&self) -> PurposeView {
        match *self {
            Purpose::Freshness => PurposeView::Freshness,
            Purpose::UnknownKid { kid, alg } => PurposeView::UnknownKid { kid: kid@, alg },
        }
    }
}

/// A key refresh that waits for a fetch.
#[derive(Debug)]
pub struct RefreshWait {
    pub token: String,
    pub purpose: Purpose,
    /// Whether cached keys may still stand in if the fetch fails.
    pub stale_ok: bool,
    /// What is to be fetched.
    pub uri: String,
}

/// What a [`RefreshWait`] says.
#[verifier::ext_equal]
pub struct WaitView {
    pub token: Seq<char>,
    pub purpose: PurposeView,
    pub stale_ok: bool,
    pub uri: Seq<char>,
}

impl View for RefreshWait {
    type V = WaitView;

    open spec fn view(&self) -> WaitView {
        WaitView {
            token: self.token@,
            purpose: self.purpose@,
            stale_ok: self.stale_ok,
            uri: self.uri@,
        }
    }
}

/// A token introspection (RFC 7662): a POST of the form field `token`, with
/// basic authentication.
#[derive(Debug)]
pub struct IntrospectionRequest {
    pub url: String,
    pub client_id: String,
    pub client_secret: String,
    pub token: String,
    pub timeout_ms: u64,
}

/// What an [`IntrospectionRequest`] says.
#[verifier::ext_equal]
pub struct IntrospectionView {
    pub url: Seq<char>,
    pub client_id: Seq<char>,
    pub client_secret: Seq<char>,
    pub token: Seq<char>,
    pub timeout_ms: u64,
}

impl View for IntrospectionRequest {
    type V = IntrospectionView;

    open spec fn view(&self) -> IntrospectionView {
        IntrospectionView {
            url: self.url@,
            client_id: self.client_id@,
            client_secret: self.client_secret@,
            token: self.token@,
            timeout_ms: self.timeout_ms,
        }
    }
}

/// The next step of a verification.
#[derive(Debug)]
pub enum ProviderStep {
    /// The verdict is there.
    Done(OidcVerificationResult),
    /// GET the discovery document at `wait.uri`. With `check_remote_addr`, a
    /// response from a private address is to be reported as blocked.
    FetchDiscovery { wait: RefreshWait, timeout_ms: u64, check_remote_addr: bool },
    /// GET the key set at `wait.uri`.
    FetchJwks { wait: RefreshWait, timeout_ms: u64 },
    /// Introspect the token.
    Introspect(IntrospectionRequest),
}

/// What a [`ProviderStep`] says.
#[verifier::ext_equal]
pub enum StepView {
    Done(Verdict),
    FetchDiscovery { wait: WaitView, timeout_ms: u64, check_remote_addr: bool },
    FetchJwks { wait: WaitView, timeout_ms: u64 },
    Introspect(IntrospectionView),
}

impl StepView {
    /// Whether the step asks for a document or for keys.
    pub open spec fn fetches(self) -> bool {
        self is FetchDiscovery || self is FetchJwks
    }
}

impl View for ProviderStep {
    type V = StepView;

    open spec fn view(&self) -> StepView {
        match *self {
            ProviderStep::Done(result) => StepView::Done(result@),
            ProviderStep::FetchDiscovery { wait, timeout_ms, check_remote_addr } => {
                StepView::FetchDiscovery { wait: wait@, timeout_ms, check_remote_addr }
            },
            ProviderStep::FetchJwks { wait, timeout_ms } => {
                StepView::FetchJwks { wait: wait@, timeout_ms }
            },
            ProviderStep::Introspect(request) => StepView::Introspect(request@),
        }
    }
}

// ---------------------------------------------------------------------------
// Replies
// ---------------------------------------------------------------------------

/// The fields of an OIDC discovery document that verification needs.
#[derive(Debug)]
pub struct DiscoveryDocument {
    pub issuer: String,
    pub jwks_uri: String,
}

/// What a [`DiscoveryDocument`] says.
#[verifier::ext_equal]
pub struct DocumentView {
    pub issuer: Seq<char>,
    pub jwks_uri: Seq<char>,
}

impl View for DiscoveryDocument {
    type V = DocumentView;

    open spec fn view(&self) -> DocumentView {
        DocumentView { issuer: self.issuer@, jwks_uri: self.jwks_uri@ }
    }
}

/// What a fetch of a discovery document came to.
#[derive(Debug)]
pub enum DiscoveryReply {
    /// There was no response.
    SendFailed,
    /// The response came from an address that is refused, and why.
    RemoteAddrBlocked(String),
    /// A response; its document, unless it could not be read as one.
    Responded { status: u16, document: Option<DiscoveryDocument> },
}

/// What a [`DiscoveryReply`] says.
#[verifier::ext_equal]
pub enum DiscoveryReplyView {
    SendFailed,
    RemoteAddrBlocked(Seq<char>),
    Responded { status: u16, document: Option<DocumentView> },
}

impl View for DiscoveryReply {
    type V = DiscoveryReplyView;

    open spec fn view(&self) -> DiscoveryReplyView {
        match *self {
            DiscoveryReply::SendFailed => DiscoveryReplyView::SendFailed,
            DiscoveryReply::RemoteAddrBlocked(why) => {
                DiscoveryReplyView::RemoteAddrBlocked(why@)
            },
            DiscoveryReply::Responded { status, document } => DiscoveryReplyView::Responded {
                status,
                document: match document {
                    Some(d) => Some(d@),
                    None => None,
                },
            },
        }
    }
}

/// What a fetch of a key set came to.
#[derive(Debug)]
pub enum JwksReply {
    /// There was no response, and why.
    SendFailed(String),
    /// A response; its body, unless it could not be read.
    Responded { status: u16, body: Option<String> },
}

/// What a [`JwksReply`] says.
#[verifier::ext_equal]
pub enum JwksReplyView {
    SendFailed(Seq<char>),
    Responded { status: u16, body: Option<Seq<char>> },
}

impl View for JwksReply {
    type V = JwksReplyView;

    open spec fn view(&self) -> JwksReplyView {
        match *self {
            JwksReply::SendFailed(why) => JwksReplyView::SendFailed(why@),
            JwksReply::Responded { status, body } => {
                JwksReplyView::Responded { status, body: body.deep_view() }
            },
        }
    }
}

/// What an introspection came to.
#[derive(Debug)]
pub enum IntrospectionReply {
    /// There was no response, and why.
    SendFailed(String),
    /// A response; the bytes of its body, or why they could not be read.
    Responded { status: u16, body: Result<Vec<u8>, String> },
}

/// What an [`IntrospectionReply`] says.
#[verifier::ext_equal]
pub enum IntrospectionReplyView {
    SendFailed(Seq<char>),
    Responded { status: u16, body: Result<Seq<u8>, Seq<char>> },
}

impl View for IntrospectionReply {
    type V = IntrospectionReplyView;

    open spec fn view(&self) -> IntrospectionReplyView {
        match *self {
            IntrospectionReply::SendFailed(why) => IntrospectionReplyView::SendFailed(why@),
            IntrospectionReply::Responded { status, body } => IntrospectionReplyView::Responded {
                status,
                body: match body {
                    Ok(bytes) => Ok(bytes@),
                    Err(why) => Err(why@),
                },
            },
        }
    }
}

// ---------------------------------------------------------------------------
// HTTP status codes
// ---------------------------------------------------------------------------

/// HTTP status codes have three digits.
pub open spec fn status_code(status: u16) -> bool {
    100 <= status <= 999
}

/// The codes of success.
pub open spec fn success(status: u16) -> bool {
    200 <= status <= 299
}

/// Whether a code is one of success.
pub fn is_success(status: u16) -> (r: bool)
    ensures
        r == success(status),
{
    200 <= status && status <= 299
}

impl DiscoveryReplyView {
    /// A response has a status code.
    pub open spec fn wf(self) -> bool {
        self matches DiscoveryReplyView::Responded { status, .. } ==> status_code(status)
    }
}

impl JwksReplyView {
    /// A response has a status code.
    pub open spec fn wf(self) -> bool {
        self matches JwksReplyView::Responded { status, .. } ==> status_code(status)
    }
}

impl IntrospectionReplyView {
    /// A response has a status code.
    pub open spec fn wf(self) -> bool {
        self matches IntrospectionReplyView::Responded { status, .. } ==> status_code(status)
    }
}

/// How `http::StatusCode` writes a code: its number and its reason phrase.
pub uninterp spec fn status_text(status: u16) -> Seq<char>;

/// `to_string` of the `http::StatusCode` that `from_u16` makes of a code, as
/// it does of every code of three digits. The result is named.
#[verifier::external_body]
pub(crate) fn write_status(status: u16) -> (r: String)
    requires
        status_code(status),
    ensures
        r@ == status_text(status),
{
    http::StatusCode::from_u16(status).map(|s| s.to_string()).unwrap_or_default()
}

// ---------------------------------------------------------------------------
// Notices
// ---------------------------------------------------------------------------

/// Something that happened on the way and is worth counting.
#[derive(Debug)]
pub enum Notice {
    /// An open circuit kept a refresh from being tried.
    ShortCircuited,
    /// Stale keys were served, and why.
    StaleServed { reason: String },
}

/// What a [`Notice`] says.
#[verifier::ext_equal]
pub enum NoticeView {
    ShortCircuited,
    StaleServed { reason: Seq<char> },
}

impl View for Notice {
    type V = NoticeView;

    open spec fn view(&self) -> NoticeView {
        match *self {
            Notice::ShortCircuited => NoticeView::ShortCircuited,
            Notice::StaleServed { reason } => NoticeView::StaleServed { reason: reason@ },
        }
    }
}

/// What a list of notices says.
pub open spec fn notice_views(notices: Seq<Notice>) -> Seq<NoticeView> {
    notices.map_values(|n: Notice| n@)
}

/// Success is the codes from 200 to 299.
pub proof fn success_begins_with_a_two(status: u16)
    ensures
        success(status) <==> status / 100 == 2,
        status_code(status) <==> status >= 100 && status < 1000,
{
}

/// Steps are seen as they are.
pub proof fn steps_are_seen_as_they_are(
    step: ProviderStep,
    wait: RefreshWait,
    request: IntrospectionRequest,
)
    ensures
        wait@.token == wait.token@,
        wait@.uri == wait.uri@,
        wait@.stale_ok == wait.stale_ok,
        wait.purpose is Freshness ==> wait@.purpose is Freshness,
        wait.purpose matches Purpose::UnknownKid { kid, alg } ==> wait@.purpose == (
        PurposeView::UnknownKid { kid: kid@, alg }),
        request@.url == request.url@,
        request@.client_id == request.client_id@,
        request@.client_secret == request.client_secret@,
        request@.token == request.token@,
        request@.timeout_ms == request.timeout_ms,
        step matches ProviderStep::Done(result) ==> step@ == StepView::Done(result@),
        step matches ProviderStep::Introspect(asked) ==> step@ == StepView::Introspect(asked@),
        step matches ProviderStep::FetchJwks { wait: w, timeout_ms } ==> step@ == (
        StepView::FetchJwks { wait: w@, timeout_ms }),
        step matches ProviderStep::FetchDiscovery { wait: w, timeout_ms, check_remote_addr }
            ==> step@ == (StepView::FetchDiscovery { wait: w@, timeout_ms, check_remote_addr }),
{
}

/// Replies are seen as they are.
pub proof fn replies_are_seen_as_they_are(
    discovery: DiscoveryReply,
    jwks: JwksReply,
    introspection: IntrospectionReply,
)
    ensures
        discovery is SendFailed ==> discovery@ is SendFailed,
        discovery matches DiscoveryReply::RemoteAddrBlocked(why) ==> discovery@
            == DiscoveryReplyView::RemoteAddrBlocked(why@),
        discovery matches DiscoveryReply::Responded { status, document } ==> (discovery@
            matches DiscoveryReplyView::Responded { status: seen, document: read } && seen == status
            && (match (document, read) {
            (Some(d), Some(r)) => r.issuer == d.issuer@ && r.jwks_uri == d.jwks_uri@,
            (None, None) => true,
            _ => false,
        })),
        jwks matches JwksReply::SendFailed(why) ==> jwks@ == JwksReplyView::SendFailed(why@),
        jwks matches JwksReply::Responded { status, body } ==> jwks@ == (
        JwksReplyView::Responded { status, body: body.deep_view() }),
        introspection matches IntrospectionReply::SendFailed(why) ==> introspection@
            == IntrospectionReplyView::SendFailed(why@),
        introspection matches IntrospectionReply::Responded { status, body: Ok(bytes) }
            ==> introspection@ == (IntrospectionReplyView::Responded { status, body: Ok(bytes@) }),
        introspection matches IntrospectionReply::Responded { status, body: Err(why) }
            ==> introspection@ == (IntrospectionReplyView::Responded { status, body: Err(why@) }),
{
}

} // verus!
