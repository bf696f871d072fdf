//! The guard over OIDC URLs: which addresses discovery documents and keys may
//! be fetched from.

use vstd::prelude::*;
use crate::text::{lower, lower_chars, same_text};

verus! {

// ---------------------------------------------------------------------------
// Addresses
// ---------------------------------------------------------------------------

/// An IP address: four octets, or eight segments of two octets.
#[derive(Debug, Clone, Copy)]
pub enum IpAddress {
    V4([u8; 4]),
    V6([u16; 8]),
}

/// The octets or segments of an address.
#[verifier::ext_equal]
pub enum AddressView {
    V4(Seq<u8>),
    V6(Seq<u16>),
}

impl View for IpAddress {
    type V = AddressView;

    open spec fn view(&self) -> AddressView {
        match *self {
            IpAddress::V4(o) => AddressView::V4(o@),
            IpAddress::V6(s) => AddressView::V6(s@),
        }
    }
}

/// 127.0.0.0/8.
pub open spec fn loopback_v4(o: Seq<u8>) -> bool {
    o[0] == 127
}

/// 10.0.0.0/8, 172.16.0.0/12 and 192.168.0.0/16.
pub open spec fn private_v4(o: Seq<u8>) -> bool {
    ||| o[0] == 10
    ||| o[0] == 172 && 16 <= o[1] <= 31
    ||| o[0] == 192 && o[1] == 168
}

/// 169.254.0.0/16.
pub open spec fn link_local_v4(o: Seq<u8>) -> bool {
    o[0] == 169 && o[1] == 254
}

/// 224.0.0.0/4.
pub open spec fn multicast_v4(o: Seq<u8>) -> bool {
    224 <= o[0] <= 239
}

/// 100.64.0.0/10, shared by carriers.
pub open spec fn cgnat(o: Seq<u8>) -> bool {
    o[0] == 100 && 64 <= o[1] <= 127
}

/// 0.0.0.0/8 and 240.0.0.0/4; the unspecified and the broadcast address are
/// among them.
pub open spec fn reserved_v4(o: Seq<u8>) -> bool {
    o[0] == 0 || o[0] >= 240
}

/// `::1`.
pub open spec fn loopback_v6(s: Seq<u16>) -> bool {
    s == seq![0u16, 0, 0, 0, 0, 0, 0, 1]
}

/// `::`.
pub open spec fn unspecified_v6(s: Seq<u16>) -> bool {
    s == seq![0u16, 0, 0, 0, 0, 0, 0, 0]
}

/// ff00::/8.
pub open spec fn multicast_v6(s: Seq<u16>) -> bool {
    s[0] >= 0xff00
}

/// fc00::/7.
pub open spec fn unique_local_v6(s: Seq<u16>) -> bool {
    0xfc00 <= s[0] <= 0xfdff
}

/// fe80::/10.
pub open spec fn link_local_v6(s: Seq<u16>) -> bool {
    0xfe80 <= s[0] <= 0xfebf
}

/// An address that is not on the public internet.
pub open spec fn private_address(a: AddressView) -> bool {
    match a {
        AddressView::V4(o) => {
            ||| loopback_v4(o)
            ||| private_v4(o)
            ||| link_local_v4(o)
            ||| multicast_v4(o)
            ||| cgnat(o)
            ||| reserved_v4(o)
        },
        AddressView::V6(s) => {
            ||| loopback_v6(s)
            ||| unspecified_v6(s)
            ||| multicast_v6(s)
            ||| unique_local_v6(s)
            ||| link_local_v6(s)
        },
    }
}

/// Whether the address is not on the public internet.
pub fn is_private_address(addr: &IpAddress) -> (r: bool)
    ensures
        r == private_address(addr@),
{
    match addr {
        IpAddress::V4(o) => {
            o[0] == 127 || is_private_v4(o) || (o[0] == 169 && o[1] == 254) || (o[0] >= 224 && o[0]
                <= 239) || is_cgnat(o) || is_reserved_v4(o)
        },
        IpAddress::V6(s) => {
            is_tiny_v6(s) || s[0] >= 0xff00 || is_unique_local_v6(s) || is_link_local_v6(s)
        },
    }
}

fn is_private_v4(o: &[u8; 4]) -> (r: bool)
    ensures
        r == private_v4(o@),
{
    o[0] == 10 || (o[0] == 172 && o[1] >= 16 && o[1] <= 31) || (o[0] == 192 && o[1] == 168)
}

/// 100.64.0.0/10.
pub fn is_cgnat(o: &[u8; 4]) -> (r: bool)
    ensures
        r == cgnat(o@),
{
    let second = o[1];
    assert((second & 0xc0) == 64 <==> 64 <= second <= 127) by (bit_vector);
    o[0] == 100 && (second & 0xc0) == 64
}

/// 0.0.0.0/8 and 240.0.0.0/4.
pub fn is_reserved_v4(o: &[u8; 4]) -> (r: bool)
    ensures
        r == reserved_v4(o@),
{
    o[0] == 0 || o[0] >= 240
}

/// `::` and `::1`.
fn is_tiny_v6(s: &[u16; 8]) -> (r: bool)
    ensures
        r == (loopback_v6(s@) || unspecified_v6(s@)),
{
    let r = s[0] == 0 && s[1] == 0 && s[2] == 0 && s[3] == 0 && s[4] == 0 && s[5] == 0 && s[6] == 0
        && s[7] <= 1;
    proof {
        if r {
            assert(s@ =~= seq![0u16, 0, 0, 0, 0, 0, 0, s@[7]]);
        }
    }
    r
}

/// fc00::/7.
pub fn is_unique_local_v6(s: &[u16; 8]) -> (r: bool)
    ensures
        r == unique_local_v6(s@),
{
    let first = s[0];
    assert((first & 0xfe00) == 0xfc00 <==> 0xfc00 <= first <= 0xfdff) by (bit_vector);
    (first & 0xfe00) == 0xfc00
}

/// fe80::/10.
pub fn is_link_local_v6(s: &[u16; 8]) -> (r: bool)
    ensures
        r == link_local_v6(s@),
{
    let first = s[0];
    assert((first & 0xffc0) == 0xfe80 <==> 0xfe80 <= first <= 0xfebf) by (bit_vector);
    (first & 0xffc0) == 0xfe80
}

// ---------------------------------------------------------------------------
// URLs
// ---------------------------------------------------------------------------

/// The host of a URL.
#[derive(Debug, Clone, Copy)]
pub enum UrlHost {
    Domain,
    Address(IpAddress),
}

/// What the guard reads of a URL.
#[derive(Debug)]
pub struct ParsedUrl {
    pub scheme: String,
    pub host: Option<UrlHost>,
    /// The host as it is written in the normalised URL.
    pub host_text: Option<String>,
}

/// What a [`UrlHost`] says.
#[verifier::ext_equal]
pub enum HostView {
    Domain,
    Address(AddressView),
}

impl View for UrlHost {
    type V = HostView;

    open spec fn view(&self) -> HostView {
        match *self {
            UrlHost::Domain => HostView::Domain,
            UrlHost::Address(a) => HostView::Address(a@),
        }
    }
}

/// What a [`ParsedUrl`] says.
#[verifier::ext_equal]
pub struct UrlView {
    pub scheme: Seq<char>,
    pub host: Option<HostView>,
    pub host_text: Option<Seq<char>>,
}

impl View for ParsedUrl {
    type V = UrlView;

    open spec fn view(&self) -> UrlView {
        UrlView {
            scheme: self.scheme@,
            host: match self.host {
                Some(h) => Some(h@),
                None => None,
            },
            host_text: self.host_text.deep_view(),
        }
    }
}

/// What `url::Url::parse` makes of a text: the parts of the URL that it
/// writes, or the text of the error.
pub uninterp spec fn url_parts(text: Seq<char>) -> Result<UrlView, Seq<char>>;

/// What a parse of a URL came to.
pub open spec fn url_outcome(r: Result<ParsedUrl, String>) -> Result<UrlView, Seq<char>> {
    match r {
        Ok(u) => Ok(u@),
        Err(e) => Err(e@),
    }
}

/// `url::Url::parse`, and of the URL its `scheme`, `host` and `host_str`. The
/// result is named; that the same text gives the same parts is all that is
/// claimed of it.
#[verifier::external_body]
fn parse_url(text: &str) -> (r: Result<ParsedUrl, String>)
    ensures
        url_outcome(r) == url_parts(text@),
{
    let url = url::Url::parse(text).map_err(|e| e.to_string())?;
    let host = url.host().map(|h| match h {
        url::Host::Domain(_) => UrlHost::Domain,
        url::Host::Ipv4(a) => UrlHost::Address(IpAddress::V4(a.octets())),
        url::Host::Ipv6(a) => UrlHost::Address(IpAddress::V6(a.segments())),
    });
    let host_text = url.host_str().map(|h| h.to_owned());
    Ok(ParsedUrl { scheme: url.scheme().to_owned(), host, host_text })
}

/// The IPv4 address that `str::parse` reads in a text.
pub uninterp spec fn ipv4_literal(text: Seq<char>) -> Option<Seq<u8>>;

/// The IPv6 address that `str::parse` reads in a text.
pub uninterp spec fn ipv6_literal(text: Seq<char>) -> Option<Seq<u16>>;

/// `str::parse` into an IPv4 address, which is handed over as its octets. The
/// result is named.
#[verifier::external_body]
fn parse_ipv4(text: &str) -> (r: Option<[u8; 4]>)
    ensures
        ipv4_literal(text@) == (match r {
            Some(o) => Some(o@),
            None => None,
        }),
{
    match text.parse().map(|a| url::Host::<String>::Ipv4(a)) {
        Ok(url::Host::Ipv4(a)) => Some(a.octets()),
        _ => None,
    }
}

/// `str::parse` into an IPv6 address, which is handed over as its segments.
/// The result is named.
#[verifier::external_body]
fn parse_ipv6(text: &str) -> (r: Option<[u16; 8]>)
    ensures
        ipv6_literal(text@) == (match r {
            Some(s) => Some(s@),
            None => None,
        }),
{
    match text.parse().map(|a| url::Host::<String>::Ipv6(a)) {
        Ok(url::Host::Ipv6(a)) => Some(a.segments()),
        _ => None,
    }
}

/// The address that a text writes, of either kind.
pub open spec fn literal_address(text: Seq<char>) -> Option<AddressView> {
    match ipv4_literal(text) {
        Some(o) => Some(AddressView::V4(o)),
        None => match ipv6_literal(text) {
            Some(s) => Some(AddressView::V6(s)),
            None => None,
        },
    }
}

/// What an optional address says.
pub open spec fn address_view(a: Option<IpAddress>) -> Option<AddressView> {
    match a {
        Some(a) => Some(a@),
        None => None,
    }
}

fn parse_address(text: &str) -> (r: Option<IpAddress>)
    ensures
        address_view(r) == literal_address(text@),
{
    match parse_ipv4(text) {
        Some(o) => Some(IpAddress::V4(o)),
        None => match parse_ipv6(text) {
            Some(s) => Some(IpAddress::V6(s)),
            None => None,
        },
    }
}

/// Why a URL is refused.
#[derive(Debug)]
pub enum UrlGuardError {
    /// The text is no URL; the parser's message is beside it.
    InvalidUrl { url: String, cause: String },
    NoHost { url: String },
    NotHttps { url: String },
    HostNotAllowed { host: String },
    PrivateAddress { url: String },
}

/// What a [`UrlGuardError`] says.
#[verifier::ext_equal]
pub enum UrlFault {
    InvalidUrl { url: Seq<char>, cause: Seq<char> },
    NoHost { url: Seq<char> },
    NotHttps { url: Seq<char> },
    HostNotAllowed { host: Seq<char> },
    PrivateAddress { url: Seq<char> },
}

impl View for UrlGuardError {
    type V = UrlFault;

    open spec fn view(&self) -> UrlFault {
        match *self {
            UrlGuardError::InvalidUrl { url, cause } => UrlFault::InvalidUrl {
                url: url@,
                cause: cause@,
            },
            UrlGuardError::NoHost { url } => UrlFault::NoHost { url: url@ },
            UrlGuardError::NotHttps { url } => UrlFault::NotHttps { url: url@ },
            UrlGuardError::HostNotAllowed { host } => UrlFault::HostNotAllowed { host: host@ },
            UrlGuardError::PrivateAddress { url } => UrlFault::PrivateAddress { url: url@ },
        }
    }
}

impl UrlFault {
    /// The message for the operator.
    pub open spec fn message(self) -> Seq<char> {
        match self {
            UrlFault::InvalidUrl { url, .. } => "invalid OIDC URL '"@ + url + "'"@,
            UrlFault::NoHost { url } => "OIDC URL '"@ + url + "' has no host"@,
            UrlFault::NotHttps { url } => {
                "OIDC URL '"@ + url
                    + "' must use https (set allow_private_issuer only for dev)"@
            },
            UrlFault::HostNotAllowed { host } => {
                "OIDC host '"@ + host + "' is not in allowed_issuer_hosts"@
            },
            UrlFault::PrivateAddress { url } => {
                "OIDC URL '"@ + url
                    + "' resolves to a private/loopback address; set allow_private_issuer=true only for local dev"@
            },
        }
    }
}

impl UrlGuardError {
    /// The message for the operator.
    pub fn to_string(&self) -> (r: String)
        ensures
            r@ == self@.message(),
    {
        match self {
            UrlGuardError::InvalidUrl { url, .. } => {
                let mut r = "invalid OIDC URL '".to_owned();
                r.append(url.as_str());
                r.append("'");
                r
            },
            UrlGuardError::NoHost { url } => {
                let mut r = "OIDC URL '".to_owned();
                r.append(url.as_str());
                r.append("' has no host");
                r
            },
            UrlGuardError::NotHttps { url } => {
                let mut r = "OIDC URL '".to_owned();
                r.append(url.as_str());
                r.append("' must use https (set allow_private_issuer only for dev)");
                r
            },
            UrlGuardError::HostNotAllowed { host } => {
                let mut r = "OIDC host '".to_owned();
                r.append(host.as_str());
                r.append("' is not in allowed_issuer_hosts");
                r
            },
            UrlGuardError::PrivateAddress { url } => {
                let mut r = "OIDC URL '".to_owned();
                r.append(url.as_str());
                r.append(
                    "' resolves to a private/loopback address; set allow_private_issuer=true only for local dev",
                );
                r
            },
        }
    }
}

/// Whether `host` is the listed host or a subdomain of it, in whatever case
/// the two are written.
pub open spec fn host_matches(host: Seq<char>, listed: Seq<char>) -> bool {
    ||| lower(host) == lower(listed)
    ||| ("."@ + lower(listed)).is_suffix_of(lower(host))
}

/// Whether an allowlist lets `host` through; an empty one lets every host
/// through.
pub open spec fn host_allowed(host: Seq<char>, allowed: Seq<Seq<char>>) -> bool {
    allowed.len() == 0 || exists|i: int|
        0 <= i < allowed.len() && host_matches(host, #[trigger] allowed[i])
}

/// The address that a URL leads to, where it is written in the URL; `literal`
/// is the address that the host's text writes.
pub open spec fn url_address(u: UrlView, literal: Option<AddressView>) -> Option<AddressView> {
    match u.host {
        Some(HostView::Address(a)) => Some(a),
        _ => literal,
    }
}

/// Why a URL is refused, if it is: it must have a host, use `https` (or `http`
/// where private addresses are permitted), pass the allowlist, and not lead
/// to a private address.
pub open spec fn parsed_url_fault(
    url: Seq<char>,
    u: UrlView,
    literal: Option<AddressView>,
    allowed_hosts: Seq<Seq<char>>,
    allow_private: bool,
) -> Option<UrlFault> {
    if u.host is None || u.host_text is None {
        Some(UrlFault::NoHost { url })
    } else if u.scheme != "https"@ && !(u.scheme == "http"@ && allow_private) {
        Some(UrlFault::NotHttps { url })
    } else if !host_allowed(u.host_text.unwrap(), allowed_hosts) {
        Some(UrlFault::HostNotAllowed { host: u.host_text.unwrap() })
    } else if !allow_private && (url_address(u, literal) matches Some(a) && private_address(a)) {
        Some(UrlFault::PrivateAddress { url })
    } else {
        None
    }
}

/// Why a URL is refused, if it is.
pub open spec fn url_fault(
    url: Seq<char>,
    allowed_hosts: Seq<Seq<char>>,
    allow_private: bool,
) -> Option<UrlFault> {
    match url_parts(url) {
        Err(cause) => Some(UrlFault::InvalidUrl { url, cause }),
        Ok(u) => parsed_url_fault(
            url,
            u,
            match u.host_text {
                Some(t) => literal_address(t),
                None => None,
            },
            allowed_hosts,
            allow_private,
        ),
    }
}

/// The fault that the guard found.
pub open spec fn url_failure(r: Result<(), UrlGuardError>) -> Option<UrlFault> {
    match r {
        Ok(_) => None,
        Err(e) => Some(e@),
    }
}

/// Whether `host` is the listed host or a subdomain of it.
pub fn host_is_listed(host: &str, listed: &str) -> (r: bool)
    ensures
        r == host_matches(host@, listed@),
{
    proof {
        reveal_strlit(".");
    }
    let h = lower_chars(host);
    let l = lower_chars(listed);
    let ghost dotted = "."@ + lower(listed@);
    let len: usize = h.len();
    if len < l.len() {
        return false;
    }
    let offset: usize = len - l.len();
    let mut i: usize = 0;
    while i < l.len()
        invariant
            h@ == lower(host@),
            l@ == lower(listed@),
            dotted == "."@ + l@,
            "."@.len() == 1,
            len == h@.len(),
            offset == len - l@.len(),
            i <= l@.len(),
            forall|j: int| 0 <= j < i ==> h@[offset + j] == l@[j],
        decreases l@.len() - i,
    {
        if h[offset + i] != l[i] {
            proof {
                if dotted.is_suffix_of(h@) {
                    assert(h@.subrange(h@.len() - dotted.len(), h@.len() as int)[1 + i as int]
                        == dotted[1 + i as int]);
                }
            }
            return false;
        }
        i = i + 1;
    }
    if offset == 0 {
        assert(h@ =~= l@);
        true
    } else {
        let dot = h[offset - 1] == '.';
        proof {
            let tail = h@.subrange(h@.len() - dotted.len(), h@.len() as int);
            assert(tail[0] == h@[offset - 1]);
            assert(dotted[0] == '.');
            if dot {
                assert(tail =~= dotted);
            }
        }
        dot
    }
}

fn is_host_allowed(host: &str, allowed_hosts: &[String]) -> (r: bool)
    ensures
        r == host_allowed(host@, allowed_hosts.deep_view()),
{
    if allowed_hosts.len() == 0 {
        return true;
    }
    let ghost allowed = allowed_hosts.deep_view();
    let mut i: usize = 0;
    while i < allowed_hosts.len()
        invariant
            i <= allowed_hosts@.len(),
            allowed == allowed_hosts.deep_view(),
            forall|j: int| 0 <= j < i ==> !host_matches(host@, #[trigger] allowed[j]),
        decreases allowed_hosts@.len() - i,
    {
        assert(allowed[i as int] == allowed_hosts@[i as int]@);
        if host_is_listed(host, allowed_hosts[i].as_str()) {
            return true;
        }
        i = i + 1;
    }
    false
}

/// The guard on a URL that has been parsed; `literal` is the address that the
/// host's text writes, if it writes one.
pub fn check_parsed_url(
    url: &str,
    parsed: &ParsedUrl,
    literal: Option<IpAddress>,
    allowed_hosts: &[String],
    allow_private: bool,
) -> (r: Result<(), UrlGuardError>)
    ensures
        url_failure(r) == parsed_url_fault(
            url@,
            parsed@,
            address_view(literal),
            allowed_hosts.deep_view(),
            allow_private,
        ),
{
    let host = match &parsed.host {
        Some(h) => h,
        None => return Err(UrlGuardError::NoHost { url: url.to_owned() }),
    };
    let host_text = match &parsed.host_text {
        Some(t) => t.as_str(),
        None => return Err(UrlGuardError::NoHost { url: url.to_owned() }),
    };
    let scheme = parsed.scheme.as_str();
    if !same_text(scheme, "https") && !(same_text(scheme, "http") && allow_private) {
        return Err(UrlGuardError::NotHttps { url: url.to_owned() });
    }
    if !is_host_allowed(host_text, allowed_hosts) {
        return Err(UrlGuardError::HostNotAllowed { host: host_text.to_owned() });
    }
    if allow_private {
        return Ok(());
    }
    let addr = match host {
        UrlHost::Address(a) => Some(*a),
        UrlHost::Domain => literal,
    };
    if let Some(a) = addr {
        if is_private_address(&a) {
            return Err(UrlGuardError::PrivateAddress { url: url.to_owned() });
        }
    }
    Ok(())
}

/// Refuses URLs whose host is written as a private or loopback address unless
/// `allow_private` is set, enforces the optional host allowlist, and requires
/// HTTPS. Names are not resolved here.
pub fn enforce_discovery_url_safety(
    url: &str,
    allowed_hosts: &[String],
    allow_private: bool,
) -> (r: Result<(), UrlGuardError>)
    ensures
        url_failure(r) == url_fault(url@, allowed_hosts.deep_view(), allow_private),
{
    match parse_url(url) {
        Ok(parsed) => {
            let literal = match &parsed.host_text {
                Some(t) => parse_address(t.as_str()),
                None => None,
            };
            check_parsed_url(url, &parsed, literal, allowed_hosts, allow_private)
        },
        Err(cause) => Err(UrlGuardError::InvalidUrl { url: url.to_owned(), cause }),
    }
}

/// Without the dev escape hatch the guard lets through only `https` URLs, and
/// none that writes a private address.
pub proof fn guarded_urls_are_public(url: Seq<char>, allowed_hosts: Seq<Seq<char>>)
    requires
        url_fault(url, allowed_hosts, false) is None,
    ensures
        url_parts(url) matches Ok(u) && u.scheme == "https"@ && u.host_text is Some && (u.host
            matches Some(HostView::Address(a)) ==> !private_address(a)) && (u.host == Some(
            HostView::Domain,
        ) ==> (literal_address(u.host_text.unwrap()) matches Some(a) ==> !private_address(a))),
{
}

/// With an allowlist, escape hatch or not, the guard lets through only URLs
/// whose host is listed or a subdomain of a listed one.
pub proof fn guarded_hosts_are_listed(
    url: Seq<char>,
    allowed_hosts: Seq<Seq<char>>,
    allow_private: bool,
)
    requires
        url_fault(url, allowed_hosts, allow_private) is None,
        allowed_hosts.len() > 0,
    ensures
        url_parts(url) matches Ok(u) && u.host_text is Some && exists|i: int|
            0 <= i < allowed_hosts.len() && host_matches(
                u.host_text.unwrap(),
                #[trigger] allowed_hosts[i],
            ),
{
}

/// The case in which a host or a listed host is written makes no difference.
pub proof fn listing_ignores_case(host: Seq<char>, listed: Seq<char>, other: Seq<char>)
    requires
        lower(host) == lower(other),
    ensures
        host_matches(host, listed) == host_matches(other, listed),
        host_matches(listed, host) == host_matches(listed, other),
{
}

/// Which addresses are not on the public internet, by their numbers.
pub proof fn private_addresses_by_number(o: Seq<u8>, s: Seq<u16>)
    requires
        o.len() == 4,
        s.len() == 8,
    ensures
        private_address(AddressView::V4(o)) <==> ({
            ||| o[0] == 0 || o[0] == 10 || o[0] == 127 || o[0] >= 224
            ||| o[0] == 100 && o[1] / 64 == 1
            ||| o[0] == 169 && o[1] == 254
            ||| o[0] == 172 && o[1] / 16 == 1
            ||| o[0] == 192 && o[1] == 168
        }),
        private_address(AddressView::V6(s)) <==> ({
            ||| s[0] >= 0xff00
            ||| s[0] / 0x200 == 0x7e
            ||| s[0] / 0x40 == 0x3fa
            ||| s[7] <= 1 && forall|i: int| 0 <= i < 7 ==> #[trigger] s[i] == 0
        }),
{
    if s[7] <= 1 && forall|i: int| 0 <= i < 7 ==> #[trigger] s[i] == 0 {
        assert(s =~= seq![0u16, 0, 0, 0, 0, 0, 0, s[7]]);
    }
}

/// Whether a host is a listed one, or is written as something, a dot and a
/// listed one; capitals make no difference.
pub open spec fn listed_or_below(host: Seq<char>, listed: Seq<char>) -> bool {
    lower(host) == lower(listed) || exists|sub: Seq<char>|
        lower(host) == #[trigger] (sub + "."@) + lower(listed)
}

/// A host matches the listed one and its subdomains, and nothing else.
pub proof fn hosts_match_themselves_and_their_subdomains(host: Seq<char>, listed: Seq<char>)
    ensures
        host_matches(host, listed) <==> listed_or_below(host, listed),
{
    let h = lower(host);
    let dotted = "."@ + lower(listed);
    if dotted.is_suffix_of(h) {
        let sub = h.take(h.len() - dotted.len());
        assert(h =~= (sub + "."@) + lower(listed)) by {
            let tail = h.subrange(h.len() - dotted.len(), h.len() as int);
            assert(tail =~= dotted);
            assert(h =~= sub + tail);
            assert(sub + dotted =~= (sub + "."@) + lower(listed));
        }
    }
    if exists|sub: Seq<char>| h == #[trigger] (sub + "."@) + lower(listed) {
        let sub = choose|sub: Seq<char>| h == #[trigger] (sub + "."@) + lower(listed);
        assert(h.subrange(h.len() - dotted.len(), h.len() as int) =~= dotted);
    }
}

/// An allowlist lets a host through that matches an entry at any place of it,
/// and no other; an empty one lets every host through. The order and the
/// repetition of its entries make no difference.
pub proof fn every_entry_of_an_allowlist_counts(
    host: Seq<char>,
    allowed: Seq<Seq<char>>,
    other: Seq<Seq<char>>,
)
    ensures
        host_allowed(host, allowed) <==> allowed.len() == 0 || exists|i: int|
            0 <= i < allowed.len() && listed_or_below(host, #[trigger] allowed[i]),
        (forall|entry: Seq<char>| #[trigger] allowed.contains(entry) == other.contains(entry))
            ==> host_allowed(host, allowed) == host_allowed(host, other),
{
    assert forall|i: int| 0 <= i < allowed.len() implies host_matches(host, #[trigger] allowed[i])
        == listed_or_below(host, allowed[i]) by {
        hosts_match_themselves_and_their_subdomains(host, allowed[i]);
    }
    if exists|i: int| 0 <= i < allowed.len() && listed_or_below(host, #[trigger] allowed[i]) {
        let i = choose|i: int|
            0 <= i < allowed.len() && listed_or_below(host, #[trigger] allowed[i]);
        assert(host_matches(host, allowed[i]));
    }
    if allowed.len() > 0 && host_allowed(host, allowed) {
        let i = choose|i: int| 0 <= i < allowed.len() && host_matches(host, #[trigger] allowed[i]);
        assert(listed_or_below(host, allowed[i]));
    }
    if forall|entry: Seq<char>| #[trigger] allowed.contains(entry) == other.contains(entry) {
        lemma_same_entries(host, allowed, other);
        lemma_same_entries(host, other, allowed);
    }
}

proof fn lemma_same_entries(host: Seq<char>, allowed: Seq<Seq<char>>, other: Seq<Seq<char>>)
    requires
        forall|entry: Seq<char>| #[trigger] allowed.contains(entry) == other.contains(entry),
    ensures
        host_allowed(host, allowed) ==> host_allowed(host, other),
{
    if allowed.len() > 0 && host_allowed(host, allowed) {
        let i = choose|i: int| 0 <= i < allowed.len() && host_matches(host, #[trigger] allowed[i]);
        assert(allowed.contains(allowed[i]));
        let k = choose|k: int| 0 <= k < other.len() && other[k] == allowed[i];
        assert(host_matches(host, other[k]));
    } else if allowed.len() == 0 && other.len() > 0 {
        assert(other.contains(other[0]));
        assert(allowed.contains(other[0]));
    }
}

/// Whether a URL writes a private address: as its host, or in the text of it.
pub open spec fn writes_private_address(u: UrlView) -> bool {
    match (u.host, u.host_text) {
        (Some(HostView::Address(a)), _) => private_address(a),
        (_, Some(text)) => match (ipv4_literal(text), ipv6_literal(text)) {
            (Some(o), _) => private_address(AddressView::V4(o)),
            (None, Some(s)) => private_address(AddressView::V6(s)),
            (None, None) => false,
        },
        _ => false,
    }
}

/// The guard lets a URL through exactly where it parses and has a host, uses
/// `https`, or `http` with the dev escape hatch, has a host that an entry at
/// any place of the allowlist covers, if there is a list, and writes no
/// private address, unless the escape hatch permits it.
pub proof fn the_guard_lets_good_urls_through(
    url: Seq<char>,
    allowed_hosts: Seq<Seq<char>>,
    allow_private: bool,
)
    ensures
        url_fault(url, allowed_hosts, allow_private) is None <==> (url_parts(url) matches Ok(u)
            && u.host is Some && (u.host_text matches Some(text) && (u.scheme == "https"@ || (
        allow_private && u.scheme == "http"@)) && (allowed_hosts.len() == 0 || exists|i: int|
            0 <= i < allowed_hosts.len() && listed_or_below(text, #[trigger] allowed_hosts[i])) && (
        allow_private || !writes_private_address(u)))),
{
    if let Ok(u) = url_parts(url) {
        if let Some(text) = u.host_text {
            every_entry_of_an_allowlist_counts(text, allowed_hosts, allowed_hosts);
        }
    }
}

/// The guard makes no difference between two allowlists with the same
/// entries.
pub proof fn the_order_of_an_allowlist_makes_no_difference(
    url: Seq<char>,
    allowed_hosts: Seq<Seq<char>>,
    other: Seq<Seq<char>>,
    allow_private: bool,
)
    requires
        forall|entry: Seq<char>| #[trigger] allowed_hosts.contains(entry) == other.contains(entry),
    ensures
        url_fault(url, allowed_hosts, allow_private) == url_fault(url, other, allow_private),
{
    if let Ok(u) = url_parts(url) {
        if let Some(text) = u.host_text {
            every_entry_of_an_allowlist_counts(text, allowed_hosts, other);
        }
    }
}

/// A fault names what is at fault: the URL, or the host that is not listed.
pub proof fn faults_name_their_cause(
    url: Seq<char>,
    allowed_hosts: Seq<Seq<char>>,
    allow_private: bool,
)
    ensures
        match url_fault(url, allowed_hosts, allow_private) {
            None => true,
            Some(UrlFault::InvalidUrl { url: told, cause }) => told == url && url_parts(url) == Err::<
                UrlView,
                Seq<char>,
            >(cause),
            Some(UrlFault::NoHost { url: told }) => told == url && (url_parts(url) matches Ok(u) && (
            u.host is None || u.host_text is None)),
            Some(UrlFault::NotHttps { url: told }) => told == url && (url_parts(url) matches Ok(u)
                && u.host is Some && u.scheme != "https"@ && (allow_private ==> u.scheme
                != "http"@)),
            Some(UrlFault::HostNotAllowed { host }) => allowed_hosts.len() > 0 && (url_parts(
                url,
            ) matches Ok(u) && u.host_text == Some(host) && forall|i: int|
                0 <= i < allowed_hosts.len() ==> !listed_or_below(
                    host,
                    #[trigger] allowed_hosts[i],
                )),
            Some(UrlFault::PrivateAddress { url: told }) => told == url && !allow_private && (
            url_parts(url) matches Ok(u) && writes_private_address(u)),
        },
        url_parts(url) is Err ==> url_fault(url, allowed_hosts, allow_private) matches Some(
            UrlFault::InvalidUrl { .. },
        ),
{
    if let Ok(u) = url_parts(url) {
        if let Some(text) = u.host_text {
            every_entry_of_an_allowlist_counts(text, allowed_hosts, allowed_hosts);
            assert forall|i: int|
                0 <= i < allowed_hosts.len() && !host_allowed(
                    text,
                    allowed_hosts,
                ) implies !listed_or_below(text, #[trigger] allowed_hosts[i]) by {
                hosts_match_themselves_and_their_subdomains(text, allowed_hosts[i]);
            }
        }
    }
}

/// Addresses, hosts and parsed URLs are seen as they are.
pub proof fn urls_are_seen_as_they_are(address: IpAddress, host: UrlHost, url: ParsedUrl)
    ensures
        address matches IpAddress::V4(o) ==> address@ == AddressView::V4(o@),
        address matches IpAddress::V6(s) ==> address@ == AddressView::V6(s@),
        host is Domain ==> host@ is Domain,
        host matches UrlHost::Address(a) ==> host@ == HostView::Address(a@),
        url@.scheme == url.scheme@,
        url.host matches Some(h) ==> url@.host == Some(h@),
        url.host is None ==> url@.host is None,
        url@.host_text == url.host_text.deep_view(),
{
}

/// Of several faults of a URL the first is told, in the order host, scheme,
/// allowlist, address: a fault of one means that there is none of those before
/// it.
pub proof fn url_faults_come_in_order(
    url: Seq<char>,
    allowed_hosts: Seq<Seq<char>>,
    allow_private: bool,
)
    ensures
        url_parts(url) matches Ok(u) ==> ({
            let hosted = u.host is Some && u.host_text is Some;
            let secured = hosted && (u.scheme == "https"@ || (allow_private && u.scheme
                == "http"@));
            let listed = secured && (allowed_hosts.len() == 0 || exists|i: int|
                0 <= i < allowed_hosts.len() && listed_or_below(
                    u.host_text.unwrap(),
                    #[trigger] allowed_hosts[i],
                ));
            match url_fault(url, allowed_hosts, allow_private) {
                Some(UrlFault::InvalidUrl { .. }) => false,
                Some(UrlFault::NoHost { .. }) => !hosted,
                Some(UrlFault::NotHttps { .. }) => hosted && !secured,
                Some(UrlFault::HostNotAllowed { .. }) => secured && !listed,
                Some(UrlFault::PrivateAddress { .. }) => listed,
                None => listed,
            }
        }),
{
    if let Ok(u) = url_parts(url) {
        if let Some(text) = u.host_text {
            every_entry_of_an_allowlist_counts(text, allowed_hosts, allowed_hosts);
        }
    }
}

/// The messages for the operator tell the URL or the host, and the setting
/// that would let it through.
pub proof fn messages_tell_the_url(url: Seq<char>)
    ensures
        (UrlFault::HostNotAllowed { host: url }).message() == "OIDC host '"@ + url
            + "' is not in allowed_issuer_hosts"@,
        (UrlFault::PrivateAddress { url }).message() == "OIDC URL '"@ + url
            + "' resolves to a private/loopback address; set allow_private_issuer=true only for local dev"@,
        (UrlFault::NotHttps { url }).message() == "OIDC URL '"@ + url
            + "' must use https (set allow_private_issuer only for dev)"@,
{
}

} // verus!
