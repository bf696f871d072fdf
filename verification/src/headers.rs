//! Request headers, as far as a bearer token is read from them.

use vstd::prelude::*;
use crate::config::{TokenSourceConfig, TokenSourceView};
use crate::text::{lower, strip_prefix};

verus! {

/// `http::HeaderMap`, carried through as it is.
#[verifier::external_type_specification]
#[verifier::external_body]
#[verifier::reject_recursive_types(T)]
pub struct ExHeaderMap<T>(http::HeaderMap<T>);

/// `http::HeaderValue`, carried through as it is.
#[verifier::external_type_specification]
#[verifier::external_body]
pub struct ExHeaderValue(http::HeaderValue);

/// The bytes of a header value.
pub uninterp spec fn header_bytes(value: http::HeaderValue) -> Seq<u8>;

/// What a header map holds: under each name, in small letters, the bytes of
/// the first value.
pub uninterp spec fn header_fields(headers: http::HeaderMap) -> Map<Seq<char>, Seq<u8>>;

/// `http::HeaderMap::get` by a name: the first value under that name, in
/// whatever case it is written. A text that is no header name is found in no
/// map.
#[verifier::external_body]
fn header_value<'a>(headers: &'a http::HeaderMap, name: &str) -> (r: Option<&'a http::HeaderValue>)
    ensures
        match r {
            Some(value) => header_fields(*headers).contains_key(lower(name@)) && header_fields(
                *headers,
            )[lower(name@)] == header_bytes(*value),
            None => !header_fields(*headers).contains_key(lower(name@)),
        },
{
    headers.get(name)
}

/// A visible ASCII character, a space or a tab.
pub open spec fn visible(b: u8) -> bool {
    32 <= b < 127 || b == 9
}

/// The text that bytes write, if all of them are visible ASCII characters,
/// spaces or tabs.
pub open spec fn visible_text(bytes: Seq<u8>) -> Option<Seq<char>> {
    if forall|i: int| 0 <= i < bytes.len() ==> visible(#[trigger] bytes[i]) {
        Some(bytes.map_values(|b: u8| b as char))
    } else {
        None
    }
}

/// `http::HeaderValue::to_str`: the text of a value of visible ASCII
/// characters, spaces and tabs, and nothing for any other value.
#[verifier::external_body]
fn header_text<'a>(value: &'a http::HeaderValue) -> (r: Option<&'a str>)
    ensures
        r.deep_view() == visible_text(header_bytes(*value)),
{
    value.to_str().ok()
}

/// The text under a name in a header map.
pub open spec fn field_text(fields: Map<Seq<char>, Seq<u8>>, name: Seq<char>) -> Option<Seq<char>> {
    if fields.contains_key(lower(name)) {
        visible_text(fields[lower(name)])
    } else {
        None
    }
}

/// What follows the source's prefix in the text of its header.
pub open spec fn token_in(source: TokenSourceView, text: Option<Seq<char>>) -> Option<Seq<char>> {
    let prefix = source.effective_header_prefix();
    match text {
        Some(t) if prefix.is_prefix_of(t) => Some(t.skip(prefix.len() as int)),
        _ => None,
    }
}

/// The token that headers carry, as the source says.
pub open spec fn carried_token(source: TokenSourceView, headers: http::HeaderMap) -> Option<
    Seq<char>,
> {
    token_in(source, field_text(header_fields(headers), source.effective_header_name()))
}

/// Takes the token out of the text of the source's header.
pub fn token_from_text<'a>(source: &TokenSourceConfig, text: &'a str) -> (r: Option<&'a str>)
    ensures
        r.deep_view() == token_in(source@, Some(text@)),
{
    strip_prefix(text, source.effective_header_prefix())
}

/// Takes the token out of request headers.
pub fn token_from_headers<'a>(source: &TokenSourceConfig, headers: &'a http::HeaderMap) -> (r:
    Option<&'a str>)
    ensures
        r.deep_view() == carried_token(source@, *headers),
{
    match header_value(headers, source.effective_header_name()) {
        Some(value) => match header_text(value) {
            Some(text) => token_from_text(source, text),
            None => None,
        },
        None => None,
    }
}

/// The token is what follows the prefix: the configured one, or else `Bearer`
/// and a space in the `Authorization` header and nothing in a custom one. A
/// text that does not begin with it carries no token.
pub proof fn tokens_follow_their_prefix(
    source: TokenSourceView,
    text: Seq<char>,
    token: Seq<char>,
)
    ensures
        token_in(source, Some(text)) == Some(token) <==> text == (match source.header_prefix {
            Some(prefix) => prefix,
            None => if source.kind is AuthorizationBearer {
                "Bearer "@
            } else {
                Seq::empty()
            },
        }) + token,
        token_in(source, None) is None,
{
    reveal_strlit("");
    assert(""@ =~= Seq::empty());
    let prefix = source.effective_header_prefix();
    if prefix.is_prefix_of(text) {
        assert(text =~= prefix + text.skip(prefix.len() as int));
    }
    if text == prefix + token {
        assert(text.subrange(0, prefix.len() as int) =~= prefix);
        assert(text.skip(prefix.len() as int) =~= token);
    }
}

/// A token is read in the `Authorization` header, or where a custom source
/// names a header in that one; the case in which the name is written makes no
/// difference. Where there is no such header, or its value is no visible
/// text, there is none.
pub proof fn tokens_are_read_in_their_header(source: TokenSourceView, headers: http::HeaderMap)
    ensures
        ({
            let name = match source.header_name {
                Some(own) if source.kind is CustomHeader => lower(own),
                _ => "authorization"@,
            };
            let fields = header_fields(headers);
            carried_token(source, headers) == token_in(
                source,
                if fields.contains_key(name) {
                    visible_text(fields[name])
                } else {
                    None
                },
            )
        }),
{
    reveal_strlit("authorization");
    assert(lower("authorization"@) =~= "authorization"@);
}

/// The text of a value is its bytes, one character for each, where all of them
/// are visible ASCII characters, spaces or tabs.
pub proof fn visible_texts_are_their_bytes(bytes: Seq<u8>)
    ensures
        visible_text(bytes) is Some <==> forall|i: int|
            0 <= i < bytes.len() ==> 32 <= #[trigger] bytes[i] <= 126 || bytes[i] == 9,
        visible_text(bytes) matches Some(text) ==> text.len() == bytes.len() && forall|i: int|
            0 <= i < bytes.len() ==> (#[trigger] text[i]) as int == bytes[i] as int,
{
    if visible_text(bytes) is Some {
        assert forall|i: int| 0 <= i < bytes.len() implies 32 <= #[trigger] bytes[i] <= 126
            || bytes[i] == 9 by {
            assert(visible(bytes[i]));
        }
    }
    if forall|i: int| 0 <= i < bytes.len() ==> 32 <= #[trigger] bytes[i] <= 126 || bytes[i] == 9 {
        assert forall|i: int| 0 <= i < bytes.len() implies visible(#[trigger] bytes[i]) by {}
    }
}

} // verus!
