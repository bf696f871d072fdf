//! JSON Web Tokens and the keys that verify them.

use vstd::prelude::*;
use jsonwebtoken::jwk::KeyAlgorithm as KeyAlg;
use jsonwebtoken::Algorithm as Alg;
use crate::algorithm::{
    algorithm_name, algorithm_named, key_algorithm_name, keys_sign_under_the_name_they_write,
    map_key_algorithm, names_name_one_algorithm, signing, Algorithm, KeyAlgorithm,
};
use crate::claims::{
    claim_value, json_document, member, parse_json, value_json, ClaimValue, Json,
};
use crate::text::{
    decimal, one_piece, pieces, pieces_of_both_sides, pieces_rejoin, split_at_each,
};

verus! {

// ---------------------------------------------------------------------------
// Headers
// ---------------------------------------------------------------------------

/// What is read of a token's header.
#[derive(Debug)]
pub struct JwtHeader {
    pub alg: Algorithm,
    pub kid: Option<String>,
}

/// What a [`JwtHeader`] says.
#[verifier::ext_equal]
pub struct HeaderView {
    pub alg: Algorithm,
    pub kid: Option<Seq<char>>,
}

impl View for JwtHeader {
    type V = HeaderView;

    open spec fn view(&self) -> HeaderView {
        HeaderView { alg: self.alg, kid: self.kid.deep_view() }
    }
}

/// What `jsonwebtoken::decode_header` makes of a token: the algorithm and the
/// key id that its header names, or the text of the error.
pub uninterp spec fn jwt_header(token: Seq<char>) -> Result<HeaderView, Seq<char>>;

/// What a reading of a header came to.
pub open spec fn header_outcome(r: Result<JwtHeader, String>) -> Result<HeaderView, Seq<char>> {
    match r {
        Ok(h) => Ok(h@),
        Err(e) => Err(e@),
    }
}

/// `jsonwebtoken::decode_header`. The result is named; beside that, a token
/// whose header can be read consists of three pieces with a dot between each
/// two, since a header in base64 holds no dot itself.
#[verifier::external_body]
pub(crate) fn decode_header(token: &str) -> (r: Result<JwtHeader, String>)
    ensures
        header_outcome(r) == jwt_header(token@),
        r is Ok ==> pieces(token@, '.').len() == 3,
{
    let header = jsonwebtoken::decode_header(token).map_err(|e| e.to_string())?;
    let alg = match header.alg {
        Alg::HS256 => Algorithm::HS256, Alg::HS384 => Algorithm::HS384,
        Alg::HS512 => Algorithm::HS512, Alg::RS256 => Algorithm::RS256,
        Alg::RS384 => Algorithm::RS384, Alg::RS512 => Algorithm::RS512,
        Alg::PS256 => Algorithm::PS256, Alg::PS384 => Algorithm::PS384,
        Alg::PS512 => Algorithm::PS512, Alg::ES256 => Algorithm::ES256,
        Alg::ES384 => Algorithm::ES384, Alg::EdDSA => Algorithm::EdDSA,
    };
    Ok(JwtHeader { alg, kid: header.kid })
}

// ---------------------------------------------------------------------------
// Keys
// ---------------------------------------------------------------------------

/// `jsonwebtoken::DecodingKey`, carried through as it is.
#[verifier::external_type_specification]
#[verifier::external_body]
pub struct ExDecodingKey(jsonwebtoken::DecodingKey);

/// `jsonwebtoken::jwk::Jwk`, carried through as it is.
#[verifier::external_type_specification]
#[verifier::external_body]
pub struct ExJwk(jsonwebtoken::jwk::Jwk);

/// The keys that `serde_json::from_str` reads in the text of a
/// `jsonwebtoken::jwk::JwkSet`, in order.
pub uninterp spec fn jwk_set(text: Seq<char>) -> Option<Seq<jsonwebtoken::jwk::Jwk>>;

/// `serde_json::from_str` into a `jsonwebtoken::jwk::JwkSet`. The result is
/// named; of an error only that there is one.
#[verifier::external_body]
pub(crate) fn parse_jwk_set(text: &str) -> (r: Option<Vec<jsonwebtoken::jwk::Jwk>>)
    ensures
        jwk_set(text@) == (match r {
            Some(keys) => Some(keys@),
            None => None,
        }),
{
    serde_json::from_str::<jsonwebtoken::jwk::JwkSet>(text).ok().map(|set| set.keys)
}

/// The key id that a JWK carries, its `common.key_id`.
pub uninterp spec fn jwk_key_id(jwk: jsonwebtoken::jwk::Jwk) -> Option<Seq<char>>;

/// The field `common.key_id` of `jsonwebtoken::jwk::Jwk`.
#[verifier::external_body]
fn key_id(jwk: &jsonwebtoken::jwk::Jwk) -> (r: Option<String>)
    ensures
        r.deep_view() == jwk_key_id(*jwk),
{
    jwk.common.key_id.clone()
}

/// The algorithm that a JWK names, its `common.key_algorithm`.
pub uninterp spec fn jwk_key_algorithm(jwk: jsonwebtoken::jwk::Jwk) -> Option<KeyAlgorithm>;

/// The field `common.key_algorithm` of `jsonwebtoken::jwk::Jwk`.
#[verifier::external_body]
fn key_algorithm(jwk: &jsonwebtoken::jwk::Jwk) -> (r: Option<KeyAlgorithm>)
    ensures
        r == jwk_key_algorithm(*jwk),
{
    jwk.common.key_algorithm.map(|alg| match alg {
        KeyAlg::HS256 => KeyAlgorithm::HS256, KeyAlg::HS384 => KeyAlgorithm::HS384,
        KeyAlg::HS512 => KeyAlgorithm::HS512, KeyAlg::RS256 => KeyAlgorithm::RS256,
        KeyAlg::RS384 => KeyAlgorithm::RS384, KeyAlg::RS512 => KeyAlgorithm::RS512,
        KeyAlg::PS256 => KeyAlgorithm::PS256, KeyAlg::PS384 => KeyAlgorithm::PS384,
        KeyAlg::PS512 => KeyAlgorithm::PS512, KeyAlg::ES256 => KeyAlgorithm::ES256,
        KeyAlg::ES384 => KeyAlgorithm::ES384, KeyAlg::EdDSA => KeyAlgorithm::EdDSA,
        KeyAlg::RSA1_5 => KeyAlgorithm::RSA1_5, KeyAlg::RSA_OAEP => KeyAlgorithm::RSA_OAEP,
        KeyAlg::RSA_OAEP_256 => KeyAlgorithm::RSA_OAEP_256,
    })
}

/// The key that `jsonwebtoken::DecodingKey::from_jwk` makes of a JWK, if it
/// can make one.
pub uninterp spec fn jwk_decoding_key(jwk: jsonwebtoken::jwk::Jwk) -> Option<
    jsonwebtoken::DecodingKey,
>;

/// `jsonwebtoken::DecodingKey::from_jwk`. The result is named; of an error
/// only that there is one.
#[verifier::external_body]
fn decoding_key(jwk: &jsonwebtoken::jwk::Jwk) -> (r: Option<jsonwebtoken::DecodingKey>)
    ensures
        r == jwk_decoding_key(*jwk),
{
    jsonwebtoken::DecodingKey::from_jwk(jwk).ok()
}

/// A published key that can verify tokens. The explicit algorithm prevents
/// algorithm confusion: a JWK that names none is rejected.
pub struct KeyEntry {
    pub kid: Option<String>,
    pub key: jsonwebtoken::DecodingKey,
    /// The signature algorithm that the JWK names. One that names an algorithm
    /// for encryption has none of its own, and is tried under the token's.
    pub algorithm: Option<Algorithm>,
}

/// What a [`KeyEntry`] says.
#[verifier::ext_equal]
pub struct KeyView {
    pub kid: Option<Seq<char>>,
    pub key: jsonwebtoken::DecodingKey,
    pub algorithm: Option<Algorithm>,
}

impl KeyView {
    /// The algorithm under which a token that names `alg` is tried.
    pub open spec fn algorithm_for(self, alg: Algorithm) -> Algorithm {
        match self.algorithm {
            Some(own) => own,
            None => alg,
        }
    }
}

impl KeyEntry {
    /// The algorithm under which a token that names `alg` is tried.
    pub fn algorithm_for(&self, alg: Algorithm) -> (r: Algorithm)
        ensures
            r == self@.algorithm_for(alg),
    {
        match self.algorithm {
            Some(own) => own,
            None => alg,
        }
    }
}

impl View for KeyEntry {
    type V = KeyView;

    open spec fn view(&self) -> KeyView {
        KeyView { kid: self.kid.deep_view(), key: self.key, algorithm: self.algorithm }
    }
}

/// What a list of keys says.
pub open spec fn key_views(keys: Seq<KeyEntry>) -> Seq<KeyView> {
    keys.map_values(|k: KeyEntry| k@)
}

/// The entry that a key makes: it could be decoded and names an algorithm.
pub open spec fn entry_of(
    kid: Option<Seq<char>>,
    key: Option<jsonwebtoken::DecodingKey>,
    named: Option<KeyAlgorithm>,
) -> Option<KeyView> {
    match (key, named) {
        (Some(key), Some(named)) => Some(KeyView { kid, key, algorithm: signing(named) }),
        _ => None,
    }
}

/// The entry that a key makes, if it is usable.
pub fn key_entry(
    kid: Option<String>,
    key: Option<jsonwebtoken::DecodingKey>,
    named: Option<KeyAlgorithm>,
) -> (r: Option<KeyEntry>)
    ensures
        entry_of(kid.deep_view(), key, named) == (match r {
            Some(entry) => Some(entry@),
            None => None,
        }),
{
    match (key, named) {
        (Some(key), Some(named)) => {
            Some(KeyEntry { kid, key, algorithm: map_key_algorithm(named) })
        },
        _ => None,
    }
}

/// The usable key that a JWK holds.
pub open spec fn usable_key(jwk: jsonwebtoken::jwk::Jwk) -> Option<KeyView> {
    entry_of(jwk_key_id(jwk), jwk_decoding_key(jwk), jwk_key_algorithm(jwk))
}

/// The usable keys of a set, in order.
pub open spec fn usable(jwks: Seq<jsonwebtoken::jwk::Jwk>) -> Seq<KeyView>
    decreases jwks.len(),
{
    if jwks.len() == 0 {
        Seq::empty()
    } else {
        match usable_key(jwks.last()) {
            Some(key) => usable(jwks.drop_last()).push(key),
            None => usable(jwks.drop_last()),
        }
    }
}

/// The usable keys of a set.
pub fn usable_keys(jwks: &[jsonwebtoken::jwk::Jwk]) -> (r: Vec<KeyEntry>)
    ensures
        key_views(r@) == usable(jwks@),
{
    let mut keys: Vec<KeyEntry> = Vec::new();
    let mut i: usize = 0;
    assert(key_views(keys@) =~= usable(jwks@.take(0)));
    while i < jwks.len()
        invariant
            i <= jwks@.len(),
            key_views(keys@) == usable(jwks@.take(i as int)),
        decreases jwks@.len() - i,
    {
        let ghost had = key_views(keys@);
        assert(jwks@.take(i + 1).drop_last() =~= jwks@.take(i as int));
        let jwk = &jwks[i];
        if let Some(entry) = key_entry(key_id(jwk), decoding_key(jwk), key_algorithm(jwk)) {
            let ghost view = entry@;
            keys.push(entry);
            assert(key_views(keys@) =~= had.push(view));
        }
        i = i + 1;
    }
    assert(jwks@.take(i as int) =~= jwks@);
    keys
}

// ---------------------------------------------------------------------------
// Verification
// ---------------------------------------------------------------------------

/// The largest leeway for which verification is defined, in seconds. The
/// verifier subtracts the leeway from the time since 1970, which has been
/// larger than this since 2001.
pub const MAX_LEEWAY_SECS: u64 = 1_000_000_000;

/// What a token is verified against beside the key.
#[derive(Debug)]
pub struct TokenRules {
    pub algorithm: Algorithm,
    pub leeway: u64,
    pub validate_exp: bool,
    pub validate_nbf: bool,
    pub validate_aud: bool,
    pub issuers: Vec<String>,
    pub audiences: Option<Vec<String>>,
    pub required_claims: Vec<String>,
}

/// What [`TokenRules`] say.
#[verifier::ext_equal]
pub struct RulesView {
    pub algorithm: Algorithm,
    pub leeway: u64,
    pub validate_exp: bool,
    pub validate_nbf: bool,
    pub validate_aud: bool,
    pub issuers: Seq<Seq<char>>,
    pub audiences: Option<Seq<Seq<char>>>,
    pub required_claims: Seq<Seq<char>>,
}

impl View for TokenRules {
    type V = RulesView;

    open spec fn view(&self) -> RulesView {
        RulesView {
            algorithm: self.algorithm,
            leeway: self.leeway,
            validate_exp: self.validate_exp,
            validate_nbf: self.validate_nbf,
            validate_aud: self.validate_aud,
            issuers: self.issuers.deep_view(),
            audiences: self.audiences.deep_view(),
            required_claims: self.required_claims.deep_view(),
        }
    }
}

/// `jsonwebtoken::Validation`, carried through as it is.
#[verifier::external_type_specification]
#[verifier::external_body]
pub struct ExValidation(jsonwebtoken::Validation);

/// The rules that a `jsonwebtoken::Validation` was made with.
pub uninterp spec fn validation_rules(v: jsonwebtoken::Validation) -> RulesView;

/// `jsonwebtoken::Validation::new`, its `set_issuer`, `set_audience` and
/// `set_required_spec_claims`, and its public fields: a validation by these
/// rules.
#[verifier::external_body]
fn validation(rules: &TokenRules) -> (r: jsonwebtoken::Validation)
    ensures
        validation_rules(r) == rules@,
{
    let mut v = jsonwebtoken::Validation::new(match rules.algorithm {
        Algorithm::HS256 => Alg::HS256, Algorithm::HS384 => Alg::HS384,
        Algorithm::HS512 => Alg::HS512, Algorithm::RS256 => Alg::RS256,
        Algorithm::RS384 => Alg::RS384, Algorithm::RS512 => Alg::RS512,
        Algorithm::PS256 => Alg::PS256, Algorithm::PS384 => Alg::PS384,
        Algorithm::PS512 => Alg::PS512, Algorithm::ES256 => Alg::ES256,
        Algorithm::ES384 => Alg::ES384, Algorithm::EdDSA => Alg::EdDSA,
    });
    (v.leeway, v.validate_exp) = (rules.leeway, rules.validate_exp);
    (v.validate_nbf, v.validate_aud) = (rules.validate_nbf, rules.validate_aud);
    v.set_issuer(&rules.issuers);
    rules.audiences.as_ref().map(|items| v.set_audience(items));
    v.set_required_spec_claims(&rules.required_claims);
    v
}

/// Whether `jsonwebtoken::crypto::verify` accepts the last piece of a token
/// as a signature by this key, under this algorithm, of what stands before
/// the last dot.
pub uninterp spec fn signature_verifies(
    token: Seq<char>,
    key: jsonwebtoken::DecodingKey,
    algorithm: Algorithm,
) -> bool;

/// Whether a claim names one of the expected values: as a text, or in an
/// array of texts.
pub open spec fn claim_names(claim: Option<Json>, expected: Seq<Seq<char>>) -> bool {
    match claim {
        Some(Json::Text(t)) => expected.contains(t),
        Some(Json::List(items)) => {
            &&& forall|i: int| 0 <= i < items.len() ==> (#[trigger] items[i]) is Text
            &&& exists|i: int|
                0 <= i < items.len() && expected.contains((#[trigger] items[i])->Text_0)
        },
        _ => false,
    }
}

/// Whether the claims are bound as the rules ask: a required expiry is there,
/// a required issuer is one of the issuers, a required audience one of the
/// audiences.
pub open spec fn claims_bound(claims: Json, rules: RulesView) -> bool {
    &&& rules.required_claims.contains("exp"@) ==> (member(claims, "exp"@) matches Some(
        Json::Number(_),
    ))
    &&& rules.required_claims.contains("iss"@) ==> claim_names(
        member(claims, "iss"@),
        rules.issuers,
    )
    &&& rules.required_claims.contains("aud"@) && rules.validate_aud ==> (
    rules.audiences matches Some(audiences) && claim_names(member(claims, "aud"@), audiences))
}

/// The claims that a token carries, whether or not it is genuine: the JSON
/// document that its second piece holds in base64.
pub open spec fn carried_claims(token: Seq<char>) -> Option<Json> {
    if pieces(token, '.').len() < 2 {
        None
    } else {
        match url_safe_bytes(pieces(token, '.')[1]) {
            Some(bytes) => match json_document(bytes) {
                Ok(claims) => Some(claims),
                Err(_) => None,
            },
            None => None,
        }
    }
}

/// What is certain of a token that was accepted, and of its claims.
pub open spec fn token_accepted(
    token: Seq<char>,
    key: jsonwebtoken::DecodingKey,
    rules: RulesView,
    claims: Json,
) -> bool {
    &&& pieces(token, '.').len() == 3
    &&& jwt_header(token) matches Ok(header) && header.alg == rules.algorithm
    &&& carried_claims(token) == Some(claims)
    &&& signature_verifies(token, key, rules.algorithm)
    &&& claims is Object ==> claims_bound(claims, rules)
}

/// The claims that `jsonwebtoken::decode` hands back of a token, with this key
/// and by these rules, when the system's clock shows `unix_time` seconds since
/// 1970; nothing where it refuses the token.
pub uninterp spec fn decoded_claims(
    token: Seq<char>,
    key: jsonwebtoken::DecodingKey,
    rules: RulesView,
    unix_time: u64,
) -> Option<Json>;

/// Up to here, a floating-point number tells all whole numbers apart.
pub const WHOLE_NUMBERS_END: u64 = 9_007_199_254_740_992;

/// Whether a number is written with a fraction: the digits of `whole`, a point
/// and at least one more digit.
pub open spec fn with_fraction(number: Seq<char>, whole: nat) -> bool {
    let point = decimal(whole).len() as int;
    &&& point + 1 < number.len()
    &&& number.take(point) == decimal(whole)
    &&& number[point] == '.'
    &&& forall|i: int| point < i < number.len() ==> '0' <= #[trigger] number[i] <= '9'
}

/// Whether a number stands for `n` seconds: it is written so, or with a
/// fraction and rounds to it, a half upwards.
pub open spec fn seconds(number: Seq<char>, n: nat) -> bool {
    ||| n <= u64::MAX && number == decimal(n)
    ||| exists|whole: nat|
        whole < WHOLE_NUMBERS_END && #[trigger] with_fraction(number, whole) && n == whole + (
        if number[decimal(whole).len() as int + 1] >= '5' {
            1nat
        } else {
            0nat
        })
}

/// Whether claims are in time, by the leeway of the rules: not after an expiry
/// and not before a start that stand for a number of seconds.
pub open spec fn in_time(claims: Json, rules: RulesView, unix_time: u64) -> bool {
    &&& rules.validate_exp ==> (member(claims, "exp"@) matches Some(Json::Number(number))
        ==> forall|n: nat| #[trigger] seconds(number, n) ==> unix_time <= n + rules.leeway)
    &&& rules.validate_nbf ==> (member(claims, "nbf"@) matches Some(Json::Number(number))
        ==> forall|n: nat| #[trigger] seconds(number, n) ==> n <= unix_time + rules.leeway)
}

/// What a key answers to a token at a time, by these rules: the claims that
/// are handed back then, of a token that is in order and in time, or nothing.
pub open spec fn key_answers_at(
    token: Seq<char>,
    key: jsonwebtoken::DecodingKey,
    rules: RulesView,
    unix_time: u64,
    answer: Option<Json>,
) -> bool {
    &&& decoded_claims(token, key, rules, unix_time) == answer
    &&& answer matches Some(claims) ==> token_accepted(token, key, rules, claims) && in_time(
        claims,
        rules,
        unix_time,
    )
}

/// What a key can answer to a token, by these rules, at some time.
pub open spec fn key_answers(
    token: Seq<char>,
    key: jsonwebtoken::DecodingKey,
    rules: RulesView,
    answer: Option<Json>,
) -> bool {
    exists|unix_time: u64| key_answers_at(token, key, rules, unix_time, answer)
}

/// `jsonwebtoken::decode` into a `serde_json::Value`, an error by its text.
/// The claims are named, with the time at which the call reads the system's
/// clock; of an error only that there is one. A token that is accepted
/// consists of three pieces, names the algorithm of the rules, carries the
/// claims that are handed back, is signed by the key, and is bound and in time
/// as the rules ask. The binding is claimed of JSON objects only: of an array
/// the verifier reads the elements as claims. Times are claimed of `exp` and
/// `nbf` that are a whole number of seconds, and of those with a fraction as
/// far as a floating-point number tells seconds apart: the verifier reads them
/// as one and rounds it. An `nbf` that is no number is ignored. The system's
/// clock is past 2001.
#[verifier::external_body]
fn decode(
    token: &str,
    key: &jsonwebtoken::DecodingKey,
    validation: &jsonwebtoken::Validation,
) -> (r: Result<serde_json::Value, String>)
    requires
        validation_rules(*validation).leeway <= MAX_LEEWAY_SECS,
    ensures
        exists|unix_time: u64| #[trigger]
            decoded_claims(token@, *key, validation_rules(*validation), unix_time) == (match r {
                Ok(v) => Some(value_json(v)),
                Err(_) => None,
            }) && (r matches Ok(v) ==> in_time(
                value_json(v),
                validation_rules(*validation),
                unix_time,
            )),
        r is Ok ==> signature_verifies(token@, *key, validation_rules(*validation).algorithm),
        r matches Ok(v) ==> token_accepted(
            token@,
            *key,
            validation_rules(*validation),
            value_json(v),
        ),
{
    jsonwebtoken::decode::<serde_json::Value>(token, key, validation).map(|d| d.claims).map_err(
        |e| e.to_string(),
    )
}

/// What a verification by a key came to.
pub open spec fn answer_of(outcome: Result<ClaimValue, String>) -> Option<Json> {
    match outcome {
        Ok(claims) => Some(claims@),
        Err(_) => None,
    }
}

/// Verifies a token with a key, by these rules: its claims, or why it was
/// refused.
pub fn verify_with_key(
    token: &str,
    key: &jsonwebtoken::DecodingKey,
    rules: &TokenRules,
) -> (r: Result<ClaimValue, String>)
    requires
        rules.leeway <= MAX_LEEWAY_SECS,
    ensures
        key_answers(token@, *key, rules@, answer_of(r)),
{
    let r = match decode(token, key, &validation(rules)) {
        Ok(v) => Ok(claim_value(&v)),
        Err(e) => Err(e),
    };
    proof {
        let unix_time = choose|unix_time: u64| #[trigger]
            decoded_claims(token@, *key, rules@, unix_time) == answer_of(r) && (answer_of(
                r,
            ) matches Some(claims) ==> in_time(claims, rules@, unix_time));
        assert(key_answers_at(token@, *key, rules@, unix_time, answer_of(r)));
    }
    r
}

// ---------------------------------------------------------------------------
// Reading without verifying
// ---------------------------------------------------------------------------

/// The bytes that the `URL_SAFE_NO_PAD` engine of `base64` reads in a text.
pub uninterp spec fn url_safe_bytes(text: Seq<char>) -> Option<Seq<u8>>;

/// `decode` of `base64::engine::general_purpose::URL_SAFE_NO_PAD`. The result
/// is named; of an error only that there is one.
#[verifier::external_body]
fn decode_url_safe(text: &str) -> (r: Option<Vec<u8>>)
    ensures
        url_safe_bytes(text@) == (match r {
            Some(bytes) => Some(bytes@),
            None => None,
        }),
{
    base64::Engine::decode(&base64::engine::general_purpose::URL_SAFE_NO_PAD, text).ok()
}

/// The issuer that a claim set names.
pub open spec fn issuer_named(claims: Option<Json>) -> Option<Seq<char>> {
    match claims {
        Some(claims) => match member(claims, "iss"@) {
            Some(Json::Text(t)) => Some(t),
            _ => None,
        },
        None => None,
    }
}

/// The issuer that a claim set names.
pub fn claimed_issuer(claims: &ClaimValue) -> (r: Option<String>)
    ensures
        r.deep_view() == issuer_named(Some(claims@)),
{
    match claims.get("iss") {
        Some(value) => match value.as_str() {
            Some(s) => Some(s.to_owned()),
            None => None,
        },
        None => None,
    }
}

/// The issuer that a token names, without verifying it. This serves to route
/// the token only; the matched provider still verifies it in full.
pub fn extract_unverified_issuer(token: &str) -> (r: Option<String>)
    ensures
        r.deep_view() == issuer_named(carried_claims(token@)),
{
    let parts = split_at_each(token, '.');
    let ghost all = pieces(token@, '.');
    assert(parts@.len() == all.len());
    if parts.len() < 2 {
        return None;
    }
    assert(parts.deep_view()[1] == parts@[1]@);
    let bytes = match decode_url_safe(parts[1]) {
        Some(bytes) => bytes,
        None => return None,
    };
    match parse_json(bytes.as_slice()) {
        Ok(claims) => claimed_issuer(&claims),
        Err(_) => None,
    }
}

/// A usable key of a set is that of a JWK in it which can be decoded and names
/// an algorithm: the key's, where it is one for signatures.
pub proof fn usable_keys_name_their_algorithm(jwks: Seq<jsonwebtoken::jwk::Jwk>, i: int)
    requires
        0 <= i < usable(jwks).len(),
    ensures
        exists|k: int|
            0 <= k < jwks.len() && jwk_decoding_key(#[trigger] jwks[k]) == Some(usable(jwks)[i].key)
                && jwk_key_id(jwks[k]) == usable(jwks)[i].kid && (jwk_key_algorithm(
                jwks[k],
            ) matches Some(named) && signing(named) == usable(jwks)[i].algorithm),
    decreases jwks.len(),
{
    let init = jwks.drop_last();
    if i < usable(init).len() {
        usable_keys_name_their_algorithm(init, i);
        let k = choose|k: int|
            0 <= k < init.len() && jwk_decoding_key(#[trigger] init[k]) == Some(usable(init)[i].key)
                && jwk_key_id(init[k]) == usable(init)[i].kid && (jwk_key_algorithm(
                init[k],
            ) matches Some(named) && signing(named) == usable(init)[i].algorithm);
        assert(jwks[k] == init[k]);
    } else {
        assert(usable_key(jwks[jwks.len() - 1]) == Some(usable(jwks)[i]));
    }
}

/// A token without a dot carries no claims and names no issuer.
pub proof fn opaque_tokens_name_no_issuer(token: Seq<char>)
    requires
        !token.contains('.'),
    ensures
        issuer_named(carried_claims(token)) is None,
{
    one_piece(token, '.');
}

/// A token that was accepted is routed by the claims that were verified: the
/// issuer by which it is routed is the one that its verified claims name.
pub proof fn routing_follows_verified_claims(
    token: Seq<char>,
    key: jsonwebtoken::DecodingKey,
    rules: RulesView,
    claims: Json,
)
    requires
        token_accepted(token, key, rules, claims),
    ensures
        issuer_named(carried_claims(token)) == issuer_named(Some(claims)),
{
}

/// Of the JWKs of a set, each that can be decoded and names an algorithm is
/// usable, under its own key id and under the signature algorithm of the name
/// that it writes, if there is one of that name; no other is, and they keep
/// their order.
pub proof fn each_usable_key_is_kept(
    jwks: Seq<jsonwebtoken::jwk::Jwk>,
    last: jsonwebtoken::jwk::Jwk,
)
    ensures
        usable(Seq::empty()).len() == 0,
        usable(jwks.push(last)) == (match (jwk_decoding_key(last), jwk_key_algorithm(last)) {
            (Some(key), Some(named)) => usable(jwks).push(
                KeyView {
                    kid: jwk_key_id(last),
                    key,
                    algorithm: algorithm_named(key_algorithm_name(named)),
                },
            ),
            _ => usable(jwks),
        }),
{
    assert(jwks.push(last).drop_last() =~= jwks);
    if let Some(named) = jwk_key_algorithm(last) {
        keys_sign_under_the_name_they_write(named);
    }
}

/// A token is tried under exactly the algorithm whose name the key's JWK
/// writes, where that is one for signatures: a token whose header names it is
/// tried under what it names. With a key for encryption it is tried under what
/// the token names.
pub proof fn keys_are_tried_under_their_name(
    jwk: jsonwebtoken::jwk::Jwk,
    key: KeyView,
    named: KeyAlgorithm,
    alg: Algorithm,
)
    requires
        usable_key(jwk) == Some(key),
        jwk_key_algorithm(jwk) == Some(named),
    ensures
        algorithm_named(key_algorithm_name(named)) is Some ==> algorithm_name(
            key.algorithm_for(alg),
        ) == key_algorithm_name(named),
        algorithm_named(key_algorithm_name(named)) is None ==> key.algorithm_for(alg) == alg,
        key_algorithm_name(named) == algorithm_name(alg) ==> key.algorithm_for(alg) == alg,
{
    keys_sign_under_the_name_they_write(named);
    names_name_one_algorithm(alg, key_algorithm_name(named));
}

/// A key that has an algorithm of its own is tried under it, and any other
/// under the token's.
pub proof fn a_key_goes_by_its_own_algorithm(key: KeyView, alg: Algorithm, entry: KeyEntry)
    ensures
        key.algorithm matches Some(own) ==> key.algorithm_for(alg) == own,
        key.algorithm is None ==> key.algorithm_for(alg) == alg,
        entry@.kid == entry.kid.deep_view(),
        entry@.key == entry.key,
        entry@.algorithm == entry.algorithm,
{
}

/// The claims that a token carries are those in its second piece, whatever
/// stands before and after it; a token without a dot carries none.
pub proof fn claims_are_in_the_second_piece(
    head: Seq<char>,
    payload: Seq<char>,
    tail: Seq<char>,
    token: Seq<char>,
)
    requires
        !head.contains('.'),
        !payload.contains('.'),
        token == head.push('.') + payload || token == head.push('.') + (payload.push('.') + tail),
    ensures
        carried_claims(token) == (match url_safe_bytes(payload) {
            Some(bytes) => match json_document(bytes) {
                Ok(claims) => Some(claims),
                Err(_) => None,
            },
            None => None,
        }),
{
    one_piece(head, '.');
    one_piece(payload, '.');
    if token == head.push('.') + payload {
        pieces_of_both_sides(head, payload, '.');
    } else {
        pieces_of_both_sides(head, payload.push('.') + tail, '.');
        pieces_of_both_sides(payload, tail, '.');
    }
    pieces_rejoin(tail, '.');
    assert(pieces(token, '.')[1] == payload);
}

/// The issuer that claims name is the text that is their member `iss`.
pub proof fn claims_name_their_iss(claims: Json, issuer: Seq<char>)
    ensures
        issuer_named(Some(claims)) == Some(issuer) <==> member(claims, "iss"@) == Some(
            Json::Text(issuer),
        ),
        issuer_named(None) is None,
{
}

/// A claim names an expected value only as that text, or in an array that
/// holds it; a claim that is not there names none.
pub proof fn claims_name_texts(claim: Option<Json>, expected: Seq<Seq<char>>)
    ensures
        claim_names(claim, expected) ==> exists|i: int|
            0 <= i < expected.len() && (claim == Some(Json::Text(#[trigger] expected[i])) || (claim
                matches Some(Json::List(items)) && items.contains(Json::Text(expected[i])))),
        claim matches Some(Json::Text(t)) ==> claim_names(claim, expected) == expected.contains(t),
        claim is None ==> !claim_names(claim, expected),
{
    if claim_names(claim, expected) {
        match claim {
            Some(Json::Text(t)) => {
                let i = choose|i: int| 0 <= i < expected.len() && expected[i] == t;
                assert(claim == Some(Json::Text(expected[i])));
            },
            Some(Json::List(items)) => {
                let k = choose|k: int|
                    0 <= k < items.len() && expected.contains((#[trigger] items[k])->Text_0);
                assert(items[k] is Text);
                let i = choose|i: int| 0 <= i < expected.len() && expected[i] == items[k]->Text_0;
                assert(items[k] == Json::Text(expected[i]));
            },
            _ => {},
        }
    }
}

/// A whole number of seconds stands for itself, and one with a fraction for
/// the nearest: below a half for itself, from a half on for the next.
pub proof fn seconds_are_rounded(n: u64, fraction: Seq<char>)
    requires
        n < 9_007_199_254_740_992,
        fraction.len() > 0,
        forall|i: int| 0 <= i < fraction.len() ==> '0' <= #[trigger] fraction[i] <= '9',
    ensures
        seconds(decimal(n as nat), n as nat),
        fraction[0] < '5' ==> seconds(decimal(n as nat).push('.') + fraction, n as nat),
        fraction[0] >= '5' ==> seconds(decimal(n as nat).push('.') + fraction, (n + 1) as nat),
{
    let whole = decimal(n as nat);
    let number = whole.push('.') + fraction;
    assert(number.take(whole.len() as int) =~= whole);
    assert(number[whole.len() as int + 1] == fraction[0]);
    assert forall|i: int| whole.len() < i < number.len() implies '0' <= #[trigger] number[i]
        <= '9' by {
        assert(number[i] == fraction[i - whole.len() - 1]);
    }
    assert(with_fraction(number, n as nat));
}

/// A token that a key accepts is genuine: it has three pieces, its header names
/// the algorithm of the rules, its signature verifies by that key under that
/// algorithm, and the claims are those that it carries.
pub proof fn accepted_tokens_are_genuine(
    token: Seq<char>,
    key: jsonwebtoken::DecodingKey,
    rules: RulesView,
    claims: Json,
)
    requires
        key_answers(token, key, rules, Some(claims)),
    ensures
        pieces(token, '.').len() == 3,
        jwt_header(token) matches Ok(header) && header.alg == rules.algorithm,
        signature_verifies(token, key, rules.algorithm),
        carried_claims(token) == Some(claims),
{
}

} // verus!
