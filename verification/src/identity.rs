//! Verified identities, verdicts, and how claims become an identity.

use vstd::prelude::*;
use crate::claims::{
    at_path, extract_scope_claims, extract_string_claim, extract_string_list_claims, names_text,
    text_at, texts_at, what_is_read_is_named_at_a_path, ClaimValue, Json,
};
use crate::config::{OidcProviderConfig, ProviderView};
use crate::string_map::StringMap;
use crate::text::{blank, blank_texts_have_no_words, copy_texts, is_blank, words};

verus! {

/// Resolved identity from OIDC/OAuth verification.
#[derive(Debug)]
pub struct OidcIdentity {
    /// The subject, from the configured subject claim.
    pub subject_id: String,
    /// The issuer that the token was verified for.
    pub issuer: String,
    /// Provider label for diagnostics.
    pub provider_label: String,
    pub groups: Vec<String>,
    pub roles: Vec<String>,
    pub scopes: Vec<String>,
    pub attributes: StringMap,
}

/// What an [`OidcIdentity`] says.
#[verifier::ext_equal]
pub struct IdentityView {
    pub subject_id: Seq<char>,
    pub issuer: Seq<char>,
    pub provider_label: Seq<char>,
    pub groups: Seq<Seq<char>>,
    pub roles: Seq<Seq<char>>,
    pub scopes: Seq<Seq<char>>,
    pub attributes: Map<Seq<char>, Seq<char>>,
}

impl View for OidcIdentity {
    type V = IdentityView;

    open spec fn view(&self) -> IdentityView {
        IdentityView {
            subject_id: self.subject_id@,
            issuer: self.issuer@,
            provider_label: self.provider_label@,
            groups: self.groups.deep_view(),
            roles: self.roles.deep_view(),
            scopes: self.scopes.deep_view(),
            attributes: self.attributes@,
        }
    }
}

impl Clone for OidcIdentity {
    fn clone(&self) -> (r: Self)
        ensures
            r@ == self@,
    {
        OidcIdentity {
            subject_id: self.subject_id.clone(),
            issuer: self.issuer.clone(),
            provider_label: self.provider_label.clone(),
            groups: copy_texts(&self.groups),
            roles: copy_texts(&self.roles),
            scopes: copy_texts(&self.scopes),
            attributes: self.attributes.clone(),
        }
    }
}

/// Result of an OIDC/OAuth verification attempt.
#[derive(Debug)]
pub enum OidcVerificationResult {
    /// Token verified and identity resolved.
    Verified(OidcIdentity),
    /// No bearer token was present in the request.
    NoToken,
    /// Token was present but verification failed.
    Invalid(String),
}

/// What an [`OidcVerificationResult`] says.
#[verifier::ext_equal]
pub enum Verdict {
    Verified(IdentityView),
    NoToken,
    Invalid(Seq<char>),
}

impl View for OidcVerificationResult {
    type V = Verdict;

    open spec fn view(&self) -> Verdict {
        match *self {
            OidcVerificationResult::Verified(id) => Verdict::Verified(id@),
            OidcVerificationResult::NoToken => Verdict::NoToken,
            OidcVerificationResult::Invalid(message) => Verdict::Invalid(message@),
        }
    }
}

/// The attributes that a claim set fills: each mapping whose path leads to a
/// text writes that text under the attribute's name, in the order in which
/// the mappings are walked.
pub open spec fn attributes_of(claims: Json, mappings: Seq<(Seq<char>, Seq<char>)>) -> Map<
    Seq<char>,
    Seq<char>,
>
    decreases mappings.len(),
{
    if mappings.len() == 0 {
        Map::empty()
    } else {
        let earlier = attributes_of(claims, mappings.drop_last());
        match text_at(claims, mappings.last().0) {
            Some(value) => earlier.insert(mappings.last().1, value),
            None => earlier,
        }
    }
}

/// The verdict on claims that were verified for a provider: the identity that
/// they make up, or a refusal where there is no subject.
pub open spec fn claims_verdict(p: ProviderView, claims: Json) -> Verdict {
    match text_at(claims, p.claim_mappings.subject_claim) {
        Some(subject) if !blank(subject) => Verdict::Verified(
            IdentityView {
                subject_id: subject,
                issuer: p.issuer,
                provider_label: p.issuer,
                groups: texts_at(claims, p.claim_mappings.group_claim_paths),
                roles: texts_at(claims, p.claim_mappings.role_claim_paths),
                scopes: texts_at(claims, p.claim_mappings.scope_claim_paths),
                attributes: attributes_of(claims, p.claim_mappings.attribute_claim_mappings),
            },
        ),
        _ => Verdict::Invalid(
            "missing or empty '"@ + p.claim_mappings.subject_claim + "' claim for issuer '"@
                + p.issuer + "'"@,
        ),
    }
}

/// Fills the attributes from a claim set.
fn map_attributes(claims: &ClaimValue, mappings: &StringMap) -> (r: StringMap)
    ensures
        r@ == attributes_of(claims@, mappings.entries()),
{
    let ghost all = mappings.entries();
    let mut attributes = StringMap::new();
    let mut i: usize = 0;
    let n: usize = mappings.len();
    assert(all.take(0) =~= Seq::empty());
    while i < n
        invariant
            i <= n,
            n == all.len(),
            all == mappings.entries(),
            attributes@ == attributes_of(claims@, all.take(i as int)),
        decreases n - i,
    {
        assert(all.take(i + 1).drop_last() =~= all.take(i as int));
        assert(all.take(i + 1).last() == all[i as int]);
        let (claim_name, attr_name) = mappings.entry(i);
        if let Some(value) = extract_string_claim(claims, claim_name) {
            attributes.insert(attr_name.to_owned(), value);
        }
        i = i + 1;
    }
    assert(all.take(i as int) =~= all);
    attributes
}

/// Maps verified claims, of a JWT or from introspection, into an identity.
pub fn map_claims(config: &OidcProviderConfig, claims: &ClaimValue) -> (r: OidcVerificationResult)
    ensures
        r@ == claims_verdict(config@, claims@),
{
    let mappings = &config.claim_mappings;
    if let Some(subject_id) = extract_string_claim(claims, mappings.subject_claim.as_str()) {
        if !is_blank(subject_id.as_str()) {
            return OidcVerificationResult::Verified(
                OidcIdentity {
                    subject_id,
                    issuer: config.issuer.clone(),
                    provider_label: config.issuer.clone(),
                    groups: extract_string_list_claims(claims, &mappings.group_claim_paths),
                    roles: extract_string_list_claims(claims, &mappings.role_claim_paths),
                    scopes: extract_scope_claims(claims, &mappings.scope_claim_paths),
                    attributes: map_attributes(claims, &mappings.attribute_claim_mappings),
                },
            );
        }
    }
    let mut message = "missing or empty '".to_owned();
    message.append(mappings.subject_claim.as_str());
    message.append("' claim for issuer '");
    message.append(config.issuer.as_str());
    message.append("'");
    OidcVerificationResult::Invalid(message)
}

/// Whether a mapping fills an attribute.
pub open spec fn fills(
    claims: Json,
    mapping: (Seq<char>, Seq<char>),
    attribute: Seq<char>,
) -> bool {
    mapping.1 == attribute && text_at(claims, mapping.0) is Some
}

/// Where several mappings fill one attribute, the last of them in walking
/// order decides it; an attribute that no mapping fills is not there.
pub proof fn last_mapping_decides(
    claims: Json,
    mappings: Seq<(Seq<char>, Seq<char>)>,
    attribute: Seq<char>,
)
    ensures
        attributes_of(claims, mappings).contains_key(attribute) <==> exists|i: int|
            0 <= i < mappings.len() && fills(claims, #[trigger] mappings[i], attribute),
        forall|i: int|
            0 <= i < mappings.len() && fills(claims, #[trigger] mappings[i], attribute) && (forall|
                j: int,
            |
                i < j < mappings.len() ==> !fills(claims, #[trigger] mappings[j], attribute))
                ==> attributes_of(claims, mappings)[attribute] == text_at(
                claims,
                mappings[i].0,
            ).unwrap(),
{
    if attributes_of(claims, mappings).contains_key(attribute) {
        let i = lemma_attribute_filled(claims, mappings, attribute);
        assert(fills(claims, mappings[i], attribute));
    }
    assert forall|i: int|
        0 <= i < mappings.len() && fills(
            claims,
            #[trigger] mappings[i],
            attribute,
        ) implies attributes_of(claims, mappings).contains_key(attribute) by {
        lemma_filled_attribute(claims, mappings, attribute, i);
    }
    assert forall|i: int|
        0 <= i < mappings.len() && fills(claims, #[trigger] mappings[i], attribute) && (forall|
            j: int,
        |
            i < j < mappings.len() ==> !fills(
                claims,
                #[trigger] mappings[j],
                attribute,
            )) implies attributes_of(claims, mappings)[attribute] == text_at(
        claims,
        mappings[i].0,
    ).unwrap() by {
        lemma_filled_last(claims, mappings, attribute, i);
    }
}

/// An attribute that is there was filled by a mapping.
proof fn lemma_attribute_filled(
    claims: Json,
    mappings: Seq<(Seq<char>, Seq<char>)>,
    attribute: Seq<char>,
) -> (i: int)
    requires
        attributes_of(claims, mappings).contains_key(attribute),
    ensures
        0 <= i < mappings.len(),
        fills(claims, mappings[i], attribute),
    decreases mappings.len(),
{
    if attributes_of(claims, mappings.drop_last()).contains_key(attribute) {
        lemma_attribute_filled(claims, mappings.drop_last(), attribute)
    } else {
        mappings.len() - 1
    }
}

/// An attribute that a mapping fills is there.
proof fn lemma_filled_attribute(
    claims: Json,
    mappings: Seq<(Seq<char>, Seq<char>)>,
    attribute: Seq<char>,
    i: int,
)
    requires
        0 <= i < mappings.len(),
        fills(claims, mappings[i], attribute),
    ensures
        attributes_of(claims, mappings).contains_key(attribute),
    decreases mappings.len(),
{
    if i < mappings.len() - 1 {
        lemma_filled_attribute(claims, mappings.drop_last(), attribute, i);
    }
}

/// The last mapping that fills an attribute decides it.
proof fn lemma_filled_last(
    claims: Json,
    mappings: Seq<(Seq<char>, Seq<char>)>,
    attribute: Seq<char>,
    i: int,
)
    requires
        0 <= i < mappings.len(),
        fills(claims, mappings[i], attribute),
        forall|j: int|
            i < j < mappings.len() ==> !fills(claims, #[trigger] mappings[j], attribute),
    ensures
        attributes_of(claims, mappings)[attribute] == text_at(claims, mappings[i].0).unwrap(),
    decreases mappings.len(),
{
    if i < mappings.len() - 1 {
        let init = mappings.drop_last();
        assert(!fills(claims, mappings.last(), attribute));
        assert forall|j: int| i < j < init.len() implies !fills(
            claims,
            #[trigger] init[j],
            attribute,
        ) by {
            assert(init[j] == mappings[j]);
        }
        lemma_filled_last(claims, init, attribute, i);
    }
}

/// An identity is resolved exactly where the subject claim holds a text that
/// is not blank, and carries the provider's issuer.
pub proof fn identity_has_subject_and_issuer(p: ProviderView, claims: Json)
    ensures
        claims_verdict(p, claims) is Verified <==> (text_at(claims, p.claim_mappings.subject_claim)
            matches Some(subject) && !blank(subject)),
        claims_verdict(p, claims) matches Verdict::Verified(id) ==> id.issuer == p.issuer
            && id.provider_label == p.issuer && !blank(id.subject_id) && Some(id.subject_id)
            == text_at(claims, p.claim_mappings.subject_claim),
        !(claims_verdict(p, claims) is NoToken),
{
}

/// Claims make up an identity exactly where the value at the subject's path is
/// a text with a word in it; otherwise they are refused.
pub proof fn claims_with_a_subject_make_an_identity(p: ProviderView, claims: Json)
    ensures
        claims_verdict(p, claims) is Verified <==> (at_path(claims, p.claim_mappings.subject_claim)
            matches Some(Json::Text(subject)) && words(subject).len() > 0),
        !(claims_verdict(p, claims) is Verified) ==> claims_verdict(p, claims) is Invalid,
{
    if let Some(Json::Text(subject)) = at_path(claims, p.claim_mappings.subject_claim) {
        blank_texts_have_no_words(subject);
    }
}

/// An identity says what the claims say where the mappings point. The subject
/// is the text at its path. The groups are what is read at the paths for
/// groups, the roles what is read at those for roles and the scopes what is
/// read at those for scopes: each in the order of its paths, and nothing that
/// stands elsewhere, so that without a path there is none. An attribute is the
/// text at the path of the last mapping that fills it.
pub proof fn identities_say_what_the_claims_say(
    p: ProviderView,
    claims: Json,
    id: IdentityView,
    t: Seq<char>,
)
    requires
        claims_verdict(p, claims) == Verdict::Verified(id),
    ensures
        at_path(claims, p.claim_mappings.subject_claim) == Some(Json::Text(id.subject_id)),
        id.issuer == p.issuer,
        id.provider_label == p.issuer,
        id.groups == texts_at(claims, p.claim_mappings.group_claim_paths),
        id.roles == texts_at(claims, p.claim_mappings.role_claim_paths),
        id.scopes == texts_at(claims, p.claim_mappings.scope_claim_paths),
        id.groups.contains(t) <==> exists|i: int|
            0 <= i < p.claim_mappings.group_claim_paths.len() && names_text(
                at_path(claims, #[trigger] p.claim_mappings.group_claim_paths[i]),
                t,
            ),
        id.roles.contains(t) <==> exists|i: int|
            0 <= i < p.claim_mappings.role_claim_paths.len() && names_text(
                at_path(claims, #[trigger] p.claim_mappings.role_claim_paths[i]),
                t,
            ),
        id.scopes.contains(t) <==> exists|i: int|
            0 <= i < p.claim_mappings.scope_claim_paths.len() && names_text(
                at_path(claims, #[trigger] p.claim_mappings.scope_claim_paths[i]),
                t,
            ),
        p.claim_mappings.group_claim_paths.len() == 0 ==> id.groups.len() == 0,
        p.claim_mappings.role_claim_paths.len() == 0 ==> id.roles.len() == 0,
        p.claim_mappings.scope_claim_paths.len() == 0 ==> id.scopes.len() == 0,
        id.attributes.contains_key(t) <==> exists|i: int|
            0 <= i < p.claim_mappings.attribute_claim_mappings.len() && (
            #[trigger] p.claim_mappings.attribute_claim_mappings[i]).1 == t && (at_path(
                claims,
                p.claim_mappings.attribute_claim_mappings[i].0,
            ) matches Some(value) && value is Text),
        forall|i: int|
            0 <= i < p.claim_mappings.attribute_claim_mappings.len() && (
            #[trigger] p.claim_mappings.attribute_claim_mappings[i]).1 == t && (at_path(
                claims,
                p.claim_mappings.attribute_claim_mappings[i].0,
            ) matches Some(value) && value is Text) && (forall|j: int|
                i < j < p.claim_mappings.attribute_claim_mappings.len() ==> (
                #[trigger] p.claim_mappings.attribute_claim_mappings[j]).1 != t) ==> at_path(
                claims,
                p.claim_mappings.attribute_claim_mappings[i].0,
            ) == Some(Json::Text(id.attributes[t])),
{
    let mappings = p.claim_mappings.attribute_claim_mappings;
    what_is_read_is_named_at_a_path(claims, p.claim_mappings.group_claim_paths, t);
    what_is_read_is_named_at_a_path(claims, p.claim_mappings.role_claim_paths, t);
    what_is_read_is_named_at_a_path(claims, p.claim_mappings.scope_claim_paths, t);
    last_mapping_decides(claims, mappings, t);
    if id.attributes.contains_key(t) {
        let i = lemma_attribute_filled(claims, mappings, t);
        assert(mappings[i].1 == t);
    }
    assert forall|i: int|
        0 <= i < mappings.len() && (#[trigger] mappings[i]).1 == t && (at_path(
            claims,
            mappings[i].0,
        ) matches Some(value) && value is Text) implies id.attributes.contains_key(t) by {
        assert(fills(claims, mappings[i], t));
    }
    assert forall|i: int|
        0 <= i < mappings.len() && (#[trigger] mappings[i]).1 == t && (at_path(
            claims,
            mappings[i].0,
        ) matches Some(value) && value is Text) && (forall|j: int|
            i < j < mappings.len() ==> (#[trigger] mappings[j]).1 != t) implies at_path(
        claims,
        mappings[i].0,
    ) == Some(Json::Text(id.attributes[t])) by {
        assert(fills(claims, mappings[i], t));
        lemma_filled_last(claims, mappings, t, i);
    }
}

/// An identity and a verdict are seen as they are.
pub proof fn verdicts_are_seen_as_they_are(id: OidcIdentity, result: OidcVerificationResult)
    ensures
        id@.subject_id == id.subject_id@,
        id@.issuer == id.issuer@,
        id@.provider_label == id.provider_label@,
        id@.groups == id.groups.deep_view(),
        id@.roles == id.roles.deep_view(),
        id@.scopes == id.scopes.deep_view(),
        id@.attributes == id.attributes@,
        result matches OidcVerificationResult::Verified(found) ==> result@ == Verdict::Verified(
            found@,
        ),
        result matches OidcVerificationResult::Invalid(why) ==> result@ == Verdict::Invalid(why@),
        result is NoToken ==> result@ is NoToken,
{
}

} // verus!
