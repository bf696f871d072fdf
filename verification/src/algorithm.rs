//! Signature algorithms: their names, and which of a key's algorithms sign.

use vstd::prelude::*;
use crate::text::same_text;

verus! {

/// A JWS signature algorithm.
#[derive(Debug, Clone, Copy, PartialEq, Eq, Structural)]
pub enum Algorithm {
    HS256,
    HS384,
    HS512,
    RS256,
    RS384,
    RS512,
    PS256,
    PS384,
    PS512,
    ES256,
    ES384,
    EdDSA,
}

/// The `alg` of a JWK: a signature algorithm or one for encrypting keys.
#[allow(non_camel_case_types)]
#[derive(Debug, Clone, Copy, PartialEq, Eq, Structural)]
pub enum KeyAlgorithm {
    HS256,
    HS384,
    HS512,
    RS256,
    RS384,
    RS512,
    PS256,
    PS384,
    PS512,
    ES256,
    ES384,
    EdDSA,
    RSA1_5,
    RSA_OAEP,
    RSA_OAEP_256,
}

/// The name of an algorithm, as tokens and configurations write it.
pub open spec fn algorithm_name(a: Algorithm) -> Seq<char> {
    match a {
        Algorithm::HS256 => "HS256"@,
        Algorithm::HS384 => "HS384"@,
        Algorithm::HS512 => "HS512"@,
        Algorithm::RS256 => "RS256"@,
        Algorithm::RS384 => "RS384"@,
        Algorithm::RS512 => "RS512"@,
        Algorithm::PS256 => "PS256"@,
        Algorithm::PS384 => "PS384"@,
        Algorithm::PS512 => "PS512"@,
        Algorithm::ES256 => "ES256"@,
        Algorithm::ES384 => "ES384"@,
        Algorithm::EdDSA => "EdDSA"@,
    }
}

/// The algorithm of that name.
pub open spec fn algorithm_named(name: Seq<char>) -> Option<Algorithm> {
    if name == "HS256"@ {
        Some(Algorithm::HS256)
    } else if name == "HS384"@ {
        Some(Algorithm::HS384)
    } else if name == "HS512"@ {
        Some(Algorithm::HS512)
    } else if name == "RS256"@ {
        Some(Algorithm::RS256)
    } else if name == "RS384"@ {
        Some(Algorithm::RS384)
    } else if name == "RS512"@ {
        Some(Algorithm::RS512)
    } else if name == "PS256"@ {
        Some(Algorithm::PS256)
    } else if name == "PS384"@ {
        Some(Algorithm::PS384)
    } else if name == "PS512"@ {
        Some(Algorithm::PS512)
    } else if name == "ES256"@ {
        Some(Algorithm::ES256)
    } else if name == "ES384"@ {
        Some(Algorithm::ES384)
    } else if name == "EdDSA"@ {
        Some(Algorithm::EdDSA)
    } else {
        None
    }
}

/// HMAC algorithms share a secret between issuer and verifier.
pub open spec fn symmetric(a: Algorithm) -> bool {
    a is HS256 || a is HS384 || a is HS512
}

/// The names of the HMAC algorithms.
pub open spec fn hmac_name(name: Seq<char>) -> bool {
    name == "HS256"@ || name == "HS384"@ || name == "HS512"@
}

/// The signature algorithm that a key's `alg` stands for.
pub open spec fn signing(k: KeyAlgorithm) -> Option<Algorithm> {
    match k {
        KeyAlgorithm::HS256 => Some(Algorithm::HS256),
        KeyAlgorithm::HS384 => Some(Algorithm::HS384),
        KeyAlgorithm::HS512 => Some(Algorithm::HS512),
        KeyAlgorithm::RS256 => Some(Algorithm::RS256),
        KeyAlgorithm::RS384 => Some(Algorithm::RS384),
        KeyAlgorithm::RS512 => Some(Algorithm::RS512),
        KeyAlgorithm::PS256 => Some(Algorithm::PS256),
        KeyAlgorithm::PS384 => Some(Algorithm::PS384),
        KeyAlgorithm::PS512 => Some(Algorithm::PS512),
        KeyAlgorithm::ES256 => Some(Algorithm::ES256),
        KeyAlgorithm::ES384 => Some(Algorithm::ES384),
        KeyAlgorithm::EdDSA => Some(Algorithm::EdDSA),
        KeyAlgorithm::RSA1_5 => None,
        KeyAlgorithm::RSA_OAEP => None,
        KeyAlgorithm::RSA_OAEP_256 => None,
    }
}

/// Every algorithm is found under its name, and under no other.
pub proof fn names_name_one_algorithm(a: Algorithm, name: Seq<char>)
    ensures
        algorithm_named(name) == Some(a) <==> name == algorithm_name(a),
{
    reveal_strlit("HS256");
    reveal_strlit("HS384");
    reveal_strlit("HS512");
    reveal_strlit("RS256");
    reveal_strlit("RS384");
    reveal_strlit("RS512");
    reveal_strlit("PS256");
    reveal_strlit("PS384");
    reveal_strlit("PS512");
    reveal_strlit("ES256");
    reveal_strlit("ES384");
    reveal_strlit("EdDSA");
    assert("HS256"@[0] == 'H' && "HS256"@[2] == '2');
    assert("HS384"@[0] == 'H' && "HS384"@[2] == '3');
    assert("HS512"@[0] == 'H' && "HS512"@[2] == '5');
    assert("RS256"@[0] == 'R' && "RS256"@[2] == '2');
    assert("RS384"@[0] == 'R' && "RS384"@[2] == '3');
    assert("RS512"@[0] == 'R' && "RS512"@[2] == '5');
    assert("PS256"@[0] == 'P' && "PS256"@[2] == '2');
    assert("PS384"@[0] == 'P' && "PS384"@[2] == '3');
    assert("PS512"@[0] == 'P' && "PS512"@[2] == '5');
    assert("ES256"@[0] == 'E' && "ES256"@[2] == '2');
    assert("ES384"@[0] == 'E' && "ES384"@[2] == '3');
    assert("EdDSA"@[0] == 'E' && "EdDSA"@[2] == 'D');
}

/// The names of the HMAC algorithms are those of the symmetric algorithms.
pub proof fn hmac_names_are_symmetric(name: Seq<char>)
    ensures
        hmac_name(name) <==> (algorithm_named(name) matches Some(a) && symmetric(a)),
{
}

/// A name that no algorithm has.
#[derive(Debug)]
pub struct UnsupportedAlgorithm {
    pub name: String,
}

impl UnsupportedAlgorithm {
    /// The message for the operator.
    pub open spec fn message(&self) -> Seq<char> {
        "unsupported algorithm: '"@ + self.name@ + "'"@
    }

    /// The message for the operator.
    pub fn to_string(&self) -> (r: String)
        ensures
            r@ == self.message(),
    {
        let mut r = "unsupported algorithm: '".to_owned();
        r.append(self.name.as_str());
        r.append("'");
        r
    }
}

/// Parses an algorithm's name.
pub fn parse_algorithm(name: &str) -> (r: Result<Algorithm, UnsupportedAlgorithm>)
    ensures
        match r {
            Ok(a) => algorithm_named(name@) == Some(a),
            Err(e) => algorithm_named(name@) is None && e.name@ == name@,
        },
{
    if same_text(name, "HS256") {
        Ok(Algorithm::HS256)
    } else if same_text(name, "HS384") {
        Ok(Algorithm::HS384)
    } else if same_text(name, "HS512") {
        Ok(Algorithm::HS512)
    } else if same_text(name, "RS256") {
        Ok(Algorithm::RS256)
    } else if same_text(name, "RS384") {
        Ok(Algorithm::RS384)
    } else if same_text(name, "RS512") {
        Ok(Algorithm::RS512)
    } else if same_text(name, "PS256") {
        Ok(Algorithm::PS256)
    } else if same_text(name, "PS384") {
        Ok(Algorithm::PS384)
    } else if same_text(name, "PS512") {
        Ok(Algorithm::PS512)
    } else if same_text(name, "ES256") {
        Ok(Algorithm::ES256)
    } else if same_text(name, "ES384") {
        Ok(Algorithm::ES384)
    } else if same_text(name, "EdDSA") {
        Ok(Algorithm::EdDSA)
    } else {
        Err(UnsupportedAlgorithm { name: name.to_owned() })
    }
}

/// Whether this is the name of an HMAC algorithm.
pub fn is_hmac_alg(name: &str) -> (r: bool)
    ensures
        r == hmac_name(name@),
{
    same_text(name, "HS256") || same_text(name, "HS384") || same_text(name, "HS512")
}

impl Algorithm {
    /// The name of the algorithm.
    pub fn name(&self) -> (r: &'static str)
        ensures
            r@ == algorithm_name(*self),
    {
        match self {
            Algorithm::HS256 => "HS256",
            Algorithm::HS384 => "HS384",
            Algorithm::HS512 => "HS512",
            Algorithm::RS256 => "RS256",
            Algorithm::RS384 => "RS384",
            Algorithm::RS512 => "RS512",
            Algorithm::PS256 => "PS256",
            Algorithm::PS384 => "PS384",
            Algorithm::PS512 => "PS512",
            Algorithm::ES256 => "ES256",
            Algorithm::ES384 => "ES384",
            Algorithm::EdDSA => "EdDSA",
        }
    }
}

/// Maps a key's `alg` to the signature algorithm that it stands for.
pub fn map_key_algorithm(ka: KeyAlgorithm) -> (r: Option<Algorithm>)
    ensures
        r == signing(ka),
{
    match ka {
        KeyAlgorithm::HS256 => Some(Algorithm::HS256),
        KeyAlgorithm::HS384 => Some(Algorithm::HS384),
        KeyAlgorithm::HS512 => Some(Algorithm::HS512),
        KeyAlgorithm::RS256 => Some(Algorithm::RS256),
        KeyAlgorithm::RS384 => Some(Algorithm::RS384),
        KeyAlgorithm::RS512 => Some(Algorithm::RS512),
        KeyAlgorithm::PS256 => Some(Algorithm::PS256),
        KeyAlgorithm::PS384 => Some(Algorithm::PS384),
        KeyAlgorithm::PS512 => Some(Algorithm::PS512),
        KeyAlgorithm::ES256 => Some(Algorithm::ES256),
        KeyAlgorithm::ES384 => Some(Algorithm::ES384),
        KeyAlgorithm::EdDSA => Some(Algorithm::EdDSA),
        KeyAlgorithm::RSA1_5 | KeyAlgorithm::RSA_OAEP | KeyAlgorithm::RSA_OAEP_256 => None,
    }
}

/// What a JWK writes for an algorithm in its `alg`.
pub open spec fn key_algorithm_name(k: KeyAlgorithm) -> Seq<char> {
    match k {
        KeyAlgorithm::HS256 => "HS256"@,
        KeyAlgorithm::HS384 => "HS384"@,
        KeyAlgorithm::HS512 => "HS512"@,
        KeyAlgorithm::RS256 => "RS256"@,
        KeyAlgorithm::RS384 => "RS384"@,
        KeyAlgorithm::RS512 => "RS512"@,
        KeyAlgorithm::PS256 => "PS256"@,
        KeyAlgorithm::PS384 => "PS384"@,
        KeyAlgorithm::PS512 => "PS512"@,
        KeyAlgorithm::ES256 => "ES256"@,
        KeyAlgorithm::ES384 => "ES384"@,
        KeyAlgorithm::EdDSA => "EdDSA"@,
        KeyAlgorithm::RSA1_5 => "RSA1_5"@,
        KeyAlgorithm::RSA_OAEP => "RSA-OAEP"@,
        KeyAlgorithm::RSA_OAEP_256 => "RSA-OAEP-256"@,
    }
}

/// Each algorithm goes by its own name, as tokens and JWKs write it, and the
/// algorithm under a name is that one.
pub proof fn algorithms_go_by_their_names(a: Algorithm, k: KeyAlgorithm)
    ensures
        a is HS256 ==> algorithm_name(a) == "HS256"@ && algorithm_named("HS256"@) == Some(a),
        a is HS384 ==> algorithm_name(a) == "HS384"@ && algorithm_named("HS384"@) == Some(a),
        a is HS512 ==> algorithm_name(a) == "HS512"@ && algorithm_named("HS512"@) == Some(a),
        a is RS256 ==> algorithm_name(a) == "RS256"@ && algorithm_named("RS256"@) == Some(a),
        a is RS384 ==> algorithm_name(a) == "RS384"@ && algorithm_named("RS384"@) == Some(a),
        a is RS512 ==> algorithm_name(a) == "RS512"@ && algorithm_named("RS512"@) == Some(a),
        a is PS256 ==> algorithm_name(a) == "PS256"@ && algorithm_named("PS256"@) == Some(a),
        a is PS384 ==> algorithm_name(a) == "PS384"@ && algorithm_named("PS384"@) == Some(a),
        a is PS512 ==> algorithm_name(a) == "PS512"@ && algorithm_named("PS512"@) == Some(a),
        a is ES256 ==> algorithm_name(a) == "ES256"@ && algorithm_named("ES256"@) == Some(a),
        a is ES384 ==> algorithm_name(a) == "ES384"@ && algorithm_named("ES384"@) == Some(a),
        a is EdDSA ==> algorithm_name(a) == "EdDSA"@ && algorithm_named("EdDSA"@) == Some(a),
        k is HS256 ==> key_algorithm_name(k) == "HS256"@,
        k is HS384 ==> key_algorithm_name(k) == "HS384"@,
        k is HS512 ==> key_algorithm_name(k) == "HS512"@,
        k is RS256 ==> key_algorithm_name(k) == "RS256"@,
        k is RS384 ==> key_algorithm_name(k) == "RS384"@,
        k is RS512 ==> key_algorithm_name(k) == "RS512"@,
        k is PS256 ==> key_algorithm_name(k) == "PS256"@,
        k is PS384 ==> key_algorithm_name(k) == "PS384"@,
        k is PS512 ==> key_algorithm_name(k) == "PS512"@,
        k is ES256 ==> key_algorithm_name(k) == "ES256"@,
        k is ES384 ==> key_algorithm_name(k) == "ES384"@,
        k is EdDSA ==> key_algorithm_name(k) == "EdDSA"@,
        k is RSA1_5 ==> key_algorithm_name(k) == "RSA1_5"@,
        k is RSA_OAEP ==> key_algorithm_name(k) == "RSA-OAEP"@,
        k is RSA_OAEP_256 ==> key_algorithm_name(k) == "RSA-OAEP-256"@,
{
    names_name_one_algorithm(a, algorithm_name(a));
}

/// A name that no algorithm goes by is none: every other name is one of these.
pub proof fn only_these_names_name_algorithms(name: Seq<char>)
    ensures
        algorithm_named(name) is Some <==> seq![
            "HS256"@, "HS384"@, "HS512"@, "RS256"@, "RS384"@, "RS512"@,
            "PS256"@, "PS384"@, "PS512"@, "ES256"@, "ES384"@, "EdDSA"@,
        ].contains(name),
{
    let all = seq![
        "HS256"@, "HS384"@, "HS512"@, "RS256"@, "RS384"@, "RS512"@,
        "PS256"@, "PS384"@, "PS512"@, "ES256"@, "ES384"@, "EdDSA"@,
    ];
    assert(all[0] == "HS256"@);
    assert(all[1] == "HS384"@);
    assert(all[2] == "HS512"@);
    assert(all[3] == "RS256"@);
    assert(all[4] == "RS384"@);
    assert(all[5] == "RS512"@);
    assert(all[6] == "PS256"@);
    assert(all[7] == "PS384"@);
    assert(all[8] == "PS512"@);
    assert(all[9] == "ES256"@);
    assert(all[10] == "ES384"@);
    assert(all[11] == "EdDSA"@);
}

/// The `alg` of a JWK that names a signature algorithm stands for the
/// algorithm of the same name, and the others, which encrypt, for none.
pub proof fn keys_sign_under_the_name_they_write(k: KeyAlgorithm)
    ensures
        match signing(k) {
            Some(a) => algorithm_name(a) == key_algorithm_name(k),
            None => key_algorithm_name(k) == "RSA1_5"@ || key_algorithm_name(k) == "RSA-OAEP"@
                || key_algorithm_name(k) == "RSA-OAEP-256"@,
        },
        signing(k) == algorithm_named(key_algorithm_name(k)),
{
    reveal_strlit("RSA1_5");
    reveal_strlit("RSA-OAEP");
    reveal_strlit("RSA-OAEP-256");
    reveal_strlit("HS256");
    reveal_strlit("HS384");
    reveal_strlit("HS512");
    reveal_strlit("RS256");
    reveal_strlit("RS384");
    reveal_strlit("RS512");
    reveal_strlit("PS256");
    reveal_strlit("PS384");
    reveal_strlit("PS512");
    reveal_strlit("ES256");
    reveal_strlit("ES384");
    reveal_strlit("EdDSA");
    match signing(k) {
        Some(a) => {
            algorithms_go_by_their_names(a, k);
        },
        None => {
            assert(key_algorithm_name(k).len() > 5);
        },
    }
}

/// The HMAC algorithms are those whose names begin with `HS`, and no other
/// name is that of one.
pub proof fn hmac_algorithms_begin_with_hs(a: Algorithm, name: Seq<char>)
    ensures
        symmetric(a) <==> algorithm_name(a)[0] == 'H' && algorithm_name(a)[1] == 'S',
        hmac_name(name) <==> name == "HS256"@ || name == "HS384"@ || name == "HS512"@,
        hmac_name(algorithm_name(a)) == symmetric(a),
{
    reveal_strlit("HS256");
    reveal_strlit("HS384");
    reveal_strlit("HS512");
    reveal_strlit("RS256");
    reveal_strlit("RS384");
    reveal_strlit("RS512");
    reveal_strlit("PS256");
    reveal_strlit("PS384");
    reveal_strlit("PS512");
    reveal_strlit("ES256");
    reveal_strlit("ES384");
    reveal_strlit("EdDSA");
    names_name_one_algorithm(a, algorithm_name(a));
    hmac_names_are_symmetric(algorithm_name(a));
}

} // verus!
