//! OIDC/OAuth verification.
//!
//! Discovery-document and key caching, JWT verification, RFC 7662
//! introspection, hybrid mode and claim extraction, with the configuration
//! that drives them.
//!
//! The library performs no I/O. [`OidcOAuthResolver`] hands out the step that
//! a verification needs next (fetch the discovery document, fetch the keys,
//! introspect the token); the caller performs it and hands the reply back,
//! with the time. [`model`] says what each step does, [`guarantees`],
//! [`completeness`] and [`history`] what follows for a provider, and
//! [`routing`] what follows for a token on its way through all of them.

pub mod algorithm;
pub mod circuit;
pub mod claims;
pub mod completeness;
pub mod config;
pub mod exchange;
pub mod guarantees;
pub mod headers;
pub mod history;
pub mod identity;
pub mod jwt;
pub mod model;
pub mod provider;
pub mod resolver;
pub mod routing;
pub mod string_map;
pub mod text;
pub mod url_guard;

pub use config::{
    parse_algorithm, ClaimMappingConfig, OidcOAuthConfig, OidcProviderConfig, TokenSourceConfig,
    VerificationConfig,
};
pub use resolver::{OidcIdentity, OidcOAuthResolver, OidcVerificationResult};
