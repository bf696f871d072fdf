# mcpg_plugin_identity_oidc_core

OIDC/OAuth verification for MCPG: provider discovery, JWKS caching, JWT and
token-introspection verification, claim mapping, and the configuration types
that the gateway validates against. The library is written in Verus; what each
function does is stated in its contract and proved.

- `src/` is the library. It performs no I/O: a verification hands out the step
  that it needs next, and goes on with the reply and the time.
  - `config` and `algorithm`: configuration, its faults, signature algorithms.
  - `url_guard`: which URLs may be fetched.
  - `claims`, `identity`, `string_map`, `text`: claim sets and how they become
    an identity.
  - `jwt`: headers, keys, verification by a key.
  - `circuit`: the circuit breaker over fetches.
  - `exchange`: steps and replies; `headers`: where tokens come from.
  - `model`: what a provider remembers and how each step changes it.
  - `provider` and `resolver`: the providers at work, one and several.
  - `guarantees`: what holds of every verification by a provider; `history`:
    what holds of all that happens to one; `routing`: what holds of every run
    of a token through a resolver.
- `tests/` runs the library with the real crates.
- `app/` is the service around it: serialised configuration, HTTP, the clock,
  metrics and logs.
