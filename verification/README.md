# gamlastan

The logic of a SAML 2.0 identity provider, in Verus: executable Rust with
contracts that Verus proves.

- `src/saml`: NameIDs, attributes, metadata, statuses, responses, their XML, and
  where signatures stand in it.
- `src/idp/ident`: the identity database. NameIDs are issued, found, managed and
  forgotten over a pluggable key/value store. Each operation is a state machine
  of single store accesses (`op`), so that what holds of any interleaving of
  several writers can be stated and proved (`pool`, `schedule`).
- `src/idp`: attribute release policy, entity categories, authentication methods,
  the assertion store.
- `src/idp/orchestrator`: the response engine. It decides whether a request is
  answered from a session, by authenticating or by a refusal, and assembles and
  signs the response.
- `src/web`: what the HTTP endpoints decide: trust in service providers, what
  signatures count for, single sign-on, logout, artifact resolution, metadata.
  The `*_flow` modules say what an endpoint does next, after what came of the
  last thing it did; `sso_run` says what holds of a whole single sign-on, with
  the engine's part in it.
- `app`: the endpoints themselves, on actix-web: they perform what the flows ask
  for.
- `tests`: tests of the compiled library.

What the library promises over several calls stands in functions whose names
begin with `law_`.

Signing is a function that the caller supplies. Parsing XML and verifying
signatures are left to the caller, who hands in what was found.
