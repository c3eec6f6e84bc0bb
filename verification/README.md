# aauth

A verified library for the AAuth authorization protocol: the wire types and
headers an agent, a resource, a Person Server and an Access Server exchange,
HTTP message signatures over AAuth requests, and the decisions of the
deferred (`202`/`402`) and access flows.

Everything under `src/` is checked by Verus against its contracts:

- `text`, `common`, `error`, `headers`, `token68`, `identifiers`: protocol
  strings, the `AAuth-Requirement`, `AAuth-Capabilities` and `AAuth-Mission`
  headers, `token68` credentials, server and agent identifiers.
- `signature`, `signature_laws`, `header_map`, `keys`, `codec`, `clock`:
  building and reading `Signature-Input`, `Signature` and `Signature-Key`,
  verifying and applying Ed25519 request signatures over an `http::HeaderMap`,
  and the proof that a request signed here verifies under the signer's key.
- `deferred`, `respond`: pending requirements, snapshots, records and the
  HTTP responses of the token and consent flows.
- `opaque`, `resource_token`, `token_claims`, `access`, `federation`: opaque
  access tokens, resource token claims, the checks tokens pass before their
  issuer's keys are fetched, the access decisions of a resource's request
  layer, and a Person Server's federation decisions.

`app/` holds what Verus does not read: serde forms of the wire types, turning
response plans into `http::Response`s, and the asynchronous loops around the
library's decisions. The outside work in those loops (decoding JWTs, fetching
issuers' keys, checking JWT signatures, signing resource tokens, HTTP calls) is
asked of traits that the server embedding the library implements.
