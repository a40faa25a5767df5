# nostr-gateway

The authorization boundary in front of a Nostr relay and a Blossom media store,
written in Verus. The gateway verifies signed requests, asks an internal API
whether the key that signed them has a grant, and sends on what is granted.

- `src/` is the library: every decision of the gateway, with its contract.
  - `relay`, `session`, `session_laws`: authentication of a session with the
    relay, what each message of a client leads to, and what holds of a whole
    session.
  - `blossom`, `blossom_laws`, `encoding`, `blob`: what authorizes a request to
    the media store, and what the store may say of a blob.
  - `exchange`, `exchange_laws`: a request to the media store from its first
    look to its response, and what holds of every such exchange.
  - `information`: the document in which the relay describes itself.
  - `headers`, `proxy`, `route`: which service a request is for, and which of
    its fields go on.
  - `api`, `config`: the internal API and the settings.
  - `json`, `event`, `text`: documents, signed events and texts.
- `app/` is the server: sockets, HTTP requests and the environment.
- `tests/` run the library on concrete values.

A wrapper around a call into another crate is marked
`#[verifier::external_body]`; its doc comment says what is taken for granted of
the call.
