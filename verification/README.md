# ghostlib

The rules of a peer-to-peer messaging node, verified with Verus.

A node has identities, takes part in exchanges, and talks to the application in front
of it. An exchange is a document that its participants share: each of them writes its
identification, its messages and its files to it.

The library decides; it does no I/O. What has to be read, written or sent is handed out
as a value, and what came of it is handed back in.

- `src/data.rs`, `src/base32.rs`, `src/text.rs`, `src/error.rs`: identifiers, their text
  form, lookups and writes on documents.
- `src/identity.rs`, `src/settings.rs`, `src/host.rs`: who the node is, where that is
  kept, and how the node ends.
- `src/live_doc.rs`: entries of a document, held back until their blobs have arrived.
- `src/exchange/`: running exchanges, the order of messages, the peers, how an exchange
  is set up, listed, reloaded and given up.
- `src/dispatch/`: the conversations with the application, and how two nodes find each
  other.
- `app/`: the runtime, documents and blobs, and the objects for foreign languages.
- `tests/`: whole nodes in memory, and every part on given values.
