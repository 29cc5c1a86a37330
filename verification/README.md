# lsp_proxy

Verified core of the `_zed.dev/lsp` agent extension, which lets an agent list
the language servers of a project and forward client-to-server LSP requests to
them, and of the snapshot trigger component.

- `src/server_id.rs`: minting server ids; ids are injective in (name, path).
- `src/methods.rs`: the table of forwardable LSP methods and request routing.
- `src/listing.rs`: the server listing and the resolution of a requested id,
  with the proof that both agree.
- `src/errors.rs`: the errors that answer refused requests.
- `src/snapshot.rs`: where a snapshot capture is written.
- `app/`: wire types with serde and JSON-RPC derives, and conversions.
