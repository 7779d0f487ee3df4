# wasm_oci_serve

Serves WebAssembly components through the OCI distribution protocol, so that
`oras pull localhost:5000/namespace/name:version` fetches a component.

- `src/` is the verified library (Verus): reading a component's identity and
  interfaces, the exact JSON text and SHA-256 digests of the config and
  manifest artifacts, the in-memory content-addressed registry, and what each
  registry endpoint answers (status, headers, body, pagination of tag lists).
  The calls into `sha2`, `wasm-metadata`, `wit-component`/`wit-parser`
  and `anyhow` stand behind small trusted wrappers whose contracts
  are documented where they are declared.
- `tests/` exercises the library with the real outside crates linked.
- `app/` is the command-line program: argument parsing, reading files, and the
  axum/tokio HTTP server that hands each request to the library.
