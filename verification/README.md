# warg-server

The core of a package registry server, verified with [Verus](https://github.com/verus-lang/verus).

- `src/` is the library. `core_service.rs` and `package_info.rs` keep the package
  logs and decide what becomes of submitted records; `proof_data.rs`,
  `proof_index.rs` and `proof_log.rs` keep the transparency log and make proofs
  from it; `hash.rs`, `protocol.rs` and `record.rs` hold the types they share.
  `service_laws.rs` and `proof_laws.rs` state what holds over many requests.
- `app/` runs the two services as tasks and maps the wire types.
- `tests/` runs the library with the crates it rests on.

Hashing, record validation and the Merkle tree are those of the `warg-crypto`,
`warg-protocol` and `warg-transparency` crates. Every call into them goes through
a function whose doc comment says what is taken for granted of it.
