# zktrace

A zero-knowledge audit trail for the tool calls of AI agents speaking the
Model Context Protocol. Each tool call becomes an execution event whose
Poseidon commitment is appended to a Merkle ledger; a Groth16 proof shows
that the call kept to a committed policy, and a receipt carries the proof,
its public inputs and the event's inclusion proof.

- `src/` is the verified library: field elements, Poseidon parameters and
  hashing, the incremental Merkle tree, policies and their commitments,
  execution events, the ledger with its storage and bundles, witness
  synthesis, MCP request routing, receipt verification and the health
  probe's decisions. Calls into arkworks, sha2, hex, uuid and chrono sit
  behind small trusted wrappers whose contracts name or state their results.
- `app/` is the `zktrace` command-line program: the R1CS constraints of the
  policy circuit, Groth16 setup and proving, disk persistence, the stdio
  proxy, the HTTP verifier and the serde formats.
- `tests/` exercises the library.
