# flexnet

An account ledger and the message layer of the consensus that orders its blocks,
written in Verus: the code in `src/` is verified, and its functions state what they
do in contracts that Verus proves.

- `src/` — the verified library.
  - Ledger: accounts and addresses, canonical byte encodings and their decoder,
    Ed25519 signatures, transfers, blocks, SHA-256 state, transaction and block
    hashes, block execution over a working state, genesis, and the chain that
    only grows by blocks that follow its tip and execute to the state hash they
    claim.
  - `consensus/`: proposals, prevotes and precommits with their encodings and
    checks, the inputs of the consensus state machine, the bounded buffer that
    orders early inputs, and the decisions a chain-backed validator makes.
- `tests/` — tests of the library on concrete values.
- `app/` — the tokio side: the ports consensus talks through, channel and chain
  adapters, timeouts and the background proposal task.

State tables are sorted sequences of `(address, account)` rows; the proofs
relate every operation to a mathematical model of them (lookups, merges, the
rolling state hash and the total balance).
