# helios_rpc

The decisions of an execution provider that reads from an untrusted JSON-RPC upstream, and of the
middleware that forwards a caller's `Authorization` credential to it, verified with Verus.

- `src/` is the library. Each query is a small state machine: a step says what to read or check next,
  takes the reply, and leads to the next step or to the outcome. The contracts say which step follows
  which reply, and the proof functions what holds of whole queries.
  - `auth_forwarding`: capturing a credential, putting it in scope, attaching it upstream
  - `account`: an account with its proofs and its code, read at one block
  - `blocks`, `provider`: which source answers for a block, and what a range bound stands for
  - `transactions`, `receipts`: found in, and held against, verified blocks
  - `logs`, `log_query`: logs by a filter, verified against proven receipts
  - `hint`: the accounts that a transaction is expected to touch
  - `headers`, `packets`, `crypto`: what is relied on from `http`, `url`, `alloy` and `alloy-trie`
- `app/` performs the reads and the checks of Merkle proofs: network client, middleware, conversions.
- `tests/` runs the library on concrete values.

`serde_with` is among the dependencies only to hold a dependency of `alloy` to a version that brings
fewer packages of its own; no code here uses it.
