# boundless

Verified core of the Boundless platform contracts for Soroban: an events
contract (hackathons, bounties, grants and crowdfunding with an inlined
escrow) and a projects contract (project voting, funding, refunds and
campaigns).

- `src/` is the library, written in Verus. Every operation is a function
  from the contract state and a plain description of the invocation (ledger
  time, ledger sequence, signers) to a new state and a result. Addresses are
  numbers; 32-byte values are two words. State-changing operations of the
  events contract return the work the ledger must then carry out (token
  transfers, profile-contract calls, contract events, code upgrades) as a
  list of `Effect`s. Each public function's contract states the result and
  the new state exactly, errors included; `laws.rs` and `project_laws.rs`
  state properties that span several calls.
- `tests/` runs the library on concrete scenarios, with a small simulated
  ledger that executes the returned effects.
- `app/` is the Soroban side: it maps `Address` values to numbers, asks the
  ledger for authorizations, calls the library, and executes the effects with
  `soroban_sdk` (token client, profile client, contract events, deployer).
