# gathera

The logic of the Gathera event-ticketing contracts for Soroban, written in Verus:
staking with reward tiers, a multisig wallet, a ticket-proof registry with
nullifiers and revocation, a DID registry with claims and delegations, feature
flags with rollouts and kill switches, a Merkle-whitelist token distribution, the
ticket core with dynamic pricing, the escrow proxy with its upgrade manager,
verifiable randomness, storage initialization, and a gas measurement framework.

Layout:

- `src/` — the verified library. Each contract is a state value with methods
  whose contracts state the result and the new state over spec models; the laws
  that span several operations are public proof functions (`law_*`). Calls into
  the Soroban host (hashing, the ledger, the map of proposer nonces) are the few
  trusted items, each beside the function that uses it (the host map in `nonces`).
- `tests/` — the contracts' scenarios run against the compiled library.
- `app/` — the host side: addresses, authorization, token transfers, events and
  the ledger's clock around the library's decisions.
