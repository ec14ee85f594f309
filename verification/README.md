# knowdly_contract

The logic of the Knowdly book contract (a Soroban smart contract for digital
publishing), verified with Verus.

- `src/types.rs` — wallets (`Address`, by strkey), `Book`, `Token`, the resale
  split and the refusal reasons.
- `src/fees.rs` — royalty and platform-fee arithmetic of purchases and resales.
- `src/model.rs` — the contract storage as mathematical values and the state
  machine of its entry points.
- `src/assoc.rs` — sequences of keyed records read as maps.
- `src/contract.rs` — `KnowdlyBookContract`, the executable storage with one
  method per entry point, each proved to follow the state machine.
- `src/consistency.rs` — the storage invariant and the proof that every
  invocation keeps it.
- `src/laws.rs` — the properties that hold across invocations: access
  control, token lists and their order, immutable royalties, one-time
  initialisation, complete payment splits, counters that count registrations
  and purchases, primary-sale and resale splits.
- `src/locality.rs` — which storage entries each invocation reads and
  writes, so that the host side may load only those.
- `app/lib.rs` — the Soroban contract: authorisation, host storage, events.
