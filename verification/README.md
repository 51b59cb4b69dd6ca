# liquid_staking_mock

A verified model of the mock runtime used by the liquid-staking pallet's tests.

- `src/blocks.rs`: how the mock steps blocks, sessions and eras forward. The outside
  work (pallet hooks, timestamps) comes back as a list of `BlockAction`s.
- `src/ext_builder.rs`: the genesis builder: balances split between the two currency
  pallets, the stakers, the staking parameters, and session keys.
- `src/democracy.rs`: the encoded `set_balance` proposal, its hash, the aye vote, and the
  steps that begin a referendum.
- `src/staking.rs`: looking up validators' controllers.
- `src/codec.rs`, `src/arith.rs`: the SCALE encoding, BLAKE2 hashing and fixed-point /
  per-billion arithmetic the model calls, with their contracts.
- `src/primitives.rs`: shared types and constants.
- `app/lib.rs`: the FRAME runtime configuration and the drivers that carry out what the
  model computes. It needs the FRAME pallets and the liquid-staking pallet itself, which
  are not dependencies of this crate.
