# nft_membership

Tiered, expirable and optionally soulbound membership tokens for a Stellar
(Soroban) contract, written in Verus.

- `src/` is the verified library. `NftMembershipContract` holds the
  contract's storage; every call either refuses with a `ContractError` and
  leaves the storage unchanged, or applies its change and returns an
  `Effect`: the address whose authorization the host must check and the
  event it must publish. `ContractState` is the storage as the contracts
  describe it; `src/laws.rs` proves what every call keeps (ids key their
  tokens, the supply counts the tokens, each token is listed once under its
  owner, soulbound tokens never change hands, initialisation happens once),
  and over histories of calls that the supply is mints minus burns and the
  approval of a token is the one its last approve left, unless a transfer or
  burn came later.
- `app/` is the Soroban contract around it: it loads the storage entries a
  call touches, runs the library, checks the named authorization, writes the
  entries back and publishes the event. Host strings are held one `char`
  per byte, so any byte string round-trips.
- `tests/` runs the library on concrete scenarios.
