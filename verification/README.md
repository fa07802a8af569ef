# xcavate

Verified state machines of the Xcavate real-estate chain, written in Verus.

Each pallet of the chain is a struct whose storage is read, through `View`,
as mathematical maps and sequences; every call states in its contract which
error it answers on which state, and what the storage and balances are after
it succeeds. A refused call changes nothing.

- `ledger`, `assets`, `nfts`: the native currency, the fungible assets and
  the NFT collections the pallets work on.
- `whitelist`: the accounts that passed the KYC.
- `marketplace`: regions and locations, listing real estate objects as
  tokens, buying them, the lawyers' review of a sold-out object with payout
  or refund, relisting, offers.
- `property_management`: letting agents, their assignment to properties and
  the distribution of rental income.
- `property_governance`: proposals and challenges of the owners of a
  property, voted on and decided in the block hook.
- `community_projects`: projects funded by selling NFTs and paid out
  milestone by milestone.
- `community_loan_pool`, `xcavate_staking`, `user`: loan proposals with
  bonds, staking with locks, user profiles.
- `weights`: benchmarked call weights.
- `genesis`: development keys and the genesis of the development chains.
- `arith`: the per-thing arithmetic of `sp-arithmetic` the pallets use.

`app/` reads the balances file and writes chain specifications as JSON.
