# fight

Verified core of two NEAR smart contracts, written in Verus:

- `src/animal_fight.rs` — a pet-fighting game. Each account owns at most one
  pet; pets have unique names, start at level 1, are levelled up and fight by
  comparing levels. The state is modelled by `FightView`; every operation is
  specified as a transition on it, and the laws (consistency of the game,
  removal undoing registration, antisymmetric fights, save/restore) are proof
  functions over it.
- `src/crowdfunding.rs` — a crowdfunding platform. The owner opens campaigns
  numbered 1, 2, 3, ...; donations are appended to a campaign's list of funders
  and added to its totals. `ContractView` models the state; the books-balance
  invariant (each total is the sum of its donations, each count of funders the
  opening count plus the donations) is proved to hold in every state.
- `src/nft_metadata.rs` — the default contract metadata of the pet NFT
  collection, proved to satisfy the NFT standard's validity rule, and the
  verified check of that rule for any metadata.
- `src/account.rs` — validated NEAR account ids (validation by near-sdk).
- `src/text_map.rs` — a verified map keyed by text.

`app/` holds the NEAR contract shells (`near_bindgen`): they read the caller and
the attached deposit from the runtime, check what the library requires, keep
the state in contract storage and call the library. The NFT token logic itself
(`NonFungibleToken` of near-contract-standards) stays there, as it works on
contract storage.
