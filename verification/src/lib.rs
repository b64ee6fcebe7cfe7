//! Verified core of two NEAR smart contracts: a pet-fighting game
//! (`AnimalFight`) and a crowdfunding platform (`Contract`), plus the
//! contract-level metadata of the pet NFT collection.
//!
//! The contracts' state is modelled in memory; reading the blockchain
//! environment (caller, attached deposit) and persisting state belong to the
//! contract shell around this library, which hands those values in.

pub mod account;
pub mod text_map;
pub mod animal_fight;
pub mod crowdfunding;
pub mod nft_metadata;
