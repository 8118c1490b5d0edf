//! A ledger of uniquely fingerprinted collectibles ("kitties"): minting,
//! transfer between owners, price listing and purchase, with a bounded
//! per-owner index kept consistent with the registry.

mod types;
mod dna;
mod pallet;
mod laws;

pub use types::{AccountId, Balance, BlockInfo, Error, Event, Kitty, MAX_OWNED};
pub use pallet::{ledger_invariants, outcome, Config, Pallet, Payment};
pub use laws::{
    full_owner_refused, mint_count, price_bound, self_transfer_refused,
    transfer_round_trip, unlisted_not_for_sale,
};
pub use dna::{blake2_256_of, dna_eq, dna_payload, gen_dna_from, le_u32_bytes, opt_u32_bytes};

