use vstd::prelude::*;

verus! {

/// Identity of an account, already authenticated by the caller.
pub type AccountId = u64;

/// A monetary amount.
pub type Balance = u128;

/// How many fingerprints one owner's index may hold.
pub const MAX_OWNED: usize = 100;

/// One collectible: its fingerprint, its owner and its optional asking price.
#[derive(Clone, Copy, Debug, PartialEq, Eq)]
pub struct Kitty {
    pub dna: [u8; 32],
    pub owner: AccountId,
    pub price: Option<Balance>,
}

/// The ambient block values that a new fingerprint is derived from.
#[derive(Clone, Copy, Debug, PartialEq, Eq)]
pub struct BlockInfo {
    pub parent_hash: [u8; 32],
    pub block_number: u32,
    pub extrinsic_index: Option<u32>,
}

/// Notifications, one per successful operation.
#[derive(Clone, Copy, Debug, PartialEq, Eq)]
pub enum Event {
    Created { owner: AccountId },
    Transferred { from: AccountId, to: AccountId, kitty_id: [u8; 32] },
    PriceSet { owner: AccountId, kitty_id: [u8; 32], new_price: Option<Balance> },
    Sold { buyer: AccountId, kitty_id: [u8; 32], price: Balance },
}

/// Why an operation was refused. A refused operation changes nothing.
#[derive(Clone, Copy, Debug, PartialEq, Eq)]
pub enum Error {
    /// The global counter of kitties would overflow.
    TooManyKitties,
    /// A kitty with this fingerprint already exists.
    DuplicateKitty,
    /// The receiving owner already holds the maximum number of kitties.
    TooManyOwned,
    /// Source and destination of a transfer are the same account.
    TransferToSelf,
    /// No kitty has this fingerprint, or the index does not list it.
    NoKitty,
    /// The caller does not own the kitty.
    NotOwner,
    /// The kitty has no price set.
    NotForSale,
    /// The buyer's maximum is below the asking price.
    MaxPriceTooLow,
    /// The fund transfer of a purchase failed: the payer cannot pay.
    InsufficientBalance,
}

} // verus!
