//! Price sampling for a constant-product pool: a fixed-capacity ring of
//! (slot, price) observations, the spot-price calculation that feeds it, the
//! transfer hook that decides which transfers are sampled, and the set-up
//! that has to run before any is.

pub mod accounts;
pub mod error;
pub mod hook;
pub mod layout;
pub mod price;
pub mod registration;
pub mod ring;
pub mod setup;

pub use accounts::{
    InitializeExtraAccountMetaList, KeyBytes, MintInfo, TokenVault, TransferHookAccounts,
    RAYDIUM_CPMM_ID,
};
pub use error::ErrorCode;
pub use hook::{transfer_hook, transfer_hook_at, BaseSide, Decision, HookOutcome, Skip};
pub use price::compute_normalized_price;
pub use registration::{registration_space, REGISTRATION_SPACE};
pub use ring::{PricePoint, PriceRing, RING_BUFFER_SIZE};
pub use setup::initialize_extra_account_meta_list;
