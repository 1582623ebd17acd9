//! The accounts that the two entry points work on, as plain values.
//!
//! The runtime hands a program its accounts as typed views of raw storage.
//! What is kept here is what the sampling logic reads of them and writes to
//! them, and nothing else.

use vstd::prelude::*;
use crate::ring::{PriceRing, PriceRingView};

verus! {

/// The 32 bytes of an account address.
pub type KeyBytes = [u8; 32];

/// Address of the pool program. Only transfers that it authorizes are
/// sampled.
pub const RAYDIUM_CPMM_ID: KeyBytes = [
    169, 42, 90, 139, 79, 41, 89, 82, 132, 37, 80, 170, 147, 253, 91, 149,
    181, 172, 230, 168, 235, 146, 12, 147, 148, 46, 67, 105, 12, 32, 236, 115,
];

/// Whether two addresses are the same.
pub fn keys_equal(a: &KeyBytes, b: &KeyBytes) -> (same: bool)
    ensures
        same == (a@ == b@),
{
    let mut i: usize = 0;
    while i < 32
        invariant
            i <= 32,
            forall|j: int| 0 <= j < i ==> a@[j] == b@[j],
        decreases 32 - i,
    {
        if a[i] != b[i] {
            return false;
        }
        i += 1;
    }
    assert(a@ =~= b@);
    true
}

/// One of the pool's two vaults: the mint of the token it holds, and how
/// much of it.
#[derive(Clone, Copy, Debug)]
pub struct TokenVault {
    pub mint: KeyBytes,
    pub amount: u64,
}

/// What is read of a mint: the number of decimal places of its token.
#[derive(Clone, Copy, Debug)]
pub struct MintInfo {
    pub decimals: u8,
}

/// The accounts of one transfer, as the hook sees them.
///
/// `mint` is the mint whose transfers are hooked and `owner` the party that
/// authorized this transfer. `extra_account_meta_list` is the storage of the
/// registration record, empty as long as set-up has not run. `mint_0` and
/// `mint_1` are the mints of `token_0_vault` and `token_1_vault`.
#[derive(Debug)]
pub struct TransferHookAccounts {
    pub mint: KeyBytes,
    pub owner: KeyBytes,
    pub extra_account_meta_list: Vec<u8>,
    pub token_0_vault: TokenVault,
    pub token_1_vault: TokenVault,
    pub price_ring: PriceRing,
    pub mint_0: MintInfo,
    pub mint_1: MintInfo,
}

/// What the accounts of a transfer hold, as plain mathematics.
pub ghost struct TransferHookAccountsView {
    pub mint: KeyBytes,
    pub owner: KeyBytes,
    pub extra_account_meta_list: Seq<u8>,
    pub token_0_vault: TokenVault,
    pub token_1_vault: TokenVault,
    pub price_ring: PriceRingView,
    pub mint_0: MintInfo,
    pub mint_1: MintInfo,
}

impl View for TransferHookAccounts {
    type V = TransferHookAccountsView;

    open spec fn view(&self) -> TransferHookAccountsView {
        TransferHookAccountsView {
            mint: self.mint,
            owner: self.owner,
            extra_account_meta_list: self.extra_account_meta_list@,
            token_0_vault: self.token_0_vault,
            token_1_vault: self.token_1_vault,
            price_ring: self.price_ring@,
            mint_0: self.mint_0,
            mint_1: self.mint_1,
        }
    }
}

impl TransferHookAccountsView {
    /// Set-up has run: there is a registration record.
    pub open spec fn provisioned(self) -> bool {
        self.extra_account_meta_list.len() > 0
    }

    /// The transfer was authorized by the pool program.
    pub open spec fn authorized(self) -> bool {
        self.owner@ == RAYDIUM_CPMM_ID@
    }
}

/// The accounts of set-up: storage for the registration record and for the
/// ring, as the allocator handed them over, and the bump of the ring's
/// address.
#[derive(Debug)]
pub struct InitializeExtraAccountMetaList {
    pub extra_account_meta_list: Vec<u8>,
    pub price_ring: PriceRing,
    pub price_ring_bump: u8,
}

/// What the accounts of set-up hold, as plain mathematics.
pub ghost struct InitializeExtraAccountMetaListView {
    pub extra_account_meta_list: Seq<u8>,
    pub price_ring: PriceRingView,
    pub price_ring_bump: u8,
}

impl View for InitializeExtraAccountMetaList {
    type V = InitializeExtraAccountMetaListView;

    open spec fn view(&self) -> InitializeExtraAccountMetaListView {
        InitializeExtraAccountMetaListView {
            extra_account_meta_list: self.extra_account_meta_list@,
            price_ring: self.price_ring@,
            price_ring_bump: self.price_ring_bump,
        }
    }
}

} // verus!
