//! Set-up: writes the registration record and sets the ring up, once.

use vstd::prelude::*;
use crate::accounts::{
    InitializeExtraAccountMetaList, InitializeExtraAccountMetaListView, KeyBytes,
};
use crate::error::ErrorCode;
use crate::registration::{
    fresh_storage, registration_record, write_registration, EXECUTE_DISCRIMINATOR,
};
use crate::ring::PriceRingView;

verus! {

/// Whether set-up goes through on this storage for the registration record:
/// it does on fresh storage, and on no other.
pub open spec fn setup_outcome(storage: Seq<u8>) -> Result<(), ErrorCode> {
    if fresh_storage(storage) {
        Ok(())
    } else {
        Err(ErrorCode::AllocationConflict)
    }
}

/// The accounts after set-up for a pool and its two vaults. Where set-up
/// goes through, the storage holds the registration record and the ring is
/// fresh, with the bump recorded. Where it does not, nothing has changed.
pub open spec fn setup_effect(
    before: InitializeExtraAccountMetaListView,
    pool_id: KeyBytes,
    token_0_vault: KeyBytes,
    token_1_vault: KeyBytes,
) -> InitializeExtraAccountMetaListView {
    if setup_outcome(before.extra_account_meta_list) is Ok {
        InitializeExtraAccountMetaListView {
            extra_account_meta_list: registration_record(
                pool_id,
                token_0_vault,
                token_1_vault,
                before.extra_account_meta_list.len(),
            ),
            price_ring: PriceRingView::fresh(before.price_ring_bump),
            price_ring_bump: before.price_ring_bump,
        }
    } else {
        before
    }
}

/// Sets up price tracking for a pool and its two vaults.
///
/// On fresh storage this writes the registration record, which lists the
/// pool and the two vaults in this order, each as an account that neither
/// signs nor is written to, and sets the ring up with the bump of its
/// address. On any other storage it fails with
/// [`ErrorCode::AllocationConflict`] and changes nothing.
pub fn initialize_extra_account_meta_list(
    ctx: &mut InitializeExtraAccountMetaList,
    pool_id: KeyBytes,
    token_0_vault: KeyBytes,
    token_1_vault: KeyBytes,
) -> (r: Result<(), ErrorCode>)
    ensures
        r == setup_outcome(old(ctx)@.extra_account_meta_list),
        final(ctx)@ == setup_effect(old(ctx)@, pool_id, token_0_vault, token_1_vault),
        r is Ok ==> final(ctx).price_ring.well_formed(),
        r is Err ==> final(ctx)@ == old(ctx)@,
{
    write_registration(
        &mut ctx.extra_account_meta_list,
        &pool_id,
        &token_0_vault,
        &token_1_vault,
    )?;
    ctx.price_ring.initialize(ctx.price_ring_bump);
    Ok(())
}

/// Set-up runs once. After a set-up that went through, the storage is no
/// longer fresh: a second set-up, for whatever pool and vaults, fails with
/// [`ErrorCode::AllocationConflict`] and leaves record and ring as the first
/// one made them. The storage is not empty either, so the transfer hook sees
/// that set-up has run.
pub proof fn lemma_setup_runs_once(
    before: InitializeExtraAccountMetaListView,
    pool_id: KeyBytes,
    token_0_vault: KeyBytes,
    token_1_vault: KeyBytes,
    other_pool_id: KeyBytes,
    other_token_0_vault: KeyBytes,
    other_token_1_vault: KeyBytes,
)
    requires
        setup_outcome(before.extra_account_meta_list) is Ok,
    ensures
        ({
            let after = setup_effect(before, pool_id, token_0_vault, token_1_vault);
            &&& after.extra_account_meta_list.len() > 0
            &&& setup_outcome(after.extra_account_meta_list) == Err::<(), ErrorCode>(
                ErrorCode::AllocationConflict,
            )
            &&& setup_effect(after, other_pool_id, other_token_0_vault, other_token_1_vault)
                == after
        }),
{
    let after = setup_effect(before, pool_id, token_0_vault, token_1_vault);
    assert(after.extra_account_meta_list[0] == EXECUTE_DISCRIMINATOR@[0]);
    assert(after.extra_account_meta_list[0] == 105);
}

} // verus!
