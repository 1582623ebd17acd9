//! The transfer hook: decides whether a transfer is sampled, and records
//! the sample.
//!
//! The hook works in two steps. It first looks at the accounts and either
//! lets the transfer pass unsampled, refuses it, or names the price to
//! sample. Only then is the clock read, and the price recorded under its
//! slot.

use vstd::prelude::*;
use anchor_lang::prelude::{Clock, ProgramError, SolanaSysvar};
use crate::accounts::{
    keys_equal, KeyBytes, TransferHookAccounts, TransferHookAccountsView, RAYDIUM_CPMM_ID,
};
use crate::error::ErrorCode;
use crate::price::{compute_normalized_price, normalized_price};
use crate::ring::PricePoint;

verus! {

/// Which of the two vaults holds the token under observation. That vault is
/// the base side of the price, the other the quote side.
#[derive(Clone, Copy, Debug, PartialEq, Eq, Structural)]
pub enum BaseSide {
    Vault0,
    Vault1,
}

/// Why a transfer passes without being sampled.
#[derive(Clone, Copy, Debug, PartialEq, Eq, Structural)]
pub enum Skip {
    /// Set-up has not run yet.
    NotInitialized,
    /// The transfer was not authorized by the pool program.
    NotPoolTransfer,
}

/// What is decided of a transfer that is not refused.
#[derive(Clone, Copy, Debug, PartialEq, Eq, Structural)]
pub enum Decision {
    /// The transfer passes unsampled.
    Skip(Skip),
    /// The transfer is to be sampled at this price.
    Sample(u64),
}

/// What the hook did with a transfer that it let pass.
#[derive(Clone, Copy, Debug, PartialEq, Eq, Structural)]
pub enum HookOutcome {
    /// Nothing was sampled.
    Skipped(Skip),
    /// This observation was appended to the ring.
    Sampled(PricePoint),
}

/// The side whose vault holds `mint`, the first vault winning where both
/// do. `None` where neither does.
pub open spec fn spec_base_side(
    mint: KeyBytes,
    vault_0_mint: KeyBytes,
    vault_1_mint: KeyBytes,
) -> Option<BaseSide> {
    if vault_0_mint@ == mint@ {
        Some(BaseSide::Vault0)
    } else if vault_1_mint@ == mint@ {
        Some(BaseSide::Vault1)
    } else {
        None
    }
}

/// The price that a transfer is sampled at, as a mathematical integer: that
/// of the base side's token in the other side's.
pub open spec fn sample_price(ctx: TransferHookAccountsView, side: BaseSide) -> int {
    match side {
        BaseSide::Vault0 => normalized_price(
            ctx.token_0_vault.amount,
            ctx.token_1_vault.amount,
            ctx.mint_0.decimals,
            ctx.mint_1.decimals,
        ),
        BaseSide::Vault1 => normalized_price(
            ctx.token_1_vault.amount,
            ctx.token_0_vault.amount,
            ctx.mint_1.decimals,
            ctx.mint_0.decimals,
        ),
    }
}

/// What the accounts of a transfer decide of it.
///
/// Without a registration record, or for a transfer that the pool program
/// did not authorize, the transfer passes unsampled. Otherwise the mint
/// must be that of one of the vaults, and the price must fit in 64 bits.
pub open spec fn eligibility(ctx: TransferHookAccountsView) -> Result<Decision, ErrorCode> {
    if !ctx.provisioned() {
        Ok(Decision::Skip(Skip::NotInitialized))
    } else if !ctx.authorized() {
        Ok(Decision::Skip(Skip::NotPoolTransfer))
    } else {
        match spec_base_side(ctx.mint, ctx.token_0_vault.mint, ctx.token_1_vault.mint) {
            None => Err(ErrorCode::MintNotInPair),
            Some(side) => {
                let price = sample_price(ctx, side);
                if price > u64::MAX {
                    Err(ErrorCode::ArithmeticFault)
                } else {
                    Ok(Decision::Sample(price as u64))
                }
            },
        }
    }
}

/// What the hook answers to a transfer in slot `slot`: what the accounts
/// decide, with the price to sample made an observation at that slot.
pub open spec fn hook_decision(ctx: TransferHookAccountsView, slot: u64) -> Result<
    HookOutcome,
    ErrorCode,
> {
    match eligibility(ctx) {
        Err(e) => Err(e),
        Ok(Decision::Skip(why)) => Ok(HookOutcome::Skipped(why)),
        Ok(Decision::Sample(price)) => Ok(HookOutcome::Sampled(PricePoint { slot, price })),
    }
}

/// The accounts after the hook has answered a transfer in slot `slot`: with
/// the sample appended to the ring where the answer is a sample, and as they
/// were otherwise.
pub open spec fn hook_effect(ctx: TransferHookAccountsView, slot: u64) -> TransferHookAccountsView {
    match hook_decision(ctx, slot) {
        Ok(HookOutcome::Sampled(point)) => TransferHookAccountsView {
            price_ring: ctx.price_ring.append(point),
            ..ctx
        },
        _ => ctx,
    }
}

#[verifier::external_type_specification]
#[verifier::external_body]
pub struct ExSysvarError(ProgramError);

/// `Clock::get` of `anchor_lang`, for its slot: the clock that the runtime
/// keeps.
///
/// Nothing is promised of it. Outside the runtime there is no clock, and
/// the call fails.
#[verifier::external_body]
fn clock_slot() -> (r: Result<u64, ProgramError>) {
    Clock::get().map(|clock| clock.slot)
}

/// Finds the vault that holds the token under observation.
pub fn base_side(ctx: &TransferHookAccounts) -> (r: Result<BaseSide, ErrorCode>)
    ensures
        match spec_base_side(ctx.mint, ctx.token_0_vault.mint, ctx.token_1_vault.mint) {
            Some(side) => r == Ok::<BaseSide, ErrorCode>(side),
            None => r == Err::<BaseSide, ErrorCode>(ErrorCode::MintNotInPair),
        },
{
    if keys_equal(&ctx.token_0_vault.mint, &ctx.mint) {
        Ok(BaseSide::Vault0)
    } else if keys_equal(&ctx.token_1_vault.mint, &ctx.mint) {
        Ok(BaseSide::Vault1)
    } else {
        Err(ErrorCode::MintNotInPair)
    }
}

/// Decides from the accounts alone whether the transfer passes unsampled,
/// is refused, or is to be sampled, and at which price.
pub fn evaluate(ctx: &TransferHookAccounts) -> (r: Result<Decision, ErrorCode>)
    ensures
        r == eligibility(ctx@),
{
    if ctx.extra_account_meta_list.len() == 0 {
        return Ok(Decision::Skip(Skip::NotInitialized));
    }
    if !keys_equal(&ctx.owner, &RAYDIUM_CPMM_ID) {
        return Ok(Decision::Skip(Skip::NotPoolTransfer));
    }
    let side = base_side(ctx)?;
    let (reserve_base, reserve_quote, base_decimals, quote_decimals) = match side {
        BaseSide::Vault0 => (
            ctx.token_0_vault.amount,
            ctx.token_1_vault.amount,
            ctx.mint_0.decimals,
            ctx.mint_1.decimals,
        ),
        BaseSide::Vault1 => (
            ctx.token_1_vault.amount,
            ctx.token_0_vault.amount,
            ctx.mint_1.decimals,
            ctx.mint_0.decimals,
        ),
    };
    let price = compute_normalized_price(
        reserve_base,
        reserve_quote,
        base_decimals,
        quote_decimals,
    )?;
    Ok(Decision::Sample(price))
}

/// Handles one transfer that took place in slot `slot`.
///
/// The answer is [`hook_decision`] and the accounts are left as
/// [`hook_effect`] says: where the answer is a sample, the sample has been
/// appended to the ring; otherwise, after an error too, nothing has changed.
pub fn transfer_hook_at(ctx: &mut TransferHookAccounts, slot: u64) -> (r: Result<
    HookOutcome,
    ErrorCode,
>)
    ensures
        r == hook_decision(old(ctx)@, slot),
        final(ctx)@ == hook_effect(old(ctx)@, slot),
        r matches Ok(HookOutcome::Sampled(point)) ==> final(ctx).price_ring.well_formed(),
        // Without a registration record the transfer passes and nothing changes.
        !old(ctx)@.provisioned() ==> r == Ok::<HookOutcome, ErrorCode>(
            HookOutcome::Skipped(Skip::NotInitialized),
        ) && final(ctx)@ == old(ctx)@,
        // A transfer that the pool program did not authorize changes nothing.
        !old(ctx)@.authorized() ==> r is Ok && final(ctx)@ == old(ctx)@,
        // A mint that belongs to neither vault is refused, and nothing changes.
        old(ctx)@.provisioned() && old(ctx)@.authorized() && old(ctx).token_0_vault.mint@ != old(
            ctx,
        ).mint@ && old(ctx).token_1_vault.mint@ != old(ctx).mint@ ==> r == Err::<
            HookOutcome,
            ErrorCode,
        >(ErrorCode::MintNotInPair) && final(ctx)@ == old(ctx)@,
        // Every failure leaves the accounts as they were.
        r is Err ==> final(ctx)@ == old(ctx)@,
{
    match evaluate(ctx)? {
        Decision::Skip(why) => Ok(HookOutcome::Skipped(why)),
        Decision::Sample(price) => {
            ctx.price_ring.append(slot, price);
            Ok(HookOutcome::Sampled(PricePoint { slot, price }))
        },
    }
}

/// Handles one transfer, at the slot of the runtime's clock.
///
/// The clock is read only where a sample is due. Where the accounts let the
/// transfer pass or have it refused, that is the answer and nothing changes.
/// Where they ask for a sample, either the clock could be read, and the
/// answer and the accounts are those of [`transfer_hook_at`] for the slot
/// that was read; or it could not, and the transfer fails with
/// [`ErrorCode::ClockUnavailable`] and nothing changes.
pub fn transfer_hook(ctx: &mut TransferHookAccounts) -> (r: Result<HookOutcome, ErrorCode>)
    ensures
        match eligibility(old(ctx)@) {
            Err(e) => r == Err::<HookOutcome, ErrorCode>(e) && final(ctx)@ == old(ctx)@,
            Ok(Decision::Skip(why)) => r == Ok::<HookOutcome, ErrorCode>(
                HookOutcome::Skipped(why),
            ) && final(ctx)@ == old(ctx)@,
            Ok(Decision::Sample(price)) => match r {
                Ok(HookOutcome::Sampled(point)) => {
                    &&& point.price == price
                    &&& r == hook_decision(old(ctx)@, point.slot)
                    &&& final(ctx)@ == hook_effect(old(ctx)@, point.slot)
                    &&& final(ctx).price_ring.well_formed()
                },
                Ok(HookOutcome::Skipped(_)) => false,
                Err(e) => e == ErrorCode::ClockUnavailable && final(ctx)@ == old(ctx)@,
            },
        },
        // Without a registration record the transfer passes and nothing changes.
        !old(ctx)@.provisioned() ==> r == Ok::<HookOutcome, ErrorCode>(
            HookOutcome::Skipped(Skip::NotInitialized),
        ) && final(ctx)@ == old(ctx)@,
        // A transfer that the pool program did not authorize changes nothing.
        !old(ctx)@.authorized() ==> r is Ok && final(ctx)@ == old(ctx)@,
        // A mint that belongs to neither vault is refused, and nothing changes.
        old(ctx)@.provisioned() && old(ctx)@.authorized() && old(ctx).token_0_vault.mint@ != old(
            ctx,
        ).mint@ && old(ctx).token_1_vault.mint@ != old(ctx).mint@ ==> r == Err::<
            HookOutcome,
            ErrorCode,
        >(ErrorCode::MintNotInPair) && final(ctx)@ == old(ctx)@,
        // Every failure leaves the accounts as they were.
        r is Err ==> final(ctx)@ == old(ctx)@,
{
    match evaluate(ctx)? {
        Decision::Skip(why) => Ok(HookOutcome::Skipped(why)),
        Decision::Sample(price) => {
            let slot = match clock_slot() {
                Ok(slot) => slot,
                Err(_) => {
                    return Err(ErrorCode::ClockUnavailable);
                },
            };
            ctx.price_ring.append(slot, price);
            Ok(HookOutcome::Sampled(PricePoint { slot, price }))
        },
    }
}

} // verus!
