use spl_tlv_account_resolution::solana_pubkey::Pubkey;
use std::str::FromStr;
use twap_hook_cpmm::hook::evaluate;
use twap_hook_cpmm::{
    transfer_hook, transfer_hook_at, Decision, ErrorCode, HookOutcome, KeyBytes, MintInfo,
    PricePoint, PriceRing, Skip, TokenVault, TransferHookAccounts, RAYDIUM_CPMM_ID,
};

const MINT_A: KeyBytes = [0xA1; 32];
const MINT_B: KeyBytes = [0xB2; 32];
const MINT_C: KeyBytes = [0xC3; 32];

fn accounts(mint: KeyBytes, owner: KeyBytes, registration: Vec<u8>) -> TransferHookAccounts {
    TransferHookAccounts {
        mint,
        owner,
        extra_account_meta_list: registration,
        token_0_vault: TokenVault { mint: MINT_A, amount: 500 },
        token_1_vault: TokenVault { mint: MINT_B, amount: 1_000 },
        price_ring: PriceRing::new(255),
        mint_0: MintInfo { decimals: 6 },
        mint_1: MintInfo { decimals: 6 },
    }
}

fn used_ring() -> PriceRing {
    let mut ring = PriceRing::new(17);
    for i in 0..5 {
        ring.append(100 + i, 1_000 * (i + 1));
    }
    ring
}

fn same_ring(a: &PriceRing, b: &PriceRing) -> bool {
    a.head == b.head && a.bump == b.bump && a._pad == b._pad && a.points == b.points
}

#[test]
fn recognized_program_is_the_pool_program() {
    let id = Pubkey::from_str("CPMMoo8L3F4NbTegBCKVNunggL7H1ZpdTHKxQB5qKP1C").unwrap();
    assert_eq!(id.to_bytes(), RAYDIUM_CPMM_ID);
}

#[test]
fn absent_registration_is_a_no_op() {
    let mut ctx = accounts(MINT_A, RAYDIUM_CPMM_ID, vec![]);
    ctx.price_ring = used_ring();
    assert_eq!(transfer_hook_at(&mut ctx, 10), Ok(HookOutcome::Skipped(Skip::NotInitialized)));
    assert!(same_ring(&ctx.price_ring, &used_ring()));
    assert!(ctx.extra_account_meta_list.is_empty());
}

#[test]
fn absent_registration_wins_over_every_other_check() {
    // wrong authorizer and a mint outside the pair, but no registration
    let mut ctx = accounts(MINT_C, [1; 32], vec![]);
    assert_eq!(transfer_hook_at(&mut ctx, 10), Ok(HookOutcome::Skipped(Skip::NotInitialized)));
    assert!(same_ring(&ctx.price_ring, &PriceRing::new(255)));
}

#[test]
fn other_authorizer_is_skipped() {
    let mut ctx = accounts(MINT_A, [7; 32], vec![1; 121]);
    ctx.price_ring = used_ring();
    assert_eq!(transfer_hook_at(&mut ctx, 10), Ok(HookOutcome::Skipped(Skip::NotPoolTransfer)));
    assert!(same_ring(&ctx.price_ring, &used_ring()));
}

#[test]
fn authorizer_differing_in_last_byte_is_skipped() {
    let mut owner = RAYDIUM_CPMM_ID;
    owner[31] ^= 1;
    let mut ctx = accounts(MINT_A, owner, vec![1; 121]);
    assert_eq!(transfer_hook_at(&mut ctx, 10), Ok(HookOutcome::Skipped(Skip::NotPoolTransfer)));
    assert!(same_ring(&ctx.price_ring, &PriceRing::new(255)));
}

#[test]
fn other_authorizer_is_skipped_before_the_mint_is_looked_at() {
    let mut ctx = accounts(MINT_C, [7; 32], vec![1; 121]);
    assert_eq!(transfer_hook_at(&mut ctx, 10), Ok(HookOutcome::Skipped(Skip::NotPoolTransfer)));
}

#[test]
fn mint_outside_the_pair_is_rejected() {
    let mut ctx = accounts(MINT_C, RAYDIUM_CPMM_ID, vec![1; 121]);
    ctx.price_ring = used_ring();
    assert_eq!(transfer_hook_at(&mut ctx, 10), Err(ErrorCode::MintNotInPair));
    assert!(same_ring(&ctx.price_ring, &used_ring()));
}

#[test]
fn first_vault_as_base() {
    let mut ctx = accounts(MINT_A, RAYDIUM_CPMM_ID, vec![1; 121]);
    let point = PricePoint { slot: 10, price: 2_000_000 };
    assert_eq!(transfer_hook_at(&mut ctx, 10), Ok(HookOutcome::Sampled(point)));
    assert_eq!(ctx.price_ring.points[0], point);
    assert_eq!(ctx.price_ring.head, 1);
    assert_eq!(ctx.price_ring.bump, 255);
    assert!(ctx.price_ring.points[1..].iter().all(|p| *p == PricePoint::default()));
}

#[test]
fn second_vault_as_base() {
    let mut ctx = accounts(MINT_B, RAYDIUM_CPMM_ID, vec![1; 121]);
    let point = PricePoint { slot: 77, price: 500_000 };
    assert_eq!(transfer_hook_at(&mut ctx, 77), Ok(HookOutcome::Sampled(point)));
    assert_eq!(ctx.price_ring.points[0], point);
    assert_eq!(ctx.price_ring.head, 1);
}

#[test]
fn decimals_follow_the_base_side() {
    let mut ctx = accounts(MINT_A, RAYDIUM_CPMM_ID, vec![1; 121]);
    ctx.mint_0 = MintInfo { decimals: 9 };
    ctx.mint_1 = MintInfo { decimals: 6 };
    // 500 * 10^-9 base against 1000 * 10^-6 quote
    assert_eq!(
        transfer_hook_at(&mut ctx, 1),
        Ok(HookOutcome::Sampled(PricePoint { slot: 1, price: 2_000_000_000 }))
    );
    let mut ctx = accounts(MINT_B, RAYDIUM_CPMM_ID, vec![1; 121]);
    ctx.mint_0 = MintInfo { decimals: 9 };
    ctx.mint_1 = MintInfo { decimals: 6 };
    assert_eq!(
        transfer_hook_at(&mut ctx, 2),
        Ok(HookOutcome::Sampled(PricePoint { slot: 2, price: 500 }))
    );
}

#[test]
fn both_vaults_of_the_mint_take_the_first() {
    let mut ctx = accounts(MINT_A, RAYDIUM_CPMM_ID, vec![1; 121]);
    ctx.token_1_vault.mint = MINT_A;
    assert_eq!(
        transfer_hook_at(&mut ctx, 3),
        Ok(HookOutcome::Sampled(PricePoint { slot: 3, price: 2_000_000 }))
    );
}

#[test]
fn empty_base_vault_samples_zero() {
    let mut ctx = accounts(MINT_A, RAYDIUM_CPMM_ID, vec![1; 121]);
    ctx.token_0_vault.amount = 0;
    assert_eq!(
        transfer_hook_at(&mut ctx, 4),
        Ok(HookOutcome::Sampled(PricePoint { slot: 4, price: 0 }))
    );
    assert_eq!(ctx.price_ring.head, 1);
    assert_eq!(ctx.price_ring.points[0], PricePoint { slot: 4, price: 0 });
}

#[test]
fn price_overflow_aborts_without_a_write() {
    let mut ctx = accounts(MINT_A, RAYDIUM_CPMM_ID, vec![1; 121]);
    ctx.token_0_vault.amount = 1;
    ctx.token_1_vault.amount = u64::MAX;
    ctx.price_ring = used_ring();
    assert_eq!(transfer_hook_at(&mut ctx, 5), Err(ErrorCode::ArithmeticFault));
    assert!(same_ring(&ctx.price_ring, &used_ring()));
}

#[test]
fn samples_land_in_event_order() {
    let mut ctx = accounts(MINT_A, RAYDIUM_CPMM_ID, vec![1; 121]);
    for slot in 0..600u64 {
        ctx.token_1_vault.amount = 1_000 + slot;
        let price = (1_000 + slot) * 1_000_000 / 500;
        assert_eq!(
            transfer_hook_at(&mut ctx, slot),
            Ok(HookOutcome::Sampled(PricePoint { slot, price }))
        );
    }
    assert_eq!(ctx.price_ring.head as u64, 600 - 512);
    for i in 0..512u64 {
        let slot = 88 + i;
        let at = (88 + i) % 512;
        assert_eq!(
            ctx.price_ring.points[at as usize],
            PricePoint { slot, price: (1_000 + slot) * 1_000_000 / 500 }
        );
    }
}

#[test]
fn hook_leaves_the_other_accounts_alone() {
    let mut ctx = accounts(MINT_A, RAYDIUM_CPMM_ID, vec![3; 121]);
    transfer_hook_at(&mut ctx, 10).unwrap();
    assert_eq!(ctx.mint, MINT_A);
    assert_eq!(ctx.owner, RAYDIUM_CPMM_ID);
    assert_eq!(ctx.extra_account_meta_list, vec![3; 121]);
    assert_eq!(ctx.token_0_vault.mint, MINT_A);
    assert_eq!(ctx.token_0_vault.amount, 500);
    assert_eq!(ctx.token_1_vault.mint, MINT_B);
    assert_eq!(ctx.token_1_vault.amount, 1_000);
    assert_eq!(ctx.mint_0.decimals, 6);
    assert_eq!(ctx.mint_1.decimals, 6);
}

#[test]
fn evaluate_names_the_price_without_touching_the_ring() {
    let ctx = accounts(MINT_A, RAYDIUM_CPMM_ID, vec![1; 121]);
    assert_eq!(evaluate(&ctx), Ok(Decision::Sample(2_000_000)));
    assert!(same_ring(&ctx.price_ring, &PriceRing::new(255)));
    let ctx = accounts(MINT_B, RAYDIUM_CPMM_ID, vec![1; 121]);
    assert_eq!(evaluate(&ctx), Ok(Decision::Sample(500_000)));
}

#[test]
fn evaluate_skips_and_refuses() {
    assert_eq!(
        evaluate(&accounts(MINT_A, RAYDIUM_CPMM_ID, vec![])),
        Ok(Decision::Skip(Skip::NotInitialized))
    );
    assert_eq!(
        evaluate(&accounts(MINT_A, [7; 32], vec![1; 121])),
        Ok(Decision::Skip(Skip::NotPoolTransfer))
    );
    assert_eq!(
        evaluate(&accounts(MINT_C, RAYDIUM_CPMM_ID, vec![1; 121])),
        Err(ErrorCode::MintNotInPair)
    );
    let mut ctx = accounts(MINT_A, RAYDIUM_CPMM_ID, vec![1; 121]);
    ctx.token_0_vault.amount = 1;
    ctx.token_1_vault.amount = u64::MAX;
    assert_eq!(evaluate(&ctx), Err(ErrorCode::ArithmeticFault));
}

#[test]
fn hook_with_the_runtime_s_clock_skips_without_reading_it() {
    let mut ctx = accounts(MINT_A, RAYDIUM_CPMM_ID, vec![]);
    ctx.price_ring = used_ring();
    assert_eq!(transfer_hook(&mut ctx), Ok(HookOutcome::Skipped(Skip::NotInitialized)));
    assert!(same_ring(&ctx.price_ring, &used_ring()));

    let mut ctx = accounts(MINT_A, [7; 32], vec![1; 121]);
    ctx.price_ring = used_ring();
    assert_eq!(transfer_hook(&mut ctx), Ok(HookOutcome::Skipped(Skip::NotPoolTransfer)));
    assert!(same_ring(&ctx.price_ring, &used_ring()));
}

#[test]
fn hook_with_the_runtime_s_clock_refuses_before_reading_it() {
    let mut ctx = accounts(MINT_C, RAYDIUM_CPMM_ID, vec![1; 121]);
    ctx.price_ring = used_ring();
    assert_eq!(transfer_hook(&mut ctx), Err(ErrorCode::MintNotInPair));
    assert!(same_ring(&ctx.price_ring, &used_ring()));

    let mut ctx = accounts(MINT_A, RAYDIUM_CPMM_ID, vec![1; 121]);
    ctx.token_0_vault.amount = 1;
    ctx.token_1_vault.amount = u64::MAX;
    assert_eq!(transfer_hook(&mut ctx), Err(ErrorCode::ArithmeticFault));
    assert!(same_ring(&ctx.price_ring, &PriceRing::new(255)));
}

#[test]
fn without_a_runtime_there_is_no_clock_and_no_sample() {
    let mut ctx = accounts(MINT_A, RAYDIUM_CPMM_ID, vec![1; 121]);
    ctx.price_ring = used_ring();
    assert_eq!(transfer_hook(&mut ctx), Err(ErrorCode::ClockUnavailable));
    assert!(same_ring(&ctx.price_ring, &used_ring()));
}
