//! The registration record: the list of accounts that the token program has
//! to pass along with every transfer of the hooked mint.
//!
//! The record is written by `spl_tlv_account_resolution`, under the
//! discriminator of the transfer-hook interface's execute instruction. What
//! that crate does with fresh storage is stated here, byte for byte, and
//! believed; the rest of the library is proved from it.

use vstd::prelude::*;
use spl_tlv_account_resolution::account::ExtraAccountMeta;
use spl_tlv_account_resolution::solana_program_error::ProgramError;
use spl_tlv_account_resolution::solana_pubkey::Pubkey;
use spl_tlv_account_resolution::state::ExtraAccountMetaList;
use spl_transfer_hook_interface::instruction::ExecuteInstruction;
use crate::accounts::KeyBytes;
use crate::error::ErrorCode;

verus! {

/// One entry of a registration record: a fixed address, and whether the
/// account has to sign and may be written to.
#[derive(Clone, Copy, Debug)]
pub struct ExtraMeta {
    pub discriminator: u8,
    pub address_config: KeyBytes,
    pub is_signer: bool,
    pub is_writable: bool,
}

/// Discriminator of the transfer-hook interface's execute instruction, under
/// which the token program looks the record up.
pub const EXECUTE_DISCRIMINATOR: [u8; 8] = [105, 37, 101, 197, 75, 251, 102, 26];

/// Bytes of the record's header: discriminator, length of what follows, and
/// number of entries.
pub const RECORD_HEADER_LEN: usize = 16;

/// Bytes of one entry.
pub const ENTRY_LEN: usize = 35;

/// Bytes of the record that set-up writes, with its three entries.
pub const REGISTRATION_SPACE: usize = RECORD_HEADER_LEN + 3 * ENTRY_LEN;

/// Every byte is zero.
pub open spec fn zero_filled(bytes: Seq<u8>) -> bool {
    forall|i: int| 0 <= i < bytes.len() ==> bytes[i] == 0
}

/// `n` zero bytes.
pub open spec fn zeros(n: int) -> Seq<u8> {
    Seq::new(
        if n > 0 {
            n as nat
        } else {
            0
        },
        |i: int| 0u8,
    )
}

/// The four bytes of `n`, least significant first.
pub open spec fn le32(n: int) -> Seq<u8> {
    seq![
        (n % 256) as u8,
        (n / 256 % 256) as u8,
        (n / 65_536 % 256) as u8,
        (n / 16_777_216 % 256) as u8,
    ]
}

/// The byte that stands for a flag.
pub open spec fn flag_byte(flag: bool) -> u8 {
    if flag {
        1
    } else {
        0
    }
}

/// The bytes of one entry: discriminator, address, signer flag, writable
/// flag.
pub open spec fn entry_bytes(meta: ExtraMeta) -> Seq<u8> {
    seq![meta.discriminator] + meta.address_config@ + seq![
        flag_byte(meta.is_signer),
        flag_byte(meta.is_writable),
    ]
}

/// The bytes of the entries, one after the other.
pub open spec fn entries_bytes(metas: Seq<ExtraMeta>) -> Seq<u8>
    decreases metas.len(),
{
    if metas.len() == 0 {
        Seq::empty()
    } else {
        entries_bytes(metas.drop_last()) + entry_bytes(metas.last())
    }
}

/// The record that lists `metas` for the execute instruction: the
/// discriminator, the length in bytes of what follows it, the number of
/// entries, and the entries.
pub open spec fn execute_meta_list(metas: Seq<ExtraMeta>) -> Seq<u8> {
    EXECUTE_DISCRIMINATOR@ + le32(4 + ENTRY_LEN as int * metas.len()) + le32(metas.len() as int)
        + entries_bytes(metas)
}

/// The entry for an account at a fixed address.
pub open spec fn fixed_meta(key: KeyBytes, is_signer: bool, is_writable: bool) -> ExtraMeta {
    ExtraMeta { discriminator: 0, address_config: key, is_signer, is_writable }
}

#[verifier::external_type_specification]
#[verifier::external_body]
pub struct ExProgramError(ProgramError);

/// `ExtraAccountMeta::new_with_pubkey` of `spl_tlv_account_resolution`.
///
/// It always succeeds, and the entry it makes has discriminator zero, the
/// address as its configuration, and the two flags as given.
#[verifier::external_body]
fn meta_with_pubkey(
    key: &KeyBytes,
    is_signer: bool,
    is_writable: bool,
) -> (r: Result<ExtraMeta, ProgramError>)
    ensures
        r is Ok,
        r->Ok_0 == fixed_meta(*key, is_signer, is_writable),
{
    let meta = ExtraAccountMeta::new_with_pubkey(&Pubkey::from(*key), is_signer, is_writable)?;
    Ok(
        ExtraMeta {
            discriminator: meta.discriminator,
            address_config: meta.address_config,
            is_signer: meta.is_signer.into(),
            is_writable: meta.is_writable.into(),
        },
    )
}

/// `ExtraAccountMetaList::size_of` of `spl_tlv_account_resolution`: the
/// bytes that a record of `num_items` entries takes.
///
/// The entries and the count before them are summed with overflow checked,
/// and that fails where the sum does not fit. The twelve bytes of
/// discriminator and length are then added saturating.
#[verifier::external_body]
fn meta_list_size(num_items: usize) -> (r: Result<usize, ProgramError>)
    ensures
        match r {
            Ok(size) => ENTRY_LEN * num_items + 4 <= usize::MAX && size == if ENTRY_LEN
                * num_items + RECORD_HEADER_LEN <= usize::MAX {
                ENTRY_LEN * num_items + RECORD_HEADER_LEN
            } else {
                usize::MAX as int
            },
            Err(_) => ENTRY_LEN * num_items + 4 > usize::MAX,
        },
{
    ExtraAccountMetaList::size_of(num_items)
}

/// `ExtraAccountMetaList::init::<ExecuteInstruction>` of
/// `spl_tlv_account_resolution`, on storage that is all zero.
///
/// On such storage the call cannot panic. It succeeds where the length of
/// the entries and their count fits in 32 bits and the storage has room for
/// the record; the storage then starts with [`execute_meta_list`] and is
/// zero behind it. Where it fails, the storage may have been written to.
#[verifier::external_body]
fn write_execute_meta_list(
    data: &mut Vec<u8>,
    metas: &Vec<ExtraMeta>,
) -> (r: Result<(), ProgramError>)
    requires
        zero_filled(old(data)@),
    ensures
        final(data)@.len() == old(data)@.len(),
        r is Ok <==> (4 + ENTRY_LEN * metas@.len() <= u32::MAX && RECORD_HEADER_LEN + ENTRY_LEN
            * metas@.len() <= old(data)@.len()),
        r is Ok ==> final(data)@ == execute_meta_list(metas@) + zeros(
            old(data)@.len() - RECORD_HEADER_LEN - ENTRY_LEN * metas@.len(),
        ),
{
    let metas: Vec<ExtraAccountMeta> = metas.iter().map(
        |m| ExtraAccountMeta {
            discriminator: m.discriminator,
            address_config: m.address_config,
            is_signer: m.is_signer.into(),
            is_writable: m.is_writable.into(),
        },
    ).collect();
    ExtraAccountMetaList::init::<ExecuteInstruction>(data.as_mut_slice(), &metas)
}

/// The entry for an account at a fixed address that neither signs nor is
/// written to.
pub open spec fn readonly_meta(key: KeyBytes) -> ExtraMeta {
    fixed_meta(key, false, false)
}

/// The three entries that set-up registers, in their order: the pool, then
/// its two vaults.
pub open spec fn pool_metas(pool_id: KeyBytes, token_0_vault: KeyBytes, token_1_vault: KeyBytes) -> Seq<
    ExtraMeta,
> {
    seq![readonly_meta(pool_id), readonly_meta(token_0_vault), readonly_meta(token_1_vault)]
}

/// Storage as the allocator hands it over: all zero, with room for the
/// record.
pub open spec fn fresh_storage(storage: Seq<u8>) -> bool {
    storage.len() >= REGISTRATION_SPACE as nat && zero_filled(storage)
}

/// The storage of a registration record after set-up: the record, and
/// zeros up to the storage's length.
pub open spec fn registration_record(
    pool_id: KeyBytes,
    token_0_vault: KeyBytes,
    token_1_vault: KeyBytes,
    len: nat,
) -> Seq<u8> {
    execute_meta_list(pool_metas(pool_id, token_0_vault, token_1_vault)) + zeros(
        len - REGISTRATION_SPACE as int,
    )
}

/// The bytes to allocate for the registration record.
pub fn registration_space() -> (size: usize)
    ensures
        size == REGISTRATION_SPACE,
{
    meta_list_size(3).unwrap()
}

/// Whether `storage` is as the allocator hands it over.
pub fn is_fresh_storage(storage: &Vec<u8>) -> (fresh: bool)
    ensures
        fresh == fresh_storage(storage@),
{
    if storage.len() < registration_space() {
        return false;
    }
    let mut i: usize = 0;
    while i < storage.len()
        invariant
            i <= storage.len(),
            forall|j: int| 0 <= j < i ==> storage@[j] == 0,
        decreases storage.len() - i,
    {
        if storage[i] != 0 {
            return false;
        }
        i += 1;
    }
    true
}

/// Writes the registration record of a pool and its two vaults into fresh
/// storage. Storage that is not fresh is refused with
/// [`ErrorCode::AllocationConflict`] and left as it is.
pub fn write_registration(
    storage: &mut Vec<u8>,
    pool_id: &KeyBytes,
    token_0_vault: &KeyBytes,
    token_1_vault: &KeyBytes,
) -> (r: Result<(), ErrorCode>)
    ensures
        r is Ok <==> fresh_storage(old(storage)@),
        r is Ok ==> final(storage)@ == registration_record(
            *pool_id,
            *token_0_vault,
            *token_1_vault,
            old(storage)@.len(),
        ),
        r is Err ==> r == Err::<(), ErrorCode>(ErrorCode::AllocationConflict) && final(storage)@
            == old(storage)@,
{
    if !is_fresh_storage(storage) {
        return Err(ErrorCode::AllocationConflict);
    }
    let mut metas: Vec<ExtraMeta> = Vec::new();
    metas.push(readonly_entry(pool_id));
    metas.push(readonly_entry(token_0_vault));
    metas.push(readonly_entry(token_1_vault));
    assert(metas@ =~= pool_metas(*pool_id, *token_0_vault, *token_1_vault));
    match write_execute_meta_list(storage, &metas) {
        Ok(()) => Ok(()),
        Err(_) => Err(ErrorCode::AllocationConflict),
    }
}

/// The entry for an account at `key` that neither signs nor is written to.
fn readonly_entry(key: &KeyBytes) -> (meta: ExtraMeta)
    ensures
        meta == readonly_meta(*key),
{
    meta_with_pubkey(key, false, false).unwrap()
}

} // verus!
