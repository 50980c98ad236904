//! Decoding of the stored byte form of a vault account.
//!
//! The host keeps each vault record as a little-endian byte string: an
//! 8-byte type tag, the owner and custody addresses (32 bytes each), the
//! five balance counters (8 bytes each), the creation timestamp (8 bytes)
//! and the derivation nonce (1 byte).

use vstd::prelude::*;
use vstd::bytes::spec_u64_from_le_bytes;
use vstd::bytes::u64_from_le_bytes;
use vstd::slice::slice_index_get;
use vstd::slice::slice_subrange;
use vstd::slice::slice_to_vec;
use crate::errors::Error;

verus! {

/// Length of the type tag that precedes the record fields.
pub const VAULT_ACCOUNT_TAG_LEN: usize = 8;

/// Least length of a stored vault account: tag, two 32-byte addresses,
/// five 8-byte counters, the 8-byte timestamp and the nonce byte.
pub const VAULT_ACCOUNT_LEN: usize = 121;

/// The raw field values read from a stored vault account.
#[derive(Debug, Clone)]
pub struct VaultAccountData {
    pub owner: Vec<u8>,
    pub token_account: Vec<u8>,
    pub total_balance: u64,
    pub locked_balance: u64,
    pub available_balance: u64,
    pub total_deposited: u64,
    pub total_withdrawn: u64,
    pub created_at: i64,
    pub bump: u8,
}

/// Reads the fields of a stored vault account.
///
/// Accepts exactly the byte strings long enough to hold every field; the
/// bytes after the last field are ignored.
pub fn parse_vault_account(data: &[u8]) -> (r: Result<VaultAccountData, Error>)
    ensures
        r is Ok <==> data@.len() >= VAULT_ACCOUNT_LEN,
        r is Err ==> r == Err::<VaultAccountData, Error>(Error::InvalidAccount),
        r matches Ok(v) ==> v.owner@ == data@.subrange(8, 40),
        r matches Ok(v) ==> v.token_account@ == data@.subrange(40, 72),
        r matches Ok(v) ==> v.total_balance == spec_u64_from_le_bytes(data@.subrange(72, 80)),
        r matches Ok(v) ==> v.locked_balance == spec_u64_from_le_bytes(data@.subrange(80, 88)),
        r matches Ok(v) ==> v.available_balance == spec_u64_from_le_bytes(data@.subrange(88, 96)),
        r matches Ok(v) ==> v.total_deposited == spec_u64_from_le_bytes(data@.subrange(96, 104)),
        r matches Ok(v) ==> v.total_withdrawn == spec_u64_from_le_bytes(data@.subrange(104, 112)),
        r matches Ok(v) ==> v.created_at == spec_u64_from_le_bytes(
            data@.subrange(112, 120),
        ) as i64,
        r matches Ok(v) ==> v.bump == data@[120],
{
    if data.len() < VAULT_ACCOUNT_LEN {
        return Err(Error::InvalidAccount);
    }
    let owner = slice_to_vec(slice_subrange(data, 8, 40));
    let token_account = slice_to_vec(slice_subrange(data, 40, 72));
    let total_balance = u64_from_le_bytes(slice_subrange(data, 72, 80));
    let locked_balance = u64_from_le_bytes(slice_subrange(data, 80, 88));
    let available_balance = u64_from_le_bytes(slice_subrange(data, 88, 96));
    let total_deposited = u64_from_le_bytes(slice_subrange(data, 96, 104));
    let total_withdrawn = u64_from_le_bytes(slice_subrange(data, 104, 112));
    let created_at = u64_from_le_bytes(slice_subrange(data, 112, 120)) as i64;
    let bump = *slice_index_get(data, 120);
    Ok(
        VaultAccountData {
            owner,
            token_account,
            total_balance,
            locked_balance,
            available_balance,
            total_deposited,
            total_withdrawn,
            created_at,
            bump,
        },
    )
}

} // verus!
