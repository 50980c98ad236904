//! Trusted bindings to the host's deterministic address derivations.
//!
//! The planning layer works on plain 32-byte addresses; these two bindings
//! carry the actual derivations of the host runtime.

use vstd::prelude::*;

verus! {

/// The result of program-derived-address lookup for the given seeds and
/// program id: the derived 32-byte address with its bump seed, or nothing
/// in the statistically improbable case that no bump seed yields a valid
/// address. The result depends on the seeds and the program id alone.
pub uninterp spec fn pda_of(seeds: Seq<Seq<u8>>, program_id: Seq<u8>) -> Option<(Seq<u8>, u8)>;

/// The associated-token-account address of the given wallet and mint: a
/// 32-byte address that depends on the wallet and mint addresses alone.
pub uninterp spec fn ata_of(wallet: Seq<u8>, mint: Seq<u8>) -> Seq<u8>;

/// Relies on `solana_sdk::pubkey::Pubkey::try_find_program_address`: the
/// derived address and bump seed are a deterministic function of the seeds
/// and the program id, and an address is 32 bytes.
#[verifier::external_body]
pub(crate) fn try_find_program_address(seeds: &Vec<Vec<u8>>, program_id: &Vec<u8>) -> (r: Option<
    (Vec<u8>, u8),
>)
    requires
        program_id@.len() == 32,
    ensures
        r is Some <==> pda_of(seeds.deep_view(), program_id@) is Some,
        r matches Some(p) ==> Some((p.0@, p.1)) == pda_of(seeds.deep_view(), program_id@)
            && p.0@.len() == 32,
{
    let mut key = [0u8; 32];
    key.copy_from_slice(program_id.as_slice());
    let pid = solana_sdk::pubkey::Pubkey::new_from_array(key);
    let seed_slices: Vec<&[u8]> = seeds.iter().map(|s| s.as_slice()).collect();
    solana_sdk::pubkey::Pubkey::try_find_program_address(&seed_slices, &pid).map(
        |p: (solana_sdk::pubkey::Pubkey, u8)| (p.0.to_bytes().to_vec(), p.1),
    )
}

/// Relies on `spl_associated_token_account::get_associated_token_address`:
/// the associated token account address is a deterministic 32-byte function
/// of the wallet and mint addresses. The call aborts only in the
/// statistically improbable case that its internal bump-seed search finds
/// no valid address.
#[verifier::external_body]
pub(crate) fn get_associated_token_address(wallet: &Vec<u8>, mint: &Vec<u8>) -> (r: Vec<u8>)
    requires
        wallet@.len() == 32,
        mint@.len() == 32,
    ensures
        r@ == ata_of(wallet@, mint@),
        r@.len() == 32,
{
    let mut w = [0u8; 32];
    w.copy_from_slice(wallet.as_slice());
    let mut m = [0u8; 32];
    m.copy_from_slice(mint.as_slice());
    #[allow(deprecated)]
    let ata = spl_associated_token_account::get_associated_token_address(&w.into(), &m.into());
    ata.to_bytes().to_vec()
}

} // verus!
