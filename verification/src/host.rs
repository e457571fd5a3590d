//! What the host ledger runtime computes for this module: the
//! deterministic escrow address assigned to a task identifier, and the
//! rent-exempt reserve mandated for an account of a given data size.

use vstd::prelude::*;
use crate::record::ESCROW_ACCOUNT_SPACE;

verus! {

/// The address and canonical derivation nonce ("bump") that the host
/// runtime's address-derivation rule assigns to this program's seed
/// prefix together with a task identifier, or `None` in the
/// statistically improbable case that no nonce yields a valid address.
pub uninterp spec fn escrow_pda(task_id: Seq<u8>) -> Option<(Seq<u8>, u8)>;

/// The minimum balance the host ledger mandates for an account of
/// `space` data bytes to stay allocated, under the default rent
/// parameters.
pub uninterp spec fn reserve_of(space: nat) -> u64;

/// Relies on solana_program's `Pubkey::try_find_program_address`, called
/// with this program's fixed id and the fixed seed prefix: the search
/// for the canonical nonce is deterministic, so the result is a function
/// of the task identifier alone, and a derived address is 32 bytes.
#[verifier::external_body]
pub(crate) fn find_escrow_address(task_id: &Vec<u8>) -> (r: Option<(Vec<u8>, u8)>)
    ensures
        match r {
            Some(p) => escrow_pda(task_id@) == Some((p.0@, p.1)) && p.0@.len() == 32,
            None => escrow_pda(task_id@) is None,
        },
{
    let program_id = solana_program::pubkey::Pubkey::new_from_array([
        39, 10, 176, 38, 29, 62, 37, 108, 50, 65, 15, 163, 11, 194, 8, 234, 182, 122, 42, 52,
        135, 102, 151, 85, 255, 228, 158, 18, 25, 4, 11, 131,
    ]);
    let seeds: [&[u8]; 2] = [b"task_escrow", task_id.as_slice()];
    solana_program::pubkey::Pubkey::try_find_program_address(&seeds, &program_id)
        .map(|(addr, bump)| (addr.to_bytes().to_vec(), bump))
}

/// Relies on solana_program's `Rent::minimum_balance` under the default
/// rent parameters: the result is a function of the data size alone.
/// Sizes far below the host's permitted data length are no cause for it
/// to fail.
#[verifier::external_body]
pub(crate) fn minimum_reserve(space: usize) -> (r: u64)
    requires
        space <= 4096,
    ensures
        r == reserve_of(space as nat),
{
    solana_program::rent::Rent::default().minimum_balance(space)
}

/// The deterministic escrow address and canonical nonce for a task
/// identifier: anyone who knows the identifier can reproduce it.
pub fn escrow_address(task_id: &Vec<u8>) -> (r: Option<(Vec<u8>, u8)>)
    ensures
        match r {
            Some(p) => escrow_pda(task_id@) == Some((p.0@, p.1)) && p.0@.len() == 32,
            None => escrow_pda(task_id@) is None,
        },
{
    find_escrow_address(task_id)
}

/// The reserve an escrow holding account must keep to stay allocated.
pub fn escrow_reserve() -> (r: u64)
    ensures
        r == reserve_of(ESCROW_ACCOUNT_SPACE as nat),
{
    minimum_reserve(ESCROW_ACCOUNT_SPACE)
}

} // verus!
