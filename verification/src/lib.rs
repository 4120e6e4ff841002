//! Wallet-side pipeline for a shielded-note ledger: trial-decrypt the notes of
//! a fetched transaction, group the decrypted notes by sender, select the
//! notes owned by the local wallet as spends, and assemble the data a new
//! spending transaction needs before it is proved, signed and broadcast.
//!
//! Everything that decides or computes lives here and is verified; network
//! round trips and the cryptographic collaborator are driven from outside,
//! handing plain values in and out.

use vstd::prelude::*;

pub mod abi;
pub mod account;
pub mod amount;
pub mod errors;
pub mod hexcode;
pub mod notes;
pub mod select;
pub mod send;
pub mod witness;

verus! {

/// Number of smallest-denomination subunits (ore) in one human unit (iron).
pub const IRON_TO_ORE: u64 = 100_000_000;

/// Fixed validity window: a transaction with no explicit expiration expires
/// this many heights above the reported chain tip.
pub const EXPIRATION_WINDOW: u32 = 30;

/// Resolves the expiration height of a transaction under construction: an
/// explicitly requested height is used verbatim, otherwise the reported chain
/// height plus the fixed validity window.
pub fn resolve_expiration(explicit: Option<u32>, chain_height: u32) -> (r: u32)
    requires
        explicit is None ==> chain_height + EXPIRATION_WINDOW <= u32::MAX,
    ensures
        explicit matches Some(e) ==> r == e,
        explicit is None ==> r == chain_height + EXPIRATION_WINDOW,
{
    match explicit {
        Some(e) => e,
        None => chain_height + EXPIRATION_WINDOW,
    }
}

} // verus!
