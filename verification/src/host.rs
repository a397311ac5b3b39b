//! What the library has from the host: the one type of `soroban_sdk` that
//! passes through it. Nothing here is proved; what the item claims is said
//! above it.
//!
//! Neither the upstream feed nor the ledger's clock is asked from here: a
//! call into the host can end the whole invocation, and nothing stated of
//! its arguments can rule that out. The caller hands in the time, and the
//! feed as the functions that ask it.

use vstd::prelude::*;

verus! {

/// `soroban_sdk::Symbol`, carried through unread: the label of an asset that
/// has no on-chain address.
#[verifier::external_type_specification]
#[verifier::external_body]
pub struct ExSymbol(soroban_sdk::Symbol);

} // verus!
