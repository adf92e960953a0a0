//! The error taxonomy shared by the shop registry and the product ledger.

use vstd::prelude::*;

verus! {

/// Why a registry or ledger operation refused to commit.
///
/// Every kind is recoverable by the caller: the operation commits nothing
/// and reports which precondition failed.
#[derive(Clone, Copy, Debug, PartialEq, Eq)]
pub enum MarketError {
    /// A shop or product id collides with one already in the store.
    DuplicateId,
    /// No product or shop with the given id exists.
    NotFound,
    /// The purchased quantity exceeds the remaining supply.
    InsufficientStock,
    /// The buyer's available funds do not cover the total price.
    InsufficientFunds,
    /// The price computation exceeds the representable range.
    Overflow,
    /// The caller is not the owner of the resource it operates on.
    Unauthorized,
}

} // verus!
