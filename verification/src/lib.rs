//! A minimal marketplace ledger: shops, the products they list, and the
//! inventory/ownership accounting that a purchase performs.
//!
//! The catalog (`by_id`) is the single source of truth; the by-owner and
//! by-shop indexes are derived views over it, so a mutation of a record is
//! visible through every index without re-insertion. Identity, funds and
//! payment settlement are external collaborators: every operation takes the
//! caller's identity and funds as plain arguments and returns the settlement
//! instruction it wants performed.

pub mod errors;
pub mod ids;
pub mod ledger;
pub mod records;
pub mod registry;

pub use errors::MarketError;
pub use ledger::ProductLedger;
pub use records::{ProductRecord, Settlement, ShopInfo};
pub use registry::ShopRegistry;
