//! A verified ownership ledger for uniquely identified tokens of a collection.
//!
//! The ledger keeps a primary map from token id to token record, a derived
//! owner index for enumeration, scalar counters, and the collection metadata
//! singletons, and offers the minting, transfer, approval, burn and
//! metadata-update operations over them together with read-only,
//! expiration-aware queries.

pub mod errors;
pub mod laws;
pub mod ops;
pub mod order;
pub mod query;
pub mod state;
pub mod types;
pub mod update;
pub mod validate;
