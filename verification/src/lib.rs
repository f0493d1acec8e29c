//! A ledger of identity and balance records kept at program-derived addresses.
//!
//! Every record lives at an address computed from a namespace tag, the owning
//! identity and, for balances, the asset symbol. The operations re-derive that
//! address before they touch a record, demand the signer's authorization, and
//! change amounts by checked arithmetic only.

pub mod address;
pub mod error;
pub mod instruction;
pub mod laws;
pub mod ledger;
pub mod name;
pub mod records;
pub mod storage;
pub mod store;
pub mod wire;
