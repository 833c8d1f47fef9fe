//! An escrow exchange for uniquely identified assets: owners list an asset for sale or
//! open it to swaps, buyers pay the exact price, offerors propose swaps that sellers
//! accept. The exchange keeps sales, trade offers and operation counters in a ledger,
//! and issues transfers to a custody service and payments, some of them tagged so that
//! their outcome is reported back to its completion handler.

pub mod contract;
pub mod error;
pub mod keys;
pub mod laws;
pub mod msg;
pub mod payment;
pub mod query;
pub mod response;
pub mod state;
pub mod store;
pub mod table;
