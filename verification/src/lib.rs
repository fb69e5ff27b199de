//! Shared-expense accounting: a creator registers a bill with a total amount
//! and a fixed set of participants, the amount is split evenly, and each
//! participant marks its share paid. The bill settles once every participant
//! has paid. The ledger's state machine and its contracts live here; host
//! concerns (proving a caller's identity, durable storage, delivering
//! notifications) are modeled as plain values the ledger owns or is handed.

pub mod auth;
pub mod bill;
pub mod errors;
pub mod laws;
pub mod ledger;

pub use crate::auth::IdentityAuthenticator;
pub use crate::bill::Address;
pub use crate::bill::Bill;
pub use crate::errors::BillError;
pub use crate::ledger::BillSplitContract;
pub use crate::ledger::DataKey;
pub use crate::ledger::Notification;
