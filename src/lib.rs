pub mod laws;
pub mod ledger;
pub mod model;
pub mod types;

pub use ledger::Ledger;
pub use model::LedgerView;
pub use types::{AccountId, Balance, Error, Event};
