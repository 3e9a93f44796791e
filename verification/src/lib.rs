//! A recurring-billing ledger.
//!
//! The library tracks subscription agreements between a payer and a payee,
//! computes when each subscription is due for renewal, settles a
//! percentage-based revenue split to a recipient's accrued balance, and lets
//! recipients withdraw accrued funds.
//!
//! The engine is pure state-transition logic over an explicit store value,
//! [`store::SubSor`]. The host environment around it supplies three external
//! collaborators, which the library takes as plain arguments instead of
//! calling them itself: the clock (a `now` argument, logical seconds), the
//! authorization oracle (a `caller` argument naming the principal that
//! authorized the running operation), and the persistence layer (the caller
//! owns the store value and keeps it between operations).

pub mod billing;
pub mod laws;
pub mod ledger;
pub mod query;
pub mod registry;
pub mod store;
pub mod types;

pub use store::SubSor;
pub use types::Address;
pub use types::DataKey;
pub use types::Error;
pub use types::RecipientBalance;
pub use types::Subscription;
