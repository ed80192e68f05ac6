//! Reconciliation between a payment provider's billing records and the
//! local customer and subscription rows, with the decisions of the periodic
//! jobs that keep both in step.

pub mod model;
pub mod text;
pub mod ledger;
pub mod clock;
pub mod events;
pub mod poller;
pub mod store;
pub mod reconcile;
pub mod dispatch;
pub mod usage;
pub mod laws;

