//! Reconciles the daily close-out reports (Z-reports) of a cash register
//! with the entries of an accounting ledger, and drives the import of the
//! reports that no ledger entry books yet.

pub mod amount;
pub mod bokio;
pub mod cli;
pub mod date;
pub mod eskassa;
pub mod import;
pub mod ledger;
pub mod prompt;
pub mod reconcile;
pub mod select;
pub mod summary;
pub mod text;
