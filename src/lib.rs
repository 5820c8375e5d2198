//! Supervisor of a local content-addressed storage node: lifecycle decisions, configuration
//! bootstrap, a time-bounded stats cache, proof-of-storage challenges, the earnings ledger and
//! run-at-login entries, each with its contract.

pub mod autostart;
pub mod bootstrap;
pub mod challenge;
pub mod error;
pub mod ledger;
pub mod supervisor;
pub mod text;
