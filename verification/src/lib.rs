//! A ledger of client accounts fed by deposits, withdrawals, disputes,
//! resolutions and chargebacks, read from CSV rows.
pub mod amount;
pub mod text;
pub mod types;
pub mod error;
pub mod ledger;
pub mod accounts;
pub mod dispatcher;
pub mod input_record_processor;
pub mod parser;
pub mod driver;
pub mod output;
pub mod laws;
pub mod operation_laws;
