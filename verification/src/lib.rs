//! An early-wage vault ledger for Soroban.
//!
//! An employer funds a vault, employees are registered against a remaining
//! salary, and an employee can draw part of it early for a fee. Later the rest
//! of the salary can be released and a new one set.
//!
//! `contract` holds the ledger and its operations, `model` says what each
//! operation does as a function on a mathematical ledger, `laws` proves what
//! follows for one call and for several, and `host` is the boundary to the
//! Soroban SDK, whose token contracts move the money.
pub mod balances;
pub mod contract;
pub mod error;
pub mod fee;
pub mod host;
pub mod laws;
pub mod layout;
pub mod model;
pub mod records;

pub use crate::contract::EarlyWageContract;
pub use crate::error::{LedgerError, TransferFault};
pub use crate::records::{BalanceQuery, EmployeeDetails, TokenInfo, TransferOrder};
