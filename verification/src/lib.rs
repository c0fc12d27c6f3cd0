//! Statement derivation engine for a sole-proprietor double-entry ledger.
//!
//! Given a chart of accounts, a journal of two-leg balanced entries, a
//! fixed-asset register, rent records and a loss-history register, the
//! library derives the reporting artifacts of an annual filing: a trial
//! balance, a profit-and-loss statement, a balance sheet, a depreciation
//! schedule, a loss-carryforward application, monthly sales/purchase
//! rollups and one consolidated final statement.
//!
//! Every derivation is a pure function of the records it is handed; the
//! persistent store, text formatting and presentation live outside this
//! crate and pass plain values in and out.

pub mod aggregate;
pub mod balance_sheet;
pub mod carryforward;
pub mod classify;
pub mod date;
pub mod depreciation;
pub mod final_statement;
pub mod models;
pub mod monthly;
pub mod profit_loss;
pub mod trial_balance;
