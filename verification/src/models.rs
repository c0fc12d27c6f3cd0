//! Ledger records and the derived reporting artifacts.
//!
//! The store owns the records; the engine borrows them per call and owns
//! only the transient artifacts it returns. Artifacts carry no identity and
//! are recomputed from scratch on each request.

use crate::classify::Classification;
use crate::date::Date;
use vstd::prelude::*;

verus! {

/// An account of the chart of accounts. The numeric code is the sort and
/// display key; the classification decides the sign convention.
#[derive(Clone, Debug)]
pub struct Account {
    pub id: i64,
    pub code: i32,
    pub name: String,
    pub classification: Classification,
}

/// A two-leg journal entry: one debit leg and one credit leg, each an
/// account reference and a positive amount. The store validates
/// `debit_amount == credit_amount > 0` at entry creation; the engine relies
/// on that invariant.
#[derive(Clone, Debug)]
pub struct JournalEntry {
    pub id: i64,
    pub date: Date,
    pub debit_account_id: i64,
    pub debit_account_name: Option<String>,
    pub debit_amount: i64,
    pub credit_account_id: i64,
    pub credit_account_name: Option<String>,
    pub credit_amount: i64,
    pub description: String,
    pub created_at: String,
}

/// A fixed asset of the depreciation register. The rate is a fixed-point
/// fraction in ten-thousandths; accumulated depreciation is written back by
/// an external year-close step, never by the engine.
#[derive(Clone, Debug)]
pub struct FixedAsset {
    pub id: i64,
    pub name: String,
    pub acquisition_date: Date,
    pub acquisition_cost: i64,
    pub useful_life: i32,
    pub depreciation_method: String,
    pub depreciation_rate: i32,
    pub accumulated_dep: i64,
    pub memo: String,
    pub is_active: bool,
}

/// One proposed depreciation charge for the target year.
#[derive(Clone, Debug)]
pub struct DepreciationRow {
    pub asset_id: i64,
    pub asset_name: String,
    pub acquisition_date: Date,
    pub acquisition_cost: i64,
    pub depreciation_method: String,
    pub useful_life: i32,
    pub depreciation_rate: i32,
    pub accumulated_dep_prev: i64,
    pub current_year_dep: i64,
    pub accumulated_dep_end: i64,
    pub book_value_end: i64,
}

/// A rent record; the annual total is apportioned by an integer business
/// percentage.
#[derive(Clone, Debug)]
pub struct RentDetail {
    pub id: i64,
    pub payee_address: String,
    pub payee_name: String,
    pub rent_type: String,
    pub monthly_rent: i64,
    pub annual_total: i64,
    pub business_ratio: i32,
    pub memo: String,
}

/// A historical net loss with three usage slots: how much of it was
/// consumed when the loss was one, two and three years old. The slots are
/// written by an external update once the engine's recommendation is
/// accepted; the engine never mutates them.
#[derive(Clone, Debug)]
pub struct LossCarryforward {
    pub id: i64,
    pub loss_year: i32,
    pub loss_amount: i64,
    pub used_year_1: i64,
    pub used_year_2: i64,
    pub used_year_3: i64,
    pub memo: String,
}

/// One loss record's share of the current year's application.
#[derive(Clone, Copy, Debug, PartialEq, Eq, Structural)]
pub struct LossCarryforwardApplied {
    pub loss_year: i32,
    pub original_loss: i64,
    pub already_used: i64,
    pub applied_this_year: i64,
    pub remaining: i64,
}

/// The loss-carryforward application for a target year.
#[derive(Clone, Debug)]
pub struct LossCarryforwardSummary {
    pub rows: Vec<LossCarryforwardApplied>,
    pub total_applied: i64,
    pub income_before: i64,
    pub income_after: i64,
}

/// Sales and purchases booked in one calendar month.
#[derive(Clone, Copy, Debug, PartialEq, Eq, Structural)]
pub struct MonthlySalesPurchase {
    pub month: i32,
    pub sales: i64,
    pub purchases: i64,
}

/// One trial-balance row: an account's period totals and its signed
/// balance under the account's sign convention.
#[derive(Clone, Debug)]
pub struct TrialBalanceRow {
    pub account_id: i64,
    pub account_code: i32,
    pub account_name: String,
    pub classification: Classification,
    pub debit_total: i64,
    pub credit_total: i64,
    pub balance: i64,
}

/// The balanced ledger snapshot for a period: per-account rows plus grand
/// totals, which agree for any ledger of balanced entries.
#[derive(Clone, Debug)]
pub struct TrialBalance {
    pub rows: Vec<TrialBalanceRow>,
    pub debit_grand_total: i64,
    pub credit_grand_total: i64,
}

/// One profit-and-loss row: a revenue or expense account netted to a
/// directional amount.
#[derive(Clone, Debug)]
pub struct ProfitLossRow {
    pub account_id: i64,
    pub account_code: i32,
    pub account_name: String,
    pub amount: i64,
}

/// The profit-and-loss statement for a calendar year.
#[derive(Clone, Debug)]
pub struct ProfitLoss {
    pub revenue_rows: Vec<ProfitLossRow>,
    pub expense_rows: Vec<ProfitLossRow>,
    pub total_revenue: i64,
    pub total_expense: i64,
    pub net_income: i64,
}

/// One balance-sheet row.
#[derive(Clone, Debug)]
pub struct BalanceSheetRow {
    pub account_id: i64,
    pub account_code: i32,
    pub account_name: String,
    pub amount: i64,
}

/// The balance sheet for a calendar year, with the year's net income
/// attached from the profit-and-loss statement.
#[derive(Clone, Debug)]
pub struct BalanceSheet {
    pub asset_rows: Vec<BalanceSheetRow>,
    pub liability_rows: Vec<BalanceSheetRow>,
    pub equity_rows: Vec<BalanceSheetRow>,
    pub total_assets: i64,
    pub total_liabilities: i64,
    pub total_equity: i64,
    pub net_income: i64,
}

/// The consolidated annual filing statement.
#[derive(Clone, Debug)]
pub struct FinalStatement {
    pub profit_loss: ProfitLoss,
    pub monthly: Vec<MonthlySalesPurchase>,
    pub annual_sales_total: i64,
    pub annual_purchases_total: i64,
    pub depreciation_rows: Vec<DepreciationRow>,
    pub depreciation_total: i64,
    pub rent_details: Vec<RentDetail>,
    pub rent_total: i64,
    pub balance_sheet: BalanceSheet,
    pub loss_carryforward: LossCarryforwardSummary,
}

/// The legs of a two-leg entry balance: equal amounts, strictly positive.
pub open spec fn entry_balanced(e: JournalEntry) -> bool {
    e.debit_amount == e.credit_amount && e.debit_amount > 0
}

/// Every entry of the journal balances.
pub open spec fn entries_balanced(s: Seq<JournalEntry>) -> bool {
    forall|i: int| 0 <= i < s.len() ==> entry_balanced(#[trigger] s[i])
}

/// Every entry carries a well-formed date.
pub open spec fn entry_dates_wf(s: Seq<JournalEntry>) -> bool {
    forall|i: int| 0 <= i < s.len() ==> crate::date::date_wf(#[trigger] s[i].date)
}

/// Account identities are pairwise distinct.
pub open spec fn accounts_distinct(s: Seq<Account>) -> bool {
    forall|i: int, j: int| 0 <= i < j < s.len() ==> s[i].id != s[j].id
}

/// The sequence holds an account with the given identity.
pub open spec fn has_account(s: Seq<Account>, id: i64) -> bool {
    exists|j: int| 0 <= j < s.len() && s[j].id == id
}

/// Both legs of every entry reference an account of the chart; the store
/// enforces this by referential integrity.
pub open spec fn entries_covered(accounts: Seq<Account>, entries: Seq<JournalEntry>) -> bool {
    forall|i: int|
        0 <= i < entries.len() ==> has_account(accounts, #[trigger] entries[i].debit_account_id)
            && has_account(accounts, entries[i].credit_account_id)
}

/// An entry's legs pass creation-time validation: equal amounts, at least
/// one unit. The store applies this check at the write boundary; the
/// engine's aggregations rely on it.
pub fn entry_amounts_valid(debit_amount: i64, credit_amount: i64) -> (r: bool)
    ensures
        r == (debit_amount == credit_amount && debit_amount > 0),
{
    debit_amount == credit_amount && debit_amount > 0
}

/// An asset's acquisition cost passes creation-time validation: at least
/// one unit.
pub fn cost_valid(acquisition_cost: i64) -> (r: bool)
    ensures
        r == (acquisition_cost > 0),
{
    acquisition_cost > 0
}

} // verus!
