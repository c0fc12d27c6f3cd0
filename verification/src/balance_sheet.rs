//! Balance sheet composer: asset, liability and equity accounts of a
//! calendar year, with the year's net income attached.

use crate::aggregate::{
    account_period_totals, credit_total_in, debit_total_in, ledger_wf, lemma_distinct_subrange,
    lemma_sum_totals_le, lemma_sums_nonneg, lemma_totals_bounds, sum_credit_totals, sum_credits,
    sum_debit_totals, sum_debits,
};
use crate::classify::{spec_signed_balance, Classification};
use crate::date::Date;
use crate::models::{entries_balanced, Account, BalanceSheet, BalanceSheetRow, JournalEntry};
use crate::profit_loss::{calc_profit_loss, spec_net_income, spec_year_span};
use crate::trial_balance::account_active;
use vstd::prelude::*;

verus! {

/// The balance-sheet row of one account: the signed balance under the
/// account's sign convention (assets net debits, liabilities and equity
/// net credits).
pub open spec fn bs_row(a: Account, entries: Seq<JournalEntry>, from: Date, to: Date) -> BalanceSheetRow {
    BalanceSheetRow {
        account_id: a.id,
        account_code: a.code,
        account_name: a.name,
        amount: spec_signed_balance(
            a.classification,
            debit_total_in(entries, a.id, from, to),
            credit_total_in(entries, a.id, from, to),
        ) as i64,
    }
}

/// The rows of one classification, in chart order, active accounts only.
pub open spec fn bs_rows(
    accounts: Seq<Account>,
    entries: Seq<JournalEntry>,
    from: Date,
    to: Date,
    cls: Classification,
) -> Seq<BalanceSheetRow>
    decreases accounts.len(),
{
    if accounts.len() == 0 {
        Seq::empty()
    } else {
        let rest = bs_rows(accounts.drop_last(), entries, from, to, cls);
        if accounts.last().classification == cls && account_active(accounts.last(), entries, from, to) {
            rest.push(bs_row(accounts.last(), entries, from, to))
        } else {
            rest
        }
    }
}

/// Sum of the amounts of a row set.
pub open spec fn sum_bs_amounts(rows: Seq<BalanceSheetRow>) -> int
    decreases rows.len(),
{
    if rows.len() == 0 {
        0
    } else {
        sum_bs_amounts(rows.drop_last()) + rows.last().amount
    }
}

/// A classification's summed amounts stay inside the chart's summed
/// period totals taken both ways.
pub proof fn lemma_bs_sum_bounds(
    accounts: Seq<Account>,
    entries: Seq<JournalEntry>,
    from: Date,
    to: Date,
    cls: Classification,
)
    requires
        entries_balanced(entries),
        sum_debits(entries) + sum_credits(entries) <= i64::MAX,
    ensures
        -sum_debit_totals(accounts, entries, from, to) - sum_credit_totals(accounts, entries, from, to)
            <= sum_bs_amounts(bs_rows(accounts, entries, from, to, cls)) <= sum_debit_totals(
            accounts,
            entries,
            from,
            to,
        ) + sum_credit_totals(accounts, entries, from, to),
    decreases accounts.len(),
{
    if accounts.len() > 0 {
        lemma_bs_sum_bounds(accounts.drop_last(), entries, from, to, cls);
        lemma_totals_bounds(entries, accounts.last().id, from, to);
        lemma_sums_nonneg(entries);
        let rest = bs_rows(accounts.drop_last(), entries, from, to, cls);
        let row = bs_row(accounts.last(), entries, from, to);
        assert(rest.push(row).drop_last() =~= rest);
        assert(rest.push(row).last() == row);
    }
}

/// Builds the balance sheet of a calendar year: asset, liability and
/// equity rows in chart order, each section's total, and the year's net
/// income reconciled from the profit-and-loss statement.
pub fn calc_balance_sheet(
    accounts: &Vec<Account>,
    entries: &Vec<JournalEntry>,
    year: i32,
) -> (r: BalanceSheet)
    requires
        ledger_wf(accounts@, entries@),
        0 <= year <= 9999,
    ensures
        r.asset_rows@ == bs_rows(
            accounts@,
            entries@,
            spec_year_span(year).0,
            spec_year_span(year).1,
            Classification::Asset,
        ),
        r.liability_rows@ == bs_rows(
            accounts@,
            entries@,
            spec_year_span(year).0,
            spec_year_span(year).1,
            Classification::Liability,
        ),
        r.equity_rows@ == bs_rows(
            accounts@,
            entries@,
            spec_year_span(year).0,
            spec_year_span(year).1,
            Classification::Equity,
        ),
        r.total_assets == sum_bs_amounts(r.asset_rows@),
        r.total_liabilities == sum_bs_amounts(r.liability_rows@),
        r.total_equity == sum_bs_amounts(r.equity_rows@),
        r.net_income == spec_net_income(accounts@, entries@, year),
{
    let from = Date { year, month: 1, day: 1 };
    let to = Date { year, month: 12, day: 31 };
    let mut asset_rows: Vec<BalanceSheetRow> = Vec::new();
    let mut liability_rows: Vec<BalanceSheetRow> = Vec::new();
    let mut equity_rows: Vec<BalanceSheetRow> = Vec::new();
    let mut total_assets: i64 = 0;
    let mut total_liabilities: i64 = 0;
    let mut total_equity: i64 = 0;
    let mut i: usize = 0;
    while i < accounts.len()
        invariant
            i <= accounts@.len(),
            ledger_wf(accounts@, entries@),
            from == spec_year_span(year).0,
            to == spec_year_span(year).1,
            asset_rows@ == bs_rows(
                accounts@.subrange(0, i as int),
                entries@,
                from,
                to,
                Classification::Asset,
            ),
            liability_rows@ == bs_rows(
                accounts@.subrange(0, i as int),
                entries@,
                from,
                to,
                Classification::Liability,
            ),
            equity_rows@ == bs_rows(
                accounts@.subrange(0, i as int),
                entries@,
                from,
                to,
                Classification::Equity,
            ),
            total_assets == sum_bs_amounts(asset_rows@),
            total_liabilities == sum_bs_amounts(liability_rows@),
            total_equity == sum_bs_amounts(equity_rows@),
        decreases accounts@.len() - i,
    {
        let a = &accounts[i];
        let (d, c) = account_period_totals(entries, a.id, &from, &to);
        proof {
            let post = accounts@.subrange(0, i as int + 1);
            assert(post.drop_last() =~= accounts@.subrange(0, i as int));
            assert(post.last() == accounts@[i as int]);
            lemma_totals_bounds(entries@, a.id, from, to);
            lemma_sums_nonneg(entries@);
            lemma_distinct_subrange(accounts@, 0, i as int + 1);
            lemma_bs_sum_bounds(post, entries@, from, to, Classification::Asset);
            lemma_bs_sum_bounds(post, entries@, from, to, Classification::Liability);
            lemma_bs_sum_bounds(post, entries@, from, to, Classification::Equity);
            lemma_sum_totals_le(post, entries@, from, to);
        }
        let is_asset = matches!(a.classification, Classification::Asset);
        let is_liability = matches!(a.classification, Classification::Liability);
        let is_equity = matches!(a.classification, Classification::Equity);
        if (is_asset || is_liability || is_equity) && (d != 0 || c != 0) {
            let amount = if is_asset {
                d - c
            } else {
                c - d
            };
            let row = BalanceSheetRow {
                account_id: a.id,
                account_code: a.code,
                account_name: a.name.clone(),
                amount,
            };
            proof {
                assert(row == bs_row(accounts@[i as int], entries@, from, to));
            }
            if is_asset {
                proof {
                    assert(asset_rows@.push(row).drop_last() =~= asset_rows@);
                    assert(asset_rows@.push(row).last() == row);
                }
                asset_rows.push(row);
                total_assets = total_assets + amount;
            } else if is_liability {
                proof {
                    assert(liability_rows@.push(row).drop_last() =~= liability_rows@);
                    assert(liability_rows@.push(row).last() == row);
                }
                liability_rows.push(row);
                total_liabilities = total_liabilities + amount;
            } else {
                proof {
                    assert(equity_rows@.push(row).drop_last() =~= equity_rows@);
                    assert(equity_rows@.push(row).last() == row);
                }
                equity_rows.push(row);
                total_equity = total_equity + amount;
            }
        }
        i = i + 1;
    }
    proof {
        assert(accounts@.subrange(0, accounts@.len() as int) =~= accounts@);
    }
    let pl = calc_profit_loss(accounts, entries, year);
    BalanceSheet {
        asset_rows,
        liability_rows,
        equity_rows,
        total_assets,
        total_liabilities,
        total_equity,
        net_income: pl.net_income,
    }
}

} // verus!
