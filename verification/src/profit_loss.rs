//! Profit-and-loss composer: revenue and expense accounts of a calendar
//! year netted to income.

use crate::aggregate::{
    account_period_totals, credit_total_in, debit_total_in, ledger_wf, lemma_distinct_subrange,
    lemma_sum_totals_le, lemma_sums_nonneg, lemma_totals_bounds, sum_credit_totals, sum_credits,
    sum_debit_totals, sum_debits,
};
use crate::classify::Classification;
use crate::date::Date;
use crate::models::{entries_balanced, Account, JournalEntry, ProfitLoss, ProfitLossRow};
use crate::trial_balance::account_active;
use vstd::prelude::*;

verus! {

/// The whole-year period of the profit-and-loss statement.
pub open spec fn spec_year_span(year: i32) -> (Date, Date) {
    (Date { year, month: 1, day: 1 }, Date { year, month: 12, day: 31 })
}

/// A statement row's directional amount: revenue accounts net credits
/// against debits, expense accounts the reverse.
pub open spec fn pl_amount(cls: Classification, debit_total: int, credit_total: int) -> int {
    if cls == Classification::Revenue {
        credit_total - debit_total
    } else {
        debit_total - credit_total
    }
}

/// The profit-and-loss row of one account.
pub open spec fn pl_row(a: Account, entries: Seq<JournalEntry>, from: Date, to: Date) -> ProfitLossRow {
    ProfitLossRow {
        account_id: a.id,
        account_code: a.code,
        account_name: a.name,
        amount: pl_amount(
            a.classification,
            debit_total_in(entries, a.id, from, to),
            credit_total_in(entries, a.id, from, to),
        ) as i64,
    }
}

/// The rows of one classification, in chart order, active accounts only.
pub open spec fn pl_rows(
    accounts: Seq<Account>,
    entries: Seq<JournalEntry>,
    from: Date,
    to: Date,
    cls: Classification,
) -> Seq<ProfitLossRow>
    decreases accounts.len(),
{
    if accounts.len() == 0 {
        Seq::empty()
    } else {
        let rest = pl_rows(accounts.drop_last(), entries, from, to, cls);
        if accounts.last().classification == cls && account_active(accounts.last(), entries, from, to) {
            rest.push(pl_row(accounts.last(), entries, from, to))
        } else {
            rest
        }
    }
}

/// Sum of the amounts of a row set.
pub open spec fn sum_amounts(rows: Seq<ProfitLossRow>) -> int
    decreases rows.len(),
{
    if rows.len() == 0 {
        0
    } else {
        sum_amounts(rows.drop_last()) + rows.last().amount
    }
}

/// Net income of a calendar year: total revenue minus total expense.
pub open spec fn spec_net_income(accounts: Seq<Account>, entries: Seq<JournalEntry>, year: i32) -> int {
    sum_amounts(
        pl_rows(accounts, entries, spec_year_span(year).0, spec_year_span(year).1, Classification::Revenue),
    ) - sum_amounts(
        pl_rows(accounts, entries, spec_year_span(year).0, spec_year_span(year).1, Classification::Expense),
    )
}

/// A classification's summed amounts stay inside the chart's summed period
/// totals, whichever way the classification's sign convention points.
pub proof fn lemma_pl_sum_bounds(
    accounts: Seq<Account>,
    entries: Seq<JournalEntry>,
    from: Date,
    to: Date,
    cls: Classification,
)
    requires
        entries_balanced(entries),
        sum_debits(entries) + sum_credits(entries) <= i64::MAX,
    ensures
        -sum_debit_totals(accounts, entries, from, to) - sum_credit_totals(accounts, entries, from, to)
            <= sum_amounts(pl_rows(accounts, entries, from, to, cls)) <= sum_debit_totals(
            accounts,
            entries,
            from,
            to,
        ) + sum_credit_totals(accounts, entries, from, to),
        cls == Classification::Revenue ==> -sum_debit_totals(accounts, entries, from, to)
            <= sum_amounts(pl_rows(accounts, entries, from, to, cls)) <= sum_credit_totals(
            accounts,
            entries,
            from,
            to,
        ),
        cls == Classification::Expense ==> -sum_credit_totals(accounts, entries, from, to)
            <= sum_amounts(pl_rows(accounts, entries, from, to, cls)) <= sum_debit_totals(
            accounts,
            entries,
            from,
            to,
        ),
    decreases accounts.len(),
{
    if accounts.len() > 0 {
        lemma_pl_sum_bounds(accounts.drop_last(), entries, from, to, cls);
        lemma_totals_bounds(entries, accounts.last().id, from, to);
        lemma_sums_nonneg(entries);
        let rest = pl_rows(accounts.drop_last(), entries, from, to, cls);
        let row = pl_row(accounts.last(), entries, from, to);
        assert(rest.push(row).drop_last() =~= rest);
        assert(rest.push(row).last() == row);
    }
}

/// Builds the profit-and-loss statement of a calendar year: revenue and
/// expense rows in chart order, their totals, and net income.
pub fn calc_profit_loss(
    accounts: &Vec<Account>,
    entries: &Vec<JournalEntry>,
    year: i32,
) -> (r: ProfitLoss)
    requires
        ledger_wf(accounts@, entries@),
        0 <= year <= 9999,
    ensures
        r.revenue_rows@ == pl_rows(
            accounts@,
            entries@,
            spec_year_span(year).0,
            spec_year_span(year).1,
            Classification::Revenue,
        ),
        r.expense_rows@ == pl_rows(
            accounts@,
            entries@,
            spec_year_span(year).0,
            spec_year_span(year).1,
            Classification::Expense,
        ),
        r.total_revenue == sum_amounts(r.revenue_rows@),
        r.total_expense == sum_amounts(r.expense_rows@),
        r.net_income == r.total_revenue - r.total_expense,
        r.net_income == spec_net_income(accounts@, entries@, year),
{
    let from = Date { year, month: 1, day: 1 };
    let to = Date { year, month: 12, day: 31 };
    let mut revenue_rows: Vec<ProfitLossRow> = Vec::new();
    let mut expense_rows: Vec<ProfitLossRow> = Vec::new();
    let mut total_revenue: i64 = 0;
    let mut total_expense: i64 = 0;
    let mut i: usize = 0;
    while i < accounts.len()
        invariant
            i <= accounts@.len(),
            ledger_wf(accounts@, entries@),
            from == spec_year_span(year).0,
            to == spec_year_span(year).1,
            revenue_rows@ == pl_rows(
                accounts@.subrange(0, i as int),
                entries@,
                from,
                to,
                Classification::Revenue,
            ),
            expense_rows@ == pl_rows(
                accounts@.subrange(0, i as int),
                entries@,
                from,
                to,
                Classification::Expense,
            ),
            total_revenue == sum_amounts(revenue_rows@),
            total_expense == sum_amounts(expense_rows@),
        decreases accounts@.len() - i,
    {
        let a = &accounts[i];
        let (d, c) = account_period_totals(entries, a.id, &from, &to);
        proof {
            let post = accounts@.subrange(0, i as int + 1);
            assert(post.drop_last() =~= accounts@.subrange(0, i as int));
            assert(post.last() == accounts@[i as int]);
            lemma_totals_bounds(entries@, a.id, from, to);
            lemma_sums_nonneg(entries@);
            lemma_distinct_subrange(accounts@, 0, i as int + 1);
            lemma_pl_sum_bounds(post, entries@, from, to, Classification::Revenue);
            lemma_pl_sum_bounds(post, entries@, from, to, Classification::Expense);
            lemma_sum_totals_le(post, entries@, from, to);
        }
        let is_revenue = matches!(a.classification, Classification::Revenue);
        let is_expense = matches!(a.classification, Classification::Expense);
        if (is_revenue || is_expense) && (d != 0 || c != 0) {
            let amount = if is_revenue {
                c - d
            } else {
                d - c
            };
            let row = ProfitLossRow {
                account_id: a.id,
                account_code: a.code,
                account_name: a.name.clone(),
                amount,
            };
            proof {
                assert(row == pl_row(accounts@[i as int], entries@, from, to));
            }
            if is_revenue {
                proof {
                    assert(revenue_rows@.push(row).drop_last() =~= revenue_rows@);
                    assert(revenue_rows@.push(row).last() == row);
                }
                revenue_rows.push(row);
                total_revenue = total_revenue + amount;
            } else {
                proof {
                    assert(expense_rows@.push(row).drop_last() =~= expense_rows@);
                    assert(expense_rows@.push(row).last() == row);
                }
                expense_rows.push(row);
                total_expense = total_expense + amount;
            }
        }
        i = i + 1;
    }
    proof {
        assert(accounts@.subrange(0, accounts@.len() as int) =~= accounts@);
        lemma_pl_sum_bounds(accounts@, entries@, from, to, Classification::Revenue);
        lemma_pl_sum_bounds(accounts@, entries@, from, to, Classification::Expense);
        lemma_sum_totals_le(accounts@, entries@, from, to);
        lemma_sums_nonneg(entries@);
    }
    let net_income = total_revenue - total_expense;
    ProfitLoss { revenue_rows, expense_rows, total_revenue, total_expense, net_income }
}

} // verus!
