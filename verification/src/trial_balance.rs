//! Trial balance composer: the balanced ledger snapshot for a period.

use crate::aggregate::{
    credit_total_in, debit_total_in, ledger_wf, lemma_distinct_subrange, lemma_sum_totals_covered,
    lemma_sum_totals_le, lemma_sums_in_eq, lemma_sums_nonneg, lemma_totals_bounds,
    account_period_totals, sum_credits, sum_debits,
};
use crate::classify::{signed_balance, spec_signed_balance};
use crate::date::{spec_period_range, period_range, Date};
use crate::models::{
    accounts_distinct, entries_balanced, entries_covered, Account, JournalEntry, TrialBalance,
    TrialBalanceRow,
};
use vstd::prelude::*;

verus! {

/// The account saw activity in the period: at least one leg total is
/// nonzero. Accounts with two zero totals are dropped from statements.
pub open spec fn account_active(a: Account, entries: Seq<JournalEntry>, from: Date, to: Date) -> bool {
    debit_total_in(entries, a.id, from, to) != 0 || credit_total_in(entries, a.id, from, to) != 0
}

/// The trial-balance row of one account: its period totals and the signed
/// balance under its classification's sign convention.
pub open spec fn tb_row(a: Account, entries: Seq<JournalEntry>, from: Date, to: Date) -> TrialBalanceRow {
    TrialBalanceRow {
        account_id: a.id,
        account_code: a.code,
        account_name: a.name,
        classification: a.classification,
        debit_total: debit_total_in(entries, a.id, from, to) as i64,
        credit_total: credit_total_in(entries, a.id, from, to) as i64,
        balance: spec_signed_balance(
            a.classification,
            debit_total_in(entries, a.id, from, to),
            credit_total_in(entries, a.id, from, to),
        ) as i64,
    }
}

/// The trial-balance rows for a period: one row per active account, in
/// chart order.
pub open spec fn tb_rows(
    accounts: Seq<Account>,
    entries: Seq<JournalEntry>,
    from: Date,
    to: Date,
) -> Seq<TrialBalanceRow>
    decreases accounts.len(),
{
    if accounts.len() == 0 {
        Seq::empty()
    } else {
        let rest = tb_rows(accounts.drop_last(), entries, from, to);
        if account_active(accounts.last(), entries, from, to) {
            rest.push(tb_row(accounts.last(), entries, from, to))
        } else {
            rest
        }
    }
}

/// Sum of the debit totals of a row set.
pub open spec fn sum_rows_debit(rows: Seq<TrialBalanceRow>) -> int
    decreases rows.len(),
{
    if rows.len() == 0 {
        0
    } else {
        sum_rows_debit(rows.drop_last()) + rows.last().debit_total
    }
}

/// Sum of the credit totals of a row set.
pub open spec fn sum_rows_credit(rows: Seq<TrialBalanceRow>) -> int
    decreases rows.len(),
{
    if rows.len() == 0 {
        0
    } else {
        sum_rows_credit(rows.drop_last()) + rows.last().credit_total
    }
}

/// Dropping inactive accounts loses nothing: the row sums equal the
/// per-account totals summed over the whole chart.
pub proof fn lemma_tb_rows_sums(
    accounts: Seq<Account>,
    entries: Seq<JournalEntry>,
    from: Date,
    to: Date,
)
    requires
        entries_balanced(entries),
        sum_debits(entries) + sum_credits(entries) <= i64::MAX,
    ensures
        sum_rows_debit(tb_rows(accounts, entries, from, to)) == crate::aggregate::sum_debit_totals(
            accounts,
            entries,
            from,
            to,
        ),
        sum_rows_credit(tb_rows(accounts, entries, from, to)) == crate::aggregate::sum_credit_totals(
            accounts,
            entries,
            from,
            to,
        ),
    decreases accounts.len(),
{
    if accounts.len() > 0 {
        lemma_tb_rows_sums(accounts.drop_last(), entries, from, to);
        lemma_totals_bounds(entries, accounts.last().id, from, to);
        lemma_sums_nonneg(entries);
        let rest = tb_rows(accounts.drop_last(), entries, from, to);
        let row = tb_row(accounts.last(), entries, from, to);
        assert(rest.push(row).drop_last() =~= rest);
        assert(rest.push(row).last() == row);
    }
}

/// Balance invariant: over any period of a well-formed ledger, the trial
/// balance's debit and credit grand totals agree, because both legs of
/// every balanced entry are counted exactly once across the chart.
pub proof fn lemma_trial_balance_balanced(
    accounts: Seq<Account>,
    entries: Seq<JournalEntry>,
    from: Date,
    to: Date,
)
    requires
        accounts_distinct(accounts),
        entries_covered(accounts, entries),
        entries_balanced(entries),
        sum_debits(entries) + sum_credits(entries) <= i64::MAX,
    ensures
        sum_rows_debit(tb_rows(accounts, entries, from, to)) == sum_rows_credit(
            tb_rows(accounts, entries, from, to),
        ),
{
    lemma_tb_rows_sums(accounts, entries, from, to);
    lemma_sum_totals_covered(accounts, entries, from, to);
    lemma_sums_in_eq(entries, from, to);
}

/// Builds the trial balance for a year, or for one month of it: one row
/// per active account in chart order, plus the two grand totals summed
/// over the returned rows.
pub fn calc_trial_balance(
    accounts: &Vec<Account>,
    entries: &Vec<JournalEntry>,
    year: i32,
    month: Option<i32>,
) -> (r: TrialBalance)
    requires
        ledger_wf(accounts@, entries@),
        0 <= year <= 9999,
        month matches Some(m) ==> 1 <= m <= 12,
    ensures
        r.rows@ == tb_rows(
            accounts@,
            entries@,
            spec_period_range(year, month).0,
            spec_period_range(year, month).1,
        ),
        r.debit_grand_total == sum_rows_debit(r.rows@),
        r.credit_grand_total == sum_rows_credit(r.rows@),
        r.debit_grand_total == r.credit_grand_total,
{
    let (from, to) = period_range(year, month);
    let mut rows: Vec<TrialBalanceRow> = Vec::new();
    let mut debit_grand: i64 = 0;
    let mut credit_grand: i64 = 0;
    let mut i: usize = 0;
    while i < accounts.len()
        invariant
            i <= accounts@.len(),
            ledger_wf(accounts@, entries@),
            from == spec_period_range(year, month).0,
            to == spec_period_range(year, month).1,
            rows@ == tb_rows(accounts@.subrange(0, i as int), entries@, from, to),
            debit_grand == sum_rows_debit(rows@),
            credit_grand == sum_rows_credit(rows@),
        decreases accounts@.len() - i,
    {
        let a = &accounts[i];
        let (d, c) = account_period_totals(entries, a.id, &from, &to);
        proof {
            assert(accounts@.subrange(0, i as int + 1).drop_last() =~= accounts@.subrange(
                0,
                i as int,
            ));
            assert(accounts@.subrange(0, i as int + 1).last() == accounts@[i as int]);
            lemma_totals_bounds(entries@, a.id, from, to);
            lemma_sums_nonneg(entries@);
            lemma_distinct_subrange(accounts@, 0, i as int + 1);
            lemma_tb_rows_sums(accounts@.subrange(0, i as int + 1), entries@, from, to);
            lemma_sum_totals_le(accounts@.subrange(0, i as int + 1), entries@, from, to);
        }
        if d != 0 || c != 0 {
            let balance = signed_balance(a.classification, d, c);
            let row = TrialBalanceRow {
                account_id: a.id,
                account_code: a.code,
                account_name: a.name.clone(),
                classification: a.classification,
                debit_total: d,
                credit_total: c,
                balance,
            };
            proof {
                let post = accounts@.subrange(0, i as int + 1);
                assert(rows@.push(row).drop_last() =~= rows@);
                assert(rows@.push(row).last() == row);
                assert(row == tb_row(accounts@[i as int], entries@, from, to));
                assert(rows@.push(row) == tb_rows(post, entries@, from, to));
                assert(sum_rows_debit(rows@.push(row)) == debit_grand + d);
                assert(sum_rows_credit(rows@.push(row)) == credit_grand + c);
            }
            rows.push(row);
            debit_grand = debit_grand + d;
            credit_grand = credit_grand + c;
        }
        i = i + 1;
    }
    proof {
        assert(accounts@.subrange(0, accounts@.len() as int) =~= accounts@);
        lemma_trial_balance_balanced(accounts@, entries@, from, to);
    }
    TrialBalance { rows, debit_grand_total: debit_grand, credit_grand_total: credit_grand }
}

} // verus!
