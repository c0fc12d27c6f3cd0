use blue_ledger::balance_sheet::calc_balance_sheet;
use blue_ledger::classify::{signed_balance, Classification};
use blue_ledger::date::Date;
use blue_ledger::models::{Account, JournalEntry};
use blue_ledger::monthly::calc_monthly_sales_purchases;
use blue_ledger::profit_loss::calc_profit_loss;
use blue_ledger::trial_balance::calc_trial_balance;

fn mk_account(id: i64, code: i32, name: &str, classification: Classification) -> Account {
    Account { id, code, name: name.to_string(), classification }
}

fn mk_entry(
    id: i64,
    year: i32,
    month: i32,
    day: i32,
    debit_account_id: i64,
    credit_account_id: i64,
    amount: i64,
) -> JournalEntry {
    JournalEntry {
        id,
        date: Date { year, month, day },
        debit_account_id,
        debit_account_name: None,
        debit_amount: amount,
        credit_account_id,
        credit_account_name: None,
        credit_amount: amount,
        description: String::new(),
        created_at: String::new(),
    }
}

fn sample_chart() -> Vec<Account> {
    vec![
        mk_account(1, 1100, "cash", Classification::Asset),
        mk_account(2, 2100, "payable", Classification::Liability),
        mk_account(3, 3100, "capital", Classification::Equity),
        mk_account(4, 4100, "sales", Classification::Revenue),
        mk_account(5, 5100, "purchases", Classification::Expense),
    ]
}

#[test]
fn trial_balance_single_entry_balances() {
    let accounts = sample_chart();
    let entries = vec![mk_entry(1, 2024, 3, 15, 5, 4, 10000)];
    let tb = calc_trial_balance(&accounts, &entries, 2024, None);
    assert_eq!(tb.rows.len(), 2);
    assert_eq!(tb.rows[0].account_code, 4100);
    assert_eq!(tb.rows[0].debit_total, 0);
    assert_eq!(tb.rows[0].credit_total, 10000);
    assert_eq!(tb.rows[0].balance, 10000);
    assert_eq!(tb.rows[1].account_code, 5100);
    assert_eq!(tb.rows[1].debit_total, 10000);
    assert_eq!(tb.rows[1].credit_total, 0);
    assert_eq!(tb.rows[1].balance, 10000);
    assert_eq!(tb.debit_grand_total, 10000);
    assert_eq!(tb.credit_grand_total, 10000);
}

#[test]
fn trial_balance_grand_totals_agree_over_many_entries() {
    let accounts = sample_chart();
    let entries = vec![
        mk_entry(1, 2024, 1, 5, 1, 4, 40000),
        mk_entry(2, 2024, 2, 10, 5, 1, 15000),
        mk_entry(3, 2024, 6, 30, 1, 3, 90000),
        mk_entry(4, 2024, 12, 31, 5, 2, 7000),
    ];
    let tb = calc_trial_balance(&accounts, &entries, 2024, None);
    assert_eq!(tb.debit_grand_total, tb.credit_grand_total);
    assert_eq!(tb.debit_grand_total, 152000);
    let manual_debits: i64 = tb.rows.iter().map(|r| r.debit_total).sum();
    assert_eq!(tb.debit_grand_total, manual_debits);
}

#[test]
fn trial_balance_month_filter_selects_entries() {
    let accounts = sample_chart();
    let entries = vec![
        mk_entry(1, 2024, 3, 15, 5, 4, 10000),
        mk_entry(2, 2024, 4, 1, 5, 4, 500),
    ];
    let march = calc_trial_balance(&accounts, &entries, 2024, Some(3));
    assert_eq!(march.debit_grand_total, 10000);
    let april = calc_trial_balance(&accounts, &entries, 2024, Some(4));
    assert_eq!(april.debit_grand_total, 500);
    let may = calc_trial_balance(&accounts, &entries, 2024, Some(5));
    assert_eq!(may.rows.len(), 0);
    assert_eq!(may.debit_grand_total, 0);
    assert_eq!(may.credit_grand_total, 0);
}

#[test]
fn trial_balance_fixed_day_31_bound_is_inclusive() {
    let accounts = sample_chart();
    // A stored date on a day February lacks still falls inside the fixed
    // [01, 31] month band, exactly as lexicographic string comparison had it.
    let entries = vec![mk_entry(1, 2024, 2, 31, 5, 4, 300)];
    let feb = calc_trial_balance(&accounts, &entries, 2024, Some(2));
    assert_eq!(feb.debit_grand_total, 300);
    let march = calc_trial_balance(&accounts, &entries, 2024, Some(3));
    assert_eq!(march.rows.len(), 0);
}

#[test]
fn trial_balance_unknown_classification_contributes_zero_balance() {
    let accounts = vec![
        mk_account(1, 9999, "mystery", Classification::Other),
        mk_account(4, 4100, "sales", Classification::Revenue),
    ];
    let entries = vec![mk_entry(1, 2024, 5, 1, 1, 4, 800)];
    let tb = calc_trial_balance(&accounts, &entries, 2024, None);
    assert_eq!(tb.rows.len(), 2);
    assert_eq!(tb.rows[0].account_code, 9999);
    assert_eq!(tb.rows[0].debit_total, 800);
    assert_eq!(tb.rows[0].balance, 0);
    assert_eq!(tb.debit_grand_total, tb.credit_grand_total);
}

#[test]
fn trial_balance_empty_ledger_is_empty() {
    let accounts = sample_chart();
    let entries: Vec<JournalEntry> = vec![];
    let tb = calc_trial_balance(&accounts, &entries, 2024, None);
    assert_eq!(tb.rows.len(), 0);
    assert_eq!(tb.debit_grand_total, 0);
    assert_eq!(tb.credit_grand_total, 0);
}

#[test]
fn profit_loss_one_sale_one_purchase_nets_to_zero() {
    let accounts = sample_chart();
    let entries = vec![mk_entry(1, 2024, 3, 15, 5, 4, 10000)];
    let pl = calc_profit_loss(&accounts, &entries, 2024);
    assert_eq!(pl.revenue_rows.len(), 1);
    assert_eq!(pl.revenue_rows[0].account_code, 4100);
    assert_eq!(pl.revenue_rows[0].amount, 10000);
    assert_eq!(pl.expense_rows.len(), 1);
    assert_eq!(pl.expense_rows[0].account_code, 5100);
    assert_eq!(pl.expense_rows[0].amount, 10000);
    assert_eq!(pl.total_revenue, 10000);
    assert_eq!(pl.total_expense, 10000);
    assert_eq!(pl.net_income, 0);
}

#[test]
fn profit_loss_positive_income() {
    let accounts = sample_chart();
    let entries = vec![
        mk_entry(1, 2024, 1, 10, 1, 4, 150000),
        mk_entry(2, 2024, 2, 20, 5, 1, 60000),
    ];
    let pl = calc_profit_loss(&accounts, &entries, 2024);
    assert_eq!(pl.total_revenue, 150000);
    assert_eq!(pl.total_expense, 60000);
    assert_eq!(pl.net_income, 90000);
}

#[test]
fn profit_loss_ignores_other_years() {
    let accounts = sample_chart();
    let entries = vec![
        mk_entry(1, 2023, 12, 31, 1, 4, 7777),
        mk_entry(2, 2025, 1, 1, 1, 4, 8888),
    ];
    let pl = calc_profit_loss(&accounts, &entries, 2024);
    assert_eq!(pl.revenue_rows.len(), 0);
    assert_eq!(pl.expense_rows.len(), 0);
    assert_eq!(pl.net_income, 0);
}

#[test]
fn balance_sheet_sections_and_net_income() {
    let accounts = sample_chart();
    let entries = vec![
        // capital contribution: cash against equity
        mk_entry(1, 2024, 1, 1, 1, 3, 500000),
        // a sale collected in cash
        mk_entry(2, 2024, 3, 1, 1, 4, 120000),
        // a purchase on credit
        mk_entry(3, 2024, 4, 1, 5, 2, 45000),
    ];
    let bs = calc_balance_sheet(&accounts, &entries, 2024);
    assert_eq!(bs.asset_rows.len(), 1);
    assert_eq!(bs.asset_rows[0].account_code, 1100);
    assert_eq!(bs.asset_rows[0].amount, 620000);
    assert_eq!(bs.liability_rows.len(), 1);
    assert_eq!(bs.liability_rows[0].amount, 45000);
    assert_eq!(bs.equity_rows.len(), 1);
    assert_eq!(bs.equity_rows[0].amount, 500000);
    assert_eq!(bs.total_assets, 620000);
    assert_eq!(bs.total_liabilities, 45000);
    assert_eq!(bs.total_equity, 500000);
    assert_eq!(bs.net_income, 120000 - 45000);
    // the accounting identity holds for this ledger
    assert_eq!(bs.total_assets, bs.total_liabilities + bs.total_equity + bs.net_income);
}

#[test]
fn monthly_rollup_buckets_by_month() {
    let accounts = sample_chart();
    let entries = vec![mk_entry(1, 2024, 3, 15, 5, 4, 10000)];
    let rollup = calc_monthly_sales_purchases(&accounts, &entries, 2024);
    assert_eq!(rollup.len(), 12);
    for (k, row) in rollup.iter().enumerate() {
        assert_eq!(row.month, k as i32 + 1);
        if row.month == 3 {
            assert_eq!(row.sales, 10000);
            assert_eq!(row.purchases, 10000);
        } else {
            assert_eq!(row.sales, 0);
            assert_eq!(row.purchases, 0);
        }
    }
}

#[test]
fn monthly_rollup_always_has_twelve_rows() {
    let accounts = sample_chart();
    let entries: Vec<JournalEntry> = vec![];
    let rollup = calc_monthly_sales_purchases(&accounts, &entries, 2024);
    assert_eq!(rollup.len(), 12);
    for (k, row) in rollup.iter().enumerate() {
        assert_eq!(row.month, k as i32 + 1);
        assert_eq!(row.sales, 0);
        assert_eq!(row.purchases, 0);
    }
}

#[test]
fn monthly_rollup_counts_only_designated_codes() {
    let accounts = sample_chart();
    let entries = vec![
        // revenue booked against a non-sales account does not count as sales
        mk_entry(1, 2024, 5, 1, 1, 3, 999),
        // sales and purchases legs of designated codes count
        mk_entry(2, 2024, 5, 2, 1, 4, 300),
        mk_entry(3, 2024, 5, 3, 5, 1, 200),
    ];
    let rollup = calc_monthly_sales_purchases(&accounts, &entries, 2024);
    assert_eq!(rollup[4].sales, 300);
    assert_eq!(rollup[4].purchases, 200);
}

#[test]
fn signed_balance_follows_classification() {
    assert_eq!(signed_balance(Classification::Asset, 700, 200), 500);
    assert_eq!(signed_balance(Classification::Expense, 700, 200), 500);
    assert_eq!(signed_balance(Classification::Liability, 200, 700), 500);
    assert_eq!(signed_balance(Classification::Equity, 200, 700), 500);
    assert_eq!(signed_balance(Classification::Revenue, 200, 700), 500);
    assert_eq!(signed_balance(Classification::Other, 700, 200), 0);
}
