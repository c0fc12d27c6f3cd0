use blue_ledger::classify::Classification;
use blue_ledger::date::Date;
use blue_ledger::final_statement::calc_final_statement;
use blue_ledger::models::{Account, FixedAsset, JournalEntry, LossCarryforward, RentDetail};

fn chart() -> Vec<Account> {
    vec![
        Account { id: 1, code: 1100, name: "cash".to_string(), classification: Classification::Asset },
        Account {
            id: 2,
            code: 2100,
            name: "payable".to_string(),
            classification: Classification::Liability,
        },
        Account {
            id: 4,
            code: 4100,
            name: "sales".to_string(),
            classification: Classification::Revenue,
        },
        Account {
            id: 5,
            code: 5100,
            name: "purchases".to_string(),
            classification: Classification::Expense,
        },
    ]
}

fn journal_entry(
    id: i64,
    month: i32,
    day: i32,
    debit_account_id: i64,
    credit_account_id: i64,
    amount: i64,
) -> JournalEntry {
    JournalEntry {
        id,
        date: Date { year: 2024, month, day },
        debit_account_id,
        debit_account_name: None,
        debit_amount: amount,
        credit_account_id,
        credit_account_name: None,
        credit_amount: amount,
        description: String::new(),
        created_at: String::new(),
    }
}

#[test]
fn final_statement_composes_all_sections() {
    let accounts = chart();
    let entries = vec![
        // sales collected in cash across two months
        journal_entry(1, 2, 10, 1, 4, 300_000),
        journal_entry(2, 7, 5, 1, 4, 200_000),
        // purchases on credit
        journal_entry(3, 2, 15, 5, 2, 120_000),
    ];
    let assets = vec![FixedAsset {
        id: 1,
        name: "machine".to_string(),
        acquisition_date: Date { year: 2023, month: 7, day: 1 },
        acquisition_cost: 1_200_000,
        useful_life: 5,
        depreciation_method: "straight-line".to_string(),
        depreciation_rate: 2000,
        accumulated_dep: 120_000,
        memo: String::new(),
        is_active: true,
    }];
    let rents = vec![RentDetail {
        id: 1,
        payee_address: String::new(),
        payee_name: "landlord".to_string(),
        rent_type: "office".to_string(),
        monthly_rent: 10_000,
        annual_total: 120_000,
        business_ratio: 50,
        memo: String::new(),
    }];
    let losses = vec![LossCarryforward {
        id: 1,
        loss_year: 2022,
        loss_amount: 90_000,
        used_year_1: 0,
        used_year_2: 0,
        used_year_3: 0,
        memo: String::new(),
    }];

    let fs = calc_final_statement(&accounts, &entries, &assets, rents, &losses, 2024);

    // profit and loss
    assert_eq!(fs.profit_loss.total_revenue, 500_000);
    assert_eq!(fs.profit_loss.total_expense, 120_000);
    assert_eq!(fs.profit_loss.net_income, 380_000);

    // monthly rollup: twelve rows, bucketed, and the annual totals agree
    // with the sum over the rows
    assert_eq!(fs.monthly.len(), 12);
    assert_eq!(fs.monthly[1].sales, 300_000);
    assert_eq!(fs.monthly[1].purchases, 120_000);
    assert_eq!(fs.monthly[6].sales, 200_000);
    let monthly_sales_sum: i64 = fs.monthly.iter().map(|m| m.sales).sum();
    let monthly_purchases_sum: i64 = fs.monthly.iter().map(|m| m.purchases).sum();
    assert_eq!(fs.annual_sales_total, monthly_sales_sum);
    assert_eq!(fs.annual_purchases_total, monthly_purchases_sum);
    assert_eq!(fs.annual_sales_total, 500_000);
    assert_eq!(fs.annual_purchases_total, 120_000);

    // depreciation: the 2024 full-year charge, and the schedule total
    assert_eq!(fs.depreciation_rows.len(), 1);
    assert_eq!(fs.depreciation_rows[0].current_year_dep, 240_000);
    assert_eq!(fs.depreciation_total, 240_000);

    // rent apportionment
    assert_eq!(fs.rent_details.len(), 1);
    assert_eq!(fs.rent_total, 60_000);

    // balance sheet, with the year's net income attached
    assert_eq!(fs.balance_sheet.total_assets, 500_000);
    assert_eq!(fs.balance_sheet.total_liabilities, 120_000);
    assert_eq!(fs.balance_sheet.net_income, 380_000);

    // loss carryforward against the derived income
    assert_eq!(fs.loss_carryforward.income_before, 380_000);
    assert_eq!(fs.loss_carryforward.total_applied, 90_000);
    assert_eq!(fs.loss_carryforward.income_after, 290_000);
}
