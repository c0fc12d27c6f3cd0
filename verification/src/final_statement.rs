//! Final statement assembler: composes the year's profit-and-loss
//! statement, balance sheet, depreciation schedule, loss-carryforward
//! application, monthly rollup and rent apportionment into one artifact.

use crate::aggregate::ledger_wf;
use crate::balance_sheet::{bs_rows, calc_balance_sheet, sum_bs_amounts};
use crate::carryforward::{
    calc_loss_carryforward, losses_wf, spec_summary_rows, spec_total_applied,
};
use crate::classify::Classification;
use crate::date::Date;
use crate::depreciation::{
    asset_due, assets_wf, calc_depreciation, dep_row, dep_rows, depreciation_row,
    lemma_depreciation_bounds, lemma_scaled_fraction_bounds,
};
use crate::models::{
    Account, DepreciationRow, FinalStatement, FixedAsset, JournalEntry, LossCarryforward,
    MonthlySalesPurchase, RentDetail,
};
use crate::monthly::{
    annual_purchases, annual_sales, calc_monthly_sales_purchases, lemma_annual_bounds,
    lemma_months_cover_year, lemma_sum_months_le, monthly_purchases, monthly_sales,
    sum_months_purchases, sum_months_sales,
};
use crate::profit_loss::{calc_profit_loss, pl_rows, spec_net_income, spec_year_span, sum_amounts};
use vstd::prelude::*;

verus! {

/// A rent record the apportionment can price: a nonnegative annual total
/// and an integer percentage.
pub open spec fn rent_wf(rd: RentDetail) -> bool {
    0 <= rd.annual_total && 0 <= rd.business_ratio <= 100
}

/// Every rent record is well formed.
pub open spec fn rents_wf(s: Seq<RentDetail>) -> bool {
    forall|i: int| 0 <= i < s.len() ==> rent_wf(#[trigger] s[i])
}

/// The business share of one rent record: the annual total scaled by the
/// integer business percentage, floored.
pub open spec fn rent_share(rd: RentDetail) -> int {
    rd.annual_total * rd.business_ratio / 100
}

/// Summed business shares of the rent register.
pub open spec fn sum_rent_shares(s: Seq<RentDetail>) -> int
    decreases s.len(),
{
    if s.len() == 0 {
        0
    } else {
        sum_rent_shares(s.drop_last()) + rent_share(s.last())
    }
}

/// Summed annual totals of the rent register.
pub open spec fn sum_annual_totals(s: Seq<RentDetail>) -> int
    decreases s.len(),
{
    if s.len() == 0 {
        0
    } else {
        sum_annual_totals(s.drop_last()) + s.last().annual_total
    }
}

/// The summed shares are nonnegative and never exceed the summed annual
/// totals.
pub proof fn lemma_rent_bounds(s: Seq<RentDetail>)
    requires
        rents_wf(s),
    ensures
        0 <= sum_rent_shares(s) <= sum_annual_totals(s),
    decreases s.len(),
{
    if s.len() > 0 {
        assert forall|i: int| 0 <= i < s.drop_last().len() implies rent_wf(
            #[trigger] s.drop_last()[i],
        ) by {
            assert(s.drop_last()[i] == s[i]);
        }
        lemma_rent_bounds(s.drop_last());
        assert(rent_wf(s[s.len() - 1]));
        assert(s.last() == s[s.len() - 1]);
        lemma_scaled_fraction_bounds(s.last().annual_total as int, s.last().business_ratio as int, 100);
    }
}

/// A prefix of the rent register never exceeds the whole register's
/// annual totals.
proof fn lemma_rent_prefix(s: Seq<RentDetail>, i: int)
    requires
        rents_wf(s),
        0 <= i <= s.len(),
    ensures
        0 <= sum_annual_totals(s.subrange(0, i)) <= sum_annual_totals(s),
    decreases s.len() - i,
{
    assert forall|k: int| 0 <= k < s.subrange(0, i).len() implies rent_wf(
        #[trigger] s.subrange(0, i)[k],
    ) by {
        assert(s.subrange(0, i)[k] == s[k]);
    }
    if i == s.len() {
        assert(s.subrange(0, i) =~= s);
        lemma_rent_nonneg(s);
    } else {
        lemma_rent_prefix(s, i + 1);
        assert(s.subrange(0, i + 1).drop_last() =~= s.subrange(0, i));
        assert(s.subrange(0, i + 1).last() == s[i]);
        assert(rent_wf(s[i]));
        lemma_rent_nonneg(s.subrange(0, i));
    }
}

/// Summed annual totals of a well-formed register are nonnegative.
proof fn lemma_rent_nonneg(s: Seq<RentDetail>)
    requires
        rents_wf(s),
    ensures
        0 <= sum_annual_totals(s),
    decreases s.len(),
{
    if s.len() > 0 {
        assert forall|i: int| 0 <= i < s.drop_last().len() implies rent_wf(
            #[trigger] s.drop_last()[i],
        ) by {
            assert(s.drop_last()[i] == s[i]);
        }
        lemma_rent_nonneg(s.drop_last());
        assert(rent_wf(s[s.len() - 1]));
        assert(s.last() == s[s.len() - 1]);
    }
}

/// Apportions the rent register: each record's annual total scaled by its
/// business percentage, floored, then summed.
pub fn calc_rent_total(rents: &Vec<RentDetail>) -> (r: i64)
    requires
        rents_wf(rents@),
        sum_annual_totals(rents@) <= i64::MAX,
    ensures
        r == sum_rent_shares(rents@),
        0 <= r,
{
    let mut total: i64 = 0;
    let mut i: usize = 0;
    while i < rents.len()
        invariant
            i <= rents@.len(),
            rents_wf(rents@),
            sum_annual_totals(rents@) <= i64::MAX,
            total == sum_rent_shares(rents@.subrange(0, i as int)),
            0 <= total,
        decreases rents@.len() - i,
    {
        let rd = &rents[i];
        proof {
            let post = rents@.subrange(0, i as int + 1);
            assert(post.drop_last() =~= rents@.subrange(0, i as int));
            assert(post.last() == rents@[i as int]);
            assert forall|k: int| 0 <= k < post.len() implies rent_wf(#[trigger] post[k]) by {
                assert(post[k] == rents@[k]);
            }
            lemma_rent_bounds(post);
            lemma_rent_prefix(rents@, i as int + 1);
            lemma_scaled_fraction_bounds(rd.annual_total as int, rd.business_ratio as int, 100);
        }
        let share: i64 = (((rd.annual_total as i128) * (rd.business_ratio as i128)) / 100) as i64;
        total = total + share;
        i = i + 1;
    }
    proof {
        assert(rents@.subrange(0, rents@.len() as int) =~= rents@);
    }
    total
}

/// Sum of the current-year charges of a schedule.
pub open spec fn sum_dep_rows(rows: Seq<DepreciationRow>) -> int
    decreases rows.len(),
{
    if rows.len() == 0 {
        0
    } else {
        sum_dep_rows(rows.drop_last()) + rows.last().current_year_dep
    }
}

/// Summed acquisition costs of the register.
pub open spec fn sum_costs(assets: Seq<FixedAsset>) -> int
    decreases assets.len(),
{
    if assets.len() == 0 {
        0
    } else {
        sum_costs(assets.drop_last()) + assets.last().acquisition_cost
    }
}

/// The schedule's total charge is nonnegative and never exceeds the
/// register's summed acquisition costs.
pub proof fn lemma_dep_total_bounds(assets: Seq<FixedAsset>, year: i32)
    requires
        assets_wf(assets),
    ensures
        0 <= sum_dep_rows(dep_rows(assets, year)) <= sum_costs(assets),
    decreases assets.len(),
{
    if assets.len() > 0 {
        assert forall|i: int| 0 <= i < assets.drop_last().len() implies crate::depreciation::asset_wf(
            #[trigger] assets.drop_last()[i],
        ) by {
            assert(assets.drop_last()[i] == assets[i]);
        }
        lemma_dep_total_bounds(assets.drop_last(), year);
        let a = assets.last();
        assert(a == assets[assets.len() - 1]);
        assert(crate::depreciation::asset_wf(assets[assets.len() - 1]));
        if asset_due(a, year) {
            lemma_depreciation_bounds(a, year);
            let rest = dep_rows(assets.drop_last(), year);
            let row = dep_row(a, year);
            assert(rest.push(row).drop_last() =~= rest);
            assert(rest.push(row).last() == row);
        }
    }
}

/// A prefix of the register never exceeds the whole register's summed
/// costs.
proof fn lemma_costs_prefix(assets: Seq<FixedAsset>, i: int)
    requires
        assets_wf(assets),
        0 <= i <= assets.len(),
    ensures
        0 <= sum_costs(assets.subrange(0, i)) <= sum_costs(assets),
    decreases assets.len() - i,
{
    lemma_costs_nonneg(assets.subrange(0, i));
    if i == assets.len() {
        assert(assets.subrange(0, i) =~= assets);
    } else {
        lemma_costs_prefix(assets, i + 1);
        assert(assets.subrange(0, i + 1).drop_last() =~= assets.subrange(0, i));
        assert(assets.subrange(0, i + 1).last() == assets[i]);
        assert(crate::depreciation::asset_wf(assets[i]));
    }
}

/// Summed costs of a well-formed register are nonnegative.
proof fn lemma_costs_nonneg(assets: Seq<FixedAsset>)
    ensures
        (forall|i: int|
            0 <= i < assets.len() ==> crate::depreciation::asset_wf(#[trigger] assets[i]))
            ==> 0 <= sum_costs(assets),
    decreases assets.len(),
{
    if assets.len() > 0 {
        lemma_costs_nonneg(assets.drop_last());
        assert forall|i: int| 0 <= i < assets.drop_last().len() implies assets.drop_last()[i]
            == assets[i] by {}
        assert(assets.last() == assets[assets.len() - 1]);
    }
}

/// The schedule's total charge for the year, summed from the register.
fn depreciation_schedule_total(assets: &Vec<FixedAsset>, year: i32) -> (r: i64)
    requires
        assets_wf(assets@),
        sum_costs(assets@) <= i64::MAX,
    ensures
        r == sum_dep_rows(dep_rows(assets@, year)),
        0 <= r,
{
    let mut total: i64 = 0;
    let mut i: usize = 0;
    while i < assets.len()
        invariant
            i <= assets@.len(),
            assets_wf(assets@),
            sum_costs(assets@) <= i64::MAX,
            total == sum_dep_rows(dep_rows(assets@.subrange(0, i as int), year)),
            0 <= total,
        decreases assets@.len() - i,
    {
        proof {
            let post = assets@.subrange(0, i as int + 1);
            assert(post.drop_last() =~= assets@.subrange(0, i as int));
            assert(post.last() == assets@[i as int]);
            assert forall|k: int| 0 <= k < post.len() implies crate::depreciation::asset_wf(
                #[trigger] post[k],
            ) by {
                assert(post[k] == assets@[k]);
            }
            lemma_dep_total_bounds(post, year);
            lemma_costs_prefix(assets@, i as int + 1);
            if asset_due(assets@[i as int], year) {
                lemma_depreciation_bounds(assets@[i as int], year);
                let rest = dep_rows(assets@.subrange(0, i as int), year);
                let row = dep_row(assets@[i as int], year);
                assert(rest.push(row).drop_last() =~= rest);
                assert(rest.push(row).last() == row);
            }
        }
        let row_opt = depreciation_row(&assets[i], year);
        match row_opt {
            Some(row) => {
                total = total + row.current_year_dep;
            },
            None => {},
        }
        i = i + 1;
    }
    proof {
        assert(assets@.subrange(0, assets@.len() as int) =~= assets@);
    }
    total
}

/// The annual sales and purchases totals, summed over the twelve monthly
/// rows.
fn annual_rollup_totals(
    accounts: &Vec<Account>,
    entries: &Vec<JournalEntry>,
    monthly: &Vec<MonthlySalesPurchase>,
    year: i32,
) -> (r: (i64, i64))
    requires
        ledger_wf(accounts@, entries@),
        monthly@.len() == 12,
        forall|k: int|
            0 <= k < 12 ==> (#[trigger] monthly@[k]).sales == monthly_sales(
                accounts@,
                entries@,
                year,
                k + 1,
            ) && monthly@[k].purchases == monthly_purchases(accounts@, entries@, year, k + 1),
    ensures
        r.0 == annual_sales(accounts@, entries@, year),
        r.1 == annual_purchases(accounts@, entries@, year),
{
    proof {
        lemma_months_cover_year(accounts@, entries@, year);
        lemma_annual_bounds(accounts@, entries@, year);
        crate::aggregate::lemma_sums_nonneg(entries@);
    }
    let mut sales_total: i64 = 0;
    let mut purchases_total: i64 = 0;
    let mut j: usize = 0;
    while j < 12
        invariant
            j <= 12,
            ledger_wf(accounts@, entries@),
            monthly@.len() == 12,
            forall|k: int|
                0 <= k < 12 ==> (#[trigger] monthly@[k]).sales == monthly_sales(
                    accounts@,
                    entries@,
                    year,
                    k + 1,
                ) && monthly@[k].purchases == monthly_purchases(accounts@, entries@, year, k + 1),
            sales_total == sum_months_sales(accounts@, entries@, year, j as int),
            purchases_total == sum_months_purchases(accounts@, entries@, year, j as int),
        decreases 12 - j,
    {
        proof {
            lemma_sum_months_le(accounts@, entries@, year, j as int + 1);
            lemma_months_cover_year(accounts@, entries@, year);
            lemma_annual_bounds(accounts@, entries@, year);
            crate::aggregate::lemma_sums_nonneg(entries@);
        }
        sales_total = sales_total + monthly[j].sales;
        purchases_total = purchases_total + monthly[j].purchases;
        j = j + 1;
    }
    proof {
        lemma_months_cover_year(accounts@, entries@, year);
    }
    (sales_total, purchases_total)
}

/// Composes the consolidated annual filing statement: the year's
/// profit-and-loss statement, twelve-month rollup with annual totals, the
/// depreciation schedule with its total charge, the rent register with
/// its apportioned total, the balance sheet, and the loss-carryforward
/// application.
pub fn calc_final_statement(
    accounts: &Vec<Account>,
    entries: &Vec<JournalEntry>,
    assets: &Vec<FixedAsset>,
    rents: Vec<RentDetail>,
    losses: &Vec<LossCarryforward>,
    year: i32,
) -> (r: FinalStatement)
    requires
        ledger_wf(accounts@, entries@),
        assets_wf(assets@),
        sum_costs(assets@) <= i64::MAX,
        rents_wf(rents@),
        sum_annual_totals(rents@) <= i64::MAX,
        losses_wf(losses@),
        0 <= year <= 9999,
    ensures
        r.profit_loss.revenue_rows@ == pl_rows(
            accounts@,
            entries@,
            spec_year_span(year).0,
            spec_year_span(year).1,
            Classification::Revenue,
        ),
        r.profit_loss.expense_rows@ == pl_rows(
            accounts@,
            entries@,
            spec_year_span(year).0,
            spec_year_span(year).1,
            Classification::Expense,
        ),
        r.profit_loss.total_revenue == sum_amounts(r.profit_loss.revenue_rows@),
        r.profit_loss.total_expense == sum_amounts(r.profit_loss.expense_rows@),
        r.profit_loss.net_income == spec_net_income(accounts@, entries@, year),
        r.monthly@.len() == 12,
        forall|k: int|
            0 <= k < 12 ==> (#[trigger] r.monthly@[k]).month == k + 1 && r.monthly@[k].sales
                == monthly_sales(accounts@, entries@, year, k + 1) && r.monthly@[k].purchases
                == monthly_purchases(accounts@, entries@, year, k + 1),
        r.annual_sales_total == annual_sales(accounts@, entries@, year),
        r.annual_purchases_total == annual_purchases(accounts@, entries@, year),
        r.depreciation_rows@ == dep_rows(assets@, year),
        r.depreciation_total == sum_dep_rows(dep_rows(assets@, year)),
        r.rent_details == rents,
        r.rent_total == sum_rent_shares(rents@),
        r.balance_sheet.asset_rows@ == bs_rows(
            accounts@,
            entries@,
            spec_year_span(year).0,
            spec_year_span(year).1,
            Classification::Asset,
        ),
        r.balance_sheet.liability_rows@ == bs_rows(
            accounts@,
            entries@,
            spec_year_span(year).0,
            spec_year_span(year).1,
            Classification::Liability,
        ),
        r.balance_sheet.equity_rows@ == bs_rows(
            accounts@,
            entries@,
            spec_year_span(year).0,
            spec_year_span(year).1,
            Classification::Equity,
        ),
        r.balance_sheet.total_assets == sum_bs_amounts(r.balance_sheet.asset_rows@),
        r.balance_sheet.total_liabilities == sum_bs_amounts(r.balance_sheet.liability_rows@),
        r.balance_sheet.total_equity == sum_bs_amounts(r.balance_sheet.equity_rows@),
        r.balance_sheet.net_income == spec_net_income(accounts@, entries@, year),
        r.loss_carryforward.income_before == spec_net_income(accounts@, entries@, year),
        r.loss_carryforward.rows@ == spec_summary_rows(
            losses@,
            year,
            spec_net_income(accounts@, entries@, year),
        ),
        r.loss_carryforward.total_applied == spec_total_applied(
            losses@,
            year,
            spec_net_income(accounts@, entries@, year),
        ),
        r.loss_carryforward.income_after == r.loss_carryforward.income_before
            - r.loss_carryforward.total_applied,
{
    let pl = calc_profit_loss(accounts, entries, year);
    let bs = calc_balance_sheet(accounts, entries, year);
    let monthly = calc_monthly_sales_purchases(accounts, entries, year);
    let dep_schedule = calc_depreciation(assets, year);
    let depreciation_total = depreciation_schedule_total(assets, year);
    let loss_cf = calc_loss_carryforward(accounts, entries, losses, year);
    let (annual_sales_total, annual_purchases_total) = annual_rollup_totals(
        accounts,
        entries,
        &monthly,
        year,
    );
    let rent_total = calc_rent_total(&rents);
    FinalStatement {
        profit_loss: pl,
        monthly,
        annual_sales_total,
        annual_purchases_total,
        depreciation_rows: dep_schedule,
        depreciation_total,
        rent_details: rents,
        rent_total,
        balance_sheet: bs,
        loss_carryforward: loss_cf,
    }
}

} // verus!
