use blue_ledger::carryforward::apply_loss_carryforward;
use blue_ledger::date::{parse_date, period_range, Date};
use blue_ledger::depreciation::{calc_depreciation, depreciation_row};
use blue_ledger::final_statement::calc_rent_total;
use blue_ledger::models::{cost_valid, entry_amounts_valid, FixedAsset, LossCarryforward, RentDetail};

fn mk_asset(
    id: i64,
    year: i32,
    month: i32,
    day: i32,
    acquisition_cost: i64,
    depreciation_rate: i32,
    accumulated_dep: i64,
    is_active: bool,
) -> FixedAsset {
    FixedAsset {
        id,
        name: format!("asset-{}", id),
        acquisition_date: Date { year, month, day },
        acquisition_cost,
        useful_life: 5,
        depreciation_method: "straight-line".to_string(),
        depreciation_rate,
        accumulated_dep,
        memo: String::new(),
        is_active,
    }
}

fn mk_loss(id: i64, loss_year: i32, loss_amount: i64, u1: i64, u2: i64, u3: i64) -> LossCarryforward {
    LossCarryforward {
        id,
        loss_year,
        loss_amount,
        used_year_1: u1,
        used_year_2: u2,
        used_year_3: u3,
        memo: String::new(),
    }
}

fn mk_rent(id: i64, annual_total: i64, business_ratio: i32) -> RentDetail {
    RentDetail {
        id,
        payee_address: String::new(),
        payee_name: format!("payee-{}", id),
        rent_type: "office".to_string(),
        monthly_rent: 0,
        annual_total,
        business_ratio,
        memo: String::new(),
    }
}

#[test]
fn depreciation_first_year_prorates_by_month() {
    // Acquired in July: six months of the 20% straight-line charge.
    let asset = mk_asset(1, 2023, 7, 1, 1_200_000, 2000, 0, true);
    let row = depreciation_row(&asset, 2023).unwrap();
    assert_eq!(row.current_year_dep, 1_200_000 * 2000 / 10000 * 6 / 12);
    assert_eq!(row.current_year_dep, 120_000);
    assert_eq!(row.accumulated_dep_prev, 0);
    assert_eq!(row.accumulated_dep_end, 120_000);
    assert_eq!(row.book_value_end, 1_080_000);
}

#[test]
fn depreciation_later_year_takes_full_charge() {
    let asset = mk_asset(1, 2023, 7, 1, 1_200_000, 2000, 60_000, true);
    let row = depreciation_row(&asset, 2024).unwrap();
    assert_eq!(row.current_year_dep, 240_000);
    assert_eq!(row.accumulated_dep_end, 300_000);
    assert_eq!(row.book_value_end, 900_000);
}

#[test]
fn depreciation_acquisition_month_counts_in_full() {
    // Acquired in January: all twelve months, no reduction.
    let asset = mk_asset(1, 2023, 1, 20, 500_000, 2000, 0, true);
    let row = depreciation_row(&asset, 2023).unwrap();
    assert_eq!(row.current_year_dep, 100_000);
    // Acquired in December: one twelfth.
    let late = mk_asset(2, 2023, 12, 5, 500_000, 2000, 0, true);
    let row_late = depreciation_row(&late, 2023).unwrap();
    assert_eq!(row_late.current_year_dep, 100_000 / 12);
}

#[test]
fn depreciation_clamps_to_memorandum_value() {
    // A full-rate asset keeps the one-unit memorandum value.
    let asset = mk_asset(1, 2020, 1, 1, 100, 10000, 0, true);
    let row = depreciation_row(&asset, 2021).unwrap();
    assert_eq!(row.current_year_dep, 99);
    assert_eq!(row.accumulated_dep_end, 99);
    assert_eq!(row.book_value_end, 1);
    assert!(row.current_year_dep >= 0);
    assert!(row.accumulated_dep_end <= row.acquisition_cost - 1);
}

#[test]
fn depreciation_skips_inactive_future_and_exhausted_assets() {
    let inactive = mk_asset(1, 2020, 1, 1, 100_000, 2000, 0, false);
    assert!(depreciation_row(&inactive, 2024).is_none());
    let future = mk_asset(2, 2025, 1, 1, 100_000, 2000, 0, true);
    assert!(depreciation_row(&future, 2024).is_none());
    let exhausted = mk_asset(3, 2020, 1, 1, 100_000, 2000, 99_999, true);
    assert!(depreciation_row(&exhausted, 2024).is_none());
}

#[test]
fn depreciation_schedule_keeps_register_order() {
    let assets = vec![
        mk_asset(1, 2023, 7, 1, 1_200_000, 2000, 0, true),
        mk_asset(2, 2020, 1, 1, 100_000, 2000, 0, false),
        mk_asset(3, 2023, 1, 1, 600_000, 5000, 0, true),
    ];
    let rows = calc_depreciation(&assets, 2023);
    assert_eq!(rows.len(), 2);
    assert_eq!(rows[0].asset_id, 1);
    assert_eq!(rows[0].current_year_dep, 120_000);
    assert_eq!(rows[1].asset_id, 3);
    assert_eq!(rows[1].current_year_dep, 300_000);
}

#[test]
fn carryforward_applies_oldest_loss_within_window() {
    // A 2021 loss of 100,000 against 2023 income of 150,000.
    let losses = vec![mk_loss(1, 2021, 100_000, 0, 0, 0)];
    let summary = apply_loss_carryforward(&losses, 2023, 150_000);
    assert_eq!(summary.rows.len(), 1);
    assert_eq!(summary.rows[0].loss_year, 2021);
    assert_eq!(summary.rows[0].original_loss, 100_000);
    assert_eq!(summary.rows[0].already_used, 0);
    assert_eq!(summary.rows[0].applied_this_year, 100_000);
    assert_eq!(summary.rows[0].remaining, 0);
    assert_eq!(summary.total_applied, 100_000);
    assert_eq!(summary.income_before, 150_000);
    assert_eq!(summary.income_after, 50_000);
}

#[test]
fn carryforward_caps_at_remaining_income() {
    let losses = vec![mk_loss(1, 2022, 500_000, 0, 0, 0)];
    let summary = apply_loss_carryforward(&losses, 2023, 120_000);
    assert_eq!(summary.rows[0].applied_this_year, 120_000);
    assert_eq!(summary.rows[0].remaining, 380_000);
    assert_eq!(summary.total_applied, 120_000);
    assert_eq!(summary.income_after, 0);
    assert!(summary.total_applied >= 0);
    assert!(summary.total_applied <= summary.income_before);
    assert_eq!(summary.income_after, summary.income_before - summary.total_applied);
}

#[test]
fn carryforward_settled_slot_is_not_reapplied() {
    // Slot two already carries recorded usage: the record is reported
    // settled and absorbs nothing on a re-run.
    let losses = vec![mk_loss(1, 2021, 100_000, 0, 40_000, 0)];
    let summary = apply_loss_carryforward(&losses, 2023, 150_000);
    assert_eq!(summary.rows.len(), 1);
    assert_eq!(summary.rows[0].already_used, 40_000);
    assert_eq!(summary.rows[0].applied_this_year, 0);
    assert_eq!(summary.rows[0].remaining, 60_000);
    assert_eq!(summary.total_applied, 0);
    assert_eq!(summary.income_after, 150_000);
}

#[test]
fn carryforward_recomputation_is_stable() {
    let losses = vec![mk_loss(1, 2021, 100_000, 0, 0, 0), mk_loss(2, 2022, 30_000, 0, 0, 0)];
    let first = apply_loss_carryforward(&losses, 2023, 90_000);
    let second = apply_loss_carryforward(&losses, 2023, 90_000);
    assert_eq!(first.rows.len(), second.rows.len());
    assert_eq!(first.total_applied, second.total_applied);
    assert_eq!(first.income_after, second.income_after);
    for (a, b) in first.rows.iter().zip(second.rows.iter()) {
        assert_eq!(a, b);
    }
}

#[test]
fn carryforward_returns_empty_without_positive_income() {
    let losses = vec![mk_loss(1, 2022, 100_000, 0, 0, 0)];
    let zero = apply_loss_carryforward(&losses, 2023, 0);
    assert_eq!(zero.rows.len(), 0);
    assert_eq!(zero.total_applied, 0);
    assert_eq!(zero.income_after, 0);
    let negative = apply_loss_carryforward(&losses, 2023, -5000);
    assert_eq!(negative.rows.len(), 0);
    assert_eq!(negative.total_applied, 0);
    assert_eq!(negative.income_before, -5000);
    assert_eq!(negative.income_after, -5000);
}

#[test]
fn carryforward_skips_losses_outside_three_year_window() {
    let losses = vec![
        mk_loss(1, 2019, 70_000, 0, 0, 0),  // four years old: out of window
        mk_loss(2, 2023, 70_000, 0, 0, 0),  // the current year itself: out
    ];
    let summary = apply_loss_carryforward(&losses, 2023, 100_000);
    assert_eq!(summary.rows.len(), 0);
    assert_eq!(summary.total_applied, 0);
    assert_eq!(summary.income_after, 100_000);
}

#[test]
fn carryforward_skips_exhausted_losses() {
    let losses = vec![mk_loss(1, 2021, 100_000, 60_000, 40_000, 0)];
    let summary = apply_loss_carryforward(&losses, 2023, 50_000);
    assert_eq!(summary.rows.len(), 0);
    assert_eq!(summary.total_applied, 0);
}

#[test]
fn carryforward_consumes_oldest_first_and_stops_at_zero() {
    let losses = vec![
        mk_loss(1, 2021, 80_000, 0, 0, 0),
        mk_loss(2, 2022, 50_000, 0, 0, 0),
    ];
    let summary = apply_loss_carryforward(&losses, 2023, 60_000);
    // The older loss absorbs all the income; the newer one is never reached.
    assert_eq!(summary.rows.len(), 1);
    assert_eq!(summary.rows[0].loss_year, 2021);
    assert_eq!(summary.rows[0].applied_this_year, 60_000);
    assert_eq!(summary.rows[0].remaining, 20_000);
    assert_eq!(summary.total_applied, 60_000);
    assert_eq!(summary.income_after, 0);
}

#[test]
fn carryforward_spreads_across_records() {
    let losses = vec![
        mk_loss(1, 2021, 30_000, 0, 0, 0),
        mk_loss(2, 2022, 50_000, 0, 0, 0),
    ];
    let summary = apply_loss_carryforward(&losses, 2023, 100_000);
    assert_eq!(summary.rows.len(), 2);
    assert_eq!(summary.rows[0].applied_this_year, 30_000);
    assert_eq!(summary.rows[1].applied_this_year, 50_000);
    assert_eq!(summary.total_applied, 80_000);
    assert_eq!(summary.income_after, 20_000);
}

#[test]
fn rent_total_apportions_by_integer_percentage() {
    let rents = vec![mk_rent(1, 120_000, 50), mk_rent(2, 240_000, 100), mk_rent(3, 60_000, 0)];
    assert_eq!(calc_rent_total(&rents), 60_000 + 240_000);
}

#[test]
fn rent_total_floors_the_scaled_share() {
    let rents = vec![mk_rent(1, 999, 33)];
    assert_eq!(calc_rent_total(&rents), 329);
    let empty: Vec<RentDetail> = vec![];
    assert_eq!(calc_rent_total(&empty), 0);
}

#[test]
fn parse_date_reads_well_formed_dates() {
    assert_eq!(parse_date(b"2024-03-15"), Some(Date { year: 2024, month: 3, day: 15 }));
    assert_eq!(parse_date(b"0001-01-01"), Some(Date { year: 1, month: 1, day: 1 }));
    assert_eq!(parse_date(b"9999-12-31"), Some(Date { year: 9999, month: 12, day: 31 }));
}

#[test]
fn parse_date_rejects_other_shapes() {
    assert_eq!(parse_date(b"2024/03/15"), None);
    assert_eq!(parse_date(b"24-03-15"), None);
    assert_eq!(parse_date(b"2024-3-15"), None);
    assert_eq!(parse_date(b"2024-03-15 "), None);
    assert_eq!(parse_date(b""), None);
    assert_eq!(parse_date(b"2024-03-1x"), None);
}

#[test]
fn period_range_covers_month_or_year() {
    let (from, to) = period_range(2024, Some(3));
    assert_eq!(from, Date { year: 2024, month: 3, day: 1 });
    assert_eq!(to, Date { year: 2024, month: 3, day: 31 });
    let (from_y, to_y) = period_range(2024, None);
    assert_eq!(from_y, Date { year: 2024, month: 1, day: 1 });
    assert_eq!(to_y, Date { year: 2024, month: 12, day: 31 });
}

#[test]
fn date_order_matches_string_order() {
    let a = Date { year: 2023, month: 12, day: 31 };
    let b = Date { year: 2024, month: 1, day: 1 };
    assert!(a.le(&b));
    assert!(!b.le(&a));
    assert!(a.le(&a));
    let c = Date { year: 2024, month: 1, day: 2 };
    assert!(b.le(&c));
}

#[test]
fn entry_validation_requires_equal_positive_legs() {
    assert!(entry_amounts_valid(100, 100));
    assert!(!entry_amounts_valid(100, 99));
    assert!(!entry_amounts_valid(0, 0));
    assert!(!entry_amounts_valid(-5, -5));
    assert!(cost_valid(1));
    assert!(!cost_valid(0));
    assert!(!cost_valid(-10));
}
