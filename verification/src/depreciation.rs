//! Depreciation engine: the proposed straight-line charge of each active
//! fixed asset for a target year, with first-year month proration and the
//! one-unit memorandum floor. The engine is advisory and writes nothing
//! back.

use crate::date::date_wf;
use crate::models::{DepreciationRow, FixedAsset};
use vstd::arithmetic::div_mod::{lemma_div_by_multiple, lemma_div_is_ordered, lemma_div_pos_is_pos};
use vstd::arithmetic::mul::{lemma_mul_inequality, lemma_mul_is_commutative};
use vstd::prelude::*;

verus! {

/// A register record the engine can price: positive cost, nonnegative
/// accumulated depreciation, a rate within the ten-thousandth scale, and a
/// well-formed acquisition date.
pub open spec fn asset_wf(a: FixedAsset) -> bool {
    &&& 1 <= a.acquisition_cost
    &&& 0 <= a.accumulated_dep
    &&& 0 <= a.depreciation_rate <= 10000
    &&& date_wf(a.acquisition_date)
}

/// Every asset of a register is well formed.
pub open spec fn assets_wf(s: Seq<FixedAsset>) -> bool {
    forall|i: int| 0 <= i < s.len() ==> asset_wf(#[trigger] s[i])
}

/// The asset takes a charge in the target year: it is active, the year is
/// not before acquisition, and the book value still sits above the
/// one-unit memorandum value.
pub open spec fn asset_due(a: FixedAsset, year: i32) -> bool {
    &&& a.is_active
    &&& year >= a.acquisition_date.year
    &&& a.acquisition_cost - a.accumulated_dep > 1
}

/// The full-year straight-line charge: cost times the fixed-point rate,
/// floored at the ten-thousandth scale.
pub open spec fn base_charge(a: FixedAsset) -> int {
    a.acquisition_cost * a.depreciation_rate / 10000
}

/// The charge after acquisition-year proration: in the acquisition year
/// only the months from acquisition through December count, the month of
/// acquisition as a full month.
pub open spec fn prorated_charge(a: FixedAsset, year: i32) -> int {
    if year == a.acquisition_date.year {
        base_charge(a) * (12 - a.acquisition_date.month + 1) / 12
    } else {
        base_charge(a)
    }
}

/// The reported current-year charge: the prorated charge, clamped so the
/// accumulated depreciation never passes `cost - 1`, and never negative.
pub open spec fn spec_current_year_dep(a: FixedAsset, year: i32) -> int {
    let clamped = if a.accumulated_dep + prorated_charge(a, year) >= a.acquisition_cost {
        a.acquisition_cost - a.accumulated_dep - 1
    } else {
        prorated_charge(a, year)
    };
    if clamped < 0 {
        0
    } else {
        clamped
    }
}

/// The schedule row of one due asset.
pub open spec fn dep_row(a: FixedAsset, year: i32) -> DepreciationRow {
    DepreciationRow {
        asset_id: a.id,
        asset_name: a.name,
        acquisition_date: a.acquisition_date,
        acquisition_cost: a.acquisition_cost,
        depreciation_method: a.depreciation_method,
        useful_life: a.useful_life,
        depreciation_rate: a.depreciation_rate,
        accumulated_dep_prev: a.accumulated_dep,
        current_year_dep: spec_current_year_dep(a, year) as i64,
        accumulated_dep_end: (a.accumulated_dep + spec_current_year_dep(a, year)) as i64,
        book_value_end: (a.acquisition_cost - a.accumulated_dep - spec_current_year_dep(
            a,
            year,
        )) as i64,
    }
}

/// The schedule for a target year: one row per due asset, register order.
pub open spec fn dep_rows(assets: Seq<FixedAsset>, year: i32) -> Seq<DepreciationRow>
    decreases assets.len(),
{
    if assets.len() == 0 {
        Seq::empty()
    } else {
        let rest = dep_rows(assets.drop_last(), year);
        if asset_due(assets.last(), year) {
            rest.push(dep_row(assets.last(), year))
        } else {
            rest
        }
    }
}

/// A scaled-down fraction stays between zero and the whole: with the rate
/// `r` inside the scale `s`, `x * r / s` lies in `[0, x]`.
pub proof fn lemma_scaled_fraction_bounds(x: int, r: int, s: int)
    requires
        0 <= x,
        0 <= r <= s,
        0 < s,
    ensures
        0 <= x * r / s <= x,
{
    lemma_mul_is_commutative(x, r);
    lemma_mul_is_commutative(x, s);
    lemma_mul_inequality(0, r, x);
    lemma_mul_inequality(r, s, x);
    lemma_div_pos_is_pos(x * r, s);
    lemma_div_is_ordered(x * r, x * s, s);
    lemma_div_by_multiple(x, s);
}

/// Depreciation bound: a due, well-formed asset takes a nonnegative
/// charge, and its accumulated depreciation ends at or below one unit
/// under the acquisition cost.
pub proof fn lemma_depreciation_bounds(a: FixedAsset, year: i32)
    requires
        asset_wf(a),
        asset_due(a, year),
    ensures
        0 <= spec_current_year_dep(a, year),
        a.accumulated_dep + spec_current_year_dep(a, year) <= a.acquisition_cost - 1,
{
    lemma_scaled_fraction_bounds(
        a.acquisition_cost as int,
        a.depreciation_rate as int,
        10000,
    );
    if year == a.acquisition_date.year {
        lemma_scaled_fraction_bounds(base_charge(a), 12 - a.acquisition_date.month + 1, 12);
    }
}

/// Prices one register record for the target year: `None` when the asset
/// is inactive, not yet acquired, or already reduced to the memorandum
/// value; otherwise the schedule row with the clamped charge.
pub fn depreciation_row(a: &FixedAsset, year: i32) -> (r: Option<DepreciationRow>)
    requires
        asset_wf(*a),
    ensures
        r is Some <==> asset_due(*a, year),
        r matches Some(row) ==> row == dep_row(*a, year),
        r matches Some(row) ==> 0 <= row.current_year_dep && row.accumulated_dep_end
            <= row.acquisition_cost - 1,
{
    if !a.is_active {
        return None;
    }
    if year < a.acquisition_date.year {
        return None;
    }
    let remaining = a.acquisition_cost - a.accumulated_dep;
    if remaining <= 1 {
        return None;
    }
    proof {
        lemma_depreciation_bounds(*a, year);
        lemma_scaled_fraction_bounds(
            a.acquisition_cost as int,
            a.depreciation_rate as int,
            10000,
        );
        if year == a.acquisition_date.year {
            lemma_scaled_fraction_bounds(base_charge(*a), 12 - a.acquisition_date.month + 1, 12);
        }
    }
    let mut dep: i64 = ((a.acquisition_cost as i128) * (a.depreciation_rate as i128)
        / 10000) as i64;
    if year == a.acquisition_date.year {
        let months = 12 - a.acquisition_date.month + 1;
        dep = (((dep as i128) * (months as i128)) / 12) as i64;
    }
    proof {
        assert(dep == prorated_charge(*a, year));
    }
    if (a.accumulated_dep as i128) + (dep as i128) >= a.acquisition_cost as i128 {
        dep = a.acquisition_cost - a.accumulated_dep - 1;
    }
    if dep < 0 {
        dep = 0;
    }
    let accumulated_end = a.accumulated_dep + dep;
    let book_value_end = a.acquisition_cost - accumulated_end;
    Some(
        DepreciationRow {
            asset_id: a.id,
            asset_name: a.name.clone(),
            acquisition_date: a.acquisition_date,
            acquisition_cost: a.acquisition_cost,
            depreciation_method: a.depreciation_method.clone(),
            useful_life: a.useful_life,
            depreciation_rate: a.depreciation_rate,
            accumulated_dep_prev: a.accumulated_dep,
            current_year_dep: dep,
            accumulated_dep_end: accumulated_end,
            book_value_end,
        },
    )
}

/// Builds the depreciation schedule for a target year: one row per due
/// asset, in register order.
pub fn calc_depreciation(assets: &Vec<FixedAsset>, year: i32) -> (r: Vec<DepreciationRow>)
    requires
        assets_wf(assets@),
    ensures
        r@ == dep_rows(assets@, year),
{
    let mut rows: Vec<DepreciationRow> = Vec::new();
    let mut i: usize = 0;
    while i < assets.len()
        invariant
            i <= assets@.len(),
            assets_wf(assets@),
            rows@ == dep_rows(assets@.subrange(0, i as int), year),
        decreases assets@.len() - i,
    {
        proof {
            assert(assets@.subrange(0, i as int + 1).drop_last() =~= assets@.subrange(0, i as int));
            assert(assets@.subrange(0, i as int + 1).last() == assets@[i as int]);
        }
        let row_opt = depreciation_row(&assets[i], year);
        match row_opt {
            Some(row) => {
                proof {
                    assert(rows@.push(row).drop_last() =~= rows@);
                    assert(rows@.push(row).last() == row);
                }
                rows.push(row);
            },
            None => {},
        }
        i = i + 1;
    }
    proof {
        assert(assets@.subrange(0, assets@.len() as int) =~= assets@);
    }
    rows
}

} // verus!
