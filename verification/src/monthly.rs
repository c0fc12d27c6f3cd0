//! Monthly sales/purchases rollup: revenue booked against the designated
//! sales account code and expense booked against the designated purchases
//! account code, bucketed by calendar month, all twelve months always
//! present.

use crate::aggregate::{
    ledger_wf, lemma_balanced_subrange, lemma_sums_nonneg, lemma_sums_prefix_le, sum_credits,
    sum_debits,
};
use crate::models::{
    entries_balanced, entry_balanced, entry_dates_wf, Account, JournalEntry, MonthlySalesPurchase,
};
use vstd::prelude::*;

verus! {

/// The account code sales are booked against.
pub const SALES_ACCOUNT_CODE: i32 = 4100;

/// The account code purchases are booked against.
pub const PURCHASES_ACCOUNT_CODE: i32 = 5100;

/// The code of the first account carrying the identity, if any. Under a
/// distinct-identity chart this is the account's code.
pub open spec fn lookup_code(accounts: Seq<Account>, id: i64) -> Option<i32>
    decreases accounts.len(),
{
    if accounts.len() == 0 {
        Option::None
    } else if accounts.first().id == id {
        Option::Some(accounts.first().code)
    } else {
        lookup_code(accounts.drop_first(), id)
    }
}

/// Finds the code of the account carrying the identity.
pub fn find_account_code(accounts: &Vec<Account>, id: i64) -> (r: Option<i32>)
    ensures
        r == lookup_code(accounts@, id),
{
    let ghost len = accounts@.len() as int;
    let mut i: usize = 0;
    proof {
        assert(accounts@.subrange(0, len) =~= accounts@);
    }
    while i < accounts.len()
        invariant
            i <= accounts@.len(),
            len == accounts@.len(),
            lookup_code(accounts@, id) == lookup_code(accounts@.subrange(i as int, len), id),
        decreases accounts@.len() - i,
    {
        proof {
            assert(accounts@.subrange(i as int, len).first() == accounts@[i as int]);
            assert(accounts@.subrange(i as int, len).drop_first() =~= accounts@.subrange(
                i as int + 1,
                len,
            ));
        }
        if accounts[i].id == id {
            return Some(accounts[i].code);
        }
        i = i + 1;
    }
    None
}

/// The entry books a sale in the given month of the year: its credit leg
/// hits the sales account.
pub open spec fn sales_entry(accounts: Seq<Account>, e: JournalEntry, year: i32, m: int) -> bool {
    e.date.year == year && e.date.month == m && lookup_code(accounts, e.credit_account_id)
        == Option::Some(SALES_ACCOUNT_CODE)
}

/// The entry books a purchase in the given month of the year: its debit
/// leg hits the purchases account.
pub open spec fn purchase_entry(accounts: Seq<Account>, e: JournalEntry, year: i32, m: int) -> bool {
    e.date.year == year && e.date.month == m && lookup_code(accounts, e.debit_account_id)
        == Option::Some(PURCHASES_ACCOUNT_CODE)
}

/// Sales booked in one month of the year.
pub open spec fn monthly_sales(
    accounts: Seq<Account>,
    entries: Seq<JournalEntry>,
    year: i32,
    m: int,
) -> int
    decreases entries.len(),
{
    if entries.len() == 0 {
        0
    } else {
        monthly_sales(accounts, entries.drop_last(), year, m) + (if sales_entry(
            accounts,
            entries.last(),
            year,
            m,
        ) {
            entries.last().credit_amount as int
        } else {
            0
        })
    }
}

/// Purchases booked in one month of the year.
pub open spec fn monthly_purchases(
    accounts: Seq<Account>,
    entries: Seq<JournalEntry>,
    year: i32,
    m: int,
) -> int
    decreases entries.len(),
{
    if entries.len() == 0 {
        0
    } else {
        monthly_purchases(accounts, entries.drop_last(), year, m) + (if purchase_entry(
            accounts,
            entries.last(),
            year,
            m,
        ) {
            entries.last().debit_amount as int
        } else {
            0
        })
    }
}

/// Sales booked across the whole year.
pub open spec fn annual_sales(accounts: Seq<Account>, entries: Seq<JournalEntry>, year: i32) -> int
    decreases entries.len(),
{
    if entries.len() == 0 {
        0
    } else {
        annual_sales(accounts, entries.drop_last(), year) + (if entries.last().date.year == year
            && lookup_code(accounts, entries.last().credit_account_id) == Option::Some(
            SALES_ACCOUNT_CODE,
        ) {
            entries.last().credit_amount as int
        } else {
            0
        })
    }
}

/// Purchases booked across the whole year.
pub open spec fn annual_purchases(
    accounts: Seq<Account>,
    entries: Seq<JournalEntry>,
    year: i32,
) -> int
    decreases entries.len(),
{
    if entries.len() == 0 {
        0
    } else {
        annual_purchases(accounts, entries.drop_last(), year) + (if entries.last().date.year
            == year && lookup_code(accounts, entries.last().debit_account_id) == Option::Some(
            PURCHASES_ACCOUNT_CODE,
        ) {
            entries.last().debit_amount as int
        } else {
            0
        })
    }
}

/// The monthly buckets summed through month `upto`.
pub open spec fn sum_months_sales(
    accounts: Seq<Account>,
    entries: Seq<JournalEntry>,
    year: i32,
    upto: int,
) -> int
    decreases upto,
{
    if upto <= 0 {
        0
    } else {
        sum_months_sales(accounts, entries, year, upto - 1) + monthly_sales(
            accounts,
            entries,
            year,
            upto,
        )
    }
}

/// The monthly purchase buckets summed through month `upto`.
pub open spec fn sum_months_purchases(
    accounts: Seq<Account>,
    entries: Seq<JournalEntry>,
    year: i32,
    upto: int,
) -> int
    decreases upto,
{
    if upto <= 0 {
        0
    } else {
        sum_months_purchases(accounts, entries, year, upto - 1) + monthly_purchases(
            accounts,
            entries,
            year,
            upto,
        )
    }
}

/// A month's buckets are nonnegative and bounded by the journal volumes.
pub proof fn lemma_monthly_bounds(
    accounts: Seq<Account>,
    entries: Seq<JournalEntry>,
    year: i32,
    m: int,
)
    requires
        entries_balanced(entries),
    ensures
        0 <= monthly_sales(accounts, entries, year, m) <= sum_credits(entries),
        0 <= monthly_purchases(accounts, entries, year, m) <= sum_debits(entries),
    decreases entries.len(),
{
    if entries.len() > 0 {
        lemma_balanced_subrange(entries, 0, entries.len() - 1);
        assert(entries.drop_last() == entries.subrange(0, entries.len() - 1));
        lemma_monthly_bounds(accounts, entries.drop_last(), year, m);
        assert(entry_balanced(entries[entries.len() - 1]));
        assert(entries.last() == entries[entries.len() - 1]);
    }
}

/// Appending one entry raises each bucket sum through `upto` by the
/// entry's amount exactly when the entry books into a month at or below
/// `upto`.
proof fn lemma_sum_months_push(
    accounts: Seq<Account>,
    entries: Seq<JournalEntry>,
    e: JournalEntry,
    year: i32,
    upto: int,
)
    ensures
        sum_months_sales(accounts, entries.push(e), year, upto) == sum_months_sales(
            accounts,
            entries,
            year,
            upto,
        ) + (if e.date.year == year && 1 <= e.date.month <= upto && lookup_code(
            accounts,
            e.credit_account_id,
        ) == Option::Some(SALES_ACCOUNT_CODE) {
            e.credit_amount as int
        } else {
            0
        }),
        sum_months_purchases(accounts, entries.push(e), year, upto) == sum_months_purchases(
            accounts,
            entries,
            year,
            upto,
        ) + (if e.date.year == year && 1 <= e.date.month <= upto && lookup_code(
            accounts,
            e.debit_account_id,
        ) == Option::Some(PURCHASES_ACCOUNT_CODE) {
            e.debit_amount as int
        } else {
            0
        }),
    decreases upto,
{
    if upto > 0 {
        lemma_sum_months_push(accounts, entries, e, year, upto - 1);
        assert(entries.push(e).drop_last() =~= entries);
        assert(entries.push(e).last() == e);
    }
}

/// Bucket sums of an empty journal are zero through any month.
proof fn lemma_sum_months_empty(accounts: Seq<Account>, year: i32, upto: int)
    ensures
        sum_months_sales(accounts, Seq::<JournalEntry>::empty(), year, upto) == 0,
        sum_months_purchases(accounts, Seq::<JournalEntry>::empty(), year, upto) == 0,
    decreases upto,
{
    if upto > 0 {
        lemma_sum_months_empty(accounts, year, upto - 1);
    }
}

/// The twelve monthly buckets partition the year: summed through month
/// 12 they equal the annual totals.
pub proof fn lemma_months_cover_year(
    accounts: Seq<Account>,
    entries: Seq<JournalEntry>,
    year: i32,
)
    requires
        entry_dates_wf(entries),
    ensures
        sum_months_sales(accounts, entries, year, 12) == annual_sales(accounts, entries, year),
        sum_months_purchases(accounts, entries, year, 12) == annual_purchases(
            accounts,
            entries,
            year,
        ),
    decreases entries.len(),
{
    if entries.len() == 0 {
        assert(entries =~= Seq::<JournalEntry>::empty());
        lemma_sum_months_empty(accounts, year, 12);
    } else {
        let pre = entries.drop_last();
        let e = entries.last();
        assert forall|i: int| 0 <= i < pre.len() implies crate::date::date_wf(
            #[trigger] pre[i].date,
        ) by {
            assert(pre[i] == entries[i]);
        }
        lemma_months_cover_year(accounts, pre, year);
        lemma_sum_months_push(accounts, pre, e, year, 12);
        assert(pre.push(e) =~= entries);
        assert(e == entries[entries.len() - 1]);
        assert(crate::date::date_wf(entries[entries.len() - 1].date));
    }
}

/// The bucket sums grow with `upto` and stay inside the journal volumes.
pub proof fn lemma_sum_months_le(
    accounts: Seq<Account>,
    entries: Seq<JournalEntry>,
    year: i32,
    upto: int,
)
    requires
        entries_balanced(entries),
        0 <= upto <= 12,
    ensures
        0 <= sum_months_sales(accounts, entries, year, upto) <= sum_months_sales(
            accounts,
            entries,
            year,
            12,
        ),
        0 <= sum_months_purchases(accounts, entries, year, upto) <= sum_months_purchases(
            accounts,
            entries,
            year,
            12,
        ),
    decreases 12 - upto,
{
    if upto == 12 {
        lemma_sum_months_nonneg(accounts, entries, year, upto);
    } else {
        lemma_sum_months_le(accounts, entries, year, upto + 1);
        lemma_monthly_bounds(accounts, entries, year, upto + 1);
        lemma_sum_months_nonneg(accounts, entries, year, upto);
    }
}

/// Bucket sums are nonnegative.
proof fn lemma_sum_months_nonneg(
    accounts: Seq<Account>,
    entries: Seq<JournalEntry>,
    year: i32,
    upto: int,
)
    requires
        entries_balanced(entries),
    ensures
        0 <= sum_months_sales(accounts, entries, year, upto),
        0 <= sum_months_purchases(accounts, entries, year, upto),
    decreases upto,
{
    if upto > 0 {
        lemma_sum_months_nonneg(accounts, entries, year, upto - 1);
        lemma_monthly_bounds(accounts, entries, year, upto);
    }
}

/// The annual totals are nonnegative and bounded by the journal volumes.
pub proof fn lemma_annual_bounds(accounts: Seq<Account>, entries: Seq<JournalEntry>, year: i32)
    requires
        entries_balanced(entries),
    ensures
        0 <= annual_sales(accounts, entries, year) <= sum_credits(entries),
        0 <= annual_purchases(accounts, entries, year) <= sum_debits(entries),
    decreases entries.len(),
{
    if entries.len() > 0 {
        lemma_balanced_subrange(entries, 0, entries.len() - 1);
        assert(entries.drop_last() == entries.subrange(0, entries.len() - 1));
        lemma_annual_bounds(accounts, entries.drop_last(), year);
        assert(entry_balanced(entries[entries.len() - 1]));
        assert(entries.last() == entries[entries.len() - 1]);
    }
}

/// One month's sales and purchases, summed from the journal.
fn month_totals(
    accounts: &Vec<Account>,
    entries: &Vec<JournalEntry>,
    year: i32,
    m: i32,
) -> (r: (i64, i64))
    requires
        entries_balanced(entries@),
        sum_debits(entries@) + sum_credits(entries@) <= i64::MAX,
    ensures
        r.0 == monthly_sales(accounts@, entries@, year, m as int),
        r.1 == monthly_purchases(accounts@, entries@, year, m as int),
{
    let mut sales: i64 = 0;
    let mut purchases: i64 = 0;
    let mut i: usize = 0;
    while i < entries.len()
        invariant
            i <= entries@.len(),
            entries_balanced(entries@),
            sum_debits(entries@) + sum_credits(entries@) <= i64::MAX,
            sales == monthly_sales(accounts@, entries@.subrange(0, i as int), year, m as int),
            purchases == monthly_purchases(
                accounts@,
                entries@.subrange(0, i as int),
                year,
                m as int,
            ),
        decreases entries@.len() - i,
    {
        let e = &entries[i];
        proof {
            let pre = entries@.subrange(0, i as int);
            let post = entries@.subrange(0, i as int + 1);
            assert(post.drop_last() =~= pre);
            assert(post.last() == entries@[i as int]);
            lemma_balanced_subrange(entries@, 0, i as int + 1);
            lemma_monthly_bounds(accounts@, post, year, m as int);
            lemma_sums_prefix_le(entries@, i as int + 1);
            lemma_sums_nonneg(entries@);
        }
        if e.date.year == year && e.date.month == m {
            let credit_code = find_account_code(accounts, e.credit_account_id);
            match credit_code {
                Some(code) => {
                    if code == SALES_ACCOUNT_CODE {
                        sales = sales + e.credit_amount;
                    }
                },
                None => {},
            }
            let debit_code = find_account_code(accounts, e.debit_account_id);
            match debit_code {
                Some(code) => {
                    if code == PURCHASES_ACCOUNT_CODE {
                        purchases = purchases + e.debit_amount;
                    }
                },
                None => {},
            }
        }
        i = i + 1;
    }
    proof {
        assert(entries@.subrange(0, entries@.len() as int) =~= entries@);
    }
    (sales, purchases)
}

/// Builds the twelve-month rollup for a year: always exactly twelve rows,
/// months 1 through 12 in order, zero-filled where the month saw no
/// activity.
pub fn calc_monthly_sales_purchases(
    accounts: &Vec<Account>,
    entries: &Vec<JournalEntry>,
    year: i32,
) -> (r: Vec<MonthlySalesPurchase>)
    requires
        ledger_wf(accounts@, entries@),
    ensures
        r@.len() == 12,
        forall|k: int|
            0 <= k < 12 ==> (#[trigger] r@[k]).month == k + 1 && r@[k].sales == monthly_sales(
                accounts@,
                entries@,
                year,
                k + 1,
            ) && r@[k].purchases == monthly_purchases(accounts@, entries@, year, k + 1),
{
    let mut rows: Vec<MonthlySalesPurchase> = Vec::new();
    let mut m: i32 = 1;
    while m <= 12
        invariant
            1 <= m <= 13,
            ledger_wf(accounts@, entries@),
            rows@.len() == m - 1,
            forall|k: int|
                0 <= k < m - 1 ==> (#[trigger] rows@[k]).month == k + 1 && rows@[k].sales
                    == monthly_sales(accounts@, entries@, year, k + 1) && rows@[k].purchases
                    == monthly_purchases(accounts@, entries@, year, k + 1),
        decreases 13 - m,
    {
        let (sales, purchases) = month_totals(accounts, entries, year, m);
        rows.push(MonthlySalesPurchase { month: m, sales, purchases });
        m = m + 1;
    }
    rows
}

} // verus!
