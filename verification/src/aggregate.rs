//! Period aggregator: per-account debit and credit totals over an
//! inclusive date range, and the summation lemmas the composers build on.

use crate::date::{date_le, Date};
use crate::models::{
    accounts_distinct, entries_balanced, entries_covered, entry_balanced, entry_dates_wf,
    has_account, Account, JournalEntry,
};
use vstd::prelude::*;

verus! {

/// The entry's date falls inside the inclusive period.
pub open spec fn in_period(e: JournalEntry, from: Date, to: Date) -> bool {
    date_le(from, e.date) && date_le(e.date, to)
}

/// Sum of all debit-leg amounts of the journal.
pub open spec fn sum_debits(entries: Seq<JournalEntry>) -> int
    decreases entries.len(),
{
    if entries.len() == 0 {
        0
    } else {
        sum_debits(entries.drop_last()) + entries.last().debit_amount
    }
}

/// Sum of all credit-leg amounts of the journal.
pub open spec fn sum_credits(entries: Seq<JournalEntry>) -> int
    decreases entries.len(),
{
    if entries.len() == 0 {
        0
    } else {
        sum_credits(entries.drop_last()) + entries.last().credit_amount
    }
}

/// Sum of debit-leg amounts of the entries dated inside the period.
pub open spec fn sum_debits_in(entries: Seq<JournalEntry>, from: Date, to: Date) -> int
    decreases entries.len(),
{
    if entries.len() == 0 {
        0
    } else {
        sum_debits_in(entries.drop_last(), from, to) + (if in_period(entries.last(), from, to) {
            entries.last().debit_amount as int
        } else {
            0
        })
    }
}

/// Sum of credit-leg amounts of the entries dated inside the period.
pub open spec fn sum_credits_in(entries: Seq<JournalEntry>, from: Date, to: Date) -> int
    decreases entries.len(),
{
    if entries.len() == 0 {
        0
    } else {
        sum_credits_in(entries.drop_last(), from, to) + (if in_period(entries.last(), from, to) {
            entries.last().credit_amount as int
        } else {
            0
        })
    }
}

/// Debit total of one account over the period: the sum of debit-leg
/// amounts of in-period entries whose debit leg references the account.
pub open spec fn debit_total_in(entries: Seq<JournalEntry>, id: i64, from: Date, to: Date) -> int
    decreases entries.len(),
{
    if entries.len() == 0 {
        0
    } else {
        debit_total_in(entries.drop_last(), id, from, to) + (if entries.last().debit_account_id
            == id && in_period(entries.last(), from, to) {
            entries.last().debit_amount as int
        } else {
            0
        })
    }
}

/// Credit total of one account over the period.
pub open spec fn credit_total_in(entries: Seq<JournalEntry>, id: i64, from: Date, to: Date) -> int
    decreases entries.len(),
{
    if entries.len() == 0 {
        0
    } else {
        credit_total_in(entries.drop_last(), id, from, to) + (if entries.last().credit_account_id
            == id && in_period(entries.last(), from, to) {
            entries.last().credit_amount as int
        } else {
            0
        })
    }
}

/// Sum of the per-account debit totals over a sequence of accounts.
pub open spec fn sum_debit_totals(
    accounts: Seq<Account>,
    entries: Seq<JournalEntry>,
    from: Date,
    to: Date,
) -> int
    decreases accounts.len(),
{
    if accounts.len() == 0 {
        0
    } else {
        sum_debit_totals(accounts.drop_last(), entries, from, to) + debit_total_in(
            entries,
            accounts.last().id,
            from,
            to,
        )
    }
}

/// Sum of the per-account credit totals over a sequence of accounts.
pub open spec fn sum_credit_totals(
    accounts: Seq<Account>,
    entries: Seq<JournalEntry>,
    from: Date,
    to: Date,
) -> int
    decreases accounts.len(),
{
    if accounts.len() == 0 {
        0
    } else {
        sum_credit_totals(accounts.drop_last(), entries, from, to) + credit_total_in(
            entries,
            accounts.last().id,
            from,
            to,
        )
    }
}

/// How many accounts of the sequence carry the identity.
pub open spec fn count_id(accounts: Seq<Account>, id: i64) -> int
    decreases accounts.len(),
{
    if accounts.len() == 0 {
        0
    } else {
        count_id(accounts.drop_last(), id) + (if accounts.last().id == id {
            1int
        } else {
            0int
        })
    }
}

/// The store invariants every composer relies on: distinct account
/// identities, referential integrity of both legs, balanced entries,
/// well-formed dates, and a journal volume that fits the machine integers.
pub open spec fn ledger_wf(accounts: Seq<Account>, entries: Seq<JournalEntry>) -> bool {
    &&& accounts_distinct(accounts)
    &&& entries_covered(accounts, entries)
    &&& entries_balanced(entries)
    &&& entry_dates_wf(entries)
    &&& sum_debits(entries) + sum_credits(entries) <= i64::MAX
}

/// Dropping the last entry keeps every entry balanced.
pub proof fn lemma_balanced_subrange(s: Seq<JournalEntry>, a: int, b: int)
    requires
        entries_balanced(s),
        0 <= a <= b <= s.len(),
    ensures
        entries_balanced(s.subrange(a, b)),
{
    assert forall|i: int| 0 <= i < s.subrange(a, b).len() implies entry_balanced(
        #[trigger] s.subrange(a, b)[i],
    ) by {
        assert(s.subrange(a, b)[i] == s[a + i]);
    }
}

/// A balanced journal has equal, nonnegative debit and credit volumes.
pub proof fn lemma_sums_nonneg(entries: Seq<JournalEntry>)
    requires
        entries_balanced(entries),
    ensures
        sum_debits(entries) >= 0,
        sum_credits(entries) >= 0,
        sum_debits(entries) == sum_credits(entries),
    decreases entries.len(),
{
    if entries.len() > 0 {
        lemma_balanced_subrange(entries, 0, entries.len() - 1);
        assert(entries.drop_last() == entries.subrange(0, entries.len() - 1));
        lemma_sums_nonneg(entries.drop_last());
        assert(entry_balanced(entries[entries.len() - 1]));
        assert(entries.last() == entries[entries.len() - 1]);
    }
}

/// One account's period totals are nonnegative and bounded by the whole
/// journal's volumes.
pub proof fn lemma_totals_bounds(entries: Seq<JournalEntry>, id: i64, from: Date, to: Date)
    requires
        entries_balanced(entries),
    ensures
        0 <= debit_total_in(entries, id, from, to) <= sum_debits(entries),
        0 <= credit_total_in(entries, id, from, to) <= sum_credits(entries),
    decreases entries.len(),
{
    if entries.len() > 0 {
        lemma_balanced_subrange(entries, 0, entries.len() - 1);
        assert(entries.drop_last() == entries.subrange(0, entries.len() - 1));
        lemma_totals_bounds(entries.drop_last(), id, from, to);
        assert(entry_balanced(entries[entries.len() - 1]));
        assert(entries.last() == entries[entries.len() - 1]);
    }
}

/// A prefix of the journal never exceeds the whole journal's volumes.
pub proof fn lemma_sums_prefix_le(entries: Seq<JournalEntry>, i: int)
    requires
        entries_balanced(entries),
        0 <= i <= entries.len(),
    ensures
        0 <= sum_debits(entries.subrange(0, i)) <= sum_debits(entries),
        0 <= sum_credits(entries.subrange(0, i)) <= sum_credits(entries),
    decreases entries.len() - i,
{
    lemma_balanced_subrange(entries, 0, i);
    lemma_sums_nonneg(entries.subrange(0, i));
    if i == entries.len() {
        assert(entries.subrange(0, i) =~= entries);
    } else {
        lemma_sums_prefix_le(entries, i + 1);
        assert(entries.subrange(0, i + 1).drop_last() =~= entries.subrange(0, i));
        assert(entries.subrange(0, i + 1).last() == entries[i]);
        assert(entry_balanced(entries[i]));
    }
}

/// Per-account totals of an empty journal are zero, whatever the accounts.
pub proof fn lemma_sum_totals_empty(accounts: Seq<Account>, from: Date, to: Date)
    ensures
        sum_debit_totals(accounts, Seq::<JournalEntry>::empty(), from, to) == 0,
        sum_credit_totals(accounts, Seq::<JournalEntry>::empty(), from, to) == 0,
    decreases accounts.len(),
{
    if accounts.len() > 0 {
        lemma_sum_totals_empty(accounts.drop_last(), from, to);
    }
}

/// Appending one entry raises the summed per-account totals by the entry's
/// amount taken once per account that carries the referenced identity.
pub proof fn lemma_sum_totals_push(
    accounts: Seq<Account>,
    entries: Seq<JournalEntry>,
    e: JournalEntry,
    from: Date,
    to: Date,
)
    ensures
        sum_debit_totals(accounts, entries.push(e), from, to) == sum_debit_totals(
            accounts,
            entries,
            from,
            to,
        ) + (if in_period(e, from, to) {
            count_id(accounts, e.debit_account_id) * e.debit_amount
        } else {
            0
        }),
        sum_credit_totals(accounts, entries.push(e), from, to) == sum_credit_totals(
            accounts,
            entries,
            from,
            to,
        ) + (if in_period(e, from, to) {
            count_id(accounts, e.credit_account_id) * e.credit_amount
        } else {
            0
        }),
    decreases accounts.len(),
{
    if accounts.len() > 0 {
        lemma_sum_totals_push(accounts.drop_last(), entries, e, from, to);
        assert(entries.push(e).drop_last() =~= entries);
        assert(entries.push(e).last() == e);
        let a = accounts.last();
        if in_period(e, from, to) {
            let cd = count_id(accounts.drop_last(), e.debit_account_id);
            if a.id == e.debit_account_id {
                assert((cd + 1) * e.debit_amount == cd * e.debit_amount + e.debit_amount)
                    by (nonlinear_arith);
            }
            let cc = count_id(accounts.drop_last(), e.credit_account_id);
            if a.id == e.credit_account_id {
                assert((cc + 1) * e.credit_amount == cc * e.credit_amount + e.credit_amount)
                    by (nonlinear_arith);
            }
        }
    }
}

/// Among accounts with distinct identities, an identity is carried exactly
/// once if present and never otherwise.
pub proof fn lemma_count_id_distinct(accounts: Seq<Account>, id: i64)
    requires
        accounts_distinct(accounts),
    ensures
        count_id(accounts, id) == if has_account(accounts, id) {
            1int
        } else {
            0int
        },
    decreases accounts.len(),
{
    if accounts.len() > 0 {
        let pre = accounts.drop_last();
        let a = accounts.last();
        assert forall|i: int, j: int|
            0 <= i < j < pre.len() implies (#[trigger] pre[i]).id != (#[trigger] pre[j]).id by {
            assert(pre[i] == accounts[i] && pre[j] == accounts[j]);
        }
        lemma_count_id_distinct(pre, id);
        assert(a == accounts[accounts.len() - 1]);
        if a.id == id {
            assert(!has_account(pre, id)) by {
                if has_account(pre, id) {
                    let j = choose|j: int| 0 <= j < pre.len() && pre[j].id == id;
                    assert(accounts[j] == pre[j]);
                    assert(accounts[j].id != accounts[accounts.len() - 1].id);
                }
            }
            assert(has_account(accounts, id));
        } else {
            if has_account(accounts, id) {
                let j = choose|j: int| 0 <= j < accounts.len() && accounts[j].id == id;
                assert(j < accounts.len() - 1);
                assert(pre[j] == accounts[j]);
                assert(has_account(pre, id));
            }
            if has_account(pre, id) {
                let j = choose|j: int| 0 <= j < pre.len() && pre[j].id == id;
                assert(accounts[j] == pre[j]);
                assert(has_account(accounts, id));
            }
        }
    }
}

/// With distinct identities and both legs of every entry covered by the
/// chart, the per-account totals summed over the chart are exactly the
/// journal's in-period volumes: every leg is counted once and only once.
pub proof fn lemma_sum_totals_covered(
    accounts: Seq<Account>,
    entries: Seq<JournalEntry>,
    from: Date,
    to: Date,
)
    requires
        accounts_distinct(accounts),
        entries_covered(accounts, entries),
    ensures
        sum_debit_totals(accounts, entries, from, to) == sum_debits_in(entries, from, to),
        sum_credit_totals(accounts, entries, from, to) == sum_credits_in(entries, from, to),
    decreases entries.len(),
{
    if entries.len() == 0 {
        assert(entries =~= Seq::<JournalEntry>::empty());
        lemma_sum_totals_empty(accounts, from, to);
    } else {
        let pre = entries.drop_last();
        let e = entries.last();
        assert forall|i: int|
            0 <= i < pre.len() implies has_account(accounts, (#[trigger] pre[i]).debit_account_id)
            && has_account(accounts, pre[i].credit_account_id) by {
            assert(pre[i] == entries[i]);
        }
        lemma_sum_totals_covered(accounts, pre, from, to);
        lemma_sum_totals_push(accounts, pre, e, from, to);
        assert(pre.push(e) =~= entries);
        assert(e == entries[entries.len() - 1]);
        lemma_count_id_distinct(accounts, e.debit_account_id);
        lemma_count_id_distinct(accounts, e.credit_account_id);
    }
}

/// Over any distinct-identity selection of accounts, the summed totals are
/// nonnegative and never exceed the journal's volumes.
pub proof fn lemma_sum_totals_le(
    accounts: Seq<Account>,
    entries: Seq<JournalEntry>,
    from: Date,
    to: Date,
)
    requires
        accounts_distinct(accounts),
        entries_balanced(entries),
    ensures
        0 <= sum_debit_totals(accounts, entries, from, to) <= sum_debits(entries),
        0 <= sum_credit_totals(accounts, entries, from, to) <= sum_credits(entries),
    decreases entries.len(),
{
    if entries.len() == 0 {
        assert(entries =~= Seq::<JournalEntry>::empty());
        lemma_sum_totals_empty(accounts, from, to);
    } else {
        let pre = entries.drop_last();
        let e = entries.last();
        lemma_balanced_subrange(entries, 0, entries.len() - 1);
        assert(pre == entries.subrange(0, entries.len() - 1));
        lemma_sum_totals_le(accounts, pre, from, to);
        lemma_sum_totals_push(accounts, pre, e, from, to);
        assert(pre.push(e) =~= entries);
        assert(e == entries[entries.len() - 1]);
        assert(entry_balanced(e));
        lemma_count_id_distinct(accounts, e.debit_account_id);
        lemma_count_id_distinct(accounts, e.credit_account_id);
    }
}

/// A balanced journal's in-period debit and credit volumes agree: the two
/// legs of each entry fall in or out of the period together.
pub proof fn lemma_sums_in_eq(entries: Seq<JournalEntry>, from: Date, to: Date)
    requires
        entries_balanced(entries),
    ensures
        sum_debits_in(entries, from, to) == sum_credits_in(entries, from, to),
    decreases entries.len(),
{
    if entries.len() > 0 {
        lemma_balanced_subrange(entries, 0, entries.len() - 1);
        assert(entries.drop_last() == entries.subrange(0, entries.len() - 1));
        lemma_sums_in_eq(entries.drop_last(), from, to);
        assert(entry_balanced(entries[entries.len() - 1]));
        assert(entries.last() == entries[entries.len() - 1]);
    }
}

/// Any subrange of a distinct-identity chart keeps its identities distinct.
pub proof fn lemma_distinct_subrange(accounts: Seq<Account>, a: int, b: int)
    requires
        accounts_distinct(accounts),
        0 <= a <= b <= accounts.len(),
    ensures
        accounts_distinct(accounts.subrange(a, b)),
{
    assert forall|i: int, j: int|
        0 <= i < j < accounts.subrange(a, b).len() implies (#[trigger] accounts.subrange(a, b)[i]).id
        != (#[trigger] accounts.subrange(a, b)[j]).id by {
        assert(accounts.subrange(a, b)[i] == accounts[a + i]);
        assert(accounts.subrange(a, b)[j] == accounts[a + j]);
    }
}

/// One account's debit and credit totals over a period, summed from the
/// journal. This is the period aggregator every composer runs per row.
pub fn account_period_totals(
    entries: &Vec<JournalEntry>,
    account_id: i64,
    from: &Date,
    to: &Date,
) -> (r: (i64, i64))
    requires
        entries_balanced(entries@),
        sum_debits(entries@) + sum_credits(entries@) <= i64::MAX,
    ensures
        r.0 == debit_total_in(entries@, account_id, *from, *to),
        r.1 == credit_total_in(entries@, account_id, *from, *to),
        0 <= r.0,
        0 <= r.1,
{
    let mut d: i64 = 0;
    let mut c: i64 = 0;
    let mut i: usize = 0;
    while i < entries.len()
        invariant
            i <= entries@.len(),
            entries_balanced(entries@),
            sum_debits(entries@) + sum_credits(entries@) <= i64::MAX,
            d == debit_total_in(entries@.subrange(0, i as int), account_id, *from, *to),
            c == credit_total_in(entries@.subrange(0, i as int), account_id, *from, *to),
            0 <= d,
            0 <= c,
        decreases entries@.len() - i,
    {
        let e = &entries[i];
        proof {
            let pre = entries@.subrange(0, i as int);
            let post = entries@.subrange(0, i as int + 1);
            assert(post.drop_last() =~= pre);
            assert(post.last() == entries@[i as int]);
            lemma_balanced_subrange(entries@, 0, i as int + 1);
            lemma_totals_bounds(post, account_id, *from, *to);
            lemma_sums_prefix_le(entries@, i as int + 1);
            lemma_sums_nonneg(entries@);
        }
        let in_p = from.le(&e.date) && e.date.le(to);
        if in_p && e.debit_account_id == account_id {
            d = d + e.debit_amount;
        }
        if in_p && e.credit_account_id == account_id {
            c = c + e.credit_amount;
        }
        i = i + 1;
    }
    proof {
        assert(entries@.subrange(0, entries@.len() as int) =~= entries@);
    }
    (d, c)
}

} // verus!
