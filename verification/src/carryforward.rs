//! Loss carryforward engine: applies up to three prior years of net
//! losses against the current year's income, oldest first, with one usage
//! slot per relative year.

use crate::aggregate::ledger_wf;
use crate::models::{
    Account, JournalEntry, LossCarryforward, LossCarryforwardApplied, LossCarryforwardSummary,
};
use crate::profit_loss::{calc_profit_loss, spec_net_income};
use vstd::prelude::*;

verus! {

/// Total usage already recorded across the three slots.
pub open spec fn used_total(l: LossCarryforward) -> int {
    l.used_year_1 + l.used_year_2 + l.used_year_3
}

/// What is left of the loss after all recorded usage.
pub open spec fn available_of(l: LossCarryforward) -> int {
    l.loss_amount - used_total(l)
}

/// How many years old the loss is in the target year.
pub open spec fn offset_of(l: LossCarryforward, year: i32) -> int {
    year - l.loss_year
}

/// The usage recorded in the slot of the given relative year.
pub open spec fn slot_used(l: LossCarryforward, offset: int) -> int {
    if offset == 1 {
        l.used_year_1 as int
    } else if offset == 2 {
        l.used_year_2 as int
    } else if offset == 3 {
        l.used_year_3 as int
    } else {
        0
    }
}

/// The loss can take part in the target year: something of it is left and
/// it falls inside the three-year window.
pub open spec fn loss_eligible(l: LossCarryforward, year: i32) -> bool {
    available_of(l) > 0 && 1 <= offset_of(l, year) <= 3
}

/// A loss record the engine can work with: a positive loss, nonnegative
/// usage slots, and a slot sum the machine integers hold.
pub open spec fn loss_wf(l: LossCarryforward) -> bool {
    &&& l.loss_amount > 0
    &&& 0 <= l.used_year_1
    &&& 0 <= l.used_year_2
    &&& 0 <= l.used_year_3
    &&& used_total(l) <= i64::MAX
}

/// Every record of the register is well formed.
pub open spec fn losses_wf(s: Seq<LossCarryforward>) -> bool {
    forall|i: int| 0 <= i < s.len() ==> loss_wf(#[trigger] s[i])
}

/// The report row of a loss whose slot for this relative year was already
/// consumed: shown as settled, nothing applied, income untouched.
pub open spec fn settled_row(l: LossCarryforward) -> LossCarryforwardApplied {
    LossCarryforwardApplied {
        loss_year: l.loss_year,
        original_loss: l.loss_amount,
        already_used: used_total(l) as i64,
        applied_this_year: 0,
        remaining: available_of(l) as i64,
    }
}

/// The report row of a loss that absorbs `apply` of the year's income.
pub open spec fn applied_row(l: LossCarryforward, apply: int) -> LossCarryforwardApplied {
    LossCarryforwardApplied {
        loss_year: l.loss_year,
        original_loss: l.loss_amount,
        already_used: used_total(l) as i64,
        applied_this_year: apply as i64,
        remaining: (available_of(l) - apply) as i64,
    }
}

/// The rows the engine reports while `remaining` income is left, walking
/// the register in the given order (oldest first as the store hands it
/// over). Ineligible records are skipped silently; a record whose slot
/// for this relative year is already used is reported settled without
/// reducing income; otherwise the record absorbs what it can.
pub open spec fn cf_rows(
    losses: Seq<LossCarryforward>,
    year: i32,
    remaining: int,
) -> Seq<LossCarryforwardApplied>
    decreases losses.len(),
{
    if losses.len() == 0 || remaining <= 0 {
        Seq::empty()
    } else {
        let l = losses.first();
        let rest = losses.drop_first();
        if !loss_eligible(l, year) {
            cf_rows(rest, year, remaining)
        } else if slot_used(l, offset_of(l, year)) > 0 {
            seq![settled_row(l)] + cf_rows(rest, year, remaining)
        } else {
            let apply = if available_of(l) < remaining {
                available_of(l)
            } else {
                remaining
            };
            seq![applied_row(l, apply)] + cf_rows(rest, year, remaining - apply)
        }
    }
}

/// The income the walk of `cf_rows` absorbs in total.
pub open spec fn cf_total(losses: Seq<LossCarryforward>, year: i32, remaining: int) -> int
    decreases losses.len(),
{
    if losses.len() == 0 || remaining <= 0 {
        0
    } else {
        let l = losses.first();
        let rest = losses.drop_first();
        if !loss_eligible(l, year) {
            cf_total(rest, year, remaining)
        } else if slot_used(l, offset_of(l, year)) > 0 {
            cf_total(rest, year, remaining)
        } else {
            let apply = if available_of(l) < remaining {
                available_of(l)
            } else {
                remaining
            };
            apply + cf_total(rest, year, remaining - apply)
        }
    }
}

/// The rows of a year's application: empty when the year shows no
/// positive income, else the walk over the register.
pub open spec fn spec_summary_rows(
    losses: Seq<LossCarryforward>,
    year: i32,
    income_before: int,
) -> Seq<LossCarryforwardApplied> {
    if income_before <= 0 {
        Seq::empty()
    } else {
        cf_rows(losses, year, income_before)
    }
}

/// The total a year's application absorbs.
pub open spec fn spec_total_applied(
    losses: Seq<LossCarryforward>,
    year: i32,
    income_before: int,
) -> int {
    if income_before <= 0 {
        0
    } else {
        cf_total(losses, year, income_before)
    }
}

/// The walk never absorbs more than the income it was given, and never a
/// negative amount.
proof fn lemma_cf_total_cap(losses: Seq<LossCarryforward>, year: i32, remaining: int)
    ensures
        0 <= cf_total(losses, year, remaining),
        cf_total(losses, year, remaining) <= if remaining > 0 {
            remaining
        } else {
            0
        },
    decreases losses.len(),
{
    if losses.len() > 0 && remaining > 0 {
        let l = losses.first();
        let rest = losses.drop_first();
        if !loss_eligible(l, year) || slot_used(l, offset_of(l, year)) > 0 {
            lemma_cf_total_cap(rest, year, remaining);
        } else {
            let apply = if available_of(l) < remaining {
                available_of(l)
            } else {
                remaining
            };
            lemma_cf_total_cap(rest, year, remaining - apply);
        }
    }
}

/// Carryforward cap: the year's application absorbs a nonnegative total
/// never exceeding the positive part of the income it starts from.
pub proof fn lemma_carryforward_cap(losses: Seq<LossCarryforward>, year: i32, income_before: int)
    ensures
        0 <= spec_total_applied(losses, year, income_before),
        spec_total_applied(losses, year, income_before) <= if income_before > 0 {
            income_before
        } else {
            0
        },
{
    lemma_cf_total_cap(losses, year, income_before);
}

/// Idempotence of recomputation: the engine's contract pins every field
/// to a function of the register, the year and the income, so any two
/// results it can return over the same inputs agree exactly.
pub proof fn lemma_carryforward_recompute_stable(
    a: LossCarryforwardSummary,
    b: LossCarryforwardSummary,
    losses: Seq<LossCarryforward>,
    year: i32,
    income_before: int,
)
    requires
        a.rows@ == spec_summary_rows(losses, year, income_before),
        a.total_applied == spec_total_applied(losses, year, income_before),
        a.income_before == b.income_before,
        a.income_after == a.income_before - a.total_applied,
        b.rows@ == spec_summary_rows(losses, year, income_before),
        b.total_applied == spec_total_applied(losses, year, income_before),
        b.income_after == b.income_before - b.total_applied,
    ensures
        a.rows@ == b.rows@,
        a.total_applied == b.total_applied,
        a.income_after == b.income_after,
{
}

/// Removing a record whose slot for this relative year is already used
/// changes nothing of the walk's total: such a record is reported, but
/// absorbs no income.
proof fn lemma_cf_total_settled_removed(
    losses: Seq<LossCarryforward>,
    year: i32,
    remaining: int,
    i: int,
)
    requires
        0 <= i < losses.len(),
        slot_used(losses[i], offset_of(losses[i], year)) > 0,
    ensures
        cf_total(losses, year, remaining) == cf_total(losses.remove(i), year, remaining),
    decreases losses.len(),
{
    if remaining <= 0 {
        lemma_cf_total_cap(losses.remove(i), year, remaining);
    } else if i == 0 {
        assert(losses.remove(0) =~= losses.drop_first());
    } else {
        let l = losses.first();
        let rest = losses.drop_first();
        let shorter = losses.remove(i);
        assert(shorter.first() == l);
        assert(shorter.drop_first() =~= rest.remove(i - 1));
        assert(rest[i - 1] == losses[i]);
        if !loss_eligible(l, year) || slot_used(l, offset_of(l, year)) > 0 {
            lemma_cf_total_settled_removed(rest, year, remaining, i - 1);
        } else {
            let apply = if available_of(l) < remaining {
                available_of(l)
            } else {
                remaining
            };
            lemma_cf_total_settled_removed(rest, year, remaining - apply, i - 1);
        }
    }
}

/// Idempotence across recorded usage: once a loss record's slot for this
/// relative year carries recorded usage, the record adds nothing to the
/// year's total; with or without it the application absorbs the same.
pub proof fn lemma_settled_loss_inert(
    losses: Seq<LossCarryforward>,
    year: i32,
    income_before: int,
    i: int,
)
    requires
        0 <= i < losses.len(),
        slot_used(losses[i], offset_of(losses[i], year)) > 0,
    ensures
        spec_total_applied(losses, year, income_before) == spec_total_applied(
            losses.remove(i),
            year,
            income_before,
        ),
{
    if income_before > 0 {
        lemma_cf_total_settled_removed(losses, year, income_before, i);
    }
}

/// Idempotence after a full year-close: when every eligible record's slot
/// for this relative year already carries recorded usage, re-invoking the
/// engine applies nothing at all.
pub proof fn lemma_recorded_usage_not_reapplied(
    losses: Seq<LossCarryforward>,
    year: i32,
    income_before: int,
)
    requires
        forall|i: int|
            0 <= i < losses.len() ==> !loss_eligible(#[trigger] losses[i], year) || slot_used(
                losses[i],
                offset_of(losses[i], year),
            ) > 0,
    ensures
        spec_total_applied(losses, year, income_before) == 0,
{
    if income_before > 0 {
        lemma_cf_total_all_settled(losses, year, income_before);
    }
}

/// Inner induction for `lemma_recorded_usage_not_reapplied`.
proof fn lemma_cf_total_all_settled(losses: Seq<LossCarryforward>, year: i32, remaining: int)
    requires
        forall|i: int|
            0 <= i < losses.len() ==> !loss_eligible(#[trigger] losses[i], year) || slot_used(
                losses[i],
                offset_of(losses[i], year),
            ) > 0,
    ensures
        cf_total(losses, year, remaining) == 0,
    decreases losses.len(),
{
    if losses.len() > 0 && remaining > 0 {
        let rest = losses.drop_first();
        assert(losses.first() == losses[0]);
        assert forall|i: int|
            0 <= i < rest.len() implies !loss_eligible(#[trigger] rest[i], year) || slot_used(
            rest[i],
            offset_of(rest[i], year),
        ) > 0 by {
            assert(rest[i] == losses[i + 1]);
        }
        lemma_cf_total_all_settled(rest, year, remaining);
    }
}

/// Applies the loss register against a year's income: nothing when the
/// income is not positive, else the oldest-first walk. The engine only
/// reports; recording the consumed slots is the caller's separate step.
pub fn apply_loss_carryforward(
    losses: &Vec<LossCarryforward>,
    year: i32,
    income_before: i64,
) -> (r: LossCarryforwardSummary)
    requires
        losses_wf(losses@),
    ensures
        r.income_before == income_before,
        r.rows@ == spec_summary_rows(losses@, year, income_before as int),
        r.total_applied == spec_total_applied(losses@, year, income_before as int),
        r.income_after == income_before - r.total_applied,
        0 <= r.total_applied,
        income_before > 0 ==> r.total_applied <= income_before,
        income_before <= 0 ==> r.total_applied == 0,
{
    let mut rows: Vec<LossCarryforwardApplied> = Vec::new();
    if income_before <= 0 {
        return LossCarryforwardSummary {
            rows,
            total_applied: 0,
            income_before,
            income_after: income_before,
        };
    }
    let ghost len = losses@.len() as int;
    let mut total_applied: i64 = 0;
    let mut remaining: i64 = income_before;
    let mut i: usize = 0;
    proof {
        assert(losses@.subrange(0, len) =~= losses@);
        assert(rows@ + cf_rows(losses@, year, income_before as int) =~= cf_rows(
            losses@,
            year,
            income_before as int,
        ));
    }
    while i < losses.len()
        invariant_except_break
            i <= losses@.len(),
            losses_wf(losses@),
            0 < income_before,
            0 <= total_applied <= income_before,
            remaining == income_before - total_applied,
            cf_rows(losses@, year, income_before as int) == rows@ + cf_rows(
                losses@.subrange(i as int, len),
                year,
                remaining as int,
            ),
            cf_total(losses@, year, income_before as int) == total_applied + cf_total(
                losses@.subrange(i as int, len),
                year,
                remaining as int,
            ),
            len == losses@.len(),
        ensures
            rows@ == cf_rows(losses@, year, income_before as int),
            total_applied == cf_total(losses@, year, income_before as int),
            0 <= total_applied <= income_before,
        decreases losses@.len() - i,
    {
        if remaining <= 0 {
            proof {
                assert(cf_rows(losses@.subrange(i as int, len), year, remaining as int)
                    =~= Seq::<LossCarryforwardApplied>::empty());
                assert(rows@ + Seq::<LossCarryforwardApplied>::empty() =~= rows@);
            }
            break;
        }
        let l = &losses[i];
        proof {
            assert(losses@.subrange(i as int, len).first() == losses@[i as int]);
            assert(losses@.subrange(i as int, len).drop_first() =~= losses@.subrange(
                i as int + 1,
                len,
            ));
        }
        let already_used = l.used_year_1 + l.used_year_2 + l.used_year_3;
        let available = l.loss_amount - already_used;
        let offset = (year as i64) - (l.loss_year as i64);
        if available > 0 && 1 <= offset && offset <= 3 {
            let used_this_slot = if offset == 1 {
                l.used_year_1
            } else if offset == 2 {
                l.used_year_2
            } else {
                l.used_year_3
            };
            if used_this_slot > 0 {
                let row = LossCarryforwardApplied {
                    loss_year: l.loss_year,
                    original_loss: l.loss_amount,
                    already_used,
                    applied_this_year: 0,
                    remaining: available,
                };
                proof {
                    assert(row == settled_row(losses@[i as int]));
                    assert(rows@ + (seq![row] + cf_rows(
                        losses@.subrange(i as int + 1, len),
                        year,
                        remaining as int,
                    )) =~= rows@.push(row) + cf_rows(
                        losses@.subrange(i as int + 1, len),
                        year,
                        remaining as int,
                    ));
                }
                rows.push(row);
            } else {
                let apply = if available < remaining {
                    available
                } else {
                    remaining
                };
                let row = LossCarryforwardApplied {
                    loss_year: l.loss_year,
                    original_loss: l.loss_amount,
                    already_used,
                    applied_this_year: apply,
                    remaining: available - apply,
                };
                proof {
                    assert(row == applied_row(losses@[i as int], apply as int));
                    assert(rows@ + (seq![row] + cf_rows(
                        losses@.subrange(i as int + 1, len),
                        year,
                        remaining as int - apply as int,
                    )) =~= rows@.push(row) + cf_rows(
                        losses@.subrange(i as int + 1, len),
                        year,
                        remaining as int - apply as int,
                    ));
                }
                rows.push(row);
                remaining = remaining - apply;
                total_applied = total_applied + apply;
            }
        }
        i = i + 1;
        proof {
            if i == losses@.len() {
                assert(cf_rows(losses@.subrange(i as int, len), year, remaining as int)
                    =~= Seq::<LossCarryforwardApplied>::empty());
                assert(rows@ + Seq::<LossCarryforwardApplied>::empty() =~= rows@);
            }
        }
    }
    LossCarryforwardSummary {
        rows,
        total_applied,
        income_before,
        income_after: income_before - total_applied,
    }
}

/// Derives the year's income from the profit-and-loss statement and
/// applies the loss register against it.
pub fn calc_loss_carryforward(
    accounts: &Vec<Account>,
    entries: &Vec<JournalEntry>,
    losses: &Vec<LossCarryforward>,
    year: i32,
) -> (r: LossCarryforwardSummary)
    requires
        ledger_wf(accounts@, entries@),
        losses_wf(losses@),
        0 <= year <= 9999,
    ensures
        r.income_before == spec_net_income(accounts@, entries@, year),
        r.rows@ == spec_summary_rows(losses@, year, spec_net_income(accounts@, entries@, year)),
        r.total_applied == spec_total_applied(
            losses@,
            year,
            spec_net_income(accounts@, entries@, year),
        ),
        r.income_after == r.income_before - r.total_applied,
        0 <= r.total_applied,
        r.income_before > 0 ==> r.total_applied <= r.income_before,
        r.income_before <= 0 ==> r.total_applied == 0,
{
    let pl = calc_profit_loss(accounts, entries, year);
    apply_loss_carryforward(losses, year, pl.net_income)
}

} // verus!
