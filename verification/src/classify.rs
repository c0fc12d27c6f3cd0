//! Classification resolver: the sign convention that turns an account's
//! debit and credit totals into a directional balance.

use vstd::prelude::*;

verus! {

/// An account's classification. The five statutory classes carry a sign
/// convention; `Other` stands for an unrecognized tag, which contributes a
/// zero balance rather than failing the whole statement.
#[derive(Clone, Copy, Debug, PartialEq, Eq, Structural)]
pub enum Classification {
    Asset,
    Liability,
    Equity,
    Revenue,
    Expense,
    Other,
}

/// The classification carries a natural debit balance: its directional
/// balance is `debit_total - credit_total`.
pub open spec fn debit_natural(c: Classification) -> bool {
    c == Classification::Asset || c == Classification::Expense
}

/// Directional balance of an account under its classification's sign
/// convention: debit-natural classes net debits against credits, the other
/// statutory classes net credits against debits, and an unrecognized tag
/// contributes zero.
pub open spec fn spec_signed_balance(c: Classification, debit_total: int, credit_total: int) -> int {
    match c {
        Classification::Asset => debit_total - credit_total,
        Classification::Expense => debit_total - credit_total,
        Classification::Liability => credit_total - debit_total,
        Classification::Equity => credit_total - debit_total,
        Classification::Revenue => credit_total - debit_total,
        Classification::Other => 0,
    }
}

/// Resolves a classification and a pair of period totals to the signed
/// balance the statements report.
pub fn signed_balance(c: Classification, debit_total: i64, credit_total: i64) -> (r: i64)
    requires
        -i64::MAX <= debit_total - credit_total <= i64::MAX,
    ensures
        r == spec_signed_balance(c, debit_total as int, credit_total as int),
{
    match c {
        Classification::Asset => debit_total - credit_total,
        Classification::Expense => debit_total - credit_total,
        Classification::Liability => credit_total - debit_total,
        Classification::Equity => credit_total - debit_total,
        Classification::Revenue => credit_total - debit_total,
        Classification::Other => 0,
    }
}

} // verus!
