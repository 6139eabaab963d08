//! The escrowed-wage split. The applicant is paid nine tenths of the wage,
//! rounded down; the rest is divided evenly among the trainers on the
//! application's payee list, rounded down, with a divisor of one substituted
//! when the list is empty. Division truncates, so the shares reconcile with
//! the wage exactly up to the division remainder, which
//! [`lemma_wage_split_exact`] accounts for explicitly.

use vstd::prelude::*;
use vstd::arithmetic::div_mod::{
    lemma_div_is_ordered, lemma_div_multiples_vanish, lemma_fundamental_div_mod,
    lemma_fundamental_div_mod_converse,
};

verus! {

/// The applicant's share: nine tenths of the wage, rounded down.
pub open spec fn applicant_share(wage: int) -> int {
    wage * 9 / 10
}

/// The divisor used for the trainers' shares: the number of trainers, with
/// one substituted for an empty list.
pub open spec fn trainer_divisor(trainer_count: int) -> int {
    if trainer_count == 0 {
        1
    } else {
        trainer_count
    }
}

/// Each trainer's share: the wage left after the applicant's share, divided
/// evenly, rounded down.
pub open spec fn trainer_share(wage: int, trainer_count: int) -> int {
    (wage - applicant_share(wage)) / trainer_divisor(trainer_count)
}

/// The applicant's share never exceeds the wage.
pub proof fn lemma_applicant_share_bounds(wage: int)
    requires
        0 <= wage,
    ensures
        0 <= applicant_share(wage) <= wage,
{
    lemma_div_is_ordered(0, wage * 9, 10);
    lemma_div_is_ordered(wage * 9, wage * 10, 10);
    lemma_div_multiples_vanish(wage, 10);
}

/// Exact reconciliation of the wage split: the applicant's share plus the
/// trainers' shares equals the wage minus the remainder of the trainers'
/// division, and equals the wage itself exactly when that division leaves no
/// remainder. No part of the wage is dropped silently: the remainder is the
/// one amount not disbursed.
pub proof fn lemma_wage_split_exact(wage: int, trainer_count: int)
    requires
        0 <= wage,
        1 <= trainer_count,
    ensures
        applicant_share(wage) + trainer_share(wage, trainer_count) * trainer_count + (wage
            - applicant_share(wage)) % trainer_count == wage,
        (wage - applicant_share(wage)) % trainer_count == 0 ==> applicant_share(wage)
            + trainer_share(wage, trainer_count) * trainer_count == wage,
{
    let rest = wage - applicant_share(wage);
    lemma_applicant_share_bounds(wage);
    lemma_fundamental_div_mod(rest, trainer_count);
    assert(rest == trainer_count * (rest / trainer_count) + rest % trainer_count);
    assert(trainer_share(wage, trainer_count) * trainer_count == trainer_count * (rest
        / trainer_count)) by (nonlinear_arith)
        requires
            trainer_share(wage, trainer_count) == rest / trainer_count,
    ;
}

/// Computes the pair of the applicant's share and each trainer's share.
///
/// The applicant's share is computed from the wage's decomposition by ten so
/// that no intermediate product overflows, whatever the wage.
pub fn split_wage(wage: u128, trainer_count: usize) -> (r: (u128, u128))
    ensures
        r.0 == applicant_share(wage as int),
        r.1 == trainer_share(wage as int, trainer_count as int),
        r.0 <= wage,
        r.1 <= wage,
{
    let q = wage / 10;
    let rm = wage % 10;
    proof {
        lemma_fundamental_div_mod(wage as int, 10);
        assert(wage == 10 * (wage as int / 10) + wage as int % 10);
        assert(q * 9 <= wage) by (nonlinear_arith)
            requires
                wage == 10 * q + rm,
                0 <= rm,
                0 <= q,
        ;
        assert(rm * 9 / 10 <= 9) by {
            assert(rm < 10);
            lemma_div_is_ordered(rm as int * 9, 90, 10);
        }
        assert(q * 9 + rm * 9 / 10 == applicant_share(wage as int)) by {
            lemma_fundamental_div_mod(rm as int * 9, 10);
            assert(wage as int * 9 == 10 * (q as int * 9 + rm as int * 9 / 10) + (rm as int * 9)
                % 10) by (nonlinear_arith)
                requires
                    wage == 10 * q + rm,
                    rm as int * 9 == 10 * (rm as int * 9 / 10) + (rm as int * 9) % 10,
            ;
            lemma_fundamental_div_mod_converse(
                wage as int * 9,
                10,
                q as int * 9 + rm as int * 9 / 10,
                (rm as int * 9) % 10,
            );
        }
        lemma_applicant_share_bounds(wage as int);
    }
    let wage_to_applicant = q * 9 + rm * 9 / 10;
    let divisor: u128 = if trainer_count == 0 {
        1
    } else {
        trainer_count as u128
    };
    let wage_to_trainer = (wage - wage_to_applicant) / divisor;
    proof {
        lemma_div_is_ordered(wage - wage_to_applicant as int, wage as int, divisor as int);
        lemma_div_is_ordered_by_denominator_helper(wage as int, divisor as int);
    }
    (wage_to_applicant, wage_to_trainer)
}

/// Dividing a non-negative value by a positive divisor does not increase it.
proof fn lemma_div_is_ordered_by_denominator_helper(x: int, d: int)
    requires
        0 <= x,
        1 <= d,
    ensures
        x / d <= x,
{
    lemma_fundamental_div_mod(x, d);
    assert(x / d <= x) by (nonlinear_arith)
        requires
            x == d * (x / d) + x % d,
            0 <= x % d,
            1 <= d,
            0 <= x,
    ;
}

/// A dispatched wage payment: the transfers to make and the escrow balance
/// to commit once the applicant's transfer completes successfully.
#[derive(Debug)]
pub struct PendingPayment {
    /// The job's owning employer, whose escrow is debited.
    pub employer: u128,
    /// The employer's escrow balance after the debit of the full wage,
    /// committed by the callback on a successful transfer.
    pub new_escrow: u128,
    /// The applicant to pay.
    pub applicant: u128,
    /// The applicant's share of the wage.
    pub wage_to_applicant: u128,
    /// The trainers to pay, one transfer each.
    pub trainers_to_pay: Vec<u128>,
    /// Each trainer's share of the wage.
    pub wage_to_trainer: u128,
}

} // verus!
