use eakazi::{split_wage, EAKazi, EAKaziError};

const EMPLOYER: u128 = 5;
const TRAINEE: u128 = 42;
const TRAINER_A: u128 = 7;
const TRAINER_B: u128 = 8;

/// An employer's job with an applied trainee whose payee list holds the two
/// trainers, one per required skill.
fn applied_state(wage: u128) -> EAKazi {
    let mut s = EAKazi::default();
    s.create_course(TRAINER_A, 1, "A".to_string(), "a".to_string(), "ka".to_string(), vec![10])
        .unwrap();
    s.create_course(TRAINER_B, 2, "B".to_string(), "b".to_string(), "kb".to_string(), vec![11])
        .unwrap();
    s.on_mint_certificate_callback(TRAINEE, vec![10], 1, TRAINER_A, Some("t1".to_string()));
    s.on_mint_certificate_callback(TRAINEE, vec![11], 2, TRAINER_B, Some("t2".to_string()));
    s.create_job(
        100,
        EMPLOYER,
        "Job".to_string(),
        "d".to_string(),
        vec![10, 11],
        wage,
        1,
        1,
        wage,
    )
    .unwrap();
    s.apply_to_job(100, TRAINEE).unwrap();
    s
}

#[test]
fn pay_wage_splits_100_among_applicant_and_two_trainers() {
    let s = applied_state(100);
    let p = s.pay_wage(100, TRAINEE, EMPLOYER).unwrap();
    assert_eq!(p.employer, EMPLOYER);
    assert_eq!(p.applicant, TRAINEE);
    assert_eq!(p.wage_to_applicant, 90);
    assert_eq!(p.trainers_to_pay, vec![TRAINER_A, TRAINER_B]);
    assert_eq!(p.wage_to_trainer, 5);
    // Escrow held exactly the wage, so the debit of the full 100 empties it.
    assert_eq!(p.new_escrow, 0);
    assert_eq!(p.wage_to_applicant + 2 * p.wage_to_trainer, 100);
}

#[test]
fn pay_wage_truncating_split_keeps_remainder_in_escrow_debit() {
    let s = applied_state(105);
    let p = s.pay_wage(100, TRAINEE, EMPLOYER).unwrap();
    assert_eq!(p.wage_to_applicant, 94);
    assert_eq!(p.wage_to_trainer, 5);
    // 94 + 5 + 5 disburses 104 of the 105 debited: the division remainder 1
    // is not paid out to anyone.
    assert_eq!(p.wage_to_applicant + 2 * p.wage_to_trainer, 104);
    assert_eq!(p.new_escrow, 0);
}

#[test]
fn pay_wage_checks_job_owner_and_application() {
    let s = applied_state(100);
    assert_eq!(s.pay_wage(999, TRAINEE, EMPLOYER).unwrap_err(), EAKaziError::JobNotFound);
    assert_eq!(s.pay_wage(100, TRAINEE, TRAINER_A).unwrap_err(), EAKaziError::NotOwner);
    assert_eq!(s.pay_wage(100, 43, EMPLOYER).unwrap_err(), EAKaziError::NotApplied);
}

#[test]
fn confirmed_transfer_commits_escrow_debit() {
    let mut s = applied_state(100);
    assert_eq!(s.escrow_balance(EMPLOYER), 100);
    let p = s.pay_wage(100, TRAINEE, EMPLOYER).unwrap();
    // Preparing the payment commits nothing yet.
    assert_eq!(s.escrow_balance(EMPLOYER), 100);
    s.on_pay_wage_callback(p.employer, p.new_escrow, true);
    assert_eq!(s.escrow_balance(EMPLOYER), 0);
    // The escrow is now empty: a second payment cannot be prepared.
    assert_eq!(
        s.pay_wage(100, TRAINEE, EMPLOYER).unwrap_err(),
        EAKaziError::InsufficientEscrow
    );
}

#[test]
fn failed_transfer_leaves_escrow_untouched() {
    let mut s = applied_state(100);
    let p = s.pay_wage(100, TRAINEE, EMPLOYER).unwrap();
    s.on_pay_wage_callback(p.employer, p.new_escrow, false);
    // The debit was not committed: the wage can still be paid.
    assert_eq!(s.escrow_balance(EMPLOYER), 100);
    let again = s.pay_wage(100, TRAINEE, EMPLOYER).unwrap();
    assert_eq!(again.new_escrow, 0);
    assert_eq!(again.wage_to_applicant, 90);
}

#[test]
fn create_job_credits_escrow_for_all_roles_and_periods() {
    let mut s = EAKazi::default();
    assert_eq!(s.escrow_balance(EMPLOYER), 0);
    s.create_job(
        100,
        EMPLOYER,
        "J".to_string(),
        "d".to_string(),
        vec![10],
        100,
        2,
        3,
        700,
    )
    .unwrap();
    // wage 100, 2 roles, 3 periods: 600 escrowed, whatever excess the
    // deposit carried.
    assert_eq!(s.escrow_balance(EMPLOYER), 600);
}

#[test]
fn escrow_accumulates_across_jobs() {
    let mut s = applied_state(100);
    // A second job by the same employer adds to the escrow: after paying the
    // first wage, the second job's funds are still there.
    s.create_job(
        101,
        EMPLOYER,
        "Job2".to_string(),
        "d".to_string(),
        vec![10, 11],
        60,
        1,
        1,
        60,
    )
    .unwrap();
    let p = s.pay_wage(100, TRAINEE, EMPLOYER).unwrap();
    assert_eq!(p.new_escrow, 60);
    s.on_pay_wage_callback(p.employer, p.new_escrow, true);
    s.apply_to_job(101, TRAINEE).unwrap();
    let p2 = s.pay_wage(101, TRAINEE, EMPLOYER).unwrap();
    assert_eq!(p2.wage_to_applicant, 54);
    assert_eq!(p2.wage_to_trainer, 3);
    assert_eq!(p2.new_escrow, 0);
}

#[test]
fn split_wage_small_values() {
    assert_eq!(split_wage(100, 2), (90, 5));
    assert_eq!(split_wage(100, 0), (90, 10));
    assert_eq!(split_wage(0, 3), (0, 0));
    assert_eq!(split_wage(9, 1), (8, 1));
    assert_eq!(split_wage(105, 2), (94, 5));
}

#[test]
fn split_wage_never_overflows() {
    let (a, t) = split_wage(u128::MAX, 1);
    assert_eq!(a, 306254130228844617117037146688591390309);
    assert_eq!(t, 34028236692093846346337460743176821146);
    assert_eq!(a + t, u128::MAX);
}
