use eakazi::{EAKazi, EAKaziError, STATUS_APPLIED, STATUS_EMPLOYED, STATUS_ENDED};

const EMPLOYER: u128 = 5;
const TRAINEE: u128 = 42;
const TRAINER_A: u128 = 7;
const TRAINER_B: u128 = 8;

/// An employer's job requiring two skills, and a trainee certified for both,
/// each skill by a different trainer.
fn hiring_state(wage: u128, deposit: u128) -> EAKazi {
    let mut s = EAKazi::default();
    s.create_course(TRAINER_A, 1, "A".to_string(), "a".to_string(), "ka".to_string(), vec![10])
        .unwrap();
    s.create_course(TRAINER_B, 2, "B".to_string(), "b".to_string(), "kb".to_string(), vec![11])
        .unwrap();
    s.on_mint_certificate_callback(TRAINEE, vec![10], 1, TRAINER_A, Some("t1".to_string()));
    s.on_mint_certificate_callback(TRAINEE, vec![11], 2, TRAINER_B, Some("t2".to_string()));
    s.create_job(
        100,
        EMPLOYER,
        "Job".to_string(),
        "desc".to_string(),
        vec![10, 11],
        wage,
        1,
        1,
        deposit,
    )
    .unwrap();
    s
}

#[test]
fn create_job_and_read_back() {
    let s = hiring_state(100, 100);
    assert!(s.job_exists(100));
    assert!(!s.job_exists(101));
    let j = s.get_job_by_id(100).unwrap();
    assert_eq!(j.id, 100);
    assert_eq!(j.name, "Job");
    assert_eq!(j.description, "desc");
    assert_eq!(j.skills, vec![10, 11]);
    assert_eq!(j.job_owner, EMPLOYER);
    assert_eq!(j.wage, 100);
    assert_eq!(j.number_of_roles, 1);
    assert_eq!(j.number_of_roles_taken, 0);
    assert_eq!(j.status, 0);
}

#[test]
fn create_job_insufficient_deposit_rejected() {
    let mut s = EAKazi::default();
    // wage 100 over 2 roles and 3 periods needs 600 in escrow.
    let r = s.create_job(
        100,
        EMPLOYER,
        "Job".to_string(),
        "d".to_string(),
        vec![10],
        100,
        2,
        3,
        599,
    );
    assert_eq!(r, Err(EAKaziError::InsufficientDeposit));
    assert!(!s.job_exists(100));
}

#[test]
fn apply_stores_fresh_application_with_payees() {
    let mut s = hiring_state(100, 100);
    assert_eq!(s.apply_to_job(100, TRAINEE), Ok(()));
    let a = s.get_job_aplication(100, TRAINEE).unwrap();
    assert_eq!(a.applicant, TRAINEE);
    assert_eq!(a.job_id, 100);
    assert_eq!(a.status, STATUS_APPLIED);
    assert_eq!(a.start_date, None);
    assert_eq!(a.trainers_to_pay, vec![TRAINER_A, TRAINER_B]);
}

#[test]
fn apply_to_missing_job_rejected() {
    let mut s = hiring_state(100, 100);
    assert_eq!(s.apply_to_job(999, TRAINEE), Err(EAKaziError::JobNotFound));
}

#[test]
fn apply_twice_rejected_and_first_kept() {
    let mut s = hiring_state(100, 100);
    assert_eq!(s.apply_to_job(100, TRAINEE), Ok(()));
    assert_eq!(s.apply_to_job(100, TRAINEE), Err(EAKaziError::AlreadyApplied));
    let a = s.get_job_aplication(100, TRAINEE).unwrap();
    assert_eq!(a.status, STATUS_APPLIED);
}

#[test]
fn unqualified_applicant_rejected() {
    let mut s = hiring_state(100, 100);
    assert_eq!(s.apply_to_job(100, 43), Err(EAKaziError::Unqualified));
    assert!(s.get_job_aplication(100, 43).is_none());
}

#[test]
fn confirm_employment_steps_to_employed() {
    let mut s = hiring_state(100, 100);
    s.apply_to_job(100, TRAINEE).unwrap();
    assert_eq!(s.confirm_job_emloyment(100, TRAINEE, EMPLOYER, 1234), Ok(()));
    let a = s.get_job_aplication(100, TRAINEE).unwrap();
    assert_eq!(a.status, STATUS_EMPLOYED);
    assert_eq!(a.start_date, Some(1234));
    assert_eq!(a.trainers_to_pay, vec![TRAINER_A, TRAINER_B]);
}

#[test]
fn confirm_by_non_owner_rejected() {
    let mut s = hiring_state(100, 100);
    s.apply_to_job(100, TRAINEE).unwrap();
    assert_eq!(
        s.confirm_job_emloyment(100, TRAINEE, TRAINER_A, 1234),
        Err(EAKaziError::NotOwner)
    );
    assert_eq!(s.get_job_aplication(100, TRAINEE).unwrap().status, STATUS_APPLIED);
}

#[test]
fn confirm_without_application_rejected() {
    let mut s = hiring_state(100, 100);
    assert_eq!(
        s.confirm_job_emloyment(100, TRAINEE, EMPLOYER, 1234),
        Err(EAKaziError::NotApplied)
    );
}

#[test]
fn confirm_twice_rejected() {
    let mut s = hiring_state(100, 100);
    s.apply_to_job(100, TRAINEE).unwrap();
    s.confirm_job_emloyment(100, TRAINEE, EMPLOYER, 1234).unwrap();
    assert_eq!(
        s.confirm_job_emloyment(100, TRAINEE, EMPLOYER, 1235),
        Err(EAKaziError::InvalidStatus)
    );
    assert_eq!(s.get_job_aplication(100, TRAINEE).unwrap().start_date, Some(1234));
}

#[test]
fn end_employment_before_confirmation_rejected() {
    let mut s = hiring_state(100, 100);
    s.apply_to_job(100, TRAINEE).unwrap();
    // The application is still freshly applied: ending it is rejected and
    // the status stays where it was.
    assert_eq!(
        s.end_job_employment(100, TRAINEE, EMPLOYER),
        Err(EAKaziError::InvalidStatus)
    );
    assert_eq!(s.get_job_aplication(100, TRAINEE).unwrap().status, STATUS_APPLIED);
}

#[test]
fn end_employment_steps_to_ended_once() {
    let mut s = hiring_state(100, 100);
    s.apply_to_job(100, TRAINEE).unwrap();
    s.confirm_job_emloyment(100, TRAINEE, EMPLOYER, 1234).unwrap();
    assert_eq!(s.end_job_employment(100, TRAINEE, EMPLOYER), Ok(()));
    let a = s.get_job_aplication(100, TRAINEE).unwrap();
    assert_eq!(a.status, STATUS_ENDED);
    assert_eq!(a.start_date, Some(1234));
    assert_eq!(
        s.end_job_employment(100, TRAINEE, EMPLOYER),
        Err(EAKaziError::InvalidStatus)
    );
}

#[test]
fn end_by_non_owner_rejected() {
    let mut s = hiring_state(100, 100);
    s.apply_to_job(100, TRAINEE).unwrap();
    s.confirm_job_emloyment(100, TRAINEE, EMPLOYER, 1234).unwrap();
    assert_eq!(s.end_job_employment(100, TRAINEE, 99), Err(EAKaziError::NotOwner));
    assert_eq!(s.end_job_employment(999, TRAINEE, EMPLOYER), Err(EAKaziError::JobNotFound));
}
