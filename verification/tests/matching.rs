use eakazi::{evaluate, CertificateToken, EAKazi, EAKaziError};

fn cert(skills: Vec<u128>, issuer: u128) -> CertificateToken {
    CertificateToken::new("tok".to_string(), skills, 1, issuer)
}

#[test]
fn half_coverage_does_not_match() {
    // Course with two skills; one certificate covers only the first:
    // matched = 1 of 2, percentage exactly 50, which is not a match.
    let r = evaluate(&vec![10, 11], &vec![cert(vec![10], 7)]);
    assert_eq!(r, None);
}

#[test]
fn majority_coverage_matches() {
    // Two certificates cover two of three skills: 66 percent.
    let certs = vec![cert(vec![10], 7), cert(vec![11], 8)];
    let r = evaluate(&vec![10, 11, 12], &certs);
    assert_eq!(r, Some(vec![7, 8]));
}

#[test]
fn full_coverage_matches() {
    let r = evaluate(&vec![10, 11], &vec![cert(vec![10, 11], 7)]);
    // The one trainer is paid once per matched skill.
    assert_eq!(r, Some(vec![7, 7]));
}

#[test]
fn several_certificates_per_skill_pay_each_issuer() {
    let certs = vec![cert(vec![10], 7), cert(vec![10], 8)];
    let r = evaluate(&vec![10], &certs);
    assert_eq!(r, Some(vec![7, 8]));
}

#[test]
fn no_skills_required_trivially_matches() {
    let r = evaluate(&vec![], &vec![]);
    assert_eq!(r, Some(vec![]));
}

#[test]
fn no_certificates_do_not_match() {
    let r = evaluate(&vec![10], &vec![]);
    assert_eq!(r, None);
}

#[test]
fn matcher_through_state_boundary_case() {
    // The same 50-percent boundary, observed through the stored state.
    let mut s = EAKazi::default();
    s.create_course(7, 1, "C".to_string(), "c".to_string(), "k".to_string(), vec![10, 11])
        .unwrap();
    s.create_job(100, 5, "J".to_string(), "j".to_string(), vec![10, 11], 50, 1, 1, 50)
        .unwrap();
    s.on_mint_certificate_callback(42, vec![10], 1, 7, Some("tok-1".to_string()));
    assert_eq!(s.user_has_skills_for_job(42, 100), None);
    assert_eq!(s.apply_to_job(100, 42), Err(EAKaziError::Unqualified));
}

#[test]
fn zero_skill_job_has_no_payees_so_apply_is_rejected() {
    let mut s = EAKazi::default();
    s.create_job(100, 5, "J".to_string(), "j".to_string(), vec![], 50, 1, 1, 50)
        .unwrap();
    // Trivial match, but with an empty trainer list...
    assert_eq!(s.user_has_skills_for_job(42, 100), Some(vec![]));
    // ...which an application requires to be non-empty.
    assert_eq!(s.apply_to_job(100, 42), Err(EAKaziError::Unqualified));
}
