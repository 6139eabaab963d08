use eakazi::{EAKazi, EAKaziError};

const TRAINER: u128 = 7;
const TRAINEE: u128 = 42;

fn state_with_course(skills: Vec<u128>) -> EAKazi {
    let mut s = EAKazi::default();
    s.create_course(
        TRAINER,
        1,
        "Rust".to_string(),
        "Systems programming".to_string(),
        "key-rust".to_string(),
        skills,
    )
    .unwrap();
    s
}

#[test]
fn mint_request_carries_snapshot() {
    let s = state_with_course(vec![10, 11]);
    let req = s
        .mint_certificate_to_trainee(1, TRAINEE, "https://certs/1".to_string(), "2024-01-02".to_string())
        .unwrap();
    assert_eq!(req.token_owner_id, TRAINEE);
    assert_eq!(req.trainer, TRAINER);
    assert_eq!(req.course_name, "Rust");
    assert_eq!(req.certificate_url, "https://certs/1");
    assert_eq!(req.issue_date, "2024-01-02");
    assert_eq!(req.course_id, 1);
    assert_eq!(req.skills, vec![10, 11]);
}

#[test]
fn mint_request_missing_course_rejected() {
    let s = state_with_course(vec![10]);
    let r = s.mint_certificate_to_trainee(9, TRAINEE, "u".to_string(), "d".to_string());
    assert_eq!(r.unwrap_err(), EAKaziError::CourseNotFound);
}

#[test]
fn mint_callback_success_commits_certificate() {
    let mut s = state_with_course(vec![10]);
    // A job requiring the course's one skill makes the committed certificate
    // observable through the matcher.
    s.create_job(100, 5, "J".to_string(), "j".to_string(), vec![10], 50, 1, 1, 50)
        .unwrap();
    assert!(s.user_has_skills_for_job(TRAINEE, 100).is_none());
    s.on_mint_certificate_callback(TRAINEE, vec![10], 1, TRAINER, Some("tok-1".to_string()));
    assert_eq!(s.user_has_skills_for_job(TRAINEE, 100), Some(vec![TRAINER]));
}

#[test]
fn mint_callback_failure_commits_nothing() {
    let mut s = state_with_course(vec![10]);
    s.create_job(100, 5, "J".to_string(), "j".to_string(), vec![10], 50, 1, 1, 50)
        .unwrap();
    s.on_mint_certificate_callback(TRAINEE, vec![10], 1, TRAINER, None);
    // No certificate exists, not even a partial one: the trainee still does
    // not match a job requiring the course's skill.
    assert!(s.user_has_skills_for_job(TRAINEE, 100).is_none());
    assert_eq!(s.apply_to_job(100, TRAINEE), Err(EAKaziError::Unqualified));
}
