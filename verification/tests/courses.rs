use eakazi::{EAKazi, EAKaziError};

fn new_state() -> EAKazi {
    EAKazi::default()
}

#[test]
fn create_course_and_read_back() {
    let mut s = new_state();
    let r = s.create_course(
        7,
        1,
        "Rust".to_string(),
        "Systems programming".to_string(),
        "key-rust".to_string(),
        vec![10, 11],
    );
    assert_eq!(r, Ok(()));
    assert!(s.course_exists(1));
    assert!(!s.course_exists(2));
    assert!(s.exists_by_key(&"key-rust".to_string()));
    assert!(!s.exists_by_key(&"key-go".to_string()));
    let c = s.get_course_by_id(1).unwrap();
    assert_eq!(c.id, 1);
    assert_eq!(c.name, "Rust");
    assert_eq!(c.description, "Systems programming");
    assert_eq!(c.course_key, "key-rust");
    assert_eq!(c.skills, vec![10, 11]);
    assert!(s.get_course_by_id(2).is_none());
}

#[test]
fn create_course_duplicate_key_rejected_without_mutation() {
    let mut s = new_state();
    assert_eq!(
        s.create_course(7, 1, "A".to_string(), "a".to_string(), "same-key".to_string(), vec![1]),
        Ok(())
    );
    let r = s.create_course(
        8,
        2,
        "B".to_string(),
        "b".to_string(),
        "same-key".to_string(),
        vec![2],
    );
    assert_eq!(r, Err(EAKaziError::AlreadyExists));
    assert!(!s.course_exists(2));
    assert!(s.get_course_by_id(2).is_none());
    let first = s.get_course_by_id(1).unwrap();
    assert_eq!(first.name, "A");
}

#[test]
fn create_course_duplicate_id_rejected() {
    let mut s = new_state();
    assert_eq!(
        s.create_course(7, 1, "A".to_string(), "a".to_string(), "key-a".to_string(), vec![1]),
        Ok(())
    );
    let r = s.create_course(8, 1, "B".to_string(), "b".to_string(), "key-b".to_string(), vec![2]);
    assert_eq!(r, Err(EAKaziError::AlreadyExists));
    let kept = s.get_course_by_id(1).unwrap();
    assert_eq!(kept.name, "A");
    assert!(!s.exists_by_key(&"key-b".to_string()));
}

#[test]
fn enroll_records_trainee() {
    let mut s = new_state();
    s.create_course(7, 1, "A".to_string(), "a".to_string(), "k".to_string(), vec![1])
        .unwrap();
    assert!(!s.is_user_enrolled(1, 42));
    assert_eq!(s.enroll_for_course(1, 42), Ok(()));
    assert!(s.is_user_enrolled(1, 42));
    assert!(!s.is_user_enrolled(1, 43));
}

#[test]
fn enroll_missing_course_rejected() {
    let mut s = new_state();
    assert_eq!(s.enroll_for_course(9, 42), Err(EAKaziError::CourseNotFound));
    assert!(!s.is_user_enrolled(9, 42));
}

#[test]
fn enroll_twice_is_not_prevented() {
    let mut s = new_state();
    s.create_course(7, 1, "A".to_string(), "a".to_string(), "k".to_string(), vec![1])
        .unwrap();
    assert_eq!(s.enroll_for_course(1, 42), Ok(()));
    assert_eq!(s.enroll_for_course(1, 42), Ok(()));
    assert!(s.is_user_enrolled(1, 42));
}
