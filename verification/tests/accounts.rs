use schoolredux::date::Date;
use schoolredux::errors::DomainError;
use schoolredux::models::course_offering::CourseOffering;
use schoolredux::models::registration::{register, RegistrationStatus};
use schoolredux::models::student_profile::{StudentMajor, StudentProfile};
use schoolredux::models::term::Term;
use schoolredux::models::user::{FullName, Role, User};
use schoolredux::security::password::{hash_password, validate_password};
use schoolredux::services::user_service::{
    get_user_by_id, get_user_hash, register_admin, register_student, resolve_user, try_login,
};
use schoolredux::store::Store;

#[test]
fn registered_student_can_log_in() {
    let mut store = Store::new();
    let (user, profile) = register_student(
        "ada@example.edu".to_string(),
        "correct horse battery".to_string(),
        FullName::new("Ada", "Lovelace"),
        2024,
        StudentMajor::Mathematics,
        &mut store,
    )
    .unwrap();
    assert_eq!(user.role, Role::Student);
    assert_eq!(profile.user_id, user.id);
    assert!(profile.student_number >= 10_000_000 && profile.student_number <= 99_999_999);

    assert!(try_login(
        &"ada@example.edu".to_string(),
        &"correct horse battery".to_string(),
        &store
    ));
    assert!(!try_login(
        &"ada@example.edu".to_string(),
        &"wrong password".to_string(),
        &store
    ));
    assert!(!try_login(
        &"nobody@example.edu".to_string(),
        &"correct horse battery".to_string(),
        &store
    ));
}

#[test]
fn duplicate_email_is_refused() {
    let mut store = Store::new();
    register_admin(
        "root@example.edu".to_string(),
        "pw-one".to_string(),
        FullName::new("Grace", "Hopper"),
        &mut store,
    )
    .unwrap();
    let second = register_student(
        "root@example.edu".to_string(),
        "pw-two".to_string(),
        FullName::new("Grace", "Hopper"),
        2024,
        StudentMajor::Engineering,
        &mut store,
    );
    assert_eq!(second.unwrap_err(), DomainError::Duplicate);
}

#[test]
fn password_hash_round_trips_and_bad_hashes_fail_closed() {
    let hash = hash_password("open sesame").unwrap();
    assert!(validate_password("open sesame", &hash).unwrap());
    assert!(!validate_password("open sesame!", &hash).unwrap());
    assert!(validate_password("anything", "not a phc string").is_err());
}

#[test]
fn user_lookup_and_hash_fetch() {
    let mut store = Store::new();
    let user = User::create_user(
        "bob@example.edu".to_string(),
        "stored-hash".to_string(),
        FullName::new("Bob", "Builder"),
        Role::Student,
        &mut store,
    )
    .unwrap();
    let fetched = get_user_by_id(user.id, &store).unwrap();
    assert_eq!(fetched.email, "bob@example.edu");
    assert_eq!(get_user_hash(fetched, &store).unwrap(), "stored-hash");
    assert!(get_user_by_id(12345, &store).is_none());
}

#[test]
fn one_profile_per_user() {
    let mut store = Store::new();
    let user = User::create_user(
        "carol@example.edu".to_string(),
        "h".to_string(),
        FullName::new("Carol", "Shaw"),
        Role::Student,
        &mut store,
    )
    .unwrap();
    StudentProfile::create(user.id, 2023, StudentMajor::Physics, &mut store).unwrap();
    let again = StudentProfile::create(user.id, 2023, StudentMajor::Physics, &mut store);
    assert_eq!(again.unwrap_err(), DomainError::Duplicate);
    let orphan = StudentProfile::create(999, 2023, StudentMajor::Physics, &mut store);
    assert_eq!(orphan.unwrap_err(), DomainError::NotFound);
}

#[test]
fn deleting_a_user_cascades_over_their_registrations() {
    let mut store = Store::new();
    schoolredux::models::department::create_department(
        "COSC".to_string(),
        "Computer Science".to_string(),
        &mut store,
    )
    .unwrap();
    let course = schoolredux::models::course::create_course(
        7,
        1,
        "COSC101".to_string(),
        "Intro".to_string(),
        None,
        3,
    );
    course.insert(&mut store).unwrap();
    let term = Term::create_term(
        Date::new(2024, 9, 1).unwrap(),
        Date::new(2024, 12, 15).unwrap(),
        &mut store,
    )
    .unwrap();
    let instructor = User::create_user(
        "t@example.edu".to_string(),
        "h".to_string(),
        FullName::new("T", "T"),
        Role::Admin,
        &mut store,
    )
    .unwrap();
    let offering = CourseOffering::create(
        course.id,
        term.id,
        instructor.id,
        5,
        "Hall".to_string(),
        &mut store,
    )
    .unwrap();
    let alice = User::create_user(
        "alice@example.edu".to_string(),
        "h".to_string(),
        FullName::new("Alice", "A"),
        Role::Student,
        &mut store,
    )
    .unwrap();
    let reg = register(alice.id, offering.id, &mut store).unwrap();
    assert_eq!(reg.status, RegistrationStatus::Registered);
    assert_eq!(offering.current_enrollment(&store), 1);

    let registered = alice.get_registered_courses(&store);
    assert_eq!(registered.len(), 1);
    assert_eq!(registered[0].id, course.id);
    assert_eq!(alice.get_all_user_courses(&store).len(), 1);

    alice.delete(&mut store).unwrap();
    assert!(get_user_by_id(alice.id, &store).is_none());
    assert_eq!(offering.current_enrollment(&store), 0);
    assert_eq!(alice.delete(&mut store).unwrap_err(), DomainError::NotFound);
}

#[test]
fn foreign_hash_algorithms_are_reported_not_verified() {
    let outcome = validate_password(
        "pw",
        "$pbkdf2-sha256$i=1000$c2FsdHNhbHQ$aGFzaGhhc2hoYXNoaGFzaA",
    );
    assert_eq!(outcome.unwrap_err(), DomainError::Authentication);
}

#[test]
fn resolving_an_email_gives_id_and_role() {
    let mut store = Store::new();
    let admin = register_admin(
        "dean@example.edu".to_string(),
        "pw".to_string(),
        FullName::new("Dean", "D"),
        &mut store,
    )
    .unwrap();
    let (id, role) = resolve_user(&"dean@example.edu".to_string(), &store).unwrap();
    assert_eq!(id, admin.id);
    assert_eq!(role, Role::Admin);
    assert_eq!(
        resolve_user(&"ghost@example.edu".to_string(), &store).unwrap_err(),
        DomainError::NotFound
    );
}
