use schoolredux::date::Date;
use schoolredux::errors::DomainError;
use schoolredux::models::course::create_course;
use schoolredux::models::course_offering::CourseOffering;
use schoolredux::models::course_prerequisite::CoursePrerequisite;
use schoolredux::models::registration::{
    assign_grade, drop_registration, register, Grade, Registration, RegistrationStatus,
};
use schoolredux::models::term::Term;
use schoolredux::models::user::{FullName, Role, User};
use schoolredux::store::Store;

fn date(year: i32, month: u8, day: u8) -> Date {
    Date::new(year, month, day).unwrap()
}

fn new_user(store: &mut Store, email: &str) -> User {
    User::create_user(
        email.to_string(),
        "not-a-real-hash".to_string(),
        FullName::new("Ada", "Lovelace"),
        Role::Student,
        store,
    )
    .unwrap()
}

fn new_course(store: &mut Store, number: &str) -> schoolredux::models::course::Course {
    let course = create_course(
        uuid::Uuid::new_v4().as_u128(),
        1,
        number.to_string(),
        number.to_string(),
        None,
        3,
    );
    course.insert(store).unwrap();
    course
}

/// A department, a course, a term, an instructor, and an offering of
/// the given capacity.
fn campus(capacity: i32) -> (Store, CourseOffering) {
    let mut store = Store::new();
    schoolredux::models::department::create_department(
        "COSC".to_string(),
        "Computer Science".to_string(),
        &mut store,
    )
    .unwrap();
    let course = new_course(&mut store, "COSC101");
    let term = Term::create_term(date(2024, 9, 1), date(2024, 12, 15), &mut store).unwrap();
    let instructor = new_user(&mut store, "instructor@example.edu");
    let offering = CourseOffering::create(
        course.id,
        term.id,
        instructor.id,
        capacity,
        "Hall 1".to_string(),
        &mut store,
    )
    .unwrap();
    (store, offering)
}

#[test]
fn two_students_race_for_one_seat() {
    let (mut store, offering) = campus(1);
    let alice = new_user(&mut store, "alice@example.edu");
    let bob = new_user(&mut store, "bob@example.edu");

    let first = register(alice.id, offering.id, &mut store).unwrap();
    let second = register(bob.id, offering.id, &mut store).unwrap();

    assert_eq!(first.status, RegistrationStatus::Registered);
    assert_eq!(second.status, RegistrationStatus::Waitlisted);
    assert_eq!(offering.current_enrollment(&store), 1);
}

#[test]
fn capacity_is_never_exceeded_by_a_sequence_of_registrations() {
    let (mut store, offering) = campus(2);
    let mut outcomes: Vec<RegistrationStatus> = Vec::new();
    for i in 0..5 {
        let student = new_user(&mut store, &format!("student{}@example.edu", i));
        let reg = register(student.id, offering.id, &mut store).unwrap();
        outcomes.push(reg.status);
        assert!(offering.current_enrollment(&store) <= 2);
    }
    assert_eq!(
        outcomes,
        vec![
            RegistrationStatus::Registered,
            RegistrationStatus::Registered,
            RegistrationStatus::Waitlisted,
            RegistrationStatus::Waitlisted,
            RegistrationStatus::Waitlisted,
        ]
    );
    assert_eq!(offering.current_enrollment(&store), 2);
}

#[test]
fn duplicate_active_registration_is_refused() {
    let (mut store, offering) = campus(10);
    let alice = new_user(&mut store, "alice@example.edu");
    register(alice.id, offering.id, &mut store).unwrap();
    let again = register(alice.id, offering.id, &mut store);
    assert_eq!(again.unwrap_err(), DomainError::Duplicate);
}

#[test]
fn registering_for_unknown_offering_or_student_fails() {
    let (mut store, offering) = campus(1);
    let alice = new_user(&mut store, "alice@example.edu");
    assert_eq!(
        register(alice.id, 424242, &mut store).unwrap_err(),
        DomainError::NotFound
    );
    assert_eq!(
        register(424242, offering.id, &mut store).unwrap_err(),
        DomainError::NotFound
    );
}

#[test]
fn missing_prerequisite_blocks_registration() {
    let (mut store, offering) = campus(5);
    let course_a = schoolredux::services::course_service::get_course_by_id(
        offering.course_id,
        &store,
    )
    .unwrap();
    let course_b = new_course(&mut store, "COSC100");
    let edge = CoursePrerequisite::new(course_a.id, course_b.id);
    course_a.add_prerequisite(&mut store, &edge).unwrap();

    let alice = new_user(&mut store, "alice@example.edu");
    let attempt = register(alice.id, offering.id, &mut store);
    assert_eq!(attempt.unwrap_err(), DomainError::Eligibility);
}

#[test]
fn completed_prerequisite_admits_registration() {
    let (mut store, offering) = campus(5);
    let course_a = schoolredux::services::course_service::get_course_by_id(
        offering.course_id,
        &store,
    )
    .unwrap();
    let course_b = new_course(&mut store, "COSC100");
    let edge = CoursePrerequisite::new(course_a.id, course_b.id);
    course_a.add_prerequisite(&mut store, &edge).unwrap();

    let earlier = Term::create_term(date(2023, 5, 1), date(2023, 8, 1), &mut store).unwrap();
    let instructor = new_user(&mut store, "teacher2@example.edu");
    let offering_b = CourseOffering::create(
        course_b.id,
        earlier.id,
        instructor.id,
        30,
        "Hall 2".to_string(),
        &mut store,
    )
    .unwrap();

    let alice = new_user(&mut store, "alice@example.edu");
    let prior = register(alice.id, offering_b.id, &mut store).unwrap();
    assert_eq!(prior.status, RegistrationStatus::Registered);

    let now = register(alice.id, offering.id, &mut store).unwrap();
    assert_eq!(now.status, RegistrationStatus::Registered);
}

#[test]
fn dropping_frees_a_seat_but_keeps_the_row() {
    let (mut store, offering) = campus(1);
    let alice = new_user(&mut store, "alice@example.edu");
    let reg = register(alice.id, offering.id, &mut store).unwrap();
    assert_eq!(offering.current_enrollment(&store), 1);

    drop_registration(reg.id, &mut store).unwrap();
    assert_eq!(offering.current_enrollment(&store), 0);

    // The row still exists: grading it now reports an invalid state,
    // not a missing registration.
    assert_eq!(
        assign_grade(reg.id, Grade::A, &mut store).unwrap_err(),
        DomainError::InvalidState
    );

    // No waitlisted student was promoted, and the student may register
    // afresh.
    let again = register(alice.id, offering.id, &mut store).unwrap();
    assert_eq!(again.status, RegistrationStatus::Registered);
}

#[test]
fn dropping_unknown_registration_fails() {
    let (mut store, _offering) = campus(1);
    assert_eq!(
        drop_registration(99, &mut store).unwrap_err(),
        DomainError::NotFound
    );
}

#[test]
fn grading_is_gated_on_the_registered_state() {
    let (mut store, offering) = campus(1);
    let alice = new_user(&mut store, "alice@example.edu");
    let bob = new_user(&mut store, "bob@example.edu");
    let seated = register(alice.id, offering.id, &mut store).unwrap();
    let waiting = register(bob.id, offering.id, &mut store).unwrap();
    assert_eq!(waiting.status, RegistrationStatus::Waitlisted);

    assert_eq!(
        assign_grade(waiting.id, Grade::B, &mut store).unwrap_err(),
        DomainError::InvalidState
    );
    assign_grade(seated.id, Grade::B, &mut store).unwrap();
    // Overwriting is allowed, and assigning the same grade twice is a
    // no-op the second time.
    assign_grade(seated.id, Grade::A, &mut store).unwrap();
    assign_grade(seated.id, Grade::A, &mut store).unwrap();
    assert_eq!(
        assign_grade(7777, Grade::A, &mut store).unwrap_err(),
        DomainError::NotFound
    );
}

#[test]
fn create_with_explicit_registered_status_respects_capacity() {
    let (mut store, offering) = campus(1);
    let alice = new_user(&mut store, "alice@example.edu");
    let bob = new_user(&mut store, "bob@example.edu");
    let first = Registration::create(
        alice.id,
        offering.id,
        RegistrationStatus::Registered,
        &mut store,
    );
    assert!(first.is_ok());
    let second = Registration::create(
        bob.id,
        offering.id,
        RegistrationStatus::Registered,
        &mut store,
    );
    assert_eq!(second.unwrap_err(), DomainError::CapacityExceeded);
    // The rejected student can still join the waitlist explicitly.
    let waitlisted = Registration::create(
        bob.id,
        offering.id,
        RegistrationStatus::Waitlisted,
        &mut store,
    )
    .unwrap();
    assert_eq!(waitlisted.status, RegistrationStatus::Waitlisted);
}
