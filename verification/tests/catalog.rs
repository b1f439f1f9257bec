use schoolredux::date::{Date, TimeOfDay};
use schoolredux::errors::DomainError;
use schoolredux::models::course::create_course;
use schoolredux::models::course_meeting_time::{CourseMeetingTime, Weekday};
use schoolredux::models::course_offering::CourseOffering;
use schoolredux::models::department::{create_department, Department};
use schoolredux::models::term::Term;
use schoolredux::models::user::{FullName, Role, User};
use schoolredux::services::course_service::{get_course_by_id, get_meeting_times_by_id};
use schoolredux::services::department_service::get_department_by_code;
use schoolredux::store::Store;

#[test]
fn department_codes_are_unique() {
    let mut store = Store::new();
    let cosc = create_department("COSC".to_string(), "Computer Science".to_string(), &mut store)
        .unwrap();
    assert_eq!(cosc.id, 1);
    let clash = create_department("COSC".to_string(), "Other".to_string(), &mut store);
    assert_eq!(clash.unwrap_err(), DomainError::Duplicate);
    let math = create_department("MATH".to_string(), "Mathematics".to_string(), &mut store)
        .unwrap();
    assert_eq!(math.id, 2);

    let found = get_department_by_code("COSC", &store).unwrap();
    assert_eq!(found.name, "Computer Science");
    assert!(get_department_by_code("HIST", &store).is_none());
}

#[test]
fn deleting_a_department_requires_it_to_exist() {
    let mut store = Store::new();
    let dept = create_department("COSC".to_string(), "Computer Science".to_string(), &mut store)
        .unwrap();
    dept.delete(&mut store).unwrap();
    assert_eq!(dept.delete(&mut store).unwrap_err(), DomainError::NotFound);
    let ghost_dept = Department { id: 7, code: "X".to_string(), name: "X".to_string() };
    assert_eq!(ghost_dept.delete(&mut store).unwrap_err(), DomainError::NotFound);
}

#[test]
fn course_insertion_is_validated() {
    let mut store = Store::new();
    create_department("COSC".to_string(), "Computer Science".to_string(), &mut store).unwrap();

    let negative = create_course(1, 1, "X1".to_string(), "X".to_string(), None, -3);
    assert_eq!(negative.insert(&mut store).unwrap_err(), DomainError::Validation);

    let orphan = create_course(2, 9, "X2".to_string(), "X".to_string(), None, 3);
    assert_eq!(orphan.insert(&mut store).unwrap_err(), DomainError::NotFound);

    let fine = create_course(3, 1, "COSC101".to_string(), "Intro".to_string(), None, 3);
    fine.insert(&mut store).unwrap();
    let twin = create_course(3, 1, "COSC102".to_string(), "Intro II".to_string(), None, 3);
    assert_eq!(twin.insert(&mut store).unwrap_err(), DomainError::Duplicate);

    assert_eq!(get_course_by_id(3, &store).unwrap().title, "Intro");
    assert!(get_course_by_id(4, &store).is_none());
}

#[test]
fn offering_creation_is_validated() {
    let mut store = Store::new();
    create_department("COSC".to_string(), "Computer Science".to_string(), &mut store).unwrap();
    let course = create_course(5, 1, "COSC101".to_string(), "Intro".to_string(), None, 3);
    course.insert(&mut store).unwrap();
    let term = Term::create_term(
        Date::new(2024, 9, 1).unwrap(),
        Date::new(2024, 12, 15).unwrap(),
        &mut store,
    )
    .unwrap();
    let teacher = User::create_user(
        "t@example.edu".to_string(),
        "h".to_string(),
        FullName::new("T", "T"),
        Role::Admin,
        &mut store,
    )
    .unwrap();

    let negative = CourseOffering::create(
        course.id,
        term.id,
        teacher.id,
        -1,
        "Hall".to_string(),
        &mut store,
    );
    assert_eq!(negative.unwrap_err(), DomainError::Validation);

    let no_course = CourseOffering::create(99, term.id, teacher.id, 5, "Hall".to_string(), &mut store);
    assert_eq!(no_course.unwrap_err(), DomainError::NotFound);

    let ok = CourseOffering::create(
        course.id,
        term.id,
        teacher.id,
        0,
        "Hall".to_string(),
        &mut store,
    )
    .unwrap();
    assert_eq!(ok.capacity, 0);
    assert_eq!(ok.current_enrollment(&store), 0);
}

#[test]
fn meetings_are_time_checked_and_attached() {
    let mut store = Store::new();
    create_department("COSC".to_string(), "Computer Science".to_string(), &mut store).unwrap();
    let course = create_course(5, 1, "COSC101".to_string(), "Intro".to_string(), None, 3);
    course.insert(&mut store).unwrap();
    let term = Term::create_term(
        Date::new(2024, 9, 1).unwrap(),
        Date::new(2024, 12, 15).unwrap(),
        &mut store,
    )
    .unwrap();
    let teacher = User::create_user(
        "t@example.edu".to_string(),
        "h".to_string(),
        FullName::new("T", "T"),
        Role::Admin,
        &mut store,
    )
    .unwrap();
    let offering = CourseOffering::create(
        course.id,
        term.id,
        teacher.id,
        5,
        "Hall".to_string(),
        &mut store,
    )
    .unwrap();

    let nine = TimeOfDay::new(9, 0).unwrap();
    let ten_thirty = TimeOfDay::new(10, 30).unwrap();
    assert!(TimeOfDay::new(24, 0).is_err());
    assert!(TimeOfDay::new(9, 60).is_err());

    let backwards =
        CourseMeetingTime::create(offering.id, Weekday::Monday, ten_thirty, nine, &mut store);
    assert_eq!(backwards.unwrap_err(), DomainError::Validation);

    let empty = CourseMeetingTime::create(offering.id, Weekday::Monday, nine, nine, &mut store);
    assert_eq!(empty.unwrap_err(), DomainError::Validation);

    let dangling = CourseMeetingTime::create(31337, Weekday::Monday, nine, ten_thirty, &mut store);
    assert_eq!(dangling.unwrap_err(), DomainError::NotFound);

    let monday =
        CourseMeetingTime::create(offering.id, Weekday::Monday, nine, ten_thirty, &mut store)
            .unwrap();
    let friday =
        CourseMeetingTime::create(offering.id, Weekday::Friday, nine, ten_thirty, &mut store)
            .unwrap();
    assert_eq!(monday.id, 1);
    assert_eq!(friday.id, 2);

    let listed = get_meeting_times_by_id(offering.id, &store);
    assert_eq!(listed.len(), 2);
    assert_eq!(listed[0].day_of_week, Weekday::Monday);
    assert_eq!(listed[1].day_of_week, Weekday::Friday);

    monday.delete(&mut store).unwrap();
    assert_eq!(get_meeting_times_by_id(offering.id, &store).len(), 1);
    assert_eq!(monday.delete(&mut store).unwrap_err(), DomainError::NotFound);
}

#[test]
fn deleting_a_course_cascades_over_its_edges() {
    let mut store = Store::new();
    create_department("COSC".to_string(), "Computer Science".to_string(), &mut store).unwrap();
    let a = create_course(1, 1, "A".to_string(), "A".to_string(), None, 3);
    let b = create_course(2, 1, "B".to_string(), "B".to_string(), None, 3);
    a.insert(&mut store).unwrap();
    b.insert(&mut store).unwrap();
    let edge = schoolredux::models::course_prerequisite::CoursePrerequisite::new(a.id, b.id);
    a.add_prerequisite(&mut store, &edge).unwrap();

    // A self-loop is rejected, and adding the same edge twice keeps one
    // edge.
    let self_loop = schoolredux::models::course_prerequisite::CoursePrerequisite::new(a.id, a.id);
    assert_eq!(
        a.add_prerequisite(&mut store, &self_loop).unwrap_err(),
        DomainError::Validation
    );
    a.add_prerequisite(&mut store, &edge).unwrap();
    assert_eq!(a.prerequisites(&store).len(), 1);

    b.delete(&mut store).unwrap();
    assert_eq!(a.prerequisites(&store).len(), 0);
    assert_eq!(b.delete(&mut store).unwrap_err(), DomainError::NotFound);
}
