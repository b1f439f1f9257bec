use schoolredux::models::course::{create_course, Course};
use schoolredux::models::course_prerequisite::CoursePrerequisite;
use schoolredux::services::course_service::get_course_by_id;
use schoolredux::store::Store;

fn store_with_department() -> Store {
    let mut store = Store::new();
    let d = schoolredux::models::department::create_department(
        "COSC".to_string(),
        "Computer Science".to_string(),
        &mut store,
    )
    .unwrap();
    assert_eq!(d.id, 1);
    store
}

fn fresh_id() -> u128 {
    uuid::Uuid::new_v4().as_u128()
}

#[test]
fn test_insert_and_delete_course() {
    let mut store = store_with_department();
    let course = create_course(
        fresh_id(),
        1,
        "COSC311".to_string(),
        "Software Testing".to_string(),
        Some("Introduction to software testing methodologies.".to_string()),
        3,
    );

    course.insert(&mut store).unwrap();

    let inserted = get_course_by_id(course.id, &store);
    assert!(inserted.is_some());

    course.delete(&mut store).unwrap();

    let after_delete = get_course_by_id(course.id, &store);
    assert!(after_delete.is_none());
}

#[test]
fn test_add_and_get_prerequisite() {
    let mut store = store_with_department();

    let main_course = create_course(
        fresh_id(),
        1,
        "CS220".to_string(),
        "Advanced Programming".to_string(),
        None,
        4,
    );

    let prereq_course = create_course(
        fresh_id(),
        1,
        "CS110".to_string(),
        "Foundations of CS".to_string(),
        None,
        3,
    );

    main_course.insert(&mut store).unwrap();
    prereq_course.insert(&mut store).unwrap();

    let prereq = CoursePrerequisite::new(main_course.id, prereq_course.id);
    main_course.add_prerequisite(&mut store, &prereq).unwrap();

    let prerequisites: Vec<Course> = main_course.prerequisites(&store);
    assert_eq!(prerequisites.len(), 1);
    assert_eq!(prerequisites[0].id, prereq_course.id);
}

#[test]
fn test_remove_prerequisite() {
    let mut store = store_with_department();

    let course = create_course(
        fresh_id(),
        1,
        "CS301".to_string(),
        "Algorithms".to_string(),
        None,
        4,
    );

    let prereq = create_course(
        fresh_id(),
        1,
        "CS201".to_string(),
        "Data Structures".to_string(),
        None,
        4,
    );

    course.insert(&mut store).unwrap();
    prereq.insert(&mut store).unwrap();

    let link = CoursePrerequisite::new(course.id, prereq.id);
    course.add_prerequisite(&mut store, &link).unwrap();

    let before_removal = course.prerequisites(&store);
    assert_eq!(before_removal.len(), 1);

    course.remove_prerequisite(&mut store, &link).unwrap();

    let after_removal = course.prerequisites(&store);
    assert_eq!(after_removal.len(), 0);
}
