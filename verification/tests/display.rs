use schoolredux::date::TimeOfDay;
use schoolredux::models::course::create_course;
use schoolredux::models::course_meeting_time::{CourseMeetingTime, Weekday};
use schoolredux::models::course_offering::CourseOffering;

#[test]
fn course_display_form_is_exact() {
    let course = create_course(
        7,
        1,
        "COSC311".to_string(),
        "Software Testing".to_string(),
        Some("Introduction to software testing methodologies.".to_string()),
        3,
    );
    assert_eq!(
        course.describe(),
        "COSC311\nID: 7\nDepartment: 1\nTitle: Software Testing\nDescription: Introduction to software testing methodologies.\nCredits: 3\n"
    );
    let bare = create_course(12345, 2, "M1".to_string(), "Algebra".to_string(), None, 4);
    assert_eq!(
        bare.describe(),
        "M1\nID: 12345\nDepartment: 2\nTitle: Algebra\nDescription: None\nCredits: 4\n"
    );
}

#[test]
fn time_display_form_is_zero_padded() {
    assert_eq!(TimeOfDay::new(9, 5).unwrap().render(), "09:05");
    assert_eq!(TimeOfDay::new(0, 0).unwrap().render(), "00:00");
    assert_eq!(TimeOfDay::new(23, 59).unwrap().render(), "23:59");
}

#[test]
fn offering_and_meeting_display_forms_are_exact() {
    let offering = CourseOffering {
        id: 1,
        course_id: 42,
        term_id: 3,
        instructor_id: 9,
        capacity: 30,
        location: "Hall 1".to_string(),
    };
    assert_eq!(
        offering.describe(),
        "ID: 42\nTerm ID: 3\nInstructor ID: 9\nCapacity: 30\nLocation: Hall 1\n"
    );
    let meeting = CourseMeetingTime {
        id: 2,
        offering_id: 1,
        day_of_week: Weekday::Thursday,
        start_time: TimeOfDay::new(9, 0).unwrap(),
        end_time: TimeOfDay::new(10, 30).unwrap(),
    };
    assert_eq!(
        meeting.describe(),
        "ID: 2\nOffering ID: 1\nWeekday: Thursday\nStart Time: 09:00\nEnd Time: 10:30\n"
    );
}
