use schoolredux::errors::DomainError;
use schoolredux::models::course_meeting_time::{parse_weekday, Weekday};
use schoolredux::models::registration::{parse_grade, parse_status, Grade, RegistrationStatus};
use schoolredux::models::student_profile::{parse_major, StudentMajor};
use schoolredux::models::user::{parse_role, Role};

#[test]
fn unknown_weekday_token_is_rejected_not_mapped() {
    assert_eq!(parse_weekday("Funday").unwrap_err(), DomainError::Validation);
    assert_eq!(parse_weekday("").unwrap_err(), DomainError::Validation);
    assert_eq!(parse_weekday("mondays").unwrap_err(), DomainError::Validation);
}

#[test]
fn weekday_tokens_round_trip() {
    let days = [
        Weekday::Monday,
        Weekday::Tuesday,
        Weekday::Wednesday,
        Weekday::Thursday,
        Weekday::Friday,
    ];
    for d in days {
        assert_eq!(parse_weekday(d.as_token()).unwrap(), d);
        assert_eq!(parse_weekday(d.display_name()).unwrap(), d);
    }
    assert_eq!(parse_weekday("MONDAY").unwrap(), Weekday::Monday);
    assert_eq!(Weekday::Wednesday.display_name(), "Wednesday");
    assert_eq!(Weekday::Wednesday.as_token(), "wednesday");
}

#[test]
fn status_tokens_round_trip() {
    let statuses = [
        RegistrationStatus::Registered,
        RegistrationStatus::Dropped,
        RegistrationStatus::Waitlisted,
    ];
    for s in statuses {
        assert_eq!(parse_status(s.as_token()).unwrap(), s);
    }
    assert_eq!(parse_status("registered").unwrap(), RegistrationStatus::Registered);
    assert_eq!(parse_status("enrolled").unwrap_err(), DomainError::Validation);
}

#[test]
fn grade_tokens_round_trip() {
    let grades = [Grade::A, Grade::B, Grade::C, Grade::D, Grade::F];
    for g in grades {
        assert_eq!(parse_grade(g.as_token()).unwrap(), g);
    }
    assert_eq!(parse_grade("E").unwrap_err(), DomainError::Validation);
    assert_eq!(parse_grade("a").unwrap_err(), DomainError::Validation);
}

#[test]
fn role_tokens_round_trip() {
    assert_eq!(parse_role("student").unwrap(), Role::Student);
    assert_eq!(parse_role("admin").unwrap(), Role::Admin);
    assert_eq!(Role::Student.as_token(), "student");
    assert_eq!(parse_role("root").unwrap_err(), DomainError::Validation);
}

#[test]
fn major_tokens_round_trip() {
    let majors = [
        StudentMajor::ComputerScience,
        StudentMajor::Engineering,
        StudentMajor::Biology,
        StudentMajor::Mathematics,
        StudentMajor::Physics,
        StudentMajor::Psychology,
        StudentMajor::Sociology,
        StudentMajor::Politics,
        StudentMajor::Literature,
        StudentMajor::Business,
        StudentMajor::FineArts,
        StudentMajor::Nursing,
        StudentMajor::Education,
    ];
    for m in majors {
        assert_eq!(parse_major(m.as_token()).unwrap(), m);
    }
    assert_eq!(parse_major("Computer Science").unwrap(), StudentMajor::ComputerScience);
    assert_eq!(parse_major("Alchemy").unwrap_err(), DomainError::Validation);
}
