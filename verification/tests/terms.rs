use schoolredux::date::Date;
use schoolredux::errors::DomainError;
use schoolredux::models::term::{parse_semester, parse_term_name, Semester, Term, TermName};
use schoolredux::store::Store;

fn date(year: i32, month: u8, day: u8) -> Date {
    Date::new(year, month, day).unwrap()
}

#[test]
fn term_with_valid_range_succeeds() {
    let mut store = Store::new();
    let term = Term::create_term(date(2024, 9, 1), date(2024, 12, 15), &mut store).unwrap();
    assert_eq!(term.id, 1);
    assert_eq!(term.name, TermName { semester: Semester::Winter, year: 2024 });
    assert_eq!(term.name.render(), "Winter 2024");
}

#[test]
fn term_starting_before_september_is_summer() {
    let mut store = Store::new();
    let term = Term::create_term(date(2023, 5, 10), date(2023, 8, 20), &mut store).unwrap();
    assert_eq!(term.name, TermName { semester: Semester::Summer, year: 2023 });
    assert_eq!(term.name.render(), "Summer 2023");
}

#[test]
fn term_name_is_deterministic() {
    let mut store = Store::new();
    let a = Term::create_term(date(2024, 9, 1), date(2024, 12, 15), &mut store).unwrap();
    let b = Term::create_term(date(2024, 9, 1), date(2024, 12, 15), &mut store).unwrap();
    assert_eq!(a.name, b.name);
    assert_eq!(a.name.render(), b.name.render());
}

#[test]
fn term_with_reversed_range_fails() {
    let mut store = Store::new();
    let r = Term::create_term(date(2024, 12, 15), date(2024, 9, 1), &mut store);
    assert_eq!(r.unwrap_err(), DomainError::Validation);
}

#[test]
fn term_with_equal_dates_fails() {
    let mut store = Store::new();
    let r = Term::create_term(date(2024, 9, 1), date(2024, 9, 1), &mut store);
    assert_eq!(r.unwrap_err(), DomainError::Validation);
}

#[test]
fn invalid_dates_are_rejected() {
    assert_eq!(Date::new(2024, 2, 30).unwrap_err(), DomainError::Validation);
    assert_eq!(Date::new(2024, 13, 1).unwrap_err(), DomainError::Validation);
    assert_eq!(Date::new(2024, 0, 1).unwrap_err(), DomainError::Validation);
    assert_eq!(Date::new(-5, 1, 1).unwrap_err(), DomainError::Validation);
    assert!(Date::new(2024, 2, 29).is_ok());
    assert_eq!(Date::new(2023, 2, 29).unwrap_err(), DomainError::Validation);
    assert_eq!(Date::new(1900, 2, 29).unwrap_err(), DomainError::Validation);
    assert!(Date::new(2000, 2, 29).is_ok());
}

#[test]
fn term_name_round_trips_through_rendering() {
    let n = TermName { semester: Semester::Winter, year: 2024 };
    assert_eq!(parse_term_name(&n.render()).unwrap(), n);
    let m = TermName { semester: Semester::Summer, year: 7 };
    assert_eq!(m.render(), "Summer 0007");
    assert_eq!(parse_term_name(&m.render()).unwrap(), m);
}

#[test]
fn term_name_parsing_rejects_bad_shapes() {
    assert!(parse_term_name("Autumn 2024").is_err());
    assert!(parse_term_name("Winter  2024").is_err());
    assert!(parse_term_name("Winter 24").is_err());
    assert!(parse_term_name("Winter twenty").is_err());
    assert!(parse_term_name("").is_err());
    assert_eq!(
        parse_term_name("wInTeR 2024").unwrap(),
        TermName { semester: Semester::Winter, year: 2024 }
    );
}

#[test]
fn semester_tokens_parse_case_insensitively() {
    assert_eq!(parse_semester("Summer").unwrap(), Semester::Summer);
    assert_eq!(parse_semester("WINTER").unwrap(), Semester::Winter);
    assert_eq!(parse_semester("spring").unwrap_err(), DomainError::Validation);
}
