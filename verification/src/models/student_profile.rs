use vstd::prelude::*;

use crate::errors::DomainError;
use crate::store::{has_profile, has_user, inv, with_student_profiles, Store};
use crate::text::str_eq;

verus! {

/// A field of study a student can enroll under.
#[derive(Clone, Copy, Debug, PartialEq, Eq, Structural)]
pub enum StudentMajor {
    ComputerScience,
    Engineering,
    Biology,
    Mathematics,
    Physics,
    Psychology,
    Sociology,
    Politics,
    Literature,
    Business,
    FineArts,
    Nursing,
    Education,
}

/// The student-side record attached to a user: an eight-digit student
/// number, an enrollment year and a major.
#[derive(Clone, Copy, Debug, PartialEq, Eq, Structural)]
pub struct StudentProfile {
    pub user_id: u128,
    pub student_number: u32,
    pub enrollment_year: i32,
    pub major: StudentMajor,
}

pub open spec fn major_token(m: StudentMajor) -> Seq<char> {
    match m {
        StudentMajor::ComputerScience => "Computer Science"@,
        StudentMajor::Engineering => "Engineering"@,
        StudentMajor::Biology => "Biology"@,
        StudentMajor::Mathematics => "Mathematics"@,
        StudentMajor::Physics => "Physics"@,
        StudentMajor::Psychology => "Psychology"@,
        StudentMajor::Sociology => "Sociology"@,
        StudentMajor::Politics => "Politics"@,
        StudentMajor::Literature => "Literature"@,
        StudentMajor::Business => "Business"@,
        StudentMajor::FineArts => "Fine Arts"@,
        StudentMajor::Nursing => "Nursing"@,
        StudentMajor::Education => "Education"@,
    }
}

pub open spec fn spec_parse_major(s: Seq<char>) -> Result<StudentMajor, DomainError> {
    if s == "Computer Science"@ {
        Ok(StudentMajor::ComputerScience)
    } else if s == "Engineering"@ {
        Ok(StudentMajor::Engineering)
    } else if s == "Biology"@ {
        Ok(StudentMajor::Biology)
    } else if s == "Mathematics"@ {
        Ok(StudentMajor::Mathematics)
    } else if s == "Physics"@ {
        Ok(StudentMajor::Physics)
    } else if s == "Psychology"@ {
        Ok(StudentMajor::Psychology)
    } else if s == "Sociology"@ {
        Ok(StudentMajor::Sociology)
    } else if s == "Politics"@ {
        Ok(StudentMajor::Politics)
    } else if s == "Literature"@ {
        Ok(StudentMajor::Literature)
    } else if s == "Business"@ {
        Ok(StudentMajor::Business)
    } else if s == "Fine Arts"@ {
        Ok(StudentMajor::FineArts)
    } else if s == "Nursing"@ {
        Ok(StudentMajor::Nursing)
    } else if s == "Education"@ {
        Ok(StudentMajor::Education)
    } else {
        Err(DomainError::Validation)
    }
}

impl StudentMajor {
    /// The canonical display token under which a major is persisted.
    pub fn as_token(&self) -> (r: &'static str)
        ensures
            r@ == major_token(*self),
    {
        match self {
            StudentMajor::ComputerScience => "Computer Science",
            StudentMajor::Engineering => "Engineering",
            StudentMajor::Biology => "Biology",
            StudentMajor::Mathematics => "Mathematics",
            StudentMajor::Physics => "Physics",
            StudentMajor::Psychology => "Psychology",
            StudentMajor::Sociology => "Sociology",
            StudentMajor::Politics => "Politics",
            StudentMajor::Literature => "Literature",
            StudentMajor::Business => "Business",
            StudentMajor::FineArts => "Fine Arts",
            StudentMajor::Nursing => "Nursing",
            StudentMajor::Education => "Education",
        }
    }
}

/// Reads a major back from its persisted token; an unrecognized token
/// is rejected instead of crashing.
pub fn parse_major(s: &str) -> (r: Result<StudentMajor, DomainError>)
    ensures
        r == spec_parse_major(s@),
{
    if str_eq(s, "Computer Science") {
        Ok(StudentMajor::ComputerScience)
    } else if str_eq(s, "Engineering") {
        Ok(StudentMajor::Engineering)
    } else if str_eq(s, "Biology") {
        Ok(StudentMajor::Biology)
    } else if str_eq(s, "Mathematics") {
        Ok(StudentMajor::Mathematics)
    } else if str_eq(s, "Physics") {
        Ok(StudentMajor::Physics)
    } else if str_eq(s, "Psychology") {
        Ok(StudentMajor::Psychology)
    } else if str_eq(s, "Sociology") {
        Ok(StudentMajor::Sociology)
    } else if str_eq(s, "Politics") {
        Ok(StudentMajor::Politics)
    } else if str_eq(s, "Literature") {
        Ok(StudentMajor::Literature)
    } else if str_eq(s, "Business") {
        Ok(StudentMajor::Business)
    } else if str_eq(s, "Fine Arts") {
        Ok(StudentMajor::FineArts)
    } else if str_eq(s, "Nursing") {
        Ok(StudentMajor::Nursing)
    } else if str_eq(s, "Education") {
        Ok(StudentMajor::Education)
    } else {
        Err(DomainError::Validation)
    }
}

/// Every major token parses back to the major it was written from.
pub proof fn lemma_major_token_round_trip(m: StudentMajor)
    ensures
        spec_parse_major(major_token(m)) == Ok::<StudentMajor, DomainError>(m),
{
    reveal_strlit("Computer Science");
    reveal_strlit("Engineering");
    reveal_strlit("Biology");
    reveal_strlit("Mathematics");
    reveal_strlit("Physics");
    reveal_strlit("Psychology");
    reveal_strlit("Sociology");
    reveal_strlit("Politics");
    reveal_strlit("Literature");
    reveal_strlit("Business");
    reveal_strlit("Fine Arts");
    reveal_strlit("Nursing");
    reveal_strlit("Education");
    assert("Computer Science"@.len() == 16);
    assert("Engineering"@.len() == 11);
    assert("Biology"@.len() == 7);
    assert("Mathematics"@.len() == 11);
    assert("Physics"@.len() == 7);
    assert("Psychology"@.len() == 10);
    assert("Sociology"@.len() == 9);
    assert("Politics"@.len() == 8);
    assert("Literature"@.len() == 10);
    assert("Business"@.len() == 8);
    assert("Fine Arts"@.len() == 9);
    assert("Nursing"@.len() == 7);
    assert("Education"@.len() == 9);
    assert("Engineering"@[0] == 'E');
    assert("Mathematics"@[0] == 'M');
    assert("Biology"@[0] == 'B');
    assert("Physics"@[0] == 'P');
    assert("Nursing"@[0] == 'N');
    assert("Psychology"@[0] == 'P');
    assert("Literature"@[0] == 'L');
    assert("Politics"@[0] == 'P');
    assert("Business"@[0] == 'B');
    assert("Sociology"@[0] == 'S');
    assert("Fine Arts"@[0] == 'F');
    assert("Education"@[0] == 'E');
}

/// A student number is always an eight-digit decimal value.
pub open spec fn valid_student_number(n: u32) -> bool {
    10_000_000 <= n <= 99_999_999
}

/// Relies on rand::random_range over the eight-digit span: the drawn
/// value lies in the requested range.
#[verifier::external_body]
fn random_student_number() -> (r: u32)
    ensures
        10_000_000 <= r <= 99_999_999,
{
    rand::random_range(10_000_000u32..=99_999_999u32)
}

impl StudentProfile {
    /// Stores a student profile under a caller-chosen student number.
    /// The number must have eight digits, the user must exist, and a
    /// user carries at most one profile.
    pub fn create_with_number(
        user_id: u128,
        student_number: u32,
        enrollment_year: i32,
        major: StudentMajor,
        store: &mut Store,
    ) -> (r: Result<StudentProfile, DomainError>)
        requires
            inv(old(store)@),
        ensures
            inv(final(store)@),
            ({
                let s = old(store)@;
                if !valid_student_number(student_number) {
                    r == Err::<StudentProfile, DomainError>(DomainError::Validation) && final(store)@ == s
                } else if !has_user(s, user_id) {
                    r == Err::<StudentProfile, DomainError>(DomainError::NotFound) && final(store)@ == s
                } else if has_profile(s, user_id) {
                    r == Err::<StudentProfile, DomainError>(DomainError::Duplicate) && final(store)@ == s
                } else {
                    r == Ok::<StudentProfile, DomainError>(
                        StudentProfile { user_id, student_number, enrollment_year, major },
                    ) && final(store)@ == with_student_profiles(
                        s,
                        s.student_profiles.push(
                            StudentProfile { user_id, student_number, enrollment_year, major },
                        ),
                    )
                }
            }),
    {
        if student_number < 10_000_000 || student_number > 99_999_999 {
            return Err(DomainError::Validation);
        }
        if store.find_user_index(user_id).is_none() {
            return Err(DomainError::NotFound);
        }
        if store.find_profile_index(user_id).is_some() {
            return Err(DomainError::Duplicate);
        }
        let profile = StudentProfile { user_id, student_number, enrollment_year, major };
        store.push_profile(profile);
        Ok(profile)
    }

    /// Stores a student profile under a freshly drawn eight-digit
    /// student number.
    pub fn create(
        user_id: u128,
        enrollment_year: i32,
        major: StudentMajor,
        store: &mut Store,
    ) -> (r: Result<StudentProfile, DomainError>)
        requires
            inv(old(store)@),
        ensures
            inv(final(store)@),
            ({
                let s = old(store)@;
                if !has_user(s, user_id) {
                    r == Err::<StudentProfile, DomainError>(DomainError::NotFound) && final(store)@ == s
                } else if has_profile(s, user_id) {
                    r == Err::<StudentProfile, DomainError>(DomainError::Duplicate) && final(store)@ == s
                } else {
                    (r matches Ok(p) && p.user_id == user_id && valid_student_number(
                        p.student_number,
                    ) && p.enrollment_year == enrollment_year && p.major == major && final(store)@ == with_student_profiles(s, s.student_profiles.push(p)))
                }
            }),
    {
        let student_number = random_student_number();
        StudentProfile::create_with_number(user_id, student_number, enrollment_year, major, store)
    }
}

} // verus!
