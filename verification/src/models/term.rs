use vstd::prelude::*;

use crate::date::Date;
use crate::errors::DomainError;
use crate::store::{inv, Store, StoreView};
use crate::text::{
    ascii_lower, char_digit, digit_char, digit_str, digit_val, str_eq_ignore_ascii_case,
};
use vstd::string::StrSliceExecFns;
use vstd::string::StringExecFns;

verus! {

/// The two named parts of the academic year. A term starting in
/// September or later is a winter term; every other term is a summer
/// term.
#[derive(Clone, Copy, Debug, PartialEq, Eq, Structural)]
pub enum Semester {
    Summer,
    Winter,
}

/// The canonical display name of a term: a semester together with the
/// four-digit year of the term's start date.
#[derive(Clone, Copy, Debug, PartialEq, Eq, Structural)]
pub struct TermName {
    pub semester: Semester,
    pub year: i32,
}

/// A date-bounded academic period. Immutable once created; the name is
/// derived from the start date and never set directly.
#[derive(Clone, Copy, Debug, PartialEq, Eq, Structural)]
pub struct Term {
    pub id: u32,
    pub name: TermName,
    pub start_date: Date,
    pub end_date: Date,
}

pub open spec fn semester_token(s: Semester) -> Seq<char> {
    match s {
        Semester::Summer => "Summer"@,
        Semester::Winter => "Winter"@,
    }
}

/// The name a term gets from its start date: winter for a start in
/// September or later, summer otherwise, with the start date's year.
pub open spec fn spec_term_name(start: Date) -> TermName {
    TermName {
        semester: if start.month >= 9 {
            Semester::Winter
        } else {
            Semester::Summer
        },
        year: start.year,
    }
}

/// The four decimal digits of a year below ten thousand.
pub open spec fn year_digits(y: int) -> Seq<char> {
    seq![
        digit_char(y / 1000),
        digit_char((y / 100) % 10),
        digit_char((y / 10) % 10),
        digit_char(y % 10),
    ]
}

/// The rendered form of a term name: the semester word, a space, and
/// the four-digit year.
pub open spec fn term_name_chars(n: TermName) -> Seq<char> {
    semester_token(n.semester) + " "@ + year_digits(n.year as int)
}

impl Semester {
    /// The capitalized token under which a semester is displayed and
    /// persisted.
    pub fn as_token(&self) -> (r: &'static str)
        ensures
            r@ == semester_token(*self),
    {
        match self {
            Semester::Summer => "Summer",
            Semester::Winter => "Winter",
        }
    }
}

/// A semester token is recognized up to ASCII case.
pub open spec fn spec_parse_semester(s: Seq<char>) -> Result<Semester, DomainError> {
    if ascii_lower(s) == "summer"@ {
        Ok(Semester::Summer)
    } else if ascii_lower(s) == "winter"@ {
        Ok(Semester::Winter)
    } else {
        Err(DomainError::Validation)
    }
}

/// Reads a semester from a token, ignoring ASCII case; an unrecognized
/// token is rejected.
pub fn parse_semester(s: &str) -> (r: Result<Semester, DomainError>)
    ensures
        r == spec_parse_semester(s@),
{
    proof {
        lemma_lower_semester_tokens();
    }
    if str_eq_ignore_ascii_case(s, "summer") {
        Ok(Semester::Summer)
    } else if str_eq_ignore_ascii_case(s, "winter") {
        Ok(Semester::Winter)
    } else {
        Err(DomainError::Validation)
    }
}

/// The lowercase semester tokens are fixed points of ASCII
/// lower-casing, and the capitalized ones fold onto them.
proof fn lemma_lower_semester_tokens()
    ensures
        ascii_lower("summer"@) == "summer"@,
        ascii_lower("winter"@) == "winter"@,
        ascii_lower("Summer"@) == "summer"@,
        ascii_lower("Winter"@) == "winter"@,
{
    reveal_strlit("summer");
    reveal_strlit("winter");
    reveal_strlit("Summer");
    reveal_strlit("Winter");
    assert(ascii_lower("summer"@) =~= "summer"@);
    assert(ascii_lower("winter"@) =~= "winter"@);
    assert(ascii_lower("Summer"@) =~= "summer"@);
    assert(ascii_lower("Winter"@) =~= "winter"@);
}

/// Every semester token parses back to the semester it was written
/// from.
pub proof fn lemma_semester_token_round_trip(s: Semester)
    ensures
        spec_parse_semester(semester_token(s)) == Ok::<Semester, DomainError>(s),
{
    lemma_lower_semester_tokens();
    reveal_strlit("summer");
    reveal_strlit("winter");
    assert("summer"@[0] == 's');
    assert("winter"@[0] == 'w');
}

impl Term {
    /// Creates and stores a term. The date range must be two
    /// well-formed dates with the start strictly before the end;
    /// anything else is rejected, and the canonical name is derived
    /// from the start date, deterministically, never set by a caller.
    pub fn create_term(start_date: Date, end_date: Date, store: &mut Store) -> (r: Result<
        Term,
        DomainError,
    >)
        requires
            inv(old(store)@),
            old(store)@.next_term_id < u32::MAX,
        ensures
            inv(final(store)@),
            ({
                let s = old(store)@;
                if start_date.valid() && end_date.valid() && start_date.spec_before(end_date) {
                    r == Ok::<Term, DomainError>(
                        Term {
                            id: s.next_term_id,
                            name: spec_term_name(start_date),
                            start_date,
                            end_date,
                        },
                    ) && final(store)@ == (StoreView {
                        terms: s.terms.push(
                            Term {
                                id: s.next_term_id,
                                name: spec_term_name(start_date),
                                start_date,
                                end_date,
                            },
                        ),
                        next_term_id: (s.next_term_id + 1) as u32,
                        ..s
                    })
                } else {
                    r == Err::<Term, DomainError>(DomainError::Validation) && final(store)@ == s
                }
            }),
            r is Ok <==> start_date.valid() && end_date.valid() && start_date.spec_before(
                end_date,
            ),
    {
        if !start_date.is_valid() || !end_date.is_valid() || !start_date.before(&end_date) {
            return Err(DomainError::Validation);
        }
        let semester = if start_date.month >= 9 {
            Semester::Winter
        } else {
            Semester::Summer
        };
        let name = TermName { semester, year: start_date.year };
        let term = Term { id: store.next_term_id(), name, start_date, end_date };
        store.push_term(term);
        store.bump_term_counter();
        Ok(term)
    }
}

/// A rendered term name is recognized in its canonical shape alone:
/// a semester word, read without regard to ASCII case, one space, and
/// a four-digit year. Anything else is rejected.
pub open spec fn spec_parse_term_name(s: Seq<char>) -> Result<TermName, DomainError> {
    if s.len() == 11 && s[6] == ' ' && digit_val(s[7]) >= 0 && digit_val(s[8]) >= 0 && digit_val(
        s[9],
    ) >= 0 && digit_val(s[10]) >= 0 && (ascii_lower(s.take(6)) == "summer"@ || ascii_lower(
        s.take(6),
    ) == "winter"@) {
        Ok(
            TermName {
                semester: if ascii_lower(s.take(6)) == "summer"@ {
                    Semester::Summer
                } else {
                    Semester::Winter
                },
                year: (digit_val(s[7]) * 1000 + digit_val(s[8]) * 100 + digit_val(s[9]) * 10
                    + digit_val(s[10])) as i32,
            },
        )
    } else {
        Err(DomainError::Validation)
    }
}

/// Reads a term name back from its rendered form.
pub fn parse_term_name(s: &str) -> (r: Result<TermName, DomainError>)
    ensures
        r == spec_parse_term_name(s@),
{
    proof {
        lemma_lower_semester_tokens();
    }
    let n = s.unicode_len();
    if n != 11 {
        return Err(DomainError::Validation);
    }
    if s.get_char(6) != ' ' {
        return Err(DomainError::Validation);
    }
    let d1 = char_digit(s.get_char(7));
    let d2 = char_digit(s.get_char(8));
    let d3 = char_digit(s.get_char(9));
    let d4 = char_digit(s.get_char(10));
    if d1 < 0 || d2 < 0 || d3 < 0 || d4 < 0 {
        return Err(DomainError::Validation);
    }
    let year = d1 * 1000 + d2 * 100 + d3 * 10 + d4;
    let prefix = s.substring_char(0, 6);
    if str_eq_ignore_ascii_case(prefix, "summer") {
        Ok(TermName { semester: Semester::Summer, year })
    } else if str_eq_ignore_ascii_case(prefix, "winter") {
        Ok(TermName { semester: Semester::Winter, year })
    } else {
        Err(DomainError::Validation)
    }
}

/// A rendered term name parses back to the name it was written from.
pub proof fn lemma_term_name_round_trip(n: TermName)
    requires
        0 <= n.year <= 9999,
    ensures
        spec_parse_term_name(term_name_chars(n)) == Ok::<TermName, DomainError>(n),
{
    lemma_lower_semester_tokens();
    reveal_strlit("summer");
    reveal_strlit("winter");
    reveal_strlit("Summer");
    reveal_strlit("Winter");
    reveal_strlit(" ");
    let s = term_name_chars(n);
    let y = n.year as int;
    assert(s.len() == 11);
    assert(s[6] == ' ');
    assert(s[7] == digit_char(y / 1000));
    assert(s[8] == digit_char((y / 100) % 10));
    assert(s[9] == digit_char((y / 10) % 10));
    assert(s[10] == digit_char(y % 10));
    assert(s.take(6) =~= semester_token(n.semester));
    assert(digit_val(digit_char(y / 1000)) == y / 1000);
    assert(digit_val(digit_char((y / 100) % 10)) == (y / 100) % 10);
    assert(digit_val(digit_char((y / 10) % 10)) == (y / 10) % 10);
    assert(digit_val(digit_char(y % 10)) == y % 10);
    assert((y / 1000) * 1000 + ((y / 100) % 10) * 100 + ((y / 10) % 10) * 10 + y % 10 == y) by (nonlinear_arith)
        requires 0 <= y <= 9999;
    assert("summer"@[0] == 's');
    assert("winter"@[0] == 'w');
}

impl TermName {
    /// Renders the canonical term name, such as a winter term of 2024.
    /// The rendering is a pure function of the name value.
    pub fn render(&self) -> (r: String)
        requires
            0 <= self.year <= 9999,
        ensures
            r@ == term_name_chars(*self),
    {
        let mut s = String::from_str(self.as_token_semester());
        s.append(" ");
        let y: u32 = self.year as u32;
        s.append(digit_str(y / 1000));
        s.append(digit_str((y / 100) % 10));
        s.append(digit_str((y / 10) % 10));
        s.append(digit_str(y % 10));
        proof {
            assert(s@ =~= term_name_chars(*self));
        }
        s
    }

    fn as_token_semester(&self) -> (r: &'static str)
        ensures
            r@ == semester_token(self.semester),
    {
        match self.semester {
            Semester::Summer => "Summer",
            Semester::Winter => "Winter",
        }
    }
}

} // verus!
