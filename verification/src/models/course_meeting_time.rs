use vstd::prelude::*;

use crate::date::TimeOfDay;
use crate::errors::DomainError;
use crate::store::{has_meeting, has_offering, inv, with_meetings, Store, StoreView};
use crate::date::time_chars;
use crate::text::{ascii_lower, decimal_chars, push_decimal, str_eq_ignore_ascii_case};
use vstd::string::StringExecFns;

verus! {

/// A teaching weekday. The enumeration is closed: a token outside it is
/// rejected at the boundary instead of being mapped to a sentinel.
#[derive(Clone, Copy, Debug, PartialEq, Eq, Structural)]
pub enum Weekday {
    Monday,
    Tuesday,
    Wednesday,
    Thursday,
    Friday,
}

/// One weekly meeting of an offering: a weekday with a start and an end
/// time.
#[derive(Clone, Copy, Debug, PartialEq, Eq, Structural)]
pub struct CourseMeetingTime {
    pub id: u32,
    pub offering_id: u128,
    pub day_of_week: Weekday,
    pub start_time: TimeOfDay,
    pub end_time: TimeOfDay,
}

pub open spec fn weekday_token(w: Weekday) -> Seq<char> {
    match w {
        Weekday::Monday => "monday"@,
        Weekday::Tuesday => "tuesday"@,
        Weekday::Wednesday => "wednesday"@,
        Weekday::Thursday => "thursday"@,
        Weekday::Friday => "friday"@,
    }
}

pub open spec fn weekday_display(w: Weekday) -> Seq<char> {
    match w {
        Weekday::Monday => "Monday"@,
        Weekday::Tuesday => "Tuesday"@,
        Weekday::Wednesday => "Wednesday"@,
        Weekday::Thursday => "Thursday"@,
        Weekday::Friday => "Friday"@,
    }
}

/// A weekday token is recognized up to ASCII case; anything else is a
/// validation failure.
pub open spec fn spec_parse_weekday(s: Seq<char>) -> Result<Weekday, DomainError> {
    if ascii_lower(s) == "monday"@ {
        Ok(Weekday::Monday)
    } else if ascii_lower(s) == "tuesday"@ {
        Ok(Weekday::Tuesday)
    } else if ascii_lower(s) == "wednesday"@ {
        Ok(Weekday::Wednesday)
    } else if ascii_lower(s) == "thursday"@ {
        Ok(Weekday::Thursday)
    } else if ascii_lower(s) == "friday"@ {
        Ok(Weekday::Friday)
    } else {
        Err(DomainError::Validation)
    }
}

impl Weekday {
    /// The canonical lowercase token under which a weekday is persisted.
    pub fn as_token(&self) -> (r: &'static str)
        ensures
            r@ == weekday_token(*self),
    {
        match self {
            Weekday::Monday => "monday",
            Weekday::Tuesday => "tuesday",
            Weekday::Wednesday => "wednesday",
            Weekday::Thursday => "thursday",
            Weekday::Friday => "friday",
        }
    }

    /// The capitalized form used for display.
    pub fn display_name(&self) -> (r: &'static str)
        ensures
            r@ == weekday_display(*self),
    {
        match self {
            Weekday::Monday => "Monday",
            Weekday::Tuesday => "Tuesday",
            Weekday::Wednesday => "Wednesday",
            Weekday::Thursday => "Thursday",
            Weekday::Friday => "Friday",
        }
    }
}

/// Reads a weekday from a token, ignoring ASCII case. An unrecognized
/// token fails with a validation error; there is no sentinel value.
pub fn parse_weekday(s: &str) -> (r: Result<Weekday, DomainError>)
    ensures
        r == spec_parse_weekday(s@),
{
    if str_eq_ignore_ascii_case(s, "monday") {
        proof {
            lemma_lower_weekday_tokens();
        }
        Ok(Weekday::Monday)
    } else if str_eq_ignore_ascii_case(s, "tuesday") {
        proof {
            lemma_lower_weekday_tokens();
        }
        Ok(Weekday::Tuesday)
    } else if str_eq_ignore_ascii_case(s, "wednesday") {
        proof {
            lemma_lower_weekday_tokens();
        }
        Ok(Weekday::Wednesday)
    } else if str_eq_ignore_ascii_case(s, "thursday") {
        proof {
            lemma_lower_weekday_tokens();
        }
        Ok(Weekday::Thursday)
    } else if str_eq_ignore_ascii_case(s, "friday") {
        proof {
            lemma_lower_weekday_tokens();
        }
        Ok(Weekday::Friday)
    } else {
        proof {
            lemma_lower_weekday_tokens();
        }
        Err(DomainError::Validation)
    }
}

/// The lowercase weekday tokens are fixed points of ASCII lower-casing.
proof fn lemma_lower_weekday_tokens()
    ensures
        ascii_lower("monday"@) == "monday"@,
        ascii_lower("tuesday"@) == "tuesday"@,
        ascii_lower("wednesday"@) == "wednesday"@,
        ascii_lower("thursday"@) == "thursday"@,
        ascii_lower("friday"@) == "friday"@,
{
    reveal_strlit("monday");
    reveal_strlit("tuesday");
    reveal_strlit("wednesday");
    reveal_strlit("thursday");
    reveal_strlit("friday");
    assert(ascii_lower("monday"@) =~= "monday"@);
    assert(ascii_lower("tuesday"@) =~= "tuesday"@);
    assert(ascii_lower("wednesday"@) =~= "wednesday"@);
    assert(ascii_lower("thursday"@) =~= "thursday"@);
    assert(ascii_lower("friday"@) =~= "friday"@);
}

/// Every weekday token parses back to the weekday it was written from,
/// and so does its capitalized display form.
pub proof fn lemma_weekday_token_round_trip(w: Weekday)
    ensures
        spec_parse_weekday(weekday_token(w)) == Ok::<Weekday, DomainError>(w),
        spec_parse_weekday(weekday_display(w)) == Ok::<Weekday, DomainError>(w),
{
    lemma_lower_weekday_tokens();
    reveal_strlit("monday");
    reveal_strlit("tuesday");
    reveal_strlit("wednesday");
    reveal_strlit("thursday");
    reveal_strlit("friday");
    reveal_strlit("Monday");
    reveal_strlit("Tuesday");
    reveal_strlit("Wednesday");
    reveal_strlit("Thursday");
    reveal_strlit("Friday");
    assert(ascii_lower("Monday"@) =~= "monday"@);
    assert(ascii_lower("Tuesday"@) =~= "tuesday"@);
    assert(ascii_lower("Wednesday"@) =~= "wednesday"@);
    assert(ascii_lower("Thursday"@) =~= "thursday"@);
    assert(ascii_lower("Friday"@) =~= "friday"@);
    assert("monday"@.len() == 6);
    assert("tuesday"@.len() == 7);
    assert("wednesday"@.len() == 9);
    assert("thursday"@.len() == 8);
    assert("friday"@.len() == 6);
    assert("monday"@[0] == 'm');
    assert("friday"@[0] == 'f');
}

/// The display form of a meeting entry, with identifiers rendered in
/// decimal and times on a twenty-four-hour clock.
pub open spec fn meeting_description_chars(m: CourseMeetingTime) -> Seq<char> {
    "ID: "@ + decimal_chars(m.id as nat) + "\nOffering ID: "@ + decimal_chars(
        m.offering_id as nat,
    ) + "\nWeekday: "@ + weekday_display(m.day_of_week) + "\nStart Time: "@ + time_chars(
        m.start_time,
    ) + "\nEnd Time: "@ + time_chars(m.end_time) + "\n"@
}

impl CourseMeetingTime {
    /// A well-formed meeting entry: both times lie on the clock and the
    /// meeting starts strictly before it ends.
    pub open spec fn spec_valid_times(self) -> bool {
        &&& self.start_time.valid()
        &&& self.end_time.valid()
        &&& self.start_time.spec_before(self.end_time)
    }

    /// The display form of this meeting entry, line by line.
    pub fn describe(&self) -> (r: String)
        requires
            self.spec_valid_times(),
        ensures
            r@ == meeting_description_chars(*self),
    {
        let mut s = String::from_str("ID: ");
        push_decimal(self.id as u128, &mut s);
        s.append("\nOffering ID: ");
        push_decimal(self.offering_id, &mut s);
        s.append("\nWeekday: ");
        s.append(self.day_of_week.display_name());
        s.append("\nStart Time: ");
        let start = self.start_time.render();
        s.append(start.as_str());
        s.append("\nEnd Time: ");
        let end = self.end_time.render();
        s.append(end.as_str());
        s.append("\n");
        proof {
            assert(s@ =~= meeting_description_chars(*self));
        }
        s
    }

    /// Attaches a meeting entry to an offering. Both times must lie on
    /// the clock and the meeting must start strictly before it ends;
    /// the offering must exist.
    pub fn create(
        offering_id: u128,
        day_of_week: Weekday,
        start_time: TimeOfDay,
        end_time: TimeOfDay,
        store: &mut Store,
    ) -> (r: Result<CourseMeetingTime, DomainError>)
        requires
            inv(old(store)@),
            old(store)@.next_meeting_id < u32::MAX,
        ensures
            inv(final(store)@),
            ({
                let s = old(store)@;
                let entry = CourseMeetingTime {
                    id: s.next_meeting_id,
                    offering_id,
                    day_of_week,
                    start_time,
                    end_time,
                };
                if !entry.spec_valid_times() {
                    r == Err::<CourseMeetingTime, DomainError>(DomainError::Validation) && final(store)@ == s
                } else if !has_offering(s, offering_id) {
                    r == Err::<CourseMeetingTime, DomainError>(DomainError::NotFound) && final(store)@ == s
                } else {
                    r == Ok::<CourseMeetingTime, DomainError>(entry) && final(store)@
                        == (StoreView {
                        meetings: s.meetings.push(entry),
                        next_meeting_id: (s.next_meeting_id + 1) as u32,
                        ..s
                    })
                }
            }),
    {
        if start_time.minutes_from_midnight >= 1440 || end_time.minutes_from_midnight >= 1440
            || !start_time.before(&end_time) {
            return Err(DomainError::Validation);
        }
        if store.find_offering_index(offering_id).is_none() {
            return Err(DomainError::NotFound);
        }
        let entry = CourseMeetingTime {
            id: store.next_meeting_id(),
            offering_id,
            day_of_week,
            start_time,
            end_time,
        };
        store.push_meeting(entry);
        store.bump_meeting_counter();
        Ok(entry)
    }

    /// Removes this meeting entry's row.
    pub fn delete(&self, store: &mut Store) -> (r: Result<(), DomainError>)
        requires
            inv(old(store)@),
        ensures
            inv(final(store)@),
            match r {
                Ok(()) => exists|i: int|
                    0 <= i < old(store)@.meetings.len() && old(store)@.meetings[i].id == self.id
                        && final(store)@ == with_meetings(
                        old(store)@,
                        old(store)@.meetings.remove(i),
                    ),
                Err(e) => e == DomainError::NotFound && !has_meeting(old(store)@, self.id)
                    && final(store)@ == old(store)@,
            },
            r is Ok <==> has_meeting(old(store)@, self.id),
    {
        let n = store.meetings_len();
        let mut i: usize = 0;
        while i < n
            invariant
                inv(store@),
                store@ == old(store)@,
                n == store@.meetings.len(),
                i <= n,
                forall|j: int| 0 <= j < i ==> store@.meetings[j].id != self.id,
            decreases n - i,
        {
            if store.meeting_at(i).id == self.id {
                proof {
                    assert(old(store)@.meetings[i as int].id == self.id);
                }
                store.remove_meeting_at(i);
                return Ok(());
            }
            i = i + 1;
        }
        Err(DomainError::NotFound)
    }
}

} // verus!
