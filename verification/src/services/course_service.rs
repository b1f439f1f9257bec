use vstd::prelude::*;

use crate::models::course::Course;
use crate::models::course_meeting_time::CourseMeetingTime;
use crate::store::{has_course, inv, Store};

verus! {

/// The meeting entries attached to one offering, in insertion order.
pub open spec fn meetings_of(
    meetings: Seq<CourseMeetingTime>,
    offering: u128,
) -> Seq<CourseMeetingTime>
    decreases meetings.len(),
{
    if meetings.len() == 0 {
        Seq::empty()
    } else {
        let rest = meetings_of(meetings.drop_last(), offering);
        if meetings.last().offering_id == offering {
            rest.push(meetings.last())
        } else {
            rest
        }
    }
}

/// Looks a course up by its identifier.
pub fn get_course_by_id(id: u128, store: &Store) -> (r: Option<Course>)
    requires
        inv(store@),
    ensures
        match r {
            Some(c) => c@.id == id && exists|i: int|
                0 <= i < store@.courses.len() && store@.courses[i] == c@,
            None => !has_course(store@, id),
        },
        r is Some <==> has_course(store@, id),
{
    match store.find_course_index(id) {
        Some(i) => Some(store.course_at(i).clone()),
        None => None,
    }
}

/// The meeting entries of one offering.
pub fn get_meeting_times_by_id(course_id: u128, store: &Store) -> (r: Vec<CourseMeetingTime>)
    ensures
        r@ == meetings_of(store@.meetings, course_id),
{
    let n = store.meetings_len();
    let mut result: Vec<CourseMeetingTime> = Vec::new();
    let mut i: usize = 0;
    while i < n
        invariant
            n == store@.meetings.len(),
            i <= n,
            result@ == meetings_of(store@.meetings.take(i as int), course_id),
        decreases n - i,
    {
        let entry = store.meeting_at(i);
        proof {
            assert(store@.meetings.take(i as int + 1).drop_last() =~= store@.meetings.take(
                i as int,
            ));
            assert(store@.meetings.take(i as int + 1).last() == store@.meetings[i as int]);
        }
        if entry.offering_id == course_id {
            result.push(entry);
        }
        i = i + 1;
    }
    proof {
        assert(store@.meetings.take(n as int) =~= store@.meetings);
    }
    result
}

} // verus!
