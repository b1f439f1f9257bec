use vstd::prelude::*;

use crate::errors::DomainError;
use crate::ids::fresh_uuid;
use crate::text::{decimal_chars, push_decimal};
use vstd::string::StringExecFns;
use crate::store::{
    has_course, has_offering, has_term, has_user, inv, lemma_inv_after_offering_push,
    registered_count, with_offerings, Store,
};

verus! {

/// A scheduled instance of a course: one course in one term, taught by
/// one instructor, with a seat capacity and a location. The capacity is
/// the hard ceiling on `Registered` registrations for this offering.
#[derive(Debug)]
pub struct CourseOffering {
    pub id: u128,
    pub course_id: u128,
    pub term_id: u32,
    pub instructor_id: u128,
    pub capacity: i32,
    pub location: String,
}

/// The mathematical image of an offering: its location as a character
/// sequence.
pub ghost struct CourseOfferingView {
    pub id: u128,
    pub course_id: u128,
    pub term_id: u32,
    pub instructor_id: u128,
    pub capacity: i32,
    pub location: Seq<char>,
}

impl Clone for CourseOffering {
    fn clone(&self) -> (r: CourseOffering)
        ensures
            r@ == self@,
    {
        CourseOffering {
            id: self.id,
            course_id: self.course_id,
            term_id: self.term_id,
            instructor_id: self.instructor_id,
            capacity: self.capacity,
            location: self.location.clone(),
        }
    }
}

impl View for CourseOffering {
    type V = CourseOfferingView;

    open spec fn view(&self) -> CourseOfferingView {
        CourseOfferingView {
            id: self.id,
            course_id: self.course_id,
            term_id: self.term_id,
            instructor_id: self.instructor_id,
            capacity: self.capacity,
            location: self.location@,
        }
    }
}

/// The display form of an offering record, with identifiers rendered
/// in decimal.
pub open spec fn offering_description_chars(o: CourseOfferingView) -> Seq<char> {
    "ID: "@ + decimal_chars(o.course_id as nat) + "\nTerm ID: "@ + decimal_chars(o.term_id as nat)
        + "\nInstructor ID: "@ + decimal_chars(o.instructor_id as nat) + "\nCapacity: "@
        + decimal_chars(o.capacity as nat) + "\nLocation: "@ + o.location + "\n"@
}

impl CourseOffering {
    /// The display form of this offering, line by line, opening with
    /// the course it schedules.
    pub fn describe(&self) -> (r: String)
        requires
            self.capacity >= 0,
        ensures
            r@ == offering_description_chars(self@),
    {
        let mut s = String::from_str("ID: ");
        push_decimal(self.course_id, &mut s);
        s.append("\nTerm ID: ");
        push_decimal(self.term_id as u128, &mut s);
        s.append("\nInstructor ID: ");
        push_decimal(self.instructor_id, &mut s);
        s.append("\nCapacity: ");
        push_decimal(self.capacity as u128, &mut s);
        s.append("\nLocation: ");
        s.append(self.location.as_str());
        s.append("\n");
        proof {
            assert(s@ =~= offering_description_chars(self@));
        }
        s
    }

    /// Stores an offering under a caller-chosen identifier. A negative
    /// capacity is malformed; course, term and instructor must exist;
    /// the identifier must be fresh.
    pub fn create_with_id(
        id: u128,
        course_id: u128,
        term_id: u32,
        instructor_id: u128,
        capacity: i32,
        location: String,
        store: &mut Store,
    ) -> (r: Result<CourseOffering, DomainError>)
        requires
            inv(old(store)@),
        ensures
            inv(final(store)@),
            ({
                let s = old(store)@;
                if capacity < 0 {
                    r == Err::<CourseOffering, DomainError>(DomainError::Validation) && final(store)@ == s
                } else if !(has_course(s, course_id) && has_term(s, term_id) && has_user(
                    s,
                    instructor_id,
                )) {
                    r == Err::<CourseOffering, DomainError>(DomainError::NotFound) && final(store)@ == s
                } else if has_offering(s, id) {
                    r == Err::<CourseOffering, DomainError>(DomainError::Duplicate) && final(store)@ == s
                } else {
                    (r matches Ok(o) && o@ == (CourseOfferingView {
                        id,
                        course_id,
                        term_id,
                        instructor_id,
                        capacity,
                        location: location@,
                    }) && final(store)@ == with_offerings(s, s.offerings.push(o@)))
                }
            }),
    {
        if capacity < 0 {
            return Err(DomainError::Validation);
        }
        if store.find_course_index(course_id).is_none() || store.find_term_index(term_id).is_none()
            || store.find_user_index(instructor_id).is_none() {
            return Err(DomainError::NotFound);
        }
        if store.find_offering_index(id).is_some() {
            return Err(DomainError::Duplicate);
        }
        let offering = CourseOffering { id, course_id, term_id, instructor_id, capacity, location };
        proof {
            lemma_inv_after_offering_push(store@, offering@);
        }
        store.push_offering(offering.clone());
        Ok(offering)
    }

    /// Creates an offering under a freshly drawn identifier. The draw
    /// is random: if, against all odds, it collides with a stored one,
    /// the attempt is reported as a duplicate rather than retried.
    pub fn create(
        course_id: u128,
        term_id: u32,
        instructor_id: u128,
        capacity: i32,
        location: String,
        store: &mut Store,
    ) -> (r: Result<CourseOffering, DomainError>)
        requires
            inv(old(store)@),
        ensures
            inv(final(store)@),
            ({
                let s = old(store)@;
                if capacity < 0 {
                    r == Err::<CourseOffering, DomainError>(DomainError::Validation) && final(store)@ == s
                } else if !(has_course(s, course_id) && has_term(s, term_id) && has_user(
                    s,
                    instructor_id,
                )) {
                    r == Err::<CourseOffering, DomainError>(DomainError::NotFound) && final(store)@ == s
                } else {
                    match r {
                        Ok(o) => !has_offering(s, o@.id) && o@ == (CourseOfferingView {
                            id: o@.id,
                            course_id,
                            term_id,
                            instructor_id,
                            capacity,
                            location: location@,
                        }) && final(store)@ == with_offerings(s, s.offerings.push(o@)),
                        Err(e) => e == DomainError::Duplicate && final(store)@ == s,
                    }
                }
            }),
    {
        let id = fresh_uuid();
        CourseOffering::create_with_id(
            id,
            course_id,
            term_id,
            instructor_id,
            capacity,
            location,
            store,
        )
    }

    /// The number of `Registered` rows this offering holds: the value
    /// the admission gate compares against the capacity.
    pub fn current_enrollment(&self, store: &Store) -> (r: usize)
        ensures
            r == registered_count(store@.registrations, self.id),
    {
        store.count_registered(self.id)
    }
}

} // verus!
