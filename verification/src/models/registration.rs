use vstd::prelude::*;

use crate::clock::now_timestamp;
use crate::date::Date;
use crate::errors::DomainError;
use crate::ids::fresh_uuid;
use crate::store::{
    active_for, counts_toward_enrollment, find_offering, find_term, has_active_registration,
    has_offering, has_registration, has_user, inv, lemma_find_offering_absent,
    lemma_find_offering_unique, lemma_find_term_absent, lemma_find_term_unique,
    lemma_registered_count_push, lemma_registered_count_update, offering_exists,
    registered_count, with_registrations, Store, StoreView,
};
use crate::text::str_eq;

verus! {

/// The lifecycle states of one student's registration in one offering.
#[derive(Clone, Copy, Debug, PartialEq, Eq, Structural)]
pub enum RegistrationStatus {
    Registered,
    Dropped,
    Waitlisted,
}

/// A letter grade assigned to a completed, registered course.
#[derive(Clone, Copy, Debug, PartialEq, Eq, Structural)]
pub enum Grade {
    A,
    B,
    C,
    D,
    F,
}

/// One student's registration record for one offering. Records are
/// never deleted on a drop; the status changes in place instead.
#[derive(Clone, Copy, Debug, PartialEq, Eq, Structural)]
pub struct Registration {
    pub id: u128,
    pub student_id: u128,
    pub offering_id: u128,
    pub registered_at: i64,
    pub status: RegistrationStatus,
    pub grade: Option<Grade>,
}

pub open spec fn status_token(s: RegistrationStatus) -> Seq<char> {
    match s {
        RegistrationStatus::Registered => "registered"@,
        RegistrationStatus::Dropped => "dropped"@,
        RegistrationStatus::Waitlisted => "waitlisted"@,
    }
}

pub open spec fn spec_parse_status(s: Seq<char>) -> Result<RegistrationStatus, DomainError> {
    if s == "registered"@ {
        Ok(RegistrationStatus::Registered)
    } else if s == "dropped"@ {
        Ok(RegistrationStatus::Dropped)
    } else if s == "waitlisted"@ {
        Ok(RegistrationStatus::Waitlisted)
    } else {
        Err(DomainError::Validation)
    }
}

impl RegistrationStatus {
    /// The canonical lowercase token under which a status is persisted.
    pub fn as_token(&self) -> (r: &'static str)
        ensures
            r@ == status_token(*self),
    {
        match self {
            RegistrationStatus::Registered => "registered",
            RegistrationStatus::Dropped => "dropped",
            RegistrationStatus::Waitlisted => "waitlisted",
        }
    }
}

/// Reads a status back from its persisted token; an unrecognized token
/// is rejected rather than mapped to any sentinel.
pub fn parse_status(s: &str) -> (r: Result<RegistrationStatus, DomainError>)
    ensures
        r == spec_parse_status(s@),
{
    if str_eq(s, "registered") {
        Ok(RegistrationStatus::Registered)
    } else if str_eq(s, "dropped") {
        Ok(RegistrationStatus::Dropped)
    } else if str_eq(s, "waitlisted") {
        Ok(RegistrationStatus::Waitlisted)
    } else {
        Err(DomainError::Validation)
    }
}

/// Every status token parses back to the status it was written from.
pub proof fn lemma_status_token_round_trip(s: RegistrationStatus)
    ensures
        spec_parse_status(status_token(s)) == Ok::<RegistrationStatus, DomainError>(s),
{
    reveal_strlit("registered");
    reveal_strlit("dropped");
    reveal_strlit("waitlisted");
    assert("registered"@.len() == 10);
    assert("dropped"@.len() == 7);
    assert("waitlisted"@.len() == 10);
    assert("waitlisted"@[0] == 'w');
    assert("registered"@[0] == 'r');
}

pub open spec fn grade_token(g: Grade) -> Seq<char> {
    match g {
        Grade::A => "A"@,
        Grade::B => "B"@,
        Grade::C => "C"@,
        Grade::D => "D"@,
        Grade::F => "F"@,
    }
}

pub open spec fn spec_parse_grade(s: Seq<char>) -> Result<Grade, DomainError> {
    if s == "A"@ {
        Ok(Grade::A)
    } else if s == "B"@ {
        Ok(Grade::B)
    } else if s == "C"@ {
        Ok(Grade::C)
    } else if s == "D"@ {
        Ok(Grade::D)
    } else if s == "F"@ {
        Ok(Grade::F)
    } else {
        Err(DomainError::Validation)
    }
}

impl Grade {
    /// The canonical letter token under which a grade is persisted.
    pub fn as_token(&self) -> (r: &'static str)
        ensures
            r@ == grade_token(*self),
    {
        match self {
            Grade::A => "A",
            Grade::B => "B",
            Grade::C => "C",
            Grade::D => "D",
            Grade::F => "F",
        }
    }
}

/// Reads a grade back from its persisted letter token.
pub fn parse_grade(s: &str) -> (r: Result<Grade, DomainError>)
    ensures
        r == spec_parse_grade(s@),
{
    if str_eq(s, "A") {
        Ok(Grade::A)
    } else if str_eq(s, "B") {
        Ok(Grade::B)
    } else if str_eq(s, "C") {
        Ok(Grade::C)
    } else if str_eq(s, "D") {
        Ok(Grade::D)
    } else if str_eq(s, "F") {
        Ok(Grade::F)
    } else {
        Err(DomainError::Validation)
    }
}

/// Every grade token parses back to the grade it was written from.
pub proof fn lemma_grade_token_round_trip(g: Grade)
    ensures
        spec_parse_grade(grade_token(g)) == Ok::<Grade, DomainError>(g),
{
    reveal_strlit("A");
    reveal_strlit("B");
    reveal_strlit("C");
    reveal_strlit("D");
    reveal_strlit("F");
    assert("A"@[0] == 'A');
    assert("B"@[0] == 'B');
    assert("C"@[0] == 'C');
    assert("D"@[0] == 'D');
    assert("F"@[0] == 'F');
}

// --- the admission rule ---------------------------------------------------

/// The admission decision: a seat while the `Registered` count is
/// below the capacity, the waitlist from then on.
pub open spec fn admitted_status(enrolled: int, capacity: int) -> RegistrationStatus {
    if enrolled < capacity {
        RegistrationStatus::Registered
    } else {
        RegistrationStatus::Waitlisted
    }
}

/// The `Registered` count an empty offering reaches after `n`
/// successful admissions under the admission rule.
pub open spec fn registered_after(n: nat, capacity: int) -> int
    decreases n,
{
    if n == 0 {
        0
    } else {
        let before = registered_after((n - 1) as nat, capacity);
        before + if admitted_status(before, capacity) == RegistrationStatus::Registered {
            1int
        } else {
            0int
        }
    }
}

/// Admissions against one empty offering of capacity `C` fill exactly
/// `min(n, C)` seats; from the `C`-th attempt on, every further
/// admission is waitlisted. With admissions serialized per offering,
/// `n > C` attempts therefore end with `C` seated and `n - C` waiting,
/// none lost and none duplicated.
pub proof fn lemma_admissions_fill_capacity(n: nat, capacity: int)
    requires
        capacity >= 0,
    ensures
        registered_after(n, capacity) == if n <= capacity {
            n as int
        } else {
            capacity
        },
        admitted_status(registered_after(n, capacity), capacity) == if n < capacity {
            RegistrationStatus::Registered
        } else {
            RegistrationStatus::Waitlisted
        },
    decreases n,
{
    if n > 0 {
        lemma_admissions_fill_capacity((n - 1) as nat, capacity);
    }
}

// --- eligibility ------------------------------------------------------------

/// Whether one row witnesses a completed prerequisite: the student's
/// own `Registered` record, in an offering of the prerequisite course,
/// whose term ended strictly before the target term starts.
pub open spec fn completed_prereq_via(
    s: StoreView,
    r: Registration,
    student: u128,
    prereq_course: u128,
    target_start: Date,
) -> bool {
    &&& r.student_id == student
    &&& r.status == RegistrationStatus::Registered
    &&& match find_offering(s.offerings, r.offering_id) {
        Some(o) => o.course_id == prereq_course && match find_term(s.terms, o.term_id) {
            Some(t) => t.end_date.spec_before(target_start),
            None => false,
        },
        None => false,
    }
}

/// Whether the student completed the prerequisite course in a prior,
/// completed term.
pub open spec fn completed_prereq(
    s: StoreView,
    student: u128,
    prereq_course: u128,
    target_start: Date,
) -> bool {
    exists|i: int|
        0 <= i < s.registrations.len() && completed_prereq_via(
            s,
            s.registrations[i],
            student,
            prereq_course,
            target_start,
        )
}

/// Eligibility for a course: every direct prerequisite of the course
/// was completed before the target term starts. Only direct edges
/// count; transitive closure is out of scope.
pub open spec fn eligible(s: StoreView, student: u128, course: u128, target_start: Date) -> bool {
    forall|i: int|
        0 <= i < s.prerequisites.len() && (#[trigger] s.prerequisites[i]).course_id == course
            ==> completed_prereq(s, student, s.prerequisites[i].prerequisite_id, target_start)
}

/// Checks one prerequisite against the student's registration
/// history.
fn check_one_prereq(store: &Store, student: u128, prereq_course: u128, target_start: Date) -> (r:
    bool)
    requires
        inv(store@),
    ensures
        r == completed_prereq(store@, student, prereq_course, target_start),
{
    let n = store.registrations_len();
    let mut i: usize = 0;
    while i < n
        invariant
            inv(store@),
            n == store@.registrations.len(),
            i <= n,
            forall|j: int|
                0 <= j < i ==> !completed_prereq_via(
                    store@,
                    store@.registrations[j],
                    student,
                    prereq_course,
                    target_start,
                ),
        decreases n - i,
    {
        let reg = store.registration_at(i);
        if reg.student_id == student && matches!(reg.status, RegistrationStatus::Registered) {
            match store.find_offering_index(reg.offering_id) {
                Some(j) => {
                    proof {
                        lemma_find_offering_unique(store@.offerings, reg.offering_id, j as int);
                    }
                    let o_course = store.offering_at(j).course_id;
                    let o_term = store.offering_at(j).term_id;
                    if o_course == prereq_course {
                        match store.find_term_index(o_term) {
                            Some(k) => {
                                proof {
                                    lemma_find_term_unique(store@.terms, o_term, k as int);
                                }
                                let t = store.term_at(k);
                                if t.end_date.before(&target_start) {
                                    proof {
                                        assert(completed_prereq_via(
                                            store@,
                                            store@.registrations[i as int],
                                            student,
                                            prereq_course,
                                            target_start,
                                        ));
                                    }
                                    return true;
                                }
                            },
                            None => {
                                proof {
                                    lemma_find_term_absent(store@.terms, o_term);
                                }
                            },
                        }
                    }
                },
                None => {
                    proof {
                        lemma_find_offering_absent(store@.offerings, reg.offering_id);
                    }
                },
            }
        }
        i = i + 1;
    }
    false
}

/// Checks every direct prerequisite of a course for the student.
fn check_eligibility(store: &Store, student: u128, course: u128, target_start: Date) -> (r: bool)
    requires
        inv(store@),
    ensures
        r == eligible(store@, student, course, target_start),
{
    let n = store.prerequisites_len();
    let mut i: usize = 0;
    while i < n
        invariant
            inv(store@),
            n == store@.prerequisites.len(),
            i <= n,
            forall|j: int|
                0 <= j < i && (#[trigger] store@.prerequisites[j]).course_id == course
                    ==> completed_prereq(
                    store@,
                    student,
                    store@.prerequisites[j].prerequisite_id,
                    target_start,
                ),
        decreases n - i,
    {
        let e = store.prerequisite_at(i);
        if e.course_id == course {
            if !check_one_prereq(store, student, e.prerequisite_id, target_start) {
                proof {
                    assert(store@.prerequisites[i as int].course_id == course);
                }
                return false;
            }
        }
        i = i + 1;
    }
    true
}

/// Scans the table for an active registration of the student in the
/// offering.
fn scan_active(store: &Store, student: u128, offering: u128) -> (r: bool)
    ensures
        r == has_active_registration(store@.registrations, student, offering),
{
    let n = store.registrations_len();
    let mut i: usize = 0;
    while i < n
        invariant
            n == store@.registrations.len(),
            i <= n,
            forall|j: int|
                0 <= j < i ==> !active_for(store@.registrations[j], student, offering),
        decreases n - i,
    {
        let reg = store.registration_at(i);
        if reg.student_id == student && reg.offering_id == offering && !matches!(
            reg.status,
            RegistrationStatus::Dropped,
        ) {
            proof {
                assert(active_for(store@.registrations[i as int], student, offering));
            }
            return true;
        }
        i = i + 1;
    }
    false
}

// --- invariant preservation for an appended row ----------------------------

/// A fresh row may join the table if its identifier is new, it opens
/// no second active registration, its offering exists, and a seat is
/// only taken while the count is below the capacity.
proof fn lemma_inv_after_row_push(pre: StoreView, reg: Registration)
    requires
        inv(pre),
        !has_registration(pre, reg.id),
        reg.status != RegistrationStatus::Dropped ==> !has_active_registration(
            pre.registrations,
            reg.student_id,
            reg.offering_id,
        ),
        offering_exists(pre.offerings, reg.offering_id),
        reg.status == RegistrationStatus::Registered ==> registered_count(
            pre.registrations,
            reg.offering_id,
        ) < (match find_offering(pre.offerings, reg.offering_id) {
            Some(o) => o.capacity as int,
            None => 0,
        }),
    ensures
        inv(with_registrations(pre, pre.registrations.push(reg))),
{
    let post = with_registrations(pre, pre.registrations.push(reg));
    assert forall|i: int, j: int| 0 <= i < j < post.registrations.len() implies post.registrations[
        i
    ].id != post.registrations[j].id by {
        if j == post.registrations.len() - 1 {
            assert(post.registrations[i] == pre.registrations[i]);
            if pre.registrations[i].id == reg.id {
                assert(has_registration(pre, reg.id));
            }
        }
    }
    assert forall|i: int, j: int| 0 <= i < j < post.registrations.len() implies !(
    post.registrations[i].student_id == post.registrations[j].student_id && post.registrations[
        i
    ].offering_id == post.registrations[j].offering_id && post.registrations[i].status
        != RegistrationStatus::Dropped && post.registrations[j].status
        != RegistrationStatus::Dropped) by {
        if j == post.registrations.len() - 1 {
            assert(post.registrations[i] == pre.registrations[i]);
            if pre.registrations[i].student_id == reg.student_id && pre.registrations[
                i
            ].offering_id == reg.offering_id && pre.registrations[i].status
                != RegistrationStatus::Dropped && reg.status != RegistrationStatus::Dropped {
                assert(active_for(pre.registrations[i], reg.student_id, reg.offering_id));
                assert(has_active_registration(
                    pre.registrations,
                    reg.student_id,
                    reg.offering_id,
                ));
            }
        }
    }
    assert forall|k: int| 0 <= k < post.offerings.len() implies registered_count(
        post.registrations,
        (#[trigger] post.offerings[k]).id,
    ) <= post.offerings[k].capacity by {
        lemma_registered_count_push(pre.registrations, reg, pre.offerings[k].id);
        if counts_toward_enrollment(reg, pre.offerings[k].id) {
            lemma_find_offering_unique(pre.offerings, reg.offering_id, k);
        }
    }
    assert forall|i: int| 0 <= i < post.registrations.len() implies offering_exists(
        post.offerings,
        (#[trigger] post.registrations[i]).offering_id,
    ) by {
        if i < pre.registrations.len() {
            assert(post.registrations[i] == pre.registrations[i]);
        } else {
            assert(post.registrations[i] == reg);
        }
    }
}

impl Registration {
    /// Stores a row under a caller-chosen identifier and an explicit
    /// status. The student and the offering must exist; the identifier
    /// must be fresh; a non-dropped row must not stand beside another
    /// active one for the same student and offering; and a seat is
    /// granted only while the `Registered` count is below the
    /// capacity — a path that chooses a seat outright is rejected,
    /// not waitlisted.
    pub fn create_with_id(
        id: u128,
        student_id: u128,
        offering_id: u128,
        status: RegistrationStatus,
        registered_at: i64,
        store: &mut Store,
    ) -> (r: Result<Registration, DomainError>)
        requires
            inv(old(store)@),
        ensures
            inv(final(store)@),
            ({
                let s = old(store)@;
                if !(has_user(s, student_id) && has_offering(s, offering_id)) {
                    r == Err::<Registration, DomainError>(DomainError::NotFound) && final(store)@
                        == s
                } else if has_registration(s, id) {
                    r == Err::<Registration, DomainError>(DomainError::Duplicate) && final(store)@
                        == s
                } else if status != RegistrationStatus::Dropped && has_active_registration(
                    s.registrations,
                    student_id,
                    offering_id,
                ) {
                    r == Err::<Registration, DomainError>(DomainError::Duplicate) && final(store)@
                        == s
                } else if status == RegistrationStatus::Registered && registered_count(
                    s.registrations,
                    offering_id,
                ) >= (match find_offering(s.offerings, offering_id) {
                    Some(o) => o.capacity as int,
                    None => 0,
                }) {
                    r == Err::<Registration, DomainError>(DomainError::CapacityExceeded) && final(store)@ == s
                } else {
                    r == Ok::<Registration, DomainError>(
                        Registration {
                            id,
                            student_id,
                            offering_id,
                            registered_at,
                            status,
                            grade: None,
                        },
                    ) && final(store)@ == with_registrations(
                        s,
                        s.registrations.push(
                            Registration {
                                id,
                                student_id,
                                offering_id,
                                registered_at,
                                status,
                                grade: None,
                            },
                        ),
                    )
                }
            }),
    {
        if store.find_user_index(student_id).is_none() || store.find_offering_index(
            offering_id,
        ).is_none() {
            return Err(DomainError::NotFound);
        }
        if store.find_registration_index(id).is_some() {
            return Err(DomainError::Duplicate);
        }
        if !matches!(status, RegistrationStatus::Dropped) {
            if scan_active(store, student_id, offering_id) {
                return Err(DomainError::Duplicate);
            }
        }
        if matches!(status, RegistrationStatus::Registered) {
            let j = store.find_offering_index(offering_id).unwrap();
            proof {
                lemma_find_offering_unique(store@.offerings, offering_id, j as int);
            }
            let capacity = store.offering_at(j).capacity;
            let enrolled = store.count_registered(offering_id);
            if capacity < 0 || enrolled >= capacity as usize {
                return Err(DomainError::CapacityExceeded);
            }
        }
        let reg = Registration { id, student_id, offering_id, registered_at, status, grade: None };
        proof {
            lemma_inv_after_row_push(store@, reg);
        }
        store.push_registration(reg);
        Ok(reg)
    }

    /// Stores a row under a freshly drawn identifier, stamped with the
    /// current clock. The draw is random: a collision, against all
    /// odds, is reported as a duplicate rather than retried.
    pub fn create(
        student_id: u128,
        offering_id: u128,
        status: RegistrationStatus,
        store: &mut Store,
    ) -> (r: Result<Registration, DomainError>)
        requires
            inv(old(store)@),
        ensures
            inv(final(store)@),
            ({
                let s = old(store)@;
                if !(has_user(s, student_id) && has_offering(s, offering_id)) {
                    r == Err::<Registration, DomainError>(DomainError::NotFound) && final(store)@
                        == s
                } else if status != RegistrationStatus::Dropped && has_active_registration(
                    s.registrations,
                    student_id,
                    offering_id,
                ) {
                    r matches Err(e) && e == DomainError::Duplicate && final(store)@ == s
                } else if status == RegistrationStatus::Registered && registered_count(
                    s.registrations,
                    offering_id,
                ) >= (match find_offering(s.offerings, offering_id) {
                    Some(o) => o.capacity as int,
                    None => 0,
                }) {
                    r matches Err(e) && (e == DomainError::CapacityExceeded || e
                        == DomainError::Duplicate) && final(store)@ == s
                } else {
                    match r {
                        Ok(reg) => !has_registration(s, reg.id) && reg.student_id == student_id
                            && reg.offering_id == offering_id && reg.status == status && reg.grade
                            is None && final(store)@ == with_registrations(
                            s,
                            s.registrations.push(reg),
                        ),
                        Err(e) => e == DomainError::Duplicate && final(store)@ == s,
                    }
                }
            }),
    {
        let id = fresh_uuid();
        let now = now_timestamp();
        Registration::create_with_id(id, student_id, offering_id, status, now, store)
    }
}

// --- a replaced row keeps the store well-formed ----------------------------

/// Replacing one row with a copy that either drops out or keeps its
/// status preserves the table invariant: no identifier, student or
/// offering changes, and no seat appears.
proof fn lemma_inv_after_row_update(pre: StoreView, i: int, new_reg: Registration)
    requires
        inv(pre),
        0 <= i < pre.registrations.len(),
        new_reg.id == pre.registrations[i].id,
        new_reg.student_id == pre.registrations[i].student_id,
        new_reg.offering_id == pre.registrations[i].offering_id,
        new_reg.status == RegistrationStatus::Dropped || new_reg.status == pre.registrations[
            i
        ].status,
    ensures
        inv(with_registrations(pre, pre.registrations.update(i, new_reg))),
{
    let post = with_registrations(pre, pre.registrations.update(i, new_reg));
    assert forall|a: int, b: int| 0 <= a < b < post.registrations.len() implies post.registrations[
        a
    ].id != post.registrations[b].id by {
        assert(pre.registrations[a].id != pre.registrations[b].id);
    }
    assert forall|a: int, b: int| 0 <= a < b < post.registrations.len() implies !(
    post.registrations[a].student_id == post.registrations[b].student_id && post.registrations[
        a
    ].offering_id == post.registrations[b].offering_id && post.registrations[a].status
        != RegistrationStatus::Dropped && post.registrations[b].status
        != RegistrationStatus::Dropped) by {
        assert(!(pre.registrations[a].student_id == pre.registrations[b].student_id
            && pre.registrations[a].offering_id == pre.registrations[b].offering_id
            && pre.registrations[a].status != RegistrationStatus::Dropped && pre.registrations[
            b
        ].status != RegistrationStatus::Dropped));
    }
    assert forall|k: int| 0 <= k < post.offerings.len() implies registered_count(
        post.registrations,
        (#[trigger] post.offerings[k]).id,
    ) <= post.offerings[k].capacity by {
        lemma_registered_count_update(pre.registrations, i, new_reg, pre.offerings[k].id);
    }
    assert forall|a: int| 0 <= a < post.registrations.len() implies offering_exists(
        post.offerings,
        (#[trigger] post.registrations[a]).offering_id,
    ) by {
        if a == i {
            assert(post.registrations[a].offering_id == pre.registrations[i].offering_id);
        } else {
            assert(post.registrations[a] == pre.registrations[a]);
        }
    }
}

// --- the lifecycle operations ----------------------------------------------

/// Admits one registration attempt under a caller-chosen identifier
/// and timestamp. The offering and the student must exist; a second
/// active registration for the same pair is refused; every direct
/// prerequisite of the offering's course must have been completed in a
/// prior, completed term; and the resulting status is the admission
/// rule's: a seat below capacity, the waitlist at or above it.
pub fn register_with_id(
    id: u128,
    student_id: u128,
    offering_id: u128,
    now: i64,
    store: &mut Store,
) -> (r: Result<Registration, DomainError>)
    requires
        inv(old(store)@),
    ensures
        inv(final(store)@),
        ({
            let s = old(store)@;
            if !(has_user(s, student_id) && has_offering(s, offering_id)) {
                r == Err::<Registration, DomainError>(DomainError::NotFound) && final(store)@ == s
            } else if has_active_registration(s.registrations, student_id, offering_id) {
                r == Err::<Registration, DomainError>(DomainError::Duplicate) && final(store)@
                    == s
            } else if has_registration(s, id) {
                r == Err::<Registration, DomainError>(DomainError::Duplicate) && final(store)@
                    == s
            } else {
                let o = find_offering(s.offerings, offering_id)->Some_0;
                match find_term(s.terms, o.term_id) {
                    None => r == Err::<Registration, DomainError>(DomainError::NotFound) && final(store)@ == s,
                    Some(t) => {
                        if !eligible(s, student_id, o.course_id, t.start_date) {
                            r == Err::<Registration, DomainError>(DomainError::Eligibility)
                                && final(store)@ == s
                        } else {
                            let reg = Registration {
                                id,
                                student_id,
                                offering_id,
                                registered_at: now,
                                status: admitted_status(
                                    registered_count(s.registrations, offering_id),
                                    o.capacity as int,
                                ),
                                grade: None,
                            };
                            r == Ok::<Registration, DomainError>(reg) && final(store)@
                                == with_registrations(s, s.registrations.push(reg))
                        }
                    },
                }
            }
        }),
{
    let oj = match store.find_offering_index(offering_id) {
        None => {
            proof {
                lemma_find_offering_absent(store@.offerings, offering_id);
            }
            return Err(DomainError::NotFound);
        },
        Some(j) => j,
    };
    if store.find_user_index(student_id).is_none() {
        return Err(DomainError::NotFound);
    }
    if scan_active(store, student_id, offering_id) {
        return Err(DomainError::Duplicate);
    }
    if store.find_registration_index(id).is_some() {
        return Err(DomainError::Duplicate);
    }
    proof {
        lemma_find_offering_unique(store@.offerings, offering_id, oj as int);
    }
    let o_course = store.offering_at(oj).course_id;
    let o_term = store.offering_at(oj).term_id;
    let capacity = store.offering_at(oj).capacity;
    let tk = match store.find_term_index(o_term) {
        None => {
            proof {
                lemma_find_term_absent(store@.terms, o_term);
            }
            return Err(DomainError::NotFound);
        },
        Some(k) => k,
    };
    proof {
        lemma_find_term_unique(store@.terms, o_term, tk as int);
    }
    let target_start = store.term_at(tk).start_date;
    if !check_eligibility(store, student_id, o_course, target_start) {
        return Err(DomainError::Eligibility);
    }
    let enrolled = store.count_registered(offering_id);
    proof {
        assert(capacity >= 0);
    }
    let status = if enrolled < capacity as usize {
        RegistrationStatus::Registered
    } else {
        RegistrationStatus::Waitlisted
    };
    let reg = Registration { id, student_id, offering_id, registered_at: now, status, grade: None };
    proof {
        lemma_inv_after_row_push(store@, reg);
    }
    store.push_registration(reg);
    Ok(reg)
}

/// Admits one registration attempt under a freshly drawn identifier,
/// stamped with the current clock. The draw is random: a collision,
/// against all odds, is reported as a duplicate rather than retried.
pub fn register(student_id: u128, offering_id: u128, store: &mut Store) -> (r: Result<
    Registration,
    DomainError,
>)
    requires
        inv(old(store)@),
    ensures
        inv(final(store)@),
        ({
            let s = old(store)@;
            if !(has_user(s, student_id) && has_offering(s, offering_id)) {
                r == Err::<Registration, DomainError>(DomainError::NotFound) && final(store)@ == s
            } else if has_active_registration(s.registrations, student_id, offering_id) {
                r == Err::<Registration, DomainError>(DomainError::Duplicate) && final(store)@
                    == s
            } else {
                let o = find_offering(s.offerings, offering_id)->Some_0;
                match find_term(s.terms, o.term_id) {
                    None => (r matches Err(e) && (e == DomainError::NotFound || e
                        == DomainError::Duplicate) && final(store)@ == s),
                    Some(t) => {
                        if !eligible(s, student_id, o.course_id, t.start_date) {
                            (r matches Err(e) && (e == DomainError::Eligibility || e
                                == DomainError::Duplicate) && final(store)@ == s)
                        } else {
                            match r {
                                Ok(reg) => !has_registration(s, reg.id) && reg.student_id
                                    == student_id && reg.offering_id == offering_id && reg.grade
                                    is None && reg.status == admitted_status(
                                    registered_count(s.registrations, offering_id),
                                    o.capacity as int,
                                ) && final(store)@ == with_registrations(
                                    s,
                                    s.registrations.push(reg),
                                ),
                                Err(e) => e == DomainError::Duplicate && final(store)@ == s,
                            }
                        }
                    },
                }
            }
        }),
{
    let id = fresh_uuid();
    let now = now_timestamp();
    register_with_id(id, student_id, offering_id, now, store)
}

/// Sets a registration's status to `Dropped`. The row is kept as an
/// audit trail, and no waitlisted student is promoted by this call:
/// promotion policy is left open.
pub fn drop_registration(registration_id: u128, store: &mut Store) -> (r: Result<
    (),
    DomainError,
>)
    requires
        inv(old(store)@),
    ensures
        inv(final(store)@),
        match r {
            Ok(()) => exists|i: int|
                0 <= i < old(store)@.registrations.len() && old(store)@.registrations[i].id
                    == registration_id && final(store)@ == with_registrations(
                    old(store)@,
                    old(store)@.registrations.update(
                        i,
                        Registration {
                            status: RegistrationStatus::Dropped,
                            ..old(store)@.registrations[i]
                        },
                    ),
                ),
            Err(e) => e == DomainError::NotFound && !has_registration(
                old(store)@,
                registration_id,
            ) && final(store)@ == old(store)@,
        },
        r is Ok <==> has_registration(old(store)@, registration_id),
{
    match store.find_registration_index(registration_id) {
        None => Err(DomainError::NotFound),
        Some(i) => {
            let reg = store.registration_at(i);
            let dropped = Registration { status: RegistrationStatus::Dropped, ..reg };
            proof {
                lemma_inv_after_row_update(store@, i as int, dropped);
                assert(old(store)@.registrations[i as int].id == registration_id);
            }
            store.set_registration_at(i, dropped);
            Ok(())
        },
    }
}

/// Assigns a grade. Only a `Registered` row may be graded; grading a
/// `Waitlisted` or `Dropped` one is an invalid-state failure. A second
/// assignment overwrites the first.
pub fn assign_grade(registration_id: u128, grade: Grade, store: &mut Store) -> (r: Result<
    (),
    DomainError,
>)
    requires
        inv(old(store)@),
    ensures
        inv(final(store)@),
        match r {
            Ok(()) => exists|i: int|
                0 <= i < old(store)@.registrations.len() && old(store)@.registrations[i].id
                    == registration_id && old(store)@.registrations[i].status
                    == RegistrationStatus::Registered && final(store)@ == with_registrations(
                    old(store)@,
                    old(store)@.registrations.update(
                        i,
                        Registration { grade: Some(grade), ..old(store)@.registrations[i] },
                    ),
                ),
            Err(e) => final(store)@ == old(store)@ && ((e == DomainError::NotFound
                && !has_registration(old(store)@, registration_id)) || (e
                == DomainError::InvalidState && exists|i: int|
                0 <= i < old(store)@.registrations.len() && old(store)@.registrations[i].id
                    == registration_id && old(store)@.registrations[i].status
                    != RegistrationStatus::Registered)),
        },
{
    match store.find_registration_index(registration_id) {
        None => Err(DomainError::NotFound),
        Some(i) => {
            let reg = store.registration_at(i);
            if !matches!(reg.status, RegistrationStatus::Registered) {
                proof {
                    assert(store@.registrations[i as int].id == registration_id
                        && store@.registrations[i as int].status
                        != RegistrationStatus::Registered);
                }
                return Err(DomainError::InvalidState);
            }
            let graded = Registration { grade: Some(grade), ..reg };
            proof {
                lemma_inv_after_row_update(store@, i as int, graded);
                assert(old(store)@.registrations[i as int].id == registration_id);
            }
            store.set_registration_at(i, graded);
            Ok(())
        },
    }
}

/// Assigning the same grade a second time leaves the table exactly as
/// the first assignment left it: grading is idempotent-overwritable.
pub proof fn lemma_assign_grade_idempotent(regs: Seq<Registration>, i: int, grade: Grade)
    requires
        0 <= i < regs.len(),
    ensures
        ({
            let once = regs.update(i, Registration { grade: Some(grade), ..regs[i] });
            once.update(i, Registration { grade: Some(grade), ..once[i] }) == once
        }),
{
    let once = regs.update(i, Registration { grade: Some(grade), ..regs[i] });
    assert(once.update(i, Registration { grade: Some(grade), ..once[i] }) =~= once);
}

} // verus!
