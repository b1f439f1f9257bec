use vstd::prelude::*;

use crate::date::Date;
use crate::models::course::{Course, CourseView};
use crate::models::course_meeting_time::CourseMeetingTime;
use crate::models::course_offering::{CourseOffering, CourseOfferingView};
use crate::models::course_prerequisite::CoursePrerequisite;
use crate::models::department::{Department, DepartmentView};
use crate::models::registration::{Registration, RegistrationStatus};
use crate::models::student_profile::{valid_student_number, StudentProfile};
use crate::models::term::{spec_term_name, Term};
use crate::models::user::{User, UserView};

verus! {

/// The in-memory image of the durable store: every entity table plus
/// the serial counters for the tables whose identifiers the store
/// itself allocates. Domain operations are given the store as an
/// explicit capability; nothing reads it from ambient global state.
pub struct Store {
    departments: Vec<Department>,
    courses: Vec<Course>,
    prerequisites: Vec<CoursePrerequisite>,
    terms: Vec<Term>,
    offerings: Vec<CourseOffering>,
    meetings: Vec<CourseMeetingTime>,
    registrations: Vec<Registration>,
    users: Vec<User>,
    student_profiles: Vec<StudentProfile>,
    next_department_id: u32,
    next_term_id: u32,
    next_meeting_id: u32,
}

/// The mathematical image of the store: each table as a sequence of
/// entity views, in insertion order.
pub ghost struct StoreView {
    pub departments: Seq<DepartmentView>,
    pub courses: Seq<CourseView>,
    pub prerequisites: Seq<CoursePrerequisite>,
    pub terms: Seq<Term>,
    pub offerings: Seq<CourseOfferingView>,
    pub meetings: Seq<CourseMeetingTime>,
    pub registrations: Seq<Registration>,
    pub users: Seq<UserView>,
    pub student_profiles: Seq<StudentProfile>,
    pub next_department_id: u32,
    pub next_term_id: u32,
    pub next_meeting_id: u32,
}

impl View for Store {
    type V = StoreView;

    closed spec fn view(&self) -> StoreView {
        StoreView {
            departments: self.departments@.map_values(|d: Department| d@),
            courses: self.courses@.map_values(|c: Course| c@),
            prerequisites: self.prerequisites@,
            terms: self.terms@,
            offerings: self.offerings@.map_values(|o: CourseOffering| o@),
            meetings: self.meetings@,
            registrations: self.registrations@,
            users: self.users@.map_values(|u: User| u@),
            student_profiles: self.student_profiles@,
            next_department_id: self.next_department_id,
            next_term_id: self.next_term_id,
            next_meeting_id: self.next_meeting_id,
        }
    }
}

// --- membership helpers -------------------------------------------------

pub open spec fn has_department(s: StoreView, id: u32) -> bool {
    exists|i: int| 0 <= i < s.departments.len() && s.departments[i].id == id
}

pub open spec fn has_department_code(s: StoreView, code: Seq<char>) -> bool {
    exists|i: int| 0 <= i < s.departments.len() && s.departments[i].code == code
}

pub open spec fn has_course(s: StoreView, id: u128) -> bool {
    exists|i: int| 0 <= i < s.courses.len() && s.courses[i].id == id
}

pub open spec fn has_term(s: StoreView, id: u32) -> bool {
    exists|i: int| 0 <= i < s.terms.len() && s.terms[i].id == id
}

/// Whether some record of the table carries the identifier.
pub open spec fn offering_exists(offerings: Seq<CourseOfferingView>, id: u128) -> bool {
    exists|i: int| 0 <= i < offerings.len() && offerings[i].id == id
}

pub open spec fn has_offering(s: StoreView, id: u128) -> bool {
    offering_exists(s.offerings, id)
}

pub open spec fn has_meeting(s: StoreView, id: u32) -> bool {
    exists|i: int| 0 <= i < s.meetings.len() && s.meetings[i].id == id
}

pub open spec fn has_registration(s: StoreView, id: u128) -> bool {
    exists|i: int| 0 <= i < s.registrations.len() && s.registrations[i].id == id
}

/// Whether some record of the table carries the identifier.
pub open spec fn user_exists(users: Seq<UserView>, id: u128) -> bool {
    exists|i: int| 0 <= i < users.len() && users[i].id == id
}

pub open spec fn has_user(s: StoreView, id: u128) -> bool {
    user_exists(s.users, id)
}

pub open spec fn has_user_email(s: StoreView, email: Seq<char>) -> bool {
    exists|i: int| 0 <= i < s.users.len() && s.users[i].email == email
}

pub open spec fn has_profile(s: StoreView, user_id: u128) -> bool {
    exists|i: int| 0 <= i < s.student_profiles.len() && s.student_profiles[i].user_id == user_id
}

/// Whether the prerequisite relation holds the directed edge
/// `course -> prerequisite`.
pub open spec fn has_edge(edges: Seq<CoursePrerequisite>, course: u128, prerequisite: u128) -> bool {
    exists|i: int|
        0 <= i < edges.len() && edges[i].course_id == course && edges[i].prerequisite_id
            == prerequisite
}

// --- first-match lookups, as functions ----------------------------------

pub open spec fn find_course(courses: Seq<CourseView>, id: u128) -> Option<CourseView>
    decreases courses.len(),
{
    if courses.len() == 0 {
        None
    } else if courses[0].id == id {
        Some(courses[0])
    } else {
        find_course(courses.drop_first(), id)
    }
}

pub open spec fn find_offering(offerings: Seq<CourseOfferingView>, id: u128) -> Option<
    CourseOfferingView,
>
    decreases offerings.len(),
{
    if offerings.len() == 0 {
        None
    } else if offerings[0].id == id {
        Some(offerings[0])
    } else {
        find_offering(offerings.drop_first(), id)
    }
}

pub open spec fn find_term(terms: Seq<Term>, id: u32) -> Option<Term>
    decreases terms.len(),
{
    if terms.len() == 0 {
        None
    } else if terms[0].id == id {
        Some(terms[0])
    } else {
        find_term(terms.drop_first(), id)
    }
}

// --- counting -----------------------------------------------------------

/// Whether one record occupies a seat of the given offering.
pub open spec fn counts_toward_enrollment(r: Registration, offering: u128) -> bool {
    r.offering_id == offering && r.status == RegistrationStatus::Registered
}

/// How many `Registered` rows the given offering has: the quantity the
/// admission gate compares against the capacity.
pub open spec fn registered_count(regs: Seq<Registration>, offering: u128) -> int
    decreases regs.len(),
{
    if regs.len() == 0 {
        0
    } else {
        registered_count(regs.drop_last(), offering) + if counts_toward_enrollment(
            regs.last(),
            offering,
        ) {
            1int
        } else {
            0int
        }
    }
}

/// Whether one record is an active (non-dropped) registration of the
/// given student in the given offering.
pub open spec fn active_for(r: Registration, student: u128, offering: u128) -> bool {
    r.student_id == student && r.offering_id == offering && r.status
        != RegistrationStatus::Dropped
}

pub open spec fn has_active_registration(
    regs: Seq<Registration>,
    student: u128,
    offering: u128,
) -> bool {
    exists|i: int| 0 <= i < regs.len() && active_for(regs[i], student, offering)
}

// --- the store invariant ------------------------------------------------

pub open spec fn departments_ok(s: StoreView) -> bool {
    &&& forall|i: int, j: int|
        0 <= i < j < s.departments.len() ==> s.departments[i].id != s.departments[j].id
    &&& forall|i: int, j: int|
        0 <= i < j < s.departments.len() ==> s.departments[i].code != s.departments[j].code
    &&& forall|i: int|
        0 <= i < s.departments.len() ==> s.departments[i].id < s.next_department_id
}

pub open spec fn courses_ok(s: StoreView) -> bool {
    &&& forall|i: int, j: int| 0 <= i < j < s.courses.len() ==> s.courses[i].id != s.courses[j].id
    &&& forall|i: int| 0 <= i < s.courses.len() ==> s.courses[i].credits >= 0
}

/// No self-loops and no duplicate pairs in the prerequisite relation.
pub open spec fn edges_ok(s: StoreView) -> bool {
    &&& forall|i: int|
        0 <= i < s.prerequisites.len() ==> s.prerequisites[i].course_id
            != s.prerequisites[i].prerequisite_id
    &&& forall|i: int, j: int|
        0 <= i < j < s.prerequisites.len() ==> !(s.prerequisites[i].course_id
            == s.prerequisites[j].course_id && s.prerequisites[i].prerequisite_id
            == s.prerequisites[j].prerequisite_id)
}

/// Terms are well-formed and immutable: valid dates in strict order,
/// and the name derived from the start date.
pub open spec fn terms_ok(s: StoreView) -> bool {
    &&& forall|i: int, j: int| 0 <= i < j < s.terms.len() ==> s.terms[i].id != s.terms[j].id
    &&& forall|i: int| 0 <= i < s.terms.len() ==> s.terms[i].id < s.next_term_id
    &&& forall|i: int| 0 <= i < s.terms.len() ==> (#[trigger] s.terms[i]).start_date.valid()
    &&& forall|i: int| 0 <= i < s.terms.len() ==> (#[trigger] s.terms[i]).end_date.valid()
    &&& forall|i: int|
        0 <= i < s.terms.len() ==> (#[trigger] s.terms[i]).start_date.spec_before(
            s.terms[i].end_date,
        )
    &&& forall|i: int|
        0 <= i < s.terms.len() ==> (#[trigger] s.terms[i]).name == spec_term_name(
            s.terms[i].start_date,
        )
}

pub open spec fn offerings_ok(s: StoreView) -> bool {
    &&& forall|i: int, j: int|
        0 <= i < j < s.offerings.len() ==> s.offerings[i].id != s.offerings[j].id
    &&& forall|i: int| 0 <= i < s.offerings.len() ==> s.offerings[i].capacity >= 0
}

pub open spec fn meetings_ok(s: StoreView) -> bool {
    &&& forall|i: int, j: int| 0 <= i < j < s.meetings.len() ==> s.meetings[i].id != s.meetings[j].id
    &&& forall|i: int| 0 <= i < s.meetings.len() ==> s.meetings[i].id < s.next_meeting_id
    &&& forall|i: int| 0 <= i < s.meetings.len() ==> (#[trigger] s.meetings[i]).spec_valid_times()
}

pub open spec fn users_ok(s: StoreView) -> bool {
    &&& forall|i: int, j: int| 0 <= i < j < s.users.len() ==> s.users[i].id != s.users[j].id
    &&& forall|i: int, j: int| 0 <= i < j < s.users.len() ==> s.users[i].email != s.users[j].email
}

pub open spec fn profiles_ok(s: StoreView) -> bool {
    &&& forall|i: int, j: int|
        0 <= i < j < s.student_profiles.len() ==> s.student_profiles[i].user_id
            != s.student_profiles[j].user_id
    &&& forall|i: int|
        0 <= i < s.student_profiles.len() ==> valid_student_number(
            s.student_profiles[i].student_number,
        )
    &&& forall|i: int|
        0 <= i < s.student_profiles.len() ==> user_exists(
            s.users,
            (#[trigger] s.student_profiles[i]).user_id,
        )
}

/// The registration table invariant. The capacity clause is the heart
/// of the admission design: for every offering, the count of
/// `Registered` rows never exceeds its capacity, whatever sequence of
/// operations produced the current state.
pub open spec fn registrations_ok(s: StoreView) -> bool {
    &&& forall|i: int, j: int|
        0 <= i < j < s.registrations.len() ==> s.registrations[i].id != s.registrations[j].id
    &&& forall|i: int, j: int|
        0 <= i < j < s.registrations.len() ==> !(s.registrations[i].student_id
            == s.registrations[j].student_id && s.registrations[i].offering_id
            == s.registrations[j].offering_id && s.registrations[i].status
            != RegistrationStatus::Dropped && s.registrations[j].status
            != RegistrationStatus::Dropped)
    &&& forall|k: int|
        0 <= k < s.offerings.len() ==> registered_count(s.registrations, s.offerings[k].id)
            <= s.offerings[k].capacity
    &&& forall|i: int|
        0 <= i < s.registrations.len() ==> offering_exists(
            s.offerings,
            (#[trigger] s.registrations[i]).offering_id,
        )
}

/// Well-formedness of the whole store.
pub open spec fn inv(s: StoreView) -> bool {
    &&& departments_ok(s)
    &&& courses_ok(s)
    &&& edges_ok(s)
    &&& terms_ok(s)
    &&& offerings_ok(s)
    &&& meetings_ok(s)
    &&& users_ok(s)
    &&& profiles_ok(s)
    &&& registrations_ok(s)
}

/// The capacity invariant, read off the well-formed store: whatever
/// sequence of operations produced the state, no offering's count of
/// `Registered` rows exceeds its capacity.
pub proof fn lemma_capacity_never_exceeded(s: StoreView, k: int)
    requires
        inv(s),
        0 <= k < s.offerings.len(),
    ensures
        registered_count(s.registrations, s.offerings[k].id) <= s.offerings[k].capacity,
{
}

// --- count lemmas -------------------------------------------------------

/// Appending a row adds its own contribution to the enrollment count
/// and nothing else.
/// An offering that no row references has an enrollment count of
/// zero.
pub proof fn lemma_registered_count_zero(regs: Seq<Registration>, offering: u128)
    requires
        forall|i: int| 0 <= i < regs.len() ==> (#[trigger] regs[i]).offering_id != offering,
    ensures
        registered_count(regs, offering) == 0,
    decreases regs.len(),
{
    if regs.len() > 0 {
        lemma_registered_count_zero(regs.drop_last(), offering);
    }
}

/// Adding an offering with a fresh identifier and a non-negative
/// capacity keeps the store well-formed: no row can already occupy a
/// seat of an offering that did not exist.
pub proof fn lemma_inv_after_offering_push(pre: StoreView, o: CourseOfferingView)
    requires
        inv(pre),
        o.capacity >= 0,
        !has_offering(pre, o.id),
    ensures
        inv(with_offerings(pre, pre.offerings.push(o))),
{
    let post = with_offerings(pre, pre.offerings.push(o));
    assert forall|i: int| 0 <= i < pre.registrations.len() implies (#[trigger] pre.registrations[i]).offering_id
        != o.id by {
        if pre.registrations[i].offering_id == o.id {
            assert(offering_exists(pre.offerings, o.id));
        }
    }
    lemma_registered_count_zero(pre.registrations, o.id);
    assert forall|k: int| 0 <= k < post.offerings.len() implies registered_count(
        post.registrations,
        (#[trigger] post.offerings[k]).id,
    ) <= post.offerings[k].capacity by {
        if k < pre.offerings.len() {
            assert(post.offerings[k] == pre.offerings[k]);
        } else {
            assert(post.offerings[k] == o);
        }
    }
    assert forall|i: int| 0 <= i < post.registrations.len() implies offering_exists(
        post.offerings,
        (#[trigger] post.registrations[i]).offering_id,
    ) by {
        assert(offering_exists(pre.offerings, pre.registrations[i].offering_id));
        let k = choose|k: int|
            0 <= k < pre.offerings.len() && pre.offerings[k].id == pre.registrations[
                i
            ].offering_id;
        assert(post.offerings[k].id == pre.registrations[i].offering_id);
    }
}

pub proof fn lemma_registered_count_push(regs: Seq<Registration>, r: Registration, offering: u128)
    ensures
        registered_count(regs.push(r), offering) == registered_count(regs, offering)
            + if counts_toward_enrollment(r, offering) {
            1int
        } else {
            0int
        },
{
    assert(regs.push(r).drop_last() =~= regs);
}

/// Replacing one row shifts the enrollment count by the difference of
/// the two rows' contributions.
pub proof fn lemma_registered_count_update(
    regs: Seq<Registration>,
    i: int,
    r: Registration,
    offering: u128,
)
    requires
        0 <= i < regs.len(),
    ensures
        registered_count(regs.update(i, r), offering) == registered_count(regs, offering)
            - (if counts_toward_enrollment(regs[i], offering) {
            1int
        } else {
            0int
        }) + if counts_toward_enrollment(r, offering) {
            1int
        } else {
            0int
        },
    decreases regs.len(),
{
    if i == regs.len() - 1 {
        assert(regs.update(i, r).drop_last() =~= regs.drop_last());
        assert(regs.update(i, r).last() == r);
    } else {
        lemma_registered_count_update(regs.drop_last(), i, r, offering);
        assert(regs.update(i, r).drop_last() =~= regs.drop_last().update(i, r));
        assert(regs.update(i, r).last() == regs.last());
    }
}

/// A first-match lookup finds the unique record carrying an id, however
/// deep it sits, as long as ids do not repeat.
pub proof fn lemma_find_course_unique(courses: Seq<CourseView>, id: u128, i: int)
    requires
        forall|a: int, b: int| 0 <= a < b < courses.len() ==> courses[a].id != courses[b].id,
        0 <= i < courses.len(),
        courses[i].id == id,
    ensures
        find_course(courses, id) == Some(courses[i]),
    decreases courses.len(),
{
    if i > 0 {
        lemma_find_course_unique(courses.drop_first(), id, i - 1);
    }
}

pub proof fn lemma_find_offering_unique(offerings: Seq<CourseOfferingView>, id: u128, i: int)
    requires
        forall|a: int, b: int| 0 <= a < b < offerings.len() ==> offerings[a].id != offerings[b].id,
        0 <= i < offerings.len(),
        offerings[i].id == id,
    ensures
        find_offering(offerings, id) == Some(offerings[i]),
    decreases offerings.len(),
{
    if i > 0 {
        lemma_find_offering_unique(offerings.drop_first(), id, i - 1);
    }
}

pub proof fn lemma_find_term_unique(terms: Seq<Term>, id: u32, i: int)
    requires
        forall|a: int, b: int| 0 <= a < b < terms.len() ==> terms[a].id != terms[b].id,
        0 <= i < terms.len(),
        terms[i].id == id,
    ensures
        find_term(terms, id) == Some(terms[i]),
    decreases terms.len(),
{
    if i > 0 {
        lemma_find_term_unique(terms.drop_first(), id, i - 1);
    }
}

// --- single-field images of a store update ------------------------------

pub open spec fn with_departments(s: StoreView, t: Seq<DepartmentView>) -> StoreView {
    StoreView { departments: t, ..s }
}

pub open spec fn with_courses(s: StoreView, t: Seq<CourseView>) -> StoreView {
    StoreView { courses: t, ..s }
}

pub open spec fn with_prerequisites(s: StoreView, t: Seq<CoursePrerequisite>) -> StoreView {
    StoreView { prerequisites: t, ..s }
}

pub open spec fn with_terms(s: StoreView, t: Seq<Term>) -> StoreView {
    StoreView { terms: t, ..s }
}

pub open spec fn with_offerings(s: StoreView, t: Seq<CourseOfferingView>) -> StoreView {
    StoreView { offerings: t, ..s }
}

pub open spec fn with_meetings(s: StoreView, t: Seq<CourseMeetingTime>) -> StoreView {
    StoreView { meetings: t, ..s }
}

pub open spec fn with_registrations(s: StoreView, t: Seq<Registration>) -> StoreView {
    StoreView { registrations: t, ..s }
}

pub open spec fn with_users(s: StoreView, t: Seq<UserView>) -> StoreView {
    StoreView { users: t, ..s }
}

pub open spec fn with_student_profiles(s: StoreView, t: Seq<StudentProfile>) -> StoreView {
    StoreView { student_profiles: t, ..s }
}

// --- the store itself ---------------------------------------------------

impl Store {
    /// An empty store: no rows anywhere, serial counters at their
    /// starting value.
    pub fn new() -> (r: Store)
        ensures
            r@.departments =~= Seq::<DepartmentView>::empty(),
            r@.courses =~= Seq::<CourseView>::empty(),
            r@.prerequisites =~= Seq::<CoursePrerequisite>::empty(),
            r@.terms =~= Seq::<Term>::empty(),
            r@.offerings =~= Seq::<CourseOfferingView>::empty(),
            r@.meetings =~= Seq::<CourseMeetingTime>::empty(),
            r@.registrations =~= Seq::<Registration>::empty(),
            r@.users =~= Seq::<UserView>::empty(),
            r@.student_profiles =~= Seq::<StudentProfile>::empty(),
            r@.next_department_id == 1,
            r@.next_term_id == 1,
            r@.next_meeting_id == 1,
            inv(r@),
    {
        Store {
            departments: Vec::new(),
            courses: Vec::new(),
            prerequisites: Vec::new(),
            terms: Vec::new(),
            offerings: Vec::new(),
            meetings: Vec::new(),
            registrations: Vec::new(),
            users: Vec::new(),
            student_profiles: Vec::new(),
            next_department_id: 1,
            next_term_id: 1,
            next_meeting_id: 1,
        }
    }

    // --- departments ----------------------------------------------------

    pub(crate) fn departments_len(&self) -> (r: usize)
        ensures
            r == self@.departments.len(),
    {
        self.departments.len()
    }

    pub(crate) fn department_at(&self, i: usize) -> (r: &Department)
        requires
            i < self@.departments.len(),
        ensures
            r@ == self@.departments[i as int],
    {
        &self.departments[i]
    }

    pub(crate) fn push_department(&mut self, d: Department)
        ensures
            final(self)@ == with_departments(
                old(self)@,
                old(self)@.departments.push(d@),
            ),
    {
        self.departments.push(d);
        proof {
            assert(final(self)@.departments =~= old(self)@.departments.push(d@));
            assert(final(self)@ == with_departments(
                old(self)@,
                old(self)@.departments.push(d@),
            ));
        }
    }

    pub(crate) fn remove_department_at(&mut self, i: usize)
        requires
            i < old(self)@.departments.len(),
        ensures
            final(self)@ == with_departments(
                old(self)@,
                old(self)@.departments.remove(i as int),
            ),
    {
        self.departments.remove(i);
        proof {
            assert(final(self)@.departments =~= old(self)@.departments.remove(i as int));
            assert(final(self)@ == with_departments(
                old(self)@,
                old(self)@.departments.remove(i as int),
            ));
        }
    }

    pub(crate) fn next_department_id(&self) -> (r: u32)
        ensures
            r == self@.next_department_id,
    {
        self.next_department_id
    }

    pub(crate) fn bump_department_counter(&mut self)
        requires
            old(self)@.next_department_id < u32::MAX,
        ensures
            final(self)@ == (StoreView {
                next_department_id: (old(self)@.next_department_id + 1) as u32,
                ..old(self)@
            }),
    {
        self.next_department_id = self.next_department_id + 1;
    }

    // --- courses --------------------------------------------------------

    pub(crate) fn courses_len(&self) -> (r: usize)
        ensures
            r == self@.courses.len(),
    {
        self.courses.len()
    }

    pub(crate) fn course_at(&self, i: usize) -> (r: &Course)
        requires
            i < self@.courses.len(),
        ensures
            r@ == self@.courses[i as int],
    {
        &self.courses[i]
    }

    pub(crate) fn push_course(&mut self, c: Course)
        ensures
            final(self)@ == with_courses(old(self)@, old(self)@.courses.push(c@)),
    {
        self.courses.push(c);
        proof {
            assert(final(self)@.courses =~= old(self)@.courses.push(c@));
            assert(final(self)@ == with_courses(old(self)@, old(self)@.courses.push(c@)));
        }
    }

    pub(crate) fn remove_course_at(&mut self, i: usize)
        requires
            i < old(self)@.courses.len(),
        ensures
            final(self)@ == with_courses(old(self)@, old(self)@.courses.remove(i as int)),
    {
        self.courses.remove(i);
        proof {
            assert(final(self)@.courses =~= old(self)@.courses.remove(i as int));
            assert(final(self)@ == with_courses(
                old(self)@,
                old(self)@.courses.remove(i as int),
            ));
        }
    }

    // --- prerequisite edges ----------------------------------------------

    pub(crate) fn prerequisites_len(&self) -> (r: usize)
        ensures
            r == self@.prerequisites.len(),
    {
        self.prerequisites.len()
    }

    pub(crate) fn prerequisite_at(&self, i: usize) -> (r: CoursePrerequisite)
        requires
            i < self@.prerequisites.len(),
        ensures
            r == self@.prerequisites[i as int],
    {
        self.prerequisites[i]
    }

    pub(crate) fn set_prerequisites(&mut self, v: Vec<CoursePrerequisite>)
        ensures
            final(self)@ == with_prerequisites(old(self)@, v@),
    {
        self.prerequisites = v;
    }

    pub(crate) fn push_prerequisite(&mut self, e: CoursePrerequisite)
        ensures
            final(self)@ == with_prerequisites(
                old(self)@,
                old(self)@.prerequisites.push(e),
            ),
    {
        self.prerequisites.push(e);
    }

    pub(crate) fn remove_prerequisite_at(&mut self, i: usize)
        requires
            i < old(self)@.prerequisites.len(),
        ensures
            final(self)@ == with_prerequisites(
                old(self)@,
                old(self)@.prerequisites.remove(i as int),
            ),
    {
        self.prerequisites.remove(i);
    }

    // --- terms ------------------------------------------------------------

    pub(crate) fn terms_len(&self) -> (r: usize)
        ensures
            r == self@.terms.len(),
    {
        self.terms.len()
    }

    pub(crate) fn term_at(&self, i: usize) -> (r: Term)
        requires
            i < self@.terms.len(),
        ensures
            r == self@.terms[i as int],
    {
        self.terms[i]
    }

    pub(crate) fn push_term(&mut self, t: Term)
        ensures
            final(self)@ == with_terms(old(self)@, old(self)@.terms.push(t)),
    {
        self.terms.push(t);
    }

    pub(crate) fn next_term_id(&self) -> (r: u32)
        ensures
            r == self@.next_term_id,
    {
        self.next_term_id
    }

    pub(crate) fn bump_term_counter(&mut self)
        requires
            old(self)@.next_term_id < u32::MAX,
        ensures
            final(self)@ == (StoreView {
                next_term_id: (old(self)@.next_term_id + 1) as u32,
                ..old(self)@
            }),
    {
        self.next_term_id = self.next_term_id + 1;
    }

    // --- offerings --------------------------------------------------------

    pub(crate) fn offerings_len(&self) -> (r: usize)
        ensures
            r == self@.offerings.len(),
    {
        self.offerings.len()
    }

    pub(crate) fn offering_at(&self, i: usize) -> (r: &CourseOffering)
        requires
            i < self@.offerings.len(),
        ensures
            r@ == self@.offerings[i as int],
    {
        &self.offerings[i]
    }

    pub(crate) fn push_offering(&mut self, o: CourseOffering)
        ensures
            final(self)@ == with_offerings(old(self)@, old(self)@.offerings.push(o@)),
    {
        self.offerings.push(o);
        proof {
            assert(final(self)@.offerings =~= old(self)@.offerings.push(o@));
            assert(final(self)@ == with_offerings(
                old(self)@,
                old(self)@.offerings.push(o@),
            ));
        }
    }

    // --- meetings -----------------------------------------------------------

    pub(crate) fn meetings_len(&self) -> (r: usize)
        ensures
            r == self@.meetings.len(),
    {
        self.meetings.len()
    }

    pub(crate) fn meeting_at(&self, i: usize) -> (r: CourseMeetingTime)
        requires
            i < self@.meetings.len(),
        ensures
            r == self@.meetings[i as int],
    {
        self.meetings[i]
    }

    pub(crate) fn push_meeting(&mut self, m: CourseMeetingTime)
        ensures
            final(self)@ == with_meetings(old(self)@, old(self)@.meetings.push(m)),
    {
        self.meetings.push(m);
    }

    pub(crate) fn remove_meeting_at(&mut self, i: usize)
        requires
            i < old(self)@.meetings.len(),
        ensures
            final(self)@ == with_meetings(old(self)@, old(self)@.meetings.remove(i as int)),
    {
        self.meetings.remove(i);
    }

    pub(crate) fn next_meeting_id(&self) -> (r: u32)
        ensures
            r == self@.next_meeting_id,
    {
        self.next_meeting_id
    }

    pub(crate) fn bump_meeting_counter(&mut self)
        requires
            old(self)@.next_meeting_id < u32::MAX,
        ensures
            final(self)@ == (StoreView {
                next_meeting_id: (old(self)@.next_meeting_id + 1) as u32,
                ..old(self)@
            }),
    {
        self.next_meeting_id = self.next_meeting_id + 1;
    }

    // --- registrations ------------------------------------------------------

    pub(crate) fn registrations_len(&self) -> (r: usize)
        ensures
            r == self@.registrations.len(),
    {
        self.registrations.len()
    }

    pub(crate) fn registration_at(&self, i: usize) -> (r: Registration)
        requires
            i < self@.registrations.len(),
        ensures
            r == self@.registrations[i as int],
    {
        self.registrations[i]
    }

    pub(crate) fn set_registrations(&mut self, v: Vec<Registration>)
        ensures
            final(self)@ == with_registrations(old(self)@, v@),
    {
        self.registrations = v;
    }

    pub(crate) fn push_registration(&mut self, r: Registration)
        ensures
            final(self)@ == with_registrations(
                old(self)@,
                old(self)@.registrations.push(r),
            ),
    {
        self.registrations.push(r);
    }

    pub(crate) fn set_registration_at(&mut self, i: usize, r: Registration)
        requires
            i < old(self)@.registrations.len(),
        ensures
            final(self)@ == with_registrations(
                old(self)@,
                old(self)@.registrations.update(i as int, r),
            ),
    {
        self.registrations[i] = r;
    }

    // --- users ---------------------------------------------------------------

    pub(crate) fn users_len(&self) -> (r: usize)
        ensures
            r == self@.users.len(),
    {
        self.users.len()
    }

    pub(crate) fn user_at(&self, i: usize) -> (r: &User)
        requires
            i < self@.users.len(),
        ensures
            r@ == self@.users[i as int],
    {
        &self.users[i]
    }

    pub(crate) fn push_user(&mut self, u: User)
        ensures
            final(self)@ == with_users(old(self)@, old(self)@.users.push(u@)),
    {
        self.users.push(u);
        proof {
            assert(final(self)@.users =~= old(self)@.users.push(u@));
            assert(final(self)@ == with_users(old(self)@, old(self)@.users.push(u@)));
        }
    }

    pub(crate) fn remove_user_at(&mut self, i: usize)
        requires
            i < old(self)@.users.len(),
        ensures
            final(self)@ == with_users(old(self)@, old(self)@.users.remove(i as int)),
    {
        self.users.remove(i);
        proof {
            assert(final(self)@.users =~= old(self)@.users.remove(i as int));
            assert(final(self)@ == with_users(
                old(self)@,
                old(self)@.users.remove(i as int),
            ));
        }
    }

    // --- student profiles ------------------------------------------------------

    pub(crate) fn profiles_len(&self) -> (r: usize)
        ensures
            r == self@.student_profiles.len(),
    {
        self.student_profiles.len()
    }

    pub(crate) fn profile_at(&self, i: usize) -> (r: StudentProfile)
        requires
            i < self@.student_profiles.len(),
        ensures
            r == self@.student_profiles[i as int],
    {
        self.student_profiles[i]
    }

    pub(crate) fn set_student_profiles(&mut self, v: Vec<StudentProfile>)
        ensures
            final(self)@ == with_student_profiles(old(self)@, v@),
    {
        self.student_profiles = v;
    }

    pub(crate) fn push_profile(&mut self, p: StudentProfile)
        ensures
            final(self)@ == with_student_profiles(
                old(self)@,
                old(self)@.student_profiles.push(p),
            ),
    {
        self.student_profiles.push(p);
    }

    pub(crate) fn remove_profile_at(&mut self, i: usize)
        requires
            i < old(self)@.student_profiles.len(),
        ensures
            final(self)@ == with_student_profiles(
                old(self)@,
                old(self)@.student_profiles.remove(i as int),
            ),
    {
        self.student_profiles.remove(i);
    }

    /// Counts the `Registered` rows of one offering by walking the
    /// registration table.
    pub(crate) fn count_registered(&self, offering: u128) -> (r: usize)
        ensures
            r == registered_count(self@.registrations, offering),
    {
        let n = self.registrations.len();
        let mut count: usize = 0;
        let mut i: usize = 0;
        while i < n
            invariant
                n == self@.registrations.len(),
                i <= n,
                count <= i,
                count == registered_count(self@.registrations.take(i as int), offering),
            decreases n - i,
        {
            let reg = self.registrations[i];
            proof {
                assert(self@.registrations.take(i as int + 1).drop_last()
                    =~= self@.registrations.take(i as int));
                assert(self@.registrations.take(i as int + 1).last()
                    == self@.registrations[i as int]);
            }
            if reg.offering_id == offering && matches!(
                reg.status,
                RegistrationStatus::Registered,
            ) {
                count = count + 1;
            }
            i = i + 1;
        }
        proof {
            assert(self@.registrations.take(n as int) =~= self@.registrations);
        }
        count
    }

    // --- index searches ---------------------------------------------------

    pub(crate) fn find_department_index(&self, id: u32) -> (r: Option<usize>)
        ensures
            match r {
                Some(i) => i < self@.departments.len() && self@.departments[i as int].id == id,
                None => !has_department(self@, id),
            },
    {
        let n = self.departments.len();
        let mut i: usize = 0;
        while i < n
            invariant
                n == self@.departments.len(),
                i <= n,
                forall|j: int| 0 <= j < i ==> self@.departments[j].id != id,
            decreases n - i,
        {
            if self.departments[i].id == id {
                return Some(i);
            }
            i = i + 1;
        }
        None
    }

    pub(crate) fn find_course_index(&self, id: u128) -> (r: Option<usize>)
        ensures
            match r {
                Some(i) => i < self@.courses.len() && self@.courses[i as int].id == id,
                None => !has_course(self@, id),
            },
    {
        let n = self.courses.len();
        let mut i: usize = 0;
        while i < n
            invariant
                n == self@.courses.len(),
                i <= n,
                forall|j: int| 0 <= j < i ==> self@.courses[j].id != id,
            decreases n - i,
        {
            if self.courses[i].id == id {
                return Some(i);
            }
            i = i + 1;
        }
        None
    }

    pub(crate) fn find_term_index(&self, id: u32) -> (r: Option<usize>)
        ensures
            match r {
                Some(i) => i < self@.terms.len() && self@.terms[i as int].id == id,
                None => !has_term(self@, id),
            },
    {
        let n = self.terms.len();
        let mut i: usize = 0;
        while i < n
            invariant
                n == self@.terms.len(),
                i <= n,
                forall|j: int| 0 <= j < i ==> self@.terms[j].id != id,
            decreases n - i,
        {
            if self.terms[i].id == id {
                return Some(i);
            }
            i = i + 1;
        }
        None
    }

    pub(crate) fn find_offering_index(&self, id: u128) -> (r: Option<usize>)
        ensures
            match r {
                Some(i) => i < self@.offerings.len() && self@.offerings[i as int].id == id,
                None => !has_offering(self@, id),
            },
    {
        let n = self.offerings.len();
        let mut i: usize = 0;
        while i < n
            invariant
                n == self@.offerings.len(),
                i <= n,
                forall|j: int| 0 <= j < i ==> self@.offerings[j].id != id,
            decreases n - i,
        {
            if self.offerings[i].id == id {
                return Some(i);
            }
            i = i + 1;
        }
        None
    }

    pub(crate) fn find_user_index(&self, id: u128) -> (r: Option<usize>)
        ensures
            match r {
                Some(i) => i < self@.users.len() && self@.users[i as int].id == id,
                None => !has_user(self@, id),
            },
    {
        let n = self.users.len();
        let mut i: usize = 0;
        while i < n
            invariant
                n == self@.users.len(),
                i <= n,
                forall|j: int| 0 <= j < i ==> self@.users[j].id != id,
            decreases n - i,
        {
            if self.users[i].id == id {
                return Some(i);
            }
            i = i + 1;
        }
        None
    }

    pub(crate) fn find_registration_index(&self, id: u128) -> (r: Option<usize>)
        ensures
            match r {
                Some(i) => i < self@.registrations.len() && self@.registrations[i as int].id == id,
                None => !has_registration(self@, id),
            },
    {
        let n = self.registrations.len();
        let mut i: usize = 0;
        while i < n
            invariant
                n == self@.registrations.len(),
                i <= n,
                forall|j: int| 0 <= j < i ==> self@.registrations[j].id != id,
            decreases n - i,
        {
            if self.registrations[i].id == id {
                return Some(i);
            }
            i = i + 1;
        }
        None
    }

    pub(crate) fn find_profile_index(&self, user_id: u128) -> (r: Option<usize>)
        ensures
            match r {
                Some(i) => i < self@.student_profiles.len()
                    && self@.student_profiles[i as int].user_id == user_id,
                None => !has_profile(self@, user_id),
            },
    {
        let n = self.student_profiles.len();
        let mut i: usize = 0;
        while i < n
            invariant
                n == self@.student_profiles.len(),
                i <= n,
                forall|j: int| 0 <= j < i ==> self@.student_profiles[j].user_id != user_id,
            decreases n - i,
        {
            if self.student_profiles[i].user_id == user_id {
                return Some(i);
            }
            i = i + 1;
        }
        None
    }
}

/// A lookup among records none of which carries the id finds nothing.
pub proof fn lemma_find_course_absent(courses: Seq<CourseView>, id: u128)
    requires
        forall|i: int| 0 <= i < courses.len() ==> courses[i].id != id,
    ensures
        find_course(courses, id) is None,
    decreases courses.len(),
{
    if courses.len() > 0 {
        lemma_find_course_absent(courses.drop_first(), id);
    }
}

pub proof fn lemma_find_offering_absent(offerings: Seq<CourseOfferingView>, id: u128)
    requires
        forall|i: int| 0 <= i < offerings.len() ==> offerings[i].id != id,
    ensures
        find_offering(offerings, id) is None,
    decreases offerings.len(),
{
    if offerings.len() > 0 {
        lemma_find_offering_absent(offerings.drop_first(), id);
    }
}

pub proof fn lemma_find_term_absent(terms: Seq<Term>, id: u32)
    requires
        forall|i: int| 0 <= i < terms.len() ==> terms[i].id != id,
    ensures
        find_term(terms, id) is None,
    decreases terms.len(),
{
    if terms.len() > 0 {
        lemma_find_term_absent(terms.drop_first(), id);
    }
}

} // verus!
