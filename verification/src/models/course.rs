use vstd::prelude::*;

use crate::errors::DomainError;
use crate::models::course_prerequisite::CoursePrerequisite;
use crate::models::registration::{Registration, RegistrationStatus};
use crate::models::course_offering::CourseOfferingView;
use crate::text::{decimal_chars, push_decimal};
use vstd::string::StringExecFns;
use crate::store::{
    find_course, find_offering, has_course, has_department, has_edge, inv,
    lemma_find_course_absent, lemma_find_course_unique, lemma_find_offering_absent,
    lemma_find_offering_unique, with_courses, with_prerequisites, Store,
};

verus! {

/// A catalog course: a number, a title, an optional description and a
/// credit count, owned by exactly one department.
#[derive(Debug)]
pub struct Course {
    pub id: u128,
    pub department_id: u32,
    pub course_number: String,
    pub title: String,
    pub description: Option<String>,
    pub credits: i32,
}

/// The mathematical image of a course: its strings as character
/// sequences.
pub ghost struct CourseView {
    pub id: u128,
    pub department_id: u32,
    pub course_number: Seq<char>,
    pub title: Seq<char>,
    pub description: Option<Seq<char>>,
    pub credits: i32,
}

impl View for Course {
    type V = CourseView;

    open spec fn view(&self) -> CourseView {
        CourseView {
            id: self.id,
            department_id: self.department_id,
            course_number: self.course_number@,
            title: self.title@,
            description: match self.description {
                Some(ref d) => Some(d@),
                None => None,
            },
            credits: self.credits,
        }
    }
}

impl Clone for Course {
    fn clone(&self) -> (r: Course)
        ensures
            r@ == self@,
    {
        Course {
            id: self.id,
            department_id: self.department_id,
            course_number: self.course_number.clone(),
            title: self.title.clone(),
            description: match &self.description {
                Some(d) => Some(d.clone()),
                None => None,
            },
            credits: self.credits,
        }
    }
}

/// Builds a course value without touching any store; the caller inserts
/// it separately.
pub fn create_course(
    id: u128,
    department_id: u32,
    course_number: String,
    title: String,
    description: Option<String>,
    credits: i32,
) -> (r: Course)
    ensures
        r@ == (CourseView {
            id,
            department_id,
            course_number: course_number@,
            title: title@,
            description: match description {
                Some(d) => Some(d@),
                None => None::<Seq<char>>,
            },
            credits,
        }),
{
    Course { id, department_id, course_number, title, description, credits }
}

/// The display form of a course record, with identifiers rendered in
/// decimal.
pub open spec fn course_description_chars(c: CourseView) -> Seq<char> {
    c.course_number + "\nID: "@ + decimal_chars(c.id as nat) + "\nDepartment: "@ + decimal_chars(
        c.department_id as nat,
    ) + "\nTitle: "@ + c.title + "\nDescription: "@ + (match c.description {
        Some(d) => d,
        None => "None"@,
    }) + "\nCredits: "@ + decimal_chars(c.credits as nat) + "\n"@
}

impl Course {
    /// The display form of this course, line by line.
    pub fn describe(&self) -> (r: String)
        requires
            self.credits >= 0,
        ensures
            r@ == course_description_chars(self@),
    {
        let mut s = self.course_number.clone();
        s.append("\nID: ");
        push_decimal(self.id, &mut s);
        s.append("\nDepartment: ");
        push_decimal(self.department_id as u128, &mut s);
        s.append("\nTitle: ");
        s.append(self.title.as_str());
        s.append("\nDescription: ");
        match &self.description {
            Some(d) => s.append(d.as_str()),
            None => s.append("None"),
        }
        s.append("\nCredits: ");
        push_decimal(self.credits as u128, &mut s);
        s.append("\n");
        proof {
            assert(s@ =~= course_description_chars(self@));
        }
        s
    }

    /// Inserts this course. A negative credit count is malformed, the
    /// owning department must exist, and the id must be fresh.
    pub fn insert(&self, store: &mut Store) -> (r: Result<(), DomainError>)
        requires
            inv(old(store)@),
        ensures
            inv(final(store)@),
            ({
                let s = old(store)@;
                if self.credits < 0 {
                    r == Err::<(), DomainError>(DomainError::Validation) && final(store)@ == s
                } else if !has_department(s, self.department_id) {
                    r == Err::<(), DomainError>(DomainError::NotFound) && final(store)@ == s
                } else if has_course(s, self.id) {
                    r == Err::<(), DomainError>(DomainError::Duplicate) && final(store)@ == s
                } else {
                    r == Ok::<(), DomainError>(()) && final(store)@ == with_courses(
                        s,
                        s.courses.push(self@),
                    )
                }
            }),
    {
        if self.credits < 0 {
            return Err(DomainError::Validation);
        }
        if store.find_department_index(self.department_id).is_none() {
            return Err(DomainError::NotFound);
        }
        if store.find_course_index(self.id).is_some() {
            return Err(DomainError::Duplicate);
        }
        store.push_course(self.clone());
        Ok(())
    }

    /// Deletes this course and cascades over the prerequisite table:
    /// every edge naming the course, on either side, goes with it.
    /// Offerings are left alone; a caller removes or accepts orphans.
    pub fn delete(&self, store: &mut Store) -> (r: Result<(), DomainError>)
        requires
            inv(old(store)@),
        ensures
            inv(final(store)@),
            match r {
                Ok(()) => exists|i: int|
                    0 <= i < old(store)@.courses.len() && old(store)@.courses[i].id == self.id
                        && final(store)@ == with_prerequisites(
                        with_courses(old(store)@, old(store)@.courses.remove(i)),
                        edges_without_course(old(store)@.prerequisites, self.id),
                    ),
                Err(e) => e == DomainError::NotFound && !has_course(old(store)@, self.id)
                    && final(store)@ == old(store)@,
            },
            r is Ok <==> has_course(old(store)@, self.id),
    {
        let found = store.find_course_index(self.id);
        match found {
            None => Err(DomainError::NotFound),
            Some(i) => {
                let ghost pre = store@;
                store.remove_course_at(i);
                let n = store.prerequisites_len();
                let mut kept: Vec<CoursePrerequisite> = Vec::new();
                let mut j: usize = 0;
                while j < n
                    invariant
                        store@ == with_courses(pre, pre.courses.remove(i as int)),
                        n == store@.prerequisites.len(),
                        j <= n,
                        kept@ == edges_without_course(
                            store@.prerequisites.take(j as int),
                            self.id,
                        ),
                    decreases n - j,
                {
                    let e = store.prerequisite_at(j);
                    proof {
                        assert(store@.prerequisites.take(j as int + 1).drop_last()
                            =~= store@.prerequisites.take(j as int));
                        assert(store@.prerequisites.take(j as int + 1).last()
                            == store@.prerequisites[j as int]);
                    }
                    if e.course_id != self.id && e.prerequisite_id != self.id {
                        kept.push(e);
                    }
                    j = j + 1;
                }
                proof {
                    assert(store@.prerequisites.take(n as int) =~= store@.prerequisites);
                }
                store.set_prerequisites(kept);
                proof {
                    lemma_edges_without_course_ok(pre.prerequisites, self.id);
                    assert(pre.courses[i as int].id == self.id);
                }
                Ok(())
            },
        }
    }

    /// Adds a directed edge to the prerequisite graph. A self-loop is
    /// rejected; inserting an edge that is already present is a no-op,
    /// not an error. Only direct edges are constrained: detection of
    /// longer cycles through the graph is left as an extension point.
    pub fn add_prerequisite(&self, store: &mut Store, prerequisite: &CoursePrerequisite) -> (r:
        Result<(), DomainError>)
        requires
            inv(old(store)@),
        ensures
            inv(final(store)@),
            prerequisite.course_id == prerequisite.prerequisite_id ==> r == Err::<
                (),
                DomainError,
            >(DomainError::Validation) && final(store)@ == old(store)@,
            prerequisite.course_id != prerequisite.prerequisite_id ==> r == Ok::<
                (),
                DomainError,
            >(()) && final(store)@ == with_prerequisites(
                old(store)@,
                spec_add_edge(
                    old(store)@.prerequisites,
                    prerequisite.course_id,
                    prerequisite.prerequisite_id,
                ),
            ),
    {
        if prerequisite.course_id == prerequisite.prerequisite_id {
            return Err(DomainError::Validation);
        }
        let n = store.prerequisites_len();
        let mut i: usize = 0;
        while i < n
            invariant
                inv(store@),
                store@ == old(store)@,
                prerequisite.course_id != prerequisite.prerequisite_id,
                n == store@.prerequisites.len(),
                i <= n,
                forall|j: int|
                    0 <= j < i ==> !(store@.prerequisites[j].course_id == prerequisite.course_id
                        && store@.prerequisites[j].prerequisite_id
                        == prerequisite.prerequisite_id),
            decreases n - i,
        {
            let e = store.prerequisite_at(i);
            if e.course_id == prerequisite.course_id && e.prerequisite_id
                == prerequisite.prerequisite_id {
                proof {
                    assert(has_edge(
                        store@.prerequisites,
                        prerequisite.course_id,
                        prerequisite.prerequisite_id,
                    ));
                }
                return Ok(());
            }
            i = i + 1;
        }
        store.push_prerequisite(CoursePrerequisite {
            course_id: prerequisite.course_id,
            prerequisite_id: prerequisite.prerequisite_id,
        });
        Ok(())
    }

    /// Removes a directed edge from the prerequisite graph. Removing
    /// an edge that is not there is a no-op, not an error.
    pub fn remove_prerequisite(&self, store: &mut Store, prerequisite: &CoursePrerequisite) -> (r:
        Result<(), DomainError>)
        requires
            inv(old(store)@),
        ensures
            inv(final(store)@),
            r == Ok::<(), DomainError>(()),
            final(store)@ == with_prerequisites(
                old(store)@,
                spec_remove_edge(
                    old(store)@.prerequisites,
                    prerequisite.course_id,
                    prerequisite.prerequisite_id,
                ),
            ),
    {
        let n = store.prerequisites_len();
        let mut i: usize = 0;
        while i < n
            invariant
                inv(store@),
                store@ == old(store)@,
                n == store@.prerequisites.len(),
                i <= n,
                forall|j: int|
                    0 <= j < i ==> !(store@.prerequisites[j].course_id == prerequisite.course_id
                        && store@.prerequisites[j].prerequisite_id
                        == prerequisite.prerequisite_id),
            decreases n - i,
        {
            let e = store.prerequisite_at(i);
            if e.course_id == prerequisite.course_id && e.prerequisite_id
                == prerequisite.prerequisite_id {
                proof {
                    lemma_remove_edge_at_unique_index(store@.prerequisites, i as int);
                }
                store.remove_prerequisite_at(i);
                return Ok(());
            }
            i = i + 1;
        }
        proof {
            lemma_remove_edge_absent_noop(
                store@.prerequisites,
                prerequisite.course_id,
                prerequisite.prerequisite_id,
            );
        }
        Ok(())
    }

    /// The direct prerequisites of this course, joined to their course
    /// records, in the order the edges were added. Not transitive.
    pub fn prerequisites(&self, store: &Store) -> (r: Vec<Course>)
        requires
            inv(store@),
        ensures
            r@.map_values(|c: Course| c@) == join_prereqs(
                store@.prerequisites,
                store@.courses,
                self.id,
            ),
    {
        let n = store.prerequisites_len();
        let mut result: Vec<Course> = Vec::new();
        let mut i: usize = 0;
        while i < n
            invariant
                inv(store@),
                n == store@.prerequisites.len(),
                i <= n,
                result@.map_values(|c: Course| c@) == join_prereqs(
                    store@.prerequisites.take(i as int),
                    store@.courses,
                    self.id,
                ),
            decreases n - i,
        {
            let e = store.prerequisite_at(i);
            proof {
                assert(store@.prerequisites.take(i as int + 1).drop_last()
                    =~= store@.prerequisites.take(i as int));
                assert(store@.prerequisites.take(i as int + 1).last()
                    == store@.prerequisites[i as int]);
            }
            if e.course_id == self.id {
                match store.find_course_index(e.prerequisite_id) {
                    Some(j) => {
                        let c = store.course_at(j).clone();
                        proof {
                            lemma_find_course_unique(store@.courses, e.prerequisite_id, j as int);
                        }
                        result.push(c);
                        proof {
                            assert(result@.map_values(|c: Course| c@) =~= join_prereqs(
                                store@.prerequisites.take(i as int + 1),
                                store@.courses,
                                self.id,
                            ));
                        }
                    },
                    None => {
                        proof {
                            lemma_find_course_absent(store@.courses, e.prerequisite_id);
                        }
                    },
                }
            }
            i = i + 1;
        }
        proof {
            assert(store@.prerequisites.take(n as int) =~= store@.prerequisites);
        }
        result
    }

    /// The number of students holding a `Registered` row in any
    /// offering of this course.
    pub fn current_enrollment(&self, store: &Store) -> (r: usize)
        requires
            inv(store@),
        ensures
            r == course_registered_count(store@.registrations, store@.offerings, self.id),
    {
        let n = store.registrations_len();
        let mut count: usize = 0;
        let mut i: usize = 0;
        while i < n
            invariant
                inv(store@),
                n == store@.registrations.len(),
                i <= n,
                count <= i,
                count == course_registered_count(
                    store@.registrations.take(i as int),
                    store@.offerings,
                    self.id,
                ),
            decreases n - i,
        {
            let reg = store.registration_at(i);
            proof {
                assert(store@.registrations.take(i as int + 1).drop_last()
                    =~= store@.registrations.take(i as int));
                assert(store@.registrations.take(i as int + 1).last()
                    == store@.registrations[i as int]);
            }
            if matches!(reg.status, RegistrationStatus::Registered) {
                match store.find_offering_index(reg.offering_id) {
                    Some(j) => {
                        proof {
                            lemma_find_offering_unique(store@.offerings, reg.offering_id, j as int);
                        }
                        if store.offering_at(j).course_id == self.id {
                            count = count + 1;
                        }
                    },
                    None => {
                        proof {
                            lemma_find_offering_absent(store@.offerings, reg.offering_id);
                        }
                    },
                }
            }
            i = i + 1;
        }
        proof {
            assert(store@.registrations.take(n as int) =~= store@.registrations);
        }
        count
    }
}

/// Whether the table holds this exact edge row.
pub open spec fn contains_edge(edges: Seq<CoursePrerequisite>, e: CoursePrerequisite) -> bool {
    exists|a: int| 0 <= a < edges.len() && edges[a] == e
}

/// Filtering a course out of the edge table invents no row: whatever
/// remains stood in the table before.
pub proof fn lemma_edges_without_members(edges: Seq<CoursePrerequisite>, course: u128)
    ensures
        forall|k: int|
            0 <= k < edges_without_course(edges, course).len() ==> #[trigger] contains_edge(
                edges,
                edges_without_course(edges, course)[k],
            ),
    decreases edges.len(),
{
    if edges.len() > 0 {
        lemma_edges_without_members(edges.drop_last(), course);
        let rest = edges_without_course(edges.drop_last(), course);
        let whole = edges_without_course(edges, course);
        assert forall|k: int| 0 <= k < whole.len() implies #[trigger] contains_edge(
            edges,
            whole[k],
        ) by {
            if k < rest.len() {
                assert(contains_edge(edges.drop_last(), rest[k]));
                let a = choose|a: int|
                    0 <= a < edges.drop_last().len() && edges.drop_last()[a] == rest[k];
                assert(edges[a] == whole[k]);
            } else {
                assert(edges[edges.len() - 1] == whole[k]);
            }
        }
    }
}

/// Filtering a course out of a well-formed edge table leaves a
/// well-formed one: no self-loops appear and no pair is duplicated.
pub proof fn lemma_edges_without_course_ok(edges: Seq<CoursePrerequisite>, course: u128)
    requires
        forall|i: int|
            0 <= i < edges.len() ==> (#[trigger] edges[i]).course_id != edges[i].prerequisite_id,
        forall|i: int, j: int| 0 <= i < j < edges.len() ==> edges[i] != edges[j],
    ensures
        forall|i: int|
            0 <= i < edges_without_course(edges, course).len() ==> (#[trigger] edges_without_course(
                edges,
                course,
            )[i]).course_id != edges_without_course(edges, course)[i].prerequisite_id,
        forall|i: int, j: int|
            0 <= i < j < edges_without_course(edges, course).len() ==> edges_without_course(
                edges,
                course,
            )[i] != edges_without_course(edges, course)[j],
    decreases edges.len(),
{
    if edges.len() > 0 {
        lemma_edges_without_course_ok(edges.drop_last(), course);
        lemma_edges_without_members(edges.drop_last(), course);
        let rest = edges_without_course(edges.drop_last(), course);
        let whole = edges_without_course(edges, course);
        if !(edges.last().course_id == course || edges.last().prerequisite_id == course) {
            assert(forall|a: int|
                0 <= a < edges.drop_last().len() ==> #[trigger] edges.drop_last()[a]
                    != edges.last());
            assert forall|a: int| 0 <= a < rest.len() implies #[trigger] rest[a]
                != edges.last() by {
                assert(contains_edge(edges.drop_last(), rest[a]));
                let b = choose|b: int|
                    0 <= b < edges.drop_last().len() && edges.drop_last()[b] == rest[a];
            }
            assert(whole == rest.push(edges.last()));
        }
    }
}

// --- the prerequisite relation, as functions of the edge table ----------

/// The edge table after an insertion: unchanged when the edge is
/// already present, so that repeated insertion is a no-op.
pub open spec fn spec_add_edge(
    edges: Seq<CoursePrerequisite>,
    course: u128,
    prerequisite: u128,
) -> Seq<CoursePrerequisite> {
    if has_edge(edges, course, prerequisite) {
        edges
    } else {
        edges.push(CoursePrerequisite { course_id: course, prerequisite_id: prerequisite })
    }
}

/// The edge table after a removal: every copy of the edge is gone and
/// the order of the rest is kept.
pub open spec fn spec_remove_edge(
    edges: Seq<CoursePrerequisite>,
    course: u128,
    prerequisite: u128,
) -> Seq<CoursePrerequisite>
    decreases edges.len(),
{
    if edges.len() == 0 {
        Seq::empty()
    } else {
        let rest = spec_remove_edge(edges.drop_last(), course, prerequisite);
        if edges.last().course_id == course && edges.last().prerequisite_id == prerequisite {
            rest
        } else {
            rest.push(edges.last())
        }
    }
}

/// The edge table after a course disappears: every edge that names the
/// course on either side is gone.
pub open spec fn edges_without_course(
    edges: Seq<CoursePrerequisite>,
    course: u128,
) -> Seq<CoursePrerequisite>
    decreases edges.len(),
{
    if edges.len() == 0 {
        Seq::empty()
    } else {
        let rest = edges_without_course(edges.drop_last(), course);
        if edges.last().course_id == course || edges.last().prerequisite_id == course {
            rest
        } else {
            rest.push(edges.last())
        }
    }
}

/// How many copies of one directed edge the table holds.
pub open spec fn edge_count(edges: Seq<CoursePrerequisite>, course: u128, prerequisite: u128) -> int
    decreases edges.len(),
{
    if edges.len() == 0 {
        0
    } else {
        edge_count(edges.drop_last(), course, prerequisite) + if edges.last().course_id == course
            && edges.last().prerequisite_id == prerequisite {
            1int
        } else {
            0int
        }
    }
}

/// The direct prerequisites of a course, joined to their course
/// records in edge order; an edge whose prerequisite has no course row
/// contributes nothing.
pub open spec fn join_prereqs(
    edges: Seq<CoursePrerequisite>,
    courses: Seq<CourseView>,
    course: u128,
) -> Seq<CourseView>
    decreases edges.len(),
{
    if edges.len() == 0 {
        Seq::empty()
    } else {
        let rest = join_prereqs(edges.drop_last(), courses, course);
        if edges.last().course_id == course {
            match find_course(courses, edges.last().prerequisite_id) {
                Some(c) => rest.push(c),
                None => rest,
            }
        } else {
            rest
        }
    }
}

/// How many `Registered` rows exist across all offerings of one
/// course.
pub open spec fn course_registered_count(
    regs: Seq<Registration>,
    offerings: Seq<CourseOfferingView>,
    course: u128,
) -> int
    decreases regs.len(),
{
    if regs.len() == 0 {
        0
    } else {
        course_registered_count(regs.drop_last(), offerings, course) + if regs.last().status
            == RegistrationStatus::Registered && (match find_offering(
            offerings,
            regs.last().offering_id,
        ) {
            Some(o) => o.course_id == course,
            None => false,
        }) {
            1int
        } else {
            0int
        }
    }
}

// --- laws of the edge table ----------------------------------------------

/// A table without the edge counts no copy of it.
pub proof fn lemma_edge_count_zero_iff_absent(
    edges: Seq<CoursePrerequisite>,
    course: u128,
    prerequisite: u128,
)
    ensures
        (edge_count(edges, course, prerequisite) == 0) <==> !has_edge(
            edges,
            course,
            prerequisite,
        ),
        edge_count(edges, course, prerequisite) >= 0,
    decreases edges.len(),
{
    if edges.len() > 0 {
        lemma_edge_count_zero_iff_absent(edges.drop_last(), course, prerequisite);
        assert(has_edge(edges.drop_last(), course, prerequisite) ==> has_edge(
            edges,
            course,
            prerequisite,
        )) by {
            if has_edge(edges.drop_last(), course, prerequisite) {
                let i = choose|i: int|
                    0 <= i < edges.drop_last().len() && edges.drop_last()[i].course_id == course
                        && edges.drop_last()[i].prerequisite_id == prerequisite;
                assert(edges[i].course_id == course && edges[i].prerequisite_id == prerequisite);
            }
        }
        if has_edge(edges, course, prerequisite) {
            let i = choose|i: int|
                0 <= i < edges.len() && edges[i].course_id == course && edges[i].prerequisite_id
                    == prerequisite;
            if i < edges.len() - 1 {
                assert(edges.drop_last()[i] == edges[i]);
                assert(has_edge(edges.drop_last(), course, prerequisite));
            }
        }
    }
}

/// A table without duplicate pairs holds at most one copy of any edge.
pub proof fn lemma_edge_count_at_most_one(
    edges: Seq<CoursePrerequisite>,
    course: u128,
    prerequisite: u128,
)
    requires
        forall|i: int, j: int|
            0 <= i < j < edges.len() ==> !(edges[i].course_id == edges[j].course_id
                && edges[i].prerequisite_id == edges[j].prerequisite_id),
    ensures
        edge_count(edges, course, prerequisite) <= 1,
    decreases edges.len(),
{
    if edges.len() > 0 {
        lemma_edge_count_at_most_one(edges.drop_last(), course, prerequisite);
        if edges.last().course_id == course && edges.last().prerequisite_id == prerequisite {
            assert(!has_edge(edges.drop_last(), course, prerequisite)) by {
                if has_edge(edges.drop_last(), course, prerequisite) {
                    let i = choose|i: int|
                        0 <= i < edges.drop_last().len() && edges.drop_last()[i].course_id == course
                            && edges.drop_last()[i].prerequisite_id == prerequisite;
                    assert(edges[i].course_id == edges[edges.len() - 1].course_id
                        && edges[i].prerequisite_id == edges[edges.len() - 1].prerequisite_id);
                }
            }
            lemma_edge_count_zero_iff_absent(edges.drop_last(), course, prerequisite);
        }
    }
}

/// Inserting an edge twice leaves exactly what inserting it once
/// leaves.
pub proof fn lemma_add_edge_idempotent(
    edges: Seq<CoursePrerequisite>,
    course: u128,
    prerequisite: u128,
)
    ensures
        spec_add_edge(spec_add_edge(edges, course, prerequisite), course, prerequisite)
            == spec_add_edge(edges, course, prerequisite),
{
    let once = spec_add_edge(edges, course, prerequisite);
    if !has_edge(edges, course, prerequisite) {
        assert(once[edges.len() as int].course_id == course && once[
            edges.len() as int
        ].prerequisite_id == prerequisite);
    }
    assert(has_edge(once, course, prerequisite)) by {
        if has_edge(edges, course, prerequisite) {
        } else {
            assert(0 <= edges.len() < once.len());
        }
    }
}

/// After an insertion into a duplicate-free table, the table holds the
/// edge exactly once.
pub proof fn lemma_add_edge_single_copy(
    edges: Seq<CoursePrerequisite>,
    course: u128,
    prerequisite: u128,
)
    requires
        forall|i: int, j: int|
            0 <= i < j < edges.len() ==> !(edges[i].course_id == edges[j].course_id
                && edges[i].prerequisite_id == edges[j].prerequisite_id),
    ensures
        edge_count(spec_add_edge(edges, course, prerequisite), course, prerequisite) == 1,
{
    let once = spec_add_edge(edges, course, prerequisite);
    if has_edge(edges, course, prerequisite) {
        lemma_edge_count_at_most_one(edges, course, prerequisite);
        lemma_edge_count_zero_iff_absent(edges, course, prerequisite);
    } else {
        lemma_edge_count_zero_iff_absent(edges, course, prerequisite);
        assert(once.drop_last() =~= edges);
    }
}

/// After a removal the edge is gone, wherever it stood.
pub proof fn lemma_removed_edge_gone(
    edges: Seq<CoursePrerequisite>,
    course: u128,
    prerequisite: u128,
)
    ensures
        !has_edge(spec_remove_edge(edges, course, prerequisite), course, prerequisite),
    decreases edges.len(),
{
    if edges.len() > 0 {
        lemma_removed_edge_gone(edges.drop_last(), course, prerequisite);
        let rest = spec_remove_edge(edges.drop_last(), course, prerequisite);
        let whole = spec_remove_edge(edges, course, prerequisite);
        if !(edges.last().course_id == course && edges.last().prerequisite_id == prerequisite) {
            assert(!has_edge(whole, course, prerequisite)) by {
                if has_edge(whole, course, prerequisite) {
                    let i = choose|i: int|
                        0 <= i < whole.len() && whole[i].course_id == course
                            && whole[i].prerequisite_id == prerequisite;
                    if i < whole.len() - 1 {
                        assert(whole[i] == rest[i]);
                        assert(has_edge(rest, course, prerequisite));
                    }
                }
            }
        }
    }
}

/// Removing an edge that is not there changes nothing.
pub proof fn lemma_remove_edge_absent_noop(
    edges: Seq<CoursePrerequisite>,
    course: u128,
    prerequisite: u128,
)
    requires
        !has_edge(edges, course, prerequisite),
    ensures
        spec_remove_edge(edges, course, prerequisite) == edges,
    decreases edges.len(),
{
    if edges.len() > 0 {
        assert(!has_edge(edges.drop_last(), course, prerequisite)) by {
            if has_edge(edges.drop_last(), course, prerequisite) {
                let i = choose|i: int|
                    0 <= i < edges.drop_last().len() && edges.drop_last()[i].course_id == course
                        && edges.drop_last()[i].prerequisite_id == prerequisite;
                assert(edges[i].course_id == course && edges[i].prerequisite_id == prerequisite);
            }
        }
        lemma_remove_edge_absent_noop(edges.drop_last(), course, prerequisite);
        assert(!(edges.last().course_id == course && edges.last().prerequisite_id == prerequisite))
            by {
            if edges.last().course_id == course && edges.last().prerequisite_id == prerequisite {
                assert(edges[edges.len() - 1].course_id == course);
            }
        }
        assert(spec_remove_edge(edges, course, prerequisite) =~= edges);
    }
}

/// In a duplicate-free table, removing the edge found at one index is
/// the same as filtering the whole table for it.
pub proof fn lemma_remove_edge_at_unique_index(edges: Seq<CoursePrerequisite>, i: int)
    requires
        forall|a: int, b: int|
            0 <= a < b < edges.len() ==> !(edges[a].course_id == edges[b].course_id
                && edges[a].prerequisite_id == edges[b].prerequisite_id),
        0 <= i < edges.len(),
    ensures
        spec_remove_edge(edges, edges[i].course_id, edges[i].prerequisite_id) == edges.remove(i),
    decreases edges.len(),
{
    let course = edges[i].course_id;
    let prerequisite = edges[i].prerequisite_id;
    if i == edges.len() - 1 {
        assert(!has_edge(edges.drop_last(), course, prerequisite)) by {
            if has_edge(edges.drop_last(), course, prerequisite) {
                let a = choose|a: int|
                    0 <= a < edges.drop_last().len() && edges.drop_last()[a].course_id == course
                        && edges.drop_last()[a].prerequisite_id == prerequisite;
                assert(edges[a].course_id == edges[i].course_id && edges[a].prerequisite_id
                    == edges[i].prerequisite_id);
            }
        }
        lemma_remove_edge_absent_noop(edges.drop_last(), course, prerequisite);
        assert(edges.remove(i) =~= edges.drop_last());
    } else {
        assert(edges.drop_last()[i] == edges[i]);
        lemma_remove_edge_at_unique_index(edges.drop_last(), i);
        assert(!(edges.last().course_id == course && edges.last().prerequisite_id == prerequisite))
            by {
            if edges.last().course_id == course && edges.last().prerequisite_id == prerequisite {
                assert(edges[i].course_id == edges[edges.len() - 1].course_id
                    && edges[i].prerequisite_id == edges[edges.len() - 1].prerequisite_id);
            }
        }
        assert(spec_remove_edge(edges, course, prerequisite) =~= edges.remove(i)) by {
            assert(spec_remove_edge(edges.drop_last(), course, prerequisite) == edges.drop_last()
                .remove(i));
            assert(edges.remove(i).drop_last() =~= edges.drop_last().remove(i));
            assert(edges.remove(i).last() == edges.last());
        }
    }
}

/// Everything the prerequisite join returns is backed by an edge of
/// the table: the join invents no prerequisite.
pub proof fn lemma_join_members(
    edges: Seq<CoursePrerequisite>,
    courses: Seq<CourseView>,
    course: u128,
)
    ensures
        forall|k: int|
            0 <= k < join_prereqs(edges, courses, course).len() ==> has_edge(
                edges,
                course,
                #[trigger] join_prereqs(edges, courses, course)[k].id,
            ),
    decreases edges.len(),
{
    if edges.len() > 0 {
        lemma_join_members(edges.drop_last(), courses, course);
        let rest = join_prereqs(edges.drop_last(), courses, course);
        let whole = join_prereqs(edges, courses, course);
        assert forall|k: int| 0 <= k < whole.len() implies has_edge(
            edges,
            course,
            whole[k].id,
        ) by {
            if k < rest.len() {
                assert(whole[k] == rest[k]);
                assert(has_edge(edges.drop_last(), course, rest[k].id));
                let a = choose|a: int|
                    0 <= a < edges.drop_last().len() && edges.drop_last()[a].course_id == course
                        && edges.drop_last()[a].prerequisite_id == rest[k].id;
                assert(edges[a].course_id == course && edges[a].prerequisite_id == rest[k].id);
            } else {
                assert(edges.last().course_id == course);
                lemma_find_course_id_local(courses, edges.last().prerequisite_id);
                assert(edges[edges.len() - 1].course_id == course && edges[
                    edges.len() - 1
                ].prerequisite_id == whole[k].id);
            }
        }
    }
}

proof fn lemma_find_course_id_local(courses: Seq<CourseView>, id: u128)
    ensures
        find_course(courses, id) matches Some(c) ==> c.id == id,
    decreases courses.len(),
{
    if courses.len() > 0 && courses[0].id != id {
        lemma_find_course_id_local(courses.drop_first(), id);
    }
}

/// Removing an edge and then asking for the course's prerequisites
/// never returns the removed prerequisite.
pub proof fn lemma_removed_edge_not_among_prereqs(
    edges: Seq<CoursePrerequisite>,
    courses: Seq<CourseView>,
    course: u128,
    prerequisite: u128,
)
    ensures
        forall|k: int|
            0 <= k < join_prereqs(
                spec_remove_edge(edges, course, prerequisite),
                courses,
                course,
            ).len() ==> #[trigger] join_prereqs(
                spec_remove_edge(edges, course, prerequisite),
                courses,
                course,
            )[k].id != prerequisite,
{
    let remaining = spec_remove_edge(edges, course, prerequisite);
    lemma_removed_edge_gone(edges, course, prerequisite);
    lemma_join_members(remaining, courses, course);
}

} // verus!
