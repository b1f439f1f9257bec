use vstd::prelude::*;

verus! {

/// One directed edge of the prerequisite graph: `course_id` requires
/// `prerequisite_id`.
#[derive(Clone, Copy, Debug, PartialEq, Eq, Structural)]
pub struct CoursePrerequisite {
    pub course_id: u128,
    pub prerequisite_id: u128,
}

impl CoursePrerequisite {
    pub fn new(course_id: u128, prerequisite_id: u128) -> (r: CoursePrerequisite)
        ensures
            r == (CoursePrerequisite { course_id, prerequisite_id }),
    {
        CoursePrerequisite { course_id, prerequisite_id }
    }
}

} // verus!
