use vstd::prelude::*;

use crate::models::department::Department;
use crate::store::{has_department_code, inv, Store};
use crate::text::str_eq;

verus! {

/// Looks a department up by its unique code.
pub fn get_department_by_code(code: &str, store: &Store) -> (r: Option<Department>)
    requires
        inv(store@),
    ensures
        match r {
            Some(d) => d@.code == code@ && exists|i: int|
                0 <= i < store@.departments.len() && store@.departments[i] == d@,
            None => !has_department_code(store@, code@),
        },
        r is Some <==> has_department_code(store@, code@),
{
    let n = store.departments_len();
    let mut i: usize = 0;
    while i < n
        invariant
            n == store@.departments.len(),
            i <= n,
            forall|j: int| 0 <= j < i ==> store@.departments[j].code != code@,
        decreases n - i,
    {
        if str_eq(store.department_at(i).code.as_str(), code) {
            return Some(store.department_at(i).clone());
        }
        i = i + 1;
    }
    None
}

} // verus!
