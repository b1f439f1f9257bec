use vstd::prelude::*;

use crate::errors::DomainError;
use crate::store::{
    has_department, has_department_code, inv, with_departments, Store, StoreView,
};
use crate::text::str_eq;

verus! {

/// A department record: a unique short code and a display name.
#[derive(Debug)]
pub struct Department {
    pub id: u32,
    pub code: String,
    pub name: String,
}

/// The mathematical image of a department: its strings as character
/// sequences.
pub ghost struct DepartmentView {
    pub id: u32,
    pub code: Seq<char>,
    pub name: Seq<char>,
}

impl Clone for Department {
    fn clone(&self) -> (r: Department)
        ensures
            r@ == self@,
    {
        Department { id: self.id, code: self.code.clone(), name: self.name.clone() }
    }
}

impl View for Department {
    type V = DepartmentView;

    open spec fn view(&self) -> DepartmentView {
        DepartmentView { id: self.id, code: self.code@, name: self.name@ }
    }
}

impl Department {
    /// Removes this department's row. Deletion does not look for
    /// dependent courses: a caller removes dependents first or accepts
    /// orphaned rows.
    pub fn delete(&self, store: &mut Store) -> (r: Result<(), DomainError>)
        requires
            inv(old(store)@),
        ensures
            inv(final(store)@),
            match r {
                Ok(()) => exists|i: int|
                    0 <= i < old(store)@.departments.len() && old(store)@.departments[i].id == self.id && final(store)@ == with_departments(
                        old(store)@,
                        old(store)@.departments.remove(i),
                    ),
                Err(e) => e == DomainError::NotFound && !has_department(old(store)@, self.id)
                    && final(store)@ == old(store)@,
            },
            r is Ok <==> has_department(old(store)@, self.id),
    {
        let n = store.departments_len();
        let mut i: usize = 0;
        while i < n
            invariant
                inv(store@),
                store@ == old(store)@,
                n == store@.departments.len(),
                i <= n,
                forall|j: int| 0 <= j < i ==> store@.departments[j].id != self.id,
            decreases n - i,
        {
            if store.department_at(i).id == self.id {
                store.remove_department_at(i);
                proof {
                    assert(old(store)@.departments[i as int].id == self.id);
                    assert(store@ == with_departments(
                        old(store)@,
                        old(store)@.departments.remove(i as int),
                    ));
                }
                return Ok(());
            }
            i = i + 1;
        }
        Err(DomainError::NotFound)
    }
}

/// Creates a department with the next serial identifier, rejecting a
/// code that an existing department already carries.
pub fn create_department(code: String, name: String, store: &mut Store) -> (r: Result<
    Department,
    DomainError,
>)
    requires
        inv(old(store)@),
        old(store)@.next_department_id < u32::MAX,
    ensures
        inv(final(store)@),
        match r {
            Ok(d) => !has_department_code(old(store)@, code@) && d@ == (DepartmentView {
                id: old(store)@.next_department_id,
                code: code@,
                name: name@,
            }) && final(store)@ == (StoreView {
                departments: old(store)@.departments.push(d@),
                next_department_id: (old(store)@.next_department_id + 1) as u32,
                ..old(store)@
            }),
            Err(e) => e == DomainError::Duplicate && has_department_code(old(store)@, code@)
                && final(store)@ == old(store)@,
        },
        r is Ok <==> !has_department_code(old(store)@, code@),
{
    let n = store.departments_len();
    let mut i: usize = 0;
    while i < n
        invariant
            inv(store@),
            store@ == old(store)@,
            n == store@.departments.len(),
            i <= n,
            forall|j: int| 0 <= j < i ==> store@.departments[j].code != code@,
        decreases n - i,
    {
        if str_eq(store.department_at(i).code.as_str(), code.as_str()) {
            return Err(DomainError::Duplicate);
        }
        i = i + 1;
    }
    let d = Department { id: store.next_department_id(), code, name };
    store.push_department(d.clone());
    store.bump_department_counter();
    Ok(d)
}

} // verus!
