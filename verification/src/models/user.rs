use vstd::prelude::*;

use crate::clock::now_timestamp;
use crate::errors::DomainError;
use crate::ids::fresh_uuid;
use crate::models::course::{Course, CourseView};
use crate::models::registration::{Registration, RegistrationStatus};
use crate::models::student_profile::{valid_student_number, StudentProfile};
use crate::store::{
    find_course, find_offering, has_user, has_user_email, inv, lemma_find_course_absent,
    lemma_find_course_unique, lemma_find_offering_absent, lemma_find_offering_unique,
    lemma_registered_count_zero, offering_exists, registered_count, user_exists, with_users,
    Store, StoreView,
};
use crate::text::str_eq;

verus! {

/// What a user may do: take courses, or administer the catalog.
#[derive(Clone, Copy, Debug, PartialEq, Eq, Structural)]
pub enum Role {
    Student,
    Admin,
}

/// A first and last name pair handed to user creation.
#[derive(Clone, Debug)]
pub struct FullName {
    pub first: String,
    pub last: String,
}

/// An account: a unique email, a password hash, a name and a role.
#[derive(Debug)]
pub struct User {
    pub id: u128,
    pub email: String,
    pub hashed_password: String,
    pub first_name: String,
    pub last_name: String,
    pub role: Role,
    pub created_at: i64,
}

/// The mathematical image of a user: its strings as character
/// sequences.
pub ghost struct UserView {
    pub id: u128,
    pub email: Seq<char>,
    pub hashed_password: Seq<char>,
    pub first_name: Seq<char>,
    pub last_name: Seq<char>,
    pub role: Role,
    pub created_at: i64,
}

impl Clone for User {
    fn clone(&self) -> (r: User)
        ensures
            r@ == self@,
    {
        User {
            id: self.id,
            email: self.email.clone(),
            hashed_password: self.hashed_password.clone(),
            first_name: self.first_name.clone(),
            last_name: self.last_name.clone(),
            role: self.role,
            created_at: self.created_at,
        }
    }
}

impl View for User {
    type V = UserView;

    open spec fn view(&self) -> UserView {
        UserView {
            id: self.id,
            email: self.email@,
            hashed_password: self.hashed_password@,
            first_name: self.first_name@,
            last_name: self.last_name@,
            role: self.role,
            created_at: self.created_at,
        }
    }
}

impl FullName {
    pub fn new(first: &str, last: &str) -> (r: FullName)
        ensures
            r.first@ == first@,
            r.last@ == last@,
    {
        FullName { first: first.to_owned(), last: last.to_owned() }
    }
}

pub open spec fn role_token(r: Role) -> Seq<char> {
    match r {
        Role::Student => "student"@,
        Role::Admin => "admin"@,
    }
}

pub open spec fn spec_parse_role(s: Seq<char>) -> Result<Role, DomainError> {
    if s == "student"@ {
        Ok(Role::Student)
    } else if s == "admin"@ {
        Ok(Role::Admin)
    } else {
        Err(DomainError::Validation)
    }
}

impl Role {
    /// The canonical lowercase token under which a role is persisted.
    pub fn as_token(&self) -> (r: &'static str)
        ensures
            r@ == role_token(*self),
    {
        match self {
            Role::Student => "student",
            Role::Admin => "admin",
        }
    }
}

/// Reads a role back from its persisted token; an unrecognized token is
/// rejected instead of crashing.
pub fn parse_role(s: &str) -> (r: Result<Role, DomainError>)
    ensures
        r == spec_parse_role(s@),
{
    if str_eq(s, "student") {
        Ok(Role::Student)
    } else if str_eq(s, "admin") {
        Ok(Role::Admin)
    } else {
        Err(DomainError::Validation)
    }
}

/// Every role token parses back to the role it was written from.
pub proof fn lemma_role_token_round_trip(r: Role)
    ensures
        spec_parse_role(role_token(r)) == Ok::<Role, DomainError>(r),
{
    reveal_strlit("student");
    reveal_strlit("admin");
    assert("student"@.len() == 7);
    assert("admin"@.len() == 5);
}

// --- cascaded removal, as functions of the tables --------------------------

/// The registration table after a user disappears: every row the user
/// owned is gone, and the order of the rest is kept.
pub open spec fn regs_without_student(regs: Seq<Registration>, student: u128) -> Seq<Registration>
    decreases regs.len(),
{
    if regs.len() == 0 {
        Seq::empty()
    } else {
        let rest = regs_without_student(regs.drop_last(), student);
        if regs.last().student_id == student {
            rest
        } else {
            rest.push(regs.last())
        }
    }
}

/// The profile table after a user disappears.
pub open spec fn profiles_without_user(
    profiles: Seq<StudentProfile>,
    user: u128,
) -> Seq<StudentProfile>
    decreases profiles.len(),
{
    if profiles.len() == 0 {
        Seq::empty()
    } else {
        let rest = profiles_without_user(profiles.drop_last(), user);
        if profiles.last().user_id == user {
            rest
        } else {
            rest.push(profiles.last())
        }
    }
}

/// Whether the table holds this exact registration row.
pub open spec fn contains_reg(regs: Seq<Registration>, r: Registration) -> bool {
    exists|a: int| 0 <= a < regs.len() && regs[a] == r
}

/// Filtering a student out of the registration table invents no row.
pub proof fn lemma_regs_without_members(regs: Seq<Registration>, student: u128)
    ensures
        forall|k: int|
            0 <= k < regs_without_student(regs, student).len() ==> #[trigger] contains_reg(
                regs,
                regs_without_student(regs, student)[k],
            ),
    decreases regs.len(),
{
    if regs.len() > 0 {
        lemma_regs_without_members(regs.drop_last(), student);
        let rest = regs_without_student(regs.drop_last(), student);
        let whole = regs_without_student(regs, student);
        assert forall|k: int| 0 <= k < whole.len() implies #[trigger] contains_reg(
            regs,
            whole[k],
        ) by {
            if k < rest.len() {
                assert(contains_reg(regs.drop_last(), rest[k]));
                let a = choose|a: int|
                    0 <= a < regs.drop_last().len() && regs.drop_last()[a] == rest[k];
                assert(regs[a] == whole[k]);
            } else {
                assert(regs[regs.len() - 1] == whole[k]);
            }
        }
    }
}

/// Filtering a student out of a well-formed registration table leaves
/// a well-formed one: identifiers stay distinct and no student keeps
/// two active rows in one offering.
pub proof fn lemma_regs_without_student_ok(regs: Seq<Registration>, student: u128)
    requires
        forall|i: int, j: int| 0 <= i < j < regs.len() ==> regs[i].id != regs[j].id,
        forall|i: int, j: int|
            0 <= i < j < regs.len() ==> !(regs[i].student_id == regs[j].student_id
                && regs[i].offering_id == regs[j].offering_id && regs[i].status
                != RegistrationStatus::Dropped && regs[j].status != RegistrationStatus::Dropped),
    ensures
        forall|i: int, j: int|
            0 <= i < j < regs_without_student(regs, student).len() ==> regs_without_student(
                regs,
                student,
            )[i].id != regs_without_student(regs, student)[j].id,
        forall|i: int, j: int|
            0 <= i < j < regs_without_student(regs, student).len() ==> !(regs_without_student(
                regs,
                student,
            )[i].student_id == regs_without_student(regs, student)[j].student_id
                && regs_without_student(regs, student)[i].offering_id == regs_without_student(
                regs,
                student,
            )[j].offering_id && regs_without_student(regs, student)[i].status
                != RegistrationStatus::Dropped && regs_without_student(regs, student)[j].status
                != RegistrationStatus::Dropped),
    decreases regs.len(),
{
    if regs.len() > 0 {
        lemma_regs_without_student_ok(regs.drop_last(), student);
        lemma_regs_without_members(regs.drop_last(), student);
        let rest = regs_without_student(regs.drop_last(), student);
        let whole = regs_without_student(regs, student);
        if regs.last().student_id != student {
            assert forall|a: int| 0 <= a < rest.len() implies (#[trigger] rest[a]).id
                != regs.last().id && !(rest[a].student_id == regs.last().student_id
                && rest[a].offering_id == regs.last().offering_id && rest[a].status
                != RegistrationStatus::Dropped && regs.last().status
                != RegistrationStatus::Dropped) by {
                assert(contains_reg(regs.drop_last(), rest[a]));
                let b = choose|b: int|
                    0 <= b < regs.drop_last().len() && regs.drop_last()[b] == rest[a];
                assert(regs[b] == rest[a]);
            }
            assert(whole == rest.push(regs.last()));
        }
    }
}

/// Removing a student's rows never raises any offering's enrollment
/// count.
pub proof fn lemma_regs_without_count(regs: Seq<Registration>, student: u128, offering: u128)
    ensures
        registered_count(regs_without_student(regs, student), offering) <= registered_count(
            regs,
            offering,
        ),
        registered_count(regs_without_student(regs, student), offering) >= 0,
    decreases regs.len(),
{
    if regs.len() > 0 {
        lemma_regs_without_count(regs.drop_last(), student, offering);
        let rest = regs_without_student(regs.drop_last(), student);
        if regs.last().student_id != student {
            assert(rest.push(regs.last()).drop_last() =~= rest);
        }
    }
}

impl User {
    /// Stores an account under a caller-chosen identifier and
    /// timestamp. The email and the identifier must both be fresh.
    pub fn create_user_with_id(
        id: u128,
        email: String,
        hashed_password: String,
        name: FullName,
        role: Role,
        created_at: i64,
        store: &mut Store,
    ) -> (r: Result<User, DomainError>)
        requires
            inv(old(store)@),
        ensures
            inv(final(store)@),
            ({
                let s = old(store)@;
                if has_user_email(s, email@) {
                    r == Err::<User, DomainError>(DomainError::Duplicate) && final(store)@ == s
                } else if has_user(s, id) {
                    r == Err::<User, DomainError>(DomainError::Duplicate) && final(store)@ == s
                } else {
                    (r matches Ok(u) && u@ == (UserView {
                        id,
                        email: email@,
                        hashed_password: hashed_password@,
                        first_name: name.first@,
                        last_name: name.last@,
                        role,
                        created_at,
                    }) && final(store)@ == with_users(s, s.users.push(u@)))
                }
            }),
    {
        let n = store.users_len();
        let mut i: usize = 0;
        while i < n
            invariant
                inv(store@),
                store@ == old(store)@,
                n == store@.users.len(),
                i <= n,
                forall|j: int| 0 <= j < i ==> store@.users[j].email != email@,
            decreases n - i,
        {
            if str_eq(store.user_at(i).email.as_str(), email.as_str()) {
                return Err(DomainError::Duplicate);
            }
            i = i + 1;
        }
        if store.find_user_index(id).is_some() {
            return Err(DomainError::Duplicate);
        }
        let user = User {
            id,
            email,
            hashed_password,
            first_name: name.first,
            last_name: name.last,
            role,
            created_at,
        };
        proof {
            let pre = store@;
            let post = with_users(pre, pre.users.push(user@));
            assert forall|k: int| 0 <= k < post.student_profiles.len() implies user_exists(
                post.users,
                (#[trigger] post.student_profiles[k]).user_id,
            ) by {
                assert(user_exists(pre.users, pre.student_profiles[k].user_id));
                let a = choose|a: int|
                    0 <= a < pre.users.len() && pre.users[a].id == pre.student_profiles[
                        k
                    ].user_id;
                assert(post.users[a].id == pre.student_profiles[k].user_id);
            }
        }
        store.push_user(user.clone());
        Ok(user)
    }

    /// Stores an account under a freshly drawn identifier, stamped
    /// with the current clock. The draw is random: a collision,
    /// against all odds, is reported as a duplicate rather than
    /// retried.
    pub fn create_user(
        email: String,
        hashed_password: String,
        name: FullName,
        role: Role,
        store: &mut Store,
    ) -> (r: Result<User, DomainError>)
        requires
            inv(old(store)@),
        ensures
            inv(final(store)@),
            ({
                let s = old(store)@;
                if has_user_email(s, email@) {
                    r == Err::<User, DomainError>(DomainError::Duplicate) && final(store)@ == s
                } else {
                    match r {
                        Ok(u) => !has_user(s, u@.id) && u@.email == email@ && u@.hashed_password
                            == hashed_password@ && u@.first_name == name.first@ && u@.last_name
                            == name.last@ && u@.role == role && final(store)@ == with_users(
                            s,
                            s.users.push(u@),
                        ),
                        Err(e) => e == DomainError::Duplicate && final(store)@ == s,
                    }
                }
            }),
    {
        let id = fresh_uuid();
        let now = now_timestamp();
        User::create_user_with_id(id, email, hashed_password, name, role, now, store)
    }

    /// The courses this user holds a `Registered` row in: actually
    /// registered, not waitlisted or dropped.
    pub fn get_registered_courses(&self, store: &Store) -> (r: Vec<Course>)
        requires
            inv(store@),
        ensures
            r@.map_values(|c: Course| c@) == join_student_courses(
                store@.registrations,
                store@.offerings,
                store@.courses,
                self.id,
                true,
            ),
    {
        self.joined_courses(store, true)
    }

    /// The courses this user holds any registration row in,
    /// irrespective of its status.
    pub fn get_all_user_courses(&self, store: &Store) -> (r: Vec<Course>)
        requires
            inv(store@),
        ensures
            r@.map_values(|c: Course| c@) == join_student_courses(
                store@.registrations,
                store@.offerings,
                store@.courses,
                self.id,
                false,
            ),
    {
        self.joined_courses(store, false)
    }

    fn joined_courses(&self, store: &Store, only_registered: bool) -> (r: Vec<Course>)
        requires
            inv(store@),
        ensures
            r@.map_values(|c: Course| c@) == join_student_courses(
                store@.registrations,
                store@.offerings,
                store@.courses,
                self.id,
                only_registered,
            ),
    {
        let n = store.registrations_len();
        let mut result: Vec<Course> = Vec::new();
        let mut i: usize = 0;
        while i < n
            invariant
                inv(store@),
                n == store@.registrations.len(),
                i <= n,
                result@.map_values(|c: Course| c@) == join_student_courses(
                    store@.registrations.take(i as int),
                    store@.offerings,
                    store@.courses,
                    self.id,
                    only_registered,
                ),
            decreases n - i,
        {
            let reg = store.registration_at(i);
            proof {
                assert(store@.registrations.take(i as int + 1).drop_last()
                    =~= store@.registrations.take(i as int));
                assert(store@.registrations.take(i as int + 1).last()
                    == store@.registrations[i as int]);
            }
            if reg.student_id == self.id && (!only_registered || matches!(
                reg.status,
                RegistrationStatus::Registered,
            )) {
                match store.find_offering_index(reg.offering_id) {
                    Some(j) => {
                        proof {
                            lemma_find_offering_unique(store@.offerings, reg.offering_id, j as int);
                        }
                        let course_id = store.offering_at(j).course_id;
                        match store.find_course_index(course_id) {
                            Some(k) => {
                                let c = store.course_at(k).clone();
                                proof {
                                    lemma_find_course_unique(store@.courses, course_id, k as int);
                                }
                                result.push(c);
                                proof {
                                    assert(result@.map_values(|c: Course| c@)
                                        =~= join_student_courses(
                                        store@.registrations.take(i as int + 1),
                                        store@.offerings,
                                        store@.courses,
                                        self.id,
                                        only_registered,
                                    ));
                                }
                            },
                            None => {
                                proof {
                                    lemma_find_course_absent(store@.courses, course_id);
                                }
                            },
                        }
                    },
                    None => {
                        proof {
                            lemma_find_offering_absent(store@.offerings, reg.offering_id);
                        }
                    },
                }
            }
            i = i + 1;
        }
        proof {
            assert(store@.registrations.take(n as int) =~= store@.registrations);
        }
        result
    }

    /// Removes this account and cascades: every registration the user
    /// owns and the user's student profile go with it.
    pub fn delete(&self, store: &mut Store) -> (r: Result<(), DomainError>)
        requires
            inv(old(store)@),
        ensures
            inv(final(store)@),
            match r {
                Ok(()) => exists|i: int|
                    0 <= i < old(store)@.users.len() && old(store)@.users[i].id == self.id
                        && final(store)@ == (StoreView {
                        users: old(store)@.users.remove(i),
                        registrations: regs_without_student(
                            old(store)@.registrations,
                            self.id,
                        ),
                        student_profiles: profiles_without_user(
                            old(store)@.student_profiles,
                            self.id,
                        ),
                        ..old(store)@
                    }),
                Err(e) => e == DomainError::NotFound && !has_user(old(store)@, self.id)
                    && final(store)@ == old(store)@,
            },
            r is Ok <==> has_user(old(store)@, self.id),
    {
        let found = store.find_user_index(self.id);
        match found {
            None => Err(DomainError::NotFound),
            Some(i) => {
                let ghost pre = store@;
                store.remove_user_at(i);
                let ghost mid1 = store@;
                let n = store.registrations_len();
                let mut kept: Vec<Registration> = Vec::new();
                let mut j: usize = 0;
                while j < n
                    invariant
                        store@ == mid1,
                        n == store@.registrations.len(),
                        j <= n,
                        kept@ == regs_without_student(
                            store@.registrations.take(j as int),
                            self.id,
                        ),
                    decreases n - j,
                {
                    let reg = store.registration_at(j);
                    proof {
                        assert(store@.registrations.take(j as int + 1).drop_last()
                            =~= store@.registrations.take(j as int));
                        assert(store@.registrations.take(j as int + 1).last()
                            == store@.registrations[j as int]);
                    }
                    if reg.student_id != self.id {
                        kept.push(reg);
                    }
                    j = j + 1;
                }
                proof {
                    assert(store@.registrations.take(n as int) =~= store@.registrations);
                }
                store.set_registrations(kept);
                let m = store.profiles_len();
                let mut kept_profiles: Vec<StudentProfile> = Vec::new();
                let mut p: usize = 0;
                while p < m
                    invariant
                        store@.student_profiles == pre.student_profiles,
                        m == store@.student_profiles.len(),
                        p <= m,
                        kept_profiles@ == profiles_without_user(
                            store@.student_profiles.take(p as int),
                            self.id,
                        ),
                    decreases m - p,
                {
                    let profile = store.profile_at(p);
                    proof {
                        assert(store@.student_profiles.take(p as int + 1).drop_last()
                            =~= store@.student_profiles.take(p as int));
                        assert(store@.student_profiles.take(p as int + 1).last()
                            == store@.student_profiles[p as int]);
                    }
                    if profile.user_id != self.id {
                        kept_profiles.push(profile);
                    }
                    p = p + 1;
                }
                proof {
                    assert(store@.student_profiles.take(m as int) =~= store@.student_profiles);
                }
                store.set_student_profiles(kept_profiles);
                proof {
                    lemma_delete_preserves_inv(pre, i as int);
                    assert(pre.users[i as int].id == self.id);
                }
                Ok(())
            },
        }
    }
}

/// Removing a user, the rows they own and their profile keeps the
/// store well-formed.
proof fn lemma_delete_preserves_inv(pre: StoreView, i: int)
    requires
        inv(pre),
        0 <= i < pre.users.len(),
    ensures
        inv(
            StoreView {
                users: pre.users.remove(i),
                registrations: regs_without_student(pre.registrations, pre.users[i].id),
                student_profiles: profiles_without_user(pre.student_profiles, pre.users[i].id),
                ..pre
            },
        ),
{
    let uid = pre.users[i].id;
    let post = StoreView {
        users: pre.users.remove(i),
        registrations: regs_without_student(pre.registrations, uid),
        student_profiles: profiles_without_user(pre.student_profiles, uid),
        ..pre
    };
    lemma_regs_without_student_ok(pre.registrations, uid);
    lemma_regs_without_members(pre.registrations, uid);
    assert forall|k: int| 0 <= k < post.offerings.len() implies registered_count(
        post.registrations,
        (#[trigger] post.offerings[k]).id,
    ) <= post.offerings[k].capacity by {
        lemma_regs_without_count(pre.registrations, uid, pre.offerings[k].id);
    }
    assert forall|a: int| 0 <= a < post.registrations.len() implies offering_exists(
        post.offerings,
        (#[trigger] post.registrations[a]).offering_id,
    ) by {
        assert(contains_reg(pre.registrations, post.registrations[a]));
        let b = choose|b: int|
            0 <= b < pre.registrations.len() && pre.registrations[b] == post.registrations[a];
        assert(offering_exists(pre.offerings, pre.registrations[b].offering_id));
    }
    lemma_profiles_without_user_ok(pre.student_profiles, uid);
    lemma_profiles_without_members(pre.student_profiles, uid);
    assert forall|k: int| 0 <= k < post.student_profiles.len() implies valid_student_number(
        (#[trigger] post.student_profiles[k]).student_number,
    ) by {
        assert(contains_profile(pre.student_profiles, post.student_profiles[k]));
        let b = choose|b: int|
            0 <= b < pre.student_profiles.len() && pre.student_profiles[b]
                == post.student_profiles[k];
        assert(valid_student_number(pre.student_profiles[b].student_number));
    }
    assert forall|k: int| 0 <= k < post.student_profiles.len() implies user_exists(
        post.users,
        (#[trigger] post.student_profiles[k]).user_id,
    ) by {
        assert(contains_profile(pre.student_profiles, post.student_profiles[k]));
        let b = choose|b: int|
            0 <= b < pre.student_profiles.len() && pre.student_profiles[b]
                == post.student_profiles[k];
        assert(user_exists(pre.users, pre.student_profiles[b].user_id));
        let a = choose|a: int|
            0 <= a < pre.users.len() && pre.users[a].id == pre.student_profiles[b].user_id;
        assert(post.student_profiles[k].user_id != uid);
        assert(a != i);
        if a < i {
            assert(post.users[a].id == pre.users[a].id);
        } else {
            assert(post.users[a - 1].id == pre.users[a].id);
        }
    }
}

// --- the courses a user is involved in -------------------------------------

/// The courses reached from a student's registrations, joined through
/// the offering, in registration order. When `only_registered` is set,
/// waitlisted and dropped rows contribute nothing; a row whose
/// offering or course record is missing contributes nothing either.
pub open spec fn join_student_courses(
    regs: Seq<Registration>,
    offerings: Seq<crate::models::course_offering::CourseOfferingView>,
    courses: Seq<CourseView>,
    student: u128,
    only_registered: bool,
) -> Seq<CourseView>
    decreases regs.len(),
{
    if regs.len() == 0 {
        Seq::empty()
    } else {
        let rest = join_student_courses(regs.drop_last(), offerings, courses, student, only_registered);
        let r = regs.last();
        if r.student_id == student && (!only_registered || r.status
            == RegistrationStatus::Registered) {
            match find_offering(offerings, r.offering_id) {
                Some(o) => match find_course(courses, o.course_id) {
                    Some(c) => rest.push(c),
                    None => rest,
                },
                None => rest,
            }
        } else {
            rest
        }
    }
}

/// Whether the table holds this exact profile row.
pub open spec fn contains_profile(profiles: Seq<StudentProfile>, p: StudentProfile) -> bool {
    exists|a: int| 0 <= a < profiles.len() && profiles[a] == p
}

/// Filtering a user out of the profile table invents no row.
pub proof fn lemma_profiles_without_members(profiles: Seq<StudentProfile>, user: u128)
    ensures
        forall|k: int|
            0 <= k < profiles_without_user(profiles, user).len() ==> #[trigger] contains_profile(
                profiles,
                profiles_without_user(profiles, user)[k],
            ),
    decreases profiles.len(),
{
    if profiles.len() > 0 {
        lemma_profiles_without_members(profiles.drop_last(), user);
        let rest = profiles_without_user(profiles.drop_last(), user);
        let whole = profiles_without_user(profiles, user);
        assert forall|k: int| 0 <= k < whole.len() implies #[trigger] contains_profile(
            profiles,
            whole[k],
        ) by {
            if k < rest.len() {
                assert(contains_profile(profiles.drop_last(), rest[k]));
                let a = choose|a: int|
                    0 <= a < profiles.drop_last().len() && profiles.drop_last()[a] == rest[k];
                assert(profiles[a] == whole[k]);
            } else {
                assert(profiles[profiles.len() - 1] == whole[k]);
            }
        }
    }
}

/// Filtering a user out of a well-formed profile table leaves a
/// well-formed one: one profile per user, eight-digit numbers kept,
/// and no profile of the filtered user remains.
pub proof fn lemma_profiles_without_user_ok(profiles: Seq<StudentProfile>, user: u128)
    requires
        forall|i: int, j: int|
            0 <= i < j < profiles.len() ==> profiles[i].user_id != profiles[j].user_id,
    ensures
        forall|i: int, j: int|
            0 <= i < j < profiles_without_user(profiles, user).len() ==> profiles_without_user(
                profiles,
                user,
            )[i].user_id != profiles_without_user(profiles, user)[j].user_id,
        forall|k: int|
            0 <= k < profiles_without_user(profiles, user).len() ==> (
            #[trigger] profiles_without_user(profiles, user)[k]).user_id != user,
    decreases profiles.len(),
{
    if profiles.len() > 0 {
        lemma_profiles_without_user_ok(profiles.drop_last(), user);
        lemma_profiles_without_members(profiles.drop_last(), user);
        let rest = profiles_without_user(profiles.drop_last(), user);
        let whole = profiles_without_user(profiles, user);
        if profiles.last().user_id != user {
            assert forall|a: int| 0 <= a < rest.len() implies (#[trigger] rest[a]).user_id
                != profiles.last().user_id by {
                assert(contains_profile(profiles.drop_last(), rest[a]));
                let b = choose|b: int|
                    0 <= b < profiles.drop_last().len() && profiles.drop_last()[b] == rest[a];
                assert(profiles[b] == rest[a]);
            }
            assert(whole == rest.push(profiles.last()));
        }
    }
}

} // verus!
