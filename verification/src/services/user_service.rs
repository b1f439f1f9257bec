use vstd::prelude::*;

use crate::errors::DomainError;
use crate::models::student_profile::{valid_student_number, StudentMajor, StudentProfile};
use crate::models::user::{FullName, Role, User};
use crate::security::password::{argon2_verifies, hash_password, validate_password};
use crate::store::{
    has_profile, has_user, has_user_email, inv, user_exists, with_student_profiles, with_users,
    Store,
};
use crate::text::str_eq;

verus! {

/// Fetches the stored password hash of the given user's account.
pub fn get_user_hash(user: User, store: &Store) -> (r: Result<String, DomainError>)
    requires
        inv(store@),
    ensures
        match r {
            Ok(h) => exists|i: int|
                0 <= i < store@.users.len() && store@.users[i].id == user.id
                    && h@ == store@.users[i].hashed_password,
            Err(e) => e == DomainError::NotFound && !has_user(store@, user.id),
        },
        r is Ok <==> has_user(store@, user.id),
{
    match store.find_user_index(user.id) {
        Some(i) => Ok(store.user_at(i).hashed_password.clone()),
        None => Err(DomainError::NotFound),
    }
}

/// Looks a user up by identifier.
pub fn get_user_by_id(id: u128, store: &Store) -> (r: Option<User>)
    requires
        inv(store@),
    ensures
        match r {
            Some(u) => u@.id == id && exists|i: int|
                0 <= i < store@.users.len() && store@.users[i] == u@,
            None => !has_user(store@, id),
        },
        r is Some <==> has_user(store@, id),
{
    match store.find_user_index(id) {
        Some(i) => Some(store.user_at(i).clone()),
        None => None,
    }
}

/// Registers a new student: hashes the password, creates the account
/// with the student role, and attaches a freshly numbered student
/// profile. The email must be fresh; the stored hash verifies against
/// the given password.
pub fn register_student(
    email: String,
    plaintext_password: String,
    name: FullName,
    enrollment_year: i32,
    major: StudentMajor,
    store: &mut Store,
) -> (r: Result<(User, StudentProfile), DomainError>)
    requires
        inv(old(store)@),
    ensures
        inv(final(store)@),
        ({
            let s = old(store)@;
            if has_user_email(s, email@) {
                (r matches Err(e) && (e == DomainError::Duplicate || e
                    == DomainError::Authentication) && final(store)@ == s)
            } else {
                match r {
                    Ok((u, p)) => !has_user(s, u@.id) && u@.email == email@ && u@.role
                        == Role::Student && u@.first_name == name.first@ && u@.last_name
                        == name.last@ && argon2_verifies(
                        plaintext_password@,
                        u@.hashed_password,
                    ) && p.user_id == u@.id && p.enrollment_year == enrollment_year && p.major
                        == major && valid_student_number(p.student_number) && final(store)@
                        == with_student_profiles(
                        with_users(s, s.users.push(u@)),
                        s.student_profiles.push(p),
                    ),
                    Err(e) => (e == DomainError::Duplicate || e == DomainError::Authentication)
                        && final(store)@ == s,
                }
            }
        }),
{
    let hashed_password = match hash_password(plaintext_password.as_str()) {
        Ok(h) => h,
        Err(_) => {
            return Err(DomainError::Authentication);
        },
    };
    let user = match User::create_user(email, hashed_password, name, Role::Student, store) {
        Ok(u) => u,
        Err(e) => {
            return Err(e);
        },
    };
    proof {
        let ghost mid = store@;
        assert(mid.users[mid.users.len() - 1] == user@);
        assert(has_user(mid, user@.id));
        assert(!has_profile(mid, user@.id)) by {
            if has_profile(mid, user@.id) {
                let k = choose|k: int|
                    0 <= k < mid.student_profiles.len() && mid.student_profiles[k].user_id
                        == user@.id;
                assert(user_exists(old(store)@.users, old(store)@.student_profiles[k].user_id));
            }
        }
    }
    match StudentProfile::create(user.id, enrollment_year, major, store) {
        Ok(profile) => Ok((user, profile)),
        Err(e) => Err(e),
    }
}

/// Registers a new admin: hashes the password and creates the account
/// with the admin role; admins carry no student profile.
pub fn register_admin(
    email: String,
    plaintext_password: String,
    name: FullName,
    store: &mut Store,
) -> (r: Result<User, DomainError>)
    requires
        inv(old(store)@),
    ensures
        inv(final(store)@),
        ({
            let s = old(store)@;
            if has_user_email(s, email@) {
                (r matches Err(e) && (e == DomainError::Duplicate || e
                    == DomainError::Authentication) && final(store)@ == s)
            } else {
                match r {
                    Ok(u) => !has_user(s, u@.id) && u@.email == email@ && u@.role == Role::Admin
                        && u@.first_name == name.first@ && u@.last_name == name.last@
                        && argon2_verifies(plaintext_password@, u@.hashed_password) && final(store)@ == with_users(s, s.users.push(u@)),
                    Err(e) => (e == DomainError::Duplicate || e == DomainError::Authentication)
                        && final(store)@ == s,
                }
            }
        }),
{
    let hashed_password = match hash_password(plaintext_password.as_str()) {
        Ok(h) => h,
        Err(_) => {
            return Err(DomainError::Authentication);
        },
    };
    User::create_user(email, hashed_password, name, Role::Admin, store)
}

/// Resolves an account by email to its identifier and role.
pub fn resolve_user(email: &String, store: &Store) -> (r: Result<(u128, Role), DomainError>)
    requires
        inv(store@),
    ensures
        match r {
            Ok((id, role)) => exists|i: int|
                0 <= i < store@.users.len() && (#[trigger] store@.users[i]).email == email@
                    && store@.users[i].id == id && store@.users[i].role == role,
            Err(e) => e == DomainError::NotFound && !has_user_email(store@, email@),
        },
        r is Ok <==> has_user_email(store@, email@),
{
    let n = store.users_len();
    let mut i: usize = 0;
    while i < n
        invariant
            n == store@.users.len(),
            i <= n,
            forall|j: int| 0 <= j < i ==> (#[trigger] store@.users[j]).email != email@,
        decreases n - i,
    {
        if str_eq(store.user_at(i).email.as_str(), email.as_str()) {
            return Ok((store.user_at(i).id, store.user_at(i).role));
        }
        i = i + 1;
    }
    Err(DomainError::NotFound)
}

/// Attempts a login by email and password: true exactly when an
/// account with the email exists and the password verifies against
/// its stored hash. A missing account and a wrong password are not
/// told apart.
pub fn try_login(email: &String, plaintext: &String, store: &Store) -> (r: bool)
    requires
        inv(store@),
    ensures
        r == exists|i: int|
            0 <= i < store@.users.len() && (#[trigger] store@.users[i]).email == email@
                && argon2_verifies(plaintext@, store@.users[i].hashed_password),
{
    let n = store.users_len();
    let mut i: usize = 0;
    while i < n
        invariant
            inv(store@),
            n == store@.users.len(),
            i <= n,
            forall|j: int| 0 <= j < i ==> (#[trigger] store@.users[j]).email != email@,
        decreases n - i,
    {
        if str_eq(store.user_at(i).email.as_str(), email.as_str()) {
            let outcome = validate_password(plaintext.as_str(), store.user_at(i).hashed_password.as_str());
            let valid = match outcome {
                Ok(b) => b,
                Err(_) => false,
            };
            proof {
                assert forall|j: int|
                    0 <= j < store@.users.len() && (#[trigger] store@.users[j]).email == email@
                        implies j == i as int by {
                    if j != i as int {
                        assert(store@.users[i as int].email == email@);
                    }
                }
            }
            return valid;
        }
        i = i + 1;
    }
    false
}

} // verus!
