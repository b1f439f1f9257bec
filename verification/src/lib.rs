//! A verified domain layer for an academic catalog and enrollment
//! system: departments and courses, a prerequisite graph, date-bounded
//! terms, scheduled offerings with seat capacities, meeting times, and
//! the registration lifecycle that admits, waitlists, drops and grades
//! students. Every operation works over an explicit in-memory store
//! and is proved to keep its invariants; above all, no offering ever
//! holds more `Registered` rows than its capacity.

use vstd::prelude::*;

pub mod errors;
pub mod text;
pub mod date;
pub mod models;
pub mod security;
pub mod services;
pub mod store;
pub mod ui;
mod clock;
mod ids;

verus! {

} // verus!
