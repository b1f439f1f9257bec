pub mod course_service;
pub mod department_service;
pub mod user_service;
