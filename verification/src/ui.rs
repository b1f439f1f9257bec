pub mod app;
pub mod login;
pub mod page;
pub mod register;
