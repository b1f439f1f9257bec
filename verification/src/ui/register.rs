use vstd::prelude::*;

verus! {

/// Events the registration page reacts to.
#[derive(Debug)]
pub enum Message {
    BackToLogin,
    EmailChanged(String),
    PasswordChanged(String),
    NameChanged(String),
    RegisterClicked,
    RegisterResult(Result<bool, String>),
}

/// The registration page's state: the input fields and the last
/// reported outcome.
#[derive(Debug)]
pub struct RegisterState {
    pub email: String,
    pub password: String,
    pub name: String,
    pub register_status: Option<String>,
}

impl RegisterState {
    /// A registration page with empty fields and no outcome yet.
    pub open spec fn spec_empty(self) -> bool {
        self.email@ == Seq::<char>::empty() && self.password@ == Seq::<char>::empty()
            && self.name@ == Seq::<char>::empty() && self.register_status is None
    }
}

impl Default for RegisterState {
    fn default() -> (r: RegisterState)
        ensures
            r.spec_empty(),
    {
        RegisterState {
            email: String::new(),
            password: String::new(),
            name: String::new(),
            register_status: None,
        }
    }
}

} // verus!
