use vstd::prelude::*;

verus! {

/// Events the login page reacts to. A login result arrives as a plain
/// value: either the outcome of the attempt or an error message.
#[derive(Debug)]
pub enum Message {
    EmailChanged(String),
    PasswordChanged(String),
    LoginClicked,
    RegisterClicked,
    LoginResult(Result<bool, String>),
}

/// The login page's state: the two input fields and the last reported
/// outcome.
#[derive(Debug)]
pub struct LoginState {
    pub email: String,
    pub password: String,
    pub login_status: Option<String>,
}

impl LoginState {
    /// A login page with empty fields and no outcome yet.
    pub open spec fn spec_empty(self) -> bool {
        self.email@ == Seq::<char>::empty() && self.password@ == Seq::<char>::empty()
            && self.login_status is None
    }
}

impl Default for LoginState {
    fn default() -> (r: LoginState)
        ensures
            r.spec_empty(),
    {
        LoginState { email: String::new(), password: String::new(), login_status: None }
    }
}

} // verus!
