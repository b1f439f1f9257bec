use vstd::prelude::*;

use crate::ui::login;
use crate::ui::page::{Page, PageMessage};
use crate::ui::register;
use vstd::string::StringExecFns;

verus! {

/// The application-level event: every page event, wrapped.
#[derive(Debug)]
pub enum Message {
    Page(PageMessage),
}

/// What the surrounding runtime must perform after an update step.
/// The decision which call to make is taken here; performing it, and
/// feeding its outcome back as a result message, is the runtime's
/// part.
#[derive(Debug)]
pub enum Action {
    Idle,
    SubmitLogin { email: String, password: String },
    SubmitRegister { email: String, password: String, name: String },
}

/// The window title.
pub fn title() -> (r: String)
    ensures
        r@ == "SchoolRedux"@,
{
    String::from_str("SchoolRedux")
}

fn clone_status(o: &Option<String>) -> (r: Option<String>)
    ensures
        r == *o,
{
    match o {
        Some(s) => Some(s.clone()),
        None => None,
    }
}

/// One step of the page state machine: consumes an event, moves the
/// page, and says what the runtime must perform next. Events for a
/// page that is not current leave everything unchanged.
pub fn update(page: &mut Page, message: Message) -> (action: Action)
    ensures
        match message {
            Message::Page(pm) => match pm {
                PageMessage::Login(lm) => match lm {
                    login::Message::EmailChanged(e) => action is Idle && (match *old(page) {
                        Page::Login(st) => *final(page) == Page::Login(
                            login::LoginState {
                                email: e,
                                password: st.password,
                                login_status: st.login_status,
                            },
                        ),
                        Page::Register(_) => *final(page) == *old(page),
                    }),
                    login::Message::PasswordChanged(pw) => action is Idle && (match *old(page) {
                        Page::Login(st) => *final(page) == Page::Login(
                            login::LoginState {
                                email: st.email,
                                password: pw,
                                login_status: st.login_status,
                            },
                        ),
                        Page::Register(_) => *final(page) == *old(page),
                    }),
                    login::Message::LoginClicked => *final(page) == *old(page) && (match *old(page) {
                        Page::Login(st) => (action matches Action::SubmitLogin {
                            email,
                            password,
                        } && email == st.email && password == st.password),
                        Page::Register(_) => action is Idle,
                    }),
                    login::Message::RegisterClicked => action is Idle && (*final(page) matches Page::Register(n) && n.spec_empty()),
                    login::Message::LoginResult(res) => action is Idle && (match *old(page) {
                        Page::Login(st) => (*final(page) matches Page::Login(n) && n.email
                            == st.email && n.password == st.password && (match res {
                            Ok(true) => n.login_status matches Some(m) && m@
                                == "Login successful"@,
                            Ok(false) => n.login_status matches Some(m) && m@
                                == "Invalid credentials"@,
                            Err(err) => n.login_status matches Some(m) && m@
                                == "An error occurred: "@ + err@,
                        })),
                        Page::Register(_) => *final(page) == *old(page),
                    }),
                },
                PageMessage::Register(rm) => match rm {
                    register::Message::BackToLogin => action is Idle && (*final(page) matches Page::Login(n) && n.spec_empty()),
                    register::Message::EmailChanged(e) => action is Idle && (match *old(page) {
                        Page::Register(st) => *final(page) == Page::Register(
                            register::RegisterState {
                                email: e,
                                password: st.password,
                                name: st.name,
                                register_status: st.register_status,
                            },
                        ),
                        Page::Login(_) => *final(page) == *old(page),
                    }),
                    register::Message::PasswordChanged(pw) => action is Idle && (match *old(page) {
                        Page::Register(st) => *final(page) == Page::Register(
                            register::RegisterState {
                                email: st.email,
                                password: pw,
                                name: st.name,
                                register_status: st.register_status,
                            },
                        ),
                        Page::Login(_) => *final(page) == *old(page),
                    }),
                    register::Message::NameChanged(nm) => action is Idle && (match *old(page) {
                        Page::Register(st) => *final(page) == Page::Register(
                            register::RegisterState {
                                email: st.email,
                                password: st.password,
                                name: nm,
                                register_status: st.register_status,
                            },
                        ),
                        Page::Login(_) => *final(page) == *old(page),
                    }),
                    register::Message::RegisterClicked => *final(page) == *old(page) && (match *old(page) {
                        Page::Register(st) => (action matches Action::SubmitRegister {
                            email,
                            password,
                            name,
                        } && email == st.email && password == st.password && name == st.name),
                        Page::Login(_) => action is Idle,
                    }),
                    register::Message::RegisterResult(res) => action is Idle && (match *old(page) {
                        Page::Register(st) => (*final(page) matches Page::Register(n) && n.email
                            == st.email && n.password == st.password && n.name == st.name && (
                        match res {
                            Ok(true) => n.register_status matches Some(m) && m@
                                == "Login successful"@,
                            Ok(false) => n.register_status matches Some(m) && m@
                                == "Failed to register."@,
                            Err(err) => n.register_status matches Some(m) && m@
                                == "An error occurred: "@ + err@,
                        })),
                        Page::Login(_) => *final(page) == *old(page),
                    }),
                },
            },
        },
{
    let Message::Page(pm) = message;
    match pm {
        PageMessage::Login(lm) => match lm {
            login::Message::EmailChanged(e) => {
                match page {
                    Page::Login(st) => {
                        let password = st.password.clone();
                        let login_status = clone_status(&st.login_status);
                        *page = Page::Login(login::LoginState { email: e, password, login_status });
                    },
                    Page::Register(_) => {},
                }
                Action::Idle
            },
            login::Message::PasswordChanged(pw) => {
                match page {
                    Page::Login(st) => {
                        let email = st.email.clone();
                        let login_status = clone_status(&st.login_status);
                        *page = Page::Login(
                            login::LoginState { email, password: pw, login_status },
                        );
                    },
                    Page::Register(_) => {},
                }
                Action::Idle
            },
            login::Message::LoginClicked => {
                match page {
                    Page::Login(st) => Action::SubmitLogin {
                        email: st.email.clone(),
                        password: st.password.clone(),
                    },
                    Page::Register(_) => Action::Idle,
                }
            },
            login::Message::RegisterClicked => {
                *page = Page::Register(register::RegisterState::default());
                Action::Idle
            },
            login::Message::LoginResult(res) => {
                match page {
                    Page::Login(st) => {
                        let email = st.email.clone();
                        let password = st.password.clone();
                        let login_status = Some(
                            match res {
                                Ok(true) => String::from_str("Login successful"),
                                Ok(false) => String::from_str("Invalid credentials"),
                                Err(err) => String::from_str("An error occurred: ").concat(
                                    err.as_str(),
                                ),
                            },
                        );
                        *page = Page::Login(login::LoginState { email, password, login_status });
                    },
                    Page::Register(_) => {},
                }
                Action::Idle
            },
        },
        PageMessage::Register(rm) => match rm {
            register::Message::BackToLogin => {
                *page = Page::Login(login::LoginState::default());
                Action::Idle
            },
            register::Message::EmailChanged(e) => {
                match page {
                    Page::Register(st) => {
                        let password = st.password.clone();
                        let name = st.name.clone();
                        let register_status = clone_status(&st.register_status);
                        *page = Page::Register(
                            register::RegisterState { email: e, password, name, register_status },
                        );
                    },
                    Page::Login(_) => {},
                }
                Action::Idle
            },
            register::Message::PasswordChanged(pw) => {
                match page {
                    Page::Register(st) => {
                        let email = st.email.clone();
                        let name = st.name.clone();
                        let register_status = clone_status(&st.register_status);
                        *page = Page::Register(
                            register::RegisterState { email, password: pw, name, register_status },
                        );
                    },
                    Page::Login(_) => {},
                }
                Action::Idle
            },
            register::Message::NameChanged(nm) => {
                match page {
                    Page::Register(st) => {
                        let email = st.email.clone();
                        let password = st.password.clone();
                        let register_status = clone_status(&st.register_status);
                        *page = Page::Register(
                            register::RegisterState { email, password, name: nm, register_status },
                        );
                    },
                    Page::Login(_) => {},
                }
                Action::Idle
            },
            register::Message::RegisterClicked => {
                match page {
                    Page::Register(st) => Action::SubmitRegister {
                        email: st.email.clone(),
                        password: st.password.clone(),
                        name: st.name.clone(),
                    },
                    Page::Login(_) => Action::Idle,
                }
            },
            register::Message::RegisterResult(res) => {
                match page {
                    Page::Register(st) => {
                        let email = st.email.clone();
                        let password = st.password.clone();
                        let name = st.name.clone();
                        let register_status = Some(
                            match res {
                                Ok(true) => String::from_str("Login successful"),
                                Ok(false) => String::from_str("Failed to register."),
                                Err(err) => String::from_str("An error occurred: ").concat(
                                    err.as_str(),
                                ),
                            },
                        );
                        *page = Page::Register(
                            register::RegisterState { email, password, name, register_status },
                        );
                    },
                    Page::Login(_) => {},
                }
                Action::Idle
            },
        },
    }
}

} // verus!
