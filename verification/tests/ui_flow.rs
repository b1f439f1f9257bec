use schoolredux::ui::app::{title, update, Action, Message};
use schoolredux::ui::login;
use schoolredux::ui::page::{Page, PageMessage};
use schoolredux::ui::register;

#[test]
fn window_title_is_fixed() {
    assert_eq!(title(), "SchoolRedux");
}

#[test]
fn typing_updates_the_login_fields() {
    let mut page = Page::Login(login::LoginState::default());
    let a = update(
        &mut page,
        Message::Page(PageMessage::Login(login::Message::EmailChanged(
            "ada@example.edu".to_string(),
        ))),
    );
    assert!(matches!(a, Action::Idle));
    let a = update(
        &mut page,
        Message::Page(PageMessage::Login(login::Message::PasswordChanged(
            "hunter2".to_string(),
        ))),
    );
    assert!(matches!(a, Action::Idle));
    match &page {
        Page::Login(st) => {
            assert_eq!(st.email, "ada@example.edu");
            assert_eq!(st.password, "hunter2");
            assert!(st.login_status.is_none());
        }
        Page::Register(_) => panic!("expected the login page"),
    }
}

#[test]
fn clicking_login_submits_the_credentials() {
    let mut page = Page::Login(login::LoginState {
        email: "ada@example.edu".to_string(),
        password: "hunter2".to_string(),
        login_status: None,
    });
    let a = update(
        &mut page,
        Message::Page(PageMessage::Login(login::Message::LoginClicked)),
    );
    match a {
        Action::SubmitLogin { email, password } => {
            assert_eq!(email, "ada@example.edu");
            assert_eq!(password, "hunter2");
        }
        _ => panic!("expected a login submission"),
    }
}

#[test]
fn login_results_set_the_status_line() {
    let mut page = Page::Login(login::LoginState::default());
    update(
        &mut page,
        Message::Page(PageMessage::Login(login::Message::LoginResult(Ok(true)))),
    );
    match &page {
        Page::Login(st) => assert_eq!(st.login_status.as_deref(), Some("Login successful")),
        Page::Register(_) => panic!("expected the login page"),
    }
    update(
        &mut page,
        Message::Page(PageMessage::Login(login::Message::LoginResult(Ok(false)))),
    );
    match &page {
        Page::Login(st) => assert_eq!(st.login_status.as_deref(), Some("Invalid credentials")),
        Page::Register(_) => panic!("expected the login page"),
    }
    update(
        &mut page,
        Message::Page(PageMessage::Login(login::Message::LoginResult(Err(
            "timeout".to_string(),
        )))),
    );
    match &page {
        Page::Login(st) => {
            assert_eq!(st.login_status.as_deref(), Some("An error occurred: timeout"))
        }
        Page::Register(_) => panic!("expected the login page"),
    }
}

#[test]
fn navigation_between_pages_resets_their_state() {
    let mut page = Page::Login(login::LoginState {
        email: "ada@example.edu".to_string(),
        password: "hunter2".to_string(),
        login_status: None,
    });
    update(
        &mut page,
        Message::Page(PageMessage::Login(login::Message::RegisterClicked)),
    );
    match &page {
        Page::Register(st) => {
            assert_eq!(st.email, "");
            assert_eq!(st.password, "");
            assert_eq!(st.name, "");
            assert!(st.register_status.is_none());
        }
        Page::Login(_) => panic!("expected the registration page"),
    }
    update(
        &mut page,
        Message::Page(PageMessage::Register(register::Message::BackToLogin)),
    );
    match &page {
        Page::Login(st) => assert_eq!(st.email, ""),
        Page::Register(_) => panic!("expected the login page"),
    }
}

#[test]
fn registration_flow_submits_and_reports() {
    let mut page = Page::Register(register::RegisterState::default());
    update(
        &mut page,
        Message::Page(PageMessage::Register(register::Message::EmailChanged(
            "new@example.edu".to_string(),
        ))),
    );
    update(
        &mut page,
        Message::Page(PageMessage::Register(register::Message::PasswordChanged(
            "pw".to_string(),
        ))),
    );
    update(
        &mut page,
        Message::Page(PageMessage::Register(register::Message::NameChanged(
            "New Student".to_string(),
        ))),
    );
    let a = update(
        &mut page,
        Message::Page(PageMessage::Register(register::Message::RegisterClicked)),
    );
    match a {
        Action::SubmitRegister { email, password, name } => {
            assert_eq!(email, "new@example.edu");
            assert_eq!(password, "pw");
            assert_eq!(name, "New Student");
        }
        _ => panic!("expected a registration submission"),
    }
    update(
        &mut page,
        Message::Page(PageMessage::Register(register::Message::RegisterResult(
            Ok(false),
        ))),
    );
    match &page {
        Page::Register(st) => {
            assert_eq!(st.register_status.as_deref(), Some("Failed to register."))
        }
        Page::Login(_) => panic!("expected the registration page"),
    }
}

#[test]
fn messages_for_the_other_page_change_nothing() {
    let mut page = Page::Login(login::LoginState::default());
    let a = update(
        &mut page,
        Message::Page(PageMessage::Register(register::Message::EmailChanged(
            "x@example.edu".to_string(),
        ))),
    );
    assert!(matches!(a, Action::Idle));
    match &page {
        Page::Login(st) => assert_eq!(st.email, ""),
        Page::Register(_) => panic!("expected the login page"),
    }
}
