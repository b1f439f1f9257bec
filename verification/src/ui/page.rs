use vstd::prelude::*;

use crate::ui::login;
use crate::ui::register;

verus! {

/// An event addressed to whichever page is current.
#[derive(Debug)]
pub enum PageMessage {
    Login(login::Message),
    Register(register::Message),
}

/// The pages the application can show, each carrying its own state.
#[derive(Debug)]
pub enum Page {
    Login(login::LoginState),
    Register(register::RegisterState),
}

} // verus!
