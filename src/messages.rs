use vstd::prelude::*;
use crate::records::{Account, session_view};

verus! {

/// The credentials a client sends to log in, register or resume a session.
#[derive(Debug)]
pub struct LoginRequest {
    pub username: String,
    pub password: String,
    pub session: bool,
    pub register: bool,
}

/// The answer to a login attempt and to the `account` command.
#[derive(Debug)]
pub struct LoginResponse {
    pub success: bool,
    pub username: Option<String>,
    pub session: Option<String>,
}

impl LoginResponse {
    /// The answer to a failed login attempt: no name, no token.
    pub fn failure() -> (r: LoginResponse)
        ensures
            !r.success,
            r.username.is_none(),
            r.session.is_none(),
    {
        LoginResponse { success: false, username: None, session: None }
    }

    /// The successful answer that shows an account: its name and its current token.
    pub fn for_account(account: &Account) -> (r: LoginResponse)
        ensures
            r.success,
            session_view(r.username) == Some(account.username@),
            session_view(r.session) == session_view(account.session),
    {
        LoginResponse {
            success: true,
            username: Some(account.username.clone()),
            session: account.session_copy(),
        }
    }
}

} // verus!
