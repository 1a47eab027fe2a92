use vstd::prelude::*;

verus! {

/// An account as kept by the store and mirrored for the lifetime of a connection.
#[derive(Debug)]
pub struct Account {
    pub id: i32,
    pub username: String,
    pub password_hash: String,
    pub session: Option<String>,
}

/// A room record of the store.
#[derive(Debug)]
pub struct Room {
    pub id: i32,
    pub name: String,
    pub description: String,
    pub password_hash: String,
    pub creator: i32,
}

/// The session token of an account, as characters.
pub open spec fn session_view(s: Option<String>) -> Option<Seq<char>> {
    match s {
        Some(t) => Some(t@),
        None => None,
    }
}

impl Account {
    /// Copies an optional session token.
    pub fn session_copy(&self) -> (r: Option<String>)
        ensures
            session_view(r) == session_view(self.session),
    {
        match &self.session {
            Some(t) => Some(t.clone()),
            None => None,
        }
    }
}

} // verus!
