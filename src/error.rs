use vstd::prelude::*;

verus! {

/// Errors of the relay protocol. `LoggedOut` marks a voluntary logout, which
/// ends the connection like the others.
#[derive(Debug, Clone, Copy, PartialEq, Eq, Structural)]
pub enum ProtocolError {
    LoginRequired,
    InvalidCredentials,
    LoggedOut,
    InvalidDataType,
}

/// The human-readable reason of each error.
pub open spec fn reason_of(e: ProtocolError) -> Seq<char> {
    match e {
        ProtocolError::LoginRequired => "Login required"@,
        ProtocolError::InvalidCredentials => "Invalid credentials"@,
        ProtocolError::LoggedOut => "Logged out"@,
        ProtocolError::InvalidDataType => "Invalid data type in request"@,
    }
}

impl ProtocolError {
    /// The reason, as shown when a connection is closed with this error.
    pub fn message(&self) -> (r: String)
        ensures
            r@ == reason_of(*self),
    {
        let s = match self {
            ProtocolError::LoginRequired => "Login required",
            ProtocolError::InvalidCredentials => "Invalid credentials",
            ProtocolError::LoggedOut => "Logged out",
            ProtocolError::InvalidDataType => "Invalid data type in request",
        };
        s.to_owned()
    }
}

} // verus!
