use vstd::prelude::*;
use crate::hash::{argon2_verdict, hash, verify, HashError, SESSION_LEN};
use crate::messages::{LoginRequest, LoginResponse};
use crate::records::{session_view, Account};

verus! {

/// Failed login attempts allowed on one connection.
pub const MAX_ATTEMPTS: u32 = 3;

/// The store operation that one login attempt asks for.
#[derive(Debug)]
pub enum StoreRequest {
    /// Create an account with this name and password hash.
    Create { username: String, password_hash: String },
    /// Look up the account of this name.
    Fetch { username: String },
}

/// The outcome of one login attempt.
#[derive(Debug)]
pub enum Verdict {
    /// The attempt succeeded for this account.
    Admitted(Account),
    /// The attempt failed; `retry` tells whether another one is allowed.
    Rejected { retry: bool },
}

/// Whether `req` logs in to `stored`, the account the store created or found:
/// a created account is accepted; a session resume needs the stored token, not
/// empty, equal to the password field; a password login needs the Argon2 check.
/// `None` where the stored hash cannot be checked.
pub open spec fn login_verdict(req: LoginRequest, stored: Account) -> Option<bool> {
    if req.register {
        Some(true)
    } else if req.session {
        Some(
            match session_view(stored.session) {
                Some(t) => t.len() > 0 && t == req.password@,
                None => false,
            },
        )
    } else {
        argon2_verdict(req.password@, stored.password_hash@)
    }
}

/// The store operation of a login attempt: a new account with the hashed
/// password where the client registers, else a lookup by name.
pub fn store_request(req: &LoginRequest) -> (r: Result<StoreRequest, HashError>)
    ensures
        !req.register ==> (r matches Ok(StoreRequest::Fetch { username }) && username@ == req.username@),
        req.register ==> (r is Ok ==> (r matches Ok(StoreRequest::Create { username, password_hash })
            && username@ == req.username@ && argon2_verdict(req.password@, password_hash@) == Some(true))),
{
    if req.register {
        match hash(req.password.as_str()) {
            Ok(h) => Ok(StoreRequest::Create { username: req.username.clone(), password_hash: h }),
            Err(e) => Err(e),
        }
    } else {
        Ok(StoreRequest::Fetch { username: req.username.clone() })
    }
}

/// Decides whether `req` logs in to `stored`.
pub fn credentials_accepted(req: &LoginRequest, stored: &Account) -> (r: Result<bool, HashError>)
    ensures
        r is Ok <==> login_verdict(*req, *stored) is Some,
        r matches Ok(b) ==> login_verdict(*req, *stored) == Some(b),
{
    if req.register {
        Ok(true)
    } else if req.session {
        match &stored.session {
            Some(t) => Ok(!t.as_str().is_empty() && req.password == *t),
            None => Ok(false),
        }
    } else {
        verify(req.password.as_str(), stored.password_hash.as_str())
    }
}

/// The retry state of one connection's login exchange.
#[derive(Debug)]
pub struct Handshake {
    /// Failed attempts so far.
    pub tries: u32,
}

impl Handshake {
    /// A login exchange with no attempt yet.
    pub fn new() -> (r: Handshake)
        ensures
            r.tries == 0,
    {
        Handshake { tries: 0 }
    }

    /// Judges one attempt, given the account that the store created or found for
    /// it (`None` where the store failed). A failure counts against the bound; the
    /// third one allows no retry. An error where a stored hash cannot be checked.
    pub fn conclude(&mut self, req: &LoginRequest, stored: Option<Account>) -> (r: Result<Verdict, HashError>)
        requires
            old(self).tries < MAX_ATTEMPTS,
        ensures
            match stored {
                None => {
                    &&& r matches Ok(Verdict::Rejected { retry })
                    &&& final(self).tries == old(self).tries + 1
                    &&& retry == (final(self).tries < MAX_ATTEMPTS)
                },
                Some(acc) => match login_verdict(*req, acc) {
                    None => r is Err && final(self).tries == old(self).tries,
                    Some(true) => {
                        &&& r matches Ok(Verdict::Admitted(a))
                        &&& a == acc
                        &&& final(self).tries == old(self).tries
                    },
                    Some(false) => {
                        &&& r matches Ok(Verdict::Rejected { retry })
                        &&& final(self).tries == old(self).tries + 1
                        &&& retry == (final(self).tries < MAX_ATTEMPTS)
                    },
                },
            },
    {
        let accepted = match &stored {
            Some(acc) => match credentials_accepted(req, acc) {
                Ok(b) => b,
                Err(e) => return Err(e),
            },
            None => false,
        };
        Ok(self.settle(stored, accepted))
    }

    /// Settles one attempt once its credentials are judged: the account is admitted
    /// where the store had one and the credentials were accepted; otherwise the
    /// failure counts, and another attempt is allowed below the bound.
    pub fn settle(&mut self, stored: Option<Account>, accepted: bool) -> (r: Verdict)
        requires
            old(self).tries < MAX_ATTEMPTS,
        ensures
            (stored is Some && accepted) ==> (r matches Verdict::Admitted(a) && stored == Some(a)
                && final(self).tries == old(self).tries),
            !(stored is Some && accepted) ==> (r matches Verdict::Rejected { retry }
                && final(self).tries == old(self).tries + 1 && retry == (final(self).tries < MAX_ATTEMPTS)),
    {
        match stored {
            Some(acc) => {
                if accepted {
                    return Verdict::Admitted(acc);
                }
            },
            None => {},
        }
        self.tries = self.tries + 1;
        Verdict::Rejected { retry: self.tries < MAX_ATTEMPTS }
    }
}

/// Puts a freshly issued token on the account and builds the successful login answer.
pub fn start_session(account: &mut Account, token: String) -> (r: LoginResponse)
    ensures
        session_view(final(account).session) == Some(token@),
        final(account).id == old(account).id,
        final(account).username == old(account).username,
        final(account).password_hash == old(account).password_hash,
        r.success,
        session_view(r.username) == Some(old(account).username@),
        session_view(r.session) == Some(token@),
{
    account.session = Some(token);
    LoginResponse::for_account(account)
}

/// Resuming a session: once a token is on the account, a resume request is
/// accepted exactly when its password field is that token, with no hash check.
pub proof fn lemma_session_resume(account: Account, token: Seq<char>, req: LoginRequest)
    requires
        session_view(account.session) == Some(token),
        token.len() == SESSION_LEN,
        req.session,
        !req.register,
    ensures
        login_verdict(req, account) == Some(req.password@ == token),
{
}

/// A session resume against an account that holds no token is refused, with no hash check.
pub proof fn lemma_resume_without_token(account: Account, req: LoginRequest)
    requires
        account.session is None,
        req.session,
        !req.register,
    ensures
        login_verdict(req, account) == Some(false),
{
}

} // verus!
