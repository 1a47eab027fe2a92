use vstd::prelude::*;
use crate::connection::ConnectionData;
use crate::error::ProtocolError;
use crate::messages::LoginResponse;
use crate::records::session_view;

verus! {

/// The control commands a logged-in client can send; any other type is ignored.
#[derive(Debug, Clone, Copy, PartialEq, Eq, Structural)]
pub enum Command {
    Account,
    Logout,
    Frequency,
    Position,
    Ignored,
}

/// A control request `{commandId, type, payload}` as the dispatcher reads it.
#[derive(Debug)]
pub struct DirectRequest {
    pub command_id: usize,
    /// The request's `type` field.
    pub kind: String,
    /// The payload read as a non-negative integer, where it is one.
    pub number: Option<u64>,
}

/// An inbound message, as classified by the transport.
#[derive(Debug)]
pub enum Inbound {
    Text(DirectRequest),
    Binary,
    Other,
}

/// What the connection driver does after one inbound message.
#[derive(Debug)]
pub enum Directive {
    /// Nothing more to do for this message.
    Continue,
    /// Send `response` to this connection, prefixed by `command_id`.
    Reply { command_id: usize, response: LoginResponse },
    /// Clear the stored session token of `account_id`, then end the connection normally.
    Logout { account_id: i32 },
    /// Read the payload as a position and store it; end the connection if it is not one.
    UpdatePosition,
    /// Send the binary payload, unchanged, to each of `recipients`.
    Relay { recipients: Vec<u32> },
    /// End the connection with this error.
    Fail(ProtocolError),
}

/// The command that a request type names.
pub open spec fn command_of(kind: Seq<char>) -> Command {
    if kind == "account"@ {
        Command::Account
    } else if kind == "logout"@ {
        Command::Logout
    } else if kind == "frequency"@ {
        Command::Frequency
    } else if kind == "position"@ {
        Command::Position
    } else {
        Command::Ignored
    }
}

/// The ids of `live`, in order, that are in `audience`.
pub open spec fn relay_targets(audience: Seq<u32>, live: Seq<u32>) -> Seq<u32>
    decreases live.len(),
{
    if live.len() == 0 {
        Seq::empty()
    } else {
        let rest = relay_targets(audience, live.drop_last());
        if audience.contains(live.last()) {
            rest.push(live.last())
        } else {
            rest
        }
    }
}

/// The largest frequency.
pub const MAX_FREQUENCY: u64 = 255;

/// Reads the command that a request type names.
pub fn parse_command(kind: &String) -> (r: Command)
    ensures
        r == command_of(kind@),
{
    if *kind == "account".to_owned() {
        Command::Account
    } else if *kind == "logout".to_owned() {
        Command::Logout
    } else if *kind == "frequency".to_owned() {
        Command::Frequency
    } else if *kind == "position".to_owned() {
        Command::Position
    } else {
        Command::Ignored
    }
}

fn contains_id(ids: &Vec<u32>, x: u32) -> (r: bool)
    ensures
        r == ids@.contains(x),
{
    let mut i: usize = 0;
    while i < ids.len()
        invariant
            i <= ids@.len(),
            forall|k: int| 0 <= k < i ==> ids@[k] != x,
        decreases ids@.len() - i,
    {
        if ids[i] == x {
            return true;
        }
        i = i + 1;
    }
    false
}

/// The registered connections, in registry order, that a binary payload goes to:
/// those of `live` that are in the cached `audience`.
pub fn relay_recipients(audience: &Vec<u32>, live: &Vec<u32>) -> (r: Vec<u32>)
    ensures
        r@ == relay_targets(audience@, live@),
{
    let mut out: Vec<u32> = Vec::new();
    let mut i: usize = 0;
    while i < live.len()
        invariant
            i <= live@.len(),
            out@ == relay_targets(audience@, live@.take(i as int)),
        decreases live@.len() - i,
    {
        proof {
            assert(live@.take(i + 1).drop_last() =~= live@.take(i as int));
        }
        if contains_id(audience, live[i]) {
            out.push(live[i]);
        }
        i = i + 1;
    }
    proof {
        assert(live@.take(live@.len() as int) =~= live@);
    }
    out
}

/// The reply to the `account` command: the account's name and current session token.
pub fn account(conn: &ConnectionData) -> (r: LoginResponse)
    ensures
        r.success,
        session_view(r.username) == Some(conn.account.username@),
        session_view(r.session) == session_view(conn.account.session),
{
    LoginResponse::for_account(&conn.account)
}

/// Forgets the session token of the connection's account and returns the
/// account id whose stored token must be cleared too.
pub fn logout(conn: &mut ConnectionData) -> (r: i32)
    ensures
        r == old(conn).account.id,
        final(conn).account.session is None,
        final(conn).account.id == old(conn).account.id,
        final(conn).account.username == old(conn).account.username,
        final(conn).account.password_hash == old(conn).account.password_hash,
        final(conn).id == old(conn).id,
        final(conn).frequency == old(conn).frequency,
        final(conn).room == old(conn).room,
        final(conn).broadcast == old(conn).broadcast,
{
    conn.account.session = None;
    conn.account.id
}

/// Sets the frequency from a request payload: it must be an integer from 0 to 255.
pub fn set_frequency(conn: &mut ConnectionData, payload: Option<u64>) -> (r: Result<(), ProtocolError>)
    ensures
        r is Ok <==> (payload matches Some(n) && n <= MAX_FREQUENCY),
        r is Ok ==> final(conn).frequency as u64 == payload->Some_0,
        r is Err ==> r == Err::<(), ProtocolError>(ProtocolError::InvalidDataType),
        r is Err ==> final(conn).frequency == old(conn).frequency,
        final(conn).id == old(conn).id,
        final(conn).account == old(conn).account,
        final(conn).room == old(conn).room,
        final(conn).broadcast == old(conn).broadcast,
{
    match payload {
        Some(n) => {
            if n > MAX_FREQUENCY {
                Err(ProtocolError::InvalidDataType)
            } else {
                conn.frequency = n as u8;
                Ok(())
            }
        },
        None => Err(ProtocolError::InvalidDataType),
    }
}

/// The connection's fields other than the frequency and the account's session are unchanged.
pub open spec fn same_fields(a: ConnectionData, b: ConnectionData) -> bool {
    &&& a.id == b.id
    &&& a.room == b.room
    &&& a.broadcast == b.broadcast
    &&& a.account.id == b.account.id
    &&& a.account.username == b.account.username
    &&& a.account.password_hash == b.account.password_hash
}

/// Handles one inbound message of a logged-in connection; `live` holds the ids
/// registered right now, in registry order.
pub fn direct_request(conn: &mut ConnectionData, message: &Inbound, live: &Vec<u32>) -> (r: Directive)
    ensures
        same_fields(*final(conn), *old(conn)),
        match message {
            Inbound::Text(req) => match command_of(req.kind@) {
                Command::Account => {
                    &&& r matches Directive::Reply { command_id, response }
                    &&& command_id == req.command_id
                    &&& response.success
                    &&& session_view(response.username) == Some(old(conn).account.username@)
                    &&& session_view(response.session) == session_view(old(conn).account.session)
                    &&& *final(conn) == *old(conn)
                },
                Command::Logout => {
                    &&& r matches Directive::Logout { account_id }
                    &&& account_id == old(conn).account.id
                    &&& final(conn).account.session is None
                    &&& final(conn).frequency == old(conn).frequency
                },
                Command::Frequency => match req.number {
                    Some(n) if n <= MAX_FREQUENCY => {
                        &&& r is Continue
                        &&& final(conn).frequency as u64 == n
                        &&& final(conn).account == old(conn).account
                    },
                    _ => {
                        &&& r matches Directive::Fail(e)
                        &&& e == ProtocolError::InvalidDataType
                        &&& *final(conn) == *old(conn)
                    },
                },
                Command::Position => r is UpdatePosition && *final(conn) == *old(conn),
                Command::Ignored => r is Continue && *final(conn) == *old(conn),
            },
            Inbound::Binary => {
                &&& r matches Directive::Relay { recipients }
                &&& recipients@ == relay_targets(old(conn).broadcast@, live@)
                &&& *final(conn) == *old(conn)
            },
            Inbound::Other => r is Continue && *final(conn) == *old(conn),
        },
{
    match message {
        Inbound::Text(req) => match parse_command(&req.kind) {
            Command::Account => Directive::Reply { command_id: req.command_id, response: account(conn) },
            Command::Logout => Directive::Logout { account_id: logout(conn) },
            Command::Frequency => match set_frequency(conn, req.number) {
                Ok(()) => Directive::Continue,
                Err(e) => Directive::Fail(e),
            },
            Command::Position => Directive::UpdatePosition,
            Command::Ignored => Directive::Continue,
        },
        Inbound::Binary => Directive::Relay { recipients: relay_recipients(&conn.broadcast, live) },
        Inbound::Other => Directive::Continue,
    }
}

} // verus!
