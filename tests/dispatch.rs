use proximity_relay::connection::ConnectionData;
use proximity_relay::dispatch::{
    account, direct_request, logout, parse_command, relay_recipients, set_frequency, Command,
    Directive, DirectRequest, Inbound,
};
use proximity_relay::error::ProtocolError;
use proximity_relay::records::Account;
use proximity_relay::text::command_reply;

fn connection() -> ConnectionData {
    let acc = Account {
        id: 12,
        username: "alice".to_string(),
        password_hash: "h".to_string(),
        session: Some("tok".to_string()),
    };
    ConnectionData::new(3, acc)
}

fn text(command_id: usize, kind: &str, number: Option<u64>) -> Inbound {
    Inbound::Text(DirectRequest { command_id, kind: kind.to_string(), number })
}

#[test]
fn error_messages() {
    assert_eq!(ProtocolError::LoginRequired.message(), "Login required");
    assert_eq!(ProtocolError::InvalidCredentials.message(), "Invalid credentials");
    assert_eq!(ProtocolError::LoggedOut.message(), "Logged out");
    assert_eq!(ProtocolError::InvalidDataType.message(), "Invalid data type in request");
}

#[test]
fn command_names() {
    assert_eq!(parse_command(&"account".to_string()), Command::Account);
    assert_eq!(parse_command(&"logout".to_string()), Command::Logout);
    assert_eq!(parse_command(&"frequency".to_string()), Command::Frequency);
    assert_eq!(parse_command(&"position".to_string()), Command::Position);
    assert_eq!(parse_command(&"Account".to_string()), Command::Ignored);
    assert_eq!(parse_command(&"".to_string()), Command::Ignored);
}

#[test]
fn frequency_255_is_accepted() {
    let mut c = connection();
    assert_eq!(set_frequency(&mut c, Some(255)), Ok(()));
    assert_eq!(c.frequency, 255);
    assert_eq!(set_frequency(&mut c, Some(0)), Ok(()));
    assert_eq!(c.frequency, 0);
}

#[test]
fn frequency_256_is_rejected() {
    let mut c = connection();
    c.frequency = 9;
    assert_eq!(set_frequency(&mut c, Some(256)), Err(ProtocolError::InvalidDataType));
    assert_eq!(set_frequency(&mut c, Some(u64::MAX)), Err(ProtocolError::InvalidDataType));
    assert_eq!(set_frequency(&mut c, None), Err(ProtocolError::InvalidDataType));
    assert_eq!(c.frequency, 9);
}

#[test]
fn dispatch_frequency_failure_ends_connection() {
    let mut c = connection();
    match direct_request(&mut c, &text(1, "frequency", Some(256)), &vec![]) {
        Directive::Fail(e) => assert_eq!(e, ProtocolError::InvalidDataType),
        other => panic!("unexpected {:?}", other),
    }
    assert!(matches!(direct_request(&mut c, &text(2, "frequency", Some(255)), &vec![]), Directive::Continue));
    assert_eq!(c.frequency, 255);
}

#[test]
fn dispatch_account_reply() {
    let mut c = connection();
    match direct_request(&mut c, &text(7, "account", None), &vec![]) {
        Directive::Reply { command_id, response } => {
            assert_eq!(command_id, 7);
            assert!(response.success);
            assert_eq!(response.username.as_deref(), Some("alice"));
            assert_eq!(response.session.as_deref(), Some("tok"));
        }
        other => panic!("unexpected {:?}", other),
    }
    let r = account(&c);
    assert_eq!(r.username.as_deref(), Some("alice"));
}

#[test]
fn dispatch_logout_clears_token() {
    let mut c = connection();
    match direct_request(&mut c, &text(1, "logout", None), &vec![]) {
        Directive::Logout { account_id } => assert_eq!(account_id, 12),
        other => panic!("unexpected {:?}", other),
    }
    assert_eq!(c.account.session, None);
    let mut d = connection();
    assert_eq!(logout(&mut d), 12);
    assert_eq!(d.account.session, None);
    assert_eq!(d.account.username, "alice");
}

#[test]
fn dispatch_position_and_unknown() {
    let mut c = connection();
    assert!(matches!(direct_request(&mut c, &text(1, "position", None), &vec![]), Directive::UpdatePosition));
    assert!(matches!(direct_request(&mut c, &text(1, "dance", Some(3)), &vec![]), Directive::Continue));
    assert!(matches!(direct_request(&mut c, &Inbound::Other, &vec![]), Directive::Continue));
    assert_eq!(c.frequency, 0);
    assert_eq!(c.account.session.as_deref(), Some("tok"));
}

#[test]
fn dispatch_binary_relays_to_live_audience() {
    let mut c = connection();
    c.broadcast = vec![5, 9, 4];
    match direct_request(&mut c, &Inbound::Binary, &vec![1, 3, 4, 5, 6]) {
        Directive::Relay { recipients } => assert_eq!(recipients, vec![4, 5]),
        other => panic!("unexpected {:?}", other),
    }
}

#[test]
fn relay_skips_departed_peers() {
    assert_eq!(relay_recipients(&vec![2, 3], &vec![3, 1]), vec![3]);
    assert!(relay_recipients(&vec![], &vec![1, 2]).is_empty());
    assert!(relay_recipients(&vec![1, 2], &vec![]).is_empty());
}

#[test]
fn numbered_replies() {
    assert_eq!(command_reply(7, "{\"success\":true}"), "7 {\"success\":true}");
    assert_eq!(command_reply(0, ""), "0 ");
    assert_eq!(command_reply(1204, "x"), "1204 x");
    assert_eq!(command_reply(usize::MAX, "y"), format!("{} y", usize::MAX));
}
