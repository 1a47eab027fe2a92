use proximity_relay::handshake::{
    credentials_accepted, start_session, store_request, Handshake, StoreRequest, Verdict,
};
use proximity_relay::hash::{hash, random_session, session_char, session_from_draws, verify, ALPHABET_LEN, SESSION_LEN};
use proximity_relay::messages::{LoginRequest, LoginResponse};
use proximity_relay::records::Account;

fn request(username: &str, password: &str, session: bool, register: bool) -> LoginRequest {
    LoginRequest { username: username.to_string(), password: password.to_string(), session, register }
}

fn stored(session: Option<&str>, password_hash: &str) -> Account {
    Account {
        id: 5,
        username: "bob".to_string(),
        password_hash: password_hash.to_string(),
        session: session.map(|s| s.to_string()),
    }
}

#[test]
fn session_alphabet() {
    assert_eq!(session_char(0), 'a');
    assert_eq!(session_char(25), 'z');
    assert_eq!(session_char(26), 'A');
    assert_eq!(session_char(51), 'Z');
    assert_eq!(session_char(52), '0');
    assert_eq!(session_char(61), '9');
}

#[test]
fn session_tokens() {
    let a = random_session();
    let b = random_session();
    assert_eq!(SESSION_LEN, 128);
    assert_eq!(a.chars().count(), 128);
    assert!(a.chars().all(|c| c.is_ascii_alphanumeric()));
    assert_ne!(a, b);
}

#[test]
fn hash_then_verify() {
    let h = hash("hunter2").unwrap();
    assert_ne!(h, "hunter2");
    assert_eq!(verify("hunter2", &h), Ok(true));
    assert_eq!(verify("hunter3", &h), Ok(false));
    assert!(verify("hunter2", "not a hash").is_err());
}

#[test]
fn login_responses() {
    let f = LoginResponse::failure();
    assert!(!f.success && f.username.is_none() && f.session.is_none());
    let r = LoginResponse::for_account(&stored(Some("t"), "h"));
    assert!(r.success);
    assert_eq!(r.username.as_deref(), Some("bob"));
    assert_eq!(r.session.as_deref(), Some("t"));
}

#[test]
fn store_requests() {
    match store_request(&request("bob", "pw", false, false)).unwrap() {
        StoreRequest::Fetch { username } => assert_eq!(username, "bob"),
        other => panic!("unexpected {:?}", other),
    }
    match store_request(&request("bob", "pw", false, true)).unwrap() {
        StoreRequest::Create { username, password_hash } => {
            assert_eq!(username, "bob");
            assert_eq!(verify("pw", &password_hash), Ok(true));
        }
        other => panic!("unexpected {:?}", other),
    }
}

#[test]
fn session_resume_after_login() {
    let mut acc = stored(None, "unused");
    let token = random_session();
    let reply = start_session(&mut acc, token.clone());
    assert!(reply.success);
    assert_eq!(reply.session.as_deref(), Some(token.as_str()));
    assert_eq!(credentials_accepted(&request("bob", &token, true, false), &acc), Ok(true));
    assert_eq!(credentials_accepted(&request("bob", "something else", true, false), &acc), Ok(false));
    let mut h = Handshake::new();
    match h.conclude(&request("bob", &token, true, false), Some(acc)).unwrap() {
        Verdict::Admitted(a) => assert_eq!(a.username, "bob"),
        other => panic!("unexpected {:?}", other),
    }
    assert_eq!(h.tries, 0);
}

#[test]
fn session_resume_needs_a_token() {
    assert_eq!(credentials_accepted(&request("bob", "", true, false), &stored(Some(""), "x")), Ok(false));
    assert_eq!(credentials_accepted(&request("bob", "t", true, false), &stored(None, "x")), Ok(false));
}

#[test]
fn password_login() {
    let h = hash("pw").unwrap();
    let mut hs = Handshake::new();
    match hs.conclude(&request("bob", "pw", false, false), Some(stored(None, &h))).unwrap() {
        Verdict::Admitted(a) => assert_eq!(a.id, 5),
        other => panic!("unexpected {:?}", other),
    }
    assert!(hs.conclude(&request("bob", "pw", false, false), Some(stored(None, "garbage"))).is_err());
    assert_eq!(hs.tries, 0);
}

#[test]
fn register_outcomes() {
    let mut hs = Handshake::new();
    assert!(matches!(hs.conclude(&request("bob", "pw", false, true), Some(stored(None, "x"))), Ok(Verdict::Admitted(_))));
    assert!(matches!(hs.conclude(&request("bob", "pw", false, true), None), Ok(Verdict::Rejected { retry: true })));
    assert_eq!(hs.tries, 1);
}

#[test]
fn three_failures_end_the_handshake() {
    let mut hs = Handshake::new();
    let wrong = request("bob", "wrong", true, false);
    assert!(matches!(hs.conclude(&wrong, Some(stored(Some("right"), "x"))), Ok(Verdict::Rejected { retry: true })));
    assert!(matches!(hs.conclude(&wrong, None), Ok(Verdict::Rejected { retry: true })));
    assert!(matches!(hs.conclude(&wrong, Some(stored(Some("right"), "x"))), Ok(Verdict::Rejected { retry: false })));
    assert_eq!(hs.tries, 3);
}

#[test]
fn settle_outcomes() {
    let mut hs = Handshake::new();
    assert!(matches!(hs.settle(Some(stored(None, "x")), true), Verdict::Admitted(_)));
    assert_eq!(hs.tries, 0);
    assert!(matches!(hs.settle(Some(stored(None, "x")), false), Verdict::Rejected { retry: true }));
    assert!(matches!(hs.settle(None, true), Verdict::Rejected { retry: true }));
    assert!(matches!(hs.settle(None, false), Verdict::Rejected { retry: false }));
    assert_eq!(hs.tries, 3);
}

#[test]
fn alphabet_in_order() {
    let all: String = (0..ALPHABET_LEN).map(session_char).collect();
    assert_eq!(all, "abcdefghijklmnopqrstuvwxyzABCDEFGHIJKLMNOPQRSTUVWXYZ0123456789");
}

#[test]
fn token_spelled_by_draws() {
    assert_eq!(session_from_draws(&vec![0, 26, 52, 61, 25, 51]), "aA09zZ");
    assert_eq!(session_from_draws(&vec![]), "");
    let draws: Vec<usize> = (0..SESSION_LEN).map(|k| k % ALPHABET_LEN).collect();
    let token = session_from_draws(&draws);
    assert_eq!(token.len(), 128);
    assert!(token.starts_with("abc") && token.ends_with("9abcd"));
}
