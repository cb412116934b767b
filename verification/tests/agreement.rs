use pyielink::accounts::HostState;
use pyielink::client::{hello_text, ClientAction, ClientEvent, ClientLogin};
use pyielink::client_session::{ClientLoop, FrameAction, LineAction};
use pyielink::creds::{add_user_with_salt, hash_password};
use pyielink::host::{
    mark_licensed, store_token, HostAction, HostEvent, Login, Refusal, Scheme,
};
use pyielink::host_session::{Channel, DenyReason, SessionAction, SessionLoop};
use pyielink::proto::{
    AUTH_FAIL, AUTH_OK, CHALLENGE, EXEC_END, EXEC_REQ, HELLO, PING, PONG, TOKEN_ISSUED,
};
use pyielink::throttle::{PeerIp, Throttle};
use pyielink::token::hash_token;

const PEER: PeerIp = PeerIp::V4(0x7F00_0001);

fn key() -> String {
    "0123456789abcdef".repeat(4)
}

fn fresh_host() -> HostState {
    let mut state = HostState { enabled: true, ..HostState::default() };
    add_user_with_salt(&mut state, "bob", "admin", "pw", "aabbccdd".to_string()).unwrap();
    state
}

/// How a login ended on the client's side.
struct Ended {
    /// The data port and the session key, or the client's error.
    result: Result<(String, String), String>,
    /// What the client has stored, and how often it was asked for a password.
    stored: Option<String>,
    asked: usize,
}

/// Lets a host and a client talk until both are done. The client types the
/// passwords in turn.
fn talk(host: &mut HostState, stored: Option<String>, passwords: &[&str], accept: bool) -> Ended {
    let mut throttle = Throttle::new();
    let (mut login, _) = Login::open(Scheme::DataLayer, PEER, &throttle, 0);
    let mut client = ClientLogin::start(true, true, true, "bob".into(), "127.0.0.1".into());
    let mut end = Ended { result: Err(String::new()), stored, asked: 0 };
    let mut to_host = Some((HELLO, hello_text("bob", "0.7.0")));
    loop {
        // the host's turn: what it sends to the client
        let (msg, text) = to_host.take().expect("the client has something to say");
        let mut frames: Vec<(u8, String)> = Vec::new();
        let mut action =
            login.handle_frame(&mut throttle, host, 0, msg, text.as_bytes(), "LICENSE");
        loop {
            let event = match action {
                HostAction::Ask { msg, text } => {
                    frames.push((msg, text));
                    break;
                }
                HostAction::SaveLicensed => {
                    mark_licensed(host, "bob");
                    HostEvent::Saved(true)
                }
                HostAction::SaveToken { token } => {
                    store_token(host, "bob", &token);
                    HostEvent::Saved(true)
                }
                HostAction::SendToken { token } => {
                    frames.push((TOKEN_ISSUED, token));
                    HostEvent::Sent(true)
                }
                HostAction::Promote { admin } => {
                    assert!(admin);
                    HostEvent::Spawned { port: 4243, key: "0123456789abcdef0123456789abcdef0123456789abcdef0123456789abcdef" }
                }
                HostAction::Welcome { ticket } => {
                    frames.push((AUTH_OK, ticket));
                    break;
                }
                HostAction::Refuse(r) | HostAction::DrainAndRefuse(r) => {
                    frames.push((AUTH_FAIL, r.text().to_string()));
                    break;
                }
                _ => break,
            };
            action = login.handle(&mut throttle, host, 0, event, "LICENSE");
        }
        // the client's turn
        for (msg, text) in frames {
            let mut action = client.step_frame(msg, text.as_bytes()).unwrap();
            loop {
                let event = match action {
                    ClientAction::Read => break,
                    ClientAction::Send { msg, text } => {
                        to_host = Some((msg, text));
                        break;
                    }
                    ClientAction::LoadToken => ClientEvent::Token(end.stored.clone()),
                    ClientAction::AskPassword => {
                        end.asked += 1;
                        ClientEvent::Password(passwords[end.asked - 1].to_string())
                    }
                    ClientAction::ShowLicense { text } => {
                        assert_eq!(text, "LICENSE");
                        ClientEvent::License(accept)
                    }
                    ClientAction::StoreToken { token } => {
                        end.stored = Some(token);
                        ClientEvent::Stored(None)
                    }
                    ClientAction::Promoted { port, key } => {
                        end.result = Ok((port, key));
                        return end;
                    }
                    ClientAction::Fail { reason } => {
                        end.result = Err(reason);
                        return end;
                    }
                    ClientAction::SendAndFail { reason, .. } => {
                        end.result = Err(reason);
                        return end;
                    }
                };
                action = client.step(event);
            }
        }
    }
}

#[test]
fn password_login_ends_with_a_ticket_and_a_token() {
    let mut host = fresh_host();
    let end = talk(&mut host, None, &["pw"], true);
    assert_eq!(end.result, Ok(("4243".to_string(), key())));
    assert_eq!(end.asked, 1);
    // both sides keep the same hash
    assert_eq!(end.stored.as_deref(), Some(host.users.get("bob").unwrap().token_hash.as_str()));
    assert!(host.users.get("bob").unwrap().licensed);
    // and the next login needs no password
    let again = talk(&mut host, end.stored.clone(), &[], true);
    assert_eq!(again.result, Ok(("4243".to_string(), key())));
    assert_eq!(again.asked, 0);
    assert_eq!(again.stored, end.stored);
}

#[test]
fn stale_token_falls_back_to_the_password() {
    let mut host = fresh_host();
    store_token(&mut host, "bob", "current");
    let end = talk(&mut host, Some(hash_token("older")), &["pw"], true);
    assert!(end.result.is_ok());
    assert_eq!(end.asked, 1);
    assert_ne!(end.stored, Some(hash_token("older")));
}

#[test]
fn wrong_passwords_end_the_login() {
    let mut host = fresh_host();
    let before = host.users.get("bob").unwrap().token_hash.clone();
    let end = talk(&mut host, None, &["a", "b", "c"], true);
    assert_eq!(end.asked, 3);
    assert!(end.result.unwrap_err().contains(Refusal::AuthFailed.text()));
    assert_eq!(host.users.get("bob").unwrap().token_hash, before);
    assert_eq!(host.users.get("bob").unwrap().pw_hash, hash_password("aabbccdd", "pw"));
}

#[test]
fn refused_license_ends_the_login() {
    let mut host = fresh_host();
    let end = talk(&mut host, None, &["pw"], false);
    assert!(end.result.is_err());
    assert!(!host.users.get("bob").unwrap().licensed);
    assert_eq!(end.stored, None);
}

#[test]
fn frames_with_invalid_bytes_are_read_as_text() {
    let mut client = ClientLogin::start(true, true, true, "bob".into(), "127.0.0.1".into());
    match client.step_frame(AUTH_FAIL, b"no\xff way ") {
        Some(ClientAction::Fail { reason }) => assert_eq!(reason, "host refused: no\u{fffd} way"),
        _ => panic!("the login must fail"),
    }
    let host = fresh_host();
    let mut throttle = Throttle::new();
    let (mut login, _) = Login::open(Scheme::DataLayer, PEER, &throttle, 0);
    let a = login.handle_frame(&mut throttle, &host, 0, HELLO, b"b\xffb\n1\n", "LICENSE");
    assert!(matches!(a, HostAction::Refuse(Refusal::UnknownUser)));
}

fn client_loop(channel: Channel) -> ClientLoop {
    ClientLoop::start(channel, false, true, true, 0)
}

#[test]
fn heartbeats_come_back() {
    let mut client = client_loop(Channel::Heartbeat);
    let mut host = SessionLoop::start(Channel::Heartbeat, false, 0);
    match client.on_frame(PING, b"1700000000123".to_vec(), 5) {
        FrameAction::Answer { payload, sent } => {
            assert_eq!(sent, Some(1_700_000_000_123));
            match host.on_frame(PONG, payload, 9) {
                SessionAction::Touch { sent } => assert_eq!(sent, Some(1_700_000_000_123)),
                _ => panic!("the host takes the answer"),
            }
        }
        _ => panic!("the client answers"),
    }
    assert_eq!((client.last_ping, host.last_pong), (5, 9));
}

#[test]
fn typed_commands_reach_the_host() {
    for (admin, line, command, elevated) in [
        (false, "  echo hé \n", "echo hé", false),
        (true, "sudo  ls -l", "ls -l", true),
        (true, "ls", "ls", false),
    ] {
        let mut client = client_loop(Channel::Terminal);
        let mut host = SessionLoop::start(Channel::Terminal, admin, 0);
        let LineAction::Exec { payload } = client.on_line(line) else {
            panic!("the line is a command");
        };
        match host.on_frame(EXEC_REQ, payload, 1) {
            SessionAction::Run { command: c, elevated: e } => {
                assert_eq!((c.as_str(), e), (command, elevated))
            }
            _ => panic!("the command runs"),
        }
        let text = host.on_command_end(Some(-7));
        match client.on_frame(EXEC_END, text.into_bytes(), 2) {
            FrameAction::Exit { code } => assert_eq!(code, "-7"),
            _ => panic!("the command has ended"),
        }
        assert!(!client.awaiting && !host.busy);
    }
    let mut client = client_loop(Channel::Terminal);
    let mut host = SessionLoop::start(Channel::Terminal, false, 0);
    let LineAction::Exec { payload } = client.on_line("sudo ls") else {
        panic!("the line is a command");
    };
    let denied = host.on_frame(EXEC_REQ, payload, 1);
    assert!(matches!(denied, SessionAction::Deny(DenyReason::NotAdmin)));
}

#[test]
fn challenges_are_fresh() {
    let host = fresh_host();
    let mut throttle = Throttle::new();
    let (mut login, _) = Login::open(Scheme::DataLayer, PEER, &throttle, 0);
    let mut seen: Vec<String> = Vec::new();
    let mut frame = (HELLO, b"bob\n0.7.0\n".to_vec());
    for _ in 0..3 {
        match login.handle_frame(&mut throttle, &host, 0, frame.0, &frame.1, "") {
            HostAction::Ask { msg, text } => {
                assert_eq!(msg, CHALLENGE);
                assert_eq!(text, format!("aabbccdd\n{}", login.nonce));
                assert!(!seen.contains(&text));
                seen.push(text);
            }
            _ => panic!("the host asks"),
        }
        frame = (pyielink::proto::PROOF, format!("p:{}", "0".repeat(64)).into_bytes());
    }
}
