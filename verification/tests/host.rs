use pyielink::accounts::HostState;
use pyielink::clock::now_ms;
use pyielink::creds::{add_user_with_salt, cmd_enable_with_flags, compute_proof, hash_password};
use pyielink::host::{
    admits, check_answer, license_text, mark_licensed, store_token, verify_password, HostAction, HostEvent,
    HostStage, Login, Refusal, Scheme, DEFAULT_LICENSE,
};
use pyielink::host_session::{
    banner_ip, can_spawn_datalayer, cannot_start, datalayer_bases, datalayer_script, handoff_name,
    handoff_text, local_ips, round_trip as heartbeat_round_trip, shell_for_exec, Channel,
    DenyReason, EndReason, OutputBudget, SessionAction, SessionLoop, EXEC_OUT_CAP, PING_INTERVAL,
    PONG_GRACE, TRUNCATED_NOTICE,
};
use pyielink::proto::{
    AUTH_TOKEN, BYE, CHALLENGE, EXEC_REQ, HELLO, LICENSE_ACCEPT, LICENSE_REJECT, LICENSE_TEXT,
    PASSWD_AUTH, PASSWD_REQ, PING, PONG, PROOF,
};
use pyielink::throttle::{PeerIp, Throttle, LOCKOUT, MAX_FAILS_PER_IP};
use pyielink::token::hash_token;

const PEER: PeerIp = PeerIp::V4(0xCB00_714D);

fn check_throttle() {
    let ip = PEER;
    let now = 1_000;
    let mut m = Throttle::new();
    m.record_success(ip);
    for _ in 0..MAX_FAILS_PER_IP {
        m.record_fail(ip, now);
    }
    assert!(m.is_locked(ip, now));
    m.record_success(ip);
    assert!(!m.is_locked(ip, now));
}

#[test]
fn throttle_locks_after_threshold() {
    // 203.0.113.77
    let ip = PeerIp::V4(u32::from_be_bytes([203, 0, 113, 77]));
    let now = 1_000;
    let mut m = Throttle::new();
    m.record_success(ip);
    for _ in 0..MAX_FAILS_PER_IP {
        m.record_fail(ip, now);
    }
    assert!(m.is_locked(ip, now));
    m.record_success(ip);
    assert!(!m.is_locked(ip, now));
}

#[test]
fn host_throttle_locks_after_threshold() {
    check_throttle();
}

#[test]
fn now_ms_sane() {
    assert!(now_ms() > 1_700_000_000_000);
}

#[test]
fn host_now_ms_sane() {
    assert!(now_ms() > 1_700_000_000_000);
}

#[test]
fn lockout_ends_after_a_minute() {
    let mut m = Throttle::new();
    for i in 0..4 {
        assert!(!m.record_fail(PEER, i));
        assert!(!m.is_locked(PEER, i));
    }
    assert!(m.record_fail(PEER, 10));
    assert!(m.is_locked(PEER, 10 + LOCKOUT - 1));
    assert!(!m.is_locked(PEER, 10 + LOCKOUT));
    // others are not affected
    assert!(!m.is_locked(PeerIp::V6(1), 10));
    assert!(!m.is_locked(PeerIp::V4(1), 10));
    // the count starts anew after a lockout
    assert!(!m.record_fail(PEER, 10 + LOCKOUT));
    assert!(!m.is_locked(PEER, 10 + LOCKOUT));
}

fn host() -> HostState {
    let mut state = HostState { enabled: true, ..HostState::default() };
    add_user_with_salt(&mut state, "bob", "admin", "pw", "aabb".to_string()).unwrap();
    state
}

fn asked(a: HostAction) -> (u8, String) {
    match a {
        HostAction::Ask { msg, text } => (msg, text),
        _ => panic!("the client must be asked"),
    }
}

fn refused(a: HostAction) -> Refusal {
    match a {
        HostAction::Refuse(r) => r,
        _ => panic!("the login must be refused"),
    }
}

fn frame(msg: u8, text: &str) -> HostEvent<'_> {
    HostEvent::Frame { msg, text }
}

#[test]
fn login_by_password_rotates_the_token() {
    let host = host();
    let mut t = Throttle::new();
    t.record_fail(PEER, 0);
    let (mut l, a) = Login::open(Scheme::DataLayer, PEER, &t, 0);
    assert!(matches!(a, HostAction::Read));
    let a = l.step(&mut t, &host, 0, frame(HELLO, "bob\n0.7.0\n"), "n1", "T1", "LICENSE");
    assert_eq!(asked(a), (CHALLENGE, "aabb\nn1".to_string()));
    let answer = format!("p:{}", compute_proof(&hash_password("aabb", "pw"), "n1"));
    let a = l.step(&mut t, &host, 0, frame(PROOF, &answer), "n2", "T2", "LICENSE");
    assert_eq!(asked(a), (LICENSE_TEXT, "LICENSE".to_string()));
    assert!(!t.record_fail(PEER, 1)); // the success forgot the first failure
    let a = l.step(&mut t, &host, 0, frame(LICENSE_ACCEPT, "y"), "n3", "T3", "");
    assert!(matches!(a, HostAction::SaveLicensed));
    let a = l.step(&mut t, &host, 0, HostEvent::Saved(true), "n4", "T4", "");
    assert!(matches!(a, HostAction::SaveToken { token } if token == "T4"));
    let a = l.step(&mut t, &host, 0, HostEvent::Saved(true), "n5", "T5", "");
    assert!(matches!(a, HostAction::SendToken { token } if token == "T4"));
    let a = l.step(&mut t, &host, 0, HostEvent::Sent(true), "n6", "T6", "");
    assert!(matches!(a, HostAction::Promote { admin: true }));
    let a = l.step(&mut t, &host, 0, HostEvent::Spawned { port: 5000, key: "K" }, "", "", "");
    assert!(matches!(a, HostAction::Welcome { ticket } if ticket == "5000\nK"));
    assert_eq!(l.stage, HostStage::Promoted);
}

#[test]
fn login_by_token_keeps_it() {
    let mut host = host();
    mark_licensed(&mut host, "bob");
    store_token(&mut host, "bob", "tok");
    assert_eq!(host.users.get("bob").unwrap().token_hash, hash_token("tok"));
    let mut t = Throttle::new();
    let (mut l, _) = Login::open(Scheme::Challenges, PEER, &t, 0);
    l.step(&mut t, &host, 0, frame(HELLO, "bob\nx"), "nonce", "T", "");
    let answer = format!("t:{}", compute_proof(&hash_token("tok"), "nonce"));
    let a = l.step(&mut t, &host, 0, frame(PROOF, &answer), "", "T", "");
    assert!(matches!(a, HostAction::Promote { admin: true }));
    let a = l.step(&mut t, &host, 0, HostEvent::Spawned { port: 1, key: "K" }, "", "", "");
    assert!(matches!(a, HostAction::Welcome { ticket } if ticket == "4243\nK"));
}

#[test]
fn logins_are_refused() {
    let good = host();
    let mut t = Throttle::new();
    let mut one = |host: &HostState, msg: u8, text: &str| {
        let (mut l, _) = Login::open(Scheme::DataLayer, PEER, &t, 0);
        let a = l.step(&mut t, host, 0, frame(msg, text), "n", "T", "");
        assert_eq!(l.stage, HostStage::Closed);
        refused(a)
    };
    assert_eq!(one(&good, PROOF, "x\n"), Refusal::ExpectedHello);
    assert_eq!(one(&good, HELLO, "bob"), Refusal::MalformedHello);
    assert_eq!(one(&good, HELLO, "eve\n1"), Refusal::UnknownUser);
    assert_eq!(one(&HostState::default(), HELLO, "bob\n1"), Refusal::HostDisabled);
    assert_eq!(Refusal::ExpectedHello.text(), "expected HELLO");
    assert_eq!(Refusal::MalformedHello.text(), "malformed HELLO");
    assert_eq!(Refusal::UnknownUser.text(), "unknown user");
    assert_eq!(Refusal::HostDisabled.text(), "host disabled");
}

#[test]
fn bad_proofs_are_counted() {
    let host = host();
    let mut t = Throttle::new();
    let (mut l, _) = Login::open(Scheme::DataLayer, PEER, &t, 0);
    l.step(&mut t, &host, 0, frame(HELLO, "bob\nx"), "n1", "T", "");
    for n in ["n2", "n3"] {
        let a = l.step(&mut t, &host, 0, frame(PROOF, "p:00"), n, "T", "");
        assert_eq!(asked(a), (CHALLENGE, format!("aabb\n{}", n)));
    }
    let a = l.step(&mut t, &host, 0, frame(PROOF, "q:00"), "n4", "T", "");
    assert_eq!(refused(a), Refusal::AuthFailed);
    // the fifth failure of the address locks it out
    let (mut l, _) = Login::open(Scheme::DataLayer, PEER, &t, 0);
    l.step(&mut t, &host, 0, frame(HELLO, "bob\nx"), "n1", "T", "");
    l.step(&mut t, &host, 0, frame(PROOF, "t:00"), "n2", "T", "");
    let a = l.step(&mut t, &host, 0, frame(PROOF, "p:00"), "n3", "T", "");
    assert_eq!(refused(a), Refusal::LockedOut);
    let (l, a) = Login::open(Scheme::DataLayer, PEER, &t, 0);
    assert!(matches!(a, HostAction::DrainAndRefuse(Refusal::LockedOut)));
    assert_eq!(l.stage, HostStage::Closed);
    assert_eq!(Refusal::LockedOut.text(), "too many failures, try later");
    assert_eq!(Refusal::AuthFailed.text(), "authentication failed");
}

#[test]
fn proofs_must_be_proofs() {
    let host = host();
    let mut t = Throttle::new();
    let mut one = |msg: u8, text: &str| {
        let (mut l, _) = Login::open(Scheme::DataLayer, PEER, &t, 0);
        l.step(&mut t, &host, 0, frame(HELLO, "bob\nx"), "n1", "T", "");
        refused(l.step(&mut t, &host, 0, frame(msg, text), "n2", "T", ""))
    };
    assert_eq!(one(HELLO, "x"), Refusal::ExpectedProof);
    assert_eq!(one(PROOF, "nothing"), Refusal::MalformedProof);
    assert_eq!(Refusal::ExpectedProof.text(), "expected PROOF");
    assert_eq!(Refusal::MalformedProof.text(), "malformed PROOF");
    let bob = host.users.get("bob").unwrap();
    // no token was issued: no token proof is right
    assert!(!check_answer(bob, "n", "t", &compute_proof("", "n")));
    assert!(check_answer(bob, "n", "p", &compute_proof(&bob.pw_hash, "n")));
    assert!(!check_answer(bob, "n", "x", &compute_proof(&bob.pw_hash, "n")));
}

#[test]
fn logins_break_off() {
    let host = host();
    let mut t = Throttle::new();
    let answer = format!("p:{}", compute_proof(&hash_password("aabb", "pw"), "n1"));
    let mut to_license = || {
        let (mut l, _) = Login::open(Scheme::DataLayer, PEER, &t, 0);
        l.step(&mut t, &host, 0, frame(HELLO, "bob\nx"), "n1", "T", "");
        l.step(&mut t, &host, 0, frame(PROOF, &answer), "", "T", "L");
        l
    };
    let mut l = to_license();
    let mut u = Throttle::new();
    let a = l.step(&mut u, &host, 0, frame(LICENSE_REJECT, "n"), "", "", "");
    assert!(matches!(a, HostAction::Close));
    let mut l = to_license();
    let a = l.step(&mut u, &host, 0, HostEvent::Broken, "", "", "");
    assert!(matches!(a, HostAction::Close));
    let mut l = to_license();
    l.step(&mut u, &host, 0, frame(LICENSE_ACCEPT, "y"), "", "", "");
    let a = l.step(&mut u, &host, 0, HostEvent::Saved(false), "", "", "");
    assert_eq!(refused(a), Refusal::HostStateError);
    assert_eq!(Refusal::HostStateError.text(), "host state error");
    let mut l = to_license();
    l.step(&mut u, &host, 0, frame(LICENSE_ACCEPT, "y"), "", "", "");
    l.step(&mut u, &host, 0, HostEvent::Saved(true), "", "T", "");
    l.step(&mut u, &host, 0, HostEvent::Saved(true), "", "T", "");
    l.step(&mut u, &host, 0, HostEvent::Sent(true), "", "T", "");
    let a = l.step(&mut u, &host, 0, HostEvent::NotSpawned { reason: "no port" }, "", "", "");
    assert!(matches!(a, HostAction::RefusePromotion { reason } if reason == "no port"));
}

#[test]
fn plain_logins() {
    let mut host = host();
    store_token(&mut host, "bob", "tok");
    let bob = host.users.get("bob").unwrap().clone();
    assert!(verify_password(&bob, "pw"));
    assert!(!verify_password(&bob, "wp"));
    let mut t = Throttle::new();
    let (mut l, _) = Login::open(Scheme::Passwords, PEER, &t, 0);
    let a = l.step(&mut t, &host, 0, frame(HELLO, "bob\nx"), "", "", "");
    assert_eq!(asked(a), (PASSWD_REQ, String::new()));
    let a = l.step(&mut t, &host, 0, frame(AUTH_TOKEN, "bad"), "", "", "");
    assert_eq!(asked(a), (PASSWD_REQ, String::new()));
    let a = l.step(&mut t, &host, 0, frame(AUTH_TOKEN, " tok\n"), "", "", "L");
    assert_eq!(asked(a), (LICENSE_TEXT, "L".to_string()));
    let (mut l, _) = Login::open(Scheme::Passwords, PEER, &t, 0);
    l.step(&mut t, &host, 0, frame(HELLO, "bob\nx"), "", "", "");
    l.step(&mut t, &host, 0, frame(PASSWD_AUTH, "1"), "", "", "");
    l.step(&mut t, &host, 0, frame(PASSWD_AUTH, "2"), "", "", "");
    let a = l.step(&mut t, &host, 0, frame(PASSWD_AUTH, "3"), "", "", "");
    assert!(matches!(a, HostAction::AskAndRefuse(Refusal::AuthFailed)));
    let (mut l, _) = Login::open(Scheme::Passwords, PEER, &t, 0);
    l.step(&mut t, &host, 0, frame(HELLO, "bob\nx"), "", "", "");
    let a = l.step(&mut t, &host, 0, frame(PROOF, "3"), "", "", "");
    assert_eq!(refused(a), Refusal::UnexpectedMessage);
    assert_eq!(Refusal::UnexpectedMessage.text(), "unexpected message during auth");
}

#[test]
fn fresh_nonces_and_tokens() {
    let host = host();
    let mut t = Throttle::new();
    let (mut l, _) = Login::open(Scheme::DataLayer, PEER, &t, 0);
    let (_, text) = asked(l.handle(&mut t, &host, 0, frame(HELLO, "bob\nx"), ""));
    let nonce = text.strip_prefix("aabb\n").unwrap().to_string();
    assert_eq!(nonce.len(), 32);
    let (_, text) = asked(l.handle(&mut t, &host, 0, frame(PROOF, "p:0"), ""));
    assert_ne!(text, format!("aabb\n{}", nonce));
    assert_eq!(license_text(None), DEFAULT_LICENSE);
    assert_eq!(license_text(Some("mine".into())), "mine");
    assert!(DEFAULT_LICENSE.starts_with("PYIELINK ETHICS & LICENSE AGREEMENT\n=="));
}

#[test]
fn heartbeats_keep_a_session() {
    let mut s = SessionLoop::start(Channel::Terminal, false, 0);
    assert!(s.ping_due(0));
    s.pinged(0);
    assert!(!s.ping_due(PING_INTERVAL - 1));
    assert!(s.ping_due(PING_INTERVAL));
    assert_eq!(s.on_idle(PONG_GRACE - 1), None);
    assert_eq!(s.on_idle(PONG_GRACE), Some(EndReason::Lost));
    assert!(matches!(s.on_frame(PONG, b"12".to_vec(), 7), SessionAction::Touch { sent: None }));
    assert_eq!(s.last_pong, 7);
    assert!(matches!(
        s.on_frame(PING, b"hi".to_vec(), 9),
        SessionAction::Answer { payload } if payload == b"hi"
    ));
    assert_eq!(s.last_pong, 9);
    assert!(matches!(s.on_frame(BYE, vec![], 9), SessionAction::End(EndReason::Bye)));
    assert!(matches!(s.on_frame(0x42, vec![], 9), SessionAction::Nothing));
    let mut h = SessionLoop::start(Channel::Heartbeat, false, 0);
    assert!(matches!(
        h.on_frame(PONG, b" 12 ".to_vec(), 7),
        SessionAction::Touch { sent: Some(12) }
    ));
    assert!(matches!(
        h.on_frame(EXEC_REQ, b"0ls".to_vec(), 9),
        SessionAction::End(EndReason::Unexpected(EXEC_REQ))
    ));
    assert_eq!(heartbeat_round_trip(20, 12), 8);
    assert_eq!(heartbeat_round_trip(12, 20), 0);
}

#[test]
fn only_admins_run_elevated() {
    let mut s = SessionLoop::start(Channel::Terminal, false, 0);
    assert!(matches!(
        s.on_frame(EXEC_REQ, b"1id".to_vec(), 0),
        SessionAction::Deny(DenyReason::NotAdmin)
    ));
    assert!(matches!(s.on_frame(EXEC_REQ, vec![], 0), SessionAction::Nothing));
    assert!(matches!(s.on_frame(EXEC_REQ, b"0  ".to_vec(), 0), SessionAction::Nothing));
    assert!(matches!(
        s.on_frame(EXEC_REQ, b"0 id \n".to_vec(), 0),
        SessionAction::Run { command, elevated: false } if command == "id"
    ));
    assert!(matches!(
        s.on_frame(EXEC_REQ, b"0id".to_vec(), 0),
        SessionAction::Deny(DenyReason::Busy)
    ));
    assert_eq!(s.on_command_end(Some(-3)), "-3");
    let mut a = SessionLoop::start(Channel::Terminal, true, 0);
    assert!(matches!(
        a.on_frame(EXEC_REQ, b"1id".to_vec(), 0),
        SessionAction::Run { elevated: true, .. }
    ));
    assert_eq!(a.on_command_end(None), "-1");
    assert!(!a.busy);
    assert_eq!(DenyReason::NotAdmin.text(), "'sudo' requires an admin account on this host");
    assert_eq!(DenyReason::Busy.text(), "a command is still running on this session");
}

#[test]
fn output_is_capped() {
    let mut b = OutputBudget::new();
    assert_eq!(b.grant(8192), 8192);
    assert!(!b.tell());
    let mut total = 0;
    for _ in 0..100 {
        total += b.draw(8192);
    }
    assert_eq!(total, EXEC_OUT_CAP);
    assert_eq!(b.grant(8192), 0);
    assert!(b.tell());
    assert!(!b.tell());
    assert_eq!(TRUNCATED_NOTICE, "\r\n...output truncated...\r\n");
    assert_eq!(
        cannot_start("gone"),
        ("pyielink: cannot start command: gone\r\n".to_string(), 127)
    );
    assert_eq!(shell_for_exec(true), ("cmd", "/C"));
    assert_eq!(shell_for_exec(false), ("sh", "-c"));
}

#[test]
fn data_layer_needs_its_parts() {
    assert_eq!(can_spawn_datalayer(true, true, Some(7)), Ok(7));
    assert_eq!(
        can_spawn_datalayer(false, true, Some(7)).unwrap_err(),
        "data layer unavailable: node runtime not found on PATH"
    );
    assert_eq!(
        can_spawn_datalayer(true, false, Some(7)).unwrap_err(),
        "data layer unavailable: datalayer/src/server.js not found"
    );
    assert_eq!(
        can_spawn_datalayer(true, true, None).unwrap_err(),
        "no free local port for data layer"
    );
    assert_eq!(handoff_text("K", "bob", true), "K\nbob\nadmin\n");
    assert_eq!(handoff_text("K", "bob", false), "K\nbob\nuser\n");
    assert_eq!(handoff_name("x"), "pyielink-session-x.env");
    assert_eq!(datalayer_bases(None, Some("e".into()), Some("c".into())), ["e", "c"]);
    assert_eq!(datalayer_script().parts, ["datalayer", "src", "server.js"]);
}

#[test]
fn addresses_of_the_device() {
    let lo = PeerIp::V4(0x7F00_0001);
    let a = PeerIp::V4(0x0A00_0001);
    let v6 = PeerIp::V6(1);
    assert_eq!(local_ips(Some(a), &vec![lo, a, v6, lo]), [a, lo, v6]);
    assert_eq!(local_ips(None, &vec![]), []);
    assert_eq!(banner_ip(&vec![lo, a]), Some(a));
    assert_eq!(banner_ip(&vec![lo, v6]), Some(lo));
    assert_eq!(banner_ip(&vec![]), None);
}

#[test]
fn listed_addresses_alone_are_admitted() {
    let mut state = host();
    assert!(admits(&state, "10.0.0.1"));
    cmd_enable_with_flags(&mut state, false, vec!["10.0.0.1".to_string()]).unwrap();
    assert!(admits(&state, "10.0.0.1"));
    assert!(!admits(&state, "10.0.0.2"));
    let mut t = Throttle::new();
    let (mut l, a) = Login::accept(Scheme::DataLayer, PEER, "10.0.0.2", &state, &t, 0);
    assert!(matches!(a, HostAction::DrainAndRefuse(Refusal::NotAdmitted)));
    assert_eq!(Refusal::NotAdmitted.text(), "address not allowed");
    let a = l.step(&mut t, &state, 0, frame(HELLO, "bob\n0.7.0\n"), "n", "t", "");
    assert!(matches!(a, HostAction::Close));
    let (l, a) = Login::accept(Scheme::DataLayer, PEER, "10.0.0.1", &state, &t, 0);
    assert!(matches!(a, HostAction::Read));
    assert_eq!(l.stage, HostStage::AwaitHello);
    cmd_enable_with_flags(&mut state, true, vec!["10.0.0.1".to_string()]).unwrap();
    assert!(admits(&state, "10.0.0.2"));
}
