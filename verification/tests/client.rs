use pyielink::client::{
    basename_of, bootstrap_port, confirm_license, hello_text, license_preaccepted, parse_target,
    password_proof, split_ticket, ClientAction, ClientEvent, ClientLogin, ClientStage,
};
use pyielink::client_session::{
    command_message, handle_input_verb, handle_xfer_verb, run_get, run_put, session_result,
    ClientEnd, ClientLoop, DlCommand, FrameAction, InputVerb, LineAction, RunMode, XferVerb,
    HB_STALE,
};
use pyielink::creds::{compute_proof, hash_password};
use pyielink::host_session::Channel;
use pyielink::proto::{
    AUTH_FAIL, AUTH_OK, AUTH_TOKEN, BYE, CHALLENGE, EXEC_DENY, EXEC_END, EXEC_OUT, LICENSE_ACCEPT,
    LICENSE_REJECT, LICENSE_TEXT, PASSWD_AUTH, PASSWD_REQ, PING, PONG, PROOF, TOKEN_ISSUED,
};
use pyielink::token::hash_token;
use pyielink::transfer::Outcome;

fn check_tickets() {
    let key = "a".repeat(64);
    assert!(split_ticket(&format!("4243\n{}", key)).is_ok());
    assert!(split_ticket(&format!("4243\n{}", key)).unwrap().0 == "4243");
    assert!(split_ticket("4243").is_err());
    assert!(split_ticket("4243\nshort").is_err());
    assert!(split_ticket("\nsomekey").is_err());
}

fn check_targets() {
    assert!(parse_target("bob@127.0.0.1").is_ok());
    assert!(parse_target("@127.0.0.1").is_err());
    assert!(parse_target("bob@").is_err());
    assert!(parse_target("bob-127.0.0.1").is_err());
}

#[test]
fn ticket_parsing() {
    let key = "a".repeat(64);
    assert!(split_ticket(&format!("4243\n{}", key)).is_ok());
    assert!(split_ticket(&format!("4243\n{}", key)).unwrap().0 == "4243");
    assert!(split_ticket("4243").is_err());
    assert!(split_ticket("4243\nshort").is_err());
    assert!(split_ticket("\nsomekey").is_err());
}

#[test]
fn client_ticket_parsing() {
    check_tickets();
}

#[test]
fn target_parsing() {
    assert!(parse_target("bob@127.0.0.1").is_ok());
    assert!(parse_target("@127.0.0.1").is_err());
    assert!(parse_target("bob@").is_err());
    assert!(parse_target("bob-127.0.0.1").is_err());
}

#[test]
fn client_target_parsing() {
    check_targets();
}

#[test]
fn targets_are_cut_at_the_first_at() {
    let (user, ip) = parse_target("bob@a@b").unwrap();
    assert_eq!((user.as_str(), ip.as_str()), ("bob", "a@b"));
    assert_eq!(
        parse_target("bob").unwrap_err(),
        "invalid target 'bob': expected user@ip"
    );
    assert_eq!(split_ticket("1").unwrap_err(), "host sent malformed promotion ticket");
    assert_eq!(bootstrap_port(None), 4242);
    assert_eq!(bootstrap_port(Some("5000")), 5000);
    assert_eq!(bootstrap_port(Some("+80")), 80);
    assert_eq!(bootstrap_port(Some("70000")), 4242);
    assert_eq!(bootstrap_port(Some(" 80")), 4242);
    assert_eq!(hello_text("bob", "0.7.0"), "bob\n0.7.0\n");
}

#[test]
fn last_names_of_paths() {
    assert_eq!(basename_of("a/b/c.txt"), "c.txt");
    assert_eq!(basename_of("a\\b\\"), "b");
    assert_eq!(basename_of("c.txt"), "c.txt");
    assert_eq!(basename_of("/"), "");
}

#[test]
fn license_answers() {
    assert!(license_preaccepted(Some("1")));
    assert!(license_preaccepted(Some("TRUE")));
    assert!(!license_preaccepted(Some("True")));
    assert!(!license_preaccepted(None));
    assert_eq!(confirm_license(" Yes\n"), Some(true));
    assert_eq!(confirm_license("n"), Some(false));
    assert_eq!(confirm_license("maybe"), None);
}

fn login(may_prompt: bool) -> ClientLogin {
    ClientLogin::start(true, true, may_prompt, "bob".into(), "1.2.3.4".into())
}

fn frame(msg: u8, text: &str) -> ClientEvent {
    ClientEvent::Frame { msg, text: text.into() }
}

fn sent(a: ClientAction) -> (u8, String) {
    match a {
        ClientAction::Send { msg, text } => (msg, text),
        _ => panic!("a frame must be sent"),
    }
}

fn fault(a: ClientAction) -> String {
    match a {
        ClientAction::Fail { reason } => reason,
        _ => panic!("the login must fail"),
    }
}

#[test]
fn login_with_token_then_password() {
    let mut l = login(true);
    let hash = hash_token("tok");
    assert!(matches!(l.step(frame(CHALLENGE, "aabb\nn0nce \n")), ClientAction::LoadToken));
    let (msg, text) = sent(l.step(ClientEvent::Token(Some(hash.clone()))));
    assert_eq!((msg, text), (PROOF, format!("t:{}", compute_proof(&hash, "n0nce"))));
    // the host did not accept it: the password answers from now on, three times
    for i in 0..3 {
        let nonce = format!("n{}", i);
        assert!(matches!(
            l.step(frame(CHALLENGE, &format!("aabb\n{}", nonce))),
            ClientAction::AskPassword
        ));
        let (msg, text) = sent(l.step(ClientEvent::Password("pw".into())));
        let want = compute_proof(&hash_password("aabb", "pw"), &nonce);
        assert_eq!((msg, text), (PROOF, format!("p:{}", want)));
        assert_eq!(password_proof("aabb", "pw", &nonce), want);
    }
    assert_eq!(
        fault(l.step(frame(CHALLENGE, "aabb\nx"))),
        "too many failed authentication attempts"
    );
    assert_eq!(l.stage, ClientStage::Ended);
}

#[test]
fn login_without_token() {
    let mut l = login(true);
    l.step(frame(CHALLENGE, "s\nn"));
    // a stored token of another length does not count
    assert!(matches!(
        l.step(ClientEvent::Token(Some("short".into()))),
        ClientAction::AskPassword
    ));
    let mut l = login(false);
    l.step(frame(CHALLENGE, "s\nn"));
    assert_eq!(
        fault(l.step(ClientEvent::Token(None))),
        "no stored credential for bob@1.2.3.4 - run an interactive session once to store a token"
    );
    let mut l = login(true);
    assert_eq!(fault(l.step(frame(CHALLENGE, "no nonce"))), "malformed challenge from host");
}

#[test]
fn login_to_the_end() {
    let mut l = login(true);
    assert!(matches!(
        l.step(frame(LICENSE_TEXT, "be good")),
        ClientAction::ShowLicense { text } if text == "be good"
    ));
    assert_eq!(sent(l.step(ClientEvent::License(true))), (LICENSE_ACCEPT, "y".to_string()));
    assert!(matches!(
        l.step(frame(TOKEN_ISSUED, " tok\n")),
        ClientAction::StoreToken { token } if token == hash_token("tok")
    ));
    assert!(matches!(l.step(ClientEvent::Stored(None)), ClientAction::Read));
    let key = "b".repeat(64);
    match l.step(frame(AUTH_OK, &format!("4243\n{}\n", key))) {
        ClientAction::Promoted { port, key: k } => assert_eq!((port, k), ("4243".into(), key)),
        _ => panic!("the client must be promoted"),
    }
}

#[test]
fn login_failures() {
    let mut l = login(true);
    assert_eq!(fault(l.step(frame(AUTH_FAIL, " unknown user "))), "host refused: unknown user");
    assert_eq!(fault(login(true).step(frame(AUTH_OK, "4243"))), "host sent malformed promotion ticket");
    assert_eq!(fault(login(true).step(frame(0x4F, ""))), "unexpected frame 0x4F during handshake");
    let mut l = login(true);
    l.step(frame(TOKEN_ISSUED, "t"));
    assert_eq!(
        fault(l.step(ClientEvent::Stored(Some("disk full".into())))),
        "could not store token: disk full"
    );
    let mut l = login(true);
    l.step(frame(LICENSE_TEXT, "x"));
    match l.step(ClientEvent::License(false)) {
        ClientAction::SendAndFail { msg, text, reason } => {
            assert_eq!((msg, text.as_str()), (LICENSE_REJECT, "n"));
            assert_eq!(reason, "license rejected — session aborted");
        }
        _ => panic!("the license was rejected"),
    }
}

#[test]
fn plain_password_login() {
    let mut l = ClientLogin::start(false, false, true, "bob".into(), "h".into());
    assert!(matches!(l.step(frame(PASSWD_REQ, "")), ClientAction::LoadToken));
    assert_eq!(sent(l.step(ClientEvent::Token(Some("tok".into())))), (AUTH_TOKEN, "tok".into()));
    for _ in 0..3 {
        assert!(matches!(l.step(frame(PASSWD_REQ, "")), ClientAction::AskPassword));
        assert_eq!(
            sent(l.step(ClientEvent::Password("pw".into()))),
            (PASSWD_AUTH, "pw".to_string())
        );
    }
    assert_eq!(fault(l.step(frame(PASSWD_REQ, ""))), "too many failed password attempts");
    let mut l = ClientLogin::start(false, false, true, "bob".into(), "h".into());
    assert!(matches!(
        l.step(frame(AUTH_OK, " 4243 ")),
        ClientAction::Promoted { port, .. } if port == "4243"
    ));
}

fn exec(a: LineAction) -> Vec<u8> {
    match a {
        LineAction::Exec { payload } => payload,
        _ => panic!("a command must be sent"),
    }
}

#[test]
fn typed_lines() {
    let mut s = ClientLoop::start(Channel::Terminal, true, true, true, 0);
    assert!(matches!(s.on_line("  \n"), LineAction::Nothing));
    assert!(matches!(s.on_line("exit"), LineAction::Quit));
    assert!(matches!(s.on_line(" quit\n"), LineAction::Quit));
    assert!(matches!(s.on_line("get a b"), LineAction::Transfer { line } if line == "get a b"));
    assert!(matches!(s.on_line("put"), LineAction::Transfer { .. }));
    assert!(matches!(s.on_line("input start"), LineAction::Input { .. }));
    assert_eq!(exec(s.on_line("getent passwd")), b"0getent passwd");
    assert!(matches!(s.on_line("ls"), LineAction::StillRunning));
    assert!(matches!(s.on_line("get x"), LineAction::Transfer { .. }));
    assert!(matches!(
        s.on_frame(EXEC_END, b" 0 ".to_vec(), 1),
        FrameAction::Exit { code } if code == "0"
    ));
    assert_eq!(exec(s.on_line("sudo  reboot ")), b"1reboot");
    assert!(matches!(
        s.on_frame(EXEC_DENY, b"no".to_vec(), 1),
        FrameAction::Denied { reason } if reason == "no"
    ));
    assert_eq!(exec(s.on_line("sudo")), b"0sudo");
}

#[test]
fn frames_of_a_session() {
    let mut s = ClientLoop::start(Channel::Terminal, false, true, true, 0);
    match s.on_frame(PING, b"1234".to_vec(), 5) {
        FrameAction::Answer { payload, sent } => {
            assert_eq!((payload, sent), (b"1234".to_vec(), Some(1234)));
        }
        _ => panic!("a heartbeat is answered"),
    }
    assert_eq!(s.last_ping, 5);
    assert!(matches!(s.on_frame(PING, b"x".to_vec(), 6), FrameAction::Answer { sent: None, .. }));
    assert!(matches!(s.on_frame(EXEC_OUT, vec![1, 2], 6), FrameAction::Output { bytes } if bytes == [1, 2]));
    assert!(matches!(s.on_frame(PONG, vec![], 9), FrameAction::Nothing));
    assert_eq!(s.last_ping, 9);
    assert!(matches!(s.on_frame(0x77, vec![], 9), FrameAction::Nothing));
    assert!(matches!(s.on_frame(BYE, vec![], 9), FrameAction::Closed));
    let mut h = ClientLoop::start(Channel::Heartbeat, false, true, false, 0);
    assert!(matches!(
        h.on_frame(EXEC_OUT, vec![], 1),
        FrameAction::Fail { reason } if reason == "unexpected frame 0x11 on control channel"
    ));
    assert!(!s.on_eof());
    assert!(!s.stdin_open);
    let mut t = ClientLoop::start(Channel::Terminal, true, true, true, 0);
    assert!(t.on_eof());
}

#[test]
fn silent_sessions_end() {
    let s = ClientLoop::start(Channel::Terminal, false, false, false, 100);
    assert_eq!(s.on_idle(false, false, 100 + HB_STALE - 1), None);
    assert_eq!(s.on_idle(false, false, 100 + HB_STALE), Some(ClientEnd::Stalled));
    assert_eq!(s.on_idle(false, true, 100), Some(ClientEnd::TransferDone));
    assert_eq!(s.on_idle(true, true, 100), Some(ClientEnd::DataLinkDied));
    let shell = ClientLoop::start(Channel::Terminal, false, true, false, 100);
    assert_eq!(shell.on_idle(false, true, 100), None);
    let h = ClientLoop::start(Channel::Heartbeat, false, false, false, 100);
    assert_eq!(h.on_idle(true, true, 100), None);
    assert_eq!(ClientEnd::DataLinkDied.bye(), "data-link lost");
    assert_eq!(ClientEnd::DataLinkDied.fault(), Some("data link died — session ended"));
    assert_eq!(ClientEnd::TransferDone.bye(), "transfer done");
    assert_eq!(ClientEnd::TransferDone.fault(), None);
    assert_eq!(ClientEnd::Stalled.bye(), "stall");
    assert_eq!(ClientEnd::Stalled.fault(), Some("host stopped responding to heartbeats"));
}

#[test]
fn transfer_lines() {
    assert!(matches!(
        handle_xfer_verb("get  dir/a.txt"),
        XferVerb::Get { remote, local } if remote == "dir/a.txt" && local == "a.txt"
    ));
    assert!(matches!(
        handle_xfer_verb("get a b"),
        XferVerb::Get { remote, local } if remote == "a" && local == "b"
    ));
    assert!(matches!(
        handle_xfer_verb("put x/y"),
        XferVerb::Put { local, remote } if local == "x/y" && remote == "y"
    ));
    assert!(matches!(
        handle_xfer_verb("put x z"),
        XferVerb::Put { local, remote } if local == "x" && remote == "z"
    ));
    assert!(matches!(handle_xfer_verb("put"), XferVerb::Usage { verb } if verb == "put"));
    assert!(matches!(handle_xfer_verb("get a b c"), XferVerb::Usage { verb } if verb == "get"));
    assert!(matches!(handle_xfer_verb("pull a"), XferVerb::UsageAll));
    assert!(matches!(handle_xfer_verb(""), XferVerb::UsageAll));
}

#[test]
fn input_lines() {
    let mut running = false;
    assert_eq!(handle_input_verb("input stop", &mut running), InputVerb::NotRunning);
    assert_eq!(handle_input_verb("input start", &mut running), InputVerb::Start);
    assert!(running);
    assert_eq!(handle_input_verb("input  start", &mut running), InputVerb::AlreadyRunning);
    assert_eq!(handle_input_verb("input stop", &mut running), InputVerb::Stop);
    assert!(!running);
    assert_eq!(handle_input_verb("input", &mut running), InputVerb::Usage);
}

#[test]
fn single_transfers() {
    assert!(matches!(
        run_get("d/f", None),
        RunMode::OneShotGet { remote, local } if remote == "d/f" && local == "f"
    ));
    assert!(matches!(
        run_get("d/f", Some("g")),
        RunMode::OneShotGet { local, .. } if local == "g"
    ));
    assert!(matches!(
        run_put("d/f", None, true),
        Ok(RunMode::OneShotPut { local, remote }) if local == "d/f" && remote == "f"
    ));
    assert!(matches!(run_put("d/f", None, false), Err(e) if e == "no such file: d/f"));
    assert!(run_put("", Some("r"), false).is_ok());
    assert!(session_result(&RunMode::Shell, Outcome::Failed).is_ok());
    assert!(session_result(&run_get("a", None), Outcome::Done).is_ok());
    assert_eq!(
        session_result(&run_get("a", None), Outcome::Failed).unwrap_err(),
        "file transfer failed"
    );
}

#[test]
fn plain_commands() {
    assert_eq!(command_message(&DlCommand::InputStart), Some((2, "{\"t\":\"input_start\"}")));
    assert_eq!(command_message(&DlCommand::InputStop), Some((2, "{\"t\":\"input_stop\"}")));
    assert_eq!(command_message(&DlCommand::VideoPause), Some((3, "{\"t\":\"video_pause\"}")));
    assert_eq!(command_message(&DlCommand::VideoResume), Some((3, "{\"t\":\"video_resume\"}")));
    assert_eq!(command_message(&DlCommand::Input { events: vec![] }), None);
}
