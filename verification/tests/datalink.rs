use pyielink::bitrate::{adjust_bandwidth, calculate_target_bitrate};
use pyielink::client_session::{
    first_command, run_get, run_put, start_cmd, DlCommand, FileFacts, InputEvent, RunMode,
};
use pyielink::datalink::{
    accepts_key, after_link, data_address, data_link_step, data_url, give_up_text,
    opening_messages, AfterLink, DataLink, LinkAction, LinkEvent, LinkResult, LinkStage, LinkStep,
    BITRATE_REQUEST_INTERVAL, DL_STALE,
};
use pyielink::message::{
    bitrate_text, done_ack_text, eof_text, jnum, json_escape, jstr, key_text, pull_text, push_text,
    video_start_text,
};
use pyielink::mux::{chunk_payload, dl_frame, dl_parse, parse_chunk, DL_CH_AUDIO};
use pyielink::resume::{label_end, label_start, SessionState};
use pyielink::transfer::{FileDigest, MetaAction, Outcome, PumpAction, Transfers};
use serde_json::Value;

#[test]
fn mux_frames() {
    let f = dl_frame(5, b"abc");
    assert_eq!(f, [5, 0, 0, 0, 3, b'a', b'b', b'c']);
    assert_eq!(dl_parse(&f), Some((5, b"abc".to_vec())));
    let mut more = f.clone();
    more.push(9);
    assert_eq!(dl_parse(&more), Some((5, b"abc".to_vec())));
    assert_eq!(dl_parse(&f[..7]), None);
    assert_eq!(dl_parse(&f[..4]), None);
    assert_eq!(dl_frame(1, &vec![0; 70000])[..5], [1, 0, 1, 0x11, 0x70]);
}

#[test]
fn chunks() {
    let p = chunk_payload(0x01020304, 0x05060708090A0B0C, b"xy");
    assert_eq!(p, [1, 2, 3, 4, 5, 6, 7, 8, 9, 10, 11, 12, b'x', b'y']);
    assert_eq!(parse_chunk(&p), Some((0x01020304, 0x05060708090A0B0C, b"xy".to_vec())));
    assert_eq!(parse_chunk(&p[..11]), None);
}

#[test]
fn json_texts() {
    assert_eq!(json_escape("a\\b\"c\n\r\t\u{1}\u{1f}é"), "a\\\\b\\\"c\\n\\r\\t\\u0001\\u001fé");
    let json = format!("{{\"name\":\"{}\",\"x\":1}}", json_escape("q\"\\\u{2}\n"));
    assert_eq!(jstr(&json, "name").unwrap(), "q\"\\\u{2}\n");
    assert_eq!(jstr("{\"a\":  true , \"b\": 7}", "a").unwrap(), "true");
    assert_eq!(jstr("{\"a\": 7}", "a").unwrap(), "7");
    assert_eq!(jstr("{\"b\": 7}", "a"), None);
    assert_eq!(jstr("{\"a\":\"open", "a"), None);
    assert_eq!(jstr("{\"a\":\"\\u0041\\u+042\\/\"}", "a").unwrap(), "AB/");
    assert_eq!(jstr("{\"a\":\"\\ud800\"}", "a"), None);
    assert_eq!(jstr("{\"a\":\"\\u00g1\"}", "a"), None);
    assert_eq!(jstr("{\"a\":\"\\", "a"), None);
    assert_eq!(jnum("{\"id\": 42 }", "id", u32::MAX as u128), Some(42));
    assert_eq!(jnum("{\"id\":\" 42\"}", "id", 100), Some(42));
    assert_eq!(jnum("{\"id\":4294967296}", "id", u32::MAX as u128), None);
    assert_eq!(jnum("{\"id\":-1}", "id", 100), None);
}

#[test]
fn messages_are_json() {
    let v: Value = serde_json::from_str(&pull_text(3, "a\"b\n", 17)).unwrap();
    assert_eq!(v["t"], "pull");
    assert_eq!(v["id"], 3);
    assert_eq!(v["name"], "a\"b\n");
    assert_eq!(v["have"], 17);
    assert_eq!(
        push_text(4, "x", 9, "ff"),
        "{\"t\":\"push\",\"id\":4,\"name\":\"x\",\"size\":9,\"sha256\":\"ff\"}"
    );
    assert_eq!(eof_text(4, 9), "{\"t\":\"eof\",\"id\":4,\"bytes\":9}");
    assert_eq!(done_ack_text(4), "{\"t\":\"done-ack\",\"id\":4}");
    assert_eq!(key_text("abc"), "{\"k\":\"abc\"}");
    assert_eq!(bitrate_text(800), "{\"kbps\":800,\"t\":\"bitrate_request\"}");
    assert_eq!(
        video_start_text(1, -5, 6, 7, 8),
        "{\"height\":8,\"monitor_index\":1,\"offset_x\":-5,\"offset_y\":6,\"t\":\"video_start\",\"width\":7}"
    );
    let v: Value = serde_json::from_str(&video_start_text(1, i32::MIN, 6, 7, u32::MAX)).unwrap();
    assert_eq!(v["offset_x"], i32::MIN);
    assert_eq!(v["height"], u32::MAX);
}

#[test]
fn link_addresses() {
    assert_eq!(data_address("h", "1", None, None), "h:1");
    assert_eq!(data_address("h", "1", Some("x".into()), None), "x:1");
    assert_eq!(data_address("h", "1", None, Some("2".into())), "h:2");
    assert_eq!(data_url("h:1"), "ws://h:1/");
    assert!(accepts_key("{\"ok\":true}"));
    assert!(accepts_key("{ \"ok\": true }"));
    assert!(!accepts_key("{\"ok\":false}"));
    let m = opening_messages(0, 0, 0, 0, 0, true);
    assert_eq!(m.len(), 3);
    assert_eq!(m[1], (2, "{\"t\":\"input_start\"}".to_string()));
    assert_eq!(m[2], (3, "{\"t\":\"video_keyframe_request\"}".to_string()));
    assert_eq!(opening_messages(0, 0, 0, 0, 0, false).len(), 2);
}

#[test]
fn link_heartbeats() {
    let mut l = DataLink::up(0);
    assert_eq!(l.rtt_ms, 50);
    // a heartbeat of the server is answered by its own bytes
    match l.on_binary(&dl_frame(1, b"P77"), 5, 0) {
        LinkAction::Send { frame } => assert_eq!(frame, dl_frame(1, b"P77")),
        _ => panic!("a heartbeat is answered"),
    }
    assert_eq!(l.last_seen, 5);
    let ping = l.on_idle(6, 1000).unwrap();
    assert_eq!(ping, dl_frame(1, b"P1000"));
    assert!(matches!(l.on_binary(&dl_frame(1, b"Q999"), 7, 1030), LinkAction::Nothing));
    assert!(matches!(l.on_binary(&dl_frame(1, b"Q1000"), 8, 1030), LinkAction::RoundTrip(30)));
    assert_eq!((l.rtt_ms, l.last_seen), (30, 8));
    assert!(matches!(l.on_binary(&dl_frame(1, b"Q1000"), 9, 1030), LinkAction::Nothing));
    assert_eq!(l.on_idle(9 + DL_STALE, 0), Err(LinkResult::Reconnect));
}

#[test]
fn link_channels() {
    let mut l = DataLink::up(0);
    assert!(matches!(l.on_binary(&dl_frame(3, b"abc"), 1, 0), LinkAction::Video { payload } if payload == b"abc"));
    assert_eq!(l.video_bytes, 3);
    assert!(matches!(l.on_binary(&dl_frame(4, b"m"), 1, 0), LinkAction::Meta { .. }));
    assert!(matches!(l.on_binary(&dl_frame(5, b"c"), 1, 0), LinkAction::Chunk { .. }));
    assert!(matches!(l.on_binary(&dl_frame(6, b"s"), 1, 0), LinkAction::Audio { .. }));
    assert!(matches!(l.on_binary(&dl_frame(9, b"s"), 1, 0), LinkAction::Nothing));
    assert!(matches!(l.on_binary(b"junk", 1, 0), LinkAction::Nothing));
    assert!(!l.bitrate_due(BITRATE_REQUEST_INTERVAL - 1));
    assert!(l.bitrate_due(BITRATE_REQUEST_INTERVAL));
    l.bitrate_requested(BITRATE_REQUEST_INTERVAL);
    assert_eq!((l.video_bytes, l.measured_since), (0, BITRATE_REQUEST_INTERVAL));
}

#[test]
fn links_are_taken_up_again() {
    assert_eq!(after_link(LinkResult::Stopped, 0), AfterLink::Stop);
    assert_eq!(after_link(LinkResult::Reconnect, 0), AfterLink::Retry { attempt: 1 });
    assert_eq!(after_link(LinkResult::Reconnect, 3), AfterLink::Retry { attempt: 4 });
    assert_eq!(after_link(LinkResult::Reconnect, 4), AfterLink::GiveUp);
    assert_eq!(give_up_text(), "max reconnection attempts (5) reached");
}

#[test]
fn bitrates_follow_double_arithmetic() {
    let target = |kbps: u32, rtt: u128| {
        let mut t = (kbps as f64 * 0.8) as u32;
        if rtt > 150 {
            t = (t as f64 * 0.7) as u32;
        } else if rtt > 100 {
            t = (t as f64 * 0.85) as u32;
        }
        t.clamp(500, 20000)
    };
    let adjusted = |kbps: u32, rtt: u128| {
        let f = if rtt > 100 { 0.7 } else if rtt > 50 { 0.85 } else { 1.0 };
        ((kbps as f64 * f) as u32).clamp(500, 20000)
    };
    for kbps in (0..60000).chain([u32::MAX, u32::MAX - 1, 1 << 31]) {
        for rtt in [0, 50, 51, 100, 101, 150, 151] {
            assert_eq!(calculate_target_bitrate(kbps, rtt), target(kbps, rtt));
            assert_eq!(adjust_bandwidth(kbps, rtt), adjusted(kbps, rtt));
        }
    }
    assert_eq!(calculate_target_bitrate(5000, 0), 4000);
    // 1290 * 7 / 10 is 903; the nearest double to 0.7 is a little less
    assert_eq!(adjust_bandwidth(1290, 200), 902);
}

fn digest_of(data: &[u8]) -> String {
    FileDigest::new().update(data).finish()
}

#[test]
fn digests_of_files() {
    assert_eq!(
        digest_of(b"abc"),
        "ba7816bf8f01cfea414140de5dae2223b00361a396177a9cb410ff61f20015ad"
    );
    let pieces = FileDigest::new().update(b"a").update(b"bc");
    assert!(pieces.has_room(usize::MAX / 16));
    assert_eq!(pieces.finish(), digest_of(b"abc"));
}

#[test]
fn download_from_the_start() {
    let mut t = Transfers::new();
    assert_eq!(t.next_id(), 1);
    assert_eq!(
        t.start_get("r.txt", "l.txt", 0),
        "{\"t\":\"pull\",\"id\":1,\"name\":\"r.txt\",\"have\":0}"
    );
    // data before the file is open is dropped
    assert!(t.accept_chunk(&chunk_payload(1, 0, b"he")).is_none());
    let meta = format!("{{\"t\":\"meta\",\"id\":1,\"size\":5,\"sha256\":\"{}\"}}", digest_of(b"hello").to_uppercase());
    match t.on_meta_text(&meta) {
        MetaAction::OpenDownload { id, local, size, sha256, prefix } => {
            assert_eq!((id, local.as_str(), size, prefix), (1, "l.txt", 5, false));
            t.download_opened(id, size, sha256);
        }
        _ => panic!("the file is to be opened"),
    }
    assert!(matches!(t.on_meta_text(&meta), MetaAction::Nothing));
    assert!(t.accept_chunk(&chunk_payload(1, 3, b"lo")).is_none());
    assert!(t.accept_chunk(&chunk_payload(2, 0, b"he")).is_none());
    let (id, data) = t.accept_chunk(&chunk_payload(1, 0, b"hel")).unwrap();
    let (tell, a) = t.handle_chunk(id, &data, true);
    assert_eq!(tell, Some(60));
    assert!(matches!(a, MetaAction::Nothing));
    let (id, data) = t.accept_chunk(&chunk_payload(1, 3, b"lo")).unwrap();
    assert!(t.has_room(id, data.len()));
    let (tell, a) = t.handle_chunk(id, &data, true);
    assert_eq!(tell, Some(100));
    match a {
        MetaAction::Finished { id, label, written, ok, digest } => {
            assert_eq!((id, label.as_str(), written, ok), (1, "r.txt -> l.txt", 5, true));
            assert_eq!(digest, digest_of(b"hello"));
        }
        _ => panic!("the download is complete"),
    }
    assert_eq!(t.outcome(), Outcome::Done);
    assert_eq!(t.count(), 0);
}

#[test]
fn download_is_resumed() {
    let mut t = Transfers::new();
    t.start_get("r", "l", 3);
    let meta = format!("{{\"t\":\"meta\",\"id\":1,\"size\":5,\"sha256\":\"{}\"}}", digest_of(b"hello"));
    match t.on_meta_text(&meta) {
        MetaAction::OpenDownload { id, size, sha256, prefix, .. } => {
            assert!(prefix);
            t.seed(id, b"hel");
            t.download_opened(id, size, sha256);
        }
        _ => panic!("the file is to be opened"),
    }
    let (id, data) = t.accept_chunk(&chunk_payload(1, 3, b"lo")).unwrap();
    let (_, a) = t.handle_chunk(id, &data, true);
    assert!(matches!(a, MetaAction::Finished { ok: true, .. }));
}

#[test]
fn download_with_wrong_digest() {
    let mut t = Transfers::new();
    t.start_get("r", "l", 0);
    t.download_opened(1, 2, "00".into());
    let (_, a) = t.handle_chunk(1, b"xy", true);
    assert!(matches!(a, MetaAction::Finished { ok: false, .. }));
    assert_eq!(t.outcome(), Outcome::Failed);
    // the first end counts
    t.start_get("r", "l", 0);
    assert!(matches!(
        t.on_meta_text("{\"t\":\"done\",\"id\":2,\"ok\":true}"),
        MetaAction::Done { ok: true, .. }
    ));
    assert_eq!(t.outcome(), Outcome::Failed);
}

#[test]
fn empty_download_ends_at_eof() {
    let mut t = Transfers::new();
    t.start_get("r", "l", 0);
    t.download_opened(1, 0, digest_of(b""));
    assert!(matches!(
        t.on_meta_text("{\"t\":\"eof\",\"id\":1}"),
        MetaAction::Finished { ok: true, written: 0, .. }
    ));
    t.start_get("r", "l", 0);
    t.download_opened(2, 9, String::new());
    assert!(matches!(t.on_meta_text("{\"t\":\"eof\",\"id\":2}"), MetaAction::Nothing));
}

#[test]
fn transfers_fail() {
    let mut t = Transfers::new();
    t.start_get("r", "l", 0);
    t.start_put("a", "b", 3, "ff");
    match t.on_meta_text("{\"t\":\"error\",\"id\":1,\"code\":\"ENOENT\",\"msg\":\"gone\"}") {
        MetaAction::Failed { label, code, msg } => {
            assert_eq!((label.as_str(), code.as_str(), msg.as_str()), ("r -> l", "ENOENT", "gone"));
        }
        _ => panic!("the transfer has failed"),
    }
    assert_eq!(t.count(), 1);
    t.open_failed(2);
    assert_eq!(t.count(), 0);
    assert_eq!(t.outcome(), Outcome::Failed);
    assert!(matches!(t.on_meta_text("{\"t\":\"meta\",\"id\":1}"), MetaAction::Unknown { id: 1 }));
    assert!(matches!(t.on_meta_text("{\"t\":\"ready\",\"id\":1}"), MetaAction::Unknown { id: 1 }));
    assert!(matches!(t.on_meta_text("{\"t\":\"done\",\"id\":1}"), MetaAction::Nothing));
    assert!(matches!(t.on_meta_text("{\"t\":\"huh\",\"id\":1}"), MetaAction::Nothing));
    assert!(matches!(t.on_meta_text("{\"id\":1}"), MetaAction::Nothing));
    assert!(matches!(t.on_meta_text("{\"t\":\"meta\"}"), MetaAction::Nothing));
    let mut u = Transfers::new();
    u.start_get("r", "l", 0);
    u.download_opened(1, 9, String::new());
    let (tell, _) = u.handle_chunk(1, b"x", false);
    assert_eq!(tell, None);
    assert_eq!((u.count(), u.outcome()), (0, Outcome::Failed));
    let mut w = Transfers::new();
    w.not_started();
    assert_eq!(w.outcome(), Outcome::Failed);
}

#[test]
fn upload_streams_to_the_end() {
    let mut t = Transfers::new();
    assert_eq!(
        t.start_put("dir/a", "b", 4, "ff"),
        "{\"t\":\"push\",\"id\":1,\"name\":\"b\",\"size\":4,\"sha256\":\"ff\"}"
    );
    assert!(t.streaming().is_empty());
    match t.on_meta_text("{\"t\":\"ready\",\"id\":1,\"resume\":9,\"size\":4}") {
        MetaAction::OpenUpload { id, path, start, size } => {
            assert_eq!((id, path.as_str(), start, size), (1, "dir/a", 4, 4));
        }
        _ => panic!("the file is to be opened"),
    }
    t.upload_opened(1, 1);
    assert_eq!(t.streaming(), [1]);
    match t.pump_put(1, b"bcd") {
        PumpAction::Chunk { payload, tell } => {
            assert_eq!(payload, chunk_payload(1, 1, b"bcd"));
            assert_eq!(tell, Some(100));
        }
        _ => panic!("a piece is sent"),
    }
    match t.pump_put(1, b"") {
        PumpAction::Eof { message } => assert_eq!(message, eof_text(1, 4)),
        _ => panic!("the end is told"),
    }
    assert!(t.streaming().is_empty());
    assert!(matches!(t.pump_put(1, b"x"), PumpAction::Nothing));
    assert!(matches!(
        t.on_meta_text("{\"t\":\"done\",\"id\":1,\"ok\":\"true\"}"),
        MetaAction::Done { ok: true, .. }
    ));
    assert_eq!(t.outcome(), Outcome::Done);
}

#[test]
fn transfers_are_kept_over_a_break() {
    let mut t = Transfers::new();
    t.start_get("r", "l", 0);
    t.download_opened(1, 10, "aa".into());
    t.handle_chunk(1, b"abcd", true);
    t.start_put("x", "y", 6, "bb");
    t.upload_opened(2, 0);
    t.pump_put(2, b"123");
    let mut kept = t.save_session_state();
    kept.sort_by_key(|k| k.id);
    assert_eq!(kept.len(), 2);
    assert_eq!((kept[0].remote.as_str(), kept[0].local.as_str()), ("r", "l"));
    assert_eq!((kept[0].written, kept[0].size, kept[0].is_get), (4, 10, true));
    assert_eq!((kept[1].remote.as_str(), kept[1].local.as_str()), ("y", "x"));
    assert_eq!((kept[1].offset, kept[1].size, kept[1].is_get), (3, 6, false));
    let mut u = Transfers::resume(&kept);
    assert_eq!((u.count(), u.next_id()), (2, 3));
    match u.on_meta_text("{\"t\":\"meta\",\"id\":1,\"size\":10}") {
        MetaAction::OpenDownload { prefix, .. } => assert!(prefix),
        _ => panic!("the download goes on"),
    }
    assert_eq!(label_start("a -> b -> c"), "a");
    assert_eq!(label_end("a -> b -> c"), "b");
    assert_eq!(label_end("a"), "");
    let s = SessionState::new("u".into(), "i".into(), "k".into(), "p".into());
    assert!(!s.input_running && s.transfers.is_empty());
    assert_eq!((s.user.as_str(), s.session_key.as_str(), s.data_port.as_str()), ("u", "k", "p"));
}

#[test]
fn no_frames_before_the_key_is_accepted() {
    let sound = dl_frame(DL_CH_AUDIO, b"abc");
    let (s, step) = data_link_step(LinkStage::Keyed, LinkEvent::Binary(&sound), 7, 0);
    assert_eq!(s, LinkStage::Keyed);
    assert!(matches!(step, LinkStep::Nothing));
    let (s, step) = data_link_step(s, LinkEvent::Idle, 7, 0);
    assert!(matches!(step, LinkStep::Nothing));
    let (refused, step) = data_link_step(s, LinkEvent::Text("{\"ok\":false}"), 7, 0);
    assert_eq!(refused, LinkStage::Ended(LinkResult::Reconnect));
    assert!(matches!(step, LinkStep::End { result: LinkResult::Reconnect, keep: false }));
    let (s, step) = data_link_step(s, LinkEvent::Text("{\"ok\":true}"), 7, 0);
    assert_eq!(s, LinkStage::Up(DataLink::up(7)));
    assert!(matches!(step, LinkStep::Open));
    let (_, step) = data_link_step(s, LinkEvent::Binary(&sound), 8, 0);
    assert!(matches!(step, LinkStep::Frame(LinkAction::Audio { payload }) if payload == b"abc"));
}

#[test]
fn ends_of_a_link_keep_its_transfers() {
    let up = LinkStage::Up(DataLink::up(0));
    for (ev, result) in [
        (LinkEvent::Stop, LinkResult::Stopped),
        (LinkEvent::Closed, LinkResult::Reconnect),
        (LinkEvent::Broken, LinkResult::Reconnect),
    ] {
        let (s, step) = data_link_step(up, ev, 1, 1);
        assert_eq!(s, LinkStage::Ended(result));
        assert!(matches!(step, LinkStep::End { result: r, keep: true } if r == result));
    }
    let (s, step) = data_link_step(up, LinkEvent::Idle, DL_STALE - 1, 42);
    assert!(matches!(s, LinkStage::Up(l) if l.awaiting == Some(42)));
    match step {
        LinkStep::Ping { frame } => assert_eq!(dl_parse(&frame).unwrap().0, 1),
        _ => panic!("a heartbeat is due"),
    }
    let (s, step) = data_link_step(up, LinkEvent::Idle, DL_STALE, 42);
    assert_eq!(s, LinkStage::Ended(LinkResult::Reconnect));
    assert!(matches!(step, LinkStep::End { keep: true, .. }));
    let (_, step) = data_link_step(s, LinkEvent::Closed, 0, 0);
    assert!(matches!(step, LinkStep::Nothing));
    let (s, step) = data_link_step(LinkStage::Keyed, LinkEvent::Stop, 0, 0);
    assert_eq!(s, LinkStage::Ended(LinkResult::Stopped));
    assert!(matches!(step, LinkStep::End { keep: false, .. }));
}

fn unread() -> FileFacts {
    FileFacts::Unreadable { reason: "no such file".into() }
}

#[test]
fn commands_are_started() {
    let mut t = Transfers::new();
    let first = t.next_id();
    let get = first_command(&run_get("a/b.txt", None)).unwrap();
    assert!(matches!(&get, DlCommand::Get { remote, local } if remote == "a/b.txt" && local == "b.txt"));
    let (channel, text) = start_cmd(&mut t, &get, 5, unread()).unwrap();
    assert_eq!((channel, text), (4, pull_text(first, "a/b.txt", 5)));
    let put = first_command(&run_put("dir/x", None, true).unwrap()).unwrap();
    assert!(matches!(&put, DlCommand::Put { local, remote } if local == "dir/x" && remote == "x"));
    let known = FileFacts::Known { size: 9, sha256: "ab".into() };
    let (channel, text) = start_cmd(&mut t, &put, 0, known).unwrap();
    assert_eq!((channel, text), (4, push_text(first + 1, "x", 9, "ab")));
    assert_eq!((t.count(), t.next_id()), (2, first + 2));
    assert!(first_command(&RunMode::Shell).is_none());

    let event = InputEvent::KeyDown { vk: 65, scan: 0, flags: 0 };
    let input = DlCommand::Input { events: vec![event] };
    assert_eq!(
        start_cmd(&mut t, &input, 0, unread()),
        Ok((2, "[{\"KeyDown\":{\"vk\":65,\"scan\":0,\"flags\":0}}]".to_string()))
    );
    for (cmd, channel, text) in [
        (DlCommand::InputStart, 2, "{\"t\":\"input_start\"}"),
        (DlCommand::InputStop, 2, "{\"t\":\"input_stop\"}"),
        (DlCommand::VideoPause, 3, "{\"t\":\"video_pause\"}"),
        (DlCommand::VideoResume, 3, "{\"t\":\"video_resume\"}"),
    ] {
        assert_eq!(start_cmd(&mut t, &cmd, 0, unread()), Ok((channel, text.to_string())));
    }
    assert_eq!(t.outcome(), Outcome::Running);
    assert_eq!(start_cmd(&mut t, &put, 0, unread()), Err("no such file".to_string()));
    assert_eq!((t.outcome(), t.count()), (Outcome::Failed, 2));
}

#[test]
fn messages_are_read_from_bytes() {
    let mut t = Transfers::new();
    let get = DlCommand::Get { remote: "a".into(), local: "b".into() };
    start_cmd(&mut t, &get, 0, unread()).unwrap();
    match t.handle_meta_json(b"{\"t\":\"error\",\"id\":1,\"code\":\"E\",\"msg\":\"\xff\"}") {
        MetaAction::Failed { label, code, msg } => {
            assert_eq!((label.as_str(), code.as_str(), msg.as_str()), ("a -> b", "E", "\u{fffd}"));
        }
        _ => panic!("the transfer fails"),
    }
    assert_eq!((t.count(), t.outcome()), (0, Outcome::Failed));
}

#[test]
fn uploads_reach_downloads() {
    let pieces: [&[u8]; 3] = [b"one", b"two two", b"3"];
    let all = pieces.concat();
    let digest = digest_of(&all);
    let mut up = Transfers::new();
    up.start_put("src", "dst", all.len() as u64, &digest);
    up.upload_opened(1, 0);
    let mut down = Transfers::new();
    down.start_get("src", "dst", 0);
    down.download_opened(1, all.len() as u64, digest);
    let mut written = Vec::new();
    let mut last = MetaAction::Nothing;
    for piece in pieces {
        let PumpAction::Chunk { payload, .. } = up.pump_put(1, piece) else {
            panic!("a piece is sent");
        };
        let (id, data) = down.accept_chunk(&payload).unwrap();
        assert_eq!(data, piece);
        written.extend_from_slice(&data);
        last = down.handle_chunk(id, &data, true).1;
    }
    assert_eq!(written, all);
    assert!(matches!(last, MetaAction::Finished { ok: true, written: 11, .. }));
    assert!(matches!(up.pump_put(1, b""), PumpAction::Eof { .. }));
    assert_eq!(down.outcome(), Outcome::Done);
}

#[test]
fn files_are_offered_with_their_digest() {
    let digest = FileDigest::new().update(b"ab").update(b"c");
    let facts = digest.facts();
    let hash = "ba7816bf8f01cfea414140de5dae2223b00361a396177a9cb410ff61f20015ad";
    assert!(matches!(&facts, FileFacts::Known { size: 3, sha256 } if sha256 == hash));
    let mut t = Transfers::new();
    let put = DlCommand::Put { local: "l".into(), remote: "r".into() };
    assert_eq!(start_cmd(&mut t, &put, 0, facts), Ok((4, push_text(1, "r", 3, hash))));
}
