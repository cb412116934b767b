use pyielink::audio::AudioManager;
use pyielink::input::{input_message, key_to_vk, keyboard_event, mouse_event};
use pyielink::client_session::InputEvent;
use openh264::decoder::Decoder;
use openh264::encoder::{Encoder, EncoderConfig};
use openh264::formats::{YUVBuffer, YUVSource};
use openh264::OpenH264API;
use pyielink::h264::Picture;
use pyielink::video::{
    parse_pes, parse_ts_packet, Frame, FrameQueue, TsParser, MAX_QUEUE_SIZE,
};
use pyielink::video_decoder::{VideoDecoder, VideoFault};
use pyielink::video_window::{decoder_args, Painted, VideoWindow, FRAME_BYTES};
use pyielink::viewer::{
    enumerate_monitors, grade_rtt, monitor_label, osd_rows, primary_index, Gestures, Grade,
    MonitorInfo, OsdFacts, Viewer, ViewerAsk,
};

fn pts_bytes(pts: u64) -> [u8; 5] {
    [
        0x21 | (((pts >> 30) & 7) << 1) as u8,
        (pts >> 22) as u8,
        (((pts >> 15) & 0x7F) << 1) as u8 | 1,
        (pts >> 7) as u8,
        ((pts & 0x7F) << 1) as u8 | 1,
    ]
}

fn pes(pts: Option<u64>, data: &[u8]) -> Vec<u8> {
    let mut p = vec![0, 0, 1, 0xE0, 0, 0, 0x80];
    match pts {
        Some(t) => {
            p.extend_from_slice(&[0x80, 5]);
            p.extend_from_slice(&pts_bytes(t));
        }
        None => p.extend_from_slice(&[0, 0]),
    }
    p.extend_from_slice(data);
    p
}

/// A packet with its payload at the end, after stuffing.
fn packet(start: bool, pid: u16, payload: &[u8]) -> Vec<u8> {
    let stuff = 188 - 4 - payload.len();
    let mut p = vec![
        0x47,
        (if start { 0x40 } else { 0 }) | (pid >> 8) as u8,
        pid as u8,
        if stuff > 0 { 0x30 } else { 0x10 },
    ];
    if stuff > 0 {
        p.push((stuff - 1) as u8);
        p.extend(vec![0xFFu8; stuff - 1]);
    }
    p.extend_from_slice(payload);
    p
}

#[test]
fn presentation_times() {
    for t in [0u64, 1, 0x7F, 0x80, 0x1_2345_6789, 0x1_FFFF_FFFF] {
        let (data, pts) = parse_pes(&pes(Some(t), b"nal")).unwrap();
        assert_eq!((data.as_slice(), pts), (&b"nal"[..], t));
    }
    assert_eq!(parse_pes(&pes(None, b"x")).unwrap(), (b"x".to_vec(), 0));
    assert_eq!(parse_pes(&pes(Some(9), b"")).unwrap(), (vec![], 9));
    // an audio stream, no start code, too short
    let mut audio = pes(Some(9), b"x");
    audio[3] = 0xC0;
    assert!(parse_pes(&audio).is_none());
    assert!(parse_pes(&vec![0, 0, 2, 0xE0, 0, 0, 0, 0, 0]).is_none());
    assert!(parse_pes(&vec![0, 0, 1, 0xE0, 0, 0, 0, 0]).is_none());
    assert!(parse_pes(&vec![0, 0, 1, 0xE0, 0, 0, 0, 0, 1]).is_none());
}

#[test]
fn transport_packets() {
    let p = packet(true, 0x100, &pes(Some(77), b"frame"));
    assert_eq!(parse_ts_packet(&p), Some((b"frame".to_vec(), 77)));
    let p = packet(false, 0x1011, &pes(Some(78), b"frame"));
    assert_eq!(parse_ts_packet(&p), Some((b"frame".to_vec(), 78)));
    let p = packet(false, 0x100, b"raw");
    assert_eq!(parse_ts_packet(&p), Some((b"raw".to_vec(), 0)));
    let p = packet(true, 0x100, b"no header");
    assert_eq!(parse_ts_packet(&p), Some((b"no header".to_vec(), 0)));
    let mut p = packet(false, 0x100, b"raw");
    p[0] = 0x48;
    assert_eq!(parse_ts_packet(&p), None);
    let mut p = packet(false, 0x100, b"raw");
    p[3] = 0x20;
    assert_eq!(parse_ts_packet(&p), None);
    let mut p = packet(false, 0x100, b"raw");
    p[4] = 183;
    assert_eq!(parse_ts_packet(&p), None);
}

#[test]
fn streams_in_pieces() {
    let mut stream = packet(true, 0x100, &pes(Some(5), b"one"));
    stream.extend(packet(false, 0x100, b"two"));
    stream.extend(packet(true, 0x100, &pes(Some(6), b"three")));
    let whole = TsParser::new().feed(&stream);
    assert_eq!(
        whole,
        [(b"one".to_vec(), 5), (b"two".to_vec(), 0), (b"three".to_vec(), 6)]
    );
    let mut parser = TsParser::new();
    let mut got = Vec::new();
    for piece in stream.chunks(100) {
        got.extend(parser.feed(piece));
    }
    assert_eq!(got, whole);
}

#[test]
fn pictures_are_paced() {
    let mut q: FrameQueue<u32> = FrameQueue::new(30);
    assert!(q.next_frame(0).is_none());
    for i in 0..3 {
        q.push(Frame { picture: i, pts: 33 * (i as u64 + 1) });
    }
    let f = q.next_frame(1_000).unwrap();
    assert_eq!((f.picture, f.pts), (0, 33));
    // the next is due 33 ms later
    assert!(q.next_frame(1_000 + 32_999_999).is_none());
    assert_eq!(q.next_frame(1_000 + 33_000_000).unwrap().picture, 1);
    assert_eq!(q.len(), 1);
    assert_eq!(q.stats(), (0, 0));
}

#[test]
fn late_pictures_are_dropped() {
    let mut q: FrameQueue<u32> = FrameQueue::new(30);
    for i in 0..5 {
        q.push(Frame { picture: i, pts: 10 + i as u64 });
    }
    // the first is shown; the next are behind, until two are left
    assert_eq!(q.next_frame(0).unwrap().picture, 0);
    assert_eq!(q.len(), 2);
    assert_eq!(q.stats(), (2, 0));
    assert_eq!(q.pop().unwrap().picture, 3);
}

#[test]
fn queue_is_bounded() {
    let mut q: FrameQueue<u32> = FrameQueue::new(30);
    for i in 0..25 {
        q.push(Frame { picture: i, pts: 1 });
        assert!(q.len() <= MAX_QUEUE_SIZE);
    }
    assert_eq!(q.stats().0, 15);
    assert_eq!(q.pop().unwrap().picture, 15);
    // a first picture far from the last one shown goes
    let mut q: FrameQueue<u32> = FrameQueue::new(30);
    q.push(Frame { picture: 1, pts: 100 });
    q.push(Frame { picture: 2, pts: 100 });
    assert_eq!((q.len(), q.stats().0), (1, 1));
}

fn picture(level: u8) -> Picture {
    Picture { width: 2, height: 2, stride: 3, luma: vec![level, 1, 9, 2, 3, 9] }
}

#[test]
fn decoder_keeps_pictures() {
    let mut d = VideoDecoder::new().unwrap();
    assert_eq!(d.feed(&packet(true, 0x100, &pes(Some(5), b""))), Ok(false));
    d.decoded(picture(7), 6);
    assert_eq!(d.dimensions(), (2, 2));
    assert_eq!(d.next_frame(0).unwrap().luma[0], 7);
    d.decoded(picture(8), 7);
    // after a paced picture the first call gives none
    assert!(d.take_frame().is_none());
    assert_eq!(d.take_frame().unwrap().luma[0], 8);
    assert!(d.take_frame().is_none());
    assert_eq!(d.frame_stats(), (0, 0));
}

#[test]
fn rows_leave_out_what_stands_between() {
    assert_eq!(picture(7).rows().unwrap(), [7, 1, 2, 3]);
    let mut p = picture(7);
    p.luma.pop();
    assert!(p.rows().is_none());
    assert!(Picture { stride: 1, ..picture(7) }.rows().is_none());
    assert!(Picture { height: -1, ..picture(7) }.rows().is_none());
    assert!(Picture { width: 0, ..picture(7) }.rows().unwrap().is_empty());
}

fn grey(level: u8) -> YUVBuffer {
    YUVBuffer::with_rgb(16, 16, &[level; 16 * 16 * 3])
}

/// A picture of one grey as a stream that starts with it.
fn coded(level: u8) -> Vec<u8> {
    let config = EncoderConfig::new(16, 16);
    let mut encoder = Encoder::with_config(OpenH264API::from_source(), config).unwrap();
    encoder.encode(&grey(level)).unwrap().to_vec()
}

#[test]
fn units_are_decoded() {
    let unit = coded(200);
    let stream = packet(true, 0x100, &pes(Some(6), &unit));
    let mut d = VideoDecoder::new().unwrap();
    assert_eq!(d.feed(&stream[..100]), Ok(false));
    assert_eq!(d.waiting(), 100);
    assert_eq!(d.feed(&stream[100..]), Ok(true));
    assert_eq!(d.waiting(), 0);
    assert_eq!(d.dimensions(), (16, 16));
    let p = d.next_frame(0).unwrap();
    let mut other = Decoder::new(OpenH264API::from_source()).unwrap();
    let same = other.decode(&unit).unwrap().unwrap();
    assert_eq!((p.width, p.height, p.stride), (16, 16, same.y_stride()));
    assert_eq!(p.luma, same.y());
    let want = grey(200).y()[0] as i32;
    let rows = p.rows().unwrap();
    assert_eq!(rows.len(), 256);
    assert!(rows.iter().all(|&y| (y as i32 - want).abs() <= 8));
}

#[test]
fn refused_units_end_the_piece() {
    let mut d = VideoDecoder::new().unwrap();
    // a picture without the parameters that come before it
    let mut stream = packet(true, 0x100, &pes(Some(5), &[0, 0, 0, 1, 0x65, 0x88, 0x84, 0x00]));
    stream.extend(packet(true, 0x100, &pes(Some(6), &coded(200))));
    assert_eq!(d.feed(&stream), Err(VideoFault::NotDecoded));
    assert_eq!(d.waiting(), 0);
    assert!(d.take_frame().is_none());
    assert_eq!(d.dimensions(), (0, 0));
}

#[test]
fn viewer_gestures() {
    let ms = enumerate_monitors();
    assert_eq!(primary_index(&ms), 0);
    assert_eq!(monitor_label(&ms[0]), "Primary Monitor (Primary) - 1920x1080 at (0, 0)");
    let side = MonitorInfo {
        index: 1,
        name: "Side".into(),
        x: -800,
        y: 10,
        width: 800,
        height: 600,
        is_primary: false,
    };
    assert_eq!(monitor_label(&side), "Side - 800x600 at (-800, 10)");
    let mut v = Viewer::new(&ms);
    assert_eq!((v.width, v.height), (1920, 1080));
    assert!(!v.connect());
    v.select_monitor(1, &side);
    assert_eq!((v.selected_monitor, v.offset_x, v.offset_y), (1, -800, 10));
    v.show_monitor_selector = false;
    assert!(v.connect());
    assert!(!v.connect());
    assert_eq!(v.on_focus(true), None);
    assert_eq!(v.on_focus(false), Some(ViewerAsk::VideoPause));
    assert_eq!(v.on_focus(true), Some(ViewerAsk::VideoResume));
    assert!(v.on_keys(&vec!["F1".to_string()]).is_empty());
    assert!(v.osd_visible);
    assert_eq!(v.toggle_input(), ViewerAsk::InputStart);
    assert_eq!(v.on_key("F1"), None);
    assert!(!v.osd_visible);
    assert_eq!(v.on_key("F2"), Some(ViewerAsk::InputStop));
    assert!(!v.input_running);
    assert_eq!(grade_rtt(49), Grade::Good);
    assert_eq!(grade_rtt(50), Grade::Fair);
    assert_eq!(grade_rtt(100), Grade::Poor);
}

#[test]
fn input_messages() {
    assert_eq!(keyboard_event(0x100, 65, 30, 1), InputEvent::KeyDown { vk: 65, scan: 30, flags: 1 });
    assert_eq!(keyboard_event(0x104, 65, 30, 1), InputEvent::KeyDown { vk: 65, scan: 30, flags: 1 });
    assert_eq!(keyboard_event(0x101, 65, 30, 1), InputEvent::KeyUp { vk: 65, scan: 30, flags: 3 });
    assert_eq!(mouse_event(0x200, 1, 2, 0), Some(InputEvent::MouseMove { x: 1, y: 2, flags: 0 }));
    assert_eq!(
        mouse_event(0x201, 1, 2, 0),
        Some(InputEvent::MouseDown { button: 0, x: 1, y: 2, flags: 0 })
    );
    assert_eq!(
        mouse_event(0x205, 1, 2, 0),
        Some(InputEvent::MouseUp { button: 1, x: 1, y: 2, flags: 0 })
    );
    assert_eq!(
        mouse_event(0x20A, 1, 2, (-120i16 as u16 as u32) << 16),
        Some(InputEvent::MouseWheel { delta: -120, x: 1, y: 2, flags: 0 })
    );
    assert_eq!(
        mouse_event(0x20A, 1, 2, 120 << 16 | 7),
        Some(InputEvent::MouseWheel { delta: 120, x: 1, y: 2, flags: 0 })
    );
    assert_eq!(
        mouse_event(0x20B, 1, 2, 1),
        Some(InputEvent::MouseDown { button: 3, x: 1, y: 2, flags: 0 })
    );
    assert_eq!(
        mouse_event(0x20C, 1, 2, 0x1_0002),
        Some(InputEvent::MouseUp { button: 4, x: 1, y: 2, flags: 0 })
    );
    assert_eq!(mouse_event(0x207, 1, 2, 0), None);
    assert_eq!(key_to_vk("A"), 0x41);
    assert_eq!(key_to_vk("Z"), 0x5A);
    assert_eq!(key_to_vk("9"), 0x39);
    assert_eq!(key_to_vk("Down"), 0x28);
    assert_eq!(key_to_vk("Enter"), 0x0D);
    assert_eq!(key_to_vk("F5"), 0);
    assert_eq!(key_to_vk("a"), 0);
}

#[test]
fn sound_is_set_up_first() {
    let mut m = AudioManager::new();
    m.start_playback();
    assert!(!m.feed_audio());
    assert_eq!(m.init_playback(Some("no device".into())), Err("no device".into()));
    assert!(m.player.is_none());
    m.init_playback(None).unwrap();
    assert!(!m.feed_audio());
    m.start_playback();
    assert!(m.feed_audio());
    m.stop_playback();
    assert!(!m.feed_audio());
    assert!(!m.start_capture());
    m.init_capture();
    assert!(m.start_capture());
    assert!(!m.start_capture());
    m.stop_capture();
    assert!(m.start_capture());
}

fn idle() -> Gestures {
    Gestures {
        picked: None,
        connect_pressed: false,
        focused: true,
        browser_pressed: false,
        input_pressed: false,
        keys: vec![],
    }
}

#[test]
fn viewer_rounds() {
    let ms = enumerate_monitors();
    let mut v = Viewer::new(&ms);
    // the monitor is chosen first, then the viewer connects, once
    let (now, asks) = v.update(&ms, &Gestures { picked: Some(0), connect_pressed: true, ..idle() });
    assert!(!now && asks.is_empty() && !v.show_monitor_selector);
    assert!(v.update(&ms, &idle()).0);
    assert!(!v.update(&ms, &idle()).0);
    let (_, asks) = v.update(&ms, &Gestures { focused: false, browser_pressed: true, ..idle() });
    assert_eq!(asks, [ViewerAsk::VideoPause]);
    assert!(v.show_file_browser);
    let (_, asks) = v.update(&ms, &Gestures { input_pressed: true, ..idle() });
    assert_eq!(asks, [ViewerAsk::VideoResume, ViewerAsk::InputStart]);
    let keys = vec!["F2".to_string(), "F1".to_string(), "A".to_string(), "F2".to_string()];
    let (_, asks) = v.update(&ms, &Gestures { keys, ..idle() });
    assert_eq!(asks, [ViewerAsk::InputStop, ViewerAsk::InputStart]);
    assert!(v.input_running && !v.osd_visible);
    assert!(v.update(&ms, &Gestures { picked: Some(7), ..idle() }).1.is_empty());
}

#[test]
fn figures_on_the_screen() {
    let facts = OsdFacts {
        bitrate_kbps: 4200,
        rtt_ms: 67,
        input_active: false,
        dropped: 3,
        duplicated: 0,
        connected: true,
    };
    let rows: Vec<(&str, String, Grade)> =
        osd_rows(&facts).into_iter().map(|r| (r.label, r.value, r.grade)).collect();
    assert_eq!(
        rows,
        [
            ("Bitrate:", "4200 kbps".to_string(), Grade::Plain),
            ("RTT:", "67 ms".to_string(), Grade::Fair),
            ("Input:", "INACTIVE".to_string(), Grade::Muted),
            ("Dropped:", "3".to_string(), Grade::Poor),
            ("  Dup:", "0".to_string(), Grade::Fair),
            ("Status:", "CONNECTED".to_string(), Grade::Good),
        ]
    );
}

#[test]
fn windows_paint_the_latest_picture() {
    let mut w = VideoWindow::new();
    assert!(matches!(w.painted(), Painted::Text("Connecting…")));
    w.push_ts(b"one");
    w.push_ts(b"two");
    w.pump();
    assert_eq!(w.next_ts(), Some(b"one".to_vec()));
    assert_eq!(w.next_ts(), Some(b"two".to_vec()));
    assert_eq!(w.next_ts(), None);
    w.set_status("waiting");
    assert!(matches!(w.painted(), Painted::Text("waiting")));
    w.decoder_stopped("early end");
    assert!(matches!(w.painted(), Painted::Text("Video decoder stopped (early end)")));
    w.push_frame(vec![1, 2, 3]);
    w.push_frame(vec![4, 5, 6]);
    w.set_status("hidden");
    assert!(matches!(w.painted(), Painted::Picture(&[4, 5, 6])));
    assert_eq!(FRAME_BYTES, 2_764_800);
    let args = decoder_args();
    assert_eq!(args.len(), 20);
    assert_eq!(args[13..17], ["-vf", "scale=1280:720", "-pix_fmt", "bgr24"]);
}

#[test]
fn the_picture_that_came_is_last() {
    let mut q: FrameQueue<u32> = FrameQueue::new(30);
    for i in 0..25 {
        q.push(Frame { picture: i, pts: i as u64 });
    }
    let mut last = 0;
    while let Some(f) = q.pop() {
        last = f.picture;
    }
    assert_eq!(last, 24);
}

#[test]
fn packets_are_read_from_the_start() {
    let p = packet(true, 0x100, &pes(Some(9), b"nal"));
    let whole = parse_ts_packet(&p);
    assert_eq!(whole, Some((b"nal".to_vec(), 9)));
    assert_eq!(parse_ts_packet(&p[..187].to_vec()), None);
    assert_eq!(parse_ts_packet(&vec![]), None);
    let mut longer = p.clone();
    longer.extend(b"more");
    assert_eq!(parse_ts_packet(&longer), whole);
}

#[test]
fn times_are_signed_numbers() {
    let mut q: FrameQueue<u32> = FrameQueue::new(30);
    q.push(Frame { picture: 1, pts: u64::MAX });
    // one before the beginning is near to it
    q.push(Frame { picture: 2, pts: u64::MAX - 200 });
    assert_eq!((q.len(), q.stats().0), (2, 0));
    let _ = q.pop();
    q.push(Frame { picture: 3, pts: 0 });
    assert_eq!((q.len(), q.stats().0), (1, 1));
}

#[test]
fn times_count_from_the_first() {
    let start = 900_000;
    let begun = || {
        let mut d = VideoDecoder::new().unwrap();
        assert_eq!(d.feed(&packet(true, 0x100, &pes(Some(start), b""))), Ok(false));
        d
    };
    // 99 ms are three intervals, 100 ms are more
    for (ms, dropped) in [(0, 0), (99, 0), (100, 1)] {
        let mut d = begun();
        d.decoded(picture(1), start + 90 * ms);
        d.decoded(picture(2), start + 90 * ms);
        assert_eq!(d.frame_stats().0, dropped, "{} ms", ms);
    }
    // a time from before the first, and none, count as the beginning
    let mut d = begun();
    d.decoded(picture(1), 5);
    d.decoded(picture(2), 0);
    d.decoded(picture(3), start + 90 * 33);
    assert_eq!(d.frame_stats().0, 0);
    // a later time does not move the beginning
    let mut d = begun();
    assert_eq!(d.feed(&packet(true, 0x100, &pes(Some(start + 9_000), b""))), Ok(false));
    d.decoded(picture(1), start + 9_000);
    d.decoded(picture(2), start + 9_000);
    assert_eq!(d.frame_stats().0, 1);
    let mut d = VideoDecoder::new().unwrap();
    let mut stream = packet(true, 0x100, &pes(Some(start), &coded(200)));
    stream.extend(packet(true, 0x100, &pes(Some(start + 90 * 33), &coded(100))));
    assert_eq!(d.feed(&stream), Ok(true));
    assert_eq!(d.frame_stats(), (0, 0));
    assert!(d.next_frame(0).is_some());
    assert!(d.next_frame(33_000_000).is_some());
}

#[test]
fn events_are_written_in_order() {
    assert_eq!(input_message(&vec![]), "[]");
    let text = input_message(&vec![
        InputEvent::KeyUp { vk: 65535, scan: 1, flags: u32::MAX },
        InputEvent::MouseMove { x: -1, y: i32::MIN, flags: 0 },
        InputEvent::MouseDown { button: 3, x: 4, y: 5, flags: 6 },
        InputEvent::MouseUp { button: 0, x: 0, y: 0, flags: 0 },
        InputEvent::MouseWheel { delta: -120, x: 7, y: 8, flags: 9 },
    ]);
    assert_eq!(
        text,
        "[{\"KeyUp\":{\"vk\":65535,\"scan\":1,\"flags\":4294967295}},\
         {\"MouseMove\":{\"x\":-1,\"y\":-2147483648,\"flags\":0}},\
         {\"MouseDown\":{\"button\":3,\"x\":4,\"y\":5,\"flags\":6}},\
         {\"MouseUp\":{\"button\":0,\"x\":0,\"y\":0,\"flags\":0}},\
         {\"MouseWheel\":{\"delta\":-120,\"x\":7,\"y\":8,\"flags\":9}}]"
    );
    let parsed: serde_json::Value = serde_json::from_str(&text).unwrap();
    assert_eq!(parsed[4]["MouseWheel"]["delta"], -120);
    assert_eq!(parsed.as_array().unwrap().len(), 5);
}
