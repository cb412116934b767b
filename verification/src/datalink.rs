//! The client's side of the data link: the key, the heartbeats, and what each
//! frame is for.

use crate::bytes::copy_bytes;
use crate::host_session::{elapsed, elapsed_since, round_trip};
use crate::message::{INPUT_START_MESSAGE, KEYFRAME_MESSAGE, video_start_message, video_start_text};
use crate::mux::{
    DL_CH_AUDIO, DL_CH_CHUNK, DL_CH_CONTROL, DL_CH_INPUT, DL_CH_META, DL_CH_VIDEO, dl_frame,
    dl_parse, mux_bytes, mux_frame, mux_reads_back,
};
use crate::text::{
    cat2, cat3, contains, dec, decimal, has_part, is_digit, lemma_decimal, same_bytes,
};
use vstd::prelude::*;
use vstd::string::*;
use vstd::utf8::*;

verus! {

/// How long the link may be silent, in nanoseconds: 15 seconds.
pub const DL_STALE: u64 = 15_000_000_000;

/// How often a bitrate is asked for, in nanoseconds: 5 seconds.
pub const BITRATE_REQUEST_INTERVAL: u64 = 5_000_000_000;

/// How often a broken link is taken up again.
pub const MAX_RECONNECT_ATTEMPTS: u32 = 5;

/// How long to wait before that, in nanoseconds: 2 seconds.
pub const RECONNECT_DELAY: u64 = 2_000_000_000;

// ---------------------------------------------------------------- the way there

/// Where the data link goes: to the host and the port of the ticket, unless the
/// environment names others.
pub fn data_address(
    ip: &str,
    port: &str,
    dl_host: Option<String>,
    dl_port: Option<String>,
) -> (s: String)
    ensures
        s@ == (if dl_host is Some { dl_host->0@ } else { ip@ }) + ":"@ + (if dl_port is Some {
            dl_port->0@
        } else {
            port@
        }),
{
    let h = match dl_host {
        Some(h) => h,
        None => String::from_str(ip),
    };
    let p = match dl_port {
        Some(p) => p,
        None => String::from_str(port),
    };
    cat3(&h, ":", &p)
}

/// The address as the websocket wants it.
pub fn data_url(addr: &str) -> (s: String)
    ensures
        s@ == "ws://"@ + addr@ + "/"@,
{
    cat3("ws://", addr, "/")
}

/// The data layer has accepted the key.
pub open spec fn is_ack(text: Seq<char>) -> bool {
    has_part(text, "\"ok\":true"@) || has_part(text, "\"ok\": true"@)
}

/// Whether an answer to the key says that it is accepted.
pub fn accepts_key(text: &str) -> (r: bool)
    ensures
        r == is_ack(text@),
{
    contains(text, "\"ok\":true") || contains(text, "\"ok\": true")
}

/// The first messages on a link that is up: the video that is wanted, the input
/// capture if one was running, and a key frame.
pub open spec fn opening(
    monitor_index: u32,
    offset_x: i32,
    offset_y: i32,
    width: u32,
    height: u32,
    input_running: bool,
) -> Seq<(u8, Seq<char>)> {
    let start = (
        DL_CH_VIDEO,
        video_start_message(monitor_index, offset_x, offset_y, width, height),
    );
    let key = (DL_CH_VIDEO, KEYFRAME_MESSAGE@);
    if input_running {
        seq![start, (DL_CH_INPUT, INPUT_START_MESSAGE@), key]
    } else {
        seq![start, key]
    }
}

/// Messages with their channels.
pub open spec fn sent(v: Seq<(u8, String)>) -> Seq<(u8, Seq<char>)> {
    v.map_values(|m: (u8, String)| (m.0, m.1@))
}

/// The first messages on a link that is up.
pub fn opening_messages(
    monitor_index: u32,
    offset_x: i32,
    offset_y: i32,
    width: u32,
    height: u32,
    input_running: bool,
) -> (r: Vec<(u8, String)>)
    ensures
        sent(r@) == opening(monitor_index, offset_x, offset_y, width, height, input_running),
{
    let mut r: Vec<(u8, String)> = Vec::new();
    r.push((DL_CH_VIDEO, video_start_text(monitor_index, offset_x, offset_y, width, height)));
    if input_running {
        r.push((DL_CH_INPUT, String::from_str(INPUT_START_MESSAGE)));
    }
    r.push((DL_CH_VIDEO, String::from_str(KEYFRAME_MESSAGE)));
    assert(sent(r@) =~= opening(monitor_index, offset_x, offset_y, width, height, input_running));
    r
}

// ---------------------------------------------------------------- model

/// A link that is up. Moments are nanoseconds of a clock that never goes back;
/// heartbeats carry milliseconds of the wall clock.
#[derive(Clone, Copy, Debug, PartialEq, Eq, Structural)]
pub struct DataLink {
    pub last_seen: u64,
    /// The heartbeat whose answer is awaited.
    pub awaiting: Option<u128>,
    /// The last round trip, in milliseconds.
    pub rtt_ms: u128,
    pub last_bitrate_request: u64,
    pub video_bytes: u64,
    pub measured_since: u64,
}

/// What a frame is for.
pub enum LinkActionView {
    Nothing,
    /// Send a frame.
    Send { frame: Seq<u8> },
    /// The round trip of a heartbeat, in milliseconds.
    RoundTrip(u128),
    Meta { payload: Seq<u8> },
    Chunk { payload: Seq<u8> },
    Video { payload: Seq<u8> },
    Audio { payload: Seq<u8> },
}

/// How a link ends.
#[derive(Clone, Copy, Debug, PartialEq, Eq, Structural)]
pub enum LinkResult {
    /// It was stopped.
    Stopped,
    /// It was lost, and is to be taken up again.
    Reconnect,
}

/// The bytes of a heartbeat's moment.
pub open spec fn moment_bytes(ms: u128) -> Seq<u8> {
    encode_utf8(decimal(ms as nat))
}

pub open spec fn ms_since(now_ms: u128, sent_ms: u128) -> u128 {
    if now_ms >= sent_ms { (now_ms - sent_ms) as u128 } else { 0 }
}

/// The step of a link on a frame of its control channel: a heartbeat is
/// answered by its own bytes, an answer gives the round trip if it is the one
/// that is awaited.
pub open spec fn control_step(l: DataLink, payload: Seq<u8>, now: u64, now_ms: u128) -> (
    DataLink,
    LinkActionView,
) {
    if payload.len() > 0 && payload[0] == 0x50 {
        (
            DataLink { last_seen: now, ..l },
            LinkActionView::Send { frame: mux_bytes(DL_CH_CONTROL, payload) },
        )
    } else if payload.len() > 0 && payload[0] == 0x51 {
        let seen = DataLink { last_seen: now, ..l };
        match l.awaiting {
            Some(ms) => if payload.skip(1) == moment_bytes(ms) {
                let rtt = ms_since(now_ms, ms);
                (
                    DataLink { awaiting: None, rtt_ms: rtt, ..seen },
                    LinkActionView::RoundTrip(rtt),
                )
            } else {
                (seen, LinkActionView::Nothing)
            },
            None => (seen, LinkActionView::Nothing),
        }
    } else {
        (l, LinkActionView::Nothing)
    }
}

/// The step of a link on the bytes of a frame. Unknown channels are dropped.
pub open spec fn link_step(l: DataLink, buf: Seq<u8>, now: u64, now_ms: u128) -> (
    DataLink,
    LinkActionView,
) {
    match mux_frame(buf) {
        None => (l, LinkActionView::Nothing),
        Some((channel, payload)) => if channel == DL_CH_CONTROL {
            control_step(l, payload, now, now_ms)
        } else if channel == DL_CH_META {
            (l, LinkActionView::Meta { payload })
        } else if channel == DL_CH_CHUNK {
            (l, LinkActionView::Chunk { payload })
        } else if channel == DL_CH_VIDEO {
            (
                DataLink { video_bytes: (l.video_bytes + payload.len()) as u64, ..l },
                LinkActionView::Video { payload },
            )
        } else if channel == DL_CH_AUDIO {
            (l, LinkActionView::Audio { payload })
        } else {
            (l, LinkActionView::Nothing)
        },
    }
}

/// The bytes of a heartbeat.
pub open spec fn ping_payload(ms: u128) -> Seq<u8> {
    encode_utf8("P"@ + decimal(ms as nat))
}

// ---------------------------------------------------------------- execution

/// What a frame is for.
pub enum LinkAction {
    Nothing,
    Send { frame: Vec<u8> },
    RoundTrip(u128),
    Meta { payload: Vec<u8> },
    Chunk { payload: Vec<u8> },
    Video { payload: Vec<u8> },
    Audio { payload: Vec<u8> },
}

impl View for LinkAction {
    type V = LinkActionView;

    open spec fn view(&self) -> LinkActionView {
        match self {
            LinkAction::Nothing => LinkActionView::Nothing,
            LinkAction::Send { frame } => LinkActionView::Send { frame: frame@ },
            LinkAction::RoundTrip(ms) => LinkActionView::RoundTrip(*ms),
            LinkAction::Meta { payload } => LinkActionView::Meta { payload: payload@ },
            LinkAction::Chunk { payload } => LinkActionView::Chunk { payload: payload@ },
            LinkAction::Video { payload } => LinkActionView::Video { payload: payload@ },
            LinkAction::Audio { payload } => LinkActionView::Audio { payload: payload@ },
        }
    }
}

impl DataLink {
    /// A link that has just come up. The round trip is taken to be 50 ms until
    /// one is measured.
    pub fn up(now: u64) -> (l: Self)
        ensures
            l == (DataLink {
                last_seen: now,
                awaiting: None,
                rtt_ms: 50,
                last_bitrate_request: now,
                video_bytes: 0,
                measured_since: now,
            }),
    {
        DataLink {
            last_seen: now,
            awaiting: None,
            rtt_ms: 50,
            last_bitrate_request: now,
            video_bytes: 0,
            measured_since: now,
        }
    }

    fn on_control(&mut self, payload: &Vec<u8>, now: u64, now_ms: u128) -> (a: LinkAction)
        ensures
            (*final(self), a@) == control_step(*old(self), payload@, now, now_ms),
    {
        if payload.len() > 0 && payload[0] == 0x50 {
            self.last_seen = now;
            LinkAction::Send { frame: dl_frame(DL_CH_CONTROL, payload.as_slice()) }
        } else if payload.len() > 0 && payload[0] == 0x51 {
            self.last_seen = now;
            match self.awaiting {
                Some(ms) => {
                    let rest = copy_bytes(payload.as_slice(), 1, payload.len());
                    assert(rest@ =~= payload@.skip(1));
                    let want = dec(ms);
                    if same_bytes(rest.as_slice(), want.as_str().as_bytes()) {
                        let rtt: u128 = round_trip(now_ms, ms);
                        self.awaiting = None;
                        self.rtt_ms = rtt;
                        LinkAction::RoundTrip(rtt)
                    } else {
                        LinkAction::Nothing
                    }
                },
                None => LinkAction::Nothing,
            }
        } else {
            LinkAction::Nothing
        }
    }

    /// Takes the bytes of a frame.
    pub fn on_binary(&mut self, buf: &[u8], now: u64, now_ms: u128) -> (a: LinkAction)
        requires
            old(self).video_bytes + buf@.len() <= u64::MAX,
        ensures
            (*final(self), a@) == link_step(*old(self), buf@, now, now_ms),
    {
        match dl_parse(buf) {
            None => LinkAction::Nothing,
            Some((channel, payload)) => if channel == DL_CH_CONTROL {
                self.on_control(&payload, now, now_ms)
            } else if channel == DL_CH_META {
                LinkAction::Meta { payload }
            } else if channel == DL_CH_CHUNK {
                LinkAction::Chunk { payload }
            } else if channel == DL_CH_VIDEO {
                self.video_bytes = self.video_bytes + payload.len() as u64;
                LinkAction::Video { payload }
            } else if channel == DL_CH_AUDIO {
                LinkAction::Audio { payload }
            } else {
                LinkAction::Nothing
            },
        }
    }

    /// Looks after the link when nothing came in for a while: a link that has
    /// been silent too long is lost; else a heartbeat is sent, whose answer is
    /// then awaited.
    pub fn on_idle(&mut self, now: u64, now_ms: u128) -> (r: Result<Vec<u8>, LinkResult>)
        ensures
            r is Err == (elapsed(old(self).last_seen, now) >= DL_STALE),
            r matches Err(e) ==> e == LinkResult::Reconnect && *final(self) == *old(self),
            r matches Ok(frame) ==> frame@ == mux_bytes(DL_CH_CONTROL, ping_payload(now_ms))
                && *final(self) == (DataLink { awaiting: Some(now_ms), ..*old(self) }),
    {
        if elapsed_since(self.last_seen, now) >= DL_STALE {
            return Err(LinkResult::Reconnect);
        }
        let ms = dec(now_ms);
        let text = cat2("P", &ms);
        self.awaiting = Some(now_ms);
        Ok(dl_frame(DL_CH_CONTROL, text.as_str().as_bytes()))
    }

    /// Whether a bitrate is to be asked for.
    pub fn bitrate_due(&self, now: u64) -> (r: bool)
        ensures
            r == (elapsed(self.last_bitrate_request, now) >= BITRATE_REQUEST_INTERVAL),
    {
        elapsed_since(self.last_bitrate_request, now) >= BITRATE_REQUEST_INTERVAL
    }

    /// Notes that a bitrate was asked for: a new measurement begins.
    pub fn bitrate_requested(&mut self, now: u64)
        ensures
            *final(self) == (DataLink {
                last_bitrate_request: now,
                video_bytes: 0,
                measured_since: now,
                ..*old(self)
            }),
    {
        self.last_bitrate_request = now;
        self.video_bytes = 0;
        self.measured_since = now;
    }
}

/// A heartbeat and its answer give the round trip, and the link counts as seen.
pub proof fn heartbeat_round_trip(l: DataLink, ms: u128, now: u64, now_ms: u128)
    requires
        l.awaiting == Some(ms),
    ensures
        ({
            let answer = seq![0x51u8] + moment_bytes(ms);
            link_step(l, mux_bytes(DL_CH_CONTROL, answer), now, now_ms) == (
                DataLink { last_seen: now, awaiting: None, rtt_ms: ms_since(now_ms, ms), ..l },
                LinkActionView::RoundTrip(ms_since(now_ms, ms)),
            )
        }),
{
    let answer = seq![0x51u8] + moment_bytes(ms);
    lemma_decimal_short(ms);
    assert(answer.skip(1) =~= moment_bytes(ms));
    let f = mux_bytes(DL_CH_CONTROL, answer);
    mux_reads_back(DL_CH_CONTROL, answer, Seq::empty());
    assert(f + Seq::<u8>::empty() =~= f);
}

/// The digits of a number are bytes, and few.
pub proof fn lemma_decimal_short(n: u128)
    ensures
        moment_bytes(n).len() < 100,
{
    lemma_decimal(n as nat);
    lemma_decimal_len(n as nat, 39);
    let d = decimal(n as nat);
    assert(is_ascii_chars(d)) by {
        assert forall|i: int| 0 <= i < d.len() implies '\0' <= #[trigger] d[i] <= '\u{7f}' by {
            assert(is_digit(d[i]));
        }
    }
    is_ascii_chars_encode_utf8(d);
}

/// Ten to the power of `k`.
spec fn pow10(k: nat) -> nat
    decreases k,
{
    if k == 0 { 1 } else { 10 * pow10((k - 1) as nat) }
}

proof fn lemma_decimal_len(n: nat, k: nat)
    requires
        k >= 1,
        n < pow10(k) || k >= 39 && n <= u128::MAX,
    ensures
        decimal(n).len() <= k,
    decreases k,
{
    if n >= 10 {
        if k == 1 {
            assert(pow10(1) == 10) by {
                assert(pow10(0) == 1);
            }
        } else if n < pow10(k) {
            lemma_decimal_len(n / 10, (k - 1) as nat);
        } else {
            lemma_pow10_39();
            assert(n < pow10(39));
            lemma_pow10_rises(39, k);
        }
    }
}

proof fn lemma_pow10_rises(a: nat, b: nat)
    requires
        a <= b,
    ensures
        pow10(a) <= pow10(b),
    decreases b,
{
    if a < b {
        lemma_pow10_rises(a, (b - 1) as nat);
    }
}

proof fn lemma_pow10_39()
    ensures
        pow10(39) > u128::MAX,
{
    reveal_with_fuel(pow10, 40);
}

// ---------------------------------------------------------------- a link from its start to its end

/// How far a link has come.
#[derive(Clone, Copy, Debug, PartialEq, Eq, Structural)]
pub enum LinkStage {
    /// The key was sent, its acceptance is awaited.
    Keyed,
    Up(DataLink),
    Ended(LinkResult),
}

/// What happens on a link.
pub enum LinkEventView {
    /// The user ends the session.
    Stop,
    Text(Seq<char>),
    Binary(Seq<u8>),
    /// The other side has closed the link.
    Closed,
    /// Nothing came in for a while.
    Idle,
    /// The link is broken, or could not be made.
    Broken,
}

/// What is to be done on a link.
pub enum LinkStepView {
    Nothing,
    /// The link is up: send the first messages.
    Open,
    /// A frame came in.
    Frame(LinkActionView),
    /// Send a heartbeat.
    Ping { frame: Seq<u8> },
    /// The link has ended; with `keep`, note how far the transfers have come.
    End { result: LinkResult, keep: bool },
}

/// The step of a link on an event.
pub open spec fn link_session_step(s: LinkStage, ev: LinkEventView, now: u64, now_ms: u128) -> (
    LinkStage,
    LinkStepView,
) {
    match s {
        LinkStage::Keyed => match ev {
            LinkEventView::Stop => end_of_link(LinkResult::Stopped, false),
            LinkEventView::Text(t) => if is_ack(t) {
                (LinkStage::Up(fresh_link(now)), LinkStepView::Open)
            } else {
                end_of_link(LinkResult::Reconnect, false)
            },
            LinkEventView::Closed => end_of_link(LinkResult::Reconnect, false),
            LinkEventView::Broken => end_of_link(LinkResult::Reconnect, false),
            _ => (s, LinkStepView::Nothing),
        },
        LinkStage::Up(l) => match ev {
            LinkEventView::Stop => end_of_link(LinkResult::Stopped, true),
            LinkEventView::Binary(buf) => {
                let (m, a) = link_step(l, buf, now, now_ms);
                (LinkStage::Up(m), LinkStepView::Frame(a))
            },
            LinkEventView::Text(_) => (s, LinkStepView::Nothing),
            LinkEventView::Idle => if elapsed(l.last_seen, now) >= DL_STALE {
                end_of_link(LinkResult::Reconnect, true)
            } else {
                (
                    LinkStage::Up(DataLink { awaiting: Some(now_ms), ..l }),
                    LinkStepView::Ping { frame: mux_bytes(DL_CH_CONTROL, ping_payload(now_ms)) },
                )
            },
            LinkEventView::Closed => end_of_link(LinkResult::Reconnect, true),
            LinkEventView::Broken => end_of_link(LinkResult::Reconnect, true),
        },
        LinkStage::Ended(_) => (s, LinkStepView::Nothing),
    }
}

pub open spec fn end_of_link(result: LinkResult, keep: bool) -> (LinkStage, LinkStepView) {
    (LinkStage::Ended(result), LinkStepView::End { result, keep })
}

/// A link that has just come up.
pub open spec fn fresh_link(now: u64) -> DataLink {
    DataLink {
        last_seen: now,
        awaiting: None,
        rtt_ms: 50,
        last_bitrate_request: now,
        video_bytes: 0,
        measured_since: now,
    }
}

/// What happens on a link.
pub enum LinkEvent<'a> {
    Stop,
    Text(&'a str),
    Binary(&'a [u8]),
    Closed,
    Idle,
    Broken,
}

impl<'a> View for LinkEvent<'a> {
    type V = LinkEventView;

    open spec fn view(&self) -> LinkEventView {
        match self {
            LinkEvent::Stop => LinkEventView::Stop,
            LinkEvent::Text(t) => LinkEventView::Text(t@),
            LinkEvent::Binary(b) => LinkEventView::Binary(b@),
            LinkEvent::Closed => LinkEventView::Closed,
            LinkEvent::Idle => LinkEventView::Idle,
            LinkEvent::Broken => LinkEventView::Broken,
        }
    }
}

/// What is to be done on a link.
pub enum LinkStep {
    Nothing,
    Open,
    Frame(LinkAction),
    Ping { frame: Vec<u8> },
    End { result: LinkResult, keep: bool },
}

impl View for LinkStep {
    type V = LinkStepView;

    open spec fn view(&self) -> LinkStepView {
        match self {
            LinkStep::Nothing => LinkStepView::Nothing,
            LinkStep::Open => LinkStepView::Open,
            LinkStep::Frame(a) => LinkStepView::Frame(a@),
            LinkStep::Ping { frame } => LinkStepView::Ping { frame: frame@ },
            LinkStep::End { result, keep } => LinkStepView::End { result: *result, keep: *keep },
        }
    }
}

/// The bytes of video that a link can still count.
pub open spec fn counts(s: LinkStage, ev: LinkEventView) -> bool {
    match (s, ev) {
        (LinkStage::Up(l), LinkEventView::Binary(buf)) => l.video_bytes + buf.len() <= u64::MAX,
        _ => true,
    }
}

/// Takes an event of a link.
pub fn data_link_step(s: LinkStage, ev: LinkEvent, now: u64, now_ms: u128) -> (r: (
    LinkStage,
    LinkStep,
))
    requires
        counts(s, ev@),
    ensures
        (r.0, r.1@) == link_session_step(s, ev@, now, now_ms),
{
    match s {
        LinkStage::Keyed => match ev {
            LinkEvent::Stop => link_ended(LinkResult::Stopped, false),
            LinkEvent::Text(t) => if accepts_key(t) {
                (LinkStage::Up(DataLink::up(now)), LinkStep::Open)
            } else {
                link_ended(LinkResult::Reconnect, false)
            },
            LinkEvent::Closed => link_ended(LinkResult::Reconnect, false),
            LinkEvent::Broken => link_ended(LinkResult::Reconnect, false),
            _ => (s, LinkStep::Nothing),
        },
        LinkStage::Up(l) => {
            let mut l = l;
            match ev {
                LinkEvent::Stop => link_ended(LinkResult::Stopped, true),
                LinkEvent::Binary(buf) => {
                    let a = l.on_binary(buf, now, now_ms);
                    (LinkStage::Up(l), LinkStep::Frame(a))
                },
                LinkEvent::Text(_) => (s, LinkStep::Nothing),
                LinkEvent::Idle => match l.on_idle(now, now_ms) {
                    Ok(frame) => (LinkStage::Up(l), LinkStep::Ping { frame }),
                    Err(result) => link_ended(result, true),
                },
                LinkEvent::Closed => link_ended(LinkResult::Reconnect, true),
                LinkEvent::Broken => link_ended(LinkResult::Reconnect, true),
            }
        },
        LinkStage::Ended(_) => (s, LinkStep::Nothing),
    }
}

fn link_ended(result: LinkResult, keep: bool) -> (r: (LinkStage, LinkStep))
    ensures
        (r.0, r.1@) == end_of_link(result, keep),
{
    (LinkStage::Ended(result), LinkStep::End { result, keep })
}

/// Nothing is taken from a link before its key is accepted: until then frames
/// are dropped, and only an acceptance brings it up.
pub proof fn no_frames_before_the_key(ev: LinkEventView, now: u64, now_ms: u128)
    ensures
        ({
            let (next, step) = link_session_step(LinkStage::Keyed, ev, now, now_ms);
            &&& !(step is Frame) && !(step is Ping)
            &&& next is Up ==> (ev matches LinkEventView::Text(t) && is_ack(t))
        }),
{
}

/// A link that ends while it is up keeps the state of its transfers, however it
/// ends.
pub proof fn ends_keep_transfers(l: DataLink, ev: LinkEventView, now: u64, now_ms: u128)
    ensures
        ({
            let (next, step) = link_session_step(LinkStage::Up(l), ev, now, now_ms);
            next is Ended ==> (step matches LinkStepView::End { result, keep } && keep)
        }),
{
}

// ---------------------------------------------------------------- reconnecting

/// What follows the end of a link.
#[derive(Clone, Copy, Debug, PartialEq, Eq, Structural)]
pub enum AfterLink {
    /// The session is over.
    Stop,
    /// Too many attempts: give up.
    GiveUp,
    /// Wait, and take the link up again: this is attempt number `attempt`.
    Retry { attempt: u32 },
}

/// What follows the end of a link after so many attempts to take it up again.
pub fn after_link(result: LinkResult, attempts: u32) -> (r: AfterLink)
    requires
        attempts < u32::MAX,
    ensures
        r == (match result {
            LinkResult::Stopped => AfterLink::Stop,
            LinkResult::Reconnect => if attempts + 1 >= MAX_RECONNECT_ATTEMPTS {
                AfterLink::GiveUp
            } else {
                AfterLink::Retry { attempt: (attempts + 1) as u32 }
            },
        }),
{
    match result {
        LinkResult::Stopped => AfterLink::Stop,
        LinkResult::Reconnect => if attempts + 1 >= MAX_RECONNECT_ATTEMPTS {
            AfterLink::GiveUp
        } else {
            AfterLink::Retry { attempt: attempts + 1 }
        },
    }
}

/// What the user is told on giving up.
pub fn give_up_text() -> (s: String)
    ensures
        s@ == "max reconnection attempts ("@ + decimal(MAX_RECONNECT_ATTEMPTS as nat)
            + ") reached"@,
{
    let n = dec(MAX_RECONNECT_ATTEMPTS as u128);
    cat3("max reconnection attempts (", &n, ") reached")
}

} // verus!
