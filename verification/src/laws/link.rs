//! The data link: how it comes up, lives and ends, and what its frames are for.

use crate::datalink::{
    AfterLink, DataLink, LinkAction, LinkActionView, LinkEvent, LinkEventView, LinkResult,
    LinkStage, LinkStep, LinkStepView, accepts_key, after_link, data_address, data_link_step,
    data_url, give_up_text, heartbeat_round_trip, is_ack, lemma_decimal_short, opening_messages,
    ping_payload, sent,
};
use crate::laws::message::video_requests_read_back;
use crate::message::{field_number, field_text, video_start_text};
use crate::mux::{dl_frame, mux_bytes, mux_frame, mux_reads_back};
use crate::text::{decimal, lemma_encode_concat, stands_at};
use vstd::prelude::*;
use vstd::string::*;
use vstd::utf8::*;

verus! {

/// The data link goes to the address and port that were told for it, and else to
/// those of the control channel.
pub proof fn data_links_have_an_address(
    ip: &str,
    port: &str,
    dl_host: Option<String>,
    dl_port: Option<String>,
    s: String,
    addr: &str,
    url: String,
)
    requires
        call_ensures(data_address, (ip, port, dl_host, dl_port), s),
        addr@ == s@,
        call_ensures(data_url, (addr,), url),
    ensures
        dl_host is None && dl_port is None ==> s@ == ip@ + seq![':'] + port@,
        (dl_host matches Some(h) ==> (dl_port is None ==> s@ == h@ + seq![':'] + port@)),
        (dl_port matches Some(p) ==> (dl_host is None ==> s@ == ip@ + seq![':'] + p@)),
        (dl_host matches Some(h) ==> (dl_port matches Some(p) ==> s@ == h@ + seq![':'] + p@)),
        url@ == seq!['w', 's', ':', '/', '/'] + s@ + seq!['/'],
{
    reveal_strlit(":");
    reveal_strlit("ws://");
    reveal_strlit("/");
    assert(":"@ =~= seq![':']);
    assert("/"@ =~= seq!['/']);
    assert("ws://"@ =~= seq!['w', 's', ':', '/', '/']);
}

/// The key is accepted where the answer says `"ok":true` somewhere, with or
/// without a blank, and nowhere else.
pub proof fn keys_are_accepted(text: &str, r: bool, a: Seq<char>, b: Seq<char>)
    requires
        call_ensures(accepts_key, (text,), r),
    ensures
        text@ == a + "\"ok\":true"@ + b ==> r,
        text@ == a + "\"ok\": true"@ + b ==> r,
        (forall|i: int| !#[trigger] stands_at(text@, "\"ok\":true"@, i)) && (forall|i: int|
            !#[trigger] stands_at(text@, "\"ok\": true"@, i)) ==> !r,
{
    let p = "\"ok\":true"@;
    let q = "\"ok\": true"@;
    if text@ == a + p + b {
        assert(text@.subrange(a.len() as int, a.len() + p.len() as int) =~= p);
        assert(stands_at(text@, p, a.len() as int));
    }
    if text@ == a + q + b {
        assert(text@.subrange(a.len() as int, a.len() + q.len() as int) =~= q);
        assert(stands_at(text@, q, a.len() as int));
    }
}

/// A link that comes up asks for the video of a part of a monitor, takes input
/// up again where it ran, and then asks for a whole picture.
pub proof fn links_begin_with_video(
    monitor: u32,
    x: i32,
    y: i32,
    width: u32,
    height: u32,
    input: bool,
    r: Vec<(u8, String)>,
    start: String,
)
    requires
        call_ensures(opening_messages, (monitor, x, y, width, height, input), r),
        call_ensures(video_start_text, (monitor, x, y, width, height), start),
    ensures
        r@.len() == if input { 3int } else { 2 },
        r@[0].0 == 3,
        r@[0].1@ == start@,
        x >= 0 && y >= 0 ==> {
            &&& field_text(start@, "t"@) == Some("video_start"@)
            &&& field_number(start@, "monitor_index"@, u32::MAX as nat) == Some(monitor as nat)
            &&& field_number(start@, "offset_x"@, u32::MAX as nat) == Some(x as nat)
            &&& field_number(start@, "offset_y"@, u32::MAX as nat) == Some(y as nat)
            &&& field_number(start@, "width"@, u32::MAX as nat) == Some(width as nat)
            &&& field_number(start@, "height"@, u32::MAX as nat) == Some(height as nat)
        },
        input ==> r@[1].0 == 2 && r@[1].1@ == "{\"t\":\"input_start\"}"@,
        r@.last().0 == 3,
        r@.last().1@ == "{\"t\":\"video_keyframe_request\"}"@,
{
    if x >= 0 && y >= 0 {
        video_requests_read_back(monitor, x, y, width, height);
    }
    let s = sent(r@);
    assert(s.len() == r@.len());
    assert(s[0] == (r@[0].0, r@[0].1@));
    assert(s[1] == (r@[1].0, r@[1].1@));
    if input {
        assert(s[2] == (r@[2].0, r@[2].1@));
    }
}

/// A new link has just been seen, awaits no answer, reckons with 50 ms, and
/// measures from now on.
pub proof fn links_come_up(now: u64, l: DataLink)
    requires
        call_ensures(DataLink::up, (now,), l),
    ensures
        l.last_seen == now && l.last_bitrate_request == now && l.measured_since == now,
        l.awaiting is None && l.video_bytes == 0 && l.rtt_ms == 50,
{
}

/// The payload of a frame goes where its channel says, and nowhere else; the
/// bytes of video are counted. Other channels and broken frames are left.
pub proof fn frames_go_by_their_channel(
    l: &mut DataLink,
    buf: &[u8],
    now: u64,
    now_ms: u128,
    a: LinkAction,
    channel: u8,
    payload: &[u8],
    frame: Vec<u8>,
)
    requires
        call_ensures(dl_frame, (channel, payload), frame),
        payload@.len() < 0x1_0000_0000,
        buf@ == frame@,
        old(l).video_bytes + buf@.len() <= u64::MAX,
        call_ensures(DataLink::on_binary, (l, buf, now, now_ms), a),
        channel != 1,
    ensures
        channel == 4 ==> a@ == (LinkActionView::Meta { payload: payload@ }),
        channel == 5 ==> a@ == (LinkActionView::Chunk { payload: payload@ }),
        channel == 3 ==> a@ == (LinkActionView::Video { payload: payload@ }),
        channel == 6 ==> a@ == (LinkActionView::Audio { payload: payload@ }),
        channel == 0 || channel == 2 || channel > 6 ==> a@ is Nothing,
        *final(l) == (DataLink { video_bytes: final(l).video_bytes, ..*old(l) }),
        final(l).video_bytes == old(l).video_bytes + if channel == 3 {
            payload@.len()
        } else {
            0
        },
{
    let e = Seq::<u8>::empty();
    mux_reads_back(channel, payload@, e);
    assert(mux_bytes(channel, payload@) + e =~= mux_bytes(channel, payload@));
}

/// Bytes that are no whole frame do nothing.
pub proof fn broken_frames_do_nothing(
    l: &mut DataLink,
    buf: &[u8],
    now: u64,
    now_ms: u128,
    a: LinkAction,
)
    requires
        call_ensures(DataLink::on_binary, (l, buf, now, now_ms), a),
        buf@.len() < 5,
    ensures
        a@ is Nothing,
        *final(l) == *old(l),
{
}

/// A heartbeat of the host is sent back as it came, and shows that the host is
/// there; so does the answer to one's own, whatever it says. Other control
/// frames show nothing.
pub proof fn heartbeats_are_answered(
    l: &mut DataLink,
    buf: &[u8],
    now: u64,
    now_ms: u128,
    a: LinkAction,
    payload: &[u8],
    frame: Vec<u8>,
)
    requires
        call_ensures(dl_frame, (1u8, payload), frame),
        payload@.len() < 0x1_0000_0000,
        buf@ == frame@,
        old(l).video_bytes + buf@.len() <= u64::MAX,
        call_ensures(DataLink::on_binary, (l, buf, now, now_ms), a),
    ensures
        payload@.len() > 0 && payload@[0] == 80 ==> a@ == (LinkActionView::Send { frame: frame@ })
            && *final(l) == (DataLink { last_seen: now, ..*old(l) }),
        payload@.len() > 0 && payload@[0] == 81 ==> final(l).last_seen == now && (a@ is RoundTrip
            || a@ is Nothing && final(l).awaiting == old(l).awaiting && final(l).rtt_ms == old(
            l,
        ).rtt_ms),
        payload@.len() == 0 || payload@[0] != 80 && payload@[0] != 81 ==> a@ is Nothing && *final(l)
            == *old(l),
{
    let e = Seq::<u8>::empty();
    mux_reads_back(1u8, payload@, e);
    assert(mux_bytes(1u8, payload@) + e =~= mux_bytes(1u8, payload@));
}

/// A heartbeat goes out on the control channel and says when it was sent. The
/// answer that says the same moment gives the time between the two as the round
/// trip, and no answer is awaited any more.
pub proof fn round_trips_are_measured(
    l: &mut DataLink,
    now: u64,
    sent_ms: u128,
    r: Result<Vec<u8>, LinkResult>,
    m: &mut DataLink,
    buf: &[u8],
    later: u64,
    now_ms: u128,
    a: LinkAction,
    frame: Vec<u8>,
    answer: &[u8],
)
    requires
        call_ensures(DataLink::on_idle, (l, now, sent_ms), r),
        now < old(l).last_seen + 15_000_000_000,
        *old(m) == *final(l),
        answer@ == seq![81u8] + encode_utf8(decimal(sent_ms as nat)),
        call_ensures(dl_frame, (1u8, answer), frame),
        buf@ == frame@,
        call_ensures(DataLink::on_binary, (m, buf, later, now_ms), a),
        old(m).video_bytes + buf@.len() <= u64::MAX,
    ensures
        r matches Ok(f) && mux_frame(f@) == Some(
            (1u8, seq![80u8] + encode_utf8(decimal(sent_ms as nat))),
        ),
        final(l).awaiting == Some(sent_ms),
        final(l).last_seen == old(l).last_seen,
        a@ is RoundTrip,
        now_ms >= sent_ms ==> a@->RoundTrip_0 == now_ms - sent_ms,
        now_ms < sent_ms ==> a@->RoundTrip_0 == 0,
        final(m).rtt_ms == a@->RoundTrip_0,
        final(m).awaiting is None,
        final(m).last_seen == later,
{
    let e = Seq::<u8>::empty();
    heartbeat_round_trip(*old(m), sent_ms, later, now_ms);
    reveal_strlit("P");
    assert("P"@ =~= seq!['P']);
    lemma_encode_concat("P"@, decimal(sent_ms as nat));
    lemma_letter_p();
    let p = ping_payload(sent_ms);
    assert(p =~= seq![80u8] + encode_utf8(decimal(sent_ms as nat)));
    lemma_decimal_short(sent_ms);
    mux_reads_back(1u8, p, e);
    assert(mux_bytes(1u8, p) + e =~= mux_bytes(1u8, p));
}

proof fn lemma_letter_p()
    ensures
        encode_utf8(seq!['P']) == seq![80u8],
{
    let s = seq!['P'];
    assert(s.drop_first() =~= Seq::empty());
    reveal_with_fuel(encode_utf8, 2);
    assert(encode_utf8(s.drop_first()) =~= Seq::empty());
    assert(leading_byte_width_1(80u32) == 80u8) by {
        assert((80u32 & 0x7F) as u8 == 80u8) by (bit_vector);
    }
    assert(encode_scalar(80u32) =~= seq![80u8]);
    assert(encode_utf8(s) =~= seq![80u8]);
}

/// A link on which nothing was seen for 15 seconds is given up, to be taken up
/// again.
pub proof fn silent_links_are_left(
    l: &mut DataLink,
    now: u64,
    now_ms: u128,
    r: Result<Vec<u8>, LinkResult>,
)
    requires
        call_ensures(DataLink::on_idle, (l, now, now_ms), r),
    ensures
        now >= old(l).last_seen + 15_000_000_000 <==> r is Err,
        r matches Err(e) ==> e is Reconnect && *final(l) == *old(l),
{
}

/// A bitrate is asked for every five seconds, and what came in is measured anew
/// after each time.
pub proof fn bitrates_are_asked_for_in_turn(l: &mut DataLink, now: u64, later: u64, due: bool)
    requires
        call_ensures(DataLink::bitrate_requested, (l, now), ()),
        call_ensures(DataLink::bitrate_due, (&*final(l), later), due),
    ensures
        due <==> later >= now + 5_000_000_000,
        final(l).video_bytes == 0,
        final(l).measured_since == now,
        *final(l) == (DataLink {
            last_bitrate_request: now,
            video_bytes: 0,
            measured_since: now,
            ..*old(l)
        }),
{
}

/// A link is up once its key was accepted; any other answer, the end or a break
/// of the link make it to be taken up again, and only the user ends it for good.
pub proof fn links_come_up_by_their_key(
    ev: LinkEvent,
    now: u64,
    now_ms: u128,
    r: (LinkStage, LinkStep),
)
    requires
        call_ensures(data_link_step, (LinkStage::Keyed, ev, now, now_ms), r),
    ensures
        ev@ matches LinkEventView::Text(t) ==> (is_ack(t) ==> r.1@ is Open && r.0 is Up && (
        r.0->Up_0).last_seen == now && (r.0->Up_0).awaiting is None),
        ev@ matches LinkEventView::Text(t) ==> (!is_ack(t) ==> r.0 == LinkStage::Ended(
            LinkResult::Reconnect,
        ) && r.1@ is End),
        ev@ is Closed || ev@ is Broken ==> r.0 == LinkStage::Ended(LinkResult::Reconnect)
            && r.1@ is End,
        ev@ is Stop ==> r.0 == LinkStage::Ended(LinkResult::Stopped) && r.1@ is End,
        ev@ is Binary || ev@ is Idle ==> r.0 is Keyed && r.1@ is Nothing,
        r.1@ is End ==> !r.1@->keep,
{
}

/// A link that is up takes frames and sends heartbeats as its state says; when
/// it ends, how far the transfers have come is kept.
pub proof fn links_that_are_up(
    l: DataLink,
    ev: LinkEvent,
    now: u64,
    now_ms: u128,
    r: (LinkStage, LinkStep),
    m: &mut DataLink,
    n: &mut DataLink,
    buf: &[u8],
    a: LinkAction,
    f: Result<Vec<u8>, LinkResult>,
)
    requires
        call_ensures(data_link_step, (LinkStage::Up(l), ev, now, now_ms), r),
        *old(m) == l,
        *old(n) == l,
        call_ensures(DataLink::on_binary, (m, buf, now, now_ms), a),
        call_ensures(DataLink::on_idle, (n, now, now_ms), f),
    ensures
        ev@ == LinkEventView::Binary(buf@) ==> r.0 == LinkStage::Up(*final(m)) && r.1@
            == LinkStepView::Frame(a@),
        ev@ is Idle ==> (f matches Ok(frame) ==> r.0 == LinkStage::Up(*final(n)) && r.1@ == (
        LinkStepView::Ping { frame: frame@ })),
        ev@ is Idle && f is Err || ev@ is Closed || ev@ is Broken ==> r.0 == LinkStage::Ended(
            LinkResult::Reconnect,
        ) && r.1@ == (LinkStepView::End { result: LinkResult::Reconnect, keep: true }),
        ev@ is Stop ==> r.0 == LinkStage::Ended(LinkResult::Stopped) && r.1@ == (LinkStepView::End {
            result: LinkResult::Stopped,
            keep: true,
        }),
        ev@ is Text ==> r.0 == LinkStage::Up(l) && r.1@ is Nothing,
{
}

/// A link that has ended does nothing more.
pub proof fn ended_links_stay_ended(
    e: LinkResult,
    ev: LinkEvent,
    now: u64,
    now_ms: u128,
    r: (LinkStage, LinkStep),
)
    requires
        call_ensures(data_link_step, (LinkStage::Ended(e), ev, now, now_ms), r),
    ensures
        r.0 == LinkStage::Ended(e),
        r.1@ is Nothing,
{
}

/// A link that was lost is taken up again four times, with the attempts counted,
/// and is then given up; one that was stopped is not taken up again.
pub proof fn lost_links_are_taken_up_again(attempts: u32, r: AfterLink, s: AfterLink, t: String)
    requires
        attempts < u32::MAX,
        call_ensures(after_link, (LinkResult::Reconnect, attempts), r),
        call_ensures(after_link, (LinkResult::Stopped, attempts), s),
        call_ensures(give_up_text, (), t),
    ensures
        attempts < 4 ==> r == (AfterLink::Retry { attempt: (attempts + 1) as u32 }),
        attempts >= 4 ==> r is GiveUp,
        s is Stop,
        t@ == "max reconnection attempts ("@ + seq!['5'] + ") reached"@,
{
    assert(decimal(5) =~= seq!['5']);
}

} // verus!
