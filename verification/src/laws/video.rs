//! The video stream: transport packets, presentation times and pacing.

use crate::h264::{Picture, rows_keep_pixels};
use crate::transfer::joined;
use crate::video::{
    Frame, FrameQueue, QueueView, TsParser, caught_up, drop_front, packet_of, packets_of,
    parse_pes, parse_ts_packet, payload_offset, pieces, pieces_do_not_matter, presented, pts_of,
    pushed, rest_of,
};
use crate::video_decoder::{
    VideoDecoder, VideoFault, any_picture, data_units, is_fed, last_size, queued, start_stays,
};
use vstd::prelude::*;

verus! {

// ---------------------------------------------------------------- transport packets

/// A transport packet: the sync byte, two bytes of flags and program number, a
/// byte whose upper half says what follows, an adaptation field where there is
/// one, and the payload.
pub open spec fn ts_packet(
    h1: u8,
    h2: u8,
    counter: u8,
    field: Option<Seq<u8>>,
    payload: Seq<u8>,
) -> Seq<u8> {
    match field {
        None => seq![0x47u8, h1, h2, (0x10 + counter) as u8] + payload,
        Some(a) => seq![0x47u8, h1, h2, (0x30 + counter) as u8, a.len() as u8] + a + payload,
    }
}

/// The packet is one in which video packets are looked for: it starts one, or it
/// belongs to the program of the video.
pub open spec fn may_start_video(h1: u8, h2: u8) -> bool {
    h1 / 64 % 2 == 1 || (h1 % 32) * 256 + h2 == 0x1011
}

/// The bytes begin like a packet of a video stream.
pub open spec fn looks_like_video(p: Seq<u8>) -> bool {
    p.len() >= 9 && p[0] == 0 && p[1] == 0 && p[2] == 1 && 0xE0 <= p[3] <= 0xEF
}

/// A presentation time in five bytes: its 33 bits in groups of 3, 15 and 15, each
/// with a marker bit behind it, whatever the markers are.
pub open spec fn pts_bytes(t: int, head: int, m1: int, m2: int, m3: int) -> Seq<u8> {
    seq![
        (head * 16 + t / 0x4000_0000 * 2 + m1) as u8,
        (t / 0x40_0000 % 256) as u8,
        (t / 0x8000 % 128 * 2 + m2) as u8,
        (t / 0x80 % 256) as u8,
        (t % 128 * 2 + m3) as u8,
    ]
}

/// A packet of a video stream with a presentation time, and with more in its
/// header behind that.
pub open spec fn pes_packet(
    stream: u8,
    len1: u8,
    len2: u8,
    flags: u8,
    time: Seq<u8>,
    more: Seq<u8>,
    data: Seq<u8>,
) -> Seq<u8> {
    seq![0u8, 0u8, 1u8, stream, len1, len2, 0x80u8, flags, (time.len() + more.len()) as u8] + time
        + more + data
}

/// The payload of a packet comes out byte for byte, with or without an adaptation
/// field before it.
pub proof fn payloads_come_back(
    h1: u8,
    h2: u8,
    counter: u8,
    field: Option<Seq<u8>>,
    payload: Seq<u8>,
    p: &Vec<u8>,
    r: Option<(Vec<u8>, u64)>,
)
    requires
        counter < 16,
        field matches Some(a) ==> a.len() <= 182,
        payload.len() > 0,
        p@ == ts_packet(h1, h2, counter, field, payload),
        p@.len() == 188,
        !may_start_video(h1, h2) || !looks_like_video(payload),
        call_ensures(parse_ts_packet, (p,), r),
    ensures
        r matches Some(f) && f.0@ == payload && f.1 == 0,
{
    let q = ts_packet(h1, h2, counter, field, payload);
    lemma_packet_offset(h1, h2, counter, field, payload);
    assert(q.take(188) =~= q);
}

proof fn lemma_packet_offset(
    h1: u8,
    h2: u8,
    counter: u8,
    field: Option<Seq<u8>>,
    payload: Seq<u8>,
)
    requires
        counter < 16,
        field matches Some(a) ==> a.len() <= 182,
        payload.len() > 0,
        ts_packet(h1, h2, counter, field, payload).len() == 188,
    ensures
        ({
            let q = ts_packet(h1, h2, counter, field, payload);
            let at = 188 - payload.len();
            payload_offset(q) == Some(at) && q.skip(at) == payload && q[1] == h1 && q[2] == h2
        }),
{
    let q = ts_packet(h1, h2, counter, field, payload);
    let at = 188 - payload.len();
    assert(q[0] == 0x47 && q[1] == h1 && q[2] == h2);
    match field {
        None => {
            assert(q[3] == 0x10 + counter);
            assert(q[3] / 16 % 4 == 1);
        },
        Some(a) => {
            assert(q[3] == 0x30 + counter);
            assert(q[3] / 16 % 4 == 3);
            assert(q[4] == a.len());
        },
    }
    assert(q.skip(at) =~= payload);
}

/// A packet without the sync byte, without a payload, or whose adaptation field
/// fills it, carries nothing; neither do too few bytes.
pub proof fn other_packets_carry_nothing(p: &Vec<u8>, r: Option<(Vec<u8>, u64)>)
    requires
        call_ensures(parse_ts_packet, (p,), r),
        p@.len() < 188 || p@[0] != 0x47 || p@[3] / 16 % 2 == 0 || p@[3] / 32 % 2 == 1 && p@[4]
            >= 183,
    ensures
        r is None,
{
    if p@.len() >= 188 {
        let q = p@.take(188);
        assert(q[0] == p@[0] && q[3] == p@[3] && q[4] == p@[4]);
    }
}

/// What follows a packet does not matter for it.
pub proof fn packets_stand_alone(
    p: &Vec<u8>,
    more: &Vec<u8>,
    r: Option<(Vec<u8>, u64)>,
    s: Option<(Vec<u8>, u64)>,
)
    requires
        p@.len() == 188,
        more@.len() >= 188,
        more@.take(188) == p@,
        call_ensures(parse_ts_packet, (p,), r),
        call_ensures(parse_ts_packet, (more,), s),
    ensures
        r is Some == s is Some,
        r matches Some(f) ==> s matches Some(g) && f.0@ == g.0@ && f.1 == g.1,
{
    assert(p@.take(188) =~= p@);
}

/// A presentation time comes back from its five bytes.
pub proof fn times_come_back(t: int, head: int, m1: int, m2: int, m3: int)
    requires
        0 <= t < 0x2_0000_0000,
        0 <= head < 16,
        0 <= m1 <= 1,
        0 <= m2 <= 1,
        0 <= m3 <= 1,
    ensures
        pts_of(pts_bytes(t, head, m1, m2, m3)) == t,
{
    let b = pts_bytes(t, head, m1, m2, m3);
    let (a3, a22, a15, a7) = (t / 0x4000_0000, t / 0x40_0000, t / 0x8000, t / 0x80);
    assert(0 <= a3 < 8);
    assert(b[0] == head * 16 + a3 * 2 + m1);
    assert((b[0] / 2) % 8 == a3);
    assert(b[2] / 2 == a15 % 128);
    assert(b[4] / 2 == t % 128);
    assert(a22 == a3 * 256 + a22 % 256) by {
        assert(a22 / 256 == a3);
    }
    assert(a15 == a22 * 128 + a15 % 128) by {
        assert(a15 / 128 == a22);
    }
    assert(a7 == a15 * 256 + a7 % 256) by {
        assert(a7 / 256 == a15);
    }
    assert(t == a7 * 128 + t % 128);
}

/// The data and the time of a video packet come back, whatever else its header
/// holds; without a time it counts as zero.
pub proof fn video_packets_come_back(
    stream: u8,
    len1: u8,
    len2: u8,
    flags: u8,
    t: int,
    head: int,
    m1: int,
    m2: int,
    m3: int,
    more: Seq<u8>,
    data: Seq<u8>,
    p: &Vec<u8>,
    r: Option<(Vec<u8>, u64)>,
)
    requires
        0xE0 <= stream <= 0xEF,
        0 <= t < 0x2_0000_0000,
        0 <= head < 16,
        0 <= m1 <= 1,
        0 <= m2 <= 1,
        0 <= m3 <= 1,
        more.len() <= 250,
        p@ == pes_packet(stream, len1, len2, flags, pts_bytes(t, head, m1, m2, m3), more, data),
        call_ensures(parse_pes, (p,), r),
    ensures
        r matches Some(f) && f.0@ == data && f.1 == (if flags >= 0x80 { t } else { 0 }),
{
    let time = pts_bytes(t, head, m1, m2, m3);
    let q = p@;
    times_come_back(t, head, m1, m2, m3);
    assert(q[0] == 0 && q[1] == 0 && q[2] == 1 && q[3] == stream && q[7] == flags);
    assert(q[8] == 5 + more.len());
    assert(q.subrange(9, 14) =~= time);
    assert(q.skip(9 + q[8]) =~= data);
}

/// A header too short for a time has none, and the data stands behind the header.
pub proof fn short_headers_have_no_time(
    stream: u8,
    len1: u8,
    len2: u8,
    flags: u8,
    more: Seq<u8>,
    data: Seq<u8>,
    p: &Vec<u8>,
    r: Option<(Vec<u8>, u64)>,
)
    requires
        0xE0 <= stream <= 0xEF,
        more.len() < 5,
        p@ == pes_packet(stream, len1, len2, flags, Seq::empty(), more, data),
        call_ensures(parse_pes, (p,), r),
    ensures
        r matches Some(f) && f.0@ == data && f.1 == 0,
{
    let q = p@;
    assert(q[0] == 0 && q[1] == 0 && q[2] == 1 && q[3] == stream && q[7] == flags);
    assert(q[8] == more.len());
    assert(q.skip(9 + q[8]) =~= data);
}

/// Bytes that do not begin like a video packet are none, and neither are those of a
/// header that is cut off.
pub proof fn other_bytes_are_no_video(p: &Vec<u8>, r: Option<(Vec<u8>, u64)>)
    requires
        call_ensures(parse_pes, (p,), r),
    ensures
        !looks_like_video(p@) ==> r is None,
        looks_like_video(p@) ==> (r is Some) == (p@.len() >= 9 + p@[8]),
{
}

/// A transport packet that starts a video packet gives the data and the time of
/// that.
pub proof fn started_video_comes_out(
    h1: u8,
    h2: u8,
    counter: u8,
    field: Option<Seq<u8>>,
    video: &Vec<u8>,
    v: Option<(Vec<u8>, u64)>,
    p: &Vec<u8>,
    r: Option<(Vec<u8>, u64)>,
)
    requires
        counter < 16,
        field matches Some(a) ==> a.len() <= 182,
        video@.len() > 0,
        p@ == ts_packet(h1, h2, counter, field, video@),
        p@.len() == 188,
        may_start_video(h1, h2),
        call_ensures(parse_pes, (video,), v),
        v is Some,
        call_ensures(parse_ts_packet, (p,), r),
    ensures
        r matches Some(f) && f.0@ == (v->0).0@ && f.1 == (v->0).1,
{
    lemma_packet_offset(h1, h2, counter, field, video@);
    assert(p@.take(188) =~= p@);
}

/// A stream gives what its packets carry, one after the other, and keeps the bytes
/// behind the last whole one.
pub proof fn streams_are_packets(p: Seq<u8>, rest: Seq<u8>, tail: Seq<u8>)
    requires
        p.len() == 188,
        tail.len() < 188,
    ensures
        packets_of(p + rest) == (match packet_of(p) {
            Some(f) => seq![f],
            None => Seq::empty(),
        }) + packets_of(rest),
        rest_of(p + rest) == rest_of(rest),
        packets_of(tail) == Seq::<(Seq<u8>, u64)>::empty(),
        rest_of(tail) == tail,
{
    let b = p + rest;
    assert(b.take(188) =~= p);
    assert(b.skip(188) =~= rest);
    assert(Seq::<(Seq<u8>, u64)>::empty() + packets_of(rest) =~= packets_of(rest));
}

/// A parser gives the same whether it is fed a stream at once or in two pieces.
pub proof fn feeding_in_pieces(
    whole: &mut TsParser,
    first: &mut TsParser,
    second: &mut TsParser,
    a: &[u8],
    b: &[u8],
    both: &[u8],
    x: Vec<(Vec<u8>, u64)>,
    y: Vec<(Vec<u8>, u64)>,
    z: Vec<(Vec<u8>, u64)>,
)
    requires
        both@ == a@ + b@,
        *old(whole) == *old(first),
        *old(second) == *final(first),
        call_ensures(TsParser::feed, (whole, both), z),
        call_ensures(TsParser::feed, (first, a), x),
        call_ensures(TsParser::feed, (second, b), y),
    ensures
        pieces(z@) == pieces(x@) + pieces(y@),
        final(whole).held() == final(second).held(),
        final(whole).held().len() < 188,
{
    let h = old(whole).held();
    pieces_do_not_matter(h + a@, b@);
    assert(h + (a@ + b@) =~= (h + a@) + b@);
    lemma_rest_is_short(h + both@);
}

proof fn lemma_rest_is_short(b: Seq<u8>)
    ensures
        rest_of(b).len() < 188,
    decreases b.len(),
{
    if b.len() >= 188 {
        lemma_rest_is_short(b.skip(188));
    }
}

// ---------------------------------------------------------------- pacing

/// A picture joins the others where the first of them is within three intervals of
/// the last one shown and there is room; else the first one makes way.
pub proof fn pictures_join_the_queue<T>(q: QueueView<T>, f: Frame<T>)
    requires
        q.frames.len() <= 10,
        q.dropped <= u64::MAX - 2,
        q.last_pts <= i64::MAX,
        q.frames.len() > 0 ==> q.frames[0].pts <= i64::MAX,
    ensures
        q.frames.len() == 0 ==> pushed(q, f).frames == seq![f] && pushed(q, f).dropped == q.dropped,
        q.frames.len() > 0 ==> ({
            let d = q.frames[0].pts - q.last_pts;
            let near = -3 * q.interval_ms <= d <= 3 * q.interval_ms;
            &&& near && q.frames.len() < 10 ==> pushed(q, f).frames == q.frames.push(f) && pushed(
                q,
                f,
            ).dropped == q.dropped
            &&& near && q.frames.len() == 10 ==> pushed(q, f).frames == q.frames.skip(1).push(f)
                && pushed(q, f).dropped == q.dropped + 1
            &&& !near ==> pushed(q, f).frames == q.frames.skip(1).push(f) && pushed(q, f).dropped
                == q.dropped + 1
        }),
{
    assert(q.frames.len() == 0 ==> q.frames.push(f) =~= seq![f]);
}

/// The first picture is shown at once, and each next one not before its interval
/// has passed since the one before was due. Until then the queue stays as it is.
pub proof fn pictures_wait_their_turn<T>(q: QueueView<T>, now: u64, later: u64)
    requires
        q.frames.len() > 0,
        q.next_time is None,
        now + q.interval_ms * 1_000_000 <= u64::MAX,
        now <= later,
    ensures
        presented(q, now).1 == Some(q.frames[0]),
        presented(q, now).0.next_time == Some((now + q.interval_ms * 1_000_000) as u64),
        ({
            let r = presented(q, now).0;
            &&& later < now + q.interval_ms * 1_000_000 ==> presented(r, later).1 is None
                && presented(r, later).0.frames == r.frames
            &&& later >= now + q.interval_ms * 1_000_000 && r.frames.len() > 0 ==> presented(
                r,
                later,
            ).1 == Some(r.frames[0])
        }),
{
    lemma_times_kept(
        QueueView {
            frames: q.frames.skip(1),
            last_pts: q.frames[0].pts,
            next_time: Some((now + q.interval_ms * 1_000_000) as u64),
            ..q
        },
    );
}

proof fn lemma_times_kept<T>(q: QueueView<T>)
    ensures
        caught_up(q).next_time == q.next_time,
        caught_up(q).interval_ms == q.interval_ms,
    decreases q.frames.len(),
{
    if q.frames.len() > 2 && q.frames[0].pts < q.last_pts + q.interval_ms {
        lemma_times_kept(drop_front(q));
    }
}

/// Once a picture is shown, pictures that should have been shown by then go until
/// two are left; one that is in time stays, with all behind it.
pub proof fn late_pictures_go<T>(q: QueueView<T>)
    requires
        q.dropped + q.frames.len() <= u64::MAX,
    ensures
        ({
            let r = caught_up(q);
            &&& r.frames.len() <= 2 || r.frames[0].pts >= q.last_pts + q.interval_ms
            &&& q.frames.len() <= 2 ==> r.frames == q.frames && r.dropped == q.dropped
            &&& q.frames.len() > 0 && q.frames[0].pts >= q.last_pts + q.interval_ms ==> r.frames
                == q.frames && r.dropped == q.dropped
            &&& q.frames.len() > 2 ==> r.frames.len() >= 2
        }),
    decreases q.frames.len(),
{
    if q.frames.len() > 2 && q.frames[0].pts < q.last_pts + q.interval_ms {
        late_pictures_go(drop_front(q));
    }
}

/// The queue takes a picture as said of it, and gives the next one in its turn:
/// at once where none was shown before, and else when the last one's interval
/// has passed. The first that waits is the one that is given.
pub proof fn queues_keep_their_order<T>(
    q: &mut FrameQueue<T>,
    f: Frame<T>,
    p: &mut FrameQueue<T>,
    now: u64,
    r: Option<Frame<T>>,
)
    requires
        call_ensures(FrameQueue::<T>::push, (q, f), ()),
        call_ensures(FrameQueue::<T>::next_frame, (p, now), r),
        old(q)@.frames.len() <= 10,
        old(q)@.dropped <= u64::MAX - 2,
        old(q)@.frames.len() > 0 ==> old(q)@.frames[0].pts <= i64::MAX,
        old(q)@.last_pts <= i64::MAX,
    ensures
        final(q)@.frames.len() > 0,
        final(q)@.frames.last() == f,
        old(q)@.frames.len() == 0 ==> final(q)@.frames == seq![f],
        old(q)@.frames.len() > 0 ==> {
            let d = old(q)@.frames[0].pts - old(q)@.last_pts;
            let near = -3 * old(q)@.interval_ms <= d <= 3 * old(q)@.interval_ms;
            &&& near && old(q)@.frames.len() < 10 ==> final(q)@.frames == old(q)@.frames.push(f)
                && final(q)@.dropped == old(q)@.dropped
            &&& !near || old(q)@.frames.len() == 10 ==> final(q)@.frames == old(q)@.frames.skip(
                1,
            ).push(f) && final(q)@.dropped == old(q)@.dropped + 1
        },
        old(p)@.frames.len() == 0 ==> r is None,
        old(p)@.frames.len() > 0 && (old(p)@.next_time is None || now >= old(p)@.next_time->0)
            ==> r == Some(old(p)@.frames[0]),
        (old(p)@.next_time matches Some(t) && now < t) ==> r is None && final(p)@.frames == old(
            p,
        )@.frames,
        r is Some && now + old(p)@.interval_ms * 1_000_000 <= u64::MAX && old(p)@.next_time is None
            ==> final(p)@.next_time == Some((now + old(p)@.interval_ms * 1_000_000) as u64),
{
    pictures_join_the_queue(old(q)@, f);
    if old(p)@.frames.len() > 0 && old(p)@.next_time is None && now + old(p)@.interval_ms
        * 1_000_000 <= u64::MAX {
        pictures_wait_their_turn(old(p)@, now, now);
    }
}

/// What is taken out of the queue is the first that waits; the counts tell what
/// was dropped and doubled.
pub proof fn pictures_leave_in_order<T>(q: &mut FrameQueue<T>, r: Option<Frame<T>>, n: (u64, u64))
    requires
        call_ensures(FrameQueue::<T>::pop, (q,), r),
        call_ensures(FrameQueue::<T>::stats, (&*old(q),), n),
    ensures
        old(q)@.frames.len() > 0 ==> r == Some(old(q)@.frames[0]) && final(q)@.frames == old(
            q,
        )@.frames.skip(1),
        old(q)@.frames.len() == 0 ==> r is None && final(q)@ == old(q)@,
        n.0 == old(q)@.dropped && n.1 == old(q)@.duplicated,
{
}

/// Pictures are shown at the rate that was asked for: their intervals fill a
/// second, up to a rest that is too short for one more.
pub proof fn intervals_fill_a_second<T>(fps: u32, q: FrameQueue<T>)
    requires
        0 < fps <= 1000,
        call_ensures(FrameQueue::<T>::new, (fps,), q),
    ensures
        q@.interval_ms * fps <= 1000 < (q@.interval_ms + 1) * fps,
        q@.frames.len() == 0,
        q@.next_time is None,
{
    assert((1000nat / fps as nat) * fps <= 1000 < (1000nat / fps as nat + 1) * fps)
        by (nonlinear_arith)
        requires
            fps > 0,
    ;
}

// ---------------------------------------------------------------- the decoder

/// A picture is shown at its time since the stream's first one, in milliseconds
/// of 90 ticks; its size is the one that is told.
pub proof fn pictures_are_timed_from_the_start(
    d: &mut VideoDecoder,
    p: Picture,
    pts: u64,
    start: u64,
    ms: u64,
    size: (u32, u32),
)
    requires
        call_ensures(VideoDecoder::decoded, (d, p, pts), ()),
        old(d)@.first == Some(start),
        pts == start + 90 * ms,
        old(d)@.pictures.frames.len() == 0,
        call_ensures(VideoDecoder::dimensions, (&*final(d),), size),
    ensures
        final(d)@.pictures.frames == seq![Frame { picture: p, pts: ms }],
        size == (p.width as u32, p.height as u32),
        final(d)@.held == old(d)@.held && final(d)@.taken == old(d)@.taken && final(d)@.first == old(
            d,
        )@.first,
{
    assert((pts - start) / 90 == ms);
    let f = Frame { picture: p, pts: ms };
    assert(old(d)@.pictures.frames.push(f) =~= seq![f]);
}

/// A new decoder holds nothing and paces its pictures by 33 ms.
pub proof fn decoders_begin_empty(r: Result<VideoDecoder, VideoFault>)
    requires
        call_ensures(VideoDecoder::new, (), r),
    ensures
        r matches Ok(d) ==> d@.held.len() == 0 && d@.taken.len() == 0 && d@.pictures.frames.len()
            == 0 && d@.pictures.interval_ms == 33 && d@.size == (0u32, 0u32) && !d@.ready
            && d@.first is None,
        r matches Err(e) ==> e == VideoFault::NoDecoder,
{
}

/// A picture that is given in its turn is the one that the queue gives; what is
/// taken without waiting is the first that waits, unless one was given since.
pub proof fn decoded_pictures_are_given(
    d: &mut VideoDecoder,
    now: u64,
    r: Option<Picture>,
    e: &mut VideoDecoder,
    s: Option<Picture>,
    q: &mut FrameQueue<Picture>,
    f: Option<Frame<Picture>>,
)
    requires
        call_ensures(VideoDecoder::next_frame, (d, now), r),
        call_ensures(VideoDecoder::take_frame, (e,), s),
        call_ensures(FrameQueue::<Picture>::next_frame, (q, now), f),
        old(q)@ == old(d)@.pictures,
    ensures
        r is Some <==> f is Some,
        f matches Some(x) ==> r == Some(x.picture),
        final(d)@.pictures == final(q)@,
        final(d)@.ready == (old(d)@.ready || r is Some),
        final(d)@.held == old(d)@.held && final(d)@.taken == old(d)@.taken,
        !old(e)@.ready && old(e)@.pictures.frames.len() > 0 ==> s == Some(
            old(e)@.pictures.frames[0].picture,
        ) && final(e)@.pictures.frames == old(e)@.pictures.frames.skip(1),
        old(e)@.ready || old(e)@.pictures.frames.len() == 0 ==> s is None && final(e)@.pictures
            == old(e)@.pictures,
        !final(e)@.ready,
{
}

/// All the bytes of some parts.
pub open spec fn all_bytes(v: Seq<(Seq<u8>, u64)>) -> Seq<u8>
    decreases v.len(),
{
    if v.len() == 0 {
        Seq::empty()
    } else {
        all_bytes(v.drop_last()) + v.last().0
    }
}

/// What goes to the decoder is all that the packets carry, in their order, and
/// never nothing.
pub proof fn all_data_is_decoded(v: Seq<(Seq<u8>, u64)>)
    ensures
        joined(data_units(v)) == all_bytes(v),
        forall|i: int| 0 <= i < data_units(v).len() ==> (#[trigger] data_units(v)[i]).len() > 0,
        data_units(v).len() <= v.len(),
    decreases v.len(),
{
    if v.len() > 0 {
        all_data_is_decoded(v.drop_last());
        let a = data_units(v.drop_last());
        let b = data_units(v);
        if v.last().0.len() > 0 {
            assert(b.drop_last() =~= a);
            assert forall|i: int| 0 <= i < b.len() implies (#[trigger] b[i]).len() > 0 by {
                if i < a.len() {
                    assert(b[i] == a[i]);
                }
            }
        } else {
            assert(all_bytes(v.drop_last()) + v.last().0 =~= all_bytes(v.drop_last()));
        }
    } else {
        assert(joined(data_units(v)) =~= all_bytes(v));
    }
}

/// A stream may come in pieces: what makes no packet yet is kept, fewer than 188
/// bytes of it, and what does is handed on. Where nothing is damaged all of it
/// was taken, and a picture is told where there was one.
pub proof fn streams_are_fed_in_pieces(
    d: &mut VideoDecoder,
    data: &[u8],
    r: Result<bool, VideoFault>,
)
    requires
        call_ensures(VideoDecoder::feed, (d, data), r),
    ensures
        final(d)@.held.len() < 188,
        final(d)@.held == (old(d)@.held + data@).skip(
            ((old(d)@.held + data@).len() / 188 * 188) as int,
        ),
        r is Ok ==> final(d)@.taken == old(d)@.taken + data_units(
            packets_of(old(d)@.held + data@),
        ),
        r matches Err(e) ==> e == VideoFault::NotDecoded,
        r == Ok::<bool, VideoFault>(false) ==> final(d)@.pictures == old(d)@.pictures
            && final(d)@.size == old(d)@.size,
        final(d)@.ready == old(d)@.ready,
        old(d)@.first is Some ==> final(d)@.first == old(d)@.first,
{
    let outcomes = choose|o: Seq<Option<Picture>>| #[trigger]
        is_fed(old(d)@, data@, o, final(d)@, r);
    let b = old(d)@.held + data@;
    lemma_rest_of(b);
    let v = packets_of(b);
    if old(d)@.first is Some {
        start_stays(old(d)@.first->0, v);
        if r is Err {
            start_stays(old(d)@.first->0, v.take(outcomes.len() + 1int));
        }
    }
    if r == Ok::<bool, VideoFault>(false) {
        lemma_no_picture(old(d)@.pictures, old(d)@.first, v, old(d)@.size, outcomes);
    }
}

proof fn lemma_rest_of(b: Seq<u8>)
    ensures
        rest_of(b).len() < 188,
        rest_of(b) == b.skip((b.len() / 188 * 188) as int),
    decreases b.len(),
{
    if b.len() >= 188 {
        let t = b.skip(188);
        lemma_rest_of(t);
        assert(t.len() / 188 == b.len() / 188 - 1);
        assert(t.skip((t.len() / 188 * 188) as int) =~= b.skip((b.len() / 188 * 188) as int));
    } else {
        assert(b.len() / 188 == 0);
        assert(b.skip(0) =~= b);
    }
}

proof fn lemma_no_picture(
    q: QueueView<Picture>,
    first: Option<u64>,
    v: Seq<(Seq<u8>, u64)>,
    size: (u32, u32),
    outcomes: Seq<Option<Picture>>,
)
    requires
        !any_picture(outcomes),
    ensures
        queued(q, first, v, outcomes) == q,
        last_size(size, outcomes) == size,
    decreases outcomes.len(),
{
    if outcomes.len() > 0 {
        let init = outcomes.drop_last();
        assert(outcomes[outcomes.len() - 1] is None);
        assert(!any_picture(init)) by {
            assert forall|i: int| 0 <= i < init.len() implies !(#[trigger] init[i] is Some) by {
                assert(init[i] == outcomes[i]);
            }
        }
        lemma_no_picture(q, first, v, size, init);
    }
}

/// The rows of a picture are its pixels without what pads them.
pub proof fn rows_are_without_padding(p: &Picture, r: Option<Vec<u8>>, x: int, y: int)
    requires
        call_ensures(Picture::rows, (p,), r),
        0 <= p.width <= p.stride,
        0 <= p.height,
        p.height * p.stride <= p.luma@.len(),
        0 <= x < p.width,
        0 <= y < p.height,
    ensures
        r matches Some(v) && v@.len() == p.height * p.width && v@[y * p.width + x] == p.luma@[y
            * p.stride + x],
{
    rows_keep_pixels(p.luma@, p.width as int, p.stride as int, p.height as nat, x, y);
}

/// After a picture is shown the next is due an interval later, counted from when
/// this one was due and not from when it was asked for; what is left are the
/// last of those that waited, and all others are counted as dropped.
pub proof fn shown_pictures_set_the_pace<T>(q: &mut FrameQueue<T>, now: u64, r: Option<Frame<T>>)
    requires
        call_ensures(FrameQueue::<T>::next_frame, (q, now), r),
        old(q)@.frames.len() > 0,
        old(q)@.frames.len() <= 10,
        old(q)@.dropped <= u64::MAX - 20,
        old(q)@.next_time matches Some(t) && now >= t && t + old(q)@.interval_ms * 1_000_000
            <= u64::MAX,
    ensures
        r == Some(old(q)@.frames[0]),
        final(q)@.next_time == Some(
            (old(q)@.next_time->0 + old(q)@.interval_ms * 1_000_000) as u64,
        ),
        final(q)@.last_pts == old(q)@.frames[0].pts,
        final(q)@.interval_ms == old(q)@.interval_ms,
        final(q)@.duplicated == old(q)@.duplicated,
        final(q)@.frames.len() < old(q)@.frames.len(),
        final(q)@.frames == old(q)@.frames.skip(
            old(q)@.frames.len() - final(q)@.frames.len(),
        ),
        final(q)@.frames.len() + final(q)@.dropped + 1 == old(q)@.frames.len() + old(q)@.dropped,
{
    let p = old(q)@;
    let s = QueueView {
        frames: p.frames.skip(1),
        last_pts: p.frames[0].pts,
        next_time: Some((p.next_time->0 + p.interval_ms * 1_000_000) as u64),
        ..p
    };
    lemma_times_kept(s);
    lemma_rest_kept(s);
    let n = final(q)@.frames.len() as int;
    assert(s.frames.skip(s.frames.len() - n) =~= p.frames.skip(p.frames.len() - n));
}

proof fn lemma_rest_kept<T>(q: QueueView<T>)
    requires
        q.dropped + q.frames.len() <= u64::MAX,
    ensures
        ({
            let r = caught_up(q);
            &&& r.last_pts == q.last_pts
            &&& r.duplicated == q.duplicated
            &&& r.frames.len() <= q.frames.len()
            &&& r.frames == q.frames.skip(q.frames.len() - r.frames.len())
            &&& r.frames.len() + r.dropped == q.frames.len() + q.dropped
        }),
    decreases q.frames.len(),
{
    if q.frames.len() > 2 && q.frames[0].pts < q.last_pts + q.interval_ms {
        let d = drop_front(q);
        lemma_rest_kept(d);
        let r = caught_up(d);
        assert(d.frames.skip(d.frames.len() - r.frames.len()) =~= q.frames.skip(
            q.frames.len() - r.frames.len(),
        ));
    } else {
        assert(q.frames.skip(0) =~= q.frames);
    }
}

} // verus!
