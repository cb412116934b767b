//! The video stream: MPEG transport packets cut into pieces with their
//! presentation times, and the queue that paces the pictures.

use std::collections::VecDeque;
use crate::bytes::copy_bytes;
use vstd::prelude::*;

verus! {

/// Pictures per second.
pub const TARGET_FPS: u32 = 30;

/// The longest that the queue of pictures grows.
pub const MAX_QUEUE_SIZE: usize = 10;

/// Bytes in a transport packet.
pub const TS_PACKET: usize = 188;

// ---------------------------------------------------------------- transport packets: model

/// The presentation time in five bytes: 33 bits, with a marker bit after the
/// third, the eighteenth and the last.
pub open spec fn pts_of(b: Seq<u8>) -> nat {
    (((b[0] / 2) % 8) * 0x4000_0000 + b[1] * 0x40_0000 + (b[2] / 2) * 0x8000 + b[3] * 0x80 + b[4]
        / 2) as nat
}

/// The data and the presentation time of a video packet of the elementary
/// stream, if the bytes start one.
pub open spec fn pes_of(p: Seq<u8>) -> Option<(Seq<u8>, u64)> {
    if p.len() < 9 || p[0] != 0 || p[1] != 0 || p[2] != 1 || p[3] < 0xE0 || p[3] > 0xEF {
        None
    } else {
        let start = 9 + p[8];
        if p.len() < start {
            None
        } else {
            let pts = if p[7] >= 0x80 && p[8] >= 5 { pts_of(p.subrange(9, 14)) } else { 0 };
            Some((p.skip(start), pts as u64))
        }
    }
}

/// The first byte of a transport packet's payload, if it has one.
pub open spec fn payload_offset(p: Seq<u8>) -> Option<int> {
    let control = p[3] / 16 % 4;
    let offset = if control / 2 == 1 { 5 + p[4] } else { 4 };
    if p[0] == 0x47 && control % 2 == 1 && offset < TS_PACKET { Some(offset) } else { None }
}

/// What a transport packet carries: a video packet's data and time where one
/// starts, else its payload as it is, with no time.
pub open spec fn packet_of(p: Seq<u8>) -> Option<(Seq<u8>, u64)> {
    match payload_offset(p) {
        None => None,
        Some(offset) => {
            let payload = p.skip(offset);
            let pid = (p[1] % 32) * 256 + p[2];
            let starts = p[1] / 64 % 2 == 1;
            if pid == 0x1011 || starts {
                match pes_of(payload) {
                    Some(r) => Some(r),
                    None => Some((payload, 0)),
                }
            } else {
                Some((payload, 0))
            }
        },
    }
}

/// What the whole packets at the start of some bytes carry, in their order.
pub open spec fn packets_of(b: Seq<u8>) -> Seq<(Seq<u8>, u64)>
    decreases b.len(),
{
    if b.len() < TS_PACKET {
        Seq::empty()
    } else {
        let rest = packets_of(b.skip(TS_PACKET as int));
        match packet_of(b.take(TS_PACKET as int)) {
            Some(f) => seq![f] + rest,
            None => rest,
        }
    }
}

/// The bytes after the last whole packet.
pub open spec fn rest_of(b: Seq<u8>) -> Seq<u8>
    decreases b.len(),
{
    if b.len() < TS_PACKET { b } else { rest_of(b.skip(TS_PACKET as int)) }
}

/// It does not matter how the stream is cut into pieces: what two pieces carry,
/// fed one after the other, is what they carry together.
pub proof fn pieces_do_not_matter(a: Seq<u8>, b: Seq<u8>)
    ensures
        packets_of(a + b) == packets_of(a) + packets_of(rest_of(a) + b),
        rest_of(a + b) == rest_of(rest_of(a) + b),
    decreases a.len(),
{
    if a.len() < TS_PACKET {
        assert(packets_of(a) + packets_of(a + b) =~= packets_of(a + b));
    } else {
        let t = a.skip(TS_PACKET as int);
        pieces_do_not_matter(t, b);
        assert((a + b).skip(TS_PACKET as int) =~= t + b);
        assert((a + b).take(TS_PACKET as int) =~= a.take(TS_PACKET as int));
        assert(packets_of(a + b) =~= packets_of(a) + packets_of(rest_of(a) + b));
    }
}

/// What packets carry is no longer than they are, and there are no more of them
/// than bytes.
pub proof fn packets_are_short(b: Seq<u8>)
    ensures
        packets_of(b).len() <= b.len(),
        forall|i: int|
            0 <= i < packets_of(b).len() ==> (#[trigger] packets_of(b)[i]).0.len() <= TS_PACKET,
    decreases b.len(),
{
    if b.len() >= TS_PACKET {
        let tail = b.skip(TS_PACKET as int);
        packets_are_short(tail);
        let all = packets_of(b);
        assert forall|i: int| 0 <= i < all.len() implies (#[trigger] all[i]).0.len()
            <= TS_PACKET by {
            if packet_of(b.take(TS_PACKET as int)) is None {
                assert(all[i] == packets_of(tail)[i]);
            } else if i > 0 {
                assert(all[i] == packets_of(tail)[i - 1]);
            }
        }
    }
}

// ---------------------------------------------------------------- transport packets: execution

/// Pieces with their times.
pub open spec fn pieces(v: Seq<(Vec<u8>, u64)>) -> Seq<(Seq<u8>, u64)> {
    v.map_values(|f: (Vec<u8>, u64)| (f.0@, f.1))
}

/// The presentation time in the five bytes from `i` on.
fn parse_pts(b: &Vec<u8>, i: usize) -> (pts: u64)
    requires
        i + 5 <= b@.len(),
    ensures
        pts == pts_of(b@.subrange(i as int, i + 5)),
        pts < 0x2_0000_0000,
{
    let n: usize = b.len();
    let ghost s = b@.subrange(i as int, i + 5);
    assert(s[0] == b@[i as int] && s[1] == b@[i + 1] && s[2] == b@[i + 2] && s[3] == b@[i + 3]
        && s[4] == b@[i + 4]);
    (b[i] as u64 / 2) % 8 * 0x4000_0000 + b[i + 1] as u64 * 0x40_0000 + (b[i + 2] as u64 / 2)
        * 0x8000 + b[i + 3] as u64 * 0x80 + b[i + 4] as u64 / 2
}

/// The data and the time of a video packet, if the bytes start one.
pub fn parse_pes(p: &Vec<u8>) -> (r: Option<(Vec<u8>, u64)>)
    ensures
        r is Some == pes_of(p@) is Some,
        r matches Some(f) ==> pes_of(p@) == Some((f.0@, f.1)) && f.1 < 0x2_0000_0000,
{
    if p.len() < 9 || p[0] != 0 || p[1] != 0 || p[2] != 1 || p[3] < 0xE0 || p[3] > 0xEF {
        return None;
    }
    let start: usize = 9 + p[8] as usize;
    if p.len() < start {
        return None;
    }
    let pts: u64 = if p[7] >= 0x80 && p[8] >= 5 { parse_pts(p, 9) } else { 0 };
    let data = copy_bytes(p.as_slice(), start, p.len());
    assert(data@ =~= p@.skip(start as int));
    Some((data, pts))
}

/// What the transport packet at the start of some bytes carries; nothing where
/// they are too few for one.
pub fn parse_ts_packet(p: &Vec<u8>) -> (r: Option<(Vec<u8>, u64)>)
    ensures
        p@.len() < TS_PACKET ==> r is None,
        p@.len() >= TS_PACKET ==> r is Some == packet_of(p@.take(TS_PACKET as int)) is Some,
        r matches Some(f) ==> packet_of(p@.take(TS_PACKET as int)) == Some((f.0@, f.1)) && f.1
            < 0x2_0000_0000,
{
    if p.len() < TS_PACKET {
        return None;
    }
    let ghost q = p@.take(TS_PACKET as int);
    let control: u8 = p[3] / 16 % 4;
    let offset: usize = if control / 2 == 1 { 5 + p[4] as usize } else { 4 };
    if p[0] != 0x47 || control % 2 != 1 || offset >= TS_PACKET {
        return None;
    }
    let payload = copy_bytes(p.as_slice(), offset, TS_PACKET);
    assert(payload@ =~= q.skip(offset as int));
    let pid: u32 = (p[1] % 32) as u32 * 256 + p[2] as u32;
    let starts = p[1] / 64 % 2 == 1;
    if pid == 0x1011 || starts {
        match parse_pes(&payload) {
            Some(f) => Some(f),
            None => Some((payload, 0)),
        }
    } else {
        Some((payload, 0))
    }
}

/// Cuts a stream into transport packets, whatever pieces it comes in.
pub struct TsParser {
    buffer: Vec<u8>,
}

impl TsParser {
    /// The bytes that do not make a packet yet.
    pub closed spec fn held(self) -> Seq<u8> {
        self.buffer@
    }

    pub fn new() -> (r: Self)
        ensures
            r.held() == Seq::<u8>::empty(),
    {
        let r = TsParser { buffer: Vec::new() };
        assert(r.held() =~= Seq::<u8>::empty());
        r
    }

    /// How many bytes do not make a packet yet.
    pub fn waiting(&self) -> (n: usize)
        ensures
            n == self.held().len(),
    {
        self.buffer.len()
    }

    /// Takes a piece of the stream and gives what its packets carry.
    pub fn feed(&mut self, data: &[u8]) -> (frames: Vec<(Vec<u8>, u64)>)
        ensures
            pieces(frames@) == packets_of(old(self).held() + data@),
            final(self).held() == rest_of(old(self).held() + data@),
            forall|i: int| 0 <= i < frames@.len() ==> (#[trigger] frames@[i]).1 < 0x2_0000_0000,
    {
        self.buffer.extend_from_slice(data);
        let ghost all = self.buffer@;
        let n: usize = self.buffer.len();
        let mut frames: Vec<(Vec<u8>, u64)> = Vec::new();
        let mut at: usize = 0;
        proof {
            assert(all =~= old(self).held() + data@);
            assert(all.skip(0) =~= all);
            assert(pieces(frames@) + packets_of(all.skip(0)) =~= packets_of(all));
        }
        while n - at >= TS_PACKET
            invariant
                n == all.len(),
                self.buffer@ == all,
                at <= n,
                pieces(frames@) + packets_of(all.skip(at as int)) == packets_of(all),
                rest_of(all.skip(at as int)) == rest_of(all),
                forall|i: int| 0 <= i < frames@.len() ==> (#[trigger] frames@[i]).1 < 0x2_0000_0000,
            decreases n - at,
        {
            let packet = copy_bytes(self.buffer.as_slice(), at, at + TS_PACKET);
            let ghost tail = all.skip(at as int);
            let ghost before = pieces(frames@);
            proof {
                assert(tail.take(TS_PACKET as int) =~= packet@);
                assert(packet@.take(TS_PACKET as int) =~= packet@);
                assert(tail.skip(TS_PACKET as int) =~= all.skip(at + TS_PACKET));
            }
            if let Some(f) = parse_ts_packet(&packet) {
                let ghost fv = (f.0@, f.1);
                frames.push(f);
                proof {
                    assert(pieces(frames@) =~= before.push(fv));
                    assert(before + (seq![fv] + packets_of(all.skip(at + TS_PACKET))) =~= pieces(
                        frames@,
                    ) + packets_of(all.skip(at + TS_PACKET)));
                }
            }
            at += TS_PACKET;
        }
        let rest = copy_bytes(self.buffer.as_slice(), at, n);
        proof {
            assert(rest@ =~= all.skip(at as int));
            assert(pieces(frames@) =~= packets_of(all));
        }
        self.buffer = rest;
        frames
    }
}

// ---------------------------------------------------------------- pacing: model

/// A picture with its presentation time, in milliseconds since the stream
/// began.
pub struct Frame<T> {
    pub picture: T,
    pub pts: u64,
}

/// The queue of pictures. Moments are nanoseconds of a clock that never goes
/// back.
pub struct QueueView<T> {
    pub frames: Seq<Frame<T>>,
    pub next_time: Option<u64>,
    pub last_pts: u64,
    pub interval_ms: u64,
    pub dropped: u64,
    pub duplicated: u64,
}

/// A time as a signed number of 64 bits.
pub open spec fn signed(t: u64) -> int {
    if t <= i64::MAX { t as int } else { t - 0x1_0000_0000_0000_0000 }
}

/// How far two times are apart, as signed numbers.
pub open spec fn apart(a: u64, b: u64) -> int {
    let d = signed(a) - signed(b);
    if d >= 0 { d } else { -d }
}

/// The queue without its first picture, which was not shown.
pub open spec fn drop_front<T>(q: QueueView<T>) -> QueueView<T> {
    QueueView { frames: q.frames.skip(1), dropped: (q.dropped + 1) as u64, ..q }
}

/// The queue without a first picture that is more than three intervals away
/// from the last one shown.
pub open spec fn without_stray<T>(q: QueueView<T>) -> QueueView<T> {
    if q.frames.len() > 0 && apart(q.frames[0].pts, q.last_pts) > q.interval_ms * 3 {
        drop_front(q)
    } else {
        q
    }
}

/// The queue with one more picture; a full queue loses its oldest.
pub open spec fn pushed<T>(q: QueueView<T>, f: Frame<T>) -> QueueView<T> {
    let s = without_stray(q);
    let r = if s.frames.len() < MAX_QUEUE_SIZE { s } else { drop_front(s) };
    QueueView { frames: r.frames.push(f), ..r }
}

/// The queue without the pictures that should have been shown already, as long
/// as more than two are left.
pub open spec fn caught_up<T>(q: QueueView<T>) -> QueueView<T>
    decreases q.frames.len(),
{
    if q.frames.len() > 2 && q.frames[0].pts < q.last_pts + q.interval_ms {
        caught_up(drop_front(q))
    } else {
        q
    }
}

/// The first picture is to be shown by now.
pub open spec fn is_due<T>(q: QueueView<T>, now: u64) -> bool {
    q.frames.len() > 0 && match q.next_time {
        Some(t) => now >= t,
        None => true,
    }
}

/// The queue once the next picture is asked for, and the picture, if one is
/// due.
pub open spec fn presented<T>(q: QueueView<T>, now: u64) -> (QueueView<T>, Option<Frame<T>>) {
    if q.frames.len() == 0 {
        (q, None)
    } else {
        let due = match q.next_time {
            Some(t) => t,
            None => now,
        };
        if now >= due {
            let f = q.frames[0];
            (
                caught_up(
                    QueueView {
                        frames: q.frames.skip(1),
                        last_pts: f.pts,
                        next_time: Some((due + q.interval_ms * 1_000_000) as u64),
                        ..q
                    },
                ),
                Some(f),
            )
        } else {
            (QueueView { next_time: Some(due), ..q }, None)
        }
    }
}

proof fn lemma_caught_up<T>(q: QueueView<T>)
    requires
        q.dropped + q.frames.len() <= u64::MAX,
    ensures
        caught_up(q).frames.len() <= q.frames.len(),
        caught_up(q).frames.len() + caught_up(q).dropped == q.frames.len() + q.dropped,
        caught_up(q).last_pts == q.last_pts,
        caught_up(q).interval_ms == q.interval_ms,
        q.frames.len() <= 2 ==> caught_up(q) == q,
        caught_up(q).frames == q.frames.skip(q.frames.len() - caught_up(q).frames.len()),
    decreases q.frames.len(),
{
    if q.frames.len() > 2 && q.frames[0].pts < q.last_pts + q.interval_ms {
        lemma_caught_up(drop_front(q));
        assert(caught_up(q).frames =~= q.frames.skip(
            q.frames.len() - caught_up(q).frames.len(),
        ));
    } else {
        assert(q.frames.skip(0) =~= q.frames);
    }
}

/// Pictures come out in the order in which they went in: the picture that is
/// shown is the oldest in the queue, and those that stay keep their order. Its
/// time is the last that was shown.
pub proof fn pictures_stay_in_order<T>(q: QueueView<T>, now: u64)
    requires
        q.dropped + q.frames.len() <= u64::MAX,
    ensures
        presented(q, now).1 matches Some(f) ==> f == q.frames[0],
        ({
            let left = presented(q, now).0.frames;
            left.len() <= q.frames.len() && left == q.frames.skip(q.frames.len() - left.len())
        }),
        presented(q, now).1 is Some ==> presented(q, now).0.frames.len() < q.frames.len(),
        presented(q, now).1 is Some == is_due(q, now),
        presented(q, now).0.last_pts == (match presented(q, now).1 {
            Some(f) => f.pts,
            None => q.last_pts,
        }),
        presented(q, now).0.interval_ms == q.interval_ms,
{
    if q.frames.len() > 0 {
        let due = match q.next_time {
            Some(t) => t,
            None => now,
        };
        if now >= due {
            let m = QueueView {
                frames: q.frames.skip(1),
                last_pts: q.frames[0].pts,
                next_time: Some((due + q.interval_ms * 1_000_000) as u64),
                ..q
            };
            lemma_caught_up(m);
            let left = presented(q, now).0.frames;
            assert(left =~= q.frames.skip(q.frames.len() - left.len()));
        } else {
            assert(q.frames.skip(0) =~= q.frames);
        }
    } else {
        assert(q.frames.skip(0) =~= q.frames);
    }
}

/// A picture that goes into the queue is the last in it, behind the latest of
/// those before; those that had to go are counted, and no queue grows too long.
/// What was shown last, and when the next is due, stay as they are.
pub proof fn pushed_picture_is_last<T>(q: QueueView<T>, f: Frame<T>)
    requires
        q.frames.len() <= MAX_QUEUE_SIZE,
        q.dropped <= u64::MAX - 2,
    ensures
        ({
            let p = pushed(q, f);
            let stay = p.frames.drop_last();
            &&& p.frames.len() <= MAX_QUEUE_SIZE
            &&& p.frames.last() == f
            &&& stay.len() <= q.frames.len()
            &&& stay == q.frames.skip(q.frames.len() - stay.len())
            &&& q.frames.len() + 1 == p.frames.len() + (p.dropped - q.dropped)
            &&& p.last_pts == q.last_pts
            &&& p.next_time == q.next_time
            &&& p.interval_ms == q.interval_ms
        }),
{
    let p = pushed(q, f);
    let stay = p.frames.drop_last();
    assert(stay =~= q.frames.skip(q.frames.len() - stay.len()));
}

// ---------------------------------------------------------------- pacing: execution

fn signed_time(t: u64) -> (n: i128)
    ensures
        n == signed(t),
{
    if t <= i64::MAX as u64 { t as i128 } else { t as i128 - 0x1_0000_0000_0000_0000 }
}

/// The queue of pictures.
pub struct FrameQueue<T> {
    frames: VecDeque<Frame<T>>,
    next_time: Option<u64>,
    last_pts: u64,
    interval_ms: u64,
    dropped: u64,
    duplicated: u64,
}

impl<T> View for FrameQueue<T> {
    type V = QueueView<T>;

    closed spec fn view(&self) -> QueueView<T> {
        QueueView {
            frames: self.frames@,
            next_time: self.next_time,
            last_pts: self.last_pts,
            interval_ms: self.interval_ms,
            dropped: self.dropped,
            duplicated: self.duplicated,
        }
    }
}

impl<T> FrameQueue<T> {
    /// The queue is no longer than it may be, nor is its interval.
    pub closed spec fn wf(self) -> bool {
        &&& self.frames@.len() <= MAX_QUEUE_SIZE
        &&& self.interval_ms <= 1000
    }

    /// A queue for so many pictures per second.
    pub fn new(target_fps: u32) -> (r: Self)
        requires
            target_fps > 0,
        ensures
            r.wf(),
            r@ == (QueueView::<T> {
                frames: Seq::empty(),
                next_time: None,
                last_pts: 0,
                interval_ms: (1000nat / target_fps as nat) as u64,
                dropped: 0,
                duplicated: 0,
            }),
    {
        let interval_ms: u64 = 1000 / target_fps as u64;
        assert(interval_ms <= 1000) by (nonlinear_arith)
            requires
                interval_ms == 1000u64 / target_fps as u64,
                target_fps > 0,
        {
        }
        let r = FrameQueue {
            frames: VecDeque::new(),
            next_time: None,
            last_pts: 0,
            interval_ms,
            dropped: 0,
            duplicated: 0,
        };
        assert(r@.frames =~= Seq::empty());
        r
    }

    /// How many pictures wait.
    pub fn len(&self) -> (n: usize)
        requires
            self.wf(),
        ensures
            n == self@.frames.len(),
            n <= MAX_QUEUE_SIZE,
    {
        self.frames.len()
    }

    fn drop_first(&mut self)
        requires
            old(self).wf(),
            old(self)@.frames.len() > 0,
            old(self)@.dropped < u64::MAX,
        ensures
            final(self).wf(),
            final(self)@ == drop_front(old(self)@),
    {
        let ghost before = self.frames@;
        let _ = self.frames.pop_front();
        self.dropped = self.dropped + 1;
        assert(self.frames@ =~= before.skip(1));
    }

    /// Puts a picture into the queue.
    pub fn push(&mut self, frame: Frame<T>)
        requires
            old(self).wf(),
            old(self)@.frames.len() > 0 ==> apart(old(self)@.frames[0].pts, old(self)@.last_pts)
                <= i64::MAX,
            old(self)@.dropped <= u64::MAX - 2,
        ensures
            final(self).wf(),
            final(self)@ == pushed(old(self)@, frame),
    {
        if self.frames.len() > 0 {
            let d: i128 = signed_time(self.frames[0].pts) - signed_time(self.last_pts);
            let age: i128 = if d >= 0 { d } else { -d };
            if age > self.interval_ms as i128 * 3 {
                self.drop_first();
            }
        }
        if self.frames.len() >= MAX_QUEUE_SIZE {
            self.drop_first();
        }
        self.frames.push_back(frame);
    }

    /// The next picture, if it is due. Pictures that should have been shown
    /// already are dropped.
    pub fn next_frame(&mut self, now: u64) -> (r: Option<Frame<T>>)
        requires
            old(self).wf(),
            old(self)@.dropped <= u64::MAX - MAX_QUEUE_SIZE,
            is_due(old(self)@, now) && old(self)@.frames.len() > 3 ==> old(self)@.frames[0].pts
                + old(self)@.interval_ms <= u64::MAX,
            now <= u64::MAX - 1_000_000_000,
        ensures
            final(self).wf(),
            (final(self)@, r) == presented(old(self)@, now),
    {
        if self.frames.len() == 0 {
            return None;
        }
        let due: u64 = match self.next_time {
            Some(t) => t,
            None => now,
        };
        if now < due {
            self.next_time = Some(due);
            return None;
        }
        let ghost before = self.frames@;
        let frame = match self.frames.pop_front() {
            Some(f) => f,
            None => {
                return None;
            },
        };
        assert(frame == before[0]);
        assert(self.frames@ =~= before.skip(1));
        self.last_pts = frame.pts;
        self.next_time = Some(due + self.interval_ms * 1_000_000);
        let ghost goal = caught_up(self@);
        while self.frames.len() > 2 && self.frames[0].pts < self.last_pts + self.interval_ms
            invariant
                self.wf(),
                self@.frames.len() > 2 ==> self@.last_pts + self@.interval_ms <= u64::MAX,
                self@.dropped + self@.frames.len() <= u64::MAX,
                caught_up(self@) == goal,
            decreases self.frames@.len(),
        {
            self.drop_first();
        }
        Some(frame)
    }

    /// The oldest picture, due or not.
    pub fn pop(&mut self) -> (r: Option<Frame<T>>)
        requires
            old(self).wf(),
        ensures
            final(self).wf(),
            r is Some == (old(self)@.frames.len() > 0),
            r matches Some(f) ==> f == old(self)@.frames[0] && final(self)@ == (QueueView {
                frames: old(self)@.frames.skip(1),
                ..old(self)@
            }),
            r is None ==> final(self)@ == old(self)@,
    {
        let ghost before = self.frames@;
        let frame = match self.frames.pop_front() {
            Some(f) => f,
            None => {
                return None;
            },
        };
        assert(self.frames@ =~= before.skip(1));
        Some(frame)
    }

    /// How many pictures were dropped, and how many shown twice.
    pub fn stats(&self) -> (r: (u64, u64))
        ensures
            r == (self@.dropped, self@.duplicated),
    {
        (self.dropped, self.duplicated)
    }
}

} // verus!
