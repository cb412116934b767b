//! The video decoder: the transport stream taken apart, its units decoded, and
//! the pictures queued to be shown in their time.

use openh264::decoder::Decoder;
use crate::h264::{
    Picture, h264_damaged, h264_decode, h264_new, h264_outcome, picture_opt, units_taken,
};
use crate::video::{
    Frame, FrameQueue, MAX_QUEUE_SIZE, QueueView, TARGET_FPS, TS_PACKET, TsParser,
    packets_are_short, packets_of, pictures_stay_in_order, pieces, presented, pushed,
    pushed_picture_is_last, rest_of,
};
use vstd::prelude::*;

verus! {

// ---------------------------------------------------------------- model

/// The decoder.
pub struct DecoderView {
    /// The bytes that do not make a packet yet.
    pub held: Seq<u8>,
    /// The units that were handed to H.264 decoding and taken.
    pub taken: Seq<Seq<u8>>,
    pub pictures: QueueView<Picture>,
    /// The size of the last picture.
    pub size: (u32, u32),
    /// A picture was shown in its time.
    pub ready: bool,
    /// The first presentation time that came in.
    pub first: Option<u64>,
}

/// Presentation times per millisecond.
pub const TICKS_PER_MS: u64 = 90;

/// The first presentation time, once some pieces came in.
pub open spec fn first_time(first: Option<u64>, v: Seq<(Seq<u8>, u64)>) -> Option<u64>
    decreases v.len(),
{
    if v.len() == 0 {
        first
    } else {
        match first_time(first, v.drop_last()) {
            Some(t) => Some(t),
            None => if v.last().1 > 0 { Some(v.last().1) } else { None },
        }
    }
}

/// A presentation time in milliseconds since the stream began, which it did with
/// the first of them. A piece without a time, and one from before, count as the
/// beginning.
pub open spec fn since_start(first: Option<u64>, pts: u64) -> u64 {
    match first {
        Some(t) => if pts >= t { ((pts - t) / TICKS_PER_MS as int) as u64 } else { 0 },
        None => 0,
    }
}

/// The data of the pieces that hold some: the units to be decoded.
pub open spec fn data_units(v: Seq<(Seq<u8>, u64)>) -> Seq<Seq<u8>>
    decreases v.len(),
{
    if v.len() == 0 {
        Seq::empty()
    } else if v.last().0.len() > 0 {
        data_units(v.drop_last()).push(v.last().0)
    } else {
        data_units(v.drop_last())
    }
}

/// What came of the first pieces, one outcome for each: a piece without data
/// gives nothing, and a unit is not damaged and gives the picture that it
/// completes after those that were taken before.
pub open spec fn are_decoded(
    taken: Seq<Seq<u8>>,
    v: Seq<(Seq<u8>, u64)>,
    outcomes: Seq<Option<Picture>>,
) -> bool {
    &&& outcomes.len() <= v.len()
    &&& forall|i: int|
        0 <= i < outcomes.len() ==> if v[i].0.len() == 0 {
            #[trigger] outcomes[i] is None
        } else {
            h264_outcome(taken + data_units(v.take(i + 1))) == Some(picture_opt(outcomes[i]))
        }
}

/// The queue once the pictures among the outcomes were put into it, with the
/// times of their pieces since the stream began.
pub open spec fn queued(
    q: QueueView<Picture>,
    first: Option<u64>,
    v: Seq<(Seq<u8>, u64)>,
    outcomes: Seq<Option<Picture>>,
) -> QueueView<Picture>
    decreases outcomes.len(),
{
    if outcomes.len() == 0 {
        q
    } else {
        let before = queued(q, first, v, outcomes.drop_last());
        let n = outcomes.len() as int;
        match outcomes.last() {
            Some(picture) => pushed(
                before,
                Frame { picture, pts: since_start(first_time(first, v.take(n)), v[n - 1].1) },
            ),
            None => before,
        }
    }
}

/// The size of the last picture among the outcomes, or the one from before.
pub open spec fn last_size(size: (u32, u32), outcomes: Seq<Option<Picture>>) -> (u32, u32)
    decreases outcomes.len(),
{
    if outcomes.len() == 0 {
        size
    } else {
        match outcomes.last() {
            Some(p) => (p.width as u32, p.height as u32),
            None => last_size(size, outcomes.drop_last()),
        }
    }
}

/// There is a picture among the outcomes.
pub open spec fn any_picture(outcomes: Seq<Option<Picture>>) -> bool {
    exists|i: int| 0 <= i < outcomes.len() && #[trigger] outcomes[i] is Some
}

/// The decoder once it was fed: it takes the pieces in their order, until one is
/// refused. `outcomes` is what came of those before that one.
pub open spec fn is_fed(
    d: DecoderView,
    data: Seq<u8>,
    outcomes: Seq<Option<Picture>>,
    e: DecoderView,
    r: Result<bool, VideoFault>,
) -> bool {
    let v = packets_of(d.held + data);
    let n = outcomes.len();
    &&& are_decoded(d.taken, v, outcomes)
    &&& e.held == rest_of(d.held + data)
    &&& e.pictures == queued(d.pictures, d.first, v, outcomes)
    &&& e.size == last_size(d.size, outcomes)
    &&& e.ready == d.ready
    &&& match r {
        Ok(any) => {
            &&& n == v.len()
            &&& any == any_picture(outcomes)
            &&& e.first == first_time(d.first, v)
            &&& e.taken == d.taken + data_units(v)
        },
        Err(fault) => {
            &&& fault == VideoFault::NotDecoded
            &&& n < v.len()
            &&& v[n as int].0.len() > 0
            &&& h264_damaged(d.taken + data_units(v.take(n + 1int)))
            &&& e.first == first_time(d.first, v.take(n + 1int))
        },
    }
}

// ---------------------------------------------------------------- execution

/// Why there is no picture.
#[derive(Clone, Copy, Debug, PartialEq, Eq, Structural)]
pub enum VideoFault {
    /// No H.264 decoder could be made.
    NoDecoder,
    /// A unit was refused.
    NotDecoded,
}

/// The decoder.
pub struct VideoDecoder {
    decoder: Decoder,
    ts_parser: TsParser,
    queue: FrameQueue<Picture>,
    width: u32,
    height: u32,
    frame_ready: bool,
    first_pts: Option<u64>,
}

impl View for VideoDecoder {
    type V = DecoderView;

    closed spec fn view(&self) -> DecoderView {
        DecoderView {
            held: self.ts_parser.held(),
            taken: units_taken(self.decoder),
            pictures: self.queue@,
            size: (self.width, self.height),
            ready: self.frame_ready,
            first: self.first_pts,
        }
    }
}

impl VideoDecoder {
    /// The times in the queue are far from the end of their numbers.
    pub closed spec fn wf(self) -> bool {
        &&& self.queue.wf()
        &&& self.queue@.frames.len() <= MAX_QUEUE_SIZE
        &&& self.queue@.interval_ms <= 1000
        &&& self.queue@.last_pts <= u64::MAX / 90
        &&& forall|i: int|
            0 <= i < self.queue@.frames.len() ==> (#[trigger] self.queue@.frames[i]).pts
                <= u64::MAX / 90
    }

    /// A decoder that was fed nothing yet.
    pub fn new() -> (r: Result<Self, VideoFault>)
        ensures
            r matches Err(fault) ==> fault == VideoFault::NoDecoder,
            r matches Ok(d) ==> d.wf() && d@ == (DecoderView {
                held: Seq::empty(),
                taken: Seq::empty(),
                pictures: QueueView {
                    frames: Seq::empty(),
                    next_time: None,
                    last_pts: 0,
                    interval_ms: 33,
                    dropped: 0,
                    duplicated: 0,
                },
                size: (0, 0),
                ready: false,
                first: None,
            }),
    {
        match h264_new() {
            Ok(decoder) => Ok(
                VideoDecoder {
                    decoder,
                    ts_parser: TsParser::new(),
                    queue: FrameQueue::new(TARGET_FPS),
                    width: 0,
                    height: 0,
                    frame_ready: false,
                    first_pts: None,
                },
            ),
            Err(_) => Err(VideoFault::NoDecoder),
        }
    }

    /// Takes a piece of the stream, decodes its units and queues the pictures.
    /// Gives whether there was one. What follows a unit that is refused is lost.
    pub fn feed(&mut self, data: &[u8]) -> (r: Result<bool, VideoFault>)
        requires
            old(self).wf(),
            old(self)@.pictures.dropped + 2 * (old(self)@.held.len() + data@.len()) <= u64::MAX,
        ensures
            final(self).wf(),
            exists|outcomes: Seq<Option<Picture>>| #[trigger]
                is_fed(old(self)@, data@, outcomes, final(self)@, r),
    {
        let ghost d = self@;
        let frames = self.ts_parser.feed(data);
        let ghost v = pieces(frames@);
        let ghost mut outcomes: Seq<Option<Picture>> = Seq::empty();
        let mut any = false;
        let mut i: usize = 0;
        proof {
            packets_are_short(d.held + data@);
            assert(v.take(0) =~= Seq::empty());
            assert(d.taken + data_units(v.take(0)) =~= d.taken);
        }
        while i < frames.len()
            invariant
                i <= frames@.len(),
                d == old(self)@,
                v == pieces(frames@),
                v == packets_of(d.held + data@),
                v.len() <= d.held.len() + data@.len(),
                d.pictures.dropped + 2 * (d.held.len() + data@.len()) <= u64::MAX,
                forall|k: int| 0 <= k < frames@.len() ==> (#[trigger] frames@[k]).1 < 0x2_0000_0000,
                forall|k: int| 0 <= k < v.len() ==> (#[trigger] v[k]).0.len() <= TS_PACKET,
                outcomes.len() == i,
                are_decoded(d.taken, v, outcomes),
                self.wf(),
                self@.held == rest_of(d.held + data@),
                self@.taken == d.taken + data_units(v.take(i as int)),
                self@.pictures == queued(d.pictures, d.first, v, outcomes),
                self@.pictures.dropped <= d.pictures.dropped + 2 * i,
                self@.size == last_size(d.size, outcomes),
                self@.ready == d.ready,
                self@.first == first_time(d.first, v.take(i as int)),
                any == any_picture(outcomes),
            decreases frames@.len() - i,
        {
            let pts: u64 = frames[i].1;
            let ghost a = v.take(i as int);
            let ghost b = v.take(i + 1);
            let ghost before = outcomes;
            proof {
                assert(b.drop_last() =~= a);
                assert(v[i as int] == (frames@[i as int].0@, frames@[i as int].1));
            }
            if pts > 0 && self.first_pts.is_none() {
                self.first_pts = Some(pts);
            }
            let mut out: Option<Picture> = None;
            if frames[i].0.len() > 0 {
                assert(d.taken + data_units(b) =~= (d.taken + data_units(a)).push(b.last().0));
                out = match h264_decode(&mut self.decoder, frames[i].0.as_slice()) {
                    Ok(p) => p,
                    Err(_) => {
                        assert(is_fed(d, data@, outcomes, self@, Err(VideoFault::NotDecoded)));
                        return Err(VideoFault::NotDecoded);
                    },
                };
            }
            proof {
                outcomes = outcomes.push(out);
                assert(outcomes.drop_last() =~= before);
                lemma_one_more_picture(before, outcomes);
            }
            if let Some(picture) = out {
                self.decoded(picture, pts);
                any = true;
            }
            i += 1;
        }
        proof {
            assert(v.take(i as int) =~= v);
            assert(is_fed(d, data@, outcomes, self@, Ok(any)));
        }
        Ok(any)
    }

    /// Takes a decoded picture with the presentation time of its piece.
    pub fn decoded(&mut self, picture: Picture, pts: u64)
        requires
            old(self).wf(),
            old(self)@.pictures.dropped <= u64::MAX - 2,
        ensures
            final(self).wf(),
            final(self)@ == (DecoderView {
                pictures: pushed(
                    old(self)@.pictures,
                    Frame { picture, pts: since_start(old(self)@.first, pts) },
                ),
                size: (picture.width as u32, picture.height as u32),
                ..old(self)@
            }),
    {
        self.width = picture.width as u32;
        self.height = picture.height as u32;
        let ms: u64 = match self.first_pts {
            Some(t) => if pts >= t { (pts - t) / TICKS_PER_MS } else { 0 },
            None => 0,
        };
        let ghost f = Frame { picture, pts: ms };
        let ghost q = self.queue@;
        proof {
            pushed_picture_is_last(q, f);
        }
        self.queue.push(Frame { picture, pts: ms });
        proof {
            let p = pushed(q, f);
            let stay = p.frames.drop_last();
            assert forall|i: int| 0 <= i < p.frames.len() implies (#[trigger] p.frames[i]).pts
                <= u64::MAX / 90 by {
                if i < stay.len() {
                    assert(p.frames[i] == stay[i]);
                    assert(stay[i] == q.frames[q.frames.len() - stay.len() + i]);
                }
            }
        }
    }

    /// The next picture, if it is due.
    pub fn next_frame(&mut self, now: u64) -> (r: Option<Picture>)
        requires
            old(self).wf(),
            old(self)@.pictures.dropped <= u64::MAX - MAX_QUEUE_SIZE,
            now <= u64::MAX - 1_000_000_000,
        ensures
            final(self).wf(),
            ({
                let (q, f) = presented(old(self)@.pictures, now);
                &&& final(self)@ == (DecoderView {
                    pictures: q,
                    ready: old(self)@.ready || f is Some,
                    ..old(self)@
                })
                &&& r is Some == f is Some
                &&& f matches Some(f) ==> r == Some(f.picture)
            }),
    {
        let ghost q = self.queue@;
        proof {
            pictures_stay_in_order(q, now);
            let left = presented(q, now).0.frames;
            assert forall|i: int| 0 <= i < left.len() implies (#[trigger] left[i]).pts <= u64::MAX
                / 90 by {
                assert(left[i] == q.frames[q.frames.len() - left.len() + i]);
            }
        }
        match self.queue.next_frame(now) {
            Some(f) => {
                self.frame_ready = true;
                Some(f.picture)
            },
            None => None,
        }
    }

    /// A picture at once, for rendering without pacing. After a paced picture
    /// the first call gives none.
    pub fn take_frame(&mut self) -> (r: Option<Picture>)
        requires
            old(self).wf(),
        ensures
            final(self).wf(),
            r is Some == (!old(self)@.ready && old(self)@.pictures.frames.len() > 0),
            r matches Some(p) ==> p == old(self)@.pictures.frames[0].picture,
            final(self)@ == (DecoderView {
                pictures: if r is Some {
                    QueueView {
                        frames: old(self)@.pictures.frames.skip(1),
                        ..old(self)@.pictures
                    }
                } else {
                    old(self)@.pictures
                },
                ready: false,
                ..old(self)@
            }),
    {
        if self.frame_ready {
            self.frame_ready = false;
            None
        } else {
            let ghost q = self.queue@;
            proof {
                if q.frames.len() > 0 {
                    let left = q.frames.skip(1);
                    assert forall|i: int| 0 <= i < left.len() implies (#[trigger] left[i]).pts
                        <= u64::MAX / 90 by {
                        assert(left[i] == q.frames[i + 1]);
                    }
                }
            }
            match self.queue.pop() {
                Some(f) => Some(f.picture),
                None => None,
            }
        }
    }

    /// The size of the last picture.
    pub fn dimensions(&self) -> (r: (u32, u32))
        ensures
            r == self@.size,
    {
        (self.width, self.height)
    }

    /// How many pictures were dropped, and how many shown twice.
    pub fn frame_stats(&self) -> (r: (u64, u64))
        ensures
            r == (self@.pictures.dropped, self@.pictures.duplicated),
    {
        self.queue.stats()
    }

    /// How many bytes wait for the rest of their packet.
    pub fn waiting(&self) -> (n: usize)
        ensures
            n == self@.held.len(),
    {
        self.ts_parser.waiting()
    }
}

proof fn lemma_one_more_picture(a: Seq<Option<Picture>>, b: Seq<Option<Picture>>)
    requires
        b.len() > 0,
        b.drop_last() == a,
    ensures
        any_picture(b) == (any_picture(a) || b.last() is Some),
{
    if any_picture(a) {
        let k = choose|k: int| 0 <= k < a.len() && #[trigger] a[k] is Some;
        assert(b[k] is Some);
    }
    if any_picture(b) && b.last() is None {
        let k = choose|k: int| 0 <= k < b.len() && #[trigger] b[k] is Some;
        assert(a[k] is Some);
    }
}

// ---------------------------------------------------------------- laws

/// A damaged unit is refused: no feeding in which one comes succeeds, and none
/// gets past it.
pub proof fn damaged_units_are_refused(
    d: DecoderView,
    data: Seq<u8>,
    outcomes: Seq<Option<Picture>>,
    e: DecoderView,
    r: Result<bool, VideoFault>,
    i: int,
)
    requires
        is_fed(d, data, outcomes, e, r),
        ({
            let v = packets_of(d.held + data);
            0 <= i < v.len() && v[i].0.len() > 0 && h264_damaged(
                d.taken + data_units(v.take(i + 1)),
            )
        }),
    ensures
        r == Err::<bool, VideoFault>(VideoFault::NotDecoded),
        outcomes.len() <= i,
{
    if outcomes.len() > i {
        assert(!(outcomes[i] is None && outcomes[i] is Some));
    }
}

/// A feeding in which no unit is damaged succeeds.
pub proof fn undamaged_units_are_taken(
    d: DecoderView,
    data: Seq<u8>,
    outcomes: Seq<Option<Picture>>,
    e: DecoderView,
    r: Result<bool, VideoFault>,
)
    requires
        is_fed(d, data, outcomes, e, r),
        ({
            let v = packets_of(d.held + data);
            forall|i: int|
                0 <= i < v.len() && (#[trigger] v[i]).0.len() > 0 ==> !h264_damaged(
                    d.taken + data_units(v.take(i + 1)),
                )
        }),
    ensures
        r == Ok::<bool, VideoFault>(any_picture(outcomes)),
        outcomes.len() == packets_of(d.held + data).len(),
        e.taken == d.taken + data_units(packets_of(d.held + data)),
{
    let v = packets_of(d.held + data);
    if r is Err {
        assert(v[outcomes.len() as int].0.len() > 0);
    }
}

/// Pictures are timed from the beginning of the stream: the first time that comes
/// in counts as zero, and one that is so many milliseconds later as that many.
pub proof fn times_count_from_the_start(v: Seq<(Seq<u8>, u64)>, t: u64, ms: u64)
    requires
        0 < t,
        t + ms * TICKS_PER_MS <= u64::MAX,
        v.len() > 0,
        v[0].1 == t,
    ensures
        first_time(None, v) == Some(t),
        since_start(first_time(None, v), t) == 0,
        since_start(first_time(None, v), (t + ms * TICKS_PER_MS) as u64) == ms,
    decreases v.len(),
{
    if v.len() > 1 {
        times_count_from_the_start(v.drop_last(), t, ms);
    } else {
        reveal_with_fuel(first_time, 2);
    }
}

/// The beginning of the stream stays what it is, whatever comes in.
pub proof fn start_stays(t: u64, v: Seq<(Seq<u8>, u64)>)
    ensures
        first_time(Some(t), v) == Some(t),
    decreases v.len(),
{
    if v.len() > 0 {
        start_stays(t, v.drop_last());
    }
}

} // verus!
