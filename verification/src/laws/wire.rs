//! The wire: numbers in bytes, the frames of the control channel and of the data
//! link, and the pieces of files.

use std::time::Duration;
use crate::bytes::{
    be4, be4_value, be8, copy_bytes, lemma_be4, lemma_be8, push_be4, push_be8, read_be4, read_be8,
};
use crate::clock::{ms_of, secs_of};
use crate::host_session::elapsed_since;
use crate::mux::{
    DL_CH_AUDIO, DL_CH_CHUNK, DL_CH_CONTROL, DL_CH_INPUT, DL_CH_META, DL_CH_VIDEO, chunk_payload,
    chunk_reads_back, dl_frame, dl_parse, mux_reads_back, parse_chunk,
};
use crate::proto::{
    AUTH_FAIL, AUTH_OK, AUTH_TOKEN, BYE, CHALLENGE, EXEC_DENY, EXEC_END, EXEC_OUT, EXEC_REQ,
    FrameError, HELLO, LICENSE_ACCEPT, LICENSE_REJECT, LICENSE_TEXT, PASSWD_AUTH, PASSWD_REQ,
    PING, PONG, PROOF, Reader, TOKEN_ISSUED, frame_bytes, frame_reads_back, payload_len,
    payload_text, read_frame, write_frame,
};
use crate::text::encoded_text_reads_back;
use vstd::prelude::*;
use vstd::string::*;
use vstd::utf8::*;

verus! {

/// A number is written in four bytes, and in eight, the highest first, behind
/// what was there.
pub proof fn numbers_go_highest_first(v: &mut Vec<u8>, n: u32, w: &mut Vec<u8>, m: u64)
    requires
        call_ensures(push_be4, (v, n), ()),
        call_ensures(push_be8, (w, m), ()),
    ensures
        final(v)@.len() == old(v)@.len() + 4,
        final(v)@.take(old(v)@.len() as int) == old(v)@,
        ({
            let b = final(v)@.skip(old(v)@.len() as int);
            n == b[0] * 0x100_0000 + b[1] * 0x1_0000 + b[2] * 0x100 + b[3]
        }),
        final(w)@.len() == old(w)@.len() + 8,
        final(w)@.take(old(w)@.len() as int) == old(w)@,
        ({
            let b = final(w)@.skip(old(w)@.len() as int);
            m == (b[0] * 0x100_0000 + b[1] * 0x1_0000 + b[2] * 0x100 + b[3]) * 0x1_0000_0000 + (b[4]
                * 0x100_0000 + b[5] * 0x1_0000 + b[6] * 0x100 + b[7])
        }),
{
    lemma_be4(n as nat);
    lemma_be8(m as nat);
    reveal(be4_value);
    let b = final(v)@.skip(old(v)@.len() as int);
    assert(b =~= be4(n as nat));
    let c = final(w)@.skip(old(w)@.len() as int);
    lemma_be4(m as nat / 0x1_0000_0000);
    lemma_be4(m as nat % 0x1_0000_0000);
    assert(c =~= be8(m as nat));
    assert(final(v)@.take(old(v)@.len() as int) =~= old(v)@);
    assert(final(w)@.take(old(w)@.len() as int) =~= old(w)@);
    assert(c.take(4)[0] == c[0] && c.take(4)[1] == c[1] && c.take(4)[2] == c[2] && c.take(4)[3]
        == c[3]);
    assert(c.skip(4)[0] == c[4] && c.skip(4)[1] == c[5] && c.skip(4)[2] == c[6] && c.skip(4)[3]
        == c[7]);
}

/// Numbers that were written are read back from where they stand.
pub proof fn numbers_are_read_where_they_stand(
    a: Seq<u8>,
    v: &mut Vec<u8>,
    n: u32,
    w: &mut Vec<u8>,
    m: u64,
    b: &[u8],
    c: &[u8],
    x: u32,
    y: u64,
    i: usize,
)
    requires
        call_ensures(push_be4, (v, n), ()),
        call_ensures(push_be8, (w, m), ()),
        i == old(v)@.len() == old(w)@.len(),
        b@ == final(v)@ + a,
        c@ == final(w)@ + a,
        call_ensures(read_be4, (b, i), x),
        call_ensures(read_be8, (c, i), y),
    ensures
        x == n,
        y == m,
{
    lemma_be4(n as nat);
    lemma_be8(m as nat);
    assert(b@.subrange(i as int, i + 4) =~= be4(n as nat));
    assert(c@.subrange(i as int, i + 8) =~= be8(m as nat));
}

/// A frame of the control channel is its type, the length of its payload in two
/// bytes, the higher first, and the payload; it goes behind what was written
/// before. A payload of 65536 bytes or more is refused, and nothing is written.
pub proof fn control_frames_are_written(
    w: &mut Vec<u8>,
    msg: u8,
    payload: &[u8],
    r: Result<(), FrameError>,
)
    requires
        call_ensures(write_frame, (w, msg, payload), r),
    ensures
        payload@.len() < 65536 ==> r is Ok && {
            let b = final(w)@.skip(old(w)@.len() as int);
            &&& final(w)@.take(old(w)@.len() as int) == old(w)@
            &&& b.len() == 3 + payload@.len()
            &&& b[0] == msg
            &&& b[1] * 256 + b[2] == payload@.len()
            &&& b.skip(3) == payload@
        },
        payload@.len() >= 65536 ==> r == Err::<(), FrameError>(FrameError::TooLarge) && final(w)@
            == old(w)@,
{
    if payload@.len() < 65536 {
        let b = final(w)@.skip(old(w)@.len() as int);
        assert(b =~= frame_bytes(msg, payload@));
        assert(b.skip(3) =~= payload@);
        assert(final(w)@.take(old(w)@.len() as int) =~= old(w)@);
    }
}

/// Frames are read in the order in which they were written, each once; bytes
/// that stop short of a frame's end are left for later.
pub proof fn control_frames_are_read_in_order(
    w: &mut Vec<u8>,
    msg: u8,
    payload: &[u8],
    r: Result<(), FrameError>,
    b: &mut Reader,
    f: Result<(u8, Vec<u8>), FrameError>,
    tail: Seq<u8>,
)
    requires
        call_ensures(write_frame, (w, msg, payload), r),
        payload@.len() < 65536,
        call_ensures(read_frame, (b,), f),
    ensures
        old(b).rest() == final(w)@.skip(old(w)@.len() as int) + tail ==> (f matches Ok(p) && p.0
            == msg && p.1@ == payload@ && final(b).rest() == tail),
        old(b).rest().len() < 3 ==> f == Err::<(u8, Vec<u8>), FrameError>(FrameError::Truncated)
            && *final(b) == *old(b),
        old(b).rest().len() >= 3 && old(b).rest().len() < 3 + old(b).rest()[1] * 256 + old(
            b,
        ).rest()[2] ==> f == Err::<(u8, Vec<u8>), FrameError>(FrameError::Truncated) && *final(b)
            == *old(b),
{
    let g = final(w)@.skip(old(w)@.len() as int);
    assert(g =~= frame_bytes(msg, payload@));
    frame_reads_back(msg, payload@, tail);
    if old(b).rest() == g + tail {
        assert((g + tail).skip(3int + payload@.len()) =~= tail);
    }
}

/// The types of the messages of the control channel are numbered from 1 on, in
/// their order.
pub proof fn control_messages_are_numbered()
    ensures
        HELLO == 1 && PASSWD_REQ == 2 && PASSWD_AUTH == 3 && LICENSE_TEXT == 4 && LICENSE_ACCEPT
            == 5 && LICENSE_REJECT == 6 && TOKEN_ISSUED == 7 && AUTH_TOKEN == 8 && AUTH_OK == 9
            && AUTH_FAIL == 10 && CHALLENGE == 11 && PROOF == 12 && PING == 13 && PONG == 14 && BYE
            == 15 && EXEC_REQ == 16 && EXEC_OUT == 17 && EXEC_END == 18 && EXEC_DENY == 19,
        DL_CH_CONTROL == 1 && DL_CH_INPUT == 2 && DL_CH_VIDEO == 3 && DL_CH_META == 4
            && DL_CH_CHUNK == 5 && DL_CH_AUDIO == 6,
{
}

/// A frame of the data link is its channel, the length of its payload in four
/// bytes, the highest first, and the payload, and is read back whatever stands
/// behind it.
pub proof fn link_frames_read_back(
    channel: u8,
    payload: &[u8],
    b: Vec<u8>,
    tail: Seq<u8>,
    c: &[u8],
    r: Option<(u8, Vec<u8>)>,
)
    requires
        call_ensures(dl_frame, (channel, payload), b),
        payload@.len() < 0x1_0000_0000,
        c@ == b@ + tail,
        call_ensures(dl_parse, (c,), r),
    ensures
        b@.len() == 5 + payload@.len(),
        b@[0] == channel,
        b@[1] * 0x100_0000 + b@[2] * 0x1_0000 + b@[3] * 0x100 + b@[4] == payload@.len(),
        b@.skip(5) == payload@,
        r matches Some(p) && p.0 == channel && p.1@ == payload@,
{
    mux_reads_back(channel, payload@, tail);
    let n = payload@.len();
    assert(n % 0x1_0000_0000 == n);
    lemma_be4(n);
    lemma_four_bytes(be4(n));
    assert(b@ == seq![channel] + be4(n) + payload@);
    assert(b@.subrange(1, 5) =~= be4(n));
    assert(b@[1] == be4(n)[0] && b@[2] == be4(n)[1] && b@[3] == be4(n)[2] && b@[4] == be4(n)[3]);
    assert(b@.skip(5) =~= payload@);
}

proof fn lemma_four_bytes(b: Seq<u8>)
    ensures
        be4_value(b) == b[0] * 0x100_0000 + b[1] * 0x1_0000 + b[2] * 0x100 + b[3],
{
    reveal(be4_value);
}

/// Bytes that stop short of a frame's end are no frame yet.
pub proof fn short_link_frames_wait(c: &[u8], r: Option<(u8, Vec<u8>)>)
    requires
        call_ensures(dl_parse, (c,), r),
        c@.len() < 5 || c@.len() < 5 + c@[1] * 0x100_0000 + c@[2] * 0x1_0000 + c@[3] * 0x100
            + c@[4],
    ensures
        r is None,
{
    if c@.len() >= 5 {
        reveal(be4_value);
        let b = c@.subrange(1, 5);
        assert(b[0] == c@[1] && b[1] == c@[2] && b[2] == c@[3] && b[3] == c@[4]);
    }
}

/// A piece of a file is the number of its transfer in four bytes, its place in
/// eight, both highest first, and its bytes, and is read back so. Fewer than
/// twelve bytes are no piece.
pub proof fn pieces_read_back(
    id: u32,
    offset: u64,
    data: &[u8],
    p: Vec<u8>,
    b: &[u8],
    r: Option<(u32, u64, Vec<u8>)>,
)
    requires
        call_ensures(chunk_payload, (id, offset, data), p),
        call_ensures(parse_chunk, (b,), r),
    ensures
        p@.len() == 12 + data@.len(),
        p@.skip(12) == data@,
        p@[0] * 0x100_0000 + p@[1] * 0x1_0000 + p@[2] * 0x100 + p@[3] == id,
        (p@[4] * 0x100_0000 + p@[5] * 0x1_0000 + p@[6] * 0x100 + p@[7]) * 0x1_0000_0000 + (p@[8]
            * 0x100_0000 + p@[9] * 0x1_0000 + p@[10] * 0x100 + p@[11]) == offset,
        b@ == p@ ==> (r matches Some(q) && q.0 == id && q.1 == offset && q.2@ == data@),
        b@.len() < 12 ==> r is None,
{
    chunk_reads_back(id, offset, data@);
    lemma_be4(id as nat);
    lemma_be8(offset as nat);
    lemma_be4(offset as nat / 0x1_0000_0000);
    lemma_be4(offset as nat % 0x1_0000_0000);
    reveal(be4_value);
    assert(p@.skip(12) =~= data@);
    let o = be8(offset as nat);
    assert(p@.subrange(4, 12) =~= o);
    assert(o.take(4)[0] == p@[4] && o.take(4)[1] == p@[5] && o.take(4)[2] == p@[6] && o.take(4)[3]
        == p@[7]);
    assert(o.skip(4)[0] == p@[8] && o.skip(4)[1] == p@[9] && o.skip(4)[2] == p@[10] && o.skip(
        4,
    )[3] == p@[11]);
}

/// A part of some bytes is copied as it stands, the length of a payload read
/// from its two bytes, and its text from its bytes.
pub proof fn bytes_are_taken_as_they_stand(
    v: &[u8],
    from: usize,
    to: usize,
    r: Vec<u8>,
    hi: u8,
    lo: u8,
    n: usize,
    s: String,
    text: Seq<char>,
)
    requires
        call_ensures(copy_bytes, (v, from, to), r),
        from <= to <= v@.len(),
        call_ensures(payload_len, (hi, lo), n),
        call_ensures(payload_text, (v,), s),
    ensures
        r@ == v@.subrange(from as int, to as int),
        n == hi * 256 + lo,
        v@ == encode_utf8(text) ==> s@ == text,
{
    encoded_text_reads_back(text);
}

/// A reader begins with all that came in.
pub proof fn readers_begin_with_everything(data: Vec<u8>, r: Reader)
    requires
        call_ensures(Reader::new, (data,), r),
    ensures
        r.rest() == data@,
{
}

/// Moments are counted in whole seconds and in whole milliseconds, from the same
/// beginning.
pub proof fn moments_are_counted(
    d: Option<Duration>,
    s: u64,
    ms: u128,
    since: u64,
    now: u64,
    e: u64,
)
    requires
        call_ensures(secs_of, (d,), s),
        call_ensures(ms_of, (d,), ms),
        call_ensures(elapsed_since, (since, now), e),
    ensures
        1000 * s <= ms < 1000 * (s + 1),
        d is None ==> s == 0 && ms == 0,
        now >= since ==> e == now - since,
        now < since ==> e == 0,
{
}

} // verus!
