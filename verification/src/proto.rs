//! The frames of the control channel: one byte of message type, two bytes of
//! length, high byte first, and the payload.

use crate::bytes::copy_bytes;
use crate::text::{lossy_text, text_from_utf8_lossy};
use vstd::prelude::*;

verus! {

/// Payloads are shorter than this: their length fits the two bytes of a frame's
/// length field.
pub const MAX_PAYLOAD: usize = 64 * 1024;

pub const HELLO: u8 = 0x01;
pub const PASSWD_REQ: u8 = 0x02;
pub const PASSWD_AUTH: u8 = 0x03;
pub const LICENSE_TEXT: u8 = 0x04;
pub const LICENSE_ACCEPT: u8 = 0x05;
pub const LICENSE_REJECT: u8 = 0x06;
pub const TOKEN_ISSUED: u8 = 0x07;
pub const AUTH_TOKEN: u8 = 0x08;
pub const AUTH_OK: u8 = 0x09;
pub const AUTH_FAIL: u8 = 0x0A;
pub const CHALLENGE: u8 = 0x0B;
pub const PROOF: u8 = 0x0C;
pub const PING: u8 = 0x0D;
pub const PONG: u8 = 0x0E;
pub const BYE: u8 = 0x0F;
pub const EXEC_REQ: u8 = 0x10;
pub const EXEC_OUT: u8 = 0x11;
pub const EXEC_END: u8 = 0x12;
pub const EXEC_DENY: u8 = 0x13;

/// Why a frame cannot be written or read.
#[derive(Clone, Copy, Debug, PartialEq, Eq, Structural)]
pub enum FrameError {
    /// The payload is not shorter than `MAX_PAYLOAD`.
    TooLarge,
    /// The bytes end before the frame does.
    Truncated,
}

/// The bytes of a frame with a payload shorter than `MAX_PAYLOAD`.
pub open spec fn frame_bytes(msg: u8, payload: Seq<u8>) -> Seq<u8> {
    let n = payload.len();
    seq![msg, (n / 256) as u8, (n % 256) as u8] + payload
}

/// The payload length that a frame head announces.
pub open spec fn announced_len(hi: u8, lo: u8) -> nat {
    (hi * 256 + lo) as nat
}

/// The frame at the start of some bytes, if all of it is there.
pub open spec fn first_frame(bytes: Seq<u8>) -> Option<(u8, Seq<u8>)> {
    if bytes.len() < 3 {
        None
    } else {
        let n = announced_len(bytes[1], bytes[2]);
        if bytes.len() < 3 + n {
            None
        } else {
            Some((bytes[0], bytes.subrange(3, 3int + n)))
        }
    }
}

/// Every frame that can be written is read back, whatever follows it on the
/// wire.
pub proof fn frame_reads_back(msg: u8, payload: Seq<u8>, tail: Seq<u8>)
    requires
        payload.len() < MAX_PAYLOAD,
    ensures
        first_frame(frame_bytes(msg, payload) + tail) == Some((msg, payload)),
        frame_bytes(msg, payload).len() == 3 + payload.len(),
{
    let b = frame_bytes(msg, payload) + tail;
    let n = payload.len();
    assert(b[1] == (n / 256) as u8 && b[2] == (n % 256) as u8);
    assert(announced_len(b[1], b[2]) == n);
    assert(b.subrange(3, 3int + n) =~= payload);
}

/// Appends a frame to bytes that go on the wire.
pub fn write_frame(w: &mut Vec<u8>, msg: u8, payload: &[u8]) -> (r: Result<(), FrameError>)
    ensures
        r is Ok == (payload@.len() < MAX_PAYLOAD),
        r is Ok ==> final(w)@ == old(w)@ + frame_bytes(msg, payload@),
        r is Ok ==> announced_len(
            final(w)@[old(w)@.len() + 1int],
            final(w)@[old(w)@.len() + 2int],
        ) == payload@.len(),
        r is Ok ==> first_frame(final(w)@.skip(old(w)@.len() as int)) == Some((msg, payload@)),
        r matches Err(e) ==> e == FrameError::TooLarge && final(w)@ == old(w)@,
{
    if payload.len() >= MAX_PAYLOAD {
        return Err(FrameError::TooLarge);
    }
    let len: usize = payload.len();
    w.push(msg);
    w.push((len / 256) as u8);
    w.push((len % 256) as u8);
    w.extend_from_slice(payload);
    proof {
        let f = frame_bytes(msg, payload@);
        let empty = Seq::<u8>::empty();
        assert(w@ =~= old(w)@ + f);
        frame_reads_back(msg, payload@, empty);
        assert(w@.skip(old(w)@.len() as int) =~= f + empty);
    }
    Ok(())
}

/// Bytes that came in, and how far they have been read.
pub struct Reader {
    data: Vec<u8>,
    pos: usize,
}

impl Reader {
    #[verifier::type_invariant]
    spec fn wf(self) -> bool {
        self.pos <= self.data@.len()
    }

    /// What is left to read.
    pub closed spec fn rest(self) -> Seq<u8> {
        self.data@.skip(self.pos as int)
    }

    pub fn new(data: Vec<u8>) -> (r: Self)
        ensures
            r.rest() == data@,
    {
        let r = Reader { data, pos: 0 };
        assert(r.rest() =~= data@);
        r
    }
}

/// The payload length that a frame head announces.
pub fn payload_len(hi: u8, lo: u8) -> (n: usize)
    ensures
        n == announced_len(hi, lo),
        n < MAX_PAYLOAD,
{
    hi as usize * 256 + lo as usize
}

/// Reads the next frame. Where not all of it is there, nothing is read.
pub fn read_frame(r: &mut Reader) -> (f: Result<(u8, Vec<u8>), FrameError>)
    ensures
        f is Ok == first_frame(old(r).rest()) is Some,
        f matches Ok(p) ==> first_frame(old(r).rest()) == Some((p.0, p.1@)) && final(r).rest()
            == old(r).rest().skip(3int + p.1@.len()),
        f matches Err(e) ==> e == FrameError::Truncated && *final(r) == *old(r),
{
    proof {
        use_type_invariant(&*r);
    }
    let left: usize = r.data.len() - r.pos;
    if left < 3 {
        return Err(FrameError::Truncated);
    }
    let p: usize = r.pos;
    let n: usize = payload_len(r.data[p + 1], r.data[p + 2]);
    if left - 3 < n {
        return Err(FrameError::Truncated);
    }
    let msg: u8 = r.data[p];
    let payload = copy_bytes(r.data.as_slice(), p + 3, p + 3 + n);
    let ghost before = r.rest();
    r.pos = p + 3 + n;
    proof {
        assert(payload@ =~= before.subrange(3, 3 + n));
        assert(r.rest() =~= before.skip(3 + n));
    }
    Ok((msg, payload))
}

/// The text of a payload; invalid parts are replaced.
pub fn payload_text(payload: &[u8]) -> (s: String)
    ensures
        s@ == lossy_text(payload@),
{
    text_from_utf8_lossy(payload)
}

} // verus!
