//! The frames of the data link: one byte of channel, four bytes of length,
//! highest first, and the payload.

use crate::bytes::{
    be4, be4_value, be8, be8_value, copy_bytes, lemma_be4, lemma_be8, push_be4, push_be8,
    read_be4, read_be8,
};
use vstd::prelude::*;

verus! {

/// Control: heartbeats of the data link.
pub const DL_CH_CONTROL: u8 = 0x01;
/// Input events.
pub const DL_CH_INPUT: u8 = 0x02;
/// Video.
pub const DL_CH_VIDEO: u8 = 0x03;
/// File transfer: messages.
pub const DL_CH_META: u8 = 0x04;
/// File transfer: data.
pub const DL_CH_CHUNK: u8 = 0x05;
/// Audio.
pub const DL_CH_AUDIO: u8 = 0x06;

/// The bytes of a frame. The length field has four bytes: it holds the length
/// modulo 2^32.
pub open spec fn mux_bytes(channel: u8, payload: Seq<u8>) -> Seq<u8> {
    seq![channel] + be4(payload.len() % 0x1_0000_0000) + payload
}

/// The frame at the start of some bytes, if all of it is there.
pub open spec fn mux_frame(buf: Seq<u8>) -> Option<(u8, Seq<u8>)> {
    if buf.len() < 5 {
        None
    } else {
        let n = be4_value(buf.subrange(1, 5));
        if buf.len() < 5 + n {
            None
        } else {
            Some((buf[0], buf.subrange(5, 5int + n)))
        }
    }
}

/// A frame of the data link that was written is read back, whatever follows it.
pub proof fn mux_reads_back(channel: u8, payload: Seq<u8>, tail: Seq<u8>)
    requires
        payload.len() < 0x1_0000_0000,
    ensures
        mux_frame(mux_bytes(channel, payload) + tail) == Some((channel, payload)),
{
    let b = mux_bytes(channel, payload) + tail;
    let n = payload.len();
    assert(n % 0x1_0000_0000 == n);
    lemma_be4(n);
    assert(b.subrange(1, 5) =~= be4(n));
    assert(b.subrange(5, 5int + n) =~= payload);
}

/// The bytes of a frame.
pub fn dl_frame(channel: u8, payload: &[u8]) -> (buf: Vec<u8>)
    ensures
        buf@ == mux_bytes(channel, payload@),
{
    let mut buf: Vec<u8> = Vec::new();
    buf.push(channel);
    push_be4(&mut buf, (payload.len() as u64 % 0x1_0000_0000) as u32);
    buf.extend_from_slice(payload);
    assert(buf@ =~= mux_bytes(channel, payload@));
    buf
}

/// The frame at the start of some bytes, if all of it is there.
pub fn dl_parse(buf: &[u8]) -> (r: Option<(u8, Vec<u8>)>)
    ensures
        r is Some == mux_frame(buf@) is Some,
        r matches Some(p) ==> mux_frame(buf@) == Some((p.0, p.1@)),
{
    if buf.len() < 5 {
        return None;
    }
    let n: u32 = read_be4(buf, 1);
    let left: usize = buf.len() - 5;
    if (left as u64) < (n as u64) {
        return None;
    }
    let end: usize = 5 + n as usize;
    Some((buf[0], copy_bytes(buf, 5, end)))
}

/// The payload of a data chunk: the transfer, the offset and the data.
pub open spec fn chunk_bytes(id: u32, offset: u64, data: Seq<u8>) -> Seq<u8> {
    be4(id as nat) + be8(offset as nat) + data
}

/// What a chunk's payload says: the transfer, the offset and the data.
pub open spec fn chunk_parts(payload: Seq<u8>) -> Option<(u32, u64, Seq<u8>)> {
    if payload.len() < 12 {
        None
    } else {
        Some(
            (
                be4_value(payload.subrange(0, 4)) as u32,
                be8_value(payload.subrange(4, 12)) as u64,
                payload.skip(12),
            ),
        )
    }
}

/// A data chunk that was written is read back.
pub proof fn chunk_reads_back(id: u32, offset: u64, data: Seq<u8>)
    ensures
        chunk_parts(chunk_bytes(id, offset, data)) == Some((id, offset, data)),
{
    let p = chunk_bytes(id, offset, data);
    lemma_be4(id as nat);
    lemma_be8(offset as nat);
    assert(p.subrange(0, 4) =~= be4(id as nat));
    assert(p.subrange(4, 12) =~= be8(offset as nat));
    assert(p.skip(12) =~= data);
}

/// The payload of a data chunk.
pub fn chunk_payload(id: u32, offset: u64, data: &[u8]) -> (p: Vec<u8>)
    ensures
        p@ == chunk_bytes(id, offset, data@),
{
    let mut p: Vec<u8> = Vec::new();
    push_be4(&mut p, id);
    push_be8(&mut p, offset);
    p.extend_from_slice(data);
    assert(p@ =~= chunk_bytes(id, offset, data@));
    p
}

/// What a chunk's payload says.
pub fn parse_chunk(payload: &[u8]) -> (r: Option<(u32, u64, Vec<u8>)>)
    ensures
        r is Some == chunk_parts(payload@) is Some,
        r matches Some(p) ==> chunk_parts(payload@) == Some((p.0, p.1, p.2@)),
{
    if payload.len() < 12 {
        return None;
    }
    let id: u32 = read_be4(payload, 0);
    let offset: u64 = read_be8(payload, 4);
    let data = copy_bytes(payload, 12, payload.len());
    assert(payload@.subrange(12, payload@.len() as int) =~= payload@.skip(12));
    Some((id, offset, data))
}

} // verus!
