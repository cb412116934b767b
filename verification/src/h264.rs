//! H.264 decoding through the `openh264` crate.

use openh264::decoder::Decoder;
use openh264::formats::YUVSource;
use openh264::OpenH264API;
use crate::bytes::copy_bytes;
use vstd::prelude::*;

verus! {

/// The decoder of the `openh264` crate, carried as an opaque value.
#[verifier::external_type_specification]
#[verifier::external_body]
pub struct ExDecoder(Decoder);

/// The error of the `openh264` crate, carried as an opaque value.
#[verifier::external_type_specification]
#[verifier::external_body]
pub struct ExDecoderError(openh264::Error);

/// A decoded picture: its size in pixels, the bytes from one row to the next,
/// and the brightness of its rows with what stands between them.
pub struct Picture {
    pub width: i32,
    pub height: i32,
    pub stride: i32,
    pub luma: Vec<u8>,
}

/// A picture by its size, its bytes from row to row and its brightness.
pub open spec fn picture_opt(p: Option<Picture>) -> Option<(i32, i32, i32, Seq<u8>)> {
    match p {
        Some(p) => Some((p.width, p.height, p.stride, p.luma@)),
        None => None,
    }
}

/// The units that a decoder has taken so far, in their order.
pub uninterp spec fn units_taken(d: Decoder) -> Seq<Seq<u8>>;

/// What the last of some units gives in a decoder that has taken those before it:
/// the picture that it completes, if it completes one, or nothing at all where it
/// is damaged.
pub uninterp spec fn h264_outcome(units: Seq<Seq<u8>>) -> Option<
    Option<(i32, i32, i32, Seq<u8>)>,
>;

/// The last of some units is damaged for a decoder that has taken those before it.
pub open spec fn h264_damaged(units: Seq<Seq<u8>>) -> bool {
    h264_outcome(units) is None
}

/// `openh264::decoder::Decoder::new` with the decoder that is built in: it has
/// taken nothing yet. When one cannot be made is left unsaid: that rests with the
/// machine.
#[verifier::external_body]
pub(crate) fn h264_new() -> (r: Result<Decoder, openh264::Error>)
    ensures
        r matches Ok(d) ==> units_taken(d) == Seq::<Seq<u8>>::empty(),
{
    Decoder::new(OpenH264API::from_source())
}

/// `openh264::decoder::Decoder::decode`: hands a unit to the decoder. It refuses
/// the units that are damaged, and no others. What it does not refuse it takes, and
/// gives the picture that the unit completes, if it completes one. The length is
/// handed on as a 32-bit number. What the decoder keeps of a unit that it refused
/// is left unsaid.
#[verifier::external_body]
pub(crate) fn h264_decode(d: &mut Decoder, unit: &[u8]) -> (r: Result<
    Option<Picture>,
    openh264::Error,
>)
    requires
        unit@.len() <= 0x7FFF_FFFF,
    ensures
        h264_damaged(units_taken(*old(d)).push(unit@)) == (r is Err),
        r is Ok ==> units_taken(*final(d)) == units_taken(*old(d)).push(unit@),
        r matches Ok(p) ==> h264_outcome(units_taken(*old(d)).push(unit@)) == Some(picture_opt(p)),
{
    match d.decode(unit) {
        Ok(Some(f)) => Ok(
            Some(
                Picture {
                    width: f.width(),
                    height: f.height(),
                    stride: f.y_stride(),
                    luma: f.y().to_vec(),
                },
            ),
        ),
        Ok(None) => Ok(None),
        Err(e) => Err(e),
    }
}

// ---------------------------------------------------------------- rows

/// The rows of a picture without what stands between them.
pub open spec fn rows_of(luma: Seq<u8>, width: int, stride: int, n: nat) -> Seq<u8>
    decreases n,
{
    if n == 0 {
        Seq::empty()
    } else {
        rows_of(luma, width, stride, (n - 1) as nat) + luma.subrange(
            (n - 1) * stride,
            (n - 1) * stride + width,
        )
    }
}

impl Picture {
    /// The rows fit into what was decoded.
    pub open spec fn is_whole(self) -> bool {
        0 <= self.width <= self.stride && 0 <= self.height && self.height * self.stride
            <= self.luma@.len()
    }

    /// The brightness of the pixels, row by row.
    pub fn rows(&self) -> (r: Option<Vec<u8>>)
        ensures
            r is Some == self.is_whole(),
            r matches Some(v) ==> v@ == rows_of(
                self.luma@,
                self.width as int,
                self.stride as int,
                self.height as nat,
            ),
    {
        if self.width < 0 || self.width > self.stride || self.height < 0 {
            return None;
        }
        let (w, h, s) = (self.width as usize, self.height as usize, self.stride as usize);
        proof {
            assert(h * s <= 0x8000_0000 * 0x8000_0000) by (nonlinear_arith)
                requires
                    h <= 0x8000_0000,
                    s <= 0x8000_0000,
            ;
        }
        let n: usize = self.luma.len();
        if h as u64 * s as u64 > n as u64 {
            return None;
        }
        let mut v: Vec<u8> = Vec::new();
        let mut from: usize = 0;
        let mut y: usize = 0;
        while y < h
            invariant
                y <= h,
                w <= s,
                from == y * s,
                h * s <= n,
                n == self.luma@.len(),
                v@ == rows_of(self.luma@, w as int, s as int, y as nat),
            decreases h - y,
        {
            proof {
                assert(y * s + s == (y + 1) * s) by (nonlinear_arith);
                assert((y + 1) * s <= h * s) by (nonlinear_arith)
                    requires
                        y + 1 <= h,
                ;
            }
            let mut row = copy_bytes(self.luma.as_slice(), from, from + w);
            let ghost before = v@;
            v.append(&mut row);
            assert(v@ =~= before + self.luma@.subrange(y * s, y * s + w));
            from += s;
            y += 1;
        }
        Some(v)
    }
}

/// A pixel of the rows is the pixel of the picture.
pub proof fn rows_keep_pixels(luma: Seq<u8>, width: int, stride: int, n: nat, x: int, y: int)
    requires
        0 <= x < width <= stride,
        0 <= y < n,
        n * stride <= luma.len(),
    ensures
        rows_of(luma, width, stride, n).len() == n * width,
        0 <= y * width + x < n * width,
        rows_of(luma, width, stride, n)[y * width + x] == luma[y * stride + x],
    decreases n,
{
    let m = (n - 1) as nat;
    assert(m * stride + stride == n * stride) by (nonlinear_arith)
        requires
            n == m + 1,
    ;
    assert(m * width + width == n * width) by (nonlinear_arith)
        requires
            n == m + 1,
    ;
    assert(0 <= m * stride) by (nonlinear_arith)
        requires
            0 <= stride,
    ;
    lemma_rows_len(luma, width, stride, m);
    if y < m {
        rows_keep_pixels(luma, width, stride, m, x, y);
    } else {
        assert(y * width + x - m * width == x);
        assert(0 <= m * width) by (nonlinear_arith)
            requires
                0 <= width,
        ;
    }
}

proof fn lemma_rows_len(luma: Seq<u8>, width: int, stride: int, n: nat)
    requires
        0 <= width <= stride,
        n * stride <= luma.len(),
    ensures
        rows_of(luma, width, stride, n).len() == n * width,
    decreases n,
{
    if n == 0 {
        assert(n * width == 0) by (nonlinear_arith)
            requires
                n == 0,
        ;
    } else {
        let m = (n - 1) as nat;
        assert(m * stride + stride == n * stride) by (nonlinear_arith)
            requires
                n == m + 1,
        ;
        assert(m * width + width == n * width) by (nonlinear_arith)
            requires
                n == m + 1,
        ;
        assert(0 <= m * stride) by (nonlinear_arith)
            requires
                0 <= stride,
        ;
        lemma_rows_len(luma, width, stride, m);
    }
}

} // verus!
