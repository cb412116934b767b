//! The bitrate that is asked for, from the bandwidth and the round trip.
//!
//! Shares of a bitrate are taken as double-precision arithmetic takes them: the
//! product with a 53-bit fraction is rounded to 53 significant bits, to the
//! even one of two that are equally near, and then cut down to a whole number.

use vstd::arithmetic::div_mod::*;
use vstd::prelude::*;

verus! {

pub const MIN_BITRATE_KBPS: u32 = 500;

pub const MAX_BITRATE_KBPS: u32 = 20000;

pub const TARGET_LATENCY_MS: u32 = 100;

/// 2^53: fractions count its parts, and it bounds 53-bit numbers.
pub const ONE: u64 = 0x20_0000_0000_0000;

/// The fraction nearest to 0.8.
pub const SHARE_80: u64 = 7205759403792794;

/// The fraction nearest to 0.7.
pub const SHARE_70: u64 = 6305039478318694;

/// The fraction nearest to 0.85.
pub const SHARE_85: u64 = 7656119366529843;

/// The smallest power of two that cuts `p` down to 53 bits.
pub open spec fn unit(p: nat) -> nat
    decreases p,
{
    if p < ONE { 1 } else { 2 * unit(p / 2) }
}

/// `p` with 53 significant bits: the nearest, the even one of two equally near.
pub open spec fn to_53_bits(p: nat) -> nat {
    let u = unit(p);
    let q = p / u;
    let r = p % u;
    if 2 * r > u || (2 * r == u && q % 2 == 1) { (q + 1) * u } else { q * u }
}

/// A share of a bitrate, as a whole number.
pub open spec fn share_of(x: u32, share: u64) -> nat {
    let y = to_53_bits((x * share) as nat) / ONE as nat;
    if y <= u32::MAX { y } else { u32::MAX as nat }
}

pub open spec fn clamped(x: nat) -> nat {
    if x < MIN_BITRATE_KBPS {
        MIN_BITRATE_KBPS as nat
    } else if x > MAX_BITRATE_KBPS {
        MAX_BITRATE_KBPS as nat
    } else {
        x
    }
}

proof fn lemma_unit(p: nat)
    ensures
        unit(p) >= 1,
        p / unit(p) < ONE,
        unit(p) <= p + 1,
        p >= ONE ==> unit(p) * ONE <= 2 * p,
    decreases p,
{
    if p >= ONE {
        lemma_unit(p / 2);
        let u = unit(p / 2);
        lemma_div_denominator(p as int, 2, u as int);
        if p / 2 < ONE {
            assert(u == 1);
        } else {
            assert(2 * u * ONE <= 2 * p) by (nonlinear_arith)
                requires
                    u * ONE <= 2 * (p / 2),
            {
            }
        }
    } else {
        assert(p / 1 == p) by {
            lemma_div_by_one(p as int);
        }
    }
}

proof fn lemma_div_by_one(p: int)
    ensures
        p / 1 == p,
{
}

fn take_share(x: u32, share: u64) -> (y: u32)
    requires
        share < ONE,
    ensures
        y == share_of(x, share),
{
    assert(x * share < 0x1_0000_0000 * 0x20_0000_0000_0000) by (nonlinear_arith)
        requires
            x < 0x1_0000_0000,
            share < 0x20_0000_0000_0000,
    {
    }
    let p: u128 = x as u128 * share as u128;
    let one: u128 = 0x20_0000_0000_0000;
    let mut q: u128 = p;
    let mut u: u128 = 1;
    while q >= one
        invariant
            one == ONE,
            p < 0x1_0000_0000 * 0x20_0000_0000_0000,
            u >= 1,
            q == p / u,
            u * q <= p,
            unit(p as nat) == u * unit(q as nat),
        decreases q,
    {
        proof {
            lemma_div_denominator(p as int, u as int, 2);
            assert(u * 0x20_0000_0000_0000 <= u * q) by (nonlinear_arith)
                requires
                    q >= 0x20_0000_0000_0000,
                    u >= 1,
            {
            }
            assert(u < 0x1_0000_0000);
            assert((u * 2) * (q / 2) <= u * q) by (nonlinear_arith)
                requires
                    u >= 1,
                    q >= 0,
            {
            }
            assert(u * (2 * unit((q / 2) as nat)) == (u * 2) * unit((q / 2) as nat))
                by (nonlinear_arith);
        }
        q = q / 2;
        u = u * 2;
    }
    assert(unit(q as nat) == 1);
    assert(u * unit(q as nat) == u) by (nonlinear_arith)
        requires
            unit(q as nat) == 1,
    {
    }
    assert(unit(p as nat) == u);
    let r: u128 = p % u;
    proof {
        lemma_unit(p as nat);
        assert(u <= 0x2_0000_0000) by (nonlinear_arith)
            requires
                p >= ONE ==> u * ONE <= 2 * p,
                u <= p + 1,
                p < ONE ==> u == 1,
                p < 0x1_0000_0000 * 0x20_0000_0000_0000,
                ONE == 0x20_0000_0000_0000,
        {
        }
        assert((q + 1) * u <= 0x20_0000_0000_0000 * 0x2_0000_0000) by (nonlinear_arith)
            requires
                q + 1 <= 0x20_0000_0000_0000,
                u <= 0x2_0000_0000,
        {
        }
        assert(q * u <= (q + 1) * u) by (nonlinear_arith);
    }
    let v: u128 = if 2 * r > u || (2 * r == u && q % 2 == 1) { (q + 1) * u } else { q * u };
    let y: u128 = v / one;
    if y <= u32::MAX as u128 { y as u32 } else { u32::MAX }
}

/// A measured bandwidth, in kbit/s, taken with care on a slow link and within
/// the limits.
pub open spec fn cautious(kbps: u32, rtt_ms: u128) -> nat {
    clamped(
        if rtt_ms > 100 {
            share_of(kbps, SHARE_70)
        } else if rtt_ms > 50 {
            share_of(kbps, SHARE_85)
        } else {
            kbps as nat
        },
    )
}

fn clamp(t: u32) -> (r: u32)
    ensures
        r == clamped(t as nat),
{
    if t < MIN_BITRATE_KBPS {
        MIN_BITRATE_KBPS
    } else if t > MAX_BITRATE_KBPS {
        MAX_BITRATE_KBPS
    } else {
        t
    }
}

/// The bandwidth to reckon with, in kbit/s, from the one that was measured.
pub fn adjust_bandwidth(kbps: u32, rtt_ms: u128) -> (r: u32)
    ensures
        r == cautious(kbps, rtt_ms),
        MIN_BITRATE_KBPS <= r <= MAX_BITRATE_KBPS,
{
    if rtt_ms > 100 {
        clamp(take_share(kbps, SHARE_70))
    } else if rtt_ms > 50 {
        clamp(take_share(kbps, SHARE_85))
    } else {
        clamp(kbps)
    }
}

/// The bitrate to ask for, in kbit/s: four fifths of the bandwidth, less on a
/// slow link, within the limits.
pub open spec fn target(estimated_kbps: u32, rtt_ms: u128) -> nat {
    let t = share_of(estimated_kbps, SHARE_80);
    clamped(
        if rtt_ms > 150 {
            share_of(t as u32, SHARE_70)
        } else if rtt_ms > 100 {
            share_of(t as u32, SHARE_85)
        } else {
            t
        },
    )
}

/// The bitrate to ask for, in kbit/s.
pub fn calculate_target_bitrate(estimated_kbps: u32, rtt_ms: u128) -> (r: u32)
    ensures
        r == target(estimated_kbps, rtt_ms),
        MIN_BITRATE_KBPS <= r <= MAX_BITRATE_KBPS,
{
    let mut t: u32 = take_share(estimated_kbps, SHARE_80);
    if rtt_ms > 150 {
        t = take_share(t, SHARE_70);
    } else if rtt_ms > 100 {
        t = take_share(t, SHARE_85);
    }
    clamp(t)
}

} // verus!
