//! The bitrate: what share of the bandwidth is asked for.

use crate::bitrate::{
    ONE, SHARE_70, SHARE_80, SHARE_85, adjust_bandwidth, calculate_target_bitrate, share_of,
    to_53_bits, unit,
};
use vstd::prelude::*;
use vstd::string::*;

verus! {

/// Rounding to 53 bits moves a number by no more than its 2^53rd part.
proof fn lemma_rounding(p: nat)
    ensures
        (to_53_bits(p) - p) * 0x20_0000_0000_0000 <= p,
        (p - to_53_bits(p)) * 0x20_0000_0000_0000 <= p,
    decreases p,
{
    lemma_unit_bound(p);
    let u = unit(p);
    let q = p / u;
    let r = p % u;
    assert(p == q * u + r && 0 <= r < u) by (nonlinear_arith)
        requires
            q == p / u,
            r == p % u,
            u >= 1,
    {
    }
    assert((q + 1) * u == q * u + u) by (nonlinear_arith);
    let v = to_53_bits(p);
    assert(v == q * u || v == q * u + u);
    if p < ONE {
        assert(u == 1);
        assert(r == 0);
        assert(v == p);
    } else {
        assert(-u <= 2 * (v - p) <= u);
        assert((v - p) * 0x20_0000_0000_0000 <= p && (p - v) * 0x20_0000_0000_0000 <= p)
            by (nonlinear_arith)
            requires
                -u <= 2 * (v - p) <= u,
                u * 0x20_0000_0000_0000 <= 2 * p,
        {
        }
    }
}

proof fn lemma_unit_bound(p: nat)
    ensures
        unit(p) >= 1,
        p >= ONE ==> unit(p) * 0x20_0000_0000_0000 <= 2 * p,
    decreases p,
{
    if p >= ONE {
        lemma_unit_bound(p / 2);
        let u = unit(p / 2);
        if p / 2 < ONE {
            assert(u == 1);
        } else {
            assert(2 * u * 0x20_0000_0000_0000 <= 2 * p) by (nonlinear_arith)
                requires
                    u * 0x20_0000_0000_0000 <= 2 * (p / 2),
            {
            }
        }
    }
}

/// A share is the fraction of the whole that it stands for, rounded down, or one
/// less.
proof fn lemma_share(x: u32, share: u64, num: int, den: int)
    requires
        1 <= den <= 100,
        1 <= num < den,
        -20 <= den * share - num * 0x20_0000_0000_0000 <= 20,
        0 < share < ONE,
    ensures
        den * share_of(x, share) <= num * x,
        den * share_of(x, share) >= num * x - den,
        share_of(x, share) <= x,
{
    let one = 0x20_0000_0000_0000int;
    let p = (x * share) as nat;
    let v = to_53_bits(p);
    let y = (v / ONE as nat) as int;
    lemma_rounding(p);
    let d = den * share - num * one;
    assert(p <= x * one && p >= 0) by (nonlinear_arith)
        requires
            p == x * share,
            0 < share < one,
            x >= 0,
    {
    }
    assert(-(x as int) <= v - p <= x) by (nonlinear_arith)
        requires
            (v - p) * one <= p,
            (p - v) * one <= p,
            p <= x * one,
            one == 0x20_0000_0000_0000int,
    {
    }
    assert(y * one <= v < y * one + one);
    assert(den * p == num * x * one + d * x) by (nonlinear_arith)
        requires
            p == x * share,
            d == den * share - num * one,
    {
    }
    assert(-20 * x <= d * x <= 20 * x) by (nonlinear_arith)
        requires
            -20 <= d <= 20,
            x >= 0,
    {
    }
    assert(-100 * x <= den * (v - p) <= 100 * x) by (nonlinear_arith)
        requires
            -(x as int) <= v - p <= x,
            1 <= den <= 100,
            x >= 0,
    {
    }
    assert(den * v == den * p + den * (v - p)) by (nonlinear_arith);
    let w = num * x;
    assert(num * x * one == w * one) by (nonlinear_arith)
        requires
            w == num * x,
    {
    }
    assert(den * (y * one) <= den * v <= den * (y * one + one)) by (nonlinear_arith)
        requires
            y * one <= v < y * one + one,
            den >= 1,
    {
    }
    let z = den * y;
    assert(den * (y * one) == z * one && den * (y * one + one) == z * one + den * one)
        by (nonlinear_arith)
        requires
            z == den * y,
    {
    }
    assert(z * one <= w * one + 120 * x);
    assert(w * one - 120 * x <= z * one + den * one);
    assert(z <= w) by (nonlinear_arith)
        requires
            z * one <= w * one + 120 * x,
            120 * x < one,
            one == 0x20_0000_0000_0000int,
    {
    }
    assert(z >= w - den) by (nonlinear_arith)
        requires
            w * one - 120 * x <= z * one + den * one,
            120 * x < one,
            one == 0x20_0000_0000_0000int,
    {
    }
    assert(y <= x) by (nonlinear_arith)
        requires
            z == den * y,
            w == num * x,
            z <= w,
            1 <= num < den,
            x >= 0,
    {
    }
}

proof fn lemma_shares(x: u32)
    ensures
        10 * share_of(x, SHARE_80) <= 8 * x,
        10 * share_of(x, SHARE_80) >= 8 * x - 10,
        share_of(x, SHARE_80) <= x,
        10 * share_of(x, SHARE_70) <= 7 * x,
        10 * share_of(x, SHARE_70) >= 7 * x - 10,
        100 * share_of(x, SHARE_85) <= 85 * x,
        100 * share_of(x, SHARE_85) >= 85 * x - 100,
{
    lemma_share(x, SHARE_80, 8, 10);
    lemma_share(x, SHARE_70, 7, 10);
    lemma_share(x, SHARE_85, 85, 100);
}

/// The bitrate that is asked for lies between 500 and 20000 kbit/s, and within
/// these is four fifths of the bandwidth, but for rounding down; over a link
/// with a round trip of more than 100 ms it is 85 percent of that, and with one
/// of more than 150 ms 70 percent.
pub proof fn four_fifths_are_asked_for(kbps: u32, rtt_ms: u128, r: u32)
    requires
        call_ensures(calculate_target_bitrate, (kbps, rtt_ms), r),
    ensures
        500 <= r <= 20000,
        rtt_ms <= 100 && r > 500 ==> 10 * r <= 8 * kbps,
        rtt_ms <= 100 && r < 20000 ==> 10 * r >= 8 * kbps - 10,
        100 < rtt_ms <= 150 && r > 500 ==> 100 * r <= 68 * kbps,
        100 < rtt_ms <= 150 && r < 20000 ==> 100 * r >= 68 * kbps - 185,
        rtt_ms > 150 && r > 500 ==> 100 * r <= 56 * kbps,
        rtt_ms > 150 && r < 20000 ==> 100 * r >= 56 * kbps - 170,
{
    lemma_shares(kbps);
    let t = share_of(kbps, SHARE_80);
    lemma_shares(t as u32);
}

/// The bandwidth that is reckoned with lies between 500 and 20000 kbit/s, and
/// within these is the measured one; over a link with a round trip of more than
/// 50 ms it is 85 percent of that, and with one of more than 100 ms 70 percent.
pub proof fn slow_links_are_reckoned_lower(kbps: u32, rtt_ms: u128, r: u32)
    requires
        call_ensures(adjust_bandwidth, (kbps, rtt_ms), r),
    ensures
        500 <= r <= 20000,
        rtt_ms <= 50 && 500 <= kbps <= 20000 ==> r == kbps,
        rtt_ms <= 50 && r > 500 ==> r <= kbps,
        rtt_ms <= 50 && r < 20000 ==> r >= kbps,
        50 < rtt_ms <= 100 && r > 500 ==> 100 * r <= 85 * kbps,
        50 < rtt_ms <= 100 && r < 20000 ==> 100 * r >= 85 * kbps - 100,
        rtt_ms > 100 && r > 500 ==> 10 * r <= 7 * kbps,
        rtt_ms > 100 && r < 20000 ==> 10 * r >= 7 * kbps - 10,
{
    lemma_shares(kbps);
}

} // verus!
