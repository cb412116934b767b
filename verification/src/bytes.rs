//! Parts of byte strings.

use vstd::prelude::*;
use vstd::slice::*;

verus! {

/// A copy of the bytes from `from` to before `to`.
pub fn copy_bytes(v: &[u8], from: usize, to: usize) -> (r: Vec<u8>)
    requires
        from <= to <= v@.len(),
    ensures
        r@ == v@.subrange(from as int, to as int),
{
    let mut r: Vec<u8> = Vec::new();
    r.extend_from_slice(slice_subrange(v, from, to));
    assert(r@ =~= v@.subrange(from as int, to as int));
    r
}

/// A number below 2^32 in four bytes, highest first.
#[verifier::opaque]
pub open spec fn be4(n: nat) -> Seq<u8> {
    seq![
        (n / 0x100_0000 % 256) as u8,
        (n / 0x1_0000 % 256) as u8,
        (n / 0x100 % 256) as u8,
        (n % 256) as u8,
    ]
}

/// The number in four bytes, highest first.
#[verifier::opaque]
pub open spec fn be4_value(b: Seq<u8>) -> nat {
    (b[0] * 0x100_0000 + b[1] * 0x1_0000 + b[2] * 0x100 + b[3]) as nat
}

/// A number below 2^64 in eight bytes, highest first.
pub open spec fn be8(n: nat) -> Seq<u8> {
    be4(n / 0x1_0000_0000) + be4(n % 0x1_0000_0000)
}

/// The number in eight bytes, highest first.
pub open spec fn be8_value(b: Seq<u8>) -> nat {
    be4_value(b.take(4)) * 0x1_0000_0000 + be4_value(b.skip(4))
}

/// Four bytes read back as the number that they were written for.
pub proof fn lemma_be4(n: nat)
    requires
        n < 0x1_0000_0000,
    ensures
        be4_value(be4(n)) == n,
        be4(n).len() == 4,
{
    reveal(be4);
    reveal(be4_value);
    let a = n / 0x100_0000;
    let r = n % 0x100_0000;
    assert(n / 0x1_0000 % 256 == r / 0x1_0000) by (nonlinear_arith)
        requires
            n < 0x1_0000_0000,
            r == n % 0x100_0000,
    {
    }
    assert(n / 0x100 % 256 == r % 0x1_0000 / 0x100) by (nonlinear_arith)
        requires
            n < 0x1_0000_0000,
            r == n % 0x100_0000,
    {
    }
}

/// Eight bytes read back as the number that they were written for.
pub proof fn lemma_be8(n: nat)
    requires
        n < 0x1_0000_0000_0000_0000,
    ensures
        be8_value(be8(n)) == n,
        be8(n).len() == 8,
{
    let h = n / 0x1_0000_0000;
    let l = n % 0x1_0000_0000;
    lemma_be4(h);
    lemma_be4(l);
    assert(be8(n).take(4) =~= be4(h));
    assert(be8(n).skip(4) =~= be4(l));
}

/// Appends a number in four bytes, highest first.
pub fn push_be4(v: &mut Vec<u8>, n: u32)
    ensures
        final(v)@ == old(v)@ + be4(n as nat),
{
    reveal(be4);
    v.push((n / 0x100_0000 % 256) as u8);
    v.push((n / 0x1_0000 % 256) as u8);
    v.push((n / 0x100 % 256) as u8);
    v.push((n % 256) as u8);
    assert(v@ =~= old(v)@ + be4(n as nat));
}

/// Appends a number in eight bytes, highest first.
pub fn push_be8(v: &mut Vec<u8>, n: u64)
    ensures
        final(v)@ == old(v)@ + be8(n as nat),
{
    push_be4(v, (n / 0x1_0000_0000) as u32);
    push_be4(v, (n % 0x1_0000_0000) as u32);
    assert(v@ =~= old(v)@ + be8(n as nat));
}

/// The number in the four bytes from `i` on, highest first.
pub fn read_be4(v: &[u8], i: usize) -> (n: u32)
    requires
        i + 4 <= v@.len(),
    ensures
        n == be4_value(v@.subrange(i as int, i + 4)),
{
    reveal(be4_value);
    let ghost b = v@.subrange(i as int, i + 4);
    assert(b[0] == v@[i as int] && b[1] == v@[i + 1] && b[2] == v@[i + 2] && b[3] == v@[i + 3]);
    v[i] as u32 * 0x100_0000 + v[i + 1] as u32 * 0x1_0000 + v[i + 2] as u32 * 0x100 + v[i + 3] as u32
}

/// The number in the eight bytes from `i` on, highest first.
pub fn read_be8(v: &[u8], i: usize) -> (n: u64)
    requires
        i + 8 <= v@.len(),
    ensures
        n == be8_value(v@.subrange(i as int, i + 8)),
{
    let ghost b = v@.subrange(i as int, i + 8);
    assert(b.take(4) =~= v@.subrange(i as int, i + 4));
    assert(b.skip(4) =~= v@.subrange(i + 4, i + 8));
    let n: usize = v.len();
    read_be4(v, i) as u64 * 0x1_0000_0000 + read_be4(v, i + 4) as u64
}

} // verus!
