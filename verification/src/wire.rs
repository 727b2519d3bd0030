//! Numbers in network byte order.
use vstd::prelude::*;

verus! {

/// The low sixteen bits of a number, high byte first.
pub open spec fn be16(n: nat) -> Seq<u8> {
    seq![(n / 256 % 256) as u8, (n % 256) as u8]
}

/// Only the low sixteen bits count.
pub proof fn lemma_be16_low(k: nat, m: nat)
    ensures
        be16(0x1_0000 * k + m) == be16(m),
{
    let n = 0x1_0000 * k + m;
    assert(n / 256 == 256 * k + m / 256);
    assert((256 * k + m / 256) % 256 == (m / 256) % 256);
    assert(n % 256 == m % 256);
}

/// The low twenty-four bits of a number, high byte first.
pub open spec fn be24(n: nat) -> Seq<u8> {
    seq![(n / 0x1_0000 % 256) as u8, (n / 256 % 256) as u8, (n % 256) as u8]
}

/// The number in two bytes.
pub open spec fn u16_at(b: Seq<u8>, i: int) -> nat {
    (b[i] * 256 + b[i + 1]) as nat
}

/// The number in four bytes.
pub open spec fn u32_at(b: Seq<u8>, i: int) -> nat {
    (b[i] * 0x100_0000 + b[i + 1] * 0x1_0000 + b[i + 2] * 256 + b[i + 3]) as nat
}

pub fn push_be16(v: &mut Vec<u8>, n: u64)
    ensures
        final(v)@ == old(v)@ + be16(n as nat),
{
    let ghost before = v@;
    v.push((n / 256 % 256) as u8);
    v.push((n % 256) as u8);
    assert(v@ =~= before + be16(n as nat));
}

pub fn push_be24(v: &mut Vec<u8>, n: u64)
    ensures
        final(v)@ == old(v)@ + be24(n as nat),
{
    let ghost before = v@;
    v.push((n / 0x1_0000 % 256) as u8);
    v.push((n / 256 % 256) as u8);
    v.push((n % 256) as u8);
    assert(v@ =~= before + be24(n as nat));
}

pub fn push_bytes(v: &mut Vec<u8>, b: &[u8])
    ensures
        final(v)@ == old(v)@ + b@,
{
    let ghost before = v@;
    v.extend_from_slice(b);
    assert(v@ =~= before + b@);
}

pub fn read_u16(b: &[u8], i: usize) -> (r: u16)
    requires
        i + 1 < b@.len(),
    ensures
        r == u16_at(b@, i as int),
{
    b[i] as u16 * 256 + b[i + 1] as u16
}

pub fn read_u32(b: &[u8], i: usize) -> (r: u32)
    requires
        i + 3 < b@.len(),
    ensures
        r == u32_at(b@, i as int),
{
    b[i] as u32 * 0x100_0000 + b[i + 1] as u32 * 0x1_0000 + b[i + 2] as u32 * 256 + b[i + 3] as u32
}

} // verus!
