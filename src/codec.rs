//! Little-endian field encoders and the matching spec-level decoders.
use vstd::prelude::*;

verus! {

/// The three bytes of `x`, least significant first.
pub open spec fn u24_le(x: nat) -> Seq<u8> {
    seq![(x % 256) as u8, ((x / 256) % 256) as u8, ((x / 65536) % 256) as u8]
}

/// The four bytes of `x`, least significant first.
pub open spec fn u32_le(x: nat) -> Seq<u8> {
    u24_le(x % 0x1000000) + seq![((x / 0x1000000) % 256) as u8]
}

/// The two bytes of `x`, least significant first.
pub open spec fn u16_le(x: nat) -> Seq<u8> {
    seq![(x % 256) as u8, ((x / 256) % 256) as u8]
}

/// The number that three little-endian bytes stand for.
pub open spec fn u24_value(b: Seq<u8>) -> nat {
    (b[0] + 256 * b[1] + 65536 * b[2]) as nat
}

/// The number that four little-endian bytes stand for.
pub open spec fn u32_value(b: Seq<u8>) -> nat {
    (u24_value(b) + 0x1000000 * b[3]) as nat
}

/// Reading back a 24-bit field gives the number that was encoded.
pub proof fn lemma_u24_round_trip(x: nat)
    requires
        x < 0x1000000,
    ensures
        u24_le(x).len() == 3,
        u24_value(u24_le(x)) == x,
{
    let b = u24_le(x);
    assert(b[0] as nat == x % 256);
    assert(b[1] as nat == (x / 256) % 256);
    assert(b[2] as nat == (x / 65536) % 256);
    let y = x as u32;
    assert((y % 256) + 256 * ((y / 256) % 256) + 65536 * ((y / 65536) % 256) == y) by (bit_vector)
        requires
            y < 0x1000000u32,
    ;
}

/// Reading back a 32-bit field gives the number that was encoded.
pub proof fn lemma_u32_round_trip(x: nat)
    requires
        x < 0x1_0000_0000,
    ensures
        u32_le(x).len() == 4,
        u32_value(u32_le(x)) == x,
{
    lemma_u24_round_trip(x % 0x1000000);
    let b = u32_le(x);
    assert(b.subrange(0, 3) =~= u24_le(x % 0x1000000));
    assert(b[3] as nat == (x / 0x1000000) % 256);
    assert(u24_value(b) == u24_value(b.subrange(0, 3)));
    let y = x as u64;
    assert((y % 0x1000000) + 0x1000000 * ((y / 0x1000000) % 256) == y) by (bit_vector)
        requires
            y < 0x1_0000_0000u64,
    ;
}

/// Encodes `x` as a 24-bit little-endian field.
pub fn u24_bytes(x: u32) -> (r: [u8; 3])
    requires
        x < 0x1000000,
    ensures
        r@ == u24_le(x as nat),
{
    let r = [(x % 256) as u8, ((x / 256) % 256) as u8, ((x / 65536) % 256) as u8];
    assert(r@ =~= u24_le(x as nat));
    r
}

/// Encodes `x` as a 32-bit little-endian field.
pub fn u32_bytes(x: u32) -> (r: [u8; 4])
    ensures
        r@ == u32_le(x as nat),
{
    let r = [
        (x % 256) as u8,
        ((x / 256) % 256) as u8,
        ((x / 65536) % 256) as u8,
        ((x / 0x1000000) % 256) as u8,
    ];
    assert((x % 0x1000000) % 256 == x % 256 && ((x % 0x1000000) / 256) % 256 == (x / 256) % 256
        && ((x % 0x1000000) / 65536) % 256 == (x / 65536) % 256) by (bit_vector);
    assert(r@ =~= u32_le(x as nat));
    r
}

/// Encodes `x` as a 16-bit little-endian field.
pub fn u16_bytes(x: u16) -> (r: [u8; 2])
    ensures
        r@ == u16_le(x as nat),
{
    let r = [(x % 256) as u8, ((x / 256) % 256) as u8];
    assert(r@ =~= u16_le(x as nat));
    r
}

/// Appends every byte of `src` to `out`, in order.
pub fn append_bytes(out: &mut Vec<u8>, src: &[u8])
    ensures
        final(out)@ == old(out)@ + src@,
{
    let mut i: usize = 0;
    while i < src.len()
        invariant
            i <= src@.len(),
            out@ == old(out)@ + src@.subrange(0, i as int),
        decreases src@.len() - i,
    {
        out.push(src[i]);
        i = i + 1;
        assert(src@.subrange(0, i as int) =~= src@.subrange(0, i - 1 as int).push(src@[i - 1]));
    }
    assert(src@.subrange(0, src@.len() as int) =~= src@);
}

} // verus!
