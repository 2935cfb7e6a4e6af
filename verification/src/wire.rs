//! Little-endian field encoding and bit packing.
//!
//! Every multi-byte integer on the SLMP wire is little-endian.  The spec
//! functions here are written with `%` and `/` so that concrete values
//! evaluate directly in proofs and tests.

use vstd::prelude::*;

verus! {

/// Little-endian bytes of a 16-bit value.
pub open spec fn spec_u16_le(x: u16) -> Seq<u8> {
    seq![(x % 256) as u8, (x / 256) as u8]
}

/// 16-bit value read from two little-endian bytes.
pub open spec fn spec_u16_of_le(b0: u8, b1: u8) -> u16 {
    (b0 + 256 * (b1 as u16)) as u16
}

/// Little-endian bytes of a 32-bit value.
pub open spec fn spec_u32_le(x: u32) -> Seq<u8> {
    seq![
        (x % 256) as u8,
        ((x / 256) % 256) as u8,
        ((x / 0x10000) % 256) as u8,
        (x / 0x1000000) as u8,
    ]
}

/// 32-bit value read from four little-endian bytes.
pub open spec fn spec_u32_of_le(b0: u8, b1: u8, b2: u8, b3: u8) -> u32 {
    (b0 + 256 * (b1 as u32) + 0x10000 * (b2 as u32) + 0x1000000 * (b3 as u32)) as u32
}

/// Little-endian bytes of a 64-bit value.
pub open spec fn spec_u64_le(x: u64) -> Seq<u8> {
    seq![
        (x % 256) as u8,
        ((x / 256) % 256) as u8,
        ((x / 0x10000) % 256) as u8,
        ((x / 0x1000000) % 256) as u8,
        ((x / 0x100000000) % 256) as u8,
        ((x / 0x10000000000) % 256) as u8,
        ((x / 0x1000000000000) % 256) as u8,
        (x / 0x100000000000000) as u8,
    ]
}

/// 64-bit value read from eight little-endian bytes.
pub open spec fn spec_u64_of_le(s: Seq<u8>) -> u64
    recommends
        s.len() == 8,
{
    (s[0] + 256 * (s[1] as u64) + 0x10000 * (s[2] as u64) + 0x1000000 * (s[3] as u64)
        + 0x100000000 * (s[4] as u64) + 0x10000000000 * (s[5] as u64)
        + 0x1000000000000 * (s[6] as u64) + 0x100000000000000 * (s[7] as u64)) as u64
}

/// Reading back the two little-endian bytes of `x` yields `x`.
pub proof fn lemma_u16_le_round_trip(x: u16)
    ensures
        spec_u16_of_le(spec_u16_le(x)[0], spec_u16_le(x)[1]) == x,
{
    assert((((x % 256) as u8) + 256 * (((x / 256) as u8) as u16)) as u16 == x) by (bit_vector);
}

/// Writing back a 16-bit value read from two bytes yields the same bytes.
pub proof fn lemma_u16_of_le_round_trip(b0: u8, b1: u8)
    ensures
        spec_u16_le(spec_u16_of_le(b0, b1)) =~= seq![b0, b1],
{
    let x = spec_u16_of_le(b0, b1);
    assert((((b0 + 256 * (b1 as u16)) as u16) % 256) as u8 == b0) by (bit_vector);
    assert((((b0 + 256 * (b1 as u16)) as u16) / 256) as u8 == b1) by (bit_vector);
}

/// Reading back the four little-endian bytes of `x` yields `x`.
pub proof fn lemma_u32_le_round_trip(x: u32)
    ensures
        spec_u32_of_le(
            spec_u32_le(x)[0],
            spec_u32_le(x)[1],
            spec_u32_le(x)[2],
            spec_u32_le(x)[3],
        ) == x,
{
    assert((((x % 256) as u8) + 256 * ((((x / 256) % 256) as u8) as u32) + 0x10000 * ((((
    x / 0x10000) % 256) as u8) as u32) + 0x1000000 * (((x / 0x1000000) as u8) as u32)) as u32
        == x) by (bit_vector);
}

/// Reading back the eight little-endian bytes of `x` yields `x`.
pub proof fn lemma_u64_le_round_trip(x: u64)
    ensures
        spec_u64_of_le(spec_u64_le(x)) == x,
{
    let s = spec_u64_le(x);
    assert((((x % 256) as u8) + 256 * ((((x / 256) % 256) as u8) as u64) + 0x10000 * ((((
    x / 0x10000) % 256) as u8) as u64) + 0x1000000 * ((((x / 0x1000000) % 256) as u8) as u64)
        + 0x100000000 * ((((x / 0x100000000) % 256) as u8) as u64) + 0x10000000000 * ((((
    x / 0x10000000000) % 256) as u8) as u64) + 0x1000000000000 * ((((x / 0x1000000000000)
        % 256) as u8) as u64) + 0x100000000000000 * (((x / 0x100000000000000) as u8) as u64))
        as u64 == x) by (bit_vector);
}

/// Append one byte.
pub fn push_byte(out: &mut Vec<u8>, b: u8)
    ensures
        final(out)@ =~= old(out)@.push(b),
{
    out.push(b);
}

/// Append a 16-bit value, little-endian.
pub fn push_u16_le(out: &mut Vec<u8>, x: u16)
    ensures
        final(out)@ =~= old(out)@ + spec_u16_le(x),
{
    out.push((x % 256) as u8);
    out.push((x / 256) as u8);
}

/// Append a 32-bit value, little-endian.
pub fn push_u32_le(out: &mut Vec<u8>, x: u32)
    ensures
        final(out)@ =~= old(out)@ + spec_u32_le(x),
{
    out.push((x % 256) as u8);
    out.push(((x / 256) % 256) as u8);
    out.push(((x / 0x10000) % 256) as u8);
    out.push((x / 0x1000000) as u8);
}

/// Append a 64-bit value, little-endian.
pub fn push_u64_le(out: &mut Vec<u8>, x: u64)
    ensures
        final(out)@ =~= old(out)@ + spec_u64_le(x),
{
    out.push((x % 256) as u8);
    out.push(((x / 256) % 256) as u8);
    out.push(((x / 0x10000) % 256) as u8);
    out.push(((x / 0x1000000) % 256) as u8);
    out.push(((x / 0x100000000) % 256) as u8);
    out.push(((x / 0x10000000000) % 256) as u8);
    out.push(((x / 0x1000000000000) % 256) as u8);
    out.push((x / 0x100000000000000) as u8);
}

/// Read a 16-bit value from two consecutive bytes of a slice.
pub fn read_u16_le(data: &[u8], at: usize) -> (r: u16)
    requires
        at + 2 <= data@.len(),
    ensures
        r == spec_u16_of_le(data@[at as int], data@[at as int + 1]),
{
    let b0: u8 = data[at];
    let b1: u8 = data[at + 1];
    b0 as u16 + 256 * (b1 as u16)
}

/// Read a 32-bit value from four consecutive bytes of a slice.
pub fn read_u32_le(data: &[u8], at: usize) -> (r: u32)
    requires
        at + 4 <= data@.len(),
    ensures
        r == spec_u32_of_le(
            data@[at as int],
            data@[at as int + 1],
            data@[at as int + 2],
            data@[at as int + 3],
        ),
{
    let b0: u8 = data[at];
    let b1: u8 = data[at + 1];
    let b2: u8 = data[at + 2];
    let b3: u8 = data[at + 3];
    b0 as u32 + 256 * (b1 as u32) + 0x10000 * (b2 as u32) + 0x1000000 * (b3 as u32)
}

/// Rounded-up integer division.
pub open spec fn spec_div_ceil(a: nat, b: nat) -> nat
    recommends
        b > 0,
{
    (a + b - 1) as nat / b
}

/// Rounded-up integer division, as used for bit-block sizes.
pub fn div_ceil(a: usize, b: usize) -> (r: usize)
    requires
        b > 0,
        a + b <= usize::MAX,
    ensures
        r == spec_div_ceil(a as nat, b as nat),
{
    (a + b - 1) / b
}

/// The eight bits of a byte, least significant first.
pub open spec fn spec_u8_to_bits(n: u8) -> Seq<bool> {
    seq![
        n % 2 == 1,
        (n / 2) % 2 == 1,
        (n / 4) % 2 == 1,
        (n / 8) % 2 == 1,
        (n / 16) % 2 == 1,
        (n / 32) % 2 == 1,
        (n / 64) % 2 == 1,
        n / 128 == 1,
    ]
}

/// The eight bits of a byte, least significant first.
pub fn u8_to_bits(n: u8) -> (r: [bool; 8])
    ensures
        r@ =~= spec_u8_to_bits(n),
{
    [
        n % 2 == 1,
        (n / 2) % 2 == 1,
        (n / 4) % 2 == 1,
        (n / 8) % 2 == 1,
        (n / 16) % 2 == 1,
        (n / 32) % 2 == 1,
        (n / 64) % 2 == 1,
        n / 128 == 1,
    ]
}

/// A byte assembled from eight bits, least significant first.
pub open spec fn spec_bits_to_u8(bits: Seq<bool>) -> u8
    recommends
        bits.len() == 8,
{
    ((if bits[0] { 1int } else { 0int }) + (if bits[1] { 2int } else { 0int }) + (if bits[2] {
        4int
    } else {
        0int
    }) + (if bits[3] { 8int } else { 0int }) + (if bits[4] { 16int } else { 0int }) + (if bits[5] {
        32int
    } else {
        0int
    }) + (if bits[6] { 64int } else { 0int }) + (if bits[7] { 128int } else { 0int })) as u8
}

/// A byte assembled from eight bits, least significant first.
pub fn bits_to_u8(bits: &[bool; 8]) -> (r: u8)
    ensures
        r == spec_bits_to_u8(bits@),
{
    (if bits[0] { 1u8 } else { 0u8 }) + (if bits[1] { 2 } else { 0 }) + (if bits[2] {
        4
    } else {
        0
    }) + (if bits[3] { 8 } else { 0 }) + (if bits[4] { 16 } else { 0 }) + (if bits[5] {
        32
    } else {
        0
    }) + (if bits[6] { 64 } else { 0 }) + (if bits[7] { 128 } else { 0 })
}

} // verus!
