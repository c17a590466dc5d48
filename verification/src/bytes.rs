//! Numbers: fixed-width ones inside byte buffers, and powers of two.

use vstd::arithmetic::power2::is_pow2;
use vstd::prelude::*;

verus! {

/// The 16-bit number that `hi`, `lo` encode in network byte order.
pub open spec fn be16(hi: u8, lo: u8) -> u16 {
    (hi * 0x100 + lo) as u16
}

/// The 32-bit number that four bytes encode in network byte order.
pub open spec fn be32(b0: u8, b1: u8, b2: u8, b3: u8) -> u32 {
    (b0 * 0x100_0000 + b1 * 0x1_0000 + b2 * 0x100 + b3) as u32
}

/// The order in which the bytes of a number lie in memory.
#[derive(Debug, Clone, Copy, PartialEq, Eq, Structural)]
pub enum ByteOrder {
    /// Highest byte first
    Big,
    /// Lowest byte first
    Little,
}

/// The 32-bit number at offset `at` of `data`.
pub open spec fn u32_at(data: Seq<u8>, at: int, order: ByteOrder) -> u32 {
    match order {
        ByteOrder::Big => be32(data[at], data[at + 1], data[at + 2], data[at + 3]),
        ByteOrder::Little => be32(data[at + 3], data[at + 2], data[at + 1], data[at]),
    }
}

/// `u16::from_ne_bytes`: the number that two bytes encode in the byte order of the machine,
/// which is one of the two orders. Which one depends on the machine and is not claimed.
#[verifier::external_body]
fn native_u16(bytes: [u8; 2]) -> (n: u16)
    ensures
        n == be16(bytes@[0], bytes@[1]) || n == be16(bytes@[1], bytes@[0]),
{
    u16::from_ne_bytes(bytes)
}

/// The byte order of the machine. It depends on the machine, so nothing is claimed of it.
pub fn native_order() -> (order: ByteOrder) {
    if native_u16([0, 1]) == 1 {
        ByteOrder::Big
    } else {
        ByteOrder::Little
    }
}

/// `n`, or the largest `usize` where `n` is larger still. No buffer reaches that size.
pub open spec fn clamp_usize(n: int) -> usize {
    if n > usize::MAX {
        usize::MAX
    } else {
        n as usize
    }
}

/// The smaller of two numbers.
pub open spec fn smaller(a: int, b: int) -> int {
    if a < b {
        a
    } else {
        b
    }
}

/// A size as a 64-bit number.
pub open spec fn wide(n: usize) -> u64 {
    n as u64
}

/// A size as a 64-bit number.
pub fn widen(n: usize) -> (w: u64)
    ensures
        w == wide(n),
        w == n,
{
    n as u64
}

/// Reads a 16-bit number in network byte order.
pub fn read_be16(hi: u8, lo: u8) -> (n: u16)
    ensures
        n == be16(hi, lo),
        n == hi * 0x100 + lo,
{
    hi as u16 * 0x100 + lo as u16
}

/// Reads a 32-bit number in network byte order.
pub fn read_be32(b0: u8, b1: u8, b2: u8, b3: u8) -> (n: u32)
    ensures
        n == be32(b0, b1, b2, b3),
        n == b0 * 0x100_0000 + b1 * 0x1_0000 + b2 * 0x100 + b3,
{
    b0 as u32 * 0x100_0000 + b1 as u32 * 0x1_0000 + b2 as u32 * 0x100 + b3 as u32
}

/// Reads the 32-bit number at offset `at` of `data`.
pub fn read_u32_at(data: &[u8], at: usize, order: ByteOrder) -> (n: u32)
    requires
        at + 4 <= data@.len(),
    ensures
        n == u32_at(data@, at as int, order),
{
    assert(at + 4 <= data.len());
    match order {
        ByteOrder::Big => read_be32(data[at], data[at + 1], data[at + 2], data[at + 3]),
        ByteOrder::Little => read_be32(data[at + 3], data[at + 2], data[at + 1], data[at]),
    }
}

/// Whether `n` is a power of two.
pub fn is_power_of_two(n: u64) -> (yes: bool)
    ensures
        yes == is_pow2(n as int),
{
    let mut rest: u64 = n;
    while rest % 2 == 0 && rest != 0
        invariant
            is_pow2(rest as int) == is_pow2(n as int),
        decreases rest,
    {
        proof {
            reveal(is_pow2);
        }
        rest = rest / 2;
    }
    proof {
        reveal(is_pow2);
    }
    rest == 1
}

} // verus!
