//! System Description Table (SDT) validation.
//!
//! Every ACPI table starts with a common 36-byte header: a 4-byte
//! signature, a 4-byte little-endian total length (header included), a
//! revision byte, a checksum byte and OEM fields.  A table is trustworthy
//! only if the unsigned byte-sum of its first `length` bytes is congruent
//! to 0 modulo 256.

use vstd::prelude::*;
use vstd::arithmetic::div_mod::{lemma_add_mod_noop, lemma_small_mod};

verus! {

/// Size in bytes of the common SDT header.
pub const SDT_HEADER_SIZE: usize = 36;

/// Unsigned sum of all bytes of a buffer.
pub open spec fn byte_sum(s: Seq<u8>) -> int
    decreases s.len(),
{
    if s.len() == 0 {
        0
    } else {
        byte_sum(s.drop_last()) + s.last()
    }
}

/// Little-endian 32-bit value read from four consecutive bytes of `s`.
pub open spec fn le_u32_at(s: Seq<u8>, off: int) -> int {
    s[off] + 0x100 * s[off + 1] + 0x1_0000 * s[off + 2] + 0x100_0000 * s[off + 3]
}

/// The table's 4-byte signature packed into one key, first byte lowest.
pub open spec fn spec_signature(s: Seq<u8>) -> int {
    le_u32_at(s, 0)
}

/// Declared total length of the table rooted at these bytes.
pub open spec fn spec_length(s: Seq<u8>) -> int {
    le_u32_at(s, 4)
}

/// A buffer holds a trustworthy SDT: it is at least a header long, its
/// declared length covers the header and fits in the buffer, and the
/// byte-sum of the declared extent vanishes modulo 256.
pub open spec fn spec_valid_sdt(s: Seq<u8>) -> bool {
    &&& s.len() >= SDT_HEADER_SIZE
    &&& spec_length(s) >= SDT_HEADER_SIZE
    &&& spec_length(s) <= s.len()
    &&& byte_sum(s.take(spec_length(s))) % 256 == 0
}

/// Checksum validation over the first `len` bytes of a buffer: succeeds
/// iff the unsigned byte-sum of `bytes[0..len)` is 0 modulo 256.
pub fn validate(bytes: &Vec<u8>, len: usize) -> (r: bool)
    requires
        len <= bytes@.len(),
    ensures
        r == (byte_sum(bytes@.take(len as int)) % 256 == 0),
{
    let mut acc: u8 = 0;
    let mut i: usize = 0;
    while i < len
        invariant
            i <= len,
            len <= bytes@.len(),
            acc as int == byte_sum(bytes@.take(i as int)) % 256,
        decreases len - i,
    {
        proof {
            assert(bytes@.take(i as int + 1).drop_last() =~= bytes@.take(i as int));
            assert(bytes@.take(i as int + 1).last() == bytes@[i as int]);
            lemma_small_mod(bytes@[i as int] as nat, 256);
            lemma_add_mod_noop(byte_sum(bytes@.take(i as int)), bytes@[i as int] as int, 256);
        }
        acc = (((acc as u16) + (bytes[i] as u16)) % 256) as u8;
        i = i + 1;
    }
    acc == 0
}

/// Little-endian 32-bit read, the executable counterpart of `le_u32_at`.
pub fn read_le_u32(bytes: &Vec<u8>, off: usize) -> (r: u32)
    requires
        off + 4 <= bytes@.len(),
    ensures
        r as int == le_u32_at(bytes@, off as int),
{
    let n: usize = bytes.len();
    assert(off + 4 <= n);
    (bytes[off] as u32) + 0x100 * (bytes[off + 1] as u32) + 0x1_0000 * (bytes[off + 2] as u32)
        + 0x100_0000 * (bytes[off + 3] as u32)
}

/// Signature key of the table rooted at these bytes.
pub fn signature(bytes: &Vec<u8>) -> (r: u32)
    requires
        bytes@.len() >= 4,
    ensures
        r as int == spec_signature(bytes@),
{
    read_le_u32(bytes, 0)
}

/// Signature key for a 4-character literal such as `b"APIC"`.
pub fn signature_key(sig: &[u8; 4]) -> (r: u32)
    ensures
        r as int == spec_signature(sig@),
{
    let s0 = sig[0];
    let s1 = sig[1];
    let s2 = sig[2];
    let s3 = sig[3];
    (s0 as u32) + 0x100 * (s1 as u32) + 0x1_0000 * (s2 as u32) + 0x100_0000 * (s3 as u32)
}

/// Full SDT validation: header present, declared length consistent with
/// the buffer, and checksum over the declared extent.
pub fn validate_sdt(bytes: &Vec<u8>) -> (r: bool)
    ensures
        r == spec_valid_sdt(bytes@),
{
    if bytes.len() < SDT_HEADER_SIZE {
        return false;
    }
    let length = read_le_u32(bytes, 4);
    if length < SDT_HEADER_SIZE as u32 {
        return false;
    }
    if (length as usize) > bytes.len() {
        return false;
    }
    validate(bytes, length as usize)
}

} // verus!

