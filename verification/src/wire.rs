//! Wire encoding: the 64-bit transfer word of the isolation boundary.
//!
//! Every host function accepts only integer-width arguments, so a guest
//! buffer is referenced by packing its address and length into one 64-bit
//! word: address in the low 32 bits, length in the high 32 bits.  The same
//! word type also carries raw scalars and status codes; which reading
//! applies is fixed by the call site, never self-describing.

use vstd::prelude::*;

verus! {

/// The packed form of a (address, length) buffer reference: address in the
/// low 32 bits, length in the high 32 bits.
pub open spec fn spec_pack_ref(addr: u32, len: u32) -> u64 {
    ((len as u64) << 32) | (addr as u64)
}

/// The address half of a packed buffer reference.
pub open spec fn spec_ref_addr(w: u64) -> u32 {
    (w & 0xffff_ffff) as u32
}

/// The length half of a packed buffer reference.
pub open spec fn spec_ref_len(w: u64) -> u32 {
    (w >> 32) as u32
}

/// Packs a buffer address and length into one transfer word.
///
/// Both halves are 32-bit by construction, so packing has no failure mode.
/// The referenced memory must stay valid and unmoved for the duration of
/// the host call that consumes the word; that is the caller's obligation,
/// not something the encoder can enforce.
pub fn pack_ref(addr: u32, len: u32) -> (w: u64)
    ensures
        w == spec_pack_ref(addr, len),
{
    ((len as u64) << 32) | (addr as u64)
}

/// Recovers the address half of a packed buffer reference.
pub fn ref_addr(w: u64) -> (addr: u32)
    ensures
        addr == spec_ref_addr(w),
{
    (w & 0xffff_ffff) as u32
}

/// Recovers the length half of a packed buffer reference.
pub fn ref_len(w: u64) -> (len: u32)
    ensures
        len == spec_ref_len(w),
{
    (w >> 32) as u32
}

/// Packing a reference loses nothing: both halves unpack to what was put in.
pub proof fn lemma_pack_ref_round_trip(addr: u32, len: u32)
    ensures
        spec_ref_addr(spec_pack_ref(addr, len)) == addr,
        spec_ref_len(spec_pack_ref(addr, len)) == len,
{
    assert(((((len as u64) << 32) | (addr as u64)) & 0xffff_ffff) as u32 == addr)
        by (bit_vector);
    assert(((((len as u64) << 32) | (addr as u64)) >> 32) as u32 == len) by (bit_vector);
}

/// Unpacking then repacking reproduces the original word: the two halves
/// account for all 64 bits.
pub proof fn lemma_ref_halves_cover_word(w: u64)
    ensures
        spec_pack_ref(spec_ref_addr(w), spec_ref_len(w)) == w,
{
    assert(((((w >> 32) as u32) as u64) << 32) | (((w & 0xffff_ffff) as u32) as u64) == w)
        by (bit_vector);
}

/// The status convention of most fallible host calls: `0` is success, any
/// nonzero value is failure.  The particular nonzero value carries no
/// further meaning to the guest.
pub open spec fn spec_status_ok(status: u32) -> bool {
    status == 0
}

/// Tests a returned status word under the zero-is-success convention.
pub fn status_ok(status: u32) -> (r: bool)
    ensures
        r == spec_status_ok(status),
{
    status == 0
}

/// The convention of the buffer-read host call: `-1` signals failure, any
/// nonnegative value is a byte count.
pub open spec fn spec_read_failed(ret: i32) -> bool {
    ret == -1i32
}

/// Tests the return value of a buffer-read host call.
pub fn read_failed(ret: i32) -> (r: bool)
    ensures
        r == spec_read_failed(ret),
{
    ret == -1i32
}

} // verus!
