//! Big-endian integers, as the length fields of a frame carry them.

use byteorder::{BigEndian, ByteOrder};
use vstd::prelude::*;

verus! {

/// The number that `bytes` spell, most significant byte first.
pub open spec fn be_value(bytes: Seq<u8>) -> nat
    decreases bytes.len(),
{
    if bytes.len() == 0 {
        0
    } else {
        be_value(bytes.drop_last()) * 256 + bytes.last() as nat
    }
}

/// The `width` low-order bytes of `n`, most significant byte first.
pub open spec fn be_bytes(n: nat, width: nat) -> Seq<u8>
    decreases width,
{
    if width == 0 {
        Seq::empty()
    } else {
        be_bytes(n / 256, (width - 1) as nat).push((n % 256) as u8)
    }
}

/// One more than the largest number that `width` bytes can spell.
pub open spec fn width_limit(width: nat) -> nat
    decreases width,
{
    if width == 0 {
        1
    } else {
        256 * width_limit((width - 1) as nat)
    }
}

/// `ByteOrder::read_u16` of `BigEndian`: the number spelt by the first two
/// bytes. The crate panics on a shorter slice.
#[verifier::external_body]
pub(crate) fn read_u16(bytes: &[u8]) -> (n: u16)
    requires
        bytes@.len() >= 2,
    ensures
        n == be_value(bytes@.subrange(0, 2)),
{
    BigEndian::read_u16(bytes)
}

/// `ByteOrder::read_u64` of `BigEndian`: the number spelt by the first
/// eight bytes. The crate panics on a shorter slice.
#[verifier::external_body]
pub(crate) fn read_u64(bytes: &[u8]) -> (n: u64)
    requires
        bytes@.len() >= 8,
    ensures
        n == be_value(bytes@.subrange(0, 8)),
{
    BigEndian::read_u64(bytes)
}

/// `ByteOrder::write_uint` of `BigEndian`, on a fresh buffer of `nbytes`
/// bytes: the `nbytes` low-order bytes of `n`. The crate panics unless
/// `nbytes` is between 1 and 8 and `n` fits in that many bytes.
#[verifier::external_body]
pub(crate) fn write_uint(n: u64, nbytes: usize) -> (out: Vec<u8>)
    requires
        1 <= nbytes <= 8,
        n < width_limit(nbytes as nat),
    ensures
        out@ == be_bytes(n as nat, nbytes as nat),
{
    let mut out = vec![0u8; nbytes];
    BigEndian::write_uint(&mut out, n, nbytes);
    out
}

/// A number of `width` bytes has `width` bytes.
pub proof fn lemma_be_bytes_len(n: nat, width: nat)
    ensures
        be_bytes(n, width).len() == width,
    decreases width,
{
    if width > 0 {
        lemma_be_bytes_len(n / 256, (width - 1) as nat);
    }
}

/// Reading back what was written gives the number, where it fits.
pub proof fn lemma_be_value_of_be_bytes(n: nat, width: nat)
    requires
        n < width_limit(width),
    ensures
        be_value(be_bytes(n, width)) == n,
    decreases width,
{
    if width > 0 {
        let rest = be_bytes(n / 256, (width - 1) as nat);
        lemma_be_value_of_be_bytes(n / 256, (width - 1) as nat);
        assert(be_bytes(n, width).drop_last() == rest);
    }
}

} // verus!
