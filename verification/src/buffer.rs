//! The byte buffer that frames are read from and written to.

use bytes::{BufMut, BytesMut};
use vstd::prelude::*;

verus! {

/// `bytes::BytesMut`, the growable byte buffer of a framed channel. Nothing
/// inside it is looked at; what it holds is spoken of as `buffered`.
#[verifier::external_type_specification]
#[verifier::external_body]
pub struct ExBytesMut(bytes::BytesMut);

/// The bytes that a buffer holds, first to last.
pub uninterp spec fn buffered(buf: BytesMut) -> Seq<u8>;

/// `BytesMut::clear`: the buffer holds nothing afterwards.
pub assume_specification[ BytesMut::clear ](buf: &mut BytesMut)
    ensures
        buffered(*final(buf)) == Seq::<u8>::empty(),
;

/// `BytesMut::reserve`: makes room for `additional` more bytes and leaves
/// the contents as they are. The crate panics when the new capacity
/// overflows; what is held and what is added are kept within `isize::MAX`
/// bytes together, the most that an allocation can hold.
pub assume_specification[ BytesMut::reserve ](buf: &mut BytesMut, additional: usize)
    requires
        buffered(*old(buf)).len() + additional <= isize::MAX,
    ensures
        buffered(*final(buf)) == buffered(*old(buf)),
;

/// `AsRef<[u8]>` of `BytesMut`: the contents as a slice.
#[verifier::external_body]
pub(crate) fn contents(buf: &BytesMut) -> (bytes: &[u8])
    ensures
        bytes@ == buffered(*buf),
{
    buf.as_ref()
}

/// `BufMut::put_slice` of `BytesMut`: appends `src` to the contents. It
/// grows the buffer as `reserve` does, with the same limit.
#[verifier::external_body]
pub(crate) fn put_slice(buf: &mut BytesMut, src: &[u8])
    requires
        buffered(*old(buf)).len() + src@.len() <= isize::MAX,
    ensures
        buffered(*final(buf)) == buffered(*old(buf)) + src@,
{
    buf.put_slice(src)
}

} // verus!
