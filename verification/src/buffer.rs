//! Byte buffers as `bytes::Bytes` holds them.

use vstd::prelude::*;
use bytes::Bytes;

verus! {

/// `bytes::Bytes`, carried through as it is.
#[verifier::external_type_specification]
#[verifier::external_body]
pub struct ExBytes(Bytes);

/// The bytes that the buffer `buffer` holds, in order.
pub uninterp spec fn bytes_content(buffer: Bytes) -> Seq<u8>;

/// `bytes::Bytes::len`: how many bytes the buffer holds.
pub assume_specification[ Bytes::len ](buffer: &Bytes) -> (n: usize)
    ensures
        n == bytes_content(*buffer).len(),
;

/// `bytes::Bytes::slice`, on an inclusive range: the bytes of `buffer` from
/// position `first` to position `last`, none where `first` is `last + 1`.
/// The call panics on a range that is out of order or reaches beyond the
/// buffer, which the precondition leaves out.
#[verifier::external_body]
pub(crate) fn slice_inclusive(buffer: &Bytes, first: usize, last: usize) -> (r: Bytes)
    requires
        first <= last + 1 <= bytes_content(*buffer).len(),
    ensures
        bytes_content(r) == bytes_content(*buffer).subrange(first as int, last + 1),
{
    buffer.slice(first..=last)
}

} // verus!
