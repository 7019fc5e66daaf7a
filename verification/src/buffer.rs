//! What the library takes on trust from the `bytes` crate: the growable
//! byte buffer that requests are written into.

use bytes::BytesMut;
use vstd::prelude::*;

verus! {

#[verifier::external_type_specification]
#[verifier::external_body]
pub struct ExBytesMut(bytes::BytesMut);

/// The bytes that a buffer holds, from the first to the last.
pub uninterp spec fn buffer_bytes(buffer: BytesMut) -> Seq<u8>;

/// `BytesMut::new`: a buffer that holds nothing.
pub assume_specification[ BytesMut::new ]() -> (buffer: BytesMut)
    ensures
        buffer_bytes(buffer) == Seq::<u8>::empty(),
;

/// `BytesMut::extend_from_slice`: the bytes of `more` are added at the
/// end, after room was made for them. Making room panics when the new length
/// is more than an allocation can have, which is `isize::MAX` bytes; the
/// `requires` leaves that out.
pub assume_specification[ BytesMut::extend_from_slice ](buffer: &mut BytesMut, more: &[u8])
    requires
        buffer_bytes(*old(buffer)).len() + more@.len() <= isize::MAX,
    ensures
        buffer_bytes(*final(buffer)) == buffer_bytes(*old(buffer)) + more@,
;

} // verus!
