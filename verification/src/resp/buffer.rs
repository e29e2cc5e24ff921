//! The byte buffer that connections read into.

use bytes::BytesMut;
use vstd::prelude::*;

verus! {

/// `bytes::BytesMut`: a growable buffer of bytes. Nothing of its inside
/// is visible here; the library only hands such a buffer on and reads
/// its contents through `buffer_slice`.
#[verifier::external_type_specification]
#[verifier::external_body]
pub struct ExBytesMut(BytesMut);

/// The bytes that a buffer holds, first to last.
pub uninterp spec fn buffer_bytes(buffer: BytesMut) -> Seq<u8>;

/// `BytesMut::as_ref`: the contents of the buffer as one slice. The
/// contract claims nothing of the contents; it gives them the name under
/// which the rest of the library speaks of them.
#[verifier::external_body]
pub(crate) fn buffer_slice(buffer: &BytesMut) -> (bytes: &[u8])
    ensures
        bytes@ == buffer_bytes(*buffer),
{
    buffer.as_ref()
}

} // verus!
