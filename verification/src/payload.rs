use vstd::prelude::*;
use bytes::Bytes;

verus! {

/// `Bytes::copy_from_slice`, with the new buffer's bytes handed out as a
/// vector: a copy of the slice, byte for byte.
#[verifier::external_body]
pub(crate) fn copy_payload(data: &[u8]) -> (payload: Vec<u8>)
    ensures
        payload@ == data@,
{
    Bytes::copy_from_slice(data).to_vec()
}

} // verus!
