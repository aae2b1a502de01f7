//! Serialized transactions, held in shared buffers of the `bytes` crate.

use bytes::Bytes;
use vstd::prelude::*;

verus! {

#[verifier::external_type_specification]
#[verifier::external_body]
pub struct ExBytes(Bytes);

/// The bytes that a `bytes::Bytes` holds.
pub uninterp spec fn wire_bytes(wire: Bytes) -> Seq<u8>;

/// Clones a `bytes::Bytes`: the clone holds the same bytes.
pub assume_specification[ <Bytes as Clone>::clone ](wire: &Bytes) -> (r: Bytes)
    ensures
        wire_bytes(r) == wire_bytes(*wire),
;

/// Calls `bytes::Bytes::from_owner`: the vector becomes the buffer, without a copy.
///
/// Trusted: the buffer holds the bytes of the vector.
#[verifier::external_body]
pub(crate) fn wire_from_vec(txn: Vec<u8>) -> (r: Bytes)
    ensures
        wire_bytes(r) == txn@,
{
    Bytes::from_owner(txn)
}

} // verus!
