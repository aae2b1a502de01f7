//! Transactions on their way to a leader.

use crate::pubkey::Pubkey;
use bytes::Bytes;
use vstd::prelude::*;

verus! {

/// The signature that identifies a transaction.
#[derive(Debug, Clone, Copy, PartialEq, Eq)]
pub struct Signature {
    pub bytes: [u8; 64],
}

impl Default for Signature {
    fn default() -> (r: Self)
        ensures
            forall|i: int| 0 <= i < 64 ==> r.bytes@[i] == 0,
    {
        Signature { bytes: [0u8; 64] }
    }
}

/// A transaction for one leader.
#[derive(Debug, Clone)]
pub struct TpuSenderTxn {
    /// The signature that identifies the transaction.
    pub tx_sig: Signature,
    /// The leader to send to.
    pub remote_peer: Pubkey,
    /// The serialized transaction.
    pub wire: Bytes,
}

impl TpuSenderTxn {
    /// The transaction `wire` for `remote_peer`.
    pub fn from_bytes(tx_sig: Signature, remote_peer: Pubkey, wire: Bytes) -> (r: Self)
        ensures
            r == (TpuSenderTxn { tx_sig, remote_peer, wire }),
    {
        TpuSenderTxn { tx_sig, remote_peer, wire }
    }

    /// The transaction carries the signature, the leader and the bytes of `wire`.
    pub open spec fn carries(self, tx_sig: Signature, remote_peer: Pubkey, wire: Bytes) -> bool {
        &&& self.tx_sig == tx_sig
        &&& self.remote_peer == remote_peer
        &&& crate::wire::wire_bytes(self.wire) == crate::wire::wire_bytes(wire)
    }
}

/// A transaction for a leader carries what it is made of.
pub proof fn law_a_transaction_carries_what_it_is_made_of(
    tx_sig: Signature,
    remote_peer: Pubkey,
    wire: Bytes,
    txn: TpuSenderTxn,
)
    requires
        call_ensures(TpuSenderTxn::from_bytes, (tx_sig, remote_peer, wire), txn),
    ensures
        txn.tx_sig == tx_sig,
        txn.remote_peer == remote_peer,
        txn.wire == wire,
{
}

} // verus!
