//! The two ends of one exchange.

use vstd::prelude::*;

verus! {

/// The identifier of a peer: 32 bytes derived from its public key.
pub type KeyId = [u8; 32];

/// ADNL peers
#[derive(Clone, Copy)]
pub struct AdnlPeers(KeyId, KeyId);

impl AdnlPeers {
    /// The local identifier.
    pub closed spec fn spec_local(&self) -> KeyId {
        self.0
    }

    /// The identifier of the other side.
    pub closed spec fn spec_other(&self) -> KeyId {
        self.1
    }

    /// Constructor
    pub fn with_keys(local: KeyId, other: KeyId) -> (peers: Self)
        ensures
            peers.spec_local() == local,
            peers.spec_other() == other,
    {
        Self(local, other)
    }

    /// Local peer
    pub fn local(&self) -> (id: &KeyId)
        ensures
            *id == self.spec_local(),
    {
        &self.0
    }

    /// Other peer
    pub fn other(&self) -> (id: &KeyId)
        ensures
            *id == self.spec_other(),
    {
        &self.1
    }

    /// Change other peer
    pub fn set_other(&mut self, other: KeyId)
        ensures
            final(self).spec_local() == old(self).spec_local(),
            final(self).spec_other() == other,
    {
        self.1 = other;
    }
}

} // verus!
