//! The handle that the policy functions hang on.

use vstd::prelude::*;

use crate::ident::PeerId;

verus! {

/// What the policy needs to know of the local node: who it is on the network
/// and which key signs what it creates.
#[derive(Clone, Debug, PartialEq, Eq)]
pub struct State {
    pub peer_id: PeerId,
    pub signer: PeerId,
}

impl State {
    /// The node `peer_id`, creating documents under the key `signer`.
    pub fn new(peer_id: PeerId, signer: PeerId) -> (state: State)
        ensures
            state.peer_id == peer_id,
            state.signer == signer,
    {
        State { peer_id, signer }
    }

    /// The local node's identifier.
    pub fn peer_id(&self) -> (peer: PeerId)
        ensures
            peer == self.peer_id,
    {
        self.peer_id.clone()
    }
}

} // verus!
