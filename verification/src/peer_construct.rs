//! A node of the Kademlia network: its secret key and its peer id.
use vstd::prelude::*;
use crate::peer_config::{
    create_local_key, create_local_peer_id, ed25519_public_key, lemma_peer_id_injective,
    peer_id_of_public_key,
};

verus! {

/// The identity of the local node: the Ed25519 secret key it signs with and
/// the bytes of the peer id under which the network knows it.
#[derive(Clone)]
pub struct Peer {
    pub local_key: [u8; 32],
    pub local_peer_id: Vec<u8>,
}

impl Peer {
    /// The peer id is the one libp2p derives from the public half of the key.
    pub open spec fn id_matches_key(&self) -> bool {
        &&& ed25519_public_key(self.local_key@).len() == 32
        &&& self.local_peer_id@ == peer_id_of_public_key(ed25519_public_key(self.local_key@))
    }

    /// A fresh identity: a new random key and the peer id derived from it.
    pub fn new() -> (peer: Peer)
        ensures
            peer.id_matches_key(),
    {
        let loc_key = create_local_key();
        let local_key = loc_key;
        let local_peer_id = create_local_peer_id(loc_key);
        Peer { local_key, local_peer_id }
    }
}

/// Law: two identities carry the same peer id exactly when their keys have the
/// same public half.
pub proof fn lemma_same_id_iff_same_public_key(peer1: Peer, peer2: Peer)
    requires
        peer1.id_matches_key(),
        peer2.id_matches_key(),
    ensures
        peer1.local_peer_id@ == peer2.local_peer_id@ <==> ed25519_public_key(peer1.local_key@)
            == ed25519_public_key(peer2.local_key@),
{
    lemma_peer_id_injective(
        ed25519_public_key(peer1.local_key@),
        ed25519_public_key(peer2.local_key@),
    );
}

} // verus!
