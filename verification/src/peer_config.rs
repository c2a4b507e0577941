//! The identity of the local node: an Ed25519 secret key, and the peer id
//! that libp2p derives from it.
use vstd::prelude::*;

verus! {

/// The 32 bytes (`ed25519::PublicKey::to_bytes`) of the Ed25519 public key
/// that belongs to the secret key `secret`.
pub uninterp spec fn ed25519_public_key(secret: Seq<u8>) -> Seq<u8>;

/// The bytes of the peer id of a node whose Ed25519 public key is the 32 bytes
/// `public_key`: an identity multihash (code 0, length 36) of the protobuf
/// encoding of the key (field 1: key type Ed25519; field 2: 32 bytes of data).
pub open spec fn peer_id_of_public_key(public_key: Seq<u8>) -> Seq<u8> {
    seq![0u8, 36u8, 8u8, 1u8, 18u8, 32u8] + public_key
}

/// Law: two Ed25519 public keys give the same peer id exactly when they are
/// the same key: the id embeds the key.
pub proof fn lemma_peer_id_injective(public_key1: Seq<u8>, public_key2: Seq<u8>)
    requires
        public_key1.len() == 32,
        public_key2.len() == 32,
    ensures
        peer_id_of_public_key(public_key1) == peer_id_of_public_key(public_key2) <==> public_key1
            == public_key2,
{
    let a = peer_id_of_public_key(public_key1);
    let b = peer_id_of_public_key(public_key2);
    if a == b {
        assert(public_key1 =~= a.subrange(6, 38));
        assert(public_key2 =~= b.subrange(6, 38));
    }
}

/// Calls `libp2p::identity::Keypair::generate_ed25519` and hands out the
/// 32-byte secret key of the new pair. The key is drawn from the operating
/// system's random source, so nothing is claimed of its bytes.
#[verifier::external_body]
pub fn create_local_key() -> (local_key: [u8; 32]) {
    let keypair = libp2p::identity::Keypair::generate_ed25519();
    let pair = keypair.try_into_ed25519().expect("an Ed25519 keypair");
    let mut secret = [0u8; 32];
    secret.copy_from_slice(pair.secret().as_ref());
    secret
}

/// Calls `libp2p::PeerId::from` on the public key of the Ed25519 keypair
/// built from `local_key` (`Keypair::ed25519_from_bytes`, which accepts any
/// 32 bytes) and returns the bytes of the peer id. As `PeerId::from_public_key`
/// and `Multihash::to_bytes` show, these are the identity multihash of the
/// key's 36-byte protobuf encoding. The derivation of the public key from the
/// secret is not stated; it is named `ed25519_public_key`.
#[verifier::external_body]
pub fn create_local_peer_id(local_key: [u8; 32]) -> (local_peer_id: Vec<u8>)
    ensures
        local_peer_id@ == peer_id_of_public_key(ed25519_public_key(local_key@)),
        local_peer_id@.len() == 38,
{
    let keypair = libp2p::identity::Keypair::ed25519_from_bytes(local_key)
        .expect("32 bytes are an Ed25519 secret key");
    libp2p::PeerId::from(keypair.public()).to_bytes()
}

} // verus!
