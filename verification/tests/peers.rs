use ggrs_kad::find_my_peers::{list_peers, search, SearchReport};
use ggrs_kad::peer_config::{create_local_key, create_local_peer_id};
use ggrs_kad::peer_construct::Peer;

#[test]
fn new_peer_id_is_derived_from_its_key() {
    let peer = Peer::new();
    assert_eq!(peer.local_peer_id, create_local_peer_id(peer.local_key));
}

#[test]
fn peer_id_is_an_identity_multihash_of_the_public_key() {
    let key = create_local_key();
    let id = create_local_peer_id(key);
    assert_eq!(id.len(), 38);
    assert_eq!(&id[..6], &[0u8, 36, 8, 1, 18, 32]);
    assert_ne!(&id[6..], &key[..]);
}

#[test]
fn peer_id_depends_on_the_key_alone() {
    let key = [7u8; 32];
    assert_eq!(create_local_peer_id(key), create_local_peer_id(key));
    assert_ne!(create_local_peer_id(key), create_local_peer_id([8u8; 32]));
}

#[test]
fn peer_id_embeds_the_public_key() {
    let key = [3u8; 32];
    let public = libp2p::identity::Keypair::ed25519_from_bytes(key)
        .unwrap()
        .try_into_ed25519()
        .unwrap()
        .public()
        .to_bytes();
    let mut expected = vec![0u8, 36, 8, 1, 18, 32];
    expected.extend_from_slice(&public);
    assert_eq!(create_local_peer_id(key), expected);
}

#[test]
fn peers_share_an_id_only_with_the_same_key() {
    let p1 = Peer::new();
    let p2 = Peer { local_key: p1.local_key, local_peer_id: create_local_peer_id(p1.local_key) };
    assert_eq!(p1.local_peer_id, p2.local_peer_id);
    let p3 = Peer::new();
    assert_ne!(p1.local_key, p3.local_key);
    assert_ne!(p1.local_peer_id, p3.local_peer_id);
}

#[test]
fn peer_id_of_a_known_key() {
    let id = create_local_peer_id([1u8; 32]);
    let peer = libp2p::PeerId::from_bytes(&id).unwrap();
    let keypair = libp2p::identity::Keypair::ed25519_from_bytes([1u8; 32]).unwrap();
    assert_eq!(peer, libp2p::PeerId::from(keypair.public()));
}

#[test]
fn fresh_keys_differ() {
    assert_ne!(create_local_key(), create_local_key());
}

#[test]
fn list_peers_flattens_buckets_in_order() {
    let buckets: Vec<Vec<u32>> = vec![vec![], vec![1, 2], vec![], vec![3], vec![4, 5, 6]];
    assert_eq!(list_peers(&buckets), vec![1, 2, 3, 4, 5, 6]);
    let none: Vec<Vec<u32>> = vec![vec![], vec![]];
    assert_eq!(list_peers(&none), Vec::<u32>::new());
    assert_eq!(list_peers::<u32>(&vec![]), Vec::<u32>::new());
}

#[test]
fn search_reports() {
    assert_eq!(search::<u8>(Ok(vec![1, 2])), SearchReport::ClosestPeers(vec![1, 2]));
    assert_eq!(search::<u8>(Ok(vec![])), SearchReport::NoClosestPeers);
    assert_eq!(search::<u8>(Err(vec![3])), SearchReport::TimedOutWithPeers(vec![3]));
    assert_eq!(search::<u8>(Err(vec![])), SearchReport::TimedOutNoPeers);
}

#[test]
fn search_headlines() {
    assert_eq!(SearchReport::ClosestPeers(vec![1u8]).headline(), "Query finished with closest peers:");
    assert_eq!(SearchReport::<u8>::NoClosestPeers.headline(), "Query finished with no closest peers.");
    assert_eq!(SearchReport::TimedOutWithPeers(vec![1u8]).headline(), "Query timed out with closest peers:");
    assert_eq!(SearchReport::<u8>::TimedOutNoPeers.headline(), "Query timed out with no closest peers.");
}
