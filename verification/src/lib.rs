//! Verified core of a peer-to-peer box game: the input and movement rules of
//! the rollback game, and the Kademlia console with its peer identity.
pub mod command;
pub mod peer_config;
pub mod peer_construct;
pub mod find_my_peers;
pub mod box_game;
