# ggrs_kad

A peer-to-peer box game (GGRS rollback networking on Bevy) and a Kademlia
console (libp2p), with their rules verified by Verus.

- `src/` is the verified library:
  - `box_game.rs`: the input byte made from the W/A/S/D keys, how an input
    byte steers a cube, the cubes spawned per player and their colours, the
    frame counter, and the players of a session read from the command line;
  - `command.rs`: the console's line syntax (split on single spaces) and the
    commands it reads, with the laws of that syntax;
  - `peer_config.rs`, `peer_construct.rs`: the node's Ed25519 key and the
    libp2p peer id derived from it;
  - `find_my_peers.rs`: listing the routing table and reporting a
    closest-peers query.
- `app/` holds the programs: `box-game` (window, rendering, GGRS session,
  floating-point physics), `kad-dht` (the libp2p swarm and its event loop) and
  `ggrs-kad` (both side by side).
- `tests/` runs the library on concrete values.
