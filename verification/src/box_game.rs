//! The rules of the rollback box game that do not depend on floating point:
//! how the keys held by a player become the input byte that GGRS exchanges,
//! how an input byte steers a cube, which players are spawned in which
//! colour, how the session's players are read from the command line, and the
//! frame counter.
use vstd::prelude::*;

verus! {

/// Frames simulated per second.
pub const FPS: usize = 60;

/// The number of frames GGRS may predict ahead of confirmed input.
pub const MAX_PREDICTION_WINDOW: usize = 12;

/// Frames of delay added to the local player's input.
pub const INPUT_DELAY: usize = 2;

/// Bit of the input byte set while W (up) is held.
pub const INPUT_UP: u8 = 1;

/// Bit of the input byte set while S (down) is held.
pub const INPUT_DOWN: u8 = 2;

/// Bit of the input byte set while A (left) is held.
pub const INPUT_LEFT: u8 = 4;

/// Bit of the input byte set while D (right) is held.
pub const INPUT_RIGHT: u8 = 8;

/// The input of one player for one frame, as GGRS sends it over the network.
#[derive(Debug, Clone, Copy, PartialEq, Eq, Structural)]
pub struct BoxInput {
    pub inp: u8,
}

/// The input byte of a frame in which W, A, S and D are held as given.
pub open spec fn key_byte(w: bool, a: bool, s: bool, d: bool) -> u8 {
    ((if w { INPUT_UP as int } else { 0 }) + (if s { INPUT_DOWN as int } else { 0 }) + (if a {
        INPUT_LEFT as int
    } else {
        0
    }) + (if d { INPUT_RIGHT as int } else { 0 })) as u8
}

/// Whether the bit `flag` is set in `inp`.
pub open spec fn held(inp: u8, flag: u8) -> bool {
    inp & flag != 0
}

/// The input of the local player, from whether W, A, S and D are held.
pub fn input(w: bool, a: bool, s: bool, d: bool) -> (r: BoxInput)
    ensures
        r.inp == key_byte(w, a, s, d),
{
    let mut input: u8 = 0;
    let ghost i0 = input;
    if w {
        input = input | INPUT_UP;
    }
    let ghost i1 = input;
    if a {
        input = input | INPUT_LEFT;
    }
    let ghost i2 = input;
    if s {
        input = input | INPUT_DOWN;
    }
    let ghost i3 = input;
    if d {
        input = input | INPUT_RIGHT;
    }
    let ghost i4 = input;
    assert(i4 == key_byte(w, a, s, d)) by (bit_vector)
        requires
            i0 == 0u8,
            i1 == if w { i0 | 1u8 } else { i0 },
            i2 == if a { i1 | 4u8 } else { i1 },
            i3 == if s { i2 | 2u8 } else { i2 },
            i4 == if d { i3 | 8u8 } else { i3 },
    ;
    BoxInput { inp: input }
}

/// What a frame does to the velocity along one axis, given whether the key
/// towards the negative and the key towards the positive end are held.
#[derive(Debug, Clone, Copy, PartialEq, Eq, Structural)]
pub enum AxisControl {
    /// Accelerate towards the negative end.
    Decrease,
    /// Accelerate towards the positive end.
    Increase,
    /// Neither key is held: friction slows the cube down.
    Damp,
    /// Both keys are held: they cancel and the velocity is left as it is.
    Hold,
}

/// The control of an axis whose negative and positive keys are held as given.
pub open spec fn axis_rule(negative: bool, positive: bool) -> AxisControl {
    if negative && !positive {
        AxisControl::Decrease
    } else if !negative && positive {
        AxisControl::Increase
    } else if !negative && !positive {
        AxisControl::Damp
    } else {
        AxisControl::Hold
    }
}

/// Law: a cube accelerates towards an end exactly when only that end's key is
/// held, is slowed by friction exactly when neither key is held, and keeps its
/// velocity exactly when both are held.
pub proof fn lemma_axis_rule(negative: bool, positive: bool)
    ensures
        (axis_rule(negative, positive) == AxisControl::Decrease) <==> (negative && !positive),
        (axis_rule(negative, positive) == AxisControl::Increase) <==> (!negative && positive),
        (axis_rule(negative, positive) == AxisControl::Damp) <==> (!negative && !positive),
        (axis_rule(negative, positive) == AxisControl::Hold) <==> (negative && positive),
{
}

/// The control of one axis.
pub fn axis_control(negative: bool, positive: bool) -> (c: AxisControl)
    ensures
        c == axis_rule(negative, positive),
{
    if negative && !positive {
        AxisControl::Decrease
    } else if !negative && positive {
        AxisControl::Increase
    } else if !negative && !positive {
        AxisControl::Damp
    } else {
        AxisControl::Hold
    }
}

/// How a frame steers a cube: along z (up is negative, down positive) and
/// along x (left is negative, right positive). The vertical velocity is
/// always damped.
#[derive(Debug, Clone, Copy, PartialEq, Eq, Structural)]
pub struct Steering {
    pub z: AxisControl,
    pub x: AxisControl,
}

/// The steering that an input byte asks for.
pub open spec fn steering_of(inp: u8) -> Steering {
    Steering {
        z: axis_rule(held(inp, INPUT_UP), held(inp, INPUT_DOWN)),
        x: axis_rule(held(inp, INPUT_LEFT), held(inp, INPUT_RIGHT)),
    }
}

/// Law: the up and down bits (1 and 2) steer along z, the left and right bits
/// (4 and 8) along x, and the other bits of the input byte are ignored.
pub proof fn lemma_steering_bits(inp: u8)
    ensures
        steering_of(inp) == (Steering {
            z: axis_rule(inp & 1u8 != 0, inp & 2u8 != 0),
            x: axis_rule(inp & 4u8 != 0, inp & 8u8 != 0),
        }),
        steering_of(inp) == steering_of(inp & 0x0fu8),
{
    let low = inp & 0x0fu8;
    assert((low & 1u8 != 0) == (inp & 1u8 != 0) && (low & 2u8 != 0) == (inp & 2u8 != 0) && (low
        & 4u8 != 0) == (inp & 4u8 != 0) && (low & 8u8 != 0) == (inp & 8u8 != 0)) by (bit_vector)
        requires
            low == inp & 0x0fu8,
    ;
}

/// The steering of a cube whose player sent `input` for this frame.
pub fn steering(input: BoxInput) -> (s: Steering)
    ensures
        s == steering_of(input.inp),
{
    let inp = input.inp;
    let z = axis_control(inp & INPUT_UP != 0, inp & INPUT_DOWN != 0);
    let x = axis_control(inp & INPUT_LEFT != 0, inp & INPUT_RIGHT != 0);
    Steering { z, x }
}

/// Law: each key has its own bit in the input byte, and no other bit is set;
/// so the byte that a frame's keys give steers the cube by those keys: W
/// against S along z, A against D along x.
pub proof fn lemma_keys_steer(w: bool, a: bool, s: bool, d: bool)
    ensures
        held(key_byte(w, a, s, d), INPUT_UP) == w,
        held(key_byte(w, a, s, d), INPUT_DOWN) == s,
        held(key_byte(w, a, s, d), INPUT_LEFT) == a,
        held(key_byte(w, a, s, d), INPUT_RIGHT) == d,
        key_byte(w, a, s, d) & 0xf0u8 == 0,
        steering_of(key_byte(w, a, s, d)) == (Steering { z: axis_rule(w, s), x: axis_rule(a, d) }),
{
    let b = key_byte(w, a, s, d);
    assert((b & 1u8 != 0 <==> w) && (b & 2u8 != 0 <==> s) && (b & 4u8 != 0 <==> a) && (b & 8u8
        != 0 <==> d) && b & 0xf0u8 == 0) by (bit_vector)
        requires
            b == ((if w { 1int } else { 0 }) + (if s { 2int } else { 0 }) + (if a { 4int } else { 0 }) + (if d { 8int } else { 0 })) as u8,
    ;
}

/// The number of player colours, and so of players a game can show.
pub const NUM_PLAYER_COLORS: usize = 4;

/// The colour of a player's cube.
#[derive(Debug, Clone, Copy, PartialEq, Eq, Structural)]
pub enum PlayerColor {
    Blue,
    Orange,
    Magenta,
    Green,
}

/// The colour of the player with handle `handle`, in handle order.
pub open spec fn color_of(handle: int) -> PlayerColor {
    if handle == 0 {
        PlayerColor::Blue
    } else if handle == 1 {
        PlayerColor::Orange
    } else if handle == 2 {
        PlayerColor::Magenta
    } else {
        PlayerColor::Green
    }
}

/// Law: the four players get the four colours, blue, orange, magenta and
/// green in handle order, no two players the same.
pub proof fn lemma_player_colors()
    ensures
        color_of(0) == PlayerColor::Blue,
        color_of(1) == PlayerColor::Orange,
        color_of(2) == PlayerColor::Magenta,
        color_of(3) == PlayerColor::Green,
        forall|h1: int, h2: int|
            0 <= h1 < NUM_PLAYER_COLORS && 0 <= h2 < NUM_PLAYER_COLORS && h1 != h2 ==> color_of(h1)
                != color_of(h2),
{
}

/// The colour of the cube of the player with handle `handle`.
pub fn player_color(handle: usize) -> (c: PlayerColor)
    requires
        handle < NUM_PLAYER_COLORS,
    ensures
        c == color_of(handle as int),
{
    if handle == 0 {
        PlayerColor::Blue
    } else if handle == 1 {
        PlayerColor::Orange
    } else if handle == 2 {
        PlayerColor::Magenta
    } else {
        PlayerColor::Green
    }
}

/// The player that controls a cube.
#[derive(Debug, Clone, Copy, PartialEq, Eq, Structural)]
pub struct Player {
    pub handle: usize,
}

/// A cube to spawn when the game starts.
#[derive(Debug, Clone, Copy, PartialEq, Eq, Structural)]
pub struct PlayerSpawn {
    pub player: Player,
    pub color: PlayerColor,
}

/// The cubes of a session of `num_players` players: one per handle, in handle
/// order, each in its player's colour.
pub fn spawn_players(num_players: usize) -> (spawns: Vec<PlayerSpawn>)
    requires
        num_players <= NUM_PLAYER_COLORS,
    ensures
        spawns@.len() == num_players,
        forall|i: int|
            0 <= i < num_players ==> #[trigger] spawns@[i] == (PlayerSpawn {
                player: Player { handle: i as usize },
                color: color_of(i),
            }),
{
    let mut spawns: Vec<PlayerSpawn> = Vec::new();
    let mut handle: usize = 0;
    while handle < num_players
        invariant
            handle <= num_players <= NUM_PLAYER_COLORS,
            spawns@.len() == handle,
            forall|i: int|
                0 <= i < handle ==> #[trigger] spawns@[i] == (PlayerSpawn {
                    player: Player { handle: i as usize },
                    color: color_of(i),
                }),
        decreases num_players - handle,
    {
        let color = player_color(handle);
        spawns.push(PlayerSpawn { player: Player { handle }, color });
        handle = handle + 1;
    }
    spawns
}

/// A counter of the frames simulated so far.
#[derive(Debug, Clone, Copy, PartialEq, Eq, Structural)]
pub struct FrameCount {
    pub frame: u32,
}

/// Advances the frame counter by one frame.
pub fn increase_frame_system(frame_count: &mut FrameCount)
    requires
        old(frame_count).frame < u32::MAX,
    ensures
        final(frame_count).frame == old(frame_count).frame + 1,
{
    frame_count.frame = frame_count.frame + 1;
}

/// Where a player of the session sits.
#[derive(Debug, Clone, PartialEq, Eq)]
pub enum PlayerKind {
    /// The player at this machine.
    Local,
    /// A player reached at this address.
    Remote(String),
}

/// A player of the session, with the handle by which GGRS knows it.
#[derive(Debug, Clone, PartialEq, Eq)]
pub struct PlayerEntry {
    pub handle: usize,
    pub kind: PlayerKind,
}

/// The kind of the player given on the command line as `addr`: the word
/// `localhost` names the local player, anything else a remote address.
pub open spec fn kind_of(addr: String) -> PlayerKind {
    if addr@ == "localhost"@ {
        PlayerKind::Local
    } else {
        PlayerKind::Remote(addr)
    }
}

/// Law: a player is the local one exactly when it is named `localhost`;
/// every other name is a remote player reached at that very address.
pub proof fn lemma_player_kind(addr: String)
    ensures
        (kind_of(addr) == PlayerKind::Local) <==> addr@ == "localhost"@,
        addr@ != "localhost"@ ==> kind_of(addr) == PlayerKind::Remote(addr),
{
}

/// The kind of one player named on the command line.
pub fn player_kind(addr: &String) -> (kind: PlayerKind)
    ensures
        kind == kind_of(*addr),
{
    let local: String = "localhost".to_owned();
    if *addr == local {
        PlayerKind::Local
    } else {
        PlayerKind::Remote(addr.clone())
    }
}

/// The players of the session, one per name given on the command line, the
/// `i`-th with handle `i`.
pub fn session_players(players: &Vec<String>) -> (entries: Vec<PlayerEntry>)
    ensures
        entries@.len() == players@.len(),
        forall|i: int|
            0 <= i < players@.len() ==> #[trigger] entries@[i] == (PlayerEntry {
                handle: i as usize,
                kind: kind_of(players@[i]),
            }),
{
    let mut entries: Vec<PlayerEntry> = Vec::new();
    let n = players.len();
    let mut i: usize = 0;
    while i < n
        invariant
            n == players@.len(),
            i <= n,
            entries@.len() == i,
            forall|j: int|
                0 <= j < i ==> #[trigger] entries@[j] == (PlayerEntry {
                    handle: j as usize,
                    kind: kind_of(players@[j]),
                }),
        decreases n - i,
    {
        let kind = player_kind(&players[i]);
        entries.push(PlayerEntry { handle: i, kind });
        i = i + 1;
    }
    entries
}

} // verus!
