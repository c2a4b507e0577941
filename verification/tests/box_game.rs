use ggrs_kad::box_game::{
    axis_control, increase_frame_system, input, player_color, player_kind, session_players,
    spawn_players, steering, AxisControl, BoxInput, FrameCount, Player, PlayerColor, PlayerKind,
    PlayerSpawn, Steering, INPUT_DOWN, INPUT_LEFT, INPUT_RIGHT, INPUT_UP,
};

#[test]
fn input_bits() {
    assert_eq!(input(false, false, false, false), BoxInput { inp: 0 });
    assert_eq!(input(true, false, false, false), BoxInput { inp: INPUT_UP });
    assert_eq!(input(false, true, false, false), BoxInput { inp: INPUT_LEFT });
    assert_eq!(input(false, false, true, false), BoxInput { inp: INPUT_DOWN });
    assert_eq!(input(false, false, false, true), BoxInput { inp: INPUT_RIGHT });
    assert_eq!(input(true, true, true, true), BoxInput { inp: 15 });
    assert_eq!(input(true, false, false, true), BoxInput { inp: 9 });
}

#[test]
fn axis_rules() {
    assert_eq!(axis_control(true, false), AxisControl::Decrease);
    assert_eq!(axis_control(false, true), AxisControl::Increase);
    assert_eq!(axis_control(false, false), AxisControl::Damp);
    assert_eq!(axis_control(true, true), AxisControl::Hold);
}

#[test]
fn keys_steer_the_cube() {
    assert_eq!(
        steering(input(true, false, false, true)),
        Steering { z: AxisControl::Decrease, x: AxisControl::Increase }
    );
    assert_eq!(
        steering(input(false, true, true, false)),
        Steering { z: AxisControl::Increase, x: AxisControl::Decrease }
    );
    assert_eq!(
        steering(input(true, true, true, true)),
        Steering { z: AxisControl::Hold, x: AxisControl::Hold }
    );
    assert_eq!(
        steering(input(false, false, false, false)),
        Steering { z: AxisControl::Damp, x: AxisControl::Damp }
    );
}

#[test]
fn steering_ignores_other_bits() {
    assert_eq!(
        steering(BoxInput { inp: 0xf0 | INPUT_LEFT }),
        Steering { z: AxisControl::Damp, x: AxisControl::Decrease }
    );
}

#[test]
fn colors_in_handle_order() {
    assert_eq!(player_color(0), PlayerColor::Blue);
    assert_eq!(player_color(1), PlayerColor::Orange);
    assert_eq!(player_color(2), PlayerColor::Magenta);
    assert_eq!(player_color(3), PlayerColor::Green);
}

#[test]
fn spawns_one_cube_per_player() {
    assert_eq!(spawn_players(0), vec![]);
    assert_eq!(
        spawn_players(2),
        vec![
            PlayerSpawn { player: Player { handle: 0 }, color: PlayerColor::Blue },
            PlayerSpawn { player: Player { handle: 1 }, color: PlayerColor::Orange },
        ]
    );
    assert_eq!(spawn_players(4).len(), 4);
    assert_eq!(spawn_players(4)[3].color, PlayerColor::Green);
}

#[test]
fn frame_counter_advances() {
    let mut f = FrameCount { frame: 0 };
    increase_frame_system(&mut f);
    increase_frame_system(&mut f);
    assert_eq!(f.frame, 2);
    let mut g = FrameCount { frame: u32::MAX - 1 };
    increase_frame_system(&mut g);
    assert_eq!(g.frame, u32::MAX);
}

#[test]
fn players_from_command_line() {
    assert_eq!(player_kind(&"localhost".to_string()), PlayerKind::Local);
    assert_eq!(
        player_kind(&"127.0.0.1:7000".to_string()),
        PlayerKind::Remote("127.0.0.1:7000".to_string())
    );
    assert_eq!(player_kind(&"LOCALHOST".to_string()), PlayerKind::Remote("LOCALHOST".to_string()));
    let entries = session_players(&vec!["127.0.0.1:7001".to_string(), "localhost".to_string()]);
    assert_eq!(entries.len(), 2);
    assert_eq!(entries[0].handle, 0);
    assert_eq!(entries[0].kind, PlayerKind::Remote("127.0.0.1:7001".to_string()));
    assert_eq!(entries[1].handle, 1);
    assert_eq!(entries[1].kind, PlayerKind::Local);
    assert!(session_players(&vec![]).is_empty());
}
