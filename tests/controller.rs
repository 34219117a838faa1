use motion_core::controller::{Command, InputController, InputEvent, KeyCode};
use motion_core::object::{Avatar, MeshError, MeshHandles, Object, Placement};

fn origin() -> Placement {
    Placement { x: 0, y: 0, z: 0, r: 0, g: 0, b: 0 }
}

fn key(k: KeyCode, pressed: bool) -> InputEvent {
    InputEvent::Keyboard { key: k, pressed }
}

fn all_commands() -> [Command; 6] {
    [
        Command::Up,
        Command::Down,
        Command::Left,
        Command::Right,
        Command::RightRotate,
        Command::LeftRotate,
    ]
}

#[test]
fn new_controller_holds_nothing() {
    let c = InputController::new();
    for cmd in all_commands() {
        assert!(!c.is_held(cmd));
    }
    assert_eq!(c.binding(KeyCode::KeyW), Some(Command::Up));
    assert_eq!(c.binding(KeyCode::KeyS), Some(Command::Down));
    assert_eq!(c.binding(KeyCode::KeyA), Some(Command::Left));
    assert_eq!(c.binding(KeyCode::KeyD), Some(Command::Right));
    assert_eq!(c.binding(KeyCode::Escape), None);
}

#[test]
fn unbound_keys_change_nothing() {
    let mut c = InputController::new();
    c.process(&key(KeyCode::KeyD, true));
    for k in [KeyCode::Escape, KeyCode::ArrowUp, KeyCode::Other(42)] {
        assert!(!c.process(&key(k, true)));
        assert!(!c.process(&key(k, false)));
        for cmd in all_commands() {
            assert_eq!(c.is_held(cmd), cmd == Command::Right);
        }
    }
    assert!(!c.process(&InputEvent::Other));
    assert!(!c.process(&InputEvent::RedrawRequested));
    assert!(c.is_held(Command::Right));
}

#[test]
fn press_then_release_restores_state() {
    let mut c = InputController::new();
    assert!(c.process(&key(KeyCode::KeyA, true)));
    assert!(c.is_held(Command::Left));
    assert!(c.process(&key(KeyCode::KeyA, true)));
    assert!(c.is_held(Command::Left));
    assert!(!c.process(&key(KeyCode::KeyA, false)));
    for cmd in all_commands() {
        assert!(!c.is_held(cmd));
    }
}

#[test]
fn wasd_scenario_moves_up_once() {
    let mut c = InputController::new();
    let mut a = Avatar::new(origin(), 10);
    assert!(c.process(&key(KeyCode::KeyW, true)));
    assert!(c.is_held(Command::Up));
    let pending = c.update(&mut a);
    assert!(pending.is_empty());
    assert_eq!((a.placement().x, a.placement().y), (0, 10));
    assert!(!c.process(&key(KeyCode::KeyW, false)));
    assert!(!c.is_held(Command::Up));
    let pending = c.update(&mut a);
    assert!(pending.is_empty());
    assert_eq!((a.placement().x, a.placement().y), (0, 10));
}

#[test]
fn orthogonal_commands_add_up() {
    let mut up_only = InputController::new();
    up_only.process(&key(KeyCode::KeyW, true));
    let mut left_only = InputController::new();
    left_only.process(&key(KeyCode::KeyA, true));
    let mut both = InputController::new();
    both.process(&key(KeyCode::KeyW, true));
    both.process(&key(KeyCode::KeyA, true));
    let start = Placement { x: 5, y: -7, z: 3, r: 1, g: 2, b: 3 };
    let mut a = Avatar::new(start, 4);
    let mut b = Avatar::new(start, 4);
    let mut c = Avatar::new(start, 4);
    up_only.update(&mut a);
    left_only.update(&mut b);
    both.update(&mut c);
    assert_eq!(c.placement.x - 5, (a.placement.x - 5) + (b.placement.x - 5));
    assert_eq!(c.placement.y + 7, (a.placement.y + 7) + (b.placement.y + 7));
    assert_eq!((c.placement.x, c.placement.y, c.placement.z), (1, -3, 3));
}

#[test]
fn opposite_commands_cancel() {
    let mut c = InputController::new();
    c.process(&key(KeyCode::KeyW, true));
    c.process(&key(KeyCode::KeyS, true));
    let mut a = Avatar::new(origin(), 3);
    c.update(&mut a);
    assert_eq!((a.placement.x, a.placement.y), (0, 0));
}

#[test]
fn rotation_is_reported_unsupported() {
    let binds = vec![
        (KeyCode::KeyW, Command::Up),
        (KeyCode::Other(81), Command::LeftRotate),
        (KeyCode::Other(69), Command::RightRotate),
        (KeyCode::KeyW, Command::Down),
    ];
    let mut c = InputController::with_bindings(binds);
    assert_eq!(c.binding(KeyCode::KeyW), Some(Command::Up));
    assert!(c.process(&key(KeyCode::Other(81), true)));
    assert!(c.process(&key(KeyCode::Other(69), true)));
    assert!(c.process(&key(KeyCode::KeyW, true)));
    let mut a = Avatar::new(origin(), 2);
    let pending = c.update(&mut a);
    assert_eq!(pending, vec![Command::RightRotate, Command::LeftRotate]);
    assert_eq!((a.placement.x, a.placement.y), (0, 2));
}

#[test]
fn avatar_stops_at_range_end() {
    let start = Placement { x: i64::MIN + 1, y: i64::MAX - 1, z: 0, r: 0, g: 0, b: 0 };
    let mut a = Avatar::new(start, 5);
    a.move_up();
    a.move_left();
    assert_eq!((a.placement.x, a.placement.y), (i64::MIN, i64::MAX));
    a.move_down();
    a.move_right();
    assert_eq!((a.placement.x, a.placement.y), (i64::MIN + 5, i64::MAX - 5));
}

#[test]
fn held_flag_follows_last_event_of_its_keys() {
    let binds = vec![
        (KeyCode::KeyW, Command::Up),
        (KeyCode::ArrowUp, Command::Up),
        (KeyCode::KeyA, Command::Left),
    ];
    let mut c = InputController::with_bindings(binds);
    c.process(&key(KeyCode::KeyW, true));
    c.process(&key(KeyCode::KeyA, true));
    assert!(c.is_held(Command::Up) && c.is_held(Command::Left));
    c.process(&key(KeyCode::ArrowUp, false));
    assert!(!c.is_held(Command::Up));
    c.process(&key(KeyCode::Escape, true));
    c.process(&key(KeyCode::KeyA, false));
    c.process(&key(KeyCode::ArrowUp, true));
    assert!(c.is_held(Command::Up));
    assert!(!c.is_held(Command::Left));
    assert!(!c.is_held(Command::Down));
}

#[test]
fn mesh_before_init_is_an_error() {
    let mut a = Avatar::new(origin(), 1);
    assert_eq!(a.mesh(), Err(MeshError::Uninitialized));
    let h = MeshHandles { vertex_buffer: 7, index_buffer: 8, num_indices: 3 };
    a.init(h);
    assert_eq!(a.mesh(), Ok(h));
    assert_eq!(*a.placement(), origin());
}
