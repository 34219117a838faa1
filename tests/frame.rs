use motion_core::controller::{InputController, InputEvent, KeyCode};
use motion_core::frame::{advance_frame, on_surface_fault, on_window_event, LoopAction, PlacementUniform, SurfaceFault};
use motion_core::object::{Avatar, Placement};

#[test]
fn escape_and_close_end_the_loop() {
    let esc = InputEvent::Keyboard { key: KeyCode::Escape, pressed: true };
    assert_eq!(on_window_event(false, &esc), LoopAction::Exit);
    assert_eq!(on_window_event(false, &InputEvent::CloseRequested), LoopAction::Exit);
    let esc_up = InputEvent::Keyboard { key: KeyCode::Escape, pressed: false };
    assert_eq!(on_window_event(false, &esc_up), LoopAction::Continue);
    assert_eq!(on_window_event(true, &InputEvent::CloseRequested), LoopAction::Continue);
}

#[test]
fn redraw_draws_a_frame() {
    assert_eq!(on_window_event(false, &InputEvent::RedrawRequested), LoopAction::Redraw);
    assert_eq!(on_window_event(false, &InputEvent::Other), LoopAction::Continue);
}

#[test]
fn escape_is_not_movement_input() {
    let mut c = InputController::new();
    let esc = InputEvent::Keyboard { key: KeyCode::Escape, pressed: true };
    let consumed = c.process(&esc);
    assert_eq!(on_window_event(consumed, &esc), LoopAction::Exit);
}

#[test]
fn surface_faults() {
    assert_eq!(on_surface_fault(SurfaceFault::OutOfMemory), LoopAction::Exit);
    assert_eq!(on_surface_fault(SurfaceFault::Lost), LoopAction::Continue);
    assert_eq!(on_surface_fault(SurfaceFault::Outdated), LoopAction::Continue);
    assert_eq!(on_surface_fault(SurfaceFault::Timeout), LoopAction::Continue);
}

#[test]
fn frame_moves_and_packs() {
    let mut c = InputController::new();
    c.process(&InputEvent::Keyboard { key: KeyCode::KeyD, pressed: true });
    let start = Placement { x: 100, y: 200, z: 300, r: 0, g: 0, b: 0 };
    let mut a = Avatar::new(start, 50);
    let mut u = PlacementUniform::new();
    let pending = advance_frame(&mut c, &mut a, &mut u);
    assert!(pending.is_empty());
    assert_eq!(u.location, [150, 200, 300, 0]);
    assert_eq!(u.position(), (150, 200, 300));
    assert_eq!(u.color, [0, 500, 500, 1000]);
}
