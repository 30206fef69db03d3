use rust_gravity_3d::camera::CameraMovement;
use rust_gravity_3d::input::{InputHandler, Key, KeyState, ObjectNudge};

#[test]
fn new_handler_runs_unpaused() {
    let handler = InputHandler::new();
    assert!(!handler.pause);
    assert!(handler.running);
}

#[test]
fn movement_keys_step_the_camera_when_pressed() {
    let mut handler = InputHandler::new();
    let cases = [
        (Key::KeyW, CameraMovement::Forward),
        (Key::KeyS, CameraMovement::Backward),
        (Key::KeyA, CameraMovement::Left),
        (Key::KeyD, CameraMovement::Right),
        (Key::Space, CameraMovement::Up),
        (Key::ShiftLeft, CameraMovement::Down),
    ];
    for (key, movement) in cases {
        assert_eq!(handler.process_keyboard(key, KeyState::Pressed), Some(movement));
        assert_eq!(handler.process_keyboard(key, KeyState::Released), None);
    }
    assert!(!handler.pause);
    assert!(handler.running);
}

#[test]
fn holding_k_pauses_and_letting_go_resumes() {
    let mut handler = InputHandler::new();
    assert_eq!(handler.process_keyboard(Key::KeyK, KeyState::Pressed), None);
    assert!(handler.pause);
    assert_eq!(handler.process_keyboard(Key::KeyW, KeyState::Pressed), Some(CameraMovement::Forward));
    assert!(handler.pause);
    assert_eq!(handler.process_keyboard(Key::KeyK, KeyState::Released), None);
    assert!(!handler.pause);
}

#[test]
fn pressing_q_stops_for_good() {
    let mut handler = InputHandler::new();
    assert_eq!(handler.process_keyboard(Key::KeyQ, KeyState::Released), None);
    assert!(handler.running);
    assert_eq!(handler.process_keyboard(Key::KeyQ, KeyState::Pressed), None);
    assert!(!handler.running);
    handler.process_keyboard(Key::KeyK, KeyState::Pressed);
    handler.process_keyboard(Key::KeyQ, KeyState::Released);
    handler.process_keyboard(Key::Other, KeyState::Pressed);
    assert!(!handler.running);
}

#[test]
fn other_keys_do_nothing() {
    let mut handler = InputHandler::new();
    assert_eq!(handler.process_keyboard(Key::Other, KeyState::Pressed), None);
    assert_eq!(handler.process_keyboard(Key::ArrowUp, KeyState::Pressed), None);
    assert!(!handler.pause);
    assert!(handler.running);
}

#[test]
fn arrows_nudge_only_a_body_being_placed() {
    let handler = InputHandler::new();
    assert_eq!(handler.process_object_movement(Key::ArrowUp, KeyState::Pressed, true, false), Some(ObjectNudge::Up));
    assert_eq!(handler.process_object_movement(Key::ArrowDown, KeyState::Pressed, true, false), Some(ObjectNudge::Down));
    assert_eq!(handler.process_object_movement(Key::ArrowRight, KeyState::Pressed, true, true), Some(ObjectNudge::Right));
    assert_eq!(handler.process_object_movement(Key::ArrowLeft, KeyState::Pressed, true, false), Some(ObjectNudge::Left));
    assert_eq!(handler.process_object_movement(Key::ArrowLeft, KeyState::Released, true, false), None);
    assert_eq!(handler.process_object_movement(Key::ArrowUp, KeyState::Pressed, false, false), None);
    assert_eq!(handler.process_object_movement(Key::KeyW, KeyState::Pressed, true, false), None);
}
