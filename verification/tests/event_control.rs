use rust_gravity_3d::camera::CameraMovement;
use rust_gravity_3d::control::{BodyStatus, Command, Controller, ScrollDirection, WindowInput};
use rust_gravity_3d::input::{Key, KeyState, ObjectNudge};

fn fresh() -> BodyStatus {
    BodyStatus { initializing: false, launched: false }
}

#[test]
fn controller_starts_with_fresh_bodies() {
    let controller = Controller::new(2);
    assert_eq!(controller.body_count(), 2);
    assert_eq!(controller.body_status(0), fresh());
    assert_eq!(controller.body_status(1), fresh());
    assert!(!controller.is_paused());
    assert!(controller.is_running());
}

#[test]
fn close_request_exits() {
    let mut controller = Controller::new(2);
    assert_eq!(controller.handle(WindowInput::CloseRequested), vec![Command::Exit]);
    assert_eq!(controller.body_count(), 2);
}

#[test]
fn resize_only_to_a_nonempty_size() {
    let mut controller = Controller::new(0);
    assert_eq!(
        controller.handle(WindowInput::Resized { width: 1024, height: 768 }),
        vec![Command::ResizeSurface { width: 1024, height: 768 }]
    );
    assert_eq!(controller.handle(WindowInput::Resized { width: 0, height: 768 }), vec![]);
    assert_eq!(controller.handle(WindowInput::Resized { width: 1024, height: 0 }), vec![]);
}

#[test]
fn placing_and_launching_a_body() {
    let mut controller = Controller::new(2);
    assert_eq!(
        controller.handle(WindowInput::MouseButton { left: true, state: KeyState::Pressed }),
        vec![Command::SpawnBody]
    );
    assert_eq!(controller.body_count(), 3);
    assert_eq!(controller.body_status(2), BodyStatus { initializing: true, launched: false });
    assert_eq!(controller.body_status(1), fresh());

    assert_eq!(
        controller.handle(WindowInput::Keyboard { key: Key::ArrowRight, state: KeyState::Pressed }),
        vec![Command::NudgeLastBody(ObjectNudge::Right)]
    );
    assert_eq!(
        controller.handle(WindowInput::Keyboard { key: Key::ArrowRight, state: KeyState::Released }),
        vec![]
    );

    assert_eq!(controller.handle(WindowInput::MouseButton { left: true, state: KeyState::Released }), vec![]);
    assert_eq!(controller.body_count(), 3);
    assert_eq!(controller.body_status(2), BodyStatus { initializing: false, launched: true });

    // Once launched, the arrows leave the body alone.
    assert_eq!(
        controller.handle(WindowInput::Keyboard { key: Key::ArrowUp, state: KeyState::Pressed }),
        vec![]
    );
}

#[test]
fn other_buttons_do_nothing() {
    let mut controller = Controller::new(1);
    assert_eq!(controller.handle(WindowInput::MouseButton { left: false, state: KeyState::Pressed }), vec![]);
    assert_eq!(controller.handle(WindowInput::MouseButton { left: false, state: KeyState::Released }), vec![]);
    assert_eq!(controller.body_count(), 1);
    assert_eq!(controller.body_status(0), fresh());
}

#[test]
fn releasing_with_no_body_changes_nothing() {
    let mut controller = Controller::new(0);
    assert_eq!(controller.handle(WindowInput::MouseButton { left: true, state: KeyState::Released }), vec![]);
    assert_eq!(controller.body_count(), 0);
    assert_eq!(
        controller.handle(WindowInput::Keyboard { key: Key::ArrowUp, state: KeyState::Pressed }),
        vec![]
    );
}

#[test]
fn releasing_launches_the_last_body_even_unplaced() {
    let mut controller = Controller::new(2);
    controller.handle(WindowInput::MouseButton { left: true, state: KeyState::Released });
    assert_eq!(controller.body_status(1), BodyStatus { initializing: false, launched: true });
    assert_eq!(controller.body_status(0), fresh());
}

#[test]
fn keys_move_camera_and_pause() {
    let mut controller = Controller::new(2);
    assert_eq!(
        controller.handle(WindowInput::Keyboard { key: Key::KeyW, state: KeyState::Pressed }),
        vec![Command::MoveCamera(CameraMovement::Forward)]
    );
    assert_eq!(controller.handle(WindowInput::Keyboard { key: Key::KeyK, state: KeyState::Pressed }), vec![]);
    assert!(controller.is_paused());
    controller.handle(WindowInput::Keyboard { key: Key::KeyK, state: KeyState::Released });
    assert!(!controller.is_paused());
    controller.handle(WindowInput::Keyboard { key: Key::KeyQ, state: KeyState::Pressed });
    assert!(!controller.is_running());
}

#[test]
fn wheel_moves_camera_along_its_sight() {
    let mut controller = Controller::new(2);
    assert_eq!(
        controller.handle(WindowInput::Scroll { direction: ScrollDirection::Away }),
        vec![Command::ScrollCamera(CameraMovement::Forward)]
    );
    assert_eq!(
        controller.handle(WindowInput::Scroll { direction: ScrollDirection::Towards }),
        vec![Command::ScrollCamera(CameraMovement::Backward)]
    );
    assert_eq!(controller.handle(WindowInput::Scroll { direction: ScrollDirection::Still }), vec![]);
}

#[test]
fn no_body_is_placed_and_launched_at_once() {
    let mut controller = Controller::new(1);
    let inputs = [
        WindowInput::MouseButton { left: true, state: KeyState::Pressed },
        WindowInput::MouseButton { left: true, state: KeyState::Released },
        WindowInput::MouseButton { left: true, state: KeyState::Pressed },
        WindowInput::MouseButton { left: true, state: KeyState::Pressed },
        WindowInput::MouseButton { left: true, state: KeyState::Released },
        WindowInput::MouseButton { left: true, state: KeyState::Released },
    ];
    for input in inputs {
        controller.handle(input);
        for i in 0..controller.body_count() {
            let s = controller.body_status(i);
            assert!(!(s.initializing && s.launched));
        }
    }
    assert_eq!(controller.body_count(), 4);
    assert_eq!(controller.body_status(1), BodyStatus { initializing: false, launched: true });
    assert_eq!(controller.body_status(2), BodyStatus { initializing: true, launched: false });
    assert_eq!(controller.body_status(3), BodyStatus { initializing: false, launched: true });
}
