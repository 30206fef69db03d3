//! Keyboard handling: which key does what to the camera, the simulation and
//! the body being placed.
use vstd::prelude::*;
use crate::camera::CameraMovement;

verus! {

/// The keys that the simulation reacts to; every other key is `Other`.
#[derive(Clone, Copy, Debug, PartialEq, Eq, Structural)]
pub enum Key {
    KeyW,
    KeyS,
    KeyA,
    KeyD,
    Space,
    ShiftLeft,
    KeyK,
    KeyQ,
    ArrowUp,
    ArrowDown,
    ArrowLeft,
    ArrowRight,
    Other,
}

/// Whether a key or button went down or came up.
#[derive(Clone, Copy, Debug, PartialEq, Eq, Structural)]
pub enum KeyState {
    Pressed,
    Released,
}

/// A nudge of the body that is being placed, by one movement step.
#[derive(Clone, Copy, Debug, PartialEq, Eq, Structural)]
pub enum ObjectNudge {
    /// Towards positive y.
    Up,
    /// Towards negative y.
    Down,
    /// Towards positive x.
    Right,
    /// Towards negative x.
    Left,
}

/// Whether the simulation is paused and whether the user has asked to quit.
pub struct InputHandler {
    pub pause: bool,
    pub running: bool,
}

/// The camera step that a key event asks for.
pub open spec fn camera_step_for(key: Key, state: KeyState) -> Option<CameraMovement> {
    if state == KeyState::Pressed {
        match key {
            Key::KeyW => Some(CameraMovement::Forward),
            Key::KeyS => Some(CameraMovement::Backward),
            Key::KeyA => Some(CameraMovement::Left),
            Key::KeyD => Some(CameraMovement::Right),
            Key::Space => Some(CameraMovement::Up),
            Key::ShiftLeft => Some(CameraMovement::Down),
            _ => None,
        }
    } else {
        None
    }
}

/// The pause flag after a key event: K held down pauses, K let go resumes.
pub open spec fn pause_after(pause: bool, key: Key, state: KeyState) -> bool {
    if key == Key::KeyK {
        state == KeyState::Pressed
    } else {
        pause
    }
}

/// The running flag after a key event: pressing Q stops.
pub open spec fn running_after(running: bool, key: Key, state: KeyState) -> bool {
    if key == Key::KeyQ && state == KeyState::Pressed {
        false
    } else {
        running
    }
}

/// The nudge that a key event gives to a body, if that body is being placed.
pub open spec fn nudge_for(key: Key, state: KeyState, initializing: bool) -> Option<ObjectNudge> {
    if initializing && state == KeyState::Pressed {
        match key {
            Key::ArrowUp => Some(ObjectNudge::Up),
            Key::ArrowDown => Some(ObjectNudge::Down),
            Key::ArrowRight => Some(ObjectNudge::Right),
            Key::ArrowLeft => Some(ObjectNudge::Left),
            _ => None,
        }
    } else {
        None
    }
}

/// The keys that move the camera.
pub open spec fn is_camera_key(key: Key) -> bool {
    ||| key == Key::KeyW
    ||| key == Key::KeyS
    ||| key == Key::KeyA
    ||| key == Key::KeyD
    ||| key == Key::Space
    ||| key == Key::ShiftLeft
}

/// W, S, A, D, Space and left Shift step the camera forward, backward, left,
/// right, up and down; other keys do not move it.
pub open spec fn camera_key_step(key: Key) -> Option<CameraMovement> {
    if key == Key::KeyW {
        Some(CameraMovement::Forward)
    } else if key == Key::KeyS {
        Some(CameraMovement::Backward)
    } else if key == Key::KeyA {
        Some(CameraMovement::Left)
    } else if key == Key::KeyD {
        Some(CameraMovement::Right)
    } else if key == Key::Space {
        Some(CameraMovement::Up)
    } else if key == Key::ShiftLeft {
        Some(CameraMovement::Down)
    } else {
        None
    }
}

/// The arrow keys nudge up, down, right and left; other keys do not nudge.
pub open spec fn arrow_nudge(key: Key) -> Option<ObjectNudge> {
    if key == Key::ArrowUp {
        Some(ObjectNudge::Up)
    } else if key == Key::ArrowDown {
        Some(ObjectNudge::Down)
    } else if key == Key::ArrowRight {
        Some(ObjectNudge::Right)
    } else if key == Key::ArrowLeft {
        Some(ObjectNudge::Left)
    } else {
        None
    }
}

/// Only K changes the pause flag: every other key event, pressed or
/// released, leaves it as it was; K pressed pauses and K released resumes.
pub proof fn lemma_only_k_pauses(pause: bool, key: Key, state: KeyState)
    ensures
        key != Key::KeyK ==> pause_after(pause, key, state) == pause,
        pause_after(pause, Key::KeyK, KeyState::Pressed),
        !pause_after(pause, Key::KeyK, KeyState::Released),
{
}

/// Only pressing Q stops the simulation, and nothing restarts it.
pub proof fn lemma_only_q_stops(running: bool, key: Key, state: KeyState)
    ensures
        !running_after(running, Key::KeyQ, KeyState::Pressed),
        !(key == Key::KeyQ && state == KeyState::Pressed) ==> running_after(running, key, state) == running,
        !running ==> !running_after(running, key, state),
{
}

/// A released key never moves the camera; a pressed key moves it exactly when
/// it is one of the six camera keys, in that key's direction.
pub proof fn lemma_camera_keys(key: Key, state: KeyState)
    ensures
        camera_step_for(key, KeyState::Released) is None,
        camera_step_for(key, KeyState::Pressed) == camera_key_step(key),
        camera_step_for(key, state) is Some <==> (state == KeyState::Pressed && is_camera_key(key)),
        camera_key_step(Key::KeyW) == Some(CameraMovement::Forward),
        camera_key_step(Key::KeyS) == Some(CameraMovement::Backward),
        camera_key_step(Key::KeyA) == Some(CameraMovement::Left),
        camera_key_step(Key::KeyD) == Some(CameraMovement::Right),
        camera_key_step(Key::Space) == Some(CameraMovement::Up),
        camera_key_step(Key::ShiftLeft) == Some(CameraMovement::Down),
        !is_camera_key(key) ==> camera_key_step(key) is None,
{
}

/// A released key never nudges, a body that is not being placed is never
/// nudged, and for a body being placed a pressed arrow key nudges it in the
/// arrow's direction while other keys do not.
pub proof fn lemma_nudges(key: Key, state: KeyState, initializing: bool)
    ensures
        nudge_for(key, KeyState::Released, initializing) is None,
        nudge_for(key, state, false) is None,
        nudge_for(key, KeyState::Pressed, true) == arrow_nudge(key),
        arrow_nudge(Key::ArrowUp) == Some(ObjectNudge::Up),
        arrow_nudge(Key::ArrowDown) == Some(ObjectNudge::Down),
        arrow_nudge(Key::ArrowRight) == Some(ObjectNudge::Right),
        arrow_nudge(Key::ArrowLeft) == Some(ObjectNudge::Left),
        arrow_nudge(key) is Some ==> (key == Key::ArrowUp || key == Key::ArrowDown || key
            == Key::ArrowRight || key == Key::ArrowLeft),
{
}

impl InputHandler {
    /// A handler that is neither paused nor stopped.
    pub fn new() -> (handler: Self)
        ensures
            !handler.pause,
            handler.running,
    {
        InputHandler { pause: false, running: true }
    }

    /// Reacts to a key event: returns the camera step it asks for, and
    /// updates the pause and running flags.
    pub fn process_keyboard(&mut self, key: Key, state: KeyState) -> (step: Option<CameraMovement>)
        ensures
            step == camera_step_for(key, state),
            final(self).pause == pause_after(old(self).pause, key, state),
            final(self).running == running_after(old(self).running, key, state),
            !old(self).running ==> !final(self).running,
            key != Key::KeyK ==> final(self).pause == old(self).pause,
            key == Key::KeyK ==> final(self).pause == (state == KeyState::Pressed),
            key == Key::KeyQ && state == KeyState::Pressed ==> !final(self).running,
            !(key == Key::KeyQ && state == KeyState::Pressed) ==> final(self).running == old(
                self,
            ).running,
            state == KeyState::Released ==> step is None,
            step is Some ==> is_camera_key(key),
            state == KeyState::Pressed ==> step == camera_key_step(key),
            key == Key::KeyW && state == KeyState::Pressed ==> step == Some(CameraMovement::Forward),
            key == Key::KeyS && state == KeyState::Pressed ==> step == Some(CameraMovement::Backward),
            key == Key::KeyA && state == KeyState::Pressed ==> step == Some(CameraMovement::Left),
            key == Key::KeyD && state == KeyState::Pressed ==> step == Some(CameraMovement::Right),
            key == Key::Space && state == KeyState::Pressed ==> step == Some(CameraMovement::Up),
            key == Key::ShiftLeft && state == KeyState::Pressed ==> step == Some(
                CameraMovement::Down,
            ),
        no_unwind
    {
        let pressed = match state {
            KeyState::Pressed => true,
            KeyState::Released => false,
        };
        match key {
            Key::KeyK => {
                self.pause = pressed;
                None
            },
            Key::KeyQ => {
                if pressed {
                    self.running = false;
                }
                None
            },
            Key::KeyW => if pressed { Some(CameraMovement::Forward) } else { None },
            Key::KeyS => if pressed { Some(CameraMovement::Backward) } else { None },
            Key::KeyA => if pressed { Some(CameraMovement::Left) } else { None },
            Key::KeyD => if pressed { Some(CameraMovement::Right) } else { None },
            Key::Space => if pressed { Some(CameraMovement::Up) } else { None },
            Key::ShiftLeft => if pressed { Some(CameraMovement::Down) } else { None },
            _ => None,
        }
    }

    /// The nudge that a key event gives to the body being placed: arrow keys
    /// move it while it is still `initializing`, and do nothing otherwise.
    pub fn process_object_movement(
        &self,
        key: Key,
        state: KeyState,
        initializing: bool,
        _shift_pressed: bool,
    ) -> (nudge: Option<ObjectNudge>)
        ensures
            nudge == nudge_for(key, state, initializing),
            state == KeyState::Released ==> nudge is None,
            !initializing ==> nudge is None,
            initializing && state == KeyState::Pressed ==> nudge == arrow_nudge(key),
            initializing && state == KeyState::Pressed && key == Key::ArrowUp ==> nudge == Some(
                ObjectNudge::Up,
            ),
            initializing && state == KeyState::Pressed && key == Key::ArrowDown ==> nudge == Some(
                ObjectNudge::Down,
            ),
            initializing && state == KeyState::Pressed && key == Key::ArrowRight ==> nudge == Some(
                ObjectNudge::Right,
            ),
            initializing && state == KeyState::Pressed && key == Key::ArrowLeft ==> nudge == Some(
                ObjectNudge::Left,
            ),
            nudge is Some ==> (key == Key::ArrowUp || key == Key::ArrowDown || key == Key::ArrowRight
                || key == Key::ArrowLeft),
    {
        if !initializing {
            return None;
        }
        let pressed = match state {
            KeyState::Pressed => true,
            KeyState::Released => false,
        };
        if !pressed {
            return None;
        }
        match key {
            Key::ArrowUp => Some(ObjectNudge::Up),
            Key::ArrowDown => Some(ObjectNudge::Down),
            Key::ArrowRight => Some(ObjectNudge::Right),
            Key::ArrowLeft => Some(ObjectNudge::Left),
            _ => None,
        }
    }
}

} // verus!
