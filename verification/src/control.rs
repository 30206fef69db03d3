//! The decisions of the window's event loop.
//!
//! The event loop hands every window event it cares about to a [`Controller`]
//! as a [`WindowInput`]; the controller updates its state (the pause and quit
//! flags, and the placement status of every body) and answers with the
//! [`Command`]s that the loop has to carry out on the camera, the bodies and
//! the drawing surface.
use vstd::prelude::*;
use crate::camera::CameraMovement;
use crate::input::{
    arrow_nudge,
    camera_key_step,
    is_camera_key,
    lemma_camera_keys,
    lemma_nudges,
    camera_step_for,
    nudge_for,
    pause_after,
    running_after,
    InputHandler,
    Key,
    KeyState,
    ObjectNudge,
};

verus! {

/// Where a body stands in its life: being placed with the mouse held down,
/// and whether it has been let go.
#[derive(Clone, Copy, Debug, PartialEq, Eq, Structural)]
pub struct BodyStatus {
    pub initializing: bool,
    pub launched: bool,
}

/// Which way the mouse wheel turned.
#[derive(Clone, Copy, Debug, PartialEq, Eq, Structural)]
pub enum ScrollDirection {
    /// Away from the user: the camera moves forward.
    Away,
    /// Towards the user: the camera moves backward.
    Towards,
    /// No vertical turn at all.
    Still,
}

/// A window event, as far as the simulation reacts to it.
#[derive(Clone, Copy, Debug, PartialEq, Eq, Structural)]
pub enum WindowInput {
    CloseRequested,
    Resized { width: u32, height: u32 },
    Keyboard { key: Key, state: KeyState },
    MouseButton { left: bool, state: KeyState },
    Scroll { direction: ScrollDirection },
}

/// Work that the event loop has to carry out.
#[derive(Clone, Copy, Debug, PartialEq, Eq, Structural)]
pub enum Command {
    /// Leave the event loop.
    Exit,
    /// Resize the drawing surface and the viewport.
    ResizeSurface { width: u32, height: u32 },
    /// Move the camera by one keyboard step.
    MoveCamera(CameraMovement),
    /// Move the camera by one wheel step, which grows with the frame time.
    ScrollCamera(CameraMovement),
    /// Nudge the last body, the one being placed.
    NudgeLastBody(ObjectNudge),
    /// Add a new body at the origin, at rest; it is being placed.
    SpawnBody,
}

/// The abstract state of a controller.
pub struct ControlState {
    pub pause: bool,
    pub running: bool,
    pub bodies: Seq<BodyStatus>,
}

/// The status of a body that has just been made: neither being placed nor launched.
pub open spec fn fresh_status() -> BodyStatus {
    BodyStatus { initializing: false, launched: false }
}

/// No body is being placed and launched at once.
pub open spec fn statuses_consistent(bodies: Seq<BodyStatus>) -> bool {
    forall|i: int| 0 <= i < bodies.len() ==> !(#[trigger] bodies[i]).initializing || !bodies[i].launched
}

/// The camera command of a key event, if any.
pub open spec fn key_camera_commands(key: Key, state: KeyState) -> Seq<Command> {
    match camera_step_for(key, state) {
        Some(m) => seq![Command::MoveCamera(m)],
        None => Seq::empty(),
    }
}

/// The nudge command of a key event, if any: only the last body, and only
/// while it is being placed, is nudged.
pub open spec fn key_nudge_commands(bodies: Seq<BodyStatus>, key: Key, state: KeyState) -> Seq<Command> {
    if bodies.len() == 0 {
        Seq::empty()
    } else {
        match nudge_for(key, state, bodies.last().initializing) {
            Some(n) => seq![Command::NudgeLastBody(n)],
            None => Seq::empty(),
        }
    }
}

/// The commands that answer an input in a given state.
pub open spec fn commands_for(s: ControlState, input: WindowInput) -> Seq<Command> {
    match input {
        WindowInput::CloseRequested => seq![Command::Exit],
        WindowInput::Resized { width, height } => if width > 0 && height > 0 {
            seq![Command::ResizeSurface { width, height }]
        } else {
            Seq::empty()
        },
        WindowInput::Keyboard { key, state } => key_camera_commands(key, state) + key_nudge_commands(
            s.bodies,
            key,
            state,
        ),
        WindowInput::MouseButton { left, state } => if left && state == KeyState::Pressed {
            seq![Command::SpawnBody]
        } else {
            Seq::empty()
        },
        WindowInput::Scroll { direction } => match direction {
            ScrollDirection::Away => seq![Command::ScrollCamera(CameraMovement::Forward)],
            ScrollDirection::Towards => seq![Command::ScrollCamera(CameraMovement::Backward)],
            ScrollDirection::Still => Seq::empty(),
        },
    }
}

/// The state after an input.
pub open spec fn state_after(s: ControlState, input: WindowInput) -> ControlState {
    match input {
        WindowInput::Keyboard { key, state } => ControlState {
            pause: pause_after(s.pause, key, state),
            running: running_after(s.running, key, state),
            bodies: s.bodies,
        },
        WindowInput::MouseButton { left, state } => if left && state == KeyState::Pressed {
            ControlState {
                bodies: s.bodies.push(BodyStatus { initializing: true, launched: false }),
                ..s
            }
        } else if left && s.bodies.len() > 0 {
            ControlState {
                bodies: s.bodies.update(
                    s.bodies.len() - 1,
                    BodyStatus { initializing: false, launched: true },
                ),
                ..s
            }
        } else {
            s
        },
        _ => s,
    }
}

/// The decision maker of the event loop.
pub struct Controller {
    input: InputHandler,
    bodies: Vec<BodyStatus>,
}

impl View for Controller {
    type V = ControlState;

    closed spec fn view(&self) -> ControlState {
        ControlState { pause: self.input.pause, running: self.input.running, bodies: self.bodies@ }
    }
}

impl Controller {
    #[verifier::type_invariant]
    spec fn consistent(self) -> bool {
        statuses_consistent(self.bodies@)
    }

    /// A controller for a scene that starts with `body_count` bodies, none of
    /// them being placed; the simulation runs and is not paused.
    pub fn new(body_count: usize) -> (controller: Self)
        ensures
            !controller@.pause,
            controller@.running,
            controller@.bodies == Seq::new(body_count as nat, |i: int| fresh_status()),
            controller@.bodies.len() == body_count,
            forall|i: int|
                0 <= i < body_count ==> !(#[trigger] controller@.bodies[i]).initializing
                    && !controller@.bodies[i].launched,
    {
        let mut bodies: Vec<BodyStatus> = Vec::new();
        let mut i: usize = 0;
        while i < body_count
            invariant
                i <= body_count,
                bodies@ == Seq::new(i as nat, |k: int| fresh_status()),
            decreases body_count - i,
        {
            bodies.push(BodyStatus { initializing: false, launched: false });
            i = i + 1;
        }
        Controller { input: InputHandler::new(), bodies }
    }

    /// Whether the simulation is paused.
    pub fn is_paused(&self) -> (paused: bool)
        ensures
            paused == self@.pause,
    {
        self.input.pause
    }

    /// Whether the simulation is still meant to run.
    pub fn is_running(&self) -> (running: bool)
        ensures
            running == self@.running,
    {
        self.input.running
    }

    /// Number of bodies in the scene.
    pub fn body_count(&self) -> (count: usize)
        ensures
            count == self@.bodies.len(),
    {
        self.bodies.len()
    }

    /// The status of body `index`.
    pub fn body_status(&self, index: usize) -> (status: BodyStatus)
        requires
            index < self@.bodies.len(),
        ensures
            status == self@.bodies[index as int],
    {
        self.bodies[index]
    }

    /// Reacts to one input: updates the state and returns the work to do.
    ///
    /// No body is ever being placed and launched at once; bodies are never
    /// removed; a launched body stays launched.
    pub fn handle(&mut self, input: WindowInput) -> (commands: Vec<Command>)
        ensures
            commands@ == commands_for(old(self)@, input),
            final(self)@ == state_after(old(self)@, input),
            statuses_consistent(final(self)@.bodies),
            old(self)@.bodies.len() <= final(self)@.bodies.len(),
            forall|i: int|
                0 <= i < old(self)@.bodies.len() && (#[trigger] old(self)@.bodies[i]).launched
                    ==> final(self)@.bodies[i].launched,
            forall|k: int|
                0 <= k < commands@.len() && (#[trigger] commands@[k]) is NudgeLastBody ==> {
                    &&& old(self)@.bodies.len() > 0
                    &&& old(self)@.bodies.last().initializing
                },
    {
        proof {
            use_type_invariant(&*self);
        }
        let mut commands: Vec<Command> = Vec::new();
        match input {
            WindowInput::CloseRequested => {
                commands.push(Command::Exit);
            },
            WindowInput::Resized { width, height } => {
                if width > 0 && height > 0 {
                    commands.push(Command::ResizeSurface { width, height });
                }
            },
            WindowInput::Keyboard { key, state } => {
                let step = self.input.process_keyboard(key, state);
                if let Some(m) = step {
                    commands.push(Command::MoveCamera(m));
                }
                let n = self.bodies.len();
                if n > 0 {
                    let last = self.bodies[n - 1];
                    let nudge = self.input.process_object_movement(key, state, last.initializing, false);
                    if let Some(d) = nudge {
                        commands.push(Command::NudgeLastBody(d));
                    }
                }
            },
            WindowInput::MouseButton { left, state } => {
                let pressed = match state {
                    KeyState::Pressed => true,
                    KeyState::Released => false,
                };
                if left {
                    let mut bodies: Vec<BodyStatus> = Vec::new();
                    std::mem::swap(&mut bodies, &mut self.bodies);
                    if pressed {
                        bodies.push(BodyStatus { initializing: true, launched: false });
                        commands.push(Command::SpawnBody);
                    } else {
                        let n = bodies.len();
                        if n > 0 {
                            bodies.set(n - 1, BodyStatus { initializing: false, launched: true });
                        }
                    }
                    self.bodies = bodies;
                }
            },
            WindowInput::Scroll { direction } => {
                match direction {
                    ScrollDirection::Away => {
                        commands.push(Command::ScrollCamera(CameraMovement::Forward));
                    },
                    ScrollDirection::Towards => {
                        commands.push(Command::ScrollCamera(CameraMovement::Backward));
                    },
                    ScrollDirection::Still => {},
                }
            },
        }
        proof {
            use_type_invariant(&*self);
            lemma_nudge_only_while_placing(old(self)@, input);
        }
        commands
    }
}

/// Only the body being placed is ever nudged: whatever the input, a
/// `NudgeLastBody` answer comes only from a pressed arrow key while the last
/// body of the scene is being placed, and it nudges in that arrow's direction.
pub proof fn lemma_nudge_only_while_placing(s: ControlState, input: WindowInput)
    ensures
        forall|k: int|
            0 <= k < commands_for(s, input).len() ==> (#[trigger] commands_for(s, input)[k] matches Command::NudgeLastBody(n) ==> {
                &&& s.bodies.len() > 0
                &&& s.bodies.last().initializing
                &&& input matches WindowInput::Keyboard { key, state }
                &&& state == KeyState::Pressed
                &&& arrow_nudge(key) == Some(n)
            }),
{
    if let WindowInput::Keyboard { key, state } = input {
        lemma_camera_keys(key, state);
        if s.bodies.len() > 0 {
            lemma_nudges(key, state, s.bodies.last().initializing);
        }
    }
}

/// A key event answers first with the camera step of a pressed camera key,
/// then with the nudge of a pressed arrow key if the last body is being
/// placed, and nothing else. It leaves the bodies alone, sets the pause flag
/// only for K (pressed pauses, released resumes) and clears the running flag
/// only for a pressed Q.
pub proof fn lemma_keyboard_input(s: ControlState, key: Key, state: KeyState)
    ensures
        ({
            let cmds = commands_for(s, WindowInput::Keyboard { key, state });
            let after = state_after(s, WindowInput::Keyboard { key, state });
            let moves = state == KeyState::Pressed && is_camera_key(key);
            let nudges = state == KeyState::Pressed && s.bodies.len() > 0 && s.bodies.last().initializing
                && arrow_nudge(key) is Some;
            &&& cmds.len() == (if moves { 1int } else { 0 }) + (if nudges { 1int } else { 0 })
            &&& moves ==> (camera_key_step(key) matches Some(m) && cmds[0] == Command::MoveCamera(m))
            &&& nudges ==> (arrow_nudge(key) matches Some(n) && cmds[cmds.len() - 1]
                == Command::NudgeLastBody(n))
            &&& after.bodies == s.bodies
            &&& after.pause == (if key == Key::KeyK { state == KeyState::Pressed } else { s.pause })
            &&& after.running == (s.running && !(key == Key::KeyQ && state == KeyState::Pressed))
        }),
{
    lemma_camera_keys(key, state);
    if s.bodies.len() > 0 {
        lemma_nudges(key, state, s.bodies.last().initializing);
    }
}

/// A left press adds one body, being placed, after the others and answers
/// with a spawn; a left release launches the last body (if any) and changes
/// no other; other buttons change nothing. Mouse buttons never touch the
/// pause or running flags, and only a left press answers with anything.
pub proof fn lemma_mouse_input(s: ControlState, left: bool, state: KeyState)
    ensures
        ({
            let cmds = commands_for(s, WindowInput::MouseButton { left, state });
            let after = state_after(s, WindowInput::MouseButton { left, state });
            &&& after.pause == s.pause
            &&& after.running == s.running
            &&& left && state == KeyState::Pressed ==> {
                &&& cmds == seq![Command::SpawnBody]
                &&& after.bodies.len() == s.bodies.len() + 1
                &&& after.bodies.last() == BodyStatus { initializing: true, launched: false }
                &&& forall|i: int| 0 <= i < s.bodies.len() ==> #[trigger] after.bodies[i] == s.bodies[i]
            }
            &&& !(left && state == KeyState::Pressed) ==> cmds.len() == 0
            &&& left && state == KeyState::Released && s.bodies.len() > 0 ==> {
                &&& after.bodies.len() == s.bodies.len()
                &&& after.bodies.last() == BodyStatus { initializing: false, launched: true }
                &&& forall|i: int| 0 <= i < s.bodies.len() - 1 ==> #[trigger] after.bodies[i] == s.bodies[i]
            }
            &&& (!left || (state == KeyState::Released && s.bodies.len() == 0)) ==> after.bodies == s.bodies
        }),
{
    let after = state_after(s, WindowInput::MouseButton { left, state });
    if left && state == KeyState::Pressed {
        assert(after.bodies == s.bodies.push(BodyStatus { initializing: true, launched: false }));
        assert forall|i: int| 0 <= i < s.bodies.len() implies #[trigger] after.bodies[i] == s.bodies[i] by {}
    } else if left && s.bodies.len() > 0 {
        let last = BodyStatus { initializing: false, launched: true };
        assert(after.bodies == s.bodies.update(s.bodies.len() - 1, last));
        assert(after.bodies.last() == last);
        assert forall|i: int| 0 <= i < s.bodies.len() - 1 implies #[trigger] after.bodies[i] == s.bodies[i] by {}
    }
}

/// Closing asks to exit; a resize to a size with no zero side resizes the
/// surface to it, any other resize is ignored; the wheel moves the camera
/// forward when turned away, backward when turned towards the user, not at
/// all otherwise. None of these changes the state.
pub proof fn lemma_window_input(s: ControlState, width: u32, height: u32, direction: ScrollDirection)
    ensures
        commands_for(s, WindowInput::CloseRequested) == seq![Command::Exit],
        state_after(s, WindowInput::CloseRequested) == s,
        width > 0 && height > 0 ==> commands_for(s, WindowInput::Resized { width, height }) == seq![
            Command::ResizeSurface { width, height },
        ],
        width == 0 || height == 0 ==> commands_for(s, WindowInput::Resized { width, height }).len() == 0,
        state_after(s, WindowInput::Resized { width, height }) == s,
        commands_for(s, WindowInput::Scroll { direction: ScrollDirection::Away }) == seq![
            Command::ScrollCamera(CameraMovement::Forward),
        ],
        commands_for(s, WindowInput::Scroll { direction: ScrollDirection::Towards }) == seq![
            Command::ScrollCamera(CameraMovement::Backward),
        ],
        commands_for(s, WindowInput::Scroll { direction: ScrollDirection::Still }).len() == 0,
        state_after(s, WindowInput::Scroll { direction }) == s,
{
}

} // verus!
