//! Launching a body by dragging: a press marks where the body will start, the
//! drag away from that place sets its velocity, and the release launches it.

use crate::body::CelestialBody;
use crate::scalar::Scalar;
use crate::vector::Vec2;
use vstd::prelude::*;

verus! {

/// What is known of a drag between two frames.
#[derive(Clone, Copy, Debug, PartialEq, Eq)]
pub struct MouseDragState {
    pub dragging: bool,
    /// Where the button went down.
    pub initial_position: Option<Vec2>,
    /// Where the cursor was seen last.
    pub current_position: Option<Vec2>,
    /// Whether a picture of the body to come stands at the initial position.
    pub preview: bool,
}

/// What the pointer did in one frame.
#[derive(Clone, Copy, Debug, PartialEq, Eq)]
pub struct DragInput {
    /// The button went down in this frame.
    pub pressed: bool,
    /// The button came up in this frame.
    pub released: bool,
    /// Where the cursor is, if it is over the world.
    pub cursor: Option<Vec2>,
}

/// What the host is to do after one frame.
#[derive(Clone, Copy, Debug, PartialEq, Eq)]
pub struct DragActions {
    /// Put a picture of the body to come at this place.
    pub place_preview: Option<Vec2>,
    /// Draw a line between these two places.
    pub line: Option<(Vec2, Vec2)>,
    /// Bring this body into being.
    pub launch: Option<CelestialBody>,
    /// Take the picture of the body to come away.
    pub remove_preview: bool,
}

/// The state in which nothing is being dragged.
pub open spec fn idle() -> MouseDragState {
    MouseDragState { dragging: false, initial_position: None, current_position: None, preview: false }
}

/// The state once a press and the cursor of this frame have been taken in.
pub open spec fn spec_followed(state: MouseDragState, input: DragInput) -> MouseDragState {
    let pressed = if input.pressed {
        MouseDragState {
            dragging: true,
            initial_position: if input.cursor.is_some() {
                input.cursor
            } else {
                state.initial_position
            },
            preview: state.preview || input.cursor.is_some(),
            ..state
        }
    } else {
        state
    };
    if pressed.dragging && input.cursor.is_some() {
        MouseDragState { current_position: input.cursor, ..pressed }
    } else {
        pressed
    }
}

/// The body that a release launches: of unit mass, at the initial position,
/// with the velocity that leads from the current position back to it.
pub open spec fn spec_launched(state: MouseDragState) -> Option<CelestialBody> {
    match (state.initial_position, state.current_position) {
        (Some(initial), Some(current)) => match initial.spec_sub(current) {
            Some(velocity) => Some(
                CelestialBody {
                    position: initial,
                    velocity,
                    mass: Scalar { raw: crate::scalar::SCALE },
                },
            ),
            None => None,
        },
        _ => None,
    }
}

/// The line to draw while both ends are known.
pub open spec fn spec_line(state: MouseDragState) -> Option<(Vec2, Vec2)> {
    match (state.initial_position, state.current_position) {
        (Some(initial), Some(current)) => Some((initial, current)),
        _ => None,
    }
}

/// What the host is to do after a frame with input `input` in state `state`.
pub open spec fn spec_actions(state: MouseDragState, input: DragInput) -> DragActions {
    let seen = spec_followed(state, input);
    DragActions {
        place_preview: if input.pressed {
            input.cursor
        } else {
            None
        },
        line: spec_line(seen),
        launch: if input.released {
            spec_launched(seen)
        } else {
            None
        },
        remove_preview: input.released && seen.preview,
    }
}

/// The state after a frame with input `input` in state `state`: a release
/// ends the drag.
pub open spec fn spec_next(state: MouseDragState, input: DragInput) -> MouseDragState {
    if input.released {
        idle()
    } else {
        spec_followed(state, input)
    }
}

impl Default for MouseDragState {
    /// The state in which nothing is being dragged.
    fn default() -> (r: MouseDragState)
        ensures
            r == idle(),
    {
        MouseDragState {
            dragging: false,
            initial_position: None,
            current_position: None,
            preview: false,
        }
    }
}

impl MouseDragState {
    /// Forgets the drag.
    pub fn reset(&mut self)
        ensures
            *final(self) == idle(),
    {
        self.dragging = false;
        self.initial_position = None;
        self.current_position = None;
        self.preview = false;
    }

    /// Takes in what the pointer did in one frame and says what the host is
    /// to do.
    pub fn step(&mut self, input: DragInput) -> (actions: DragActions)
        ensures
            *final(self) == spec_next(*old(self), input),
            actions == spec_actions(*old(self), input),
    {
        let mut place_preview: Option<Vec2> = None;
        if input.pressed {
            self.dragging = true;
            if input.cursor.is_some() {
                place_preview = input.cursor;
                self.initial_position = input.cursor;
                self.preview = true;
            }
        }
        if self.dragging && input.cursor.is_some() {
            self.current_position = input.cursor;
        }
        let line = match (self.initial_position, self.current_position) {
            (Some(initial), Some(current)) => Some((initial, current)),
            _ => None,
        };
        let mut launch: Option<CelestialBody> = None;
        let mut remove_preview = false;
        if input.released {
            launch =
            match line {
                Some((initial, current)) => match initial.sub(current) {
                    Some(velocity) => Some(
                        CelestialBody {
                            position: initial,
                            velocity,
                            mass: Scalar { raw: 1_000_000 },
                        },
                    ),
                    None => None,
                },
                None => None,
            };
            remove_preview = self.preview;
            self.reset();
        }
        DragActions { place_preview, line, launch, remove_preview }
    }
}

} // verus!
