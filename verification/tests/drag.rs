use celestial::body::CelestialBody;
use celestial::drag::{DragActions, DragInput, MouseDragState};
use celestial::scalar::Scalar;
use celestial::vector::Vec2;

fn units(n: i64) -> Scalar {
    Scalar::from_int(n).unwrap()
}

fn at(x: i64, y: i64) -> Vec2 {
    Vec2::new(units(x), units(y))
}

fn frame(pressed: bool, released: bool, cursor: Option<Vec2>) -> DragInput {
    DragInput { pressed, released, cursor }
}

const NOTHING: DragActions = DragActions {
    place_preview: None,
    line: None,
    launch: None,
    remove_preview: false,
};

#[test]
fn nothing_happens_without_a_press() {
    let mut state = MouseDragState::default();
    assert_eq!(state.step(frame(false, false, Some(at(1, 1)))), NOTHING);
    assert_eq!(state, MouseDragState::default());
    assert_eq!(state.step(frame(false, false, None)), NOTHING);
}

#[test]
fn a_drag_launches_a_body_toward_where_it_began() {
    let mut state = MouseDragState::default();
    let press = state.step(frame(true, false, Some(at(10, 20))));
    assert_eq!(press.place_preview, Some(at(10, 20)));
    assert_eq!(press.line, Some((at(10, 20), at(10, 20))));
    assert_eq!(press.launch, None);
    assert!(!press.remove_preview);
    assert!(state.dragging && state.preview);

    let moved = state.step(frame(false, false, Some(at(4, 28))));
    assert_eq!(moved, DragActions { line: Some((at(10, 20), at(4, 28))), ..NOTHING });

    // The cursor has left the world: the last place seen stands.
    let away = state.step(frame(false, false, None));
    assert_eq!(away.line, Some((at(10, 20), at(4, 28))));

    let release = state.step(frame(false, true, Some(at(3, 30))));
    assert_eq!(
        release,
        DragActions {
            place_preview: None,
            line: Some((at(10, 20), at(3, 30))),
            launch: Some(CelestialBody {
                position: at(10, 20),
                velocity: at(7, -10),
                mass: units(1),
            }),
            remove_preview: true,
        }
    );
    assert_eq!(state, MouseDragState::default());
}

#[test]
fn a_press_outside_the_world_launches_nothing() {
    let mut state = MouseDragState::default();
    assert_eq!(state.step(frame(true, false, None)), NOTHING);
    assert!(state.dragging && !state.preview);
    // Dragging into the world gives an end, but there is no beginning.
    assert_eq!(state.step(frame(false, false, Some(at(1, 1)))), NOTHING);
    assert_eq!(state.step(frame(false, true, Some(at(2, 2)))), NOTHING);
    assert_eq!(state, MouseDragState::default());
}

#[test]
fn an_unrepresentable_velocity_launches_nothing() {
    let mut state = MouseDragState::default();
    let far = Vec2::new(Scalar::from_raw(i64::MAX), units(0));
    let near = Vec2::new(Scalar::from_raw(-1), units(0));
    state.step(frame(true, false, Some(far)));
    let release = state.step(frame(false, true, Some(near)));
    assert_eq!(release.launch, None);
    assert!(release.remove_preview);
}

#[test]
fn reset_forgets_the_drag() {
    let mut state = MouseDragState::default();
    state.step(frame(true, false, Some(at(10, 20))));
    state.reset();
    assert_eq!(state, MouseDragState::default());
    assert_eq!(state.step(frame(false, true, Some(at(1, 1)))), NOTHING);
}
