use rview::controls::{Controller, InputEvent, ModeKind, Reaction, EXIT_KEY};

#[test]
fn exit_key_quits_when_events_are_read() {
    let mut c = Controller::new(ModeKind::Interactive);
    assert_eq!(c.step(Some(InputEvent::Key(EXIT_KEY)), false), Reaction::Quit);
    let mut c = Controller::new(ModeKind::Animation);
    assert_eq!(c.step(Some(InputEvent::Key('q')), false), Reaction::Quit);
}

#[test]
fn other_keys_do_not_quit() {
    let mut c = Controller::new(ModeKind::Interactive);
    assert_eq!(c.step(Some(InputEvent::Key('Q')), false), Reaction::Idle);
    let mut c = Controller::new(ModeKind::Animation);
    assert_eq!(c.step(Some(InputEvent::Key('x')), false), Reaction::Advance);
    assert_eq!(c.step(None, false), Reaction::Advance);
}

#[test]
fn scrolling_zooms() {
    let mut c = Controller::new(ModeKind::Interactive);
    assert_eq!(c.step(Some(InputEvent::ScrollDown), false), Reaction::ZoomOut);
    assert_eq!(c.step(Some(InputEvent::ScrollUp), false), Reaction::ZoomIn);
    assert_eq!(c.step(Some(InputEvent::Other), false), Reaction::Idle);
    assert_eq!(c.step(None, true), Reaction::Idle);
}

#[test]
fn drag_rotates_by_movement_since_press() {
    let mut c = Controller::new(ModeKind::Interactive);
    assert_eq!(c.step(Some(InputEvent::MouseDown { column: 10, row: 5 }), false), Reaction::Idle);
    assert_eq!(c.last_mouse, (10, 5));
    assert_eq!(
        c.step(Some(InputEvent::MouseDrag { column: 13, row: 4 }), false),
        Reaction::Rotate { dx: 3, dy: -1 }
    );
    assert_eq!(
        c.step(Some(InputEvent::MouseDrag { column: 11, row: 9 }), false),
        Reaction::Rotate { dx: -2, dy: 5 }
    );
    assert_eq!(c.last_mouse, (11, 9));
}

#[test]
fn drags_telescope() {
    let mut c = Controller::new(ModeKind::Interactive);
    let mut total = (0, 0);
    for (col, row) in [(4u16, 2u16), (9, 9), (1, 7)] {
        if let Reaction::Rotate { dx, dy } =
            c.step(Some(InputEvent::MouseDrag { column: col, row }), false)
        {
            total = (total.0 + dx, total.1 + dy);
        }
    }
    assert_eq!(total, (1, 7));
}

#[test]
fn drag_from_start_uses_origin() {
    let mut c = Controller::new(ModeKind::Interactive);
    assert_eq!(
        c.step(Some(InputEvent::MouseDrag { column: u16::MAX, row: 0 }), false),
        Reaction::Rotate { dx: 65535, dy: 0 }
    );
}

#[test]
fn benchmark_runs_until_time_is_up() {
    let mut c = Controller::new(ModeKind::Benchmark);
    assert_eq!(c.step(Some(InputEvent::Key('q')), false), Reaction::Advance);
    assert_eq!(c.step(None, true), Reaction::Quit);
}

#[test]
fn animation_ignores_mouse() {
    let mut c = Controller::new(ModeKind::Animation);
    assert_eq!(c.step(Some(InputEvent::MouseDown { column: 3, row: 3 }), false), Reaction::Advance);
    assert_eq!(c.last_mouse, (0, 0));
}

#[test]
fn redraw_follows_camera_moves() {
    assert!(Reaction::ZoomIn.redraws());
    assert!(Reaction::ZoomOut.redraws());
    assert!(Reaction::Rotate { dx: 0, dy: 0 }.redraws());
    assert!(Reaction::Advance.redraws());
    assert!(!Reaction::Idle.redraws());
    assert!(!Reaction::Quit.redraws());
}

#[test]
fn only_press_and_drag_move_the_pointer() {
    let mut c = Controller::new(ModeKind::Interactive);
    c.step(Some(InputEvent::MouseDown { column: 7, row: 8 }), false);
    for e in [InputEvent::ScrollUp, InputEvent::ScrollDown, InputEvent::Key('a'), InputEvent::Other] {
        c.step(Some(e), false);
        assert_eq!(c.last_mouse, (7, 8));
        assert_eq!(c.mode, ModeKind::Interactive);
    }
}
