use vstd::prelude::*;

verus! {

/// Key that ends the program.
pub const EXIT_KEY: char = 'q';

/// One input event of the terminal, as far as the render loop tells events
/// apart.
#[derive(Clone, Copy, Debug, PartialEq, Eq, Structural)]
pub enum InputEvent {
    /// A press of a character key without modifiers.
    Key(char),
    /// The mouse wheel turned up.
    ScrollUp,
    /// The mouse wheel turned down.
    ScrollDown,
    /// The left mouse button went down at a cell.
    MouseDown { column: u16, row: u16 },
    /// The mouse moved to a cell with the left button held.
    MouseDrag { column: u16, row: u16 },
    /// Any other event.
    Other,
}

/// How the camera is driven.
#[derive(Clone, Copy, Debug, PartialEq, Eq, Structural)]
pub enum ModeKind {
    /// The user turns and zooms the camera with the mouse.
    Interactive,
    /// An animation moves the camera every frame.
    Animation,
    /// An animation moves the camera until a time limit.
    Benchmark,
}

/// What one frame of the render loop does.
#[derive(Clone, Copy, Debug, PartialEq, Eq, Structural)]
pub enum Reaction {
    /// Leave the loop.
    Quit,
    /// Move the camera one step away from the origin.
    ZoomOut,
    /// Move the camera one step towards the origin.
    ZoomIn,
    /// Turn the camera by the pointer's movement, in cells.
    Rotate { dx: i32, dy: i32 },
    /// Advance the animation by the frame's time.
    Advance,
    /// Nothing changes.
    Idle,
}

impl Reaction {
    /// The camera moved, so the frame must be drawn again.
    pub open spec fn redraws_spec(self) -> bool {
        match self {
            Reaction::ZoomOut | Reaction::ZoomIn | Reaction::Rotate { .. } | Reaction::Advance => true,
            _ => false,
        }
    }

    /// Whether the frame must be drawn again after this reaction.
    pub fn redraws(&self) -> (b: bool)
        ensures
            b == self.redraws_spec(),
    {
        match self {
            Reaction::ZoomOut | Reaction::ZoomIn | Reaction::Rotate { .. } | Reaction::Advance => true,
            _ => false,
        }
    }
}

/// The decisions of the render loop: its mode and the cell where the left
/// mouse button last went down or was dragged to.
pub struct Controller {
    pub mode: ModeKind,
    pub last_mouse: (i32, i32),
}

/// The next state and the reaction of the render loop to one frame's event
/// (`None` when no event came) and to whether the time limit has passed.
pub open spec fn react(state: Controller, event: Option<InputEvent>, timed_out: bool) -> (
    Controller,
    Reaction,
) {
    match state.mode {
        ModeKind::Interactive => match event {
            Some(InputEvent::Key(c)) => if c == EXIT_KEY {
                (state, Reaction::Quit)
            } else {
                (state, Reaction::Idle)
            },
            Some(InputEvent::ScrollDown) => (state, Reaction::ZoomOut),
            Some(InputEvent::ScrollUp) => (state, Reaction::ZoomIn),
            Some(InputEvent::MouseDown { column, row }) => (
                Controller { last_mouse: (column as i32, row as i32), ..state },
                Reaction::Idle,
            ),
            Some(InputEvent::MouseDrag { column, row }) => (
                Controller { last_mouse: (column as i32, row as i32), ..state },
                Reaction::Rotate {
                    dx: (column - state.last_mouse.0) as i32,
                    dy: (row - state.last_mouse.1) as i32,
                },
            ),
            _ => (state, Reaction::Idle),
        },
        ModeKind::Animation => match event {
            Some(InputEvent::Key(c)) => if c == EXIT_KEY {
                (state, Reaction::Quit)
            } else {
                (state, Reaction::Advance)
            },
            _ => (state, Reaction::Advance),
        },
        ModeKind::Benchmark => if timed_out {
            (state, Reaction::Quit)
        } else {
            (state, Reaction::Advance)
        },
    }
}

/// The pointer position is a terminal cell.
pub open spec fn is_cell(p: (i32, i32)) -> bool {
    0 <= p.0 <= u16::MAX && 0 <= p.1 <= u16::MAX
}

impl Controller {
    /// A controller for `mode` whose pointer is at the top left cell.
    pub fn new(mode: ModeKind) -> (c: Controller)
        ensures
            c.mode == mode,
            c.last_mouse == (0i32, 0i32),
    {
        Controller { mode, last_mouse: (0, 0) }
    }

    /// Decides one frame: `event` is the event read this frame, if any, and
    /// `timed_out` tells whether a benchmark's time is up.
    pub fn step(&mut self, event: Option<InputEvent>, timed_out: bool) -> (r: Reaction)
        requires
            is_cell(old(self).last_mouse),
        ensures
            (*final(self), r) == react(*old(self), event, timed_out),
            is_cell(final(self).last_mouse),
    {
        match self.mode {
            ModeKind::Interactive => match event {
                Some(InputEvent::Key(c)) => if c == EXIT_KEY {
                    Reaction::Quit
                } else {
                    Reaction::Idle
                },
                Some(InputEvent::ScrollDown) => Reaction::ZoomOut,
                Some(InputEvent::ScrollUp) => Reaction::ZoomIn,
                Some(InputEvent::MouseDown { column, row }) => {
                    self.last_mouse = (column as i32, row as i32);
                    Reaction::Idle
                },
                Some(InputEvent::MouseDrag { column, row }) => {
                    let (new_x, new_y) = (column as i32, row as i32);
                    let dx = new_x - self.last_mouse.0;
                    let dy = new_y - self.last_mouse.1;
                    self.last_mouse = (new_x, new_y);
                    Reaction::Rotate { dx, dy }
                },
                _ => Reaction::Idle,
            },
            ModeKind::Animation => match event {
                Some(InputEvent::Key(c)) => if c == EXIT_KEY {
                    Reaction::Quit
                } else {
                    Reaction::Advance
                },
                _ => Reaction::Advance,
            },
            ModeKind::Benchmark => if timed_out {
                Reaction::Quit
            } else {
                Reaction::Advance
            },
        }
    }
}

/// The exit key ends the loop in the modes that read events.
pub proof fn lemma_exit_key_quits(state: Controller, timed_out: bool)
    requires
        state.mode != ModeKind::Benchmark,
    ensures
        react(state, Some(InputEvent::Key(EXIT_KEY)), timed_out).1 == Reaction::Quit,
{
}

/// Only presses and drags in interactive mode move the pointer; the mode
/// never changes.
pub proof fn lemma_pointer_moves_only_on_press_or_drag(
    state: Controller,
    event: Option<InputEvent>,
    timed_out: bool,
)
    ensures
        react(state, event, timed_out).0.mode == state.mode,
        !(state.mode == ModeKind::Interactive && (event matches Some(InputEvent::MouseDown { .. })
            || event matches Some(InputEvent::MouseDrag { .. }))) ==> react(
            state,
            event,
            timed_out,
        ).0 == state,
{
}

/// Two drags in a row turn the camera, in sum, by the pointer's movement
/// from where it was before the first drag to the end of the second.
pub proof fn lemma_drags_telescope(
    state: Controller,
    c1: u16,
    r1: u16,
    c2: u16,
    r2: u16,
    timed_out: bool,
)
    requires
        state.mode == ModeKind::Interactive,
        is_cell(state.last_mouse),
    ensures
        ({
            let (s1, a) = react(state, Some(InputEvent::MouseDrag { column: c1, row: r1 }), timed_out);
            let (s2, b) = react(s1, Some(InputEvent::MouseDrag { column: c2, row: r2 }), timed_out);
            &&& a matches Reaction::Rotate { dx: dx1, dy: dy1 }
            &&& b matches Reaction::Rotate { dx: dx2, dy: dy2 }
            &&& dx1 + dx2 == c2 - state.last_mouse.0
            &&& dy1 + dy2 == r2 - state.last_mouse.1
            &&& s2.last_mouse == (c2 as i32, r2 as i32)
        }),
{
}

/// A frame redraws exactly when the camera moved: after a zoom, a turn by
/// any amount or an animation step, and never after `Idle` or `Quit`.
pub proof fn lemma_redraw_exactly_when_camera_moves(r: Reaction)
    ensures
        r.redraws_spec() <==> (r != Reaction::Quit && r != Reaction::Idle),
        forall|dx: i32, dy: i32| #[trigger] (Reaction::Rotate { dx, dy }).redraws_spec(),
        Reaction::ZoomIn.redraws_spec(),
        Reaction::ZoomOut.redraws_spec(),
        Reaction::Advance.redraws_spec(),
        !Reaction::Idle.redraws_spec(),
        !Reaction::Quit.redraws_spec(),
{
}

/// An animation only reads the exit key: every other event, or none, keeps
/// the state and advances the animation.
pub proof fn lemma_animation_advances_unless_exit(
    state: Controller,
    event: Option<InputEvent>,
    timed_out: bool,
)
    requires
        state.mode == ModeKind::Animation,
    ensures
        event != Some(InputEvent::Key(EXIT_KEY)) ==> react(state, event, timed_out) == (
            state,
            Reaction::Advance,
        ),
        event == Some(InputEvent::Key(EXIT_KEY)) ==> react(state, event, timed_out) == (
            state,
            Reaction::Quit,
        ),
{
}

/// A benchmark reads no event: it quits exactly when its time is up and
/// otherwise advances, never changing the state.
pub proof fn lemma_benchmark_runs_until_time_is_up(
    state: Controller,
    event: Option<InputEvent>,
    timed_out: bool,
)
    requires
        state.mode == ModeKind::Benchmark,
    ensures
        react(state, event, timed_out).0 == state,
        react(state, event, timed_out).1 == (if timed_out {
            Reaction::Quit
        } else {
            Reaction::Advance
        }),
{
}

/// In interactive mode the wheel zooms (down moves away, up moves closer),
/// the exit key quits, other keys and events do nothing, a press only moves
/// the pointer, and a drag turns the camera by the pointer's movement and
/// moves the pointer. The time limit plays no part.
pub proof fn lemma_interactive_reactions(state: Controller, timed_out: bool, c: char, column: u16, row: u16)
    requires
        state.mode == ModeKind::Interactive,
        is_cell(state.last_mouse),
    ensures
        react(state, Some(InputEvent::ScrollDown), timed_out) == (state, Reaction::ZoomOut),
        react(state, Some(InputEvent::ScrollUp), timed_out) == (state, Reaction::ZoomIn),
        react(state, Some(InputEvent::Key(c)), timed_out) == (state, if c == EXIT_KEY {
            Reaction::Quit
        } else {
            Reaction::Idle
        }),
        react(state, Some(InputEvent::Other), timed_out) == (state, Reaction::Idle),
        react(state, None, timed_out) == (state, Reaction::Idle),
        ({
            let (s, r) = react(state, Some(InputEvent::MouseDown { column, row }), timed_out);
            &&& r == Reaction::Idle
            &&& s.mode == state.mode
            &&& s.last_mouse == (column as i32, row as i32)
        }),
        ({
            let (s, r) = react(state, Some(InputEvent::MouseDrag { column, row }), timed_out);
            &&& r matches Reaction::Rotate { dx, dy }
            &&& dx == column - state.last_mouse.0
            &&& dy == row - state.last_mouse.1
            &&& s.mode == state.mode
            &&& s.last_mouse == (column as i32, row as i32)
        }),
{
}

} // verus!
