//! Input events, the pointer state and how window input becomes events.
use vstd::prelude::*;

verus! {

/// The device a primary click came from.
#[derive(Debug, Clone, Copy, PartialEq, Eq, Structural)]
pub enum ClickDevice {
    Mouse,
    Touch,
    Stylus,
}

/// The kinds of secondary click.
#[derive(Debug, Clone, Copy, PartialEq, Eq, Structural)]
pub enum SecondaryClickType {
    LongClick,
    MiddleClick,
    RightClick,
    LongPressTouch,
    LongPressStylus,
    /// A stylus button, by index.
    StylusButton(i32),
}

/// An event delivered to a component.
#[derive(Debug, Clone, Copy, PartialEq, Eq, Structural)]
pub enum Events {
    Hover { x: u32, y: u32 },
    PrimaryClick { x: u32, y: u32, click_device: ClickDevice },
    SecondaryClick { x: u32, y: u32, secondary_click_type: SecondaryClickType },
    Resize { width: u32, height: u32 },
    /// Kept apart from `Resize`: animations and drag and drop move without
    /// resizing.
    Move { x: u32, y: u32 },
    KeyPress { key: char },
}

/// The last known pointer position.
pub struct MouseState {
    pub position: (u32, u32),
}

impl MouseState {
    /// The pointer starts at the origin.
    pub fn new() -> (r: Self)
        ensures
            r.position == (0u32, 0u32),
    {
        MouseState { position: (0, 0) }
    }
}

/// The pointer state after recording the position `(x, y)`.
pub open spec fn updated(state: MouseState, x: u32, y: u32) -> MouseState {
    MouseState { position: (x, y) }
}

/// The position a pointer state reports.
pub open spec fn position_of(state: MouseState) -> (u32, u32) {
    state.position
}

/// Records the pointer position.
pub fn update_mouse_position(state: &mut MouseState, x: u32, y: u32)
    ensures
        *final(state) == updated(*old(state), x, y),
{
    state.position = (x, y);
}

/// The last recorded pointer position.
pub fn get_mouse_position(state: &MouseState) -> (r: (u32, u32))
    ensures
        r == position_of(*state),
{
    state.position
}

/// Reading the pointer position after recording one gives back what was
/// recorded, whatever the state was before.
pub proof fn lemma_mouse_read_after_write(state: MouseState, x: u32, y: u32)
    ensures
        position_of(updated(state, x, y)) == (x, y),
{
}

/// The window input the platform layer reports, reduced to what the
/// application reacts to.
#[derive(Debug, Clone, Copy, PartialEq, Eq, Structural)]
pub enum WindowInput {
    CloseRequested,
    Resized { width: u32, height: u32 },
    RedrawRequested,
    /// The cursor moved to `(x, y)` (in whole pixels).
    CursorMoved { x: u32, y: u32 },
    MouseInput { pressed: bool, left_button: bool },
    Other,
}

/// What the platform layer does in response to window input.
#[derive(Debug, Clone, Copy, PartialEq, Eq, Structural)]
pub enum WindowAction {
    /// Leave the event loop.
    Exit,
    /// Hand the event to the base component.
    Dispatch(Events),
    /// Hand a `Hover` at `(x, y)` to the base component, then record
    /// `(x, y)` as the pointer position.
    HoverThenRecord { x: u32, y: u32 },
    /// Ask the window for another frame.
    RequestRedraw,
    Nothing,
}

/// The reaction to window input: closing exits, a resize becomes a
/// `Resize` event, a cursor move a `Hover` event after which the pointer
/// position is recorded, a redraw request asks for the next frame, and a
/// left button press becomes a mouse `PrimaryClick` at the recorded
/// position.
pub fn handle_window_input(mouse: &MouseState, input: WindowInput) -> (r: WindowAction)
    ensures
        r == match input {
            WindowInput::CloseRequested => WindowAction::Exit,
            WindowInput::Resized { width, height } => WindowAction::Dispatch(
                Events::Resize { width, height },
            ),
            WindowInput::RedrawRequested => WindowAction::RequestRedraw,
            WindowInput::CursorMoved { x, y } => WindowAction::HoverThenRecord { x, y },
            WindowInput::MouseInput { pressed, left_button } => if pressed && left_button {
                WindowAction::Dispatch(
                    Events::PrimaryClick {
                        x: mouse.position.0,
                        y: mouse.position.1,
                        click_device: ClickDevice::Mouse,
                    },
                )
            } else {
                WindowAction::Nothing
            },
            WindowInput::Other => WindowAction::Nothing,
        },
{
    match input {
        WindowInput::CloseRequested => WindowAction::Exit,
        WindowInput::Resized { width, height } => WindowAction::Dispatch(
            Events::Resize { width, height },
        ),
        WindowInput::RedrawRequested => WindowAction::RequestRedraw,
        WindowInput::CursorMoved { x, y } => WindowAction::HoverThenRecord { x, y },
        WindowInput::MouseInput { pressed, left_button } => {
            if pressed && left_button {
                let pos = get_mouse_position(mouse);
                WindowAction::Dispatch(
                    Events::PrimaryClick { x: pos.0, y: pos.1, click_device: ClickDevice::Mouse },
                )
            } else {
                WindowAction::Nothing
            }
        },
        WindowInput::Other => WindowAction::Nothing,
    }
}

} // verus!
