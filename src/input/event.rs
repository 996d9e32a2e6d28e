//! The events that flow through the input pipeline.

use vstd::prelude::*;

verus! {

/// A button of a pointing device.
#[derive(Clone, Copy, Debug, PartialEq, Eq, Structural)]
pub enum MouseButton {
    Left,
    Right,
    Middle,
    Back,
    Forward,
    Other(u16),
}

/// Whether a button went down or up.
#[derive(Clone, Copy, Debug, PartialEq, Eq, Structural)]
pub enum ElementState {
    Pressed,
    Released,
}

/// The phase of a touch.
#[derive(Clone, Copy, Debug, PartialEq, Eq, Structural)]
pub enum TouchPhase {
    Started,
    Moved,
    Ended,
    Cancelled,
}

/// One touch, located on whole pixels.
#[derive(Clone, Copy, Debug, PartialEq, Eq)]
pub struct Touch {
    pub phase: TouchPhase,
    pub location: (i32, i32),
    pub id: u64,
}

/// A device-level event, as the windowing layer reports it.
///
/// `Other` stands for any event that no filter reads (a resize, a key, a focus change); its tag
/// is chosen by the embedding application, which may use it to find the event it stands for.
#[derive(Clone, Copy, Debug, PartialEq, Eq)]
pub enum Event {
    MouseMoved(i32, i32),
    MouseInput(ElementState, MouseButton),
    Touch(Touch),
    Other(u64),
}

/// A semantic event produced by one of the filters.
#[derive(Clone, Copy, Debug, PartialEq, Eq)]
pub enum IntermediateEvent {
    ButtonPressed(u32),
    ButtonCanceled(u32),
    ButtonReleased(u32),
    CursorPressed(i32, i32, MouseButton),
    CursorReleased(i32, i32, MouseButton),
    SelectablePressed(u32, i32, i32),
    SelectableDragged(u32, i32, i32),
    SelectableReleased(u32, i32, i32),
    SelectableSpecialPressed(u32, i32, i32),
    SelectableSpecialDragged(u32, i32, i32),
    SelectableSpecialReleased(u32, i32, i32),
}

/// The unit that flows through the pipeline: either a raw or an intermediate event.
#[derive(Clone, Copy, Debug, PartialEq, Eq)]
pub enum InputEvent {
    Raw(Event),
    Intermediate(IntermediateEvent),
}

/// Whether `(x, y)` lies in the rectangle at `(rx, ry)` of the given size, edges included.
pub open spec fn in_rect(rx: i32, ry: i32, width: i32, height: i32, x: i32, y: i32) -> bool {
    &&& 0 <= x - rx <= width
    &&& 0 <= y - ry <= height
}

/// Tests whether `(x, y)` lies in the rectangle at `(rx, ry)` of the given size, edges included.
pub fn inside_rect(rx: i32, ry: i32, width: i32, height: i32, x: i32, y: i32) -> (r: bool)
    ensures
        r == in_rect(rx, ry, width, height, x, y),
{
    let dx = x as i64 - rx as i64;
    let dy = y as i64 - ry as i64;
    0 <= dx && dx <= width as i64 && 0 <= dy && dy <= height as i64
}

} // verus!
