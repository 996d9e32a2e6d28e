//! Input events and the filters that turn raw events into intermediate ones.

pub mod event;
pub mod intermediate;
pub mod button;
pub mod cursor;
pub mod selectable_area;

pub use self::button::Button;
pub use self::cursor::Cursor;
pub use self::event::{ElementState, Event, InputEvent, IntermediateEvent, MouseButton, Touch, TouchPhase};
pub use self::intermediate::Intermediate;
pub use self::selectable_area::{SelectableArea, SpecialSelect};
