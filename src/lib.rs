//! The foundation of a small game engine: an input pipeline that turns raw pointer and touch
//! events into semantic gesture events, one stateful filter at a time.

pub mod input;
