//! The interface shared by all filters of the pipeline.

use std::time::Duration;

use vstd::prelude::*;

use super::event::InputEvent;

verus! {

/// A stateful filter: it consumes one frame's batch of events and returns the transformed batch.
/// `dt` is the time since the previous frame.
pub trait Intermediate {
    fn process(&mut self, input: Vec<InputEvent>, dt: Duration) -> Vec<InputEvent>;
}

} // verus!
