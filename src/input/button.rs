//! A rectangular button that turns cursor and touch events into button events.

use std::time::Duration;

use vstd::prelude::*;

use super::event::{in_rect, inside_rect, Event, InputEvent, IntermediateEvent, MouseButton, TouchPhase};
use super::intermediate::Intermediate;

verus! {

/// A filter that converts cursor and touch events inside its rectangle to button events.
///
/// Only one touch is tracked: concurrent touches share the `pressed` flag.
pub struct Button {
    pub id: u32,
    pub x: i32,
    pub y: i32,
    pub width: i32,
    pub height: i32,
    /// Whether a press was seen with no release or cancel after it.
    pub pressed: bool,
}

impl Button {
    /// Creates a rectangular `Button` with ID `id`, not pressed.
    pub fn new(id: u32, x: i32, y: i32, width: i32, height: i32) -> (r: Button)
        ensures
            r == (Button { id, x, y, width, height, pressed: false }),
    {
        Button { id: id, x: x, y: y, width: width, height: height, pressed: false }
    }

    /// Whether `(x, y)` lies in the button's rectangle, edges included.
    pub open spec fn contains(self, x: i32, y: i32) -> bool {
        in_rect(self.x, self.y, self.width, self.height, x, y)
    }

    /// The same button with its `pressed` flag set to `pressed`.
    pub open spec fn with_pressed(self, pressed: bool) -> Button {
        Button { pressed, ..self }
    }

    /// What one event does: the button's next state and the event that takes its place.
    pub open spec fn step(self, event: InputEvent) -> (Button, InputEvent) {
        let pressed = InputEvent::Intermediate(IntermediateEvent::ButtonPressed(self.id));
        let released = InputEvent::Intermediate(IntermediateEvent::ButtonReleased(self.id));
        let canceled = InputEvent::Intermediate(IntermediateEvent::ButtonCanceled(self.id));
        match event {
            InputEvent::Intermediate(IntermediateEvent::CursorPressed(x, y, MouseButton::Left)) => {
                if self.contains(x, y) || self.pressed {
                    (self.with_pressed(true), pressed)
                } else {
                    (self, event)
                }
            },
            InputEvent::Intermediate(IntermediateEvent::CursorReleased(x, y, MouseButton::Left)) => {
                if self.pressed {
                    (self.with_pressed(false), if self.contains(x, y) { released } else { canceled })
                } else {
                    (self, event)
                }
            },
            InputEvent::Raw(Event::Touch(touch)) => {
                let (x, y) = touch.location;
                match touch.phase {
                    TouchPhase::Started => {
                        if self.pressed {
                            (self, pressed)
                        } else if self.contains(x, y) {
                            (self.with_pressed(true), pressed)
                        } else {
                            (self, event)
                        }
                    },
                    TouchPhase::Moved => {
                        if self.pressed {
                            (self, pressed)
                        } else {
                            (self, event)
                        }
                    },
                    TouchPhase::Ended => {
                        if self.pressed {
                            (
                                self.with_pressed(false),
                                if self.contains(x, y) { released } else { canceled },
                            )
                        } else {
                            (self, event)
                        }
                    },
                    TouchPhase::Cancelled => {
                        if self.pressed {
                            (self, canceled)
                        } else {
                            (self, event)
                        }
                    },
                }
            },
            _ => (self, event),
        }
    }

    /// What a batch does: the button after all of it, and the output batch, one event for each
    /// event of the input, in order.
    pub open spec fn run(self, events: Seq<InputEvent>) -> (Button, Seq<InputEvent>)
        decreases events.len(),
    {
        if events.len() == 0 {
            (self, Seq::empty())
        } else {
            let (before, out) = self.run(events.drop_last());
            let (after, event) = before.step(events.last());
            (after, out.push(event))
        }
    }

    fn inside(&self, x: i32, y: i32) -> (r: bool)
        ensures
            r == self.contains(x, y),
    {
        inside_rect(self.x, self.y, self.width, self.height, x, y)
    }

    fn feed(&mut self, event: InputEvent) -> (r: InputEvent)
        ensures
            (*final(self), r) == old(self).step(event),
    {
        let pressed = InputEvent::Intermediate(IntermediateEvent::ButtonPressed(self.id));
        let released = InputEvent::Intermediate(IntermediateEvent::ButtonReleased(self.id));
        let canceled = InputEvent::Intermediate(IntermediateEvent::ButtonCanceled(self.id));
        match event {
            InputEvent::Intermediate(IntermediateEvent::CursorPressed(x, y, MouseButton::Left)) => {
                if self.inside(x, y) || self.pressed {
                    self.pressed = true;
                    pressed
                } else {
                    event
                }
            },
            InputEvent::Intermediate(IntermediateEvent::CursorReleased(x, y, MouseButton::Left)) => {
                if self.pressed {
                    self.pressed = false;
                    if self.inside(x, y) {
                        released
                    } else {
                        canceled
                    }
                } else {
                    event
                }
            },
            InputEvent::Raw(Event::Touch(touch)) => {
                let (x, y) = touch.location;
                match touch.phase {
                    TouchPhase::Started => {
                        if self.pressed {
                            pressed
                        } else if self.inside(x, y) {
                            self.pressed = true;
                            pressed
                        } else {
                            event
                        }
                    },
                    TouchPhase::Moved => {
                        if self.pressed {
                            pressed
                        } else {
                            event
                        }
                    },
                    TouchPhase::Ended => {
                        if self.pressed {
                            self.pressed = false;
                            if self.inside(x, y) {
                                released
                            } else {
                                canceled
                            }
                        } else {
                            event
                        }
                    },
                    TouchPhase::Cancelled => {
                        if self.pressed {
                            canceled
                        } else {
                            event
                        }
                    },
                }
            },
            _ => event,
        }
    }
}

impl Intermediate for Button {
    /// Replaces each event of the batch by what `step` gives for it, in order.
    fn process(&mut self, input: Vec<InputEvent>, dt: Duration) -> (output: Vec<InputEvent>)
        ensures
            (*final(self), output@) == old(self).run(input@),
    {
        let mut output: Vec<InputEvent> = Vec::new();
        let mut i: usize = 0;
        while i < input.len()
            invariant
                i <= input.len(),
                (*self, output@) == old(self).run(input@.take(i as int)),
            decreases input.len() - i,
        {
            let event = input[i];
            let replaced = self.feed(event);
            output.push(replaced);
            proof {
                assert(input@.take(i + 1).drop_last() =~= input@.take(i as int));
            }
            i += 1;
        }
        proof {
            assert(input@.take(input.len() as int) =~= input@);
        }
        output
    }
}

/// A batch of one event does what that event's step does.
pub proof fn lemma_run_single(b: Button, event: InputEvent)
    ensures
        b.run(seq![event]) == (b.step(event).0, seq![b.step(event).1]),
{
    assert(seq![event].drop_last() =~= Seq::<InputEvent>::empty());
    assert(seq![event].last() == event);
    assert(b.run(Seq::empty()) == (b, Seq::<InputEvent>::empty()));
    assert(Seq::<InputEvent>::empty().push(b.step(event).1) =~= seq![b.step(event).1]);
}

/// A pressed button answers every press of the left button, wherever it is, with one
/// `ButtonPressed` of its id, and stays pressed: it never reports a release or a cancel there.
pub proof fn lemma_pressed_echoes(b: Button, events: Seq<InputEvent>)
    requires
        b.pressed,
        forall|i: int|
            0 <= i < events.len() ==> #[trigger] events[i] matches InputEvent::Intermediate(
                IntermediateEvent::CursorPressed(_, _, MouseButton::Left),
            ),
    ensures
        b.run(events).0 == b,
        b.run(events).1 == Seq::new(
            events.len(),
            |i: int| InputEvent::Intermediate(IntermediateEvent::ButtonPressed(b.id)),
        ),
    decreases events.len(),
{
    if events.len() > 0 {
        lemma_pressed_echoes(b, events.drop_last());
        assert(events.last() == events[events.len() - 1]);
        assert(b.with_pressed(true) == b);
        assert(b.run(events).1 =~= Seq::new(
            events.len(),
            |i: int| InputEvent::Intermediate(IntermediateEvent::ButtonPressed(b.id)),
        ));
    }
}

/// A new button pressed by the left button one pixel inside its corner, in one batch, and
/// released at the same point, in the next, reports `ButtonPressed` then `ButtonReleased`, and
/// ends released.
pub proof fn lemma_press_release_round_trip(id: u32, x: i32, y: i32, width: i32, height: i32)
    requires
        x < i32::MAX,
        y < i32::MAX,
        1 <= width,
        1 <= height,
    ensures
        ({
            let b = Button { id, x, y, width, height, pressed: false };
            let press = IntermediateEvent::CursorPressed(
                (x + 1) as i32,
                (y + 1) as i32,
                MouseButton::Left,
            );
            let release = IntermediateEvent::CursorReleased(
                (x + 1) as i32,
                (y + 1) as i32,
                MouseButton::Left,
            );
            let (b1, first) = b.run(seq![InputEvent::Intermediate(press)]);
            let (b2, second) = b1.run(seq![InputEvent::Intermediate(release)]);
            &&& first == seq![InputEvent::Intermediate(IntermediateEvent::ButtonPressed(id))]
            &&& second == seq![InputEvent::Intermediate(IntermediateEvent::ButtonReleased(id))]
            &&& !b2.pressed
        }),
{
    let b = Button { id, x, y, width, height, pressed: false };
    let press = InputEvent::Intermediate(
        IntermediateEvent::CursorPressed((x + 1) as i32, (y + 1) as i32, MouseButton::Left),
    );
    let release = InputEvent::Intermediate(
        IntermediateEvent::CursorReleased((x + 1) as i32, (y + 1) as i32, MouseButton::Left),
    );
    lemma_run_single(b, press);
    lemma_run_single(b.step(press).0, release);
}

/// A button pressed by the left button inside its rectangle and released outside it reports a
/// cancel, not a release, and ends released.
pub proof fn lemma_release_outside_cancels(b: Button, px: i32, py: i32, qx: i32, qy: i32)
    requires
        b.contains(px, py),
        !b.contains(qx, qy),
    ensures
        ({
            let press = IntermediateEvent::CursorPressed(px, py, MouseButton::Left);
            let release = IntermediateEvent::CursorReleased(qx, qy, MouseButton::Left);
            let (b1, first) = b.run(seq![InputEvent::Intermediate(press)]);
            let (b2, second) = b1.run(seq![InputEvent::Intermediate(release)]);
            &&& first == seq![InputEvent::Intermediate(IntermediateEvent::ButtonPressed(b.id))]
            &&& second == seq![InputEvent::Intermediate(IntermediateEvent::ButtonCanceled(b.id))]
            &&& !b2.pressed
        }),
{
    let press = InputEvent::Intermediate(
        IntermediateEvent::CursorPressed(px, py, MouseButton::Left),
    );
    let release = InputEvent::Intermediate(
        IntermediateEvent::CursorReleased(qx, qy, MouseButton::Left),
    );
    lemma_run_single(b, press);
    lemma_run_single(b.step(press).0, release);
}

} // verus!
