//! A rectangular area that can be pressed, dragged over and released, with an optional second
//! gesture bound to another button.

use std::time::Duration;

use vstd::prelude::*;

use super::event::{in_rect, inside_rect, InputEvent, IntermediateEvent, MouseButton};
use super::intermediate::Intermediate;

verus! {

/// The second gesture of a `SelectableArea`: the button that drives it, and how long a touch
/// must be held to count as it.
#[derive(Clone, Copy)]
pub struct SpecialSelect {
    pub button: MouseButton,
    pub touch_time: Duration,
}

/// A filter that reports presses, drags and releases of the left button inside its rectangle,
/// and, independently, those of the special button if one is configured.
pub struct SelectableArea {
    pub id: u32,
    pub x: i32,
    pub y: i32,
    pub width: i32,
    pub height: i32,
    pub special: Option<SpecialSelect>,
    /// Where the left button was last seen held inside the area, while it is held.
    pub pressed: Option<(i32, i32)>,
    /// Where the special button was last seen held inside the area, while it is held.
    pub special_pressed: Option<(i32, i32)>,
}

/// Whether a press at `(x, y)`, with the channel's last point in `slot`, moved from that point.
pub open spec fn drags(slot: Option<(i32, i32)>, x: i32, y: i32) -> bool {
    match slot {
        Some(p) => p != (x, y),
        None => false,
    }
}

fn moved_from(slot: Option<(i32, i32)>, x: i32, y: i32) -> (r: bool)
    ensures
        r == drags(slot, x, y),
{
    match slot {
        Some((ox, oy)) => ox != x || oy != y,
        None => false,
    }
}

impl SelectableArea {
    /// Creates a `SelectableArea` with ID `id`, with neither channel held.
    pub fn new(
        id: u32,
        x: i32,
        y: i32,
        width: i32,
        height: i32,
        special: Option<SpecialSelect>,
    ) -> (r: SelectableArea)
        ensures
            r == (SelectableArea {
                id,
                x,
                y,
                width,
                height,
                special,
                pressed: None,
                special_pressed: None,
            }),
    {
        SelectableArea {
            id: id,
            x: x,
            y: y,
            width: width,
            height: height,
            special: special,
            pressed: None,
            special_pressed: None,
        }
    }

    /// Whether `(x, y)` lies in the area's rectangle, edges included.
    pub open spec fn contains(self, x: i32, y: i32) -> bool {
        in_rect(self.x, self.y, self.width, self.height, x, y)
    }

    /// Whether `button` drives the special channel.
    pub open spec fn is_special(self, button: MouseButton) -> bool {
        match self.special {
            Some(s) => s.button == button,
            None => false,
        }
    }

    /// What one event does: the area's next state and the event that takes its place.
    ///
    /// A press of the left button inside the area is taken by the primary channel; a press of
    /// the special button inside the area by the special channel. A press from the channel's
    /// last point is reported as pressed, one from elsewhere as dragged, and the point is kept.
    /// A release inside the area of a held channel's button ends that channel's gesture. Every
    /// other event passes unchanged.
    pub open spec fn step(self, event: InputEvent) -> (SelectableArea, InputEvent) {
        match event {
            InputEvent::Intermediate(IntermediateEvent::CursorPressed(x, y, button)) => {
                if button == MouseButton::Left && self.contains(x, y) {
                    (
                        SelectableArea { pressed: Some((x, y)), ..self },
                        InputEvent::Intermediate(
                            if drags(self.pressed, x, y) {
                                IntermediateEvent::SelectableDragged(self.id, x, y)
                            } else {
                                IntermediateEvent::SelectablePressed(self.id, x, y)
                            },
                        ),
                    )
                } else if self.is_special(button) && self.contains(x, y) {
                    (
                        SelectableArea { special_pressed: Some((x, y)), ..self },
                        InputEvent::Intermediate(
                            if drags(self.special_pressed, x, y) {
                                IntermediateEvent::SelectableSpecialDragged(self.id, x, y)
                            } else {
                                IntermediateEvent::SelectableSpecialPressed(self.id, x, y)
                            },
                        ),
                    )
                } else {
                    (self, event)
                }
            },
            InputEvent::Intermediate(IntermediateEvent::CursorReleased(x, y, button)) => {
                if button == MouseButton::Left && self.pressed.is_some() && self.contains(x, y) {
                    (
                        SelectableArea { pressed: None, ..self },
                        InputEvent::Intermediate(
                            IntermediateEvent::SelectableReleased(self.id, x, y),
                        ),
                    )
                } else if self.is_special(button) && self.special_pressed.is_some()
                    && self.contains(x, y) {
                    (
                        SelectableArea { special_pressed: None, ..self },
                        InputEvent::Intermediate(
                            IntermediateEvent::SelectableSpecialReleased(self.id, x, y),
                        ),
                    )
                } else {
                    (self, event)
                }
            },
            _ => (self, event),
        }
    }

    /// What a batch does: the area after all of it, and the output batch, one event for each
    /// event of the input, in order.
    pub open spec fn run(self, events: Seq<InputEvent>) -> (SelectableArea, Seq<InputEvent>)
        decreases events.len(),
    {
        if events.len() == 0 {
            (self, Seq::empty())
        } else {
            let (before, out) = self.run(events.drop_last());
            let (after, event) = before.step(events.last());
            (after, out.push(event))
        }
    }

    fn inside(&self, x: i32, y: i32) -> (r: bool)
        ensures
            r == self.contains(x, y),
    {
        inside_rect(self.x, self.y, self.width, self.height, x, y)
    }

    fn special_button(&self, button: MouseButton) -> (r: bool)
        ensures
            r == self.is_special(button),
    {
        match self.special {
            Some(s) => s.button == button,
            None => false,
        }
    }

    fn feed(&mut self, event: InputEvent) -> (r: InputEvent)
        ensures
            (*final(self), r) == old(self).step(event),
    {
        let id = self.id;
        match event {
            InputEvent::Intermediate(IntermediateEvent::CursorPressed(x, y, button)) => {
                if button == MouseButton::Left && self.inside(x, y) {
                    let dragged = moved_from(self.pressed, x, y);
                    self.pressed = Some((x, y));
                    if dragged {
                        InputEvent::Intermediate(IntermediateEvent::SelectableDragged(id, x, y))
                    } else {
                        InputEvent::Intermediate(IntermediateEvent::SelectablePressed(id, x, y))
                    }
                } else if self.special_button(button) && self.inside(x, y) {
                    let dragged = moved_from(self.special_pressed, x, y);
                    self.special_pressed = Some((x, y));
                    if dragged {
                        InputEvent::Intermediate(
                            IntermediateEvent::SelectableSpecialDragged(id, x, y),
                        )
                    } else {
                        InputEvent::Intermediate(
                            IntermediateEvent::SelectableSpecialPressed(id, x, y),
                        )
                    }
                } else {
                    event
                }
            },
            InputEvent::Intermediate(IntermediateEvent::CursorReleased(x, y, button)) => {
                if button == MouseButton::Left && self.pressed.is_some() && self.inside(x, y) {
                    self.pressed = None;
                    InputEvent::Intermediate(IntermediateEvent::SelectableReleased(id, x, y))
                } else if self.special_button(button) && self.special_pressed.is_some()
                    && self.inside(x, y) {
                    self.special_pressed = None;
                    InputEvent::Intermediate(
                        IntermediateEvent::SelectableSpecialReleased(id, x, y),
                    )
                } else {
                    event
                }
            },
            _ => event,
        }
    }
}

impl Intermediate for SelectableArea {
    /// Replaces each event of the batch by what `step` gives for it, in order.
    fn process(&mut self, input: Vec<InputEvent>, dt: Duration) -> (output: Vec<InputEvent>)
        ensures
            (*final(self), output@) == old(self).run(input@),
    {
        let mut output: Vec<InputEvent> = Vec::new();
        let mut i: usize = 0;
        while i < input.len()
            invariant
                i <= input.len(),
                (*self, output@) == old(self).run(input@.take(i as int)),
            decreases input.len() - i,
        {
            let event = input[i];
            let replaced = self.feed(event);
            output.push(replaced);
            proof {
                assert(input@.take(i + 1).drop_last() =~= input@.take(i as int));
            }
            i += 1;
        }
        proof {
            assert(input@.take(input.len() as int) =~= input@);
        }
        output
    }
}

/// A batch of one event does what that event's step does.
pub proof fn lemma_run_single(a: SelectableArea, event: InputEvent)
    ensures
        a.run(seq![event]) == (a.step(event).0, seq![a.step(event).1]),
{
    assert(seq![event].drop_last() =~= Seq::<InputEvent>::empty());
    assert(seq![event].last() == event);
    assert(a.run(Seq::empty()) == (a, Seq::<InputEvent>::empty()));
    assert(Seq::<InputEvent>::empty().push(a.step(event).1) =~= seq![a.step(event).1]);
}

/// An area whose left button is free, pressed by it at a point inside and then, in the next
/// batch, at a second point inside, reports a press at the first point, then a press again if
/// the second point is the first one, else a drag to the second point.
pub proof fn lemma_press_then_press(a: SelectableArea, px: i32, py: i32, qx: i32, qy: i32)
    requires
        a.pressed.is_none(),
        a.contains(px, py),
        a.contains(qx, qy),
    ensures
        ({
            let first_press = IntermediateEvent::CursorPressed(px, py, MouseButton::Left);
            let second_press = IntermediateEvent::CursorPressed(qx, qy, MouseButton::Left);
            let (a1, first) = a.run(seq![InputEvent::Intermediate(first_press)]);
            let (a2, second) = a1.run(seq![InputEvent::Intermediate(second_press)]);
            &&& first == seq![
                InputEvent::Intermediate(IntermediateEvent::SelectablePressed(a.id, px, py)),
            ]
            &&& second == seq![
                InputEvent::Intermediate(
                    if (px, py) == (qx, qy) {
                        IntermediateEvent::SelectablePressed(a.id, qx, qy)
                    } else {
                        IntermediateEvent::SelectableDragged(a.id, qx, qy)
                    },
                ),
            ]
            &&& a2.pressed == Some((qx, qy))
        }),
{
    let first_press = InputEvent::Intermediate(
        IntermediateEvent::CursorPressed(px, py, MouseButton::Left),
    );
    let second_press = InputEvent::Intermediate(
        IntermediateEvent::CursorPressed(qx, qy, MouseButton::Left),
    );
    lemma_run_single(a, first_press);
    lemma_run_single(a.step(first_press).0, second_press);
}

/// A press inside the area of its special button, other than the left button, is reported as
/// a special press at that point, and leaves the primary channel as it was; this holds where
/// the special channel is free or last held at that same point.
pub proof fn lemma_special_press_independent(
    a: SelectableArea,
    x: i32,
    y: i32,
    button: MouseButton,
)
    requires
        button != MouseButton::Left,
        a.is_special(button),
        a.contains(x, y),
        a.special_pressed.is_none() || a.special_pressed == Some((x, y)),
    ensures
        ({
            let press = IntermediateEvent::CursorPressed(x, y, button);
            let (a1, out) = a.run(seq![InputEvent::Intermediate(press)]);
            &&& out == seq![
                InputEvent::Intermediate(IntermediateEvent::SelectableSpecialPressed(a.id, x, y)),
            ]
            &&& a1.pressed == a.pressed
            &&& a1.special_pressed == Some((x, y))
        }),
{
    lemma_run_single(a, InputEvent::Intermediate(IntermediateEvent::CursorPressed(x, y, button)));
}

} // verus!
