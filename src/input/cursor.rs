//! Tracking of the pointer: its position and which of its buttons are held.

use std::time::Duration;

use vstd::prelude::*;

use super::event::{ElementState, Event, InputEvent, IntermediateEvent, MouseButton};
use super::intermediate::Intermediate;

verus! {

/// A filter that converts raw mouse events to cursor events.
///
/// `pressed` holds, for every button seen so far, whether it is held, in the order in which the
/// buttons were first seen; each button appears in it at most once.
pub struct Cursor {
    pub pos: Option<(i32, i32)>,
    pub pressed: Vec<(MouseButton, bool)>,
}

/// Whether no button appears twice in `pressed`.
pub open spec fn buttons_unique(pressed: Seq<(MouseButton, bool)>) -> bool {
    forall|i: int, j: int|
        0 <= i < j < pressed.len() ==> #[trigger] pressed[i].0 != #[trigger] pressed[j].0
}

/// Whether `button` appears in `pressed`.
pub open spec fn seen(pressed: Seq<(MouseButton, bool)>, button: MouseButton) -> bool {
    exists|i: int| 0 <= i < pressed.len() && #[trigger] pressed[i].0 == button
}

/// `pressed` with `button` marked as `held`: its entry is replaced where it has one, else a new
/// entry is added at the end.
pub open spec fn record(
    pressed: Seq<(MouseButton, bool)>,
    button: MouseButton,
    held: bool,
) -> Seq<(MouseButton, bool)> {
    if seen(pressed, button) {
        pressed.map_values(
            |e: (MouseButton, bool)|
                if e.0 == button {
                    (button, held)
                } else {
                    e
                },
        )
    } else {
        pressed.push((button, held))
    }
}

/// One `CursorPressed` at `(x, y)` for each held button of `pressed`, in the order of `pressed`.
pub open spec fn held_presses(x: i32, y: i32, pressed: Seq<(MouseButton, bool)>) -> Seq<InputEvent>
    decreases pressed.len(),
{
    if pressed.len() == 0 {
        Seq::empty()
    } else {
        let rest = held_presses(x, y, pressed.drop_last());
        let (button, held) = pressed.last();
        if held {
            rest.push(InputEvent::Intermediate(IntermediateEvent::CursorPressed(x, y, button)))
        } else {
            rest
        }
    }
}

/// The events appended at the end of a batch: a `CursorPressed` for each held button, at the
/// cursor's position, if the position is known; none otherwise.
pub open spec fn sweep(pos: Option<(i32, i32)>, pressed: Seq<(MouseButton, bool)>) -> Seq<InputEvent> {
    match pos {
        Some((x, y)) => held_presses(x, y, pressed),
        None => Seq::empty(),
    }
}

/// The state of a cursor as contracts speak of it: its position and its buttons.
pub type CursorModel = (Option<(i32, i32)>, Seq<(MouseButton, bool)>);

/// What one event does to the cursor, and the events (none or one) that take its place.
///
/// A move sets the position; a press marks the button held; a release marks it not held and,
/// if the position is known, is replaced by a `CursorReleased` there. These three are consumed;
/// every other event passes unchanged.
pub open spec fn cursor_step(c: CursorModel, event: InputEvent) -> (CursorModel, Seq<InputEvent>) {
    let (pos, pressed) = c;
    match event {
        InputEvent::Raw(Event::MouseMoved(x, y)) => ((Some((x, y)), pressed), Seq::empty()),
        InputEvent::Raw(Event::MouseInput(ElementState::Pressed, button)) => {
            ((pos, record(pressed, button, true)), Seq::empty())
        },
        InputEvent::Raw(Event::MouseInput(ElementState::Released, button)) => {
            (
                (pos, record(pressed, button, false)),
                match pos {
                    Some((x, y)) => seq![
                        InputEvent::Intermediate(IntermediateEvent::CursorReleased(x, y, button)),
                    ],
                    None => Seq::empty(),
                },
            )
        },
        _ => (c, seq![event]),
    }
}

/// What a batch does before the final sweep: the cursor after all of it, and the events that
/// took the place of its events, in order.
pub open spec fn cursor_run(c: CursorModel, events: Seq<InputEvent>) -> (CursorModel, Seq<InputEvent>)
    decreases events.len(),
{
    if events.len() == 0 {
        (c, Seq::empty())
    } else {
        let (before, out) = cursor_run(c, events.drop_last());
        let (after, added) = cursor_step(before, events.last());
        (after, out + added)
    }
}

/// The output batch for `events`: the events that took their place, then the sweep of held
/// buttons at the final position.
pub open spec fn cursor_output(c: CursorModel, events: Seq<InputEvent>) -> Seq<InputEvent> {
    let (after, out) = cursor_run(c, events);
    out + sweep(after.0, after.1)
}

/// Marking a button keeps each button at most once in `pressed`.
pub proof fn lemma_record_keeps_unique(
    pressed: Seq<(MouseButton, bool)>,
    button: MouseButton,
    held: bool,
)
    requires
        buttons_unique(pressed),
    ensures
        buttons_unique(record(pressed, button, held)),
{
    let r = record(pressed, button, held);
    if seen(pressed, button) {
        assert forall|i: int| 0 <= i < r.len() implies #[trigger] r[i].0 == pressed[i].0 by {}
    } else {
        assert forall|i: int, j: int| 0 <= i < j < r.len() implies #[trigger] r[i].0
            != #[trigger] r[j].0 by {
            if j == pressed.len() {
                assert(r[i].0 == pressed[i].0);
            } else {
                assert(r[i] == pressed[i] && r[j] == pressed[j]);
            }
        }
    }
}

/// A batch keeps each button at most once in `pressed`.
pub proof fn lemma_run_keeps_unique(c: CursorModel, events: Seq<InputEvent>)
    requires
        buttons_unique(c.1),
    ensures
        buttons_unique(cursor_run(c, events).0.1),
    decreases events.len(),
{
    if events.len() > 0 {
        lemma_run_keeps_unique(c, events.drop_last());
        let before = cursor_run(c, events.drop_last()).0;
        match events.last() {
            InputEvent::Raw(Event::MouseInput(_, button)) => {
                lemma_record_keeps_unique(before.1, button, true);
                lemma_record_keeps_unique(before.1, button, false);
            },
            _ => {},
        }
    }
}

impl Cursor {
    /// Creates a `Cursor` without an initial position and without any pressed buttons.
    pub fn new() -> (r: Cursor)
        ensures
            r.pos.is_none(),
            r.pressed@.len() == 0,
    {
        Cursor { pos: None, pressed: Vec::new() }
    }

    /// The cursor's position and buttons.
    pub open spec fn model(&self) -> CursorModel {
        (self.pos, self.pressed@)
    }

    fn record_button(&mut self, button: MouseButton, held: bool)
        ensures
            final(self).pos == old(self).pos,
            final(self).pressed@ == record(old(self).pressed@, button, held),
    {
        let ghost start = self.pressed@;
        let mut found = false;
        let mut i: usize = 0;
        while i < self.pressed.len()
            invariant
                self.pos == old(self).pos,
                start == old(self).pressed@,
                self.pressed@.len() == start.len(),
                i <= start.len(),
                forall|j: int|
                    0 <= j < i ==> self.pressed@[j] == (if start[j].0 == button {
                        (button, held)
                    } else {
                        start[j]
                    }),
                forall|j: int| i <= j < start.len() ==> self.pressed@[j] == start[j],
                found == exists|j: int| 0 <= j < i && #[trigger] start[j].0 == button,
            decreases start.len() - i,
        {
            if self.pressed[i].0 == button {
                self.pressed[i] = (button, held);
                found = true;
            }
            i += 1;
        }
        if found {
            assert(self.pressed@ =~= record(start, button, held));
        } else {
            assert(!seen(start, button));
            self.pressed.push((button, held));
            assert(self.pressed@ =~= record(start, button, held));
        }
    }

    fn feed(&mut self, event: InputEvent, output: &mut Vec<InputEvent>)
        ensures
            cursor_step(old(self).model(), event) == (final(self).model(), final(output)@.skip(
                old(output)@.len() as int,
            )),
            final(output)@.len() >= old(output)@.len(),
            final(output)@.take(old(output)@.len() as int) == old(output)@,
    {
        let ghost start = output@;
        match event {
            InputEvent::Raw(Event::MouseMoved(x, y)) => {
                self.pos = Some((x, y));
            },
            InputEvent::Raw(Event::MouseInput(ElementState::Pressed, button)) => {
                self.record_button(button, true);
            },
            InputEvent::Raw(Event::MouseInput(ElementState::Released, button)) => {
                self.record_button(button, false);
                if let Some((x, y)) = self.pos {
                    output.push(
                        InputEvent::Intermediate(IntermediateEvent::CursorReleased(x, y, button)),
                    );
                }
            },
            _ => {
                output.push(event);
            },
        }
        assert(output@.take(start.len() as int) =~= start);
        assert(cursor_step(old(self).model(), event).1 =~= output@.skip(start.len() as int));
    }

    fn push_held(&self, output: &mut Vec<InputEvent>)
        ensures
            final(output)@ == old(output)@ + sweep(self.pos, self.pressed@),
    {
        let ghost start = output@;
        if let Some((x, y)) = self.pos {
            let mut i: usize = 0;
            while i < self.pressed.len()
                invariant
                    i <= self.pressed@.len(),
                    output@ == start + held_presses(x, y, self.pressed@.take(i as int)),
                decreases self.pressed@.len() - i,
            {
                let (button, held) = self.pressed[i];
                proof {
                    assert(self.pressed@.take(i + 1).drop_last() =~= self.pressed@.take(i as int));
                }
                if held {
                    output.push(
                        InputEvent::Intermediate(IntermediateEvent::CursorPressed(x, y, button)),
                    );
                }
                assert(output@ =~= start + held_presses(x, y, self.pressed@.take(i + 1)));
                i += 1;
            }
            assert(self.pressed@.take(self.pressed@.len() as int) =~= self.pressed@);
        } else {
            assert(output@ =~= start + sweep(self.pos, self.pressed@));
        }
    }
}

impl Intermediate for Cursor {
    /// Consumes mouse moves, presses and releases (a release becomes a `CursorReleased` where
    /// the position is known), passes every other event, then appends a `CursorPressed` for
    /// each held button at the final position.
    fn process(&mut self, input: Vec<InputEvent>, dt: Duration) -> (output: Vec<InputEvent>)
        ensures
            final(self).model() == cursor_run(old(self).model(), input@).0,
            output@ == cursor_output(old(self).model(), input@),
            buttons_unique(old(self).pressed@) ==> buttons_unique(final(self).pressed@),
    {
        let mut output: Vec<InputEvent> = Vec::new();
        let mut i: usize = 0;
        while i < input.len()
            invariant
                i <= input.len(),
                (self.model(), output@) == cursor_run(old(self).model(), input@.take(i as int)),
            decreases input.len() - i,
        {
            let event = input[i];
            let ghost before = output@;
            self.feed(event, &mut output);
            proof {
                assert(input@.take(i + 1).drop_last() =~= input@.take(i as int));
                assert(output@ =~= output@.take(before.len() as int) + output@.skip(
                    before.len() as int,
                ));
            }
            i += 1;
        }
        proof {
            assert(input@.take(input.len() as int) =~= input@);
        }
        proof {
            if buttons_unique(old(self).pressed@) {
                lemma_run_keeps_unique(old(self).model(), input@);
            }
        }
        self.push_held(&mut output);
        output
    }
}

/// A new cursor that sees a move to `(x, y)` and a press of `button`, in one batch, reports
/// `button` held at `(x, y)` at the end of that batch, and again, alone, on a following empty
/// batch.
pub proof fn lemma_press_reported_each_batch(x: i32, y: i32, button: MouseButton)
    ensures
        ({
            let fresh: CursorModel = (None, Seq::empty());
            let events = seq![
                InputEvent::Raw(Event::MouseMoved(x, y)),
                InputEvent::Raw(Event::MouseInput(ElementState::Pressed, button)),
            ];
            let held = seq![
                InputEvent::Intermediate(IntermediateEvent::CursorPressed(x, y, button)),
            ];
            let after = cursor_run(fresh, events).0;
            &&& cursor_output(fresh, events) == held
            &&& cursor_output(after, Seq::empty()) == held
        }),
{
    let fresh: CursorModel = (None, Seq::empty());
    let moved = InputEvent::Raw(Event::MouseMoved(x, y));
    let pressed = InputEvent::Raw(Event::MouseInput(ElementState::Pressed, button));
    let events = seq![moved, pressed];
    assert(events.drop_last() =~= seq![moved]);
    assert(seq![moved].drop_last() =~= Seq::<InputEvent>::empty());
    assert(cursor_run(fresh, Seq::empty()) == (fresh, Seq::<InputEvent>::empty()));
    assert(cursor_run(fresh, seq![moved]).0 == (Some((x, y)), Seq::<(MouseButton, bool)>::empty()));
    assert(!seen(Seq::<(MouseButton, bool)>::empty(), button));
    let after = cursor_run(fresh, events).0;
    assert(after == (Some((x, y)), seq![(button, true)]));
    assert(cursor_run(fresh, events).1 =~= Seq::<InputEvent>::empty());
    assert(seq![(button, true)].drop_last() =~= Seq::<(MouseButton, bool)>::empty());
    assert(held_presses(x, y, Seq::<(MouseButton, bool)>::empty()) == Seq::<InputEvent>::empty());
    let held = seq![InputEvent::Intermediate(IntermediateEvent::CursorPressed(x, y, button))];
    assert(held_presses(x, y, seq![(button, true)]) =~= held);
    assert(cursor_run(after, Seq::empty()) == (after, Seq::<InputEvent>::empty()));
    assert(cursor_output(fresh, events) =~= held);
    assert(cursor_output(after, Seq::empty()) =~= held);
}

} // verus!
