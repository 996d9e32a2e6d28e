use std::time::Duration;

use anima_engine::input::{Button, Event, InputEvent, Intermediate, IntermediateEvent, MouseButton, Touch, TouchPhase};

fn zero() -> Duration {
    Duration::new(0, 0)
}

fn cursor_pressed(x: i32, y: i32, button: MouseButton) -> InputEvent {
    InputEvent::Intermediate(IntermediateEvent::CursorPressed(x, y, button))
}

fn cursor_released(x: i32, y: i32, button: MouseButton) -> InputEvent {
    InputEvent::Intermediate(IntermediateEvent::CursorReleased(x, y, button))
}

fn touch(phase: TouchPhase, x: i32, y: i32) -> InputEvent {
    InputEvent::Raw(Event::Touch(Touch { phase: phase, location: (x, y), id: 0 }))
}

fn pressed(id: u32) -> InputEvent {
    InputEvent::Intermediate(IntermediateEvent::ButtonPressed(id))
}

#[test]
fn button_click_outside() {
    let events = vec![cursor_pressed(10, 50, MouseButton::Left)];
    let mut button = Button::new(3, 40, 40, 20, 20);

    let events = button.process(events, zero());

    match events[0] {
        InputEvent::Intermediate(IntermediateEvent::CursorPressed(10, 50, MouseButton::Left)) => assert!(true),
        _ => assert!(false),
    };
}

#[test]
fn button_click_inside() {
    let events = vec![cursor_pressed(50, 50, MouseButton::Left)];
    let mut button = Button::new(3, 40, 40, 20, 20);

    let events = button.process(events, zero());

    match events[0] {
        InputEvent::Intermediate(IntermediateEvent::ButtonPressed(3)) => assert!(true),
        _ => assert!(false),
    };

    let events = vec![cursor_released(50, 50, MouseButton::Left)];

    let events = button.process(events, zero());

    match events[0] {
        InputEvent::Intermediate(IntermediateEvent::ButtonReleased(3)) => assert!(true),
        _ => assert!(false),
    };
}

#[test]
fn click_canceled() {
    let events = vec![cursor_pressed(50, 50, MouseButton::Left)];
    let mut button = Button::new(3, 40, 40, 20, 20);

    let events = button.process(events, zero());

    match events[0] {
        InputEvent::Intermediate(IntermediateEvent::ButtonPressed(3)) => assert!(true),
        _ => assert!(false),
    };

    let events = vec![cursor_released(10, 50, MouseButton::Left)];

    let events = button.process(events, zero());

    match events[0] {
        InputEvent::Intermediate(IntermediateEvent::ButtonCanceled(3)) => assert!(true),
        _ => assert!(false),
    };
}

#[test]
fn touch_outside() {
    let events = vec![touch(TouchPhase::Started, 10, 50)];
    let mut button = Button::new(3, 40, 40, 20, 20);

    let events = button.process(events, zero());

    match events[0] {
        InputEvent::Raw(Event::Touch(_)) => assert!(true),
        _ => assert!(false),
    };
}

#[test]
fn touch_inside() {
    let events = vec![touch(TouchPhase::Started, 50, 50)];
    let mut button = Button::new(3, 40, 40, 20, 20);

    let events = button.process(events, zero());

    match events[0] {
        InputEvent::Intermediate(IntermediateEvent::ButtonPressed(3)) => assert!(true),
        _ => assert!(false),
    };

    let events = vec![touch(TouchPhase::Ended, 50, 50)];

    let events = button.process(events, zero());

    match events[0] {
        InputEvent::Intermediate(IntermediateEvent::ButtonReleased(3)) => assert!(true),
        _ => assert!(false),
    };
}

#[test]
fn touch_canceled() {
    let events = vec![touch(TouchPhase::Started, 50, 50)];
    let mut button = Button::new(3, 40, 40, 20, 20);

    let events = button.process(events, zero());

    match events[0] {
        InputEvent::Intermediate(IntermediateEvent::ButtonPressed(3)) => assert!(true),
        _ => assert!(false),
    };

    let events = vec![touch(TouchPhase::Ended, 10, 50)];

    let events = button.process(events, zero());

    match events[0] {
        InputEvent::Intermediate(IntermediateEvent::ButtonCanceled(3)) => assert!(true),
        _ => assert!(false),
    };
}

#[test]
fn new_button_is_released() {
    let button = Button::new(7, -5, 6, 10, 11);
    assert_eq!((button.id, button.x, button.y, button.width, button.height), (7, -5, 6, 10, 11));
    assert!(!button.pressed);
}

#[test]
fn pressed_button_echoes_every_left_press() {
    let mut button = Button::new(3, 40, 40, 20, 20);
    button.process(vec![cursor_pressed(50, 50, MouseButton::Left)], zero());

    let events = vec![
        cursor_pressed(50, 50, MouseButton::Left),
        cursor_pressed(45, 59, MouseButton::Left),
        cursor_pressed(0, 0, MouseButton::Left),
        cursor_pressed(1000, -1000, MouseButton::Left),
    ];
    let events = button.process(events, zero());

    assert_eq!(events, vec![pressed(3), pressed(3), pressed(3), pressed(3)]);
    assert!(button.pressed);
}

#[test]
fn press_release_round_trip_one_pixel_inside() {
    let mut button = Button::new(9, -20, 100, 1, 1);

    let first = button.process(vec![cursor_pressed(-19, 101, MouseButton::Left)], zero());
    let second = button.process(vec![cursor_released(-19, 101, MouseButton::Left)], zero());

    assert_eq!(first, vec![pressed(9)]);
    assert_eq!(second, vec![InputEvent::Intermediate(IntermediateEvent::ButtonReleased(9))]);
    assert!(!button.pressed);
}

#[test]
fn release_outside_cancels_and_clears() {
    let mut button = Button::new(3, 40, 40, 20, 20);
    button.process(vec![cursor_pressed(40, 60, MouseButton::Left)], zero());

    let events = button.process(vec![cursor_released(61, 60, MouseButton::Left)], zero());

    assert_eq!(events, vec![InputEvent::Intermediate(IntermediateEvent::ButtonCanceled(3))]);
    assert!(!button.pressed);
}

#[test]
fn rectangle_edges_are_inside() {
    for &(x, y) in &[(40, 40), (60, 40), (40, 60), (60, 60)] {
        let mut button = Button::new(1, 40, 40, 20, 20);
        let events = button.process(vec![cursor_pressed(x, y, MouseButton::Left)], zero());
        assert_eq!(events, vec![pressed(1)]);
    }
    for &(x, y) in &[(39, 50), (61, 50), (50, 39), (50, 61)] {
        let mut button = Button::new(1, 40, 40, 20, 20);
        let event = cursor_pressed(x, y, MouseButton::Left);
        let events = button.process(vec![event], zero());
        assert_eq!(events, vec![event]);
    }
}

#[test]
fn extreme_coordinates_do_not_overflow() {
    let mut button = Button::new(1, i32::MIN, i32::MIN, i32::MAX, i32::MAX);
    let event = cursor_pressed(i32::MAX, i32::MAX, MouseButton::Left);
    assert_eq!(button.process(vec![event], zero()), vec![event]);

    let mut button = Button::new(1, i32::MAX, i32::MAX, 0, 0);
    let events = button.process(vec![cursor_pressed(i32::MAX, i32::MAX, MouseButton::Left)], zero());
    assert_eq!(events, vec![pressed(1)]);
}

#[test]
fn other_buttons_and_events_pass_through_in_order() {
    let mut button = Button::new(3, 40, 40, 20, 20);
    let events = vec![
        cursor_pressed(50, 50, MouseButton::Right),
        InputEvent::Raw(Event::Other(17)),
        cursor_released(50, 50, MouseButton::Left),
        InputEvent::Raw(Event::MouseMoved(1, 2)),
        touch(TouchPhase::Moved, 50, 50),
        touch(TouchPhase::Ended, 50, 50),
        touch(TouchPhase::Cancelled, 50, 50),
    ];
    let output = button.process(events.clone(), zero());
    assert_eq!(output, events);
    assert!(!button.pressed);
}

#[test]
fn touch_moves_echo_while_pressed() {
    let mut button = Button::new(3, 40, 40, 20, 20);
    let events = vec![
        touch(TouchPhase::Started, 50, 50),
        touch(TouchPhase::Moved, 0, 0),
        touch(TouchPhase::Started, 0, 0),
        touch(TouchPhase::Ended, 55, 45),
    ];
    let output = button.process(events, zero());
    assert_eq!(
        output,
        vec![pressed(3), pressed(3), pressed(3), InputEvent::Intermediate(IntermediateEvent::ButtonReleased(3))]
    );
    assert!(!button.pressed);
}

#[test]
fn touch_cancel_keeps_button_pressed() {
    let mut button = Button::new(3, 40, 40, 20, 20);
    button.process(vec![touch(TouchPhase::Started, 50, 50)], zero());

    let events = button.process(vec![touch(TouchPhase::Cancelled, 50, 50)], zero());
    assert_eq!(events, vec![InputEvent::Intermediate(IntermediateEvent::ButtonCanceled(3))]);
    assert!(button.pressed);

    let events = button.process(vec![touch(TouchPhase::Started, 0, 0)], zero());
    assert_eq!(events, vec![pressed(3)]);
}
