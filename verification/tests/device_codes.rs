use evdev::{
    AbsoluteAxisCode, EventType, InputEvent, KeyCode, RelativeAxisCode, SynchronizationCode,
};
use motor_rust::codes::{
    ABS_RX, ABS_RY, ABS_RZ, ABS_X, ABS_Y, ABS_Z, BTN_EXTRA, BTN_LEFT, BTN_MIDDLE, BTN_PINKIE,
    BTN_RIGHT, BTN_SIDE, BTN_THUMB, BTN_TOP, BTN_TOP2, BTN_TRIGGER, EV_ABS, EV_KEY, EV_REL,
    EV_SYN, REL_HWHEEL, REL_WHEEL, REL_X, REL_Y, SYN_REPORT,
};
use motor_rust::frame::{Buttons, Frame};

#[test]
fn event_kinds_are_those_of_the_input_subsystem() {
    assert_eq!(EV_SYN, EventType::SYNCHRONIZATION.0);
    assert_eq!(EV_KEY, EventType::KEY.0);
    assert_eq!(EV_REL, EventType::RELATIVE.0);
    assert_eq!(EV_ABS, EventType::ABSOLUTE.0);
    assert_eq!(SYN_REPORT, SynchronizationCode::SYN_REPORT.0);
}

#[test]
fn pointer_codes_are_those_of_the_input_subsystem() {
    assert_eq!(REL_X, RelativeAxisCode::REL_X.0);
    assert_eq!(REL_Y, RelativeAxisCode::REL_Y.0);
    assert_eq!(REL_WHEEL, RelativeAxisCode::REL_WHEEL.0);
    assert_eq!(REL_HWHEEL, RelativeAxisCode::REL_HWHEEL.0);
    assert_eq!(BTN_LEFT, KeyCode::BTN_LEFT.0);
    assert_eq!(BTN_RIGHT, KeyCode::BTN_RIGHT.0);
    assert_eq!(BTN_MIDDLE, KeyCode::BTN_MIDDLE.0);
    assert_eq!(BTN_SIDE, KeyCode::BTN_SIDE.0);
    assert_eq!(BTN_EXTRA, KeyCode::BTN_EXTRA.0);
}

#[test]
fn stick_codes_are_those_of_the_input_subsystem() {
    assert_eq!(ABS_X, AbsoluteAxisCode::ABS_X.0);
    assert_eq!(ABS_Y, AbsoluteAxisCode::ABS_Y.0);
    assert_eq!(ABS_Z, AbsoluteAxisCode::ABS_Z.0);
    assert_eq!(ABS_RX, AbsoluteAxisCode::ABS_RX.0);
    assert_eq!(ABS_RY, AbsoluteAxisCode::ABS_RY.0);
    assert_eq!(ABS_RZ, AbsoluteAxisCode::ABS_RZ.0);
    assert_eq!(BTN_TRIGGER, KeyCode::BTN_TRIGGER.0);
    assert_eq!(BTN_THUMB, KeyCode::BTN_THUMB.0);
    assert_eq!(BTN_TOP, KeyCode::BTN_TOP.0);
    assert_eq!(BTN_TOP2, KeyCode::BTN_TOP2.0);
    assert_eq!(BTN_PINKIE, KeyCode::BTN_PINKIE.0);
}

#[test]
fn frame_events_convert_to_device_events() {
    let buttons = Buttons { trigger: true, thumb: false, top: false, side1: true, side2: false };
    let frame = Frame::new(500_000, -250_000, 0, 1_000_000, 0, 0, buttons);
    let events: Vec<InputEvent> =
        frame.events().iter().map(|e| InputEvent::new(e.kind, e.code, e.value)).collect();
    assert_eq!(events.len(), 12);
    assert_eq!(events[0].event_type(), EventType::ABSOLUTE);
    assert_eq!((events[0].code(), events[0].value()), (AbsoluteAxisCode::ABS_X.0, 16_384));
    assert_eq!((events[1].code(), events[1].value()), (AbsoluteAxisCode::ABS_Y.0, -8_192));
    assert_eq!((events[3].code(), events[3].value()), (AbsoluteAxisCode::ABS_RZ.0, 32_767));
    assert_eq!(events[6].event_type(), EventType::KEY);
    assert_eq!((events[6].code(), events[6].value()), (KeyCode::BTN_TRIGGER.0, 1));
    assert_eq!((events[9].code(), events[9].value()), (KeyCode::BTN_TOP2.0, 1));
    assert_eq!(events[11].event_type(), EventType::SYNCHRONIZATION);
    assert_eq!((events[11].code(), events[11].value()), (SynchronizationCode::SYN_REPORT.0, 0));
}
