use screenextend::input::{
    absolute_event, injection_reports, injector_key_codes, key_event, motion_event,
    mouse_button_event, scroll_event, InputCapture, RawEvent,
    BTN_EXTRA, BTN_LEFT, BTN_MIDDLE, BTN_RIGHT, BTN_SIDE, EV_ABS, EV_KEY, EV_REL, EV_SYN,
};
use screenextend::protocol::{InputEvent, MouseButton};

fn syn() -> RawEvent {
    RawEvent { event_type: EV_SYN, code: 0, value: 0 }
}

#[test]
fn gtk_buttons() {
    assert_eq!(MouseButton::from_gtk_code(1), Some(MouseButton::Left));
    assert_eq!(MouseButton::from_gtk_code(2), Some(MouseButton::Middle));
    assert_eq!(MouseButton::from_gtk_code(3), Some(MouseButton::Right));
    assert_eq!(MouseButton::from_gtk_code(8), Some(MouseButton::Back));
    assert_eq!(MouseButton::from_gtk_code(9), Some(MouseButton::Forward));
    assert_eq!(MouseButton::from_gtk_code(4), None);
    assert_eq!(
        mouse_button_event(3, true),
        Some(InputEvent::MouseButton { button: MouseButton::Right, pressed: true })
    );
    assert_eq!(mouse_button_event(0, true), None);
}

#[test]
fn capture_sends_events() {
    let (tx, mut rx) = tokio::sync::mpsc::channel(8);
    let mut cap = InputCapture::new(tx);
    cap.handle_mouse_motion(10.5f64.to_bits(), (-3.2f64).to_bits());
    assert!(cap.handle_mouse_button(1, true));
    assert!(!cap.handle_mouse_button(7, true));
    cap.handle_key(30, false);
    match rx.try_recv().unwrap() {
        InputEvent::MouseMove { dx, dy } => {
            assert_eq!(f64::from_bits(dx), 10.5);
            assert_eq!(f64::from_bits(dy), -3.2);
        }
        _ => panic!("Wrong variant"),
    }
    assert_eq!(
        rx.try_recv().unwrap(),
        InputEvent::MouseButton { button: MouseButton::Left, pressed: true }
    );
    assert_eq!(rx.try_recv().unwrap(), InputEvent::Key { keycode: 30, pressed: false });
    assert!(rx.try_recv().is_err());
}

#[test]
fn capture_drops_events_when_the_channel_is_full_or_closed() {
    let (tx, mut rx) = tokio::sync::mpsc::channel(1);
    let mut cap = InputCapture::new(tx);
    cap.handle_key(1, true);
    cap.handle_key(2, true);
    assert_eq!(rx.try_recv().unwrap(), InputEvent::Key { keycode: 1, pressed: true });
    assert!(rx.try_recv().is_err());
    drop(rx);
    cap.handle_key(3, false);
}

#[test]
fn event_constructors_keep_their_arguments() {
    assert_eq!(motion_event(1, 2), InputEvent::MouseMove { dx: 1, dy: 2 });
    assert_eq!(absolute_event(640, 360), InputEvent::MouseMoveAbsolute { x: 640, y: 360 });
    assert_eq!(scroll_event(0, 7), InputEvent::MouseScroll { dx: 0, dy: 7 });
    assert_eq!(key_event(57, true), InputEvent::Key { keycode: 57, pressed: true });
}

#[test]
fn capture_sends_motion_scroll_and_position() {
    let (tx, mut rx) = tokio::sync::mpsc::channel(8);
    let mut cap = InputCapture::new(tx);
    cap.handle_mouse_absolute(100, 200);
    cap.handle_scroll(3, 4);
    cap.handle_mouse_motion(5, 6);
    assert!(cap.handle_mouse_button(3, false));
    assert!(!cap.handle_mouse_button(0, false));
    assert_eq!(rx.try_recv().unwrap(), InputEvent::MouseMoveAbsolute { x: 100, y: 200 });
    assert_eq!(rx.try_recv().unwrap(), InputEvent::MouseScroll { dx: 3, dy: 4 });
    assert_eq!(rx.try_recv().unwrap(), InputEvent::MouseMove { dx: 5, dy: 6 });
    assert_eq!(
        rx.try_recv().unwrap(),
        InputEvent::MouseButton { button: MouseButton::Right, pressed: false }
    );
    assert!(rx.try_recv().is_err());
}

#[test]
fn button_reports() {
    let ev = InputEvent::MouseButton { button: MouseButton::Left, pressed: true };
    assert_eq!(
        injection_reports(&ev, (0, 0)),
        vec![RawEvent { event_type: EV_KEY, code: 0x110, value: 1 }, syn()]
    );
    let codes: Vec<u16> = [
        MouseButton::Left,
        MouseButton::Right,
        MouseButton::Middle,
        MouseButton::Back,
        MouseButton::Forward,
    ]
    .iter()
    .map(|b| b.key_code())
    .collect();
    assert_eq!(codes, vec![BTN_LEFT, BTN_RIGHT, BTN_MIDDLE, BTN_SIDE, BTN_EXTRA]);
    let ev = InputEvent::MouseButton { button: MouseButton::Forward, pressed: false };
    assert_eq!(injection_reports(&ev, (0, 0))[0].value, 0);
}

#[test]
fn motion_reports() {
    let ev = InputEvent::MouseMove { dx: 0, dy: 0 };
    assert_eq!(
        injection_reports(&ev, (5, -2)),
        vec![
            RawEvent { event_type: EV_REL, code: 0, value: 5 },
            RawEvent { event_type: EV_REL, code: 1, value: -2 },
            syn()
        ]
    );
    assert_eq!(
        injection_reports(&ev, (0, 3)),
        vec![RawEvent { event_type: EV_REL, code: 1, value: 3 }, syn()]
    );
    assert!(injection_reports(&ev, (0, 0)).is_empty());
    let abs = InputEvent::MouseMoveAbsolute { x: 0, y: 0 };
    assert_eq!(
        injection_reports(&abs, (0, 0)),
        vec![
            RawEvent { event_type: EV_ABS, code: 0, value: 0 },
            RawEvent { event_type: EV_ABS, code: 1, value: 0 },
            syn()
        ]
    );
}

#[test]
fn scroll_and_key_reports() {
    let ev = InputEvent::MouseScroll { dx: 0, dy: 0 };
    assert_eq!(
        injection_reports(&ev, (-1, 1)),
        vec![
            RawEvent { event_type: EV_REL, code: 8, value: 1 },
            RawEvent { event_type: EV_REL, code: 6, value: -1 },
            syn()
        ]
    );
    assert!(injection_reports(&ev, (0, 0)).is_empty());
    let key = InputEvent::Key { keycode: 65536 + 30, pressed: true };
    assert_eq!(
        injection_reports(&key, (0, 0)),
        vec![RawEvent { event_type: EV_KEY, code: 30, value: 1 }, syn()]
    );
}

#[test]
fn device_keys() {
    let codes = injector_key_codes();
    assert_eq!(codes.len(), 253);
    assert_eq!(&codes[..5], &[0x110, 0x111, 0x112, 0x113, 0x114]);
    assert_eq!(codes[5], 1);
    assert_eq!(codes[252], 248);
}
