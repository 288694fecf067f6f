//! Input forwarding: the client captures pointer and keyboard events, and
//! the host turns each forwarded event into the kernel input reports of a
//! virtual mouse and keyboard.
use vstd::prelude::*;
use crate::protocol::{InputEvent, MouseButton};
use tokio::sync::mpsc::Sender;

verus! {

// ---------------------------------------------------------------------
// Capture on the client.
#[verifier::external_type_specification]
#[verifier::external_body]
#[verifier::reject_recursive_types(T)]
pub struct ExSender<T>(Sender<T>);

/// The button that a GTK button number names: 1 is the left button, 2 the
/// middle one, 3 the right one, 8 back and 9 forward.
pub open spec fn gtk_button(code: u32) -> Option<MouseButton> {
    if code == 1 {
        Some(MouseButton::Left)
    } else if code == 2 {
        Some(MouseButton::Middle)
    } else if code == 3 {
        Some(MouseButton::Right)
    } else if code == 8 {
        Some(MouseButton::Back)
    } else if code == 9 {
        Some(MouseButton::Forward)
    } else {
        None
    }
}

impl MouseButton {
    /// The button that a GTK button number names, if any.
    pub fn from_gtk_code(code: u32) -> (b: Option<MouseButton>)
        ensures
            b == gtk_button(code),
    {
        match code {
            1 => Some(MouseButton::Left),
            2 => Some(MouseButton::Middle),
            3 => Some(MouseButton::Right),
            8 => Some(MouseButton::Back),
            9 => Some(MouseButton::Forward),
            _ => None,
        }
    }
}

/// The event that a press or release of a GTK button number forwards.
pub fn mouse_button_event(code: u32, pressed: bool) -> (e: Option<InputEvent>)
    ensures
        e == match gtk_button(code) {
            Some(b) => Some(InputEvent::MouseButton { button: b, pressed }),
            None => None,
        },
{
    match MouseButton::from_gtk_code(code) {
        Some(button) => Some(InputEvent::MouseButton { button, pressed }),
        None => None,
    }
}

/// The event that a relative pointer movement forwards.
pub fn motion_event(dx: u64, dy: u64) -> (e: InputEvent)
    ensures
        e == (InputEvent::MouseMove { dx, dy }),
{
    InputEvent::MouseMove { dx, dy }
}

/// The event that a pointer position within the video viewport forwards.
pub fn absolute_event(x: u64, y: u64) -> (e: InputEvent)
    ensures
        e == (InputEvent::MouseMoveAbsolute { x, y }),
{
    InputEvent::MouseMoveAbsolute { x, y }
}

/// The event that a scroll forwards.
pub fn scroll_event(dx: u64, dy: u64) -> (e: InputEvent)
    ensures
        e == (InputEvent::MouseScroll { dx, dy }),
{
    InputEvent::MouseScroll { dx, dy }
}

/// The event that a key press or release forwards.
pub fn key_event(keycode: u32, pressed: bool) -> (e: InputEvent)
    ensures
        e == (InputEvent::Key { keycode, pressed }),
{
    InputEvent::Key { keycode, pressed }
}

/// Captures user input on the client side and sends it to the output channel.
///
/// Coordinates and scroll amounts are taken as the bit patterns of their
/// `f64` values (`f64::to_bits`). The capture keeps, as ghost state, the
/// events it has handed to the channel, in order.
pub struct InputCapture {
    sender: Sender<InputEvent>,
    offered: Ghost<Seq<InputEvent>>,
}

/// `tokio::sync::mpsc::Sender::try_send` on the capture's channel: queues
/// the event when the channel has room and is open, and otherwise drops it.
/// Each call hands the event over once, which the capture's record of
/// offered events notes; whether the receiver got it depends on the other
/// side, so that is not stated.
#[verifier::external_body]
fn offer_event(capture: &mut InputCapture, event: InputEvent)
    ensures
        final(capture).offered() == old(capture).offered().push(event),
        final(capture).channel() == old(capture).channel(),
{
    let _ = capture.sender.try_send(event);
}

impl InputCapture {
    /// The channel that captured events are sent to.
    pub closed spec fn channel(&self) -> Sender<InputEvent> {
        self.sender
    }

    /// The events handed to the channel so far, in order.
    pub closed spec fn offered(&self) -> Seq<InputEvent> {
        self.offered@
    }

    /// Create a new capture with a target event channel.
    pub fn new(sender: Sender<InputEvent>) -> (c: Self)
        ensures
            c.channel() == sender,
            c.offered() == Seq::<InputEvent>::empty(),
    {
        InputCapture { sender, offered: Ghost(Seq::empty()) }
    }

    /// Dispatch relative mouse movement.
    pub fn handle_mouse_motion(&mut self, dx: u64, dy: u64)
        ensures
            final(self).offered() == old(self).offered().push(InputEvent::MouseMove { dx, dy }),
            final(self).channel() == old(self).channel(),
    {
        offer_event(self, motion_event(dx, dy));
    }

    /// Dispatch absolute mouse movement (cursor coordinates within the video
    /// viewport).
    pub fn handle_mouse_absolute(&mut self, x: u64, y: u64)
        ensures
            final(self).offered() == old(self).offered().push(
                InputEvent::MouseMoveAbsolute { x, y },
            ),
            final(self).channel() == old(self).channel(),
    {
        offer_event(self, absolute_event(x, y));
    }

    /// Dispatch a mouse button press or release: the button's event is
    /// handed to the channel once; a button number that names no button
    /// sends nothing. Returns whether an event was sent.
    pub fn handle_mouse_button(&mut self, button_code: u32, pressed: bool) -> (forwarded: bool)
        ensures
            forwarded == gtk_button(button_code) is Some,
            final(self).offered() == match gtk_button(button_code) {
                Some(b) => old(self).offered().push(InputEvent::MouseButton { button: b, pressed }),
                None => old(self).offered(),
            },
            final(self).channel() == old(self).channel(),
    {
        match mouse_button_event(button_code, pressed) {
            Some(event) => {
                offer_event(self, event);
                true
            },
            None => false,
        }
    }

    /// Dispatch scroll wheel action.
    pub fn handle_scroll(&mut self, dx: u64, dy: u64)
        ensures
            final(self).offered() == old(self).offered().push(
                InputEvent::MouseScroll { dx, dy },
            ),
            final(self).channel() == old(self).channel(),
    {
        offer_event(self, scroll_event(dx, dy));
    }

    /// Dispatch keyboard key event (Linux evdev keycode).
    pub fn handle_key(&mut self, keycode: u32, pressed: bool)
        ensures
            final(self).offered() == old(self).offered().push(
                InputEvent::Key { keycode, pressed },
            ),
            final(self).channel() == old(self).channel(),
    {
        offer_event(self, key_event(keycode, pressed));
    }
}

// ---------------------------------------------------------------------
// Injection on the host.
/// Kernel event types and codes (linux/input-event-codes.h).
pub const EV_SYN: u16 = 0x00;
pub const EV_KEY: u16 = 0x01;
pub const EV_REL: u16 = 0x02;
pub const EV_ABS: u16 = 0x03;
pub const SYN_REPORT: u16 = 0;
pub const REL_X: u16 = 0x00;
pub const REL_Y: u16 = 0x01;
pub const REL_HWHEEL: u16 = 0x06;
pub const REL_WHEEL: u16 = 0x08;
pub const ABS_X: u16 = 0x00;
pub const ABS_Y: u16 = 0x01;
pub const BTN_LEFT: u16 = 0x110;
pub const BTN_RIGHT: u16 = 0x111;
pub const BTN_MIDDLE: u16 = 0x112;
pub const BTN_SIDE: u16 = 0x113;
pub const BTN_EXTRA: u16 = 0x114;

/// One kernel input report: type, code and value.
#[derive(Debug, Clone, Copy, PartialEq, Eq, Structural)]
pub struct RawEvent {
    pub event_type: u16,
    pub code: u16,
    pub value: i32,
}

/// The key code of a mouse button.
pub open spec fn button_code(b: MouseButton) -> u16 {
    match b {
        MouseButton::Left => BTN_LEFT,
        MouseButton::Right => BTN_RIGHT,
        MouseButton::Middle => BTN_MIDDLE,
        MouseButton::Back => BTN_SIDE,
        MouseButton::Forward => BTN_EXTRA,
    }
}

impl MouseButton {
    /// The kernel key code of the button.
    pub fn key_code(&self) -> (c: u16)
        ensures
            c == button_code(*self),
    {
        match self {
            MouseButton::Left => BTN_LEFT,
            MouseButton::Right => BTN_RIGHT,
            MouseButton::Middle => BTN_MIDDLE,
            MouseButton::Back => BTN_SIDE,
            MouseButton::Forward => BTN_EXTRA,
        }
    }
}

/// Different buttons press different keys.
pub proof fn law_button_codes_distinct(a: MouseButton, b: MouseButton)
    ensures
        button_code(a) == button_code(b) <==> a == b,
{
}

pub open spec fn press_value(pressed: bool) -> i32 {
    if pressed {
        1
    } else {
        0
    }
}

/// The reports for an event, before the closing synchronization report.
///
/// `amounts` are the integers that the event's floating-point fields give,
/// computed by the caller: for a relative or absolute move, its two
/// coordinates truncated to `i32` (`f64 as i32`); for a scroll, the sign
/// (-1, 0 or 1) of its horizontal and of its vertical amount, where a
/// value equal to zero gives 0 and any other value that is not above zero
/// gives -1. Buttons and keys use none.
pub open spec fn event_reports(event: InputEvent, amounts: (i32, i32)) -> Seq<RawEvent> {
    match event {
        InputEvent::MouseMove { .. } => (if amounts.0 != 0 {
            seq![RawEvent { event_type: EV_REL, code: REL_X, value: amounts.0 }]
        } else {
            seq![]
        }) + (if amounts.1 != 0 {
            seq![RawEvent { event_type: EV_REL, code: REL_Y, value: amounts.1 }]
        } else {
            seq![]
        }),
        InputEvent::MouseMoveAbsolute { .. } => seq![
            RawEvent { event_type: EV_ABS, code: ABS_X, value: amounts.0 },
            RawEvent { event_type: EV_ABS, code: ABS_Y, value: amounts.1 },
        ],
        InputEvent::MouseButton { button, pressed } => seq![
            RawEvent { event_type: EV_KEY, code: button_code(button), value: press_value(pressed) },
        ],
        InputEvent::MouseScroll { .. } => (if amounts.1 != 0 {
            seq![RawEvent { event_type: EV_REL, code: REL_WHEEL, value: amounts.1 }]
        } else {
            seq![]
        }) + (if amounts.0 != 0 {
            seq![RawEvent { event_type: EV_REL, code: REL_HWHEEL, value: amounts.0 }]
        } else {
            seq![]
        }),
        InputEvent::Key { keycode, pressed } => seq![
            RawEvent { event_type: EV_KEY, code: keycode as u16, value: press_value(pressed) },
        ],
    }
}

/// The reports that inject an event: its own, closed by a synchronization
/// report, or none at all when it has none.
pub open spec fn injected_reports(event: InputEvent, amounts: (i32, i32)) -> Seq<RawEvent> {
    let r = event_reports(event, amounts);
    if r.len() == 0 {
        r
    } else {
        r.push(RawEvent { event_type: EV_SYN, code: SYN_REPORT, value: 0 })
    }
}

/// The reports that inject `event` through a virtual device.
pub fn injection_reports(event: &InputEvent, amounts: (i32, i32)) -> (r: Vec<RawEvent>)
    requires
        event is MouseScroll ==> -1 <= amounts.0 <= 1 && -1 <= amounts.1 <= 1,
    ensures
        r@ == injected_reports(*event, amounts),
{
    let mut raw: Vec<RawEvent> = Vec::new();
    match event {
        InputEvent::MouseMove { .. } => {
            if amounts.0 != 0 {
                raw.push(RawEvent { event_type: EV_REL, code: REL_X, value: amounts.0 });
            }
            if amounts.1 != 0 {
                raw.push(RawEvent { event_type: EV_REL, code: REL_Y, value: amounts.1 });
            }
        },
        InputEvent::MouseMoveAbsolute { .. } => {
            raw.push(RawEvent { event_type: EV_ABS, code: ABS_X, value: amounts.0 });
            raw.push(RawEvent { event_type: EV_ABS, code: ABS_Y, value: amounts.1 });
        },
        InputEvent::MouseButton { button, pressed } => {
            let value: i32 = if *pressed {
                1
            } else {
                0
            };
            raw.push(RawEvent { event_type: EV_KEY, code: button.key_code(), value });
        },
        InputEvent::MouseScroll { .. } => {
            if amounts.1 != 0 {
                raw.push(RawEvent { event_type: EV_REL, code: REL_WHEEL, value: amounts.1 });
            }
            if amounts.0 != 0 {
                raw.push(RawEvent { event_type: EV_REL, code: REL_HWHEEL, value: amounts.0 });
            }
        },
        InputEvent::Key { keycode, pressed } => {
            let value: i32 = if *pressed {
                1
            } else {
                0
            };
            raw.push(RawEvent { event_type: EV_KEY, code: *keycode as u16, value });
        },
    }
    assert(raw@ =~= event_reports(*event, amounts));
    if raw.len() > 0 {
        raw.push(RawEvent { event_type: EV_SYN, code: SYN_REPORT, value: 0 });
    }
    raw
}

/// Every report batch that is emitted ends with exactly one
/// synchronization report, and only there.
pub proof fn law_batches_end_in_sync(event: InputEvent, amounts: (i32, i32))
    ensures
        injected_reports(event, amounts).len() > 0 ==> injected_reports(event, amounts).last()
            == (RawEvent { event_type: EV_SYN, code: SYN_REPORT, value: 0 }),
        forall|i: int|
            0 <= i < injected_reports(event, amounts).len() - 1 ==> #[trigger] injected_reports(
                event,
                amounts,
            )[i].event_type != EV_SYN,
        event is MouseButton || event is Key || event is MouseMoveAbsolute
            ==> injected_reports(event, amounts).len() > 0,
{
}

/// Each report that moves the pointer or the wheels carries the amount of
/// its own axis: the absolute X and relative X and horizontal wheel reports
/// carry the first amount, the absolute Y, relative Y and vertical wheel
/// reports the second. An absolute move reports both coordinates; a
/// relative move or a scroll reports each amount that is not zero.
pub proof fn law_reports_carry_their_axis(event: InputEvent, amounts: (i32, i32))
    ensures
        forall|i: int|
            0 <= i < injected_reports(event, amounts).len() ==> {
                let r = #[trigger] injected_reports(event, amounts)[i];
                &&& r.event_type == EV_ABS && r.code == ABS_X ==> r.value == amounts.0
                &&& r.event_type == EV_ABS && r.code == ABS_Y ==> r.value == amounts.1
                &&& r.event_type == EV_REL && r.code == REL_X ==> r.value == amounts.0
                &&& r.event_type == EV_REL && r.code == REL_Y ==> r.value == amounts.1
                &&& r.event_type == EV_REL && r.code == REL_HWHEEL ==> r.value == amounts.0
                &&& r.event_type == EV_REL && r.code == REL_WHEEL ==> r.value == amounts.1
            },
        event is MouseMoveAbsolute ==> injected_reports(event, amounts).contains(
            RawEvent { event_type: EV_ABS, code: ABS_X, value: amounts.0 },
        ) && injected_reports(event, amounts).contains(
            RawEvent { event_type: EV_ABS, code: ABS_Y, value: amounts.1 },
        ),
        event is MouseMove && amounts.0 != 0 ==> injected_reports(event, amounts).contains(
            RawEvent { event_type: EV_REL, code: REL_X, value: amounts.0 },
        ),
        event is MouseMove && amounts.1 != 0 ==> injected_reports(event, amounts).contains(
            RawEvent { event_type: EV_REL, code: REL_Y, value: amounts.1 },
        ),
        event is MouseScroll && amounts.0 != 0 ==> injected_reports(event, amounts).contains(
            RawEvent { event_type: EV_REL, code: REL_HWHEEL, value: amounts.0 },
        ),
        event is MouseScroll && amounts.1 != 0 ==> injected_reports(event, amounts).contains(
            RawEvent { event_type: EV_REL, code: REL_WHEEL, value: amounts.1 },
        ),
        event matches InputEvent::MouseButton { button, pressed } ==> injected_reports(
            event,
            amounts,
        ).contains(
            RawEvent {
                event_type: EV_KEY,
                code: button_code(button),
                value: if pressed { 1i32 } else { 0i32 },
            },
        ),
        event matches InputEvent::Key { keycode, pressed } ==> injected_reports(
            event,
            amounts,
        ).contains(
            RawEvent {
                event_type: EV_KEY,
                code: keycode as u16,
                value: if pressed { 1i32 } else { 0i32 },
            },
        ),
{
    let r = injected_reports(event, amounts);
    match event {
        InputEvent::MouseMoveAbsolute { .. } => {
            assert(r[0] == RawEvent { event_type: EV_ABS, code: ABS_X, value: amounts.0 });
            assert(r[1] == RawEvent { event_type: EV_ABS, code: ABS_Y, value: amounts.1 });
        },
        InputEvent::MouseMove { .. } => {
            if amounts.0 != 0 {
                assert(r[0] == RawEvent { event_type: EV_REL, code: REL_X, value: amounts.0 });
            }
            if amounts.1 != 0 {
                let k: int = if amounts.0 != 0 { 1 } else { 0 };
                assert(r[k] == RawEvent { event_type: EV_REL, code: REL_Y, value: amounts.1 });
            }
        },
        InputEvent::MouseScroll { .. } => {
            if amounts.1 != 0 {
                assert(r[0] == RawEvent { event_type: EV_REL, code: REL_WHEEL, value: amounts.1 });
            }
            if amounts.0 != 0 {
                let k: int = if amounts.1 != 0 { 1 } else { 0 };
                assert(r[k] == RawEvent { event_type: EV_REL, code: REL_HWHEEL, value: amounts.0 });
            }
        },
        InputEvent::MouseButton { button, pressed } => {
            assert(r[0] == RawEvent {
                event_type: EV_KEY,
                code: button_code(button),
                value: if pressed { 1i32 } else { 0i32 },
            });
        },
        InputEvent::Key { keycode, pressed } => {
            assert(r[0] == RawEvent {
                event_type: EV_KEY,
                code: keycode as u16,
                value: if pressed { 1i32 } else { 0i32 },
            });
        },
    }
}

/// The key codes that the virtual device declares: the five mouse buttons,
/// then the keyboard keys 1 to 248.
pub open spec fn device_key_codes() -> Seq<u16> {
    seq![BTN_LEFT, BTN_RIGHT, BTN_MIDDLE, BTN_SIDE, BTN_EXTRA] + Seq::new(
        248,
        |i: int| (i + 1) as u16,
    )
}

pub fn injector_key_codes() -> (codes: Vec<u16>)
    ensures
        codes@ == device_key_codes(),
{
    let mut codes: Vec<u16> = Vec::new();
    codes.push(BTN_LEFT);
    codes.push(BTN_RIGHT);
    codes.push(BTN_MIDDLE);
    codes.push(BTN_SIDE);
    codes.push(BTN_EXTRA);
    let ghost buttons = codes@;
    for code in 1..249u16
        invariant
            codes@ == buttons + Seq::new((code - 1) as nat, |i: int| (i + 1) as u16),
    {
        codes.push(code);
        assert(codes@ =~= buttons + Seq::new(code as nat, |i: int| (i + 1) as u16));
    }
    assert(codes@ =~= device_key_codes());
    codes
}

} // verus!
