//! Keys and mouse messages of the system as input events, and the message that
//! carries them.

use crate::client_session::InputEvent;
use crate::text::{cat3, cat5, chars_of, dec, dec_signed, decimal, same, signed_decimal};
use vstd::prelude::*;
use vstd::string::*;

verus! {

pub const WM_KEYDOWN: u32 = 0x0100;
pub const WM_SYSKEYDOWN: u32 = 0x0104;
pub const WM_MOUSEMOVE: u32 = 0x0200;
pub const WM_LBUTTONDOWN: u32 = 0x0201;
pub const WM_LBUTTONUP: u32 = 0x0202;
pub const WM_RBUTTONDOWN: u32 = 0x0204;
pub const WM_RBUTTONUP: u32 = 0x0205;
pub const WM_MOUSEWHEEL: u32 = 0x020A;
pub const WM_XBUTTONDOWN: u32 = 0x020B;
pub const WM_XBUTTONUP: u32 = 0x020C;

/// The flag of a key that goes up.
pub const KEY_UP: u32 = 0x0002;

/// A key message as an input event.
pub fn keyboard_event(msg: u32, vk: u16, scan: u16, flags: u32) -> (e: InputEvent)
    ensures
        e == (if msg == WM_KEYDOWN || msg == WM_SYSKEYDOWN {
            InputEvent::KeyDown { vk, scan, flags }
        } else {
            InputEvent::KeyUp { vk, scan, flags: flags | KEY_UP }
        }),
{
    if msg == WM_KEYDOWN || msg == WM_SYSKEYDOWN {
        InputEvent::KeyDown { vk, scan, flags }
    } else {
        InputEvent::KeyUp { vk, scan, flags: flags | KEY_UP }
    }
}

/// How far the wheel was turned: the upper half of the data, with its sign.
pub open spec fn wheel_delta(data: u32) -> int {
    let high = data as int / 0x1_0000;
    if high < 0x8000 { high } else { high - 0x1_0000 }
}

/// Which of the two extra buttons the data names.
pub open spec fn extra_button(data: u32) -> u16 {
    if data % 0x1_0000 == 1 { 3 } else { 4 }
}

/// A mouse message as an input event, if it is one that is passed on.
pub open spec fn mouse_event_of(msg: u32, x: i32, y: i32, data: u32) -> Option<InputEvent> {
    if msg == WM_MOUSEMOVE {
        Some(InputEvent::MouseMove { x, y, flags: 0 })
    } else if msg == WM_LBUTTONDOWN {
        Some(InputEvent::MouseDown { button: 0, x, y, flags: 0 })
    } else if msg == WM_LBUTTONUP {
        Some(InputEvent::MouseUp { button: 0, x, y, flags: 0 })
    } else if msg == WM_RBUTTONDOWN {
        Some(InputEvent::MouseDown { button: 1, x, y, flags: 0 })
    } else if msg == WM_RBUTTONUP {
        Some(InputEvent::MouseUp { button: 1, x, y, flags: 0 })
    } else if msg == WM_MOUSEWHEEL {
        Some(InputEvent::MouseWheel { delta: wheel_delta(data) as i32, x, y, flags: 0 })
    } else if msg == WM_XBUTTONDOWN {
        Some(InputEvent::MouseDown { button: extra_button(data), x, y, flags: 0 })
    } else if msg == WM_XBUTTONUP {
        Some(InputEvent::MouseUp { button: extra_button(data), x, y, flags: 0 })
    } else {
        None
    }
}

/// A mouse message as an input event, if it is one that is passed on.
pub fn mouse_event(msg: u32, x: i32, y: i32, data: u32) -> (e: Option<InputEvent>)
    ensures
        e == mouse_event_of(msg, x, y, data),
{
    let high: i32 = (data / 0x1_0000) as i32;
    let delta: i32 = if high < 0x8000 { high } else { high - 0x1_0000 };
    let extra: u16 = if data % 0x1_0000 == 1 { 3 } else { 4 };
    if msg == WM_MOUSEMOVE {
        Some(InputEvent::MouseMove { x, y, flags: 0 })
    } else if msg == WM_LBUTTONDOWN {
        Some(InputEvent::MouseDown { button: 0, x, y, flags: 0 })
    } else if msg == WM_LBUTTONUP {
        Some(InputEvent::MouseUp { button: 0, x, y, flags: 0 })
    } else if msg == WM_RBUTTONDOWN {
        Some(InputEvent::MouseDown { button: 1, x, y, flags: 0 })
    } else if msg == WM_RBUTTONUP {
        Some(InputEvent::MouseUp { button: 1, x, y, flags: 0 })
    } else if msg == WM_MOUSEWHEEL {
        Some(InputEvent::MouseWheel { delta, x, y, flags: 0 })
    } else if msg == WM_XBUTTONDOWN {
        Some(InputEvent::MouseDown { button: extra, x, y, flags: 0 })
    } else if msg == WM_XBUTTONUP {
        Some(InputEvent::MouseUp { button: extra, x, y, flags: 0 })
    } else {
        None
    }
}

/// The virtual key code of a key, by its name; 0 where it has none.
pub open spec fn vk_of(name: Seq<char>) -> u16 {
    if name.len() == 1 && 'A' <= name[0] <= 'Z' {
        (0x41 + (name[0] as u32 - 'A' as u32)) as u16
    } else if name.len() == 1 && '0' <= name[0] <= '9' {
        (0x30 + (name[0] as u32 - '0' as u32)) as u16
    } else if name == "Enter"@ {
        0x0D
    } else if name == "Escape"@ {
        0x1B
    } else if name == "Tab"@ {
        0x09
    } else if name == "Backspace"@ {
        0x08
    } else if name == "Space"@ {
        0x20
    } else if name == "Left"@ {
        0x25
    } else if name == "Up"@ {
        0x26
    } else if name == "Right"@ {
        0x27
    } else if name == "Down"@ {
        0x28
    } else {
        0
    }
}

/// The virtual key code of a key, by its name; 0 where it has none.
pub fn key_to_vk(name: &str) -> (vk: u16)
    ensures
        vk == vk_of(name@),
{
    let v = chars_of(name);
    if v.len() == 1 && 'A' <= v[0] && v[0] <= 'Z' {
        return (0x41 + (v[0] as u32 - 'A' as u32)) as u16;
    }
    if v.len() == 1 && '0' <= v[0] && v[0] <= '9' {
        return (0x30 + (v[0] as u32 - '0' as u32)) as u16;
    }
    if same(name, "Enter") {
        0x0D
    } else if same(name, "Escape") {
        0x1B
    } else if same(name, "Tab") {
        0x09
    } else if same(name, "Backspace") {
        0x08
    } else if same(name, "Space") {
        0x20
    } else if same(name, "Left") {
        0x25
    } else if same(name, "Up") {
        0x26
    } else if same(name, "Right") {
        0x27
    } else if same(name, "Down") {
        0x28
    } else {
        0
    }
}

// ---------------------------------------------------------------- messages

/// The event of a key as text.
pub open spec fn key_event_text(name: Seq<char>, vk: u16, scan: u16, flags: u32) -> Seq<char> {
    "{\""@ + name + "\":{\"vk\":"@ + decimal(vk as nat) + ",\"scan\":"@ + decimal(scan as nat)
        + ",\"flags\":"@ + decimal(flags as nat) + "}}"@
}

/// The event of the mouse as text; `before` are the fields before its place.
pub open spec fn mouse_event_text(
    name: Seq<char>,
    before: Seq<char>,
    x: i32,
    y: i32,
    flags: u32,
) -> Seq<char> {
    "{\""@ + name + "\":{"@ + before + "\"x\":"@ + signed_decimal(x as int) + ",\"y\":"@
        + signed_decimal(y as int) + ",\"flags\":"@ + decimal(flags as nat) + "}}"@
}

/// The field that says which button it was.
pub open spec fn button_field(button: u16) -> Seq<char> {
    "\"button\":"@ + decimal(button as nat) + ","@
}

/// An input event as text: its name, and its fields in their order.
pub open spec fn event_text(e: InputEvent) -> Seq<char> {
    match e {
        InputEvent::KeyDown { vk, scan, flags } => key_event_text("KeyDown"@, vk, scan, flags),
        InputEvent::KeyUp { vk, scan, flags } => key_event_text("KeyUp"@, vk, scan, flags),
        InputEvent::MouseMove { x, y, flags } => mouse_event_text("MouseMove"@, ""@, x, y, flags),
        InputEvent::MouseDown { button, x, y, flags } => mouse_event_text(
            "MouseDown"@,
            button_field(button),
            x,
            y,
            flags,
        ),
        InputEvent::MouseUp { button, x, y, flags } => mouse_event_text(
            "MouseUp"@,
            button_field(button),
            x,
            y,
            flags,
        ),
        InputEvent::MouseWheel { delta, x, y, flags } => mouse_event_text(
            "MouseWheel"@,
            "\"delta\":"@ + signed_decimal(delta as int) + ","@,
            x,
            y,
            flags,
        ),
    }
}

/// Input events with commas between them.
pub open spec fn event_texts(v: Seq<InputEvent>) -> Seq<char>
    decreases v.len(),
{
    if v.len() == 0 {
        Seq::empty()
    } else if v.len() == 1 {
        event_text(v[0])
    } else {
        event_texts(v.drop_last()) + ","@ + event_text(v.last())
    }
}

/// The message of input events.
pub open spec fn input_text(v: Seq<InputEvent>) -> Seq<char> {
    "["@ + event_texts(v) + "]"@
}

fn write_key(name: &str, vk: u16, scan: u16, flags: u32) -> (s: String)
    ensures
        s@ == key_event_text(name@, vk, scan, flags),
{
    let mut s = cat5("{\"", name, "\":{\"vk\":", &dec(vk as u128), ",\"scan\":");
    s.append(&dec(scan as u128));
    s.append(",\"flags\":");
    s.append(&dec(flags as u128));
    s.append("}}");
    s
}

fn write_mouse(name: &str, before: &str, x: i32, y: i32, flags: u32) -> (s: String)
    ensures
        s@ == mouse_event_text(name@, before@, x, y, flags),
{
    let mut s = cat5("{\"", name, "\":{", before, "\"x\":");
    s.append(&dec_signed(x));
    s.append(",\"y\":");
    s.append(&dec_signed(y));
    s.append(",\"flags\":");
    s.append(&dec(flags as u128));
    s.append("}}");
    s
}

fn write_event(e: &InputEvent) -> (s: String)
    ensures
        s@ == event_text(*e),
{
    match *e {
        InputEvent::KeyDown { vk, scan, flags } => write_key("KeyDown", vk, scan, flags),
        InputEvent::KeyUp { vk, scan, flags } => write_key("KeyUp", vk, scan, flags),
        InputEvent::MouseMove { x, y, flags } => write_mouse("MouseMove", "", x, y, flags),
        InputEvent::MouseDown { button, x, y, flags } => {
            let before = cat3("\"button\":", &dec(button as u128), ",");
            write_mouse("MouseDown", &before, x, y, flags)
        },
        InputEvent::MouseUp { button, x, y, flags } => {
            let before = cat3("\"button\":", &dec(button as u128), ",");
            write_mouse("MouseUp", &before, x, y, flags)
        },
        InputEvent::MouseWheel { delta, x, y, flags } => {
            let before = cat3("\"delta\":", &dec_signed(delta), ",");
            write_mouse("MouseWheel", &before, x, y, flags)
        },
    }
}

/// The message of input events.
pub fn input_message(events: &Vec<InputEvent>) -> (s: String)
    ensures
        s@ == input_text(events@),
{
    let mut s = String::from_str("[");
    let mut i: usize = 0;
    assert(s@ =~= "["@ + event_texts(events@.take(0)));
    while i < events.len()
        invariant
            i <= events@.len(),
            s@ == "["@ + event_texts(events@.take(i as int)),
        decreases events@.len() - i,
    {
        let ghost before = event_texts(events@.take(i as int));
        let ghost next = events@.take(i + 1);
        let text = write_event(&events[i]);
        if i > 0 {
            s.append(",");
        }
        s.append(&text);
        proof {
            assert(next.drop_last() =~= events@.take(i as int));
            assert(next.last() == events@[i as int]);
            if i > 0 {
                assert(s@ =~= "["@ + (before + ","@ + text@));
            } else {
                assert(before =~= Seq::empty());
                assert(s@ =~= "["@ + text@);
            }
        }
        i += 1;
    }
    assert(events@.take(i as int) =~= events@);
    s.append("]");
    s
}

} // verus!
