//! Captured keys and mouse messages.

use crate::client_session::InputEvent;
use crate::input::{event_text, event_texts, input_message, key_to_vk, keyboard_event, mouse_event};
use crate::text::{decimal, signed_decimal};
use vstd::prelude::*;
use vstd::string::*;

verus! {

/// The button of an event, where it has one.
pub open spec fn button_of(e: Option<InputEvent>) -> Option<u16> {
    match e {
        Some(InputEvent::MouseDown { button, x, y, flags }) => Some(button),
        Some(InputEvent::MouseUp { button, x, y, flags }) => Some(button),
        _ => None,
    }
}

/// The place of an event of the mouse.
pub open spec fn place_of(e: InputEvent) -> Option<(i32, i32)> {
    match e {
        InputEvent::MouseMove { x, y, flags } => Some((x, y)),
        InputEvent::MouseDown { button, x, y, flags } => Some((x, y)),
        InputEvent::MouseUp { button, x, y, flags } => Some((x, y)),
        InputEvent::MouseWheel { delta, x, y, flags } => Some((x, y)),
        _ => None,
    }
}

/// The message is the press of a button, and `up` its release.
pub open spec fn is_press(down: u32, up: u32) -> bool {
    down == 0x0201 && up == 0x0202 || down == 0x0204 && up == 0x0205 || down == 0x020B && up
        == 0x020C
}

/// The press and the release of a button name the same button, wherever they
/// happen, and the buttons have numbers of their own: the left one 0, the right
/// one 1, and the extra ones 3 and 4.
pub proof fn presses_and_releases_match(
    down: u32,
    up: u32,
    x: i32,
    y: i32,
    x2: i32,
    y2: i32,
    data: u32,
    d: Option<InputEvent>,
    u: Option<InputEvent>,
)
    requires
        is_press(down, up),
        call_ensures(mouse_event, (down, x, y, data), d),
        call_ensures(mouse_event, (up, x2, y2, data), u),
    ensures
        d matches Some(e) && e is MouseDown,
        u matches Some(e) && e is MouseUp,
        button_of(d) is Some,
        button_of(d) == button_of(u),
        down == 0x0201 <==> button_of(d) == Some(0u16),
        down == 0x0204 <==> button_of(d) == Some(1u16),
        down == 0x020B && data % 0x1_0000 == 1 <==> button_of(d) == Some(3u16),
        down == 0x020B && data % 0x1_0000 != 1 <==> button_of(d) == Some(4u16),
{
}

/// Different buttons are told apart, by their presses as by their releases.
pub proof fn buttons_are_told_apart(
    down: u32,
    up: u32,
    down2: u32,
    up2: u32,
    x: i32,
    y: i32,
    data: u32,
    data2: u32,
    d: Option<InputEvent>,
    d2: Option<InputEvent>,
    u: Option<InputEvent>,
    u2: Option<InputEvent>,
)
    requires
        is_press(down, up),
        is_press(down2, up2),
        down != down2 || down == 0x020B && data % 0x1_0000 == 1 && data2 % 0x1_0000 == 2,
        call_ensures(mouse_event, (down, x, y, data), d),
        call_ensures(mouse_event, (down2, x, y, data2), d2),
        call_ensures(mouse_event, (up, x, y, data), u),
        call_ensures(mouse_event, (up2, x, y, data2), u2),
    ensures
        button_of(d) != button_of(d2),
        button_of(u) != button_of(u2),
{
}

/// Every event of the mouse happens where its message says, with no flags.
pub proof fn events_keep_their_place(msg: u32, x: i32, y: i32, data: u32, r: Option<InputEvent>)
    requires
        call_ensures(mouse_event, (msg, x, y, data), r),
    ensures
        r matches Some(e) ==> place_of(e) == Some((x, y)),
        r matches Some(e) ==> match e {
            InputEvent::MouseMove { x: _, y: _, flags } => flags == 0,
            InputEvent::MouseDown { button: _, x: _, y: _, flags } => flags == 0,
            InputEvent::MouseUp { button: _, x: _, y: _, flags } => flags == 0,
            InputEvent::MouseWheel { delta: _, x: _, y: _, flags } => flags == 0,
            _ => false,
        },
{
}

/// Messages of the mouse are passed on where they tell of a movement, of one of
/// the buttons or of the wheel, and others are not.
pub proof fn other_messages_are_left(msg: u32, x: i32, y: i32, data: u32, r: Option<InputEvent>)
    requires
        call_ensures(mouse_event, (msg, x, y, data), r),
    ensures
        r is Some == (0x0200 <= msg <= 0x0202 || 0x0204 <= msg <= 0x0205 || 0x020A <= msg
            <= 0x020C),
        r matches Some(e) ==> (e is MouseWheel) == (msg == 0x020A),
        r matches Some(e) ==> (e is MouseMove) == (msg == 0x0200),
{
}

/// A turn of the wheel arrives as it was packed: in the upper half of the data,
/// as a signed number of 16 bits, whatever the lower half holds.
pub proof fn wheel_turns_arrive(
    delta: int,
    low: int,
    x: i32,
    y: i32,
    data: u32,
    r: Option<InputEvent>,
)
    requires
        -0x8000 <= delta < 0x8000,
        0 <= low < 0x1_0000,
        data == (if delta >= 0 { delta } else { delta + 0x1_0000 }) * 0x1_0000 + low,
        call_ensures(mouse_event, (0x020A, x, y, data), r),
    ensures
        r == Some(InputEvent::MouseWheel { delta: delta as i32, x, y, flags: 0 }),
{
    let high = if delta >= 0 { delta } else { delta + 0x1_0000 };
    assert(data as int / 0x1_0000 == high);
}

/// A key keeps its codes. Pressed, its flags stay as they are; let go, they say so,
/// and their other bits stay.
pub proof fn keys_keep_their_codes(msg: u32, vk: u16, scan: u16, flags: u32, e: InputEvent)
    requires
        call_ensures(keyboard_event, (msg, vk, scan, flags), e),
    ensures
        msg == 0x0100 || msg == 0x0104 ==> e == (InputEvent::KeyDown { vk, scan, flags }),
        msg != 0x0100 && msg != 0x0104 ==> (e matches InputEvent::KeyUp {
            vk: v,
            scan: s,
            flags: f,
        } && v == vk && s == scan && f & 2 == 2 && f & !2u32 == flags & !2u32),
{
    assert((flags | 0x0002) & 2 == 2) by (bit_vector);
    assert((flags | 0x0002) & !2u32 == flags & !2u32) by (bit_vector);
}

/// Keys of letters and digits have the codes of their characters, the other
/// keys codes of their own, and no two keys have the same.
pub proof fn keys_have_their_codes(name: &str, vk: u16, other: &str, vk2: u16, c: char)
    requires
        call_ensures(key_to_vk, (name,), vk),
        call_ensures(key_to_vk, (other,), vk2),
    ensures
        name@ == seq![c] && ('A' <= c <= 'Z' || '0' <= c <= '9') ==> vk == c as u32,
        name@ == "Enter"@ ==> vk == 13,
        name@ == "Escape"@ ==> vk == 27,
        name@ == "Tab"@ ==> vk == 9,
        name@ == "Backspace"@ ==> vk == 8,
        name@ == "Space"@ ==> vk == 32,
        name@ == "Left"@ ==> vk == 37,
        name@ == "Up"@ ==> vk == 38,
        name@ == "Right"@ ==> vk == 39,
        name@ == "Down"@ ==> vk == 40,
        vk != 0 && vk == vk2 ==> name@ == other@,
{
    lemma_key_names();
    if vk != 0 && vk == vk2 && name@.len() == 1 && other@.len() == 1 {
        assert(name@ =~= seq![name@[0]]);
        assert(other@ =~= seq![other@[0]]);
        assert(name@[0] == other@[0]);
    }
}

proof fn lemma_key_names()
    ensures
        "Enter"@.len() == 5 && "Escape"@.len() == 6 && "Tab"@.len() == 3 && "Backspace"@.len() == 9
            && "Space"@.len() == 5 && "Left"@.len() == 4 && "Up"@.len() == 2 && "Right"@.len() == 5
            && "Down"@.len() == 4,
        "Enter"@[0] == 'E' && "Space"@[0] == 'S' && "Right"@[0] == 'R' && "Left"@[0] == 'L'
            && "Down"@[0] == 'D',
{
    reveal_strlit("Enter");
    reveal_strlit("Escape");
    reveal_strlit("Tab");
    reveal_strlit("Backspace");
    reveal_strlit("Space");
    reveal_strlit("Left");
    reveal_strlit("Up");
    reveal_strlit("Right");
    reveal_strlit("Down");
}

/// Events are sent as a list, in their order, each under the name of its sort
/// with its numbers.
pub proof fn events_are_sent_in_order(
    one: &Vec<InputEvent>,
    two: &Vec<InputEvent>,
    s: String,
    t: String,
)
    requires
        call_ensures(input_message, (one,), s),
        one@.len() == 1,
        call_ensures(input_message, (two,), t),
        two@.len() == 2,
    ensures
        s@ == "["@ + written(one@[0]) + "]"@,
        t@ == "["@ + (written(two@[0]) + ","@ + written(two@[1])) + "]"@,
{
    reveal_with_fuel(event_texts, 3);
    lemma_written(one@[0]);
    lemma_written(two@[0]);
    lemma_written(two@[1]);
    assert(two@.drop_last() =~= seq![two@[0]]);
}

/// More events only add to the list.
pub proof fn lists_of_events_grow(v: &Vec<InputEvent>, w: &Vec<InputEvent>, s: String, t: String)
    requires
        call_ensures(input_message, (v,), s),
        call_ensures(input_message, (w,), t),
        v@.len() > 0,
        w@.len() == v@.len() + 1,
        w@.drop_last() == v@,
    ensures
        s@.len() >= 2,
        t@ == s@.drop_last() + ","@ + written(w@.last()) + "]"@,
{
    lemma_written(w@.last());
    reveal_strlit("[");
    reveal_strlit("]");
    reveal_strlit(",");
    assert(s@.drop_last() =~= "["@ + event_texts(v@));
    assert(t@ =~= s@.drop_last() + ","@ + written(w@.last()) + "]"@);
}

/// The text of an event.
pub open spec fn written(e: InputEvent) -> Seq<char> {
    match e {
        InputEvent::KeyDown { vk, scan, flags } => "{\"KeyDown\":{\"vk\":"@ + decimal(vk as nat)
            + ",\"scan\":"@ + decimal(scan as nat) + ",\"flags\":"@ + decimal(flags as nat)
            + "}}"@,
        InputEvent::KeyUp { vk, scan, flags } => "{\"KeyUp\":{\"vk\":"@ + decimal(vk as nat)
            + ",\"scan\":"@ + decimal(scan as nat) + ",\"flags\":"@ + decimal(flags as nat)
            + "}}"@,
        InputEvent::MouseMove { x, y, flags } => "{\"MouseMove\":{\"x\":"@ + signed_decimal(
            x as int,
        ) + ",\"y\":"@ + signed_decimal(y as int) + ",\"flags\":"@ + decimal(flags as nat)
            + "}}"@,
        InputEvent::MouseDown { button, x, y, flags } => "{\"MouseDown\":{\"button\":"@ + decimal(
            button as nat,
        ) + ",\"x\":"@ + signed_decimal(x as int) + ",\"y\":"@ + signed_decimal(y as int)
            + ",\"flags\":"@ + decimal(flags as nat) + "}}"@,
        InputEvent::MouseUp { button, x, y, flags } => "{\"MouseUp\":{\"button\":"@ + decimal(
            button as nat,
        ) + ",\"x\":"@ + signed_decimal(x as int) + ",\"y\":"@ + signed_decimal(y as int)
            + ",\"flags\":"@ + decimal(flags as nat) + "}}"@,
        InputEvent::MouseWheel { delta, x, y, flags } => "{\"MouseWheel\":{\"delta\":"@
            + signed_decimal(delta as int) + ",\"x\":"@ + signed_decimal(x as int) + ",\"y\":"@
            + signed_decimal(y as int) + ",\"flags\":"@ + decimal(flags as nat) + "}}"@,
    }
}

#[verifier::rlimit(60)]
proof fn lemma_written(e: InputEvent)
    ensures
        event_text(e) == written(e),
{
    let q = "{\""@;
    match e {
        InputEvent::KeyDown { vk, scan, flags } => {
            assert("{\"KeyDown\":{\"vk\":"@ =~= q + "KeyDown"@ + "\":{\"vk\":"@) by {
                reveal_strlit("{\"KeyDown\":{\"vk\":");
                reveal_strlit("{\"");
                reveal_strlit("KeyDown");
                reveal_strlit("\":{\"vk\":");
            }
        },
        InputEvent::KeyUp { vk, scan, flags } => {
            assert("{\"KeyUp\":{\"vk\":"@ =~= q + "KeyUp"@ + "\":{\"vk\":"@) by {
                reveal_strlit("{\"KeyUp\":{\"vk\":");
                reveal_strlit("{\"");
                reveal_strlit("KeyUp");
                reveal_strlit("\":{\"vk\":");
            }
        },
        InputEvent::MouseMove { x, y, flags } => {
            assert("{\"MouseMove\":{\"x\":"@ =~= q + "MouseMove"@ + "\":{"@ + ""@ + "\"x\":"@) by {
                reveal_strlit("{\"MouseMove\":{\"x\":");
                reveal_strlit("{\"");
                reveal_strlit("MouseMove");
                reveal_strlit("\":{");
                reveal_strlit("");
                reveal_strlit("\"x\":");
            }
        },
        InputEvent::MouseDown { button, x, y, flags } => {
            let d = decimal(button as nat);
            let a = q + "MouseDown"@ + "\":{"@;
            assert("{\"MouseDown\":{\"button\":"@ =~= a + "\"button\":"@) by {
                reveal_strlit("{\"MouseDown\":{\"button\":");
                reveal_strlit("{\"");
                reveal_strlit("MouseDown");
                reveal_strlit("\":{");
                reveal_strlit("\"button\":");
            }
            lemma_comma_x();
            assert(a + ("\"button\":"@ + d + ","@) + "\"x\":"@ =~= (a + "\"button\":"@) + d + (","@
                + "\"x\":"@));
        },
        InputEvent::MouseUp { button, x, y, flags } => {
            let d = decimal(button as nat);
            let a = q + "MouseUp"@ + "\":{"@;
            assert("{\"MouseUp\":{\"button\":"@ =~= a + "\"button\":"@) by {
                reveal_strlit("{\"MouseUp\":{\"button\":");
                reveal_strlit("{\"");
                reveal_strlit("MouseUp");
                reveal_strlit("\":{");
                reveal_strlit("\"button\":");
            }
            lemma_comma_x();
            assert(a + ("\"button\":"@ + d + ","@) + "\"x\":"@ =~= (a + "\"button\":"@) + d + (","@
                + "\"x\":"@));
        },
        InputEvent::MouseWheel { delta, x, y, flags } => {
            let d = signed_decimal(delta as int);
            let a = q + "MouseWheel"@ + "\":{"@;
            assert("{\"MouseWheel\":{\"delta\":"@ =~= a + "\"delta\":"@) by {
                reveal_strlit("{\"MouseWheel\":{\"delta\":");
                reveal_strlit("{\"");
                reveal_strlit("MouseWheel");
                reveal_strlit("\":{");
                reveal_strlit("\"delta\":");
            }
            lemma_comma_x();
            assert(a + ("\"delta\":"@ + d + ","@) + "\"x\":"@ =~= (a + "\"delta\":"@) + d + (","@
                + "\"x\":"@));
        },
    }
}

proof fn lemma_comma_x()
    ensures
        ","@ + "\"x\":"@ == ",\"x\":"@,
{
    reveal_strlit(",");
    reveal_strlit("\"x\":");
    reveal_strlit(",\"x\":");
    assert(","@ + "\"x\":"@ =~= ",\"x\":"@);
}

} // verus!
