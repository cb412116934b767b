//! The video viewer: the monitor that is shown, focus, input capture and the
//! figures on the screen.

use crate::text::{cat2, dec, dec_signed, decimal, same, signed_decimal, texts};
use vstd::prelude::*;
use vstd::string::*;

verus! {

/// A monitor of the remote device.
pub struct MonitorInfo {
    pub index: u32,
    pub name: String,
    pub x: i32,
    pub y: i32,
    pub width: u32,
    pub height: u32,
    pub is_primary: bool,
}

/// The monitors to choose from: one, of the usual size.
pub fn enumerate_monitors() -> (r: Vec<MonitorInfo>)
    ensures
        r@.len() == 1,
        r@[0].index == 0,
        r@[0].name@ == "Primary Monitor"@,
        r@[0].x == 0,
        r@[0].y == 0,
        r@[0].width == 1920,
        r@[0].height == 1080,
        r@[0].is_primary,
{
    let mut r: Vec<MonitorInfo> = Vec::new();
    r.push(
        MonitorInfo {
            index: 0,
            name: String::from_str("Primary Monitor"),
            x: 0,
            y: 0,
            width: 1920,
            height: 1080,
            is_primary: true,
        },
    );
    r
}

/// The position of the first primary monitor, or the first position where
/// there is none.
pub open spec fn is_primary_index(ms: Seq<MonitorInfo>, i: int) -> bool {
    ||| 0 <= i < ms.len() && ms[i].is_primary && forall|k: int|
        0 <= k < i ==> !(#[trigger] ms[k]).is_primary
    ||| i == 0 && forall|k: int| 0 <= k < ms.len() ==> !(#[trigger] ms[k]).is_primary
}

/// The position of the first primary monitor, or the first position where
/// there is none.
pub fn primary_index(ms: &Vec<MonitorInfo>) -> (i: usize)
    ensures
        is_primary_index(ms@, i as int),
{
    let mut i: usize = 0;
    while i < ms.len()
        invariant
            i <= ms@.len(),
            forall|k: int| 0 <= k < i ==> !(#[trigger] ms@[k]).is_primary,
        decreases ms@.len() - i,
    {
        if ms[i].is_primary {
            return i;
        }
        i += 1;
    }
    0
}

/// What is shown of a monitor in the list to choose from.
pub open spec fn monitor_text(m: MonitorInfo) -> Seq<char> {
    m.name@ + (if m.is_primary { " (Primary)"@ } else { Seq::empty() }) + " - "@ + decimal(
        m.width as nat,
    ) + "x"@ + decimal(m.height as nat) + " at ("@ + signed_decimal(m.x as int) + ", "@
        + signed_decimal(m.y as int) + ")"@
}

/// What is shown of a monitor in the list to choose from.
pub fn monitor_label(m: &MonitorInfo) -> (s: String)
    ensures
        s@ == monitor_text(*m),
{
    let w = dec(m.width as u128);
    let h = dec(m.height as u128);
    let x = dec_signed(m.x);
    let y = dec_signed(m.y);
    let mut s = String::from_str(&m.name);
    if m.is_primary {
        s.append(" (Primary)");
    }
    assert(s@ =~= m.name@ + (if m.is_primary { " (Primary)"@ } else { Seq::empty() }));
    s.append(" - ");
    s.append(&w);
    s.append("x");
    s.append(&h);
    s.append(" at (");
    s.append(&x);
    s.append(", ");
    s.append(&y);
    s.append(")");
    s
}

/// How a figure is shown: by how good it is, or without regard to that.
#[derive(Clone, Copy, Debug, PartialEq, Eq, Structural)]
pub enum Grade {
    Good,
    Fair,
    Poor,
    Plain,
    Muted,
}

/// How good a round trip is, in milliseconds.
pub open spec fn rtt_grade(rtt_ms: u128) -> Grade {
    if rtt_ms < 50 {
        Grade::Good
    } else if rtt_ms < 100 {
        Grade::Fair
    } else {
        Grade::Poor
    }
}

/// How good a round trip is, in milliseconds.
pub fn grade_rtt(rtt_ms: u128) -> (g: Grade)
    ensures
        g == rtt_grade(rtt_ms),
{
    if rtt_ms < 50 {
        Grade::Good
    } else if rtt_ms < 100 {
        Grade::Fair
    } else {
        Grade::Poor
    }
}

/// The figures on the screen, but for the rate of pictures.
#[derive(Clone, Copy, Debug, PartialEq, Eq, Structural)]
pub struct OsdFacts {
    pub bitrate_kbps: u32,
    pub rtt_ms: u128,
    pub input_active: bool,
    pub dropped: u64,
    pub duplicated: u64,
    pub connected: bool,
}

/// A figure on the screen.
pub struct OsdRowView {
    pub label: Seq<char>,
    pub value: Seq<char>,
    pub grade: Grade,
}

/// A figure on the screen.
pub struct OsdRow {
    pub label: &'static str,
    pub value: String,
    pub grade: Grade,
}

impl View for OsdRow {
    type V = OsdRowView;

    open spec fn view(&self) -> OsdRowView {
        OsdRowView { label: self.label@, value: self.value@, grade: self.grade }
    }
}

/// The figures as they are shown, from top to bottom.
pub open spec fn osd_text(f: OsdFacts) -> Seq<OsdRowView> {
    seq![
        OsdRowView {
            label: "Bitrate:"@,
            value: decimal(f.bitrate_kbps as nat) + " kbps"@,
            grade: Grade::Plain,
        },
        OsdRowView {
            label: "RTT:"@,
            value: decimal(f.rtt_ms as nat) + " ms"@,
            grade: rtt_grade(f.rtt_ms),
        },
        OsdRowView {
            label: "Input:"@,
            value: if f.input_active { "ACTIVE"@ } else { "INACTIVE"@ },
            grade: if f.input_active { Grade::Good } else { Grade::Muted },
        },
        OsdRowView {
            label: "Dropped:"@,
            value: decimal(f.dropped as nat),
            grade: Grade::Poor,
        },
        OsdRowView {
            label: "  Dup:"@,
            value: decimal(f.duplicated as nat),
            grade: Grade::Fair,
        },
        OsdRowView {
            label: "Status:"@,
            value: if f.connected { "CONNECTED"@ } else { "DISCONNECTED"@ },
            grade: if f.connected { Grade::Good } else { Grade::Poor },
        },
    ]
}

fn osd_row(label: &'static str, value: String, grade: Grade) -> (r: OsdRow)
    ensures
        r@ == (OsdRowView { label: label@, value: value@, grade }),
{
    OsdRow { label, value, grade }
}

/// The figures as they are shown, from top to bottom.
pub fn osd_rows(f: &OsdFacts) -> (r: Vec<OsdRow>)
    ensures
        r@.map_values(|w: OsdRow| w@) == osd_text(*f),
{
    let bitrate = dec(f.bitrate_kbps as u128);
    let rtt = dec(f.rtt_ms);
    let input = String::from_str(if f.input_active { "ACTIVE" } else { "INACTIVE" });
    let status = String::from_str(if f.connected { "CONNECTED" } else { "DISCONNECTED" });
    let mut r: Vec<OsdRow> = Vec::new();
    r.push(osd_row("Bitrate:", cat2(&bitrate, " kbps"), Grade::Plain));
    r.push(osd_row("RTT:", cat2(&rtt, " ms"), grade_rtt(f.rtt_ms)));
    r.push(osd_row("Input:", input, if f.input_active { Grade::Good } else { Grade::Muted }));
    r.push(osd_row("Dropped:", dec(f.dropped as u128), Grade::Poor));
    r.push(osd_row("  Dup:", dec(f.duplicated as u128), Grade::Fair));
    r.push(osd_row("Status:", status, if f.connected { Grade::Good } else { Grade::Poor }));
    assert(r@.map_values(|w: OsdRow| w@) =~= osd_text(*f));
    r
}

/// The viewer: what it shows and what it has asked for.
#[derive(Clone, Copy, Debug, PartialEq, Eq, Structural)]
pub struct Viewer {
    pub connected: bool,
    pub show_monitor_selector: bool,
    pub selected_monitor: usize,
    pub offset_x: i32,
    pub offset_y: i32,
    pub width: u32,
    pub height: u32,
    pub input_running: bool,
    pub has_focus: bool,
    pub osd_visible: bool,
    pub show_file_browser: bool,
}

/// What the viewer asks the data link for.
#[derive(Clone, Copy, Debug, PartialEq, Eq, Structural)]
pub enum ViewerAsk {
    InputStart,
    InputStop,
    VideoPause,
    VideoResume,
}

impl Viewer {
    /// The viewer at its start, on the primary monitor; the monitor is chosen
    /// before it connects.
    pub fn new(ms: &Vec<MonitorInfo>) -> (v: Self)
        ensures
            !v.connected && v.show_monitor_selector && !v.input_running && v.has_focus
                && v.osd_visible && !v.show_file_browser,
            is_primary_index(ms@, v.selected_monitor as int),
            ms@.len() > 0 ==> (v.offset_x, v.offset_y, v.width, v.height)
                == (
                ms@[v.selected_monitor as int].x,
                ms@[v.selected_monitor as int].y,
                ms@[v.selected_monitor as int].width,
                ms@[v.selected_monitor as int].height,
            ),
            ms@.len() == 0 ==> (v.offset_x, v.offset_y, v.width, v.height)
                == (0i32, 0i32, 1920u32, 1080u32),
    {
        let i: usize = primary_index(ms);
        let mut v = Viewer {
            connected: false,
            show_monitor_selector: true,
            selected_monitor: i,
            offset_x: 0,
            offset_y: 0,
            width: 1920,
            height: 1080,
            input_running: false,
            has_focus: true,
            osd_visible: true,
            show_file_browser: false,
        };
        if i < ms.len() {
            v.select_monitor(i, &ms[i]);
        }
        v
    }

    /// Chooses a monitor.
    pub fn select_monitor(&mut self, i: usize, m: &MonitorInfo)
        ensures
            *final(self) == (Viewer {
                selected_monitor: i,
                offset_x: m.x,
                offset_y: m.y,
                width: m.width,
                height: m.height,
                ..*old(self)
            }),
    {
        self.selected_monitor = i;
        self.offset_x = m.x;
        self.offset_y = m.y;
        self.width = m.width;
        self.height = m.height;
    }

    /// Whether the viewer connects now: once, after a monitor was chosen.
    pub fn connect(&mut self) -> (now: bool)
        ensures
            now == (!old(self).connected && !old(self).show_monitor_selector),
            *final(self) == (Viewer { connected: old(self).connected || now, ..*old(self) }),
    {
        if !self.connected && !self.show_monitor_selector {
            self.connected = true;
            true
        } else {
            false
        }
    }

    /// Starts or stops input capture.
    pub fn toggle_input(&mut self) -> (a: ViewerAsk)
        ensures
            *final(self) == (Viewer { input_running: !old(self).input_running, ..*old(self) }),
            a == (if old(self).input_running {
                ViewerAsk::InputStop
            } else {
                ViewerAsk::InputStart
            }),
    {
        self.input_running = !self.input_running;
        if self.input_running {
            ViewerAsk::InputStart
        } else {
            ViewerAsk::InputStop
        }
    }

    /// Notes whether the window has the focus: video is only asked for while it
    /// has.
    pub fn on_focus(&mut self, focused: bool) -> (a: Option<ViewerAsk>)
        ensures
            *final(self) == (Viewer { has_focus: focused, ..*old(self) }),
            a == (if focused == old(self).has_focus {
                None
            } else if focused {
                Some(ViewerAsk::VideoResume)
            } else {
                Some(ViewerAsk::VideoPause)
            }),
    {
        if focused == self.has_focus {
            return None;
        }
        self.has_focus = focused;
        if focused {
            Some(ViewerAsk::VideoResume)
        } else {
            Some(ViewerAsk::VideoPause)
        }
    }

    /// Takes a key that was pressed: F1 shows or hides the figures, F2 starts or
    /// stops input capture.
    pub fn on_key(&mut self, name: &str) -> (a: Option<ViewerAsk>)
        ensures
            (*final(self), a) == key_step(*old(self), name@),
    {
        proof {
            reveal_strlit("F1");
            reveal_strlit("F2");
            assert("F1"@[1] != "F2"@[1]);
        }
        if same(name, "F1") {
            self.osd_visible = !self.osd_visible;
            None
        } else if same(name, "F2") {
            Some(self.toggle_input())
        } else {
            None
        }
    }

    /// Takes the keys that were pressed, where input is captured.
    pub fn on_keys(&mut self, names: &Vec<String>) -> (asks: Vec<ViewerAsk>)
        ensures
            (*final(self), asks@) == (if old(self).input_running {
                keys_step(*old(self), texts(names@))
            } else {
                (*old(self), Seq::<ViewerAsk>::empty())
            }),
    {
        let mut asks: Vec<ViewerAsk> = Vec::new();
        if !self.input_running {
            return asks;
        }
        let ghost start = *self;
        let ghost all = texts(names@);
        let n: usize = names.len();
        let mut i: usize = 0;
        while i < n
            invariant
                n == names@.len(),
                i <= n,
                all == texts(names@),
                (*self, asks@) == keys_step(start, all.take(i as int)),
            decreases n - i,
        {
            assert(all.take(i + 1).drop_last() =~= all.take(i as int));
            assert(all.take(i + 1).last() == names@[i as int]@);
            if let Some(a) = self.on_key(&names[i]) {
                asks.push(a);
            }
            i += 1;
        }
        assert(all.take(n as int) =~= all);
        asks
    }

    /// Takes what was done in the window since it was last drawn. Gives whether
    /// the viewer connects now, and what it asks for.
    pub fn update(&mut self, ms: &Vec<MonitorInfo>, g: &Gestures) -> (r: (bool, Vec<ViewerAsk>))
        ensures
            (*final(self), r.0, r.1@) == viewer_step(*old(self), ms@, *g),
    {
        let choosing = self.show_monitor_selector;
        let now = self.connect();
        if choosing {
            if let Some(i) = g.picked {
                if i < ms.len() {
                    self.select_monitor(i, &ms[i]);
                }
            }
            if g.connect_pressed {
                self.show_monitor_selector = false;
            }
        }
        let mut asks: Vec<ViewerAsk> = Vec::new();
        if let Some(a) = self.on_focus(g.focused) {
            asks.push(a);
        }
        if g.browser_pressed {
            self.show_file_browser = !self.show_file_browser;
        }
        if g.input_pressed {
            let a = self.toggle_input();
            asks.push(a);
        }
        let mut more = self.on_keys(&g.keys);
        asks.append(&mut more);
        (now, asks)
    }
}

/// A key that was pressed.
pub open spec fn key_step(v: Viewer, name: Seq<char>) -> (Viewer, Option<ViewerAsk>) {
    if name == "F1"@ {
        (Viewer { osd_visible: !v.osd_visible, ..v }, None)
    } else if name == "F2"@ {
        (input_toggled(v).0, Some(input_toggled(v).1))
    } else {
        (v, None)
    }
}

/// Keys that were pressed one after another.
pub open spec fn keys_step(v: Viewer, names: Seq<Seq<char>>) -> (Viewer, Seq<ViewerAsk>)
    decreases names.len(),
{
    if names.len() == 0 {
        (v, Seq::empty())
    } else {
        let (w, asks) = keys_step(v, names.drop_last());
        match key_step(w, names.last()) {
            (x, Some(a)) => (x, asks.push(a)),
            (x, None) => (x, asks),
        }
    }
}

/// Input capture started or stopped.
pub open spec fn input_toggled(v: Viewer) -> (Viewer, ViewerAsk) {
    (
        Viewer { input_running: !v.input_running, ..v },
        if v.input_running { ViewerAsk::InputStop } else { ViewerAsk::InputStart },
    )
}

/// A monitor chosen.
pub open spec fn monitor_chosen(v: Viewer, i: usize, m: MonitorInfo) -> Viewer {
    Viewer {
        selected_monitor: i,
        offset_x: m.x,
        offset_y: m.y,
        width: m.width,
        height: m.height,
        ..v
    }
}

/// What was done in the window since it was last drawn.
pub struct Gestures {
    /// The monitor that was picked from the list.
    pub picked: Option<usize>,
    pub connect_pressed: bool,
    /// The window has the focus.
    pub focused: bool,
    pub browser_pressed: bool,
    pub input_pressed: bool,
    pub keys: Vec<String>,
}

/// One round of the window: the viewer after it, whether it connects, and what
/// it asks for. The list of monitors is there until one was chosen; the viewer
/// connects in the next round.
pub open spec fn viewer_step(v: Viewer, ms: Seq<MonitorInfo>, g: Gestures) -> (
    Viewer,
    bool,
    Seq<ViewerAsk>,
) {
    let now = !v.connected && !v.show_monitor_selector;
    let v1 = Viewer { connected: v.connected || now, ..v };
    let v2 = if v.show_monitor_selector {
        let w = match g.picked {
            Some(i) => if i < ms.len() { monitor_chosen(v1, i, ms[i as int]) } else { v1 },
            None => v1,
        };
        Viewer { show_monitor_selector: !g.connect_pressed, ..w }
    } else {
        v1
    };
    let asks = if g.focused == v.has_focus {
        Seq::<ViewerAsk>::empty()
    } else if g.focused {
        seq![ViewerAsk::VideoResume]
    } else {
        seq![ViewerAsk::VideoPause]
    };
    let v3 = Viewer {
        has_focus: g.focused,
        show_file_browser: v.show_file_browser != g.browser_pressed,
        ..v2
    };
    let (v4, asks4) = if g.input_pressed {
        (input_toggled(v3).0, asks.push(input_toggled(v3).1))
    } else {
        (v3, asks)
    };
    if v4.input_running {
        let (v5, more) = keys_step(v4, texts(g.keys@));
        (v5, now, asks4 + more)
    } else {
        (v4, now, asks4)
    }
}

/// A viewer without the focus asks for no video, and one that gets it asks for
/// video again: over a loss of focus and its return, the last word on video is
/// that it is wanted.
pub proof fn video_follows_focus(v: Viewer, ms: Seq<MonitorInfo>, away: Gestures, back: Gestures)
    requires
        v.has_focus,
        !away.focused,
        back.focused,
    ensures
        ({
            let (w, _, asks) = viewer_step(v, ms, away);
            let (x, _, again) = viewer_step(w, ms, back);
            &&& asks[0] == ViewerAsk::VideoPause
            &&& again[0] == ViewerAsk::VideoResume
            &&& x.has_focus
        }),
{
    assert forall|u: Viewer, names: Seq<Seq<char>>|
        (#[trigger] keys_step(u, names)).0.has_focus == u.has_focus by {
        lemma_keys_keep_focus(u, names);
    }
}

proof fn lemma_keys_keep_focus(v: Viewer, names: Seq<Seq<char>>)
    ensures
        keys_step(v, names).0.has_focus == v.has_focus,
    decreases names.len(),
{
    if names.len() > 0 {
        lemma_keys_keep_focus(v, names.drop_last());
    }
}

} // verus!
