//! What is on the screen: monitors, the viewer, the trees of files, the video's
//! window and sound.

use std::cmp::Ordering;
use crate::audio::{AudioCapture, AudioManager, AudioPlayer};
use crate::browser::{
    FileBrowser, FileEntry, FileType, RemoteFileEntry, TransferProgress, child_order, classify,
    is_image, is_text, pick_icon, shown_first,
};
use crate::icons::{FILE, FILE_IMAGE, FILE_TEXT, FOLDER_CLOSED, FOLDER_OPEN};
use crate::laws::text::cutting_splits_at_the_last;
use crate::listing::lowercase;
use crate::text::{
    decimal, lemma_lex_asymmetric, lemma_lex_irreflexive, lex_less, signed_decimal, texts,
};
use crate::video_window::{FRAME_BYTES, Painted, PaintedView, VideoWindow, decoder_args};
use crate::viewer::{
    Gestures, Grade, MonitorInfo, OsdFacts, OsdRow, OsdRowView, Viewer, ViewerAsk,
    enumerate_monitors, grade_rtt, keys_step, monitor_label, osd_rows, primary_index,
};
use vstd::prelude::*;
use vstd::string::*;

verus! {

// ---------------------------------------------------------------- monitors

/// The monitor to begin with is the first that is marked as the primary one, and
/// the first of all where none is.
pub proof fn primary_monitors_come_first(ms: &Vec<MonitorInfo>, i: usize, k: int)
    requires
        call_ensures(primary_index, (ms,), i),
    ensures
        0 <= k < ms@.len() && ms@[k].is_primary && (forall|j: int|
            0 <= j < k ==> !(#[trigger] ms@[j]).is_primary) ==> i == k,
        (forall|j: int| 0 <= j < ms@.len() ==> !(#[trigger] ms@[j]).is_primary) ==> i == 0,
{
}

/// A monitor is shown by its name, its size and its place.
pub proof fn monitors_are_named(m: &MonitorInfo, s: String)
    requires
        call_ensures(monitor_label, (m,), s),
    ensures
        m.is_primary ==> s@ == m.name@ + " (Primary)"@ + " - "@ + decimal(m.width as nat) + "x"@
            + decimal(m.height as nat) + " at ("@ + signed_decimal(m.x as int) + ", "@
            + signed_decimal(m.y as int) + ")"@,
        !m.is_primary ==> s@ == m.name@ + " - "@ + decimal(m.width as nat) + "x"@ + decimal(
            m.height as nat,
        ) + " at ("@ + signed_decimal(m.x as int) + ", "@ + signed_decimal(m.y as int) + ")"@,
{
    assert(m.name@ + Seq::<char>::empty() =~= m.name@);
}

/// Where nothing is known of the monitors there is one of the usual size.
pub proof fn there_is_a_monitor(r: Vec<MonitorInfo>)
    requires
        call_ensures(enumerate_monitors, (), r),
    ensures
        r@.len() == 1 && r@[0].is_primary && r@[0].width == 1920 && r@[0].height == 1080 && r@[0].x
            == 0 && r@[0].y == 0 && r@[0].index == 0,
{
}

// ---------------------------------------------------------------- the viewer

/// A round trip is good below 50 ms, fair below 100 and poor from there on.
pub proof fn round_trips_are_graded(ms: u128, g: Grade)
    requires
        call_ensures(grade_rtt, (ms,), g),
    ensures
        ms < 50 <==> g == Grade::Good,
        50 <= ms < 100 <==> g == Grade::Fair,
        ms >= 100 <==> g == Grade::Poor,
{
}

/// The rows over the picture say what is known of the session, in this order.
pub proof fn rows_say_what_is_known(f: &OsdFacts, r: Vec<OsdRow>, g: Grade)
    requires
        call_ensures(osd_rows, (f,), r),
        call_ensures(grade_rtt, (f.rtt_ms,), g),
    ensures
        r@.len() == 6,
        r@[0]@ == (OsdRowView {
            label: "Bitrate:"@,
            value: decimal(f.bitrate_kbps as nat) + " kbps"@,
            grade: Grade::Plain,
        }),
        r@[1]@ == (OsdRowView {
            label: "RTT:"@,
            value: decimal(f.rtt_ms as nat) + " ms"@,
            grade: g,
        }),
        r@[2].label@ == "Input:"@,
        f.input_active ==> r@[2].value@ == "ACTIVE"@ && r@[2].grade == Grade::Good,
        !f.input_active ==> r@[2].value@ == "INACTIVE"@ && r@[2].grade == Grade::Muted,
        r@[3]@ == (OsdRowView {
            label: "Dropped:"@,
            value: decimal(f.dropped as nat),
            grade: Grade::Poor,
        }),
        r@[4]@ == (OsdRowView {
            label: "  Dup:"@,
            value: decimal(f.duplicated as nat),
            grade: Grade::Fair,
        }),
        r@[5].label@ == "Status:"@,
        f.connected ==> r@[5].value@ == "CONNECTED"@ && r@[5].grade == Grade::Good,
        !f.connected ==> r@[5].value@ == "DISCONNECTED"@ && r@[5].grade == Grade::Poor,
{
    let v = r@.map_values(|w: OsdRow| w@);
    assert(v.len() == r@.len());
    assert(v[0] == r@[0]@ && v[1] == r@[1]@ && v[2] == r@[2]@ && v[3] == r@[3]@ && v[4] == r@[4]@
        && v[5] == r@[5]@);
}

/// Input that runs is stopped and input that does not is started, by the key as
/// by the button; doing it twice leaves it as it was.
pub proof fn input_is_switched(v: &mut Viewer, a: ViewerAsk, w: &mut Viewer, b: ViewerAsk)
    requires
        call_ensures(Viewer::toggle_input, (v,), a),
        *old(w) == *final(v),
        call_ensures(Viewer::toggle_input, (w,), b),
    ensures
        old(v).input_running <==> a is InputStop,
        !old(v).input_running <==> a is InputStart,
        final(v).input_running != old(v).input_running,
        *final(w) == *old(v),
        a != b,
{
}

/// One key shows and hides the rows, another switches the input; others do
/// nothing here.
pub proof fn keys_of_the_viewer(v: &mut Viewer, name: &str, a: Option<ViewerAsk>)
    requires
        call_ensures(Viewer::on_key, (v, name), a),
    ensures
        name@ == seq!['F', '1'] ==> a is None && *final(v) == (Viewer {
            osd_visible: !old(v).osd_visible,
            ..*old(v)
        }),
        name@ == seq!['F', '2'] ==> *final(v) == (Viewer {
            input_running: !old(v).input_running,
            ..*old(v)
        }) && a == Some(
            if old(v).input_running { ViewerAsk::InputStop } else { ViewerAsk::InputStart },
        ),
        name@ != seq!['F', '1'] && name@ != seq!['F', '2'] ==> a is None && *final(v) == *old(v),
{
    reveal_strlit("F1");
    reveal_strlit("F2");
    assert("F1"@ =~= seq!['F', '1']);
    assert("F2"@ =~= seq!['F', '2']);
    assert("F1"@[1] == '1' && "F2"@[1] == '2');
}

/// Keys count while input runs, each in its turn.
pub proof fn keys_count_while_input_runs(
    v: &mut Viewer,
    names: &Vec<String>,
    r: Vec<ViewerAsk>,
    w: &mut Viewer,
    one: &str,
    a: Option<ViewerAsk>,
)
    requires
        call_ensures(Viewer::on_keys, (v, names), r),
        call_ensures(Viewer::on_key, (w, one), a),
        *old(w) == *old(v),
    ensures
        !old(v).input_running ==> *final(v) == *old(v) && r@.len() == 0,
        old(v).input_running && names@.len() == 0 ==> *final(v) == *old(v) && r@.len() == 0,
        old(v).input_running && texts(names@) == seq![one@] ==> *final(v) == *final(w) && (
        a matches Some(x) ==> r@ == seq![x]) && (a is None ==> r@.len() == 0),
{
    reveal_with_fuel(keys_step, 3);
    let t = texts(names@);
    if t == seq![one@] {
        assert(t.drop_last() =~= Seq::empty());
        assert(t.last() == one@);
        assert(keys_step(*old(v), t.drop_last()) == (*old(v), Seq::<ViewerAsk>::empty()));
        if a is Some {
            assert(Seq::<ViewerAsk>::empty().push(a->0) =~= seq![a->0]);
        }
    }
}

/// The video pauses when the window loses the focus and goes on when it has it
/// again; a focus that stays asks for nothing.
pub proof fn video_waits_for_the_focus(v: &mut Viewer, focused: bool, a: Option<ViewerAsk>)
    requires
        call_ensures(Viewer::on_focus, (v, focused), a),
    ensures
        *final(v) == (Viewer { has_focus: focused, ..*old(v) }),
        old(v).has_focus && !focused <==> a == Some(ViewerAsk::VideoPause),
        !old(v).has_focus && focused <==> a == Some(ViewerAsk::VideoResume),
        old(v).has_focus == focused <==> a is None,
{
}

/// The viewer starts with the list of monitors, on the primary one, and connects
/// once when the list is left.
pub proof fn viewers_start(ms: &Vec<MonitorInfo>, v: Viewer, i: usize, w: &mut Viewer, now: bool)
    requires
        call_ensures(Viewer::new, (ms,), v),
        call_ensures(primary_index, (ms,), i),
        call_ensures(Viewer::connect, (w,), now),
    ensures
        !v.connected && v.show_monitor_selector && !v.input_running && v.has_focus && v.osd_visible
            && !v.show_file_browser,
        ms@.len() > 0 ==> v.selected_monitor == i && v.width == ms@[i as int].width && v.height
            == ms@[i as int].height && v.offset_x == ms@[i as int].x && v.offset_y
            == ms@[i as int].y,
        ms@.len() == 0 ==> v.width == 1920 && v.height == 1080 && v.offset_x == 0 && v.offset_y == 0,
        now <==> !old(w).connected && !old(w).show_monitor_selector,
        *final(w) == (Viewer { connected: old(w).connected || now, ..*old(w) }),
{
}

/// The monitor that is picked is the one whose part is shown.
pub proof fn picked_monitors_are_shown(v: &mut Viewer, i: usize, m: &MonitorInfo)
    requires
        call_ensures(Viewer::select_monitor, (v, i, m), ()),
    ensures
        *final(v) == (Viewer {
            selected_monitor: i,
            offset_x: m.x,
            offset_y: m.y,
            width: m.width,
            height: m.height,
            ..*old(v)
        }),
{
}

/// One round of the viewer: the list of monitors is left by its button, and what
/// was picked from it counts; the focus, the browser and the input follow their
/// buttons.
pub proof fn rounds_of_the_viewer(
    v: &mut Viewer,
    ms: &Vec<MonitorInfo>,
    g: &Gestures,
    r: (bool, Vec<ViewerAsk>),
)
    requires
        call_ensures(Viewer::update, (v, ms, g), r),
        g.keys@.len() == 0,
    ensures
        r.0 <==> !old(v).connected && !old(v).show_monitor_selector,
        final(v).connected == (old(v).connected || r.0),
        final(v).show_monitor_selector == (old(v).show_monitor_selector && !g.connect_pressed),
        final(v).has_focus == g.focused,
        final(v).show_file_browser == (old(v).show_file_browser != g.browser_pressed),
        final(v).input_running == (old(v).input_running != g.input_pressed),
        final(v).osd_visible == old(v).osd_visible,
        g.picked matches Some(i) ==> (old(v).show_monitor_selector && i < ms@.len() ==> final(
            v).selected_monitor == i && final(v).offset_x == ms@[i as int].x && final(v).offset_y
            == ms@[i as int].y && final(v).width == ms@[i as int].width && final(v).height
            == ms@[i as int].height),
        !old(v).show_monitor_selector || g.picked is None ==> final(v).selected_monitor == old(
            v,
        ).selected_monitor && final(v).width == old(v).width && final(v).offset_x == old(
            v,
        ).offset_x,
        old(v).has_focus == g.focused && !g.input_pressed ==> r.1@.len() == 0,
        old(v).has_focus && !g.focused ==> r.1@.len() > 0 && r.1@[0] == ViewerAsk::VideoPause,
        !old(v).has_focus && g.focused ==> r.1@.len() > 0 && r.1@[0] == ViewerAsk::VideoResume,
        g.input_pressed ==> r.1@.len() > 0 && r.1@.last() == if old(v).input_running {
            ViewerAsk::InputStop
        } else {
            ViewerAsk::InputStart
        },
{
    reveal_with_fuel(keys_step, 2);
    assert(texts(g.keys@).len() == 0);
    assert(r.1@ + Seq::<ViewerAsk>::empty() =~= r.1@);
}

// ---------------------------------------------------------------- trees of files

/// The sort of a file is told by its extension, which starts behind the last
/// dot, without regard to case.
pub proof fn sorts_are_told_by_extension(
    name: &str,
    is_dir: bool,
    t: FileType,
    stem: Seq<char>,
    ext: Seq<char>,
)
    requires
        call_ensures(classify, (name, is_dir), t),
        name@ == stem + seq!['.'] + ext,
        stem.len() > 0,
        forall|i: int| 0 <= i < ext.len() ==> (#[trigger] ext[i]) != '.',
    ensures
        is_dir ==> t == FileType::Directory,
        !is_dir && (lowercase(ext) == "png"@ || lowercase(ext) == "jpg"@ || lowercase(ext)
            == "jpeg"@ || lowercase(ext) == "gif"@ || lowercase(ext) == "bmp"@ || lowercase(ext)
            == "webp"@ || lowercase(ext) == "ico"@) ==> t == FileType::Image,
        !is_dir && (lowercase(ext) == "txt"@ || lowercase(ext) == "md"@ || lowercase(ext) == "rs"@
            || lowercase(ext) == "toml"@ || lowercase(ext) == "json"@ || lowercase(ext) == "yaml"@
            || lowercase(ext) == "yml"@ || lowercase(ext) == "log"@ || lowercase(ext) == "cfg"@
            || lowercase(ext) == "ini"@) ==> t == FileType::Text,
        !is_dir && !is_image(lowercase(ext)) && !is_text(lowercase(ext)) ==> t == FileType::File,
{
    cutting_splits_at_the_last(stem, '.', ext);
    lemma_text_is_no_image();
}

proof fn lemma_text_is_no_image()
    ensures
        forall|e: Seq<char>| is_text(e) ==> !is_image(e),
{
    reveal_strlit("png");
    reveal_strlit("jpg");
    reveal_strlit("jpeg");
    reveal_strlit("gif");
    reveal_strlit("bmp");
    reveal_strlit("webp");
    reveal_strlit("ico");
    reveal_strlit("txt");
    reveal_strlit("md");
    reveal_strlit("rs");
    reveal_strlit("toml");
    reveal_strlit("json");
    reveal_strlit("yaml");
    reveal_strlit("yml");
    reveal_strlit("log");
    reveal_strlit("cfg");
    reveal_strlit("ini");
    assert("png"@[0] == 'p' && "jpg"@[0] == 'j' && "jpeg"@[1] == 'p' && "gif"@[0] == 'g'
        && "bmp"@[0] == 'b' && "webp"@[0] == 'w' && "ico"@[1] == 'c');
    assert("txt"@[0] == 't' && "md"@[0] == 'm' && "rs"@[0] == 'r' && "toml"@[0] == 't'
        && "json"@[1] == 's' && "yaml"@[0] == 'y' && "yml"@[0] == 'y' && "log"@[0] == 'l'
        && "cfg"@[0] == 'c' && "ini"@[1] == 'n');
    assert("jpg"@.len() == 3 && "json"@.len() == 4 && "jpeg"@[0] == 'j' && "json"@[0] == 'j'
        && "ico"@[0] == 'i' && "ini"@[0] == 'i');
}

/// Each sort has its sign; a directory that is open has another than one that
/// is closed.
pub proof fn sorts_have_their_signs(
    e: &FileEntry,
    s: &'static str,
    r: &RemoteFileEntry,
    t: &'static str,
)
    requires
        call_ensures(FileEntry::icon, (e,), s),
        call_ensures(RemoteFileEntry::icon, (r,), t),
    ensures
        e.file_type == FileType::Directory && e.is_expanded ==> s@ == FOLDER_OPEN@,
        e.file_type == FileType::Directory && !e.is_expanded ==> s@ == FOLDER_CLOSED@,
        e.file_type == FileType::Image ==> s@ == FILE_IMAGE@,
        e.file_type == FileType::Text ==> s@ == FILE_TEXT@,
        e.file_type == FileType::File || e.file_type == FileType::Unknown ==> s@ == FILE@,
        r.is_dir && r.is_expanded ==> t@ == FOLDER_OPEN@,
        r.is_dir && !r.is_expanded ==> t@ == FOLDER_CLOSED@,
        !r.is_dir ==> t@ == FILE@,
{
}

/// The entries of a directory are shown each once: the directories first, then
/// by name; those that are alike in both in the order in which they came.
pub proof fn trees_are_shown_in_order(e: &FileEntry, order: Vec<usize>, k: int, m: int)
    requires
        call_ensures(FileEntry::display_order, (e,), order),
        0 <= k < m < order@.len(),
    ensures
        order@.len() == e.children@.len(),
        order@[k] < e.children@.len() && order@[m] < e.children@.len(),
        order@[k] != order@[m],
        ({
            let a = e.children@[order@[k] as int];
            let b = e.children@[order@[m] as int];
            let (da, db) = (a.file_type == FileType::Directory, b.file_type == FileType::Directory);
            &&& db ==> da
            &&& da == db ==> !lex_less(b.name@, a.name@)
            &&& da == db && a.name@ == b.name@ ==> order@[k] < order@[m]
        }),
{
    let c = e.children@;
    assert(shown_first(c, order@[k] as int, order@[m] as int));
    let a = c[order@[k] as int];
    let b = c[order@[m] as int];
    lemma_lex_irreflexive(a.name@);
    lemma_lex_asymmetric(a.name@, b.name@);
}

/// The order of two entries is the same seen from either side.
pub proof fn entries_compare_both_ways(
    a_dir: bool,
    a: &str,
    b_dir: bool,
    b: &str,
    r: Ordering,
    s: Ordering,
)
    requires
        call_ensures(child_order, (a_dir, a, b_dir, b), r),
        call_ensures(child_order, (b_dir, b, a_dir, a), s),
    ensures
        a_dir && !b_dir ==> r is Less,
        a_dir == b_dir ==> ((r is Less) <==> lex_less(a@, b@)),
        (r is Less) <==> (s is Greater),
        (r is Equal) <==> (s is Equal),
        (r is Equal) <==> a_dir == b_dir && a@ == b@,
{
}

/// A directory opens and closes; it is read when it opens for the first time.
/// Other entries stay as they are.
pub proof fn directories_open_and_close(
    e: &mut FileEntry,
    load: bool,
    r: &mut RemoteFileEntry,
    f: &mut FileEntry,
    children: Vec<FileEntry>,
)
    requires
        call_ensures(FileEntry::toggle, (e,), load),
        call_ensures(RemoteFileEntry::toggle, (r,), ()),
        call_ensures(FileEntry::load_children, (f, children), ()),
    ensures
        old(e).file_type == FileType::Directory ==> final(e).is_expanded != old(e).is_expanded,
        old(e).file_type != FileType::Directory ==> final(e).is_expanded == old(e).is_expanded
            && !load,
        load ==> final(e).is_expanded && old(e).children@.len() == 0 && !old(e).is_loading,
        old(e).file_type == FileType::Directory && !old(e).is_expanded && old(e).children@.len() == 0
            && !old(e).is_loading ==> load,
        old(r).is_dir ==> final(r).is_expanded != old(r).is_expanded,
        !old(r).is_dir ==> final(r).is_expanded == old(r).is_expanded,
        old(f).file_type == FileType::Directory ==> final(f).children == children && !final(
            f).is_loading,
        old(f).file_type != FileType::Directory ==> final(f).children == old(f).children,
{
}

/// A new entry is closed and empty, and of the sort that its name tells; a
/// directory has no size.
pub proof fn entries_begin_closed(
    path: String,
    name: String,
    is_dir: bool,
    size: u64,
    e: FileEntry,
    r: RemoteFileEntry,
    n: &str,
    t: FileType,
)
    requires
        call_ensures(FileEntry::new, (path, name, is_dir, size), e),
        call_ensures(RemoteFileEntry::new, (name, path, is_dir, size), r),
        n@ == name@,
        call_ensures(classify, (n, is_dir), t),
    ensures
        e.path == path && e.name == name && e.file_type == t && !e.is_expanded && !e.is_loading
            && e.children@.len() == 0,
        is_dir ==> e.size == 0,
        !is_dir ==> e.size == size,
        r.path == path && r.name == name && r.is_dir == is_dir && r.size == size && !r.is_expanded
            && !r.is_loading && r.children@.len() == 0,
{
}

/// The progress of a transfer is told from its beginning until all bytes are
/// there, and keeps the name and the time with which it began.
pub proof fn progress_is_told(
    b: &mut FileBrowser,
    name: String,
    bytes: u64,
    total: u64,
    up: bool,
    now: u64,
    c: &mut FileBrowser,
    name2: String,
    bytes2: u64,
    up2: bool,
    later: u64,
)
    requires
        call_ensures(FileBrowser::update_transfer_progress, (b, name, bytes, total, up, now), ()),
        old(b).transfer_progress is None,
        bytes < total,
        *old(c) == *final(b),
        call_ensures(
            FileBrowser::update_transfer_progress,
            (c, name2, bytes2, total, up2, later),
            (),
        ),
    ensures
        final(b).transfer_progress == Some(TransferProgress {
                filename: name,
                bytes_transferred: bytes,
                total_bytes: total,
                is_upload: up,
                start_time: now,
        }),
        bytes2 < total ==> final(c).transfer_progress == Some(TransferProgress {
                filename: name,
                bytes_transferred: bytes2,
                total_bytes: total,
                is_upload: up,
                start_time: now,
        }),
        bytes2 >= total ==> final(c).transfer_progress is None,
{
}

// ---------------------------------------------------------------- the video's window

/// What comes in for the window leaves it in the same order, nothing twice and
/// nothing lost.
pub proof fn streams_pass_in_order(
    w: &mut VideoWindow,
    chunk: &[u8],
    v: &mut VideoWindow,
    r: Option<Vec<u8>>,
)
    requires
        call_ensures(VideoWindow::push_ts, (w, chunk), ()),
        *old(v) == *final(w),
        call_ensures(VideoWindow::next_ts, (v,), r),
    ensures
        final(w)@.waiting == old(w)@.waiting.push(chunk@),
        r matches Some(c) && seq![c@] + final(v)@.waiting == old(w)@.waiting.push(chunk@),
        old(w)@.waiting.len() == 0 ==> r->0@ == chunk@,
        final(v)@.frame == old(w)@.frame && final(v)@.status == old(w)@.status,
{
    let q = old(w)@.waiting.push(chunk@);
    assert(seq![q[0]] + q.skip(1) =~= q);
}

/// The window shows the last picture that it was given, and its text until then.
pub proof fn windows_show_the_last_picture(
    n: VideoWindow,
    a: Painted,
    w: &mut VideoWindow,
    frame: Vec<u8>,
    b: Painted,
    v: &mut VideoWindow,
    text: &str,
    c: Painted,
    s: &mut VideoWindow,
)
    requires
        call_ensures(VideoWindow::new, (), n),
        call_ensures(VideoWindow::painted, (&n,), a),
        call_ensures(VideoWindow::push_frame, (w, frame), ()),
        call_ensures(VideoWindow::painted, (&*final(w),), b),
        call_ensures(VideoWindow::set_status, (v, text), ()),
        call_ensures(VideoWindow::painted, (&*final(v),), c),
        call_ensures(VideoWindow::decoder_stopped, (s, text), ()),
    ensures
        a@ == PaintedView::Text("Connecting…"@),
        n@.waiting.len() == 0,
        b@ == PaintedView::Picture(frame@),
        old(v)@.frame is None ==> c@ == PaintedView::Text(text@),
        old(v)@.frame matches Some(f) ==> c@ == PaintedView::Picture(f),
        final(s)@.status == "Video decoder stopped ("@ + text@ + ")"@,
        final(s)@.frame == old(s)@.frame && final(s)@.waiting == old(s)@.waiting,
        final(w)@.waiting == old(w)@.waiting,
{
}

/// The decoder reads the stream and gives raw pictures of the window's size.
pub proof fn decoders_fit_the_window(r: Vec<String>)
    requires
        call_ensures(decoder_args, (), r),
    ensures
        texts(r@) == seq![
            "-hide_banner"@,
            "-loglevel"@,
            "error"@,
            "-fflags"@,
            "+nobuffer"@,
            "-probesize"@,
            "32"@,
            "-analyzeduration"@,
            "0"@,
            "-f"@,
            "mpegts"@,
            "-i"@,
            "pipe:0"@,
            "-vf"@,
            "scale="@ + decimal(1280) + ":"@ + decimal(720),
            "-pix_fmt"@,
            "bgr24"@,
            "-f"@,
            "rawvideo"@,
            "pipe:1"@,
        ],
        FRAME_BYTES == 3 * 1280 * 720,
{
}

// ---------------------------------------------------------------- sound

/// Sound is played where a player was made and started, and until it is
/// stopped; without one starting does nothing.
pub proof fn sound_is_played_while_it_runs(
    m: &mut AudioManager,
    fault: Option<String>,
    r: Result<(), String>,
    n: &mut AudioManager,
    o: &mut AudioManager,
    p: AudioManager,
    a: bool,
    b: bool,
    c: bool,
)
    requires
        call_ensures(AudioManager::init_playback, (m, fault), r),
        *old(n) == *final(m),
        call_ensures(AudioManager::start_playback, (n,), ()),
        *old(o) == *final(n),
        call_ensures(AudioManager::stop_playback, (o,), ()),
        call_ensures(AudioManager::new, (), p),
        call_ensures(AudioManager::feed_audio, (&*final(n),), a),
        call_ensures(AudioManager::feed_audio, (&*final(o),), b),
        call_ensures(AudioManager::feed_audio, (&p,), c),
    ensures
        r is Ok <==> old(m).player is Some || fault is None,
        r matches Err(e) ==> fault == Some(e) && *final(m) == *old(m),
        a <==> old(m).player is Some || fault is None,
        !b,
        !c,
        final(o).capture == old(m).capture,
        p.player is None && p.capture is None,
{
}

/// A microphone is opened when capture starts, once until it is stopped.
pub proof fn microphones_open_once(
    m: &mut AudioManager,
    n: &mut AudioManager,
    first: bool,
    o: &mut AudioManager,
    second: bool,
    p: &mut AudioManager,
    q: &mut AudioManager,
    again: bool,
)
    requires
        old(m).capture is None,
        call_ensures(AudioManager::init_capture, (m,), ()),
        *old(n) == *final(m),
        call_ensures(AudioManager::start_capture, (n,), first),
        *old(o) == *final(n),
        call_ensures(AudioManager::start_capture, (o,), second),
        *old(p) == *final(o),
        call_ensures(AudioManager::stop_capture, (p,), ()),
        *old(q) == *final(p),
        call_ensures(AudioManager::start_capture, (q,), again),
    ensures
        first,
        !second,
        again,
        final(q).player == old(m).player,
        final(p).capture matches Some(c) && !c.running,
{
}

/// Players and microphones run between their start and their stop.
pub proof fn devices_run_between_start_and_stop(
    p: AudioPlayer,
    q: &mut AudioPlayer,
    a: bool,
    c: AudioCapture,
    d: &mut AudioCapture,
    fresh: bool,
    b: bool,
    s: &mut AudioPlayer,
    t: &mut AudioCapture,
)
    requires
        call_ensures(AudioPlayer::new, (), p),
        call_ensures(AudioPlayer::start, (q,), ()),
        call_ensures(AudioPlayer::is_running, (&*final(q),), a),
        call_ensures(AudioCapture::new, (), c),
        call_ensures(AudioCapture::start, (d,), fresh),
        call_ensures(AudioCapture::is_running, (&*final(d),), b),
        call_ensures(AudioPlayer::stop, (s,), ()),
        call_ensures(AudioCapture::stop, (t,), ()),
    ensures
        !p.running && !c.running,
        a && b,
        fresh <==> !old(d).running,
        !final(s).running && !final(t).running,
{
}

/// A browser begins with the local tree alone; the remote one comes when it was
/// listed.
pub proof fn browsers_begin_local(
    root: FileEntry,
    b: FileBrowser,
    c: &mut FileBrowser,
    r: RemoteFileEntry,
    e: &RemoteFileEntry,
    t: FileType,
    i: &'static str,
    k: FileType,
    open: bool,
)
    requires
        call_ensures(FileBrowser::new, (root,), b),
        call_ensures(FileBrowser::set_remote_root, (c, r), ()),
        call_ensures(RemoteFileEntry::file_type, (e,), t),
        call_ensures(pick_icon, (k, open), i),
    ensures
        b.local_root == root && b.remote_root is None && b.selected_local is None
            && b.selected_remote is None && b.transfer_progress is None,
        *final(c) == (FileBrowser { remote_root: Some(r), ..*old(c) }),
        e.is_dir <==> t == FileType::Directory,
        !e.is_dir <==> t == FileType::File,
        k == FileType::Directory && open ==> i@ == FOLDER_OPEN@,
        k == FileType::Directory && !open ==> i@ == FOLDER_CLOSED@,
        k == FileType::Image ==> i@ == FILE_IMAGE@,
        k == FileType::Text ==> i@ == FILE_TEXT@,
        k == FileType::File || k == FileType::Unknown ==> i@ == FILE@,
{
}

} // verus!
