//! The file explorer: two panes, a clipboard, a terminal and dialogs, and what
//! each gesture of the user and each event of the session does to them.

use crate::listing::{
    Entry, EntryView, dedup_name, entry_list, in_order, lines_of, name_in, normalize_remote,
    remote_join, remote_parent, resolve_remote, sort_entries, split_lines,
};
use crate::text::{
    cat2, cat3, cat4, cat5, chars_of, cut_first, dec, decimal, owned_opt, same, split_once,
    text_from_utf8, text_opt, texts, trim, trimmed,
};
use vstd::prelude::*;
use vstd::string::*;
use vstd::utf8::*;

verus! {

/// Lines that the terminal keeps before the oldest go.
pub const TERMINAL_LINES: usize = 500;

// ---------------------------------------------------------------- model

/// One of the two panes.
#[derive(Clone, Copy, Debug, PartialEq, Eq, Structural)]
pub enum PaneKind {
    Local,
    Remote,
}

/// What the user does in a pane.
#[derive(Clone, Copy, Debug, PartialEq, Eq, Structural)]
pub enum Op {
    Refresh(PaneKind),
    Up(PaneKind),
    Back(PaneKind),
    Home(PaneKind),
    Enter(PaneKind, usize),
    NewFolder(PaneKind),
    Rename(PaneKind, usize),
    Delete(PaneKind, usize),
    CopyClip(PaneKind),
    CutClip(PaneKind),
}

/// What a text that is asked for is for.
#[derive(Clone, Copy, Debug, PartialEq, Eq, Structural)]
pub enum TextMode {
    NewFolder(PaneKind),
    Rename(PaneKind, usize),
}

/// How a line of the terminal looks.
#[derive(Clone, Copy, Debug, PartialEq, Eq, Structural)]
pub enum Tone {
    Plain,
    Good,
    Bad,
}

/// A name in a local directory.
pub struct PlaceView {
    pub dir: Seq<char>,
    pub name: Seq<char>,
}

/// A pane.
pub struct PaneView {
    pub label: Seq<char>,
    pub remote_cwd: Seq<char>,
    pub local_cwd: Seq<char>,
    pub entries: Seq<EntryView>,
    pub selected: Option<usize>,
    pub loading: bool,
    pub error: Option<Seq<char>>,
    pub history: Seq<Seq<char>>,
}

/// An entry that was copied or cut.
pub struct ClipItemView {
    pub name: Seq<char>,
    pub is_dir: bool,
}

/// What was copied or cut.
pub struct ClipView {
    pub kind: PaneKind,
    pub remote_cwd: Seq<char>,
    pub local_cwd: Seq<char>,
    pub items: Seq<ClipItemView>,
    pub cut: bool,
}

/// A source that goes once its copy is complete.
pub enum SweepTargetView {
    Remote { path: Seq<char> },
    Local { place: PlaceView },
}

/// Sources that go once so many copies are complete.
pub struct SweepView {
    pub remaining: nat,
    pub targets: Seq<SweepTargetView>,
}

/// What a confirmation is for.
pub enum ConfirmView {
    DeleteRemote { path: Seq<char>, is_dir: bool },
    DeleteLocal { place: PlaceView },
}

/// A dialog.
pub enum ModalView {
    Text { title: Seq<char>, input: Seq<char>, mode: TextMode },
    Confirm { title: Seq<char>, msg: Seq<char>, action: ConfirmView },
}

/// The terminal.
pub struct TerminalView {
    pub open: bool,
    pub log: Seq<(Seq<char>, Tone)>,
    pub input: Seq<char>,
    pub busy: bool,
    pub elevated: bool,
}

/// The dialog that asks where to connect.
pub struct ConnectView {
    pub user: Seq<char>,
    pub ip: Seq<char>,
    pub password: Seq<char>,
    pub accept_license: bool,
    pub error: Option<Seq<char>>,
    pub busy: bool,
}

/// An entry that is being dragged.
pub struct DragView {
    pub kind: PaneKind,
    pub name: Seq<char>,
    pub is_dir: bool,
}

/// The explorer.
pub struct ExplorerView {
    /// The panes are shown, not the dialog that asks where to connect.
    pub live: bool,
    /// There is a session.
    pub connected: bool,
    pub connect: ConnectView,
    pub status: Seq<char>,
    pub remote: PaneView,
    pub local: PaneView,
    pub focused: PaneKind,
    pub clipboard: Option<ClipView>,
    pub sweep: Option<SweepView>,
    pub terminal: TerminalView,
    pub modal: Option<ModalView>,
    pub drag: Option<DragView>,
}

/// What is to be done outside the explorer: requests of the session, and work on
/// local files.
pub enum EffectView {
    ListDir { path: Seq<char> },
    Get { remote: Seq<char>, local: PlaceView },
    Put { local: PlaceView, remote: Seq<char> },
    Copy { from_path: Seq<char>, to_path: Seq<char> },
    Delete { path: Seq<char>, recursive: bool },
    CreateDir { path: Seq<char> },
    Rename { old_path: Seq<char>, new_path: Seq<char> },
    Exec { cmd: Seq<char>, elevated: bool },
    LoadLocal { dir: Seq<char> },
    CopyLocal { from: PlaceView, to: PlaceView, is_dir: bool },
    MoveLocal { from: PlaceView, to: PlaceView, is_dir: bool },
    RemoveLocal { place: PlaceView },
    SweepLocal { place: PlaceView },
    MakeDir { place: PlaceView },
    RenameLocal { from: PlaceView, to: PlaceView },
    Connect { target: Seq<char>, password: Seq<char>, accept_license: bool },
    CloseSession,
}

impl PaneView {
    /// The entry that is selected.
    pub open spec fn selected_item(self) -> Option<(Seq<char>, bool)> {
        match self.selected {
            Some(i) => if i < self.entries.len() {
                Some((self.entries[i as int].name, self.entries[i as int].is_dir))
            } else {
                None
            },
            None => None,
        }
    }
}

impl ExplorerView {
    pub open spec fn pane(self, kind: PaneKind) -> PaneView {
        match kind {
            PaneKind::Remote => self.remote,
            PaneKind::Local => self.local,
        }
    }

    pub open spec fn with_pane(self, kind: PaneKind, p: PaneView) -> ExplorerView {
        match kind {
            PaneKind::Remote => ExplorerView { remote: p, ..self },
            PaneKind::Local => ExplorerView { local: p, ..self },
        }
    }

    pub open spec fn telling(self, status: Seq<char>) -> ExplorerView {
        ExplorerView { status, ..self }
    }
}

/// The explorer and what is to be done.
pub type Step = (ExplorerView, Seq<EffectView>);

/// The name of a pane.
pub open spec fn pane_name(kind: PaneKind) -> Seq<char> {
    if kind == PaneKind::Remote { "remote"@ } else { "local"@ }
}

/// A pane's entries are asked for anew.
pub open spec fn listed(e: ExplorerView, kind: PaneKind) -> Step {
    match kind {
        PaneKind::Remote => if e.connected {
            (
                e.with_pane(kind, PaneView { loading: true, error: None, ..e.remote }),
                seq![EffectView::ListDir { path: e.remote.remote_cwd }],
            )
        } else {
            (
                e.with_pane(
                    kind,
                    PaneView { loading: false, error: Some("not connected"@), ..e.remote },
                ),
                Seq::empty(),
            )
        },
        PaneKind::Local => (e, seq![EffectView::LoadLocal { dir: e.local.local_cwd }]),
    }
}

/// A pane goes to another directory, and remembers the one that it showed.
pub open spec fn navigated(e: ExplorerView, kind: PaneKind, label: Seq<char>) -> Step {
    let p = e.pane(kind);
    listed(
        e.with_pane(
            kind,
            PaneView {
                history: p.history.push(p.label),
                label,
                remote_cwd: if kind == PaneKind::Remote {
                    if label == "~"@ { "."@ } else { label }
                } else {
                    Seq::empty()
                },
                local_cwd: if kind == PaneKind::Local { label } else { Seq::empty() },
                selected: None,
                ..p
            },
        ),
        kind,
    )
}

/// The selected entry of the remote pane is downloaded.
pub open spec fn pulled(e: ExplorerView, name: Seq<char>, is_dir: bool) -> Step {
    if is_dir {
        (
            e.telling("'"@ + name + "' is a directory — download is file-only for now"@),
            Seq::empty(),
        )
    } else if !e.connected {
        (e.telling("not connected"@), Seq::empty())
    } else {
        (
            e.telling("downloading "@ + name + "..."@),
            seq![
                EffectView::Get {
                    remote: remote_join(e.remote.remote_cwd, name),
                    local: PlaceView { dir: e.local.local_cwd, name },
                },
            ],
        )
    }
}

/// The selected entry of the local pane is uploaded. `shown` is the path of the
/// file as it is told.
pub open spec fn pushed_up(
    e: ExplorerView,
    name: Seq<char>,
    is_dir: bool,
    is_file: bool,
    shown: Seq<char>,
) -> Step {
    if is_dir {
        (e.telling("'"@ + name + "' is a directory — upload is file-only for now"@), Seq::empty())
    } else if !e.connected {
        (e.telling("not connected"@), Seq::empty())
    } else if !is_file {
        (e.telling("no such local file: "@ + shown), Seq::empty())
    } else {
        (
            e.telling("uploading "@ + name + "..."@),
            seq![
                EffectView::Put {
                    local: PlaceView { dir: e.local.local_cwd, name },
                    remote: remote_join(e.remote.remote_cwd, name),
                },
            ],
        )
    }
}

/// The selected entry of the focused pane goes to the clipboard.
pub open spec fn clipped(e: ExplorerView, cut: bool) -> ExplorerView {
    let p = e.pane(e.focused);
    match p.selected_item() {
        None => e.telling("nothing selected to copy"@),
        Some((name, is_dir)) => ExplorerView {
            clipboard: Some(
                ClipView {
                    kind: e.focused,
                    remote_cwd: p.remote_cwd,
                    local_cwd: p.local_cwd,
                    items: seq![ClipItemView { name, is_dir }],
                    cut,
                },
            ),
            status: (if cut { "cut"@ } else { "copied"@ }) + " '"@ + name + "' to clipboard"@,
            ..e
        },
    }
}

/// A list with one more item, if there is one.
pub open spec fn with_next<A>(s: Seq<A>, next: Option<A>) -> Seq<A> {
    match next {
        Some(x) => s.push(x),
        None => s,
    }
}

/// What pasting one item does outside the explorer, and the source that goes
/// once that is complete. `is_file` says whether a local source is a file.
pub open spec fn paste_effect(
    e: ExplorerView,
    clip: ClipView,
    item: ClipItemView,
    to: PaneKind,
    is_file: bool,
) -> (Option<EffectView>, Option<SweepTargetView>) {
    let dst = e.pane(to);
    let name = name_in(dst.entries, item.name, item.is_dir, !clip.cut);
    let from_remote = remote_join(clip.remote_cwd, item.name);
    let from_local = PlaceView { dir: clip.local_cwd, name: item.name };
    let to_remote = remote_join(dst.remote_cwd, name);
    let to_local = PlaceView { dir: dst.local_cwd, name };
    match (clip.kind, to) {
        (PaneKind::Remote, PaneKind::Remote) => if e.connected {
            (
                Some(EffectView::Copy { from_path: from_remote, to_path: to_remote }),
                if clip.cut { Some(SweepTargetView::Remote { path: from_remote }) } else { None },
            )
        } else {
            (None, None)
        },
        (PaneKind::Local, PaneKind::Local) => (
            Some(
                if clip.cut {
                    EffectView::MoveLocal { from: from_local, to: to_local, is_dir: item.is_dir }
                } else {
                    EffectView::CopyLocal { from: from_local, to: to_local, is_dir: item.is_dir }
                },
            ),
            None,
        ),
        (PaneKind::Remote, PaneKind::Local) => if e.connected && !item.is_dir {
            (
                Some(EffectView::Get { remote: from_remote, local: to_local }),
                if clip.cut { Some(SweepTargetView::Remote { path: from_remote }) } else { None },
            )
        } else {
            (None, None)
        },
        (PaneKind::Local, PaneKind::Remote) => if e.connected && !item.is_dir && is_file {
            (
                Some(EffectView::Put { local: from_local, remote: to_remote }),
                if clip.cut { Some(SweepTargetView::Local { place: from_local }) } else { None },
            )
        } else {
            (None, None)
        },
    }
}

/// What pasting items does, one after the other, and the sources that go once
/// that is complete. `files` says of each item whether a local source is a file.
pub open spec fn paste_effects(
    e: ExplorerView,
    clip: ClipView,
    items: Seq<ClipItemView>,
    to: PaneKind,
    files: Seq<bool>,
) -> (Seq<EffectView>, Seq<SweepTargetView>)
    decreases items.len(),
{
    if items.len() == 0 {
        (Seq::empty(), Seq::empty())
    } else {
        let i = items.len() - 1;
        let (effects, targets) = paste_effects(e, clip, items.drop_last(), to, files);
        let (effect, target) = paste_effect(
            e,
            clip,
            items[i],
            to,
            i < files.len() && files[i],
        );
        (with_next(effects, effect), with_next(targets, target))
    }
}

/// The clipboard is pasted into a pane.
pub open spec fn pasted(e: ExplorerView, to: PaneKind, files: Seq<bool>) -> Step {
    match e.clipboard {
        None => (e.telling("clipboard is empty"@), Seq::empty()),
        Some(clip) => {
            let (effects, targets) = paste_effects(e, clip, clip.items, to, files);
            let waiting = if targets.len() > 0 {
                ExplorerView { sweep: Some(SweepView { remaining: targets.len(), targets }), ..e }
            } else {
                e
            };
            let (e1, f1) = listed(waiting, to);
            let (e2, f2) = if clip.kind != to { listed(e1, clip.kind) } else { (e1, Seq::empty()) };
            (
                e2.telling(
                    (if clip.cut { "moved"@ } else { "copied"@ }) + " "@ + pane_name(clip.kind)
                        + " -> "@ + pane_name(to),
                ),
                effects + f1 + f2,
            )
        },
    }
}

/// How a source that was cut goes.
pub open spec fn sweep_effect(connected: bool, target: SweepTargetView) -> Option<EffectView> {
    match target {
        SweepTargetView::Remote { path } => if connected {
            Some(EffectView::Delete { path, recursive: true })
        } else {
            None
        },
        SweepTargetView::Local { place } => Some(EffectView::SweepLocal { place }),
    }
}

/// How the sources that were cut go, one after the other.
pub open spec fn sweep_effects(connected: bool, targets: Seq<SweepTargetView>) -> Seq<EffectView>
    decreases targets.len(),
{
    if targets.len() == 0 {
        Seq::empty()
    } else {
        with_next(
            sweep_effects(connected, targets.drop_last()),
            sweep_effect(connected, targets.last()),
        )
    }
}

/// The sources that were cut go.
pub open spec fn swept(e: ExplorerView) -> Step {
    match e.sweep {
        None => (e, Seq::empty()),
        Some(s) => (
            ExplorerView { sweep: None, status: "cut sources removed"@, ..e },
            sweep_effects(e.connected, s.targets),
        ),
    }
}

/// One copy is complete; with the last one the sources go.
pub open spec fn copy_done(e: ExplorerView) -> Step {
    match e.sweep {
        None => (e, Seq::empty()),
        Some(s) => {
            let left = if s.remaining > 0 { (s.remaining - 1) as nat } else { 0 };
            let f = ExplorerView { sweep: Some(SweepView { remaining: left, ..s }), ..e };
            if left == 0 { swept(f) } else { (f, Seq::empty()) }
        },
    }
}

/// Two steps, one after the other.
pub open spec fn and_then(a: Step, b: Step) -> Step {
    (b.0, a.1 + b.1)
}

/// What the user does in a pane. `parent` is the directory above the local one,
/// `home` the user's, and `inside` the local directory that is entered.
pub open spec fn op_step(
    e: ExplorerView,
    op: Op,
    parent: Option<Seq<char>>,
    home: Seq<char>,
    inside: Seq<char>,
) -> Step {
    match op {
        Op::Refresh(kind) => listed(e, kind),
        Op::Up(kind) => match kind {
            PaneKind::Remote => {
                let next = remote_parent(e.remote.remote_cwd);
                navigated(e, kind, if next == "."@ { "~"@ } else { next })
            },
            PaneKind::Local => match parent {
                Some(p) => navigated(e, kind, p),
                None => (e, Seq::empty()),
            },
        },
        Op::Back(kind) => {
            let p = e.pane(kind);
            if p.history.len() > 0 {
                navigated(
                    e.with_pane(kind, PaneView { history: p.history.drop_last(), ..p }),
                    kind,
                    p.history.last(),
                )
            } else {
                (e, Seq::empty())
            }
        },
        Op::Home(kind) => match kind {
            PaneKind::Remote => navigated(e, kind, "~"@),
            PaneKind::Local => navigated(e, kind, home),
        },
        Op::Enter(kind, i) => {
            let f = ExplorerView { focused: kind, ..e };
            let p = e.pane(kind);
            if i < p.entries.len() && p.entries[i as int].is_dir {
                match kind {
                    PaneKind::Remote => navigated(
                        f,
                        kind,
                        remote_join(e.remote.remote_cwd, p.entries[i as int].name),
                    ),
                    PaneKind::Local => navigated(f, kind, inside),
                }
            } else {
                (f, Seq::empty())
            }
        },
        Op::NewFolder(kind) => (
            ExplorerView {
                focused: kind,
                modal: Some(
                    ModalView::Text {
                        title: "New folder"@,
                        input: Seq::empty(),
                        mode: TextMode::NewFolder(kind),
                    },
                ),
                ..e
            },
            Seq::empty(),
        ),
        Op::Rename(kind, i) => (
            ExplorerView {
                focused: kind,
                modal: Some(
                    ModalView::Text {
                        title: "Rename"@,
                        input: name_at(e.pane(kind), i),
                        mode: TextMode::Rename(kind, i),
                    },
                ),
                ..e
            },
            Seq::empty(),
        ),
        Op::Delete(kind, i) => {
            let f = ExplorerView { focused: kind, ..e };
            let p = e.pane(kind);
            if i < p.entries.len() {
                let entry = p.entries[i as int];
                let action = match kind {
                    PaneKind::Remote => ConfirmView::DeleteRemote {
                        path: remote_join(e.remote.remote_cwd, entry.name),
                        is_dir: entry.is_dir,
                    },
                    PaneKind::Local => ConfirmView::DeleteLocal {
                        place: PlaceView { dir: e.local.local_cwd, name: entry.name },
                    },
                };
                (
                    ExplorerView {
                        modal: Some(
                            ModalView::Confirm {
                                title: "Delete"@,
                                msg: "Delete '"@ + entry.name + "'?"@,
                                action,
                            },
                        ),
                        ..f
                    },
                    Seq::empty(),
                )
            } else {
                (f, Seq::empty())
            }
        },
        Op::CopyClip(kind) => (clipped(ExplorerView { focused: kind, ..e }, false), Seq::empty()),
        Op::CutClip(kind) => (clipped(ExplorerView { focused: kind, ..e }, true), Seq::empty()),
    }
}

/// The name of an entry, or nothing where there is none.
pub open spec fn name_at(p: PaneView, i: usize) -> Seq<char> {
    if i < p.entries.len() { p.entries[i as int].name } else { Seq::empty() }
}

/// A text that was asked for is given.
pub open spec fn text_given(e: ExplorerView, input: Seq<char>, mode: TextMode) -> Step {
    let name = trimmed(input);
    if name.len() == 0 {
        (e.telling("name must not be empty"@), Seq::empty())
    } else {
        match mode {
            TextMode::NewFolder(PaneKind::Remote) => if e.connected {
                let (f, l) = listed(e, PaneKind::Remote);
                (
                    f,
                    seq![EffectView::CreateDir { path: remote_join(e.remote.remote_cwd, name) }]
                        + l,
                )
            } else {
                (e, Seq::empty())
            },
            TextMode::NewFolder(PaneKind::Local) => (
                e,
                seq![EffectView::MakeDir { place: PlaceView { dir: e.local.local_cwd, name } }],
            ),
            TextMode::Rename(PaneKind::Remote, i) => if e.connected {
                let (f, l) = listed(e, PaneKind::Remote);
                (
                    f,
                    seq![
                        EffectView::Rename {
                            old_path: remote_join(e.remote.remote_cwd, name_at(e.remote, i)),
                            new_path: remote_join(e.remote.remote_cwd, name),
                        },
                    ] + l,
                )
            } else {
                (e, Seq::empty())
            },
            TextMode::Rename(PaneKind::Local, i) => (
                e,
                seq![
                    EffectView::RenameLocal {
                        from: PlaceView { dir: e.local.local_cwd, name: name_at(e.local, i) },
                        to: PlaceView { dir: e.local.local_cwd, name },
                    },
                ],
            ),
        }
    }
}

/// A deletion is confirmed.
pub open spec fn deletion_confirmed(e: ExplorerView, action: ConfirmView) -> Step {
    match action {
        ConfirmView::DeleteRemote { path, is_dir } => {
            let (f, l) = listed(e, PaneKind::Remote);
            (
                f,
                (if e.connected {
                    seq![EffectView::Delete { path, recursive: is_dir }]
                } else {
                    Seq::empty()
                }) + l,
            )
        },
        ConfirmView::DeleteLocal { place } => {
            let (f, l) = listed(e, PaneKind::Local);
            (f, seq![EffectView::RemoveLocal { place }] + l)
        },
    }
}

/// The dialog that is open is answered.
pub open spec fn modal_answered(e: ExplorerView, ok: bool) -> Step {
    let f = ExplorerView { modal: None, ..e };
    match e.modal {
        None => (f, Seq::empty()),
        Some(m) => if !ok {
            (f, Seq::empty())
        } else {
            match m {
                ModalView::Text { title, input, mode } => text_given(f, input, mode),
                ModalView::Confirm { title, msg, action } => deletion_confirmed(f, action),
            }
        },
    }
}

/// The terminal with one more line.
pub open spec fn with_line(t: TerminalView, line: Seq<char>, tone: Tone) -> TerminalView {
    TerminalView {
        log: (if t.log.len() > TERMINAL_LINES { t.log.skip(1) } else { t.log }).push((line, tone)),
        ..t
    }
}

/// The terminal with several more lines.
pub open spec fn with_lines(t: TerminalView, lines: Seq<Seq<char>>) -> TerminalView
    decreases lines.len(),
{
    if lines.len() == 0 {
        t
    } else {
        with_line(with_lines(t, lines.drop_last()), lines.last(), Tone::Plain)
    }
}

/// What comes from the session.
pub enum GuiEventView {
    Ready,
    DirListing { path: Seq<char>, entries: Seq<EntryView> },
    OpResult { op: Seq<char>, ok: bool, msg: Seq<char> },
    TransferDone { label: Seq<char>, ok: bool },
    /// Output of a command, where it is text.
    ExecOutput { text: Option<Seq<char>> },
    ExecEnd { code: Seq<char>, denied: bool },
    Message,
    Closed { reason: Seq<char> },
}

/// An event of the session.
pub open spec fn event_step(e: ExplorerView, ev: GuiEventView) -> Step {
    match ev {
        GuiEventView::Ready => listed(
            e.telling("connected — loading remote..."@),
            PaneKind::Remote,
        ),
        GuiEventView::DirListing { path, entries } => if path == e.remote.remote_cwd {
            (
                ExplorerView {
                    remote: PaneView {
                        entries: in_order(entries),
                        loading: false,
                        error: None,
                        ..e.remote
                    },
                    ..e
                },
                Seq::empty(),
            )
        } else {
            (e, Seq::empty())
        },
        GuiEventView::OpResult { op, ok, msg } => if ok {
            let a = listed(e.telling("remote "@ + op + " ok"@), PaneKind::Remote);
            if op == "copy"@ { and_then(a, copy_done(a.0)) } else { a }
        } else {
            (e.telling("remote "@ + op + " failed: "@ + msg), Seq::empty())
        },
        GuiEventView::TransferDone { label, ok } => {
            let a = if ok { copy_done(e) } else { (e, Seq::empty()) };
            let told = a.0.telling(
                "transfer '"@ + label + "' "@ + (if ok { "OK"@ } else { "FAILED"@ }),
            );
            let b = and_then(a, listed(told, PaneKind::Remote));
            and_then(b, listed(b.0, PaneKind::Local))
        },
        GuiEventView::ExecOutput { text } => match text {
            Some(t) => (
                ExplorerView { terminal: with_lines(e.terminal, lines_of(t)), ..e },
                Seq::empty(),
            ),
            None => (e, Seq::empty()),
        },
        GuiEventView::ExecEnd { code, denied } => (
            ExplorerView {
                terminal: with_line(
                    TerminalView { busy: false, ..e.terminal },
                    (if denied { "[denied] "@ } else { "[exit] "@ }) + code,
                    if denied { Tone::Bad } else { Tone::Good },
                ),
                ..e
            },
            Seq::empty(),
        ),
        GuiEventView::Message => (e, Seq::empty()),
        GuiEventView::Closed { reason } => (
            ExplorerView {
                connected: false,
                live: false,
                connect: ConnectView { busy: false, error: None, ..e.connect },
                status: if trimmed(reason).len() == 0 {
                    "disconnected"@
                } else {
                    "disconnected: "@ + trimmed(reason)
                },
                ..e
            },
            Seq::empty(),
        ),
    }
}

/// Files are dropped onto the explorer, by their names and directories: over
/// the local pane they are copied there, elsewhere they are uploaded.
pub open spec fn drop_effects(e: ExplorerView, files: Seq<PlaceView>, over_local: bool) -> Seq<
    EffectView,
>
    decreases files.len(),
{
    if files.len() == 0 {
        Seq::empty()
    } else {
        let f = files.last();
        drop_effects(e, files.drop_last(), over_local).push(
            if over_local {
                EffectView::CopyLocal {
                    from: f,
                    to: PlaceView { dir: e.local.local_cwd, name: f.name },
                    is_dir: false,
                }
            } else {
                EffectView::Put { local: f, remote: remote_join(e.remote.remote_cwd, f.name) }
            },
        )
    }
}

pub open spec fn dropped(e: ExplorerView, files: Seq<PlaceView>, over_local: bool) -> Step {
    if files.len() == 0 {
        (e, Seq::empty())
    } else if over_local {
        let (f, l) = listed(e, PaneKind::Local);
        (
            f.telling("copied "@ + decimal(files.len()) + " file(s) into local"@),
            drop_effects(e, files, true) + l,
        )
    } else if e.connected {
        (
            e.telling("uploading "@ + decimal(files.len()) + " file(s)..."@),
            drop_effects(e, files, false),
        )
    } else {
        (e, Seq::empty())
    }
}

/// The dragged entry is let go over a pane, or over none.
pub open spec fn drag_released(e: ExplorerView, over: Option<PaneKind>, is_file: bool) -> Step {
    match e.drag {
        None => (e, Seq::empty()),
        Some(d) => {
            let f = ExplorerView { drag: None, ..e };
            if d.kind == PaneKind::Remote && over == Some(PaneKind::Local) {
                if e.connected && !d.is_dir {
                    (
                        f.telling("downloading "@ + d.name + "..."@),
                        seq![
                            EffectView::Get {
                                remote: remote_join(e.remote.remote_cwd, d.name),
                                local: PlaceView {
                                    dir: e.local.local_cwd,
                                    name: name_in(e.local.entries, d.name, false, true),
                                },
                            },
                        ],
                    )
                } else {
                    (f, Seq::empty())
                }
            } else if d.kind == PaneKind::Local && over == Some(PaneKind::Remote) {
                if e.connected && !d.is_dir && is_file {
                    (
                        f.telling("uploading "@ + d.name + "..."@),
                        seq![
                            EffectView::Put {
                                local: PlaceView { dir: e.local.local_cwd, name: d.name },
                                remote: remote_join(
                                    e.remote.remote_cwd,
                                    name_in(e.remote.entries, d.name, false, true),
                                ),
                            },
                        ],
                    )
                } else {
                    (f, Seq::empty())
                }
            } else {
                (f, Seq::empty())
            }
        },
    }
}

/// The keys for copying, cutting and pasting.
pub open spec fn keys_pressed(
    e: ExplorerView,
    copy: bool,
    cut: bool,
    paste: bool,
    files: Seq<bool>,
) -> Step {
    if copy || cut {
        (clipped(e, !copy), Seq::empty())
    } else if paste {
        pasted(e, e.focused, files)
    } else {
        (e, Seq::empty())
    }
}

/// The command in the terminal's input is run.
pub open spec fn command_run(e: ExplorerView) -> Step {
    let cmd = trimmed(e.terminal.input);
    if cmd.len() == 0 || e.terminal.busy {
        (e, Seq::empty())
    } else {
        (
            ExplorerView {
                terminal: TerminalView { busy: true, input: Seq::empty(), ..e.terminal },
                ..e
            },
            if e.connected {
                seq![EffectView::Exec { cmd, elevated: e.terminal.elevated }]
            } else {
                Seq::empty()
            },
        )
    }
}

/// The user asks to connect.
pub open spec fn connect_asked(e: ExplorerView) -> Step {
    let user = trimmed(e.connect.user);
    let ip = trimmed(e.connect.ip);
    if user.len() == 0 || ip.len() == 0 {
        (
            ExplorerView {
                connect: ConnectView { error: Some("user and host are required"@), ..e.connect },
                ..e
            },
            Seq::empty(),
        )
    } else {
        (
            ExplorerView { connect: ConnectView { busy: true, ..e.connect }, ..e },
            seq![
                EffectView::Connect {
                    target: user + "@"@ + ip,
                    password: e.connect.password,
                    accept_license: e.connect.accept_license,
                },
            ],
        )
    }
}

/// The attempt to connect has ended.
pub open spec fn connect_ended(e: ExplorerView, fault: Option<Seq<char>>) -> ExplorerView {
    match fault {
        None => ExplorerView {
            connected: true,
            live: true,
            connect: ConnectView { busy: false, error: None, ..e.connect },
            status: "connecting..."@,
            ..e
        },
        Some(msg) => ExplorerView {
            connect: ConnectView { busy: false, error: Some(msg), ..e.connect },
            ..e
        },
    }
}

/// The user disconnects.
pub open spec fn disconnected(e: ExplorerView) -> Step {
    (
        ExplorerView {
            connected: false,
            live: false,
            connect: ConnectView { busy: false, error: None, ..e.connect },
            ..e
        },
        if e.connected { seq![EffectView::CloseSession] } else { Seq::empty() },
    )
}

/// The explorer at its start, for a target of the form `user@ip` or `ip`.
pub open spec fn explorer_at_start(target: Seq<char>, local_dir: Seq<char>) -> ExplorerView {
    let (user, ip) = match cut_first(target, '@') {
        Some(p) => p,
        None => (Seq::empty(), target),
    };
    let pane = PaneView {
        label: "~"@,
        remote_cwd: "."@,
        local_cwd: Seq::empty(),
        entries: Seq::empty(),
        selected: None,
        loading: false,
        error: None,
        history: Seq::empty(),
    };
    ExplorerView {
        live: false,
        connected: false,
        connect: ConnectView {
            user,
            ip,
            password: Seq::empty(),
            accept_license: true,
            error: None,
            busy: false,
        },
        status: "not connected"@,
        remote: pane,
        local: PaneView {
            label: local_dir,
            remote_cwd: Seq::empty(),
            local_cwd: local_dir,
            ..pane
        },
        focused: PaneKind::Remote,
        clipboard: None,
        sweep: None,
        terminal: TerminalView {
            open: false,
            log: Seq::empty(),
            input: Seq::empty(),
            busy: false,
            elevated: false,
        },
        modal: None,
        drag: None,
    }
}

// ---------------------------------------------------------------- execution: data

/// A name in a local directory.
pub struct Place {
    pub dir: String,
    pub name: String,
}

impl View for Place {
    type V = PlaceView;

    open spec fn view(&self) -> PlaceView {
        PlaceView { dir: self.dir@, name: self.name@ }
    }
}

impl Clone for Place {
    fn clone(&self) -> (r: Self)
        ensures
            r == *self,
    {
        Place { dir: self.dir.clone(), name: self.name.clone() }
    }
}

/// Names in local directories as their views.
pub open spec fn place_list(v: Seq<Place>) -> Seq<PlaceView> {
    v.map_values(|p: Place| p@)
}

fn place(dir: &str, name: &str) -> (p: Place)
    ensures
        p@ == (PlaceView { dir: dir@, name: name@ }),
{
    Place { dir: String::from_str(dir), name: String::from_str(name) }
}

/// A pane.
pub struct Pane {
    pub label: String,
    pub remote_cwd: String,
    pub local_cwd: String,
    pub entries: Vec<Entry>,
    pub selected: Option<usize>,
    pub loading: bool,
    pub error: Option<String>,
    pub history: Vec<String>,
}

impl View for Pane {
    type V = PaneView;

    open spec fn view(&self) -> PaneView {
        PaneView {
            label: self.label@,
            remote_cwd: self.remote_cwd@,
            local_cwd: self.local_cwd@,
            entries: entry_list(self.entries@),
            selected: self.selected,
            loading: self.loading,
            error: owned_opt(self.error),
            history: texts(self.history@),
        }
    }
}

/// An entry that was copied or cut.
pub struct ClipItem {
    pub name: String,
    pub is_dir: bool,
}

impl View for ClipItem {
    type V = ClipItemView;

    open spec fn view(&self) -> ClipItemView {
        ClipItemView { name: self.name@, is_dir: self.is_dir }
    }
}

/// Copied or cut entries as their views.
pub open spec fn item_list(v: Seq<ClipItem>) -> Seq<ClipItemView> {
    v.map_values(|i: ClipItem| i@)
}

/// What was copied or cut.
pub struct Clipboard {
    pub kind: PaneKind,
    pub remote_cwd: String,
    pub local_cwd: String,
    pub items: Vec<ClipItem>,
    pub cut: bool,
}

impl View for Clipboard {
    type V = ClipView;

    open spec fn view(&self) -> ClipView {
        ClipView {
            kind: self.kind,
            remote_cwd: self.remote_cwd@,
            local_cwd: self.local_cwd@,
            items: item_list(self.items@),
            cut: self.cut,
        }
    }
}

/// A source that goes once its copy is complete.
pub enum SweepTarget {
    Remote { path: String },
    Local { place: Place },
}

impl View for SweepTarget {
    type V = SweepTargetView;

    open spec fn view(&self) -> SweepTargetView {
        match self {
            SweepTarget::Remote { path } => SweepTargetView::Remote { path: path@ },
            SweepTarget::Local { place } => SweepTargetView::Local { place: place@ },
        }
    }
}

/// Sources as their views.
pub open spec fn target_list(v: Seq<SweepTarget>) -> Seq<SweepTargetView> {
    v.map_values(|t: SweepTarget| t@)
}

/// Sources that go once so many copies are complete.
pub struct PendingSweep {
    pub remaining: usize,
    pub targets: Vec<SweepTarget>,
}

impl View for PendingSweep {
    type V = SweepView;

    open spec fn view(&self) -> SweepView {
        SweepView { remaining: self.remaining as nat, targets: target_list(self.targets@) }
    }
}

/// What a confirmation is for.
pub enum ConfirmAction {
    DeleteRemote { path: String, is_dir: bool },
    DeleteLocal { place: Place },
}

impl View for ConfirmAction {
    type V = ConfirmView;

    open spec fn view(&self) -> ConfirmView {
        match self {
            ConfirmAction::DeleteRemote { path, is_dir } => ConfirmView::DeleteRemote {
                path: path@,
                is_dir: *is_dir,
            },
            ConfirmAction::DeleteLocal { place } => ConfirmView::DeleteLocal { place: place@ },
        }
    }
}

/// A dialog.
pub enum Modal {
    Text { title: String, input: String, mode: TextMode },
    Confirm { title: String, msg: String, action: ConfirmAction },
}

impl View for Modal {
    type V = ModalView;

    open spec fn view(&self) -> ModalView {
        match self {
            Modal::Text { title, input, mode } => ModalView::Text {
                title: title@,
                input: input@,
                mode: *mode,
            },
            Modal::Confirm { title, msg, action } => ModalView::Confirm {
                title: title@,
                msg: msg@,
                action: action@,
            },
        }
    }
}

/// The terminal.
pub struct TerminalPane {
    pub open: bool,
    pub log: Vec<(String, Tone)>,
    pub input: String,
    pub busy: bool,
    pub elevated: bool,
}

/// Lines as their views.
pub open spec fn line_list(v: Seq<(String, Tone)>) -> Seq<(Seq<char>, Tone)> {
    v.map_values(|l: (String, Tone)| (l.0@, l.1))
}

impl View for TerminalPane {
    type V = TerminalView;

    open spec fn view(&self) -> TerminalView {
        TerminalView {
            open: self.open,
            log: line_list(self.log@),
            input: self.input@,
            busy: self.busy,
            elevated: self.elevated,
        }
    }
}

impl TerminalPane {
    /// Adds a line; the oldest goes where there are too many.
    pub fn push(&mut self, line: String, tone: Tone)
        ensures
            final(self)@ == with_line(old(self)@, line@, tone),
    {
        let ghost before = line_list(self.log@);
        let ghost lv = line@;
        if self.log.len() > TERMINAL_LINES {
            let _ = self.log.remove(0);
            assert(line_list(self.log@) =~= before.skip(1));
        }
        let ghost mid = line_list(self.log@);
        self.log.push((line, tone));
        assert(line_list(self.log@) =~= mid.push((lv, tone)));
    }
}

/// The dialog that asks where to connect.
pub struct ConnectDialog {
    pub user: String,
    pub ip: String,
    pub password: String,
    pub accept_license: bool,
    pub error: Option<String>,
    pub busy: bool,
}

impl View for ConnectDialog {
    type V = ConnectView;

    open spec fn view(&self) -> ConnectView {
        ConnectView {
            user: self.user@,
            ip: self.ip@,
            password: self.password@,
            accept_license: self.accept_license,
            error: owned_opt(self.error),
            busy: self.busy,
        }
    }
}

/// An entry that is being dragged.
pub struct DragState {
    pub kind: PaneKind,
    pub name: String,
    pub is_dir: bool,
}

impl View for DragState {
    type V = DragView;

    open spec fn view(&self) -> DragView {
        DragView { kind: self.kind, name: self.name@, is_dir: self.is_dir }
    }
}

/// What is to be done outside the explorer.
pub enum Effect {
    ListDir { path: String },
    Get { remote: String, local: Place },
    Put { local: Place, remote: String },
    Copy { from_path: String, to_path: String },
    Delete { path: String, recursive: bool },
    CreateDir { path: String },
    Rename { old_path: String, new_path: String },
    Exec { cmd: String, elevated: bool },
    LoadLocal { dir: String },
    CopyLocal { from: Place, to: Place, is_dir: bool },
    MoveLocal { from: Place, to: Place, is_dir: bool },
    RemoveLocal { place: Place },
    SweepLocal { place: Place },
    MakeDir { place: Place },
    RenameLocal { from: Place, to: Place },
    Connect { target: String, password: String, accept_license: bool },
    CloseSession,
}

impl View for Effect {
    type V = EffectView;

    open spec fn view(&self) -> EffectView {
        match self {
            Effect::ListDir { path } => EffectView::ListDir { path: path@ },
            Effect::Get { remote, local } => EffectView::Get { remote: remote@, local: local@ },
            Effect::Put { local, remote } => EffectView::Put { local: local@, remote: remote@ },
            Effect::Copy { from_path, to_path } => EffectView::Copy {
                from_path: from_path@,
                to_path: to_path@,
            },
            Effect::Delete { path, recursive } => EffectView::Delete {
                path: path@,
                recursive: *recursive,
            },
            Effect::CreateDir { path } => EffectView::CreateDir { path: path@ },
            Effect::Rename { old_path, new_path } => EffectView::Rename {
                old_path: old_path@,
                new_path: new_path@,
            },
            Effect::Exec { cmd, elevated } => EffectView::Exec { cmd: cmd@, elevated: *elevated },
            Effect::LoadLocal { dir } => EffectView::LoadLocal { dir: dir@ },
            Effect::CopyLocal { from, to, is_dir } => EffectView::CopyLocal {
                from: from@,
                to: to@,
                is_dir: *is_dir,
            },
            Effect::MoveLocal { from, to, is_dir } => EffectView::MoveLocal {
                from: from@,
                to: to@,
                is_dir: *is_dir,
            },
            Effect::RemoveLocal { place } => EffectView::RemoveLocal { place: place@ },
            Effect::SweepLocal { place } => EffectView::SweepLocal { place: place@ },
            Effect::MakeDir { place } => EffectView::MakeDir { place: place@ },
            Effect::RenameLocal { from, to } => EffectView::RenameLocal { from: from@, to: to@ },
            Effect::Connect { target, password, accept_license } => EffectView::Connect {
                target: target@,
                password: password@,
                accept_license: *accept_license,
            },
            Effect::CloseSession => EffectView::CloseSession,
        }
    }
}

/// Effects as their views.
pub open spec fn effect_list(v: Seq<Effect>) -> Seq<EffectView> {
    v.map_values(|f: Effect| f@)
}

/// No effect.
fn none() -> (v: Vec<Effect>)
    ensures
        effect_list(v@) == Seq::<EffectView>::empty(),
{
    let v: Vec<Effect> = Vec::new();
    assert(effect_list(v@) =~= Seq::<EffectView>::empty());
    v
}

/// One effect.
fn one(f: Effect) -> (v: Vec<Effect>)
    ensures
        effect_list(v@) == seq![f@],
{
    let mut v: Vec<Effect> = Vec::new();
    let ghost fv = f@;
    v.push(f);
    assert(effect_list(v@) =~= seq![fv]);
    v
}

/// Effects, one after the other.
pub(crate) fn both(a: Vec<Effect>, b: Vec<Effect>) -> (v: Vec<Effect>)
    ensures
        effect_list(v@) == effect_list(a@) + effect_list(b@),
{
    let ghost (x, y) = (a@, b@);
    let mut v = a;
    let mut b = b;
    v.append(&mut b);
    assert(v@ =~= x + y);
    assert(effect_list(v@) =~= effect_list(x) + effect_list(y));
    v
}

/// The explorer.
pub struct Explorer {
    pub live: bool,
    pub connected: bool,
    pub connect: ConnectDialog,
    pub status: String,
    pub remote: Pane,
    pub local: Pane,
    pub focused: PaneKind,
    pub clipboard: Option<Clipboard>,
    pub sweep: Option<PendingSweep>,
    pub terminal: TerminalPane,
    pub modal: Option<Modal>,
    pub drag: Option<DragState>,
}

impl View for Explorer {
    type V = ExplorerView;

    open spec fn view(&self) -> ExplorerView {
        ExplorerView {
            live: self.live,
            connected: self.connected,
            connect: self.connect@,
            status: self.status@,
            remote: self.remote@,
            local: self.local@,
            focused: self.focused,
            clipboard: match self.clipboard {
                Some(c) => Some(c@),
                None => None,
            },
            sweep: match self.sweep {
                Some(s) => Some(s@),
                None => None,
            },
            terminal: self.terminal@,
            modal: match self.modal {
                Some(m) => Some(m@),
                None => None,
            },
            drag: match self.drag {
                Some(d) => Some(d@),
                None => None,
            },
        }
    }
}

// ---------------------------------------------------------------- execution: panes

impl Pane {
    /// The remote pane at its start.
    pub fn remote() -> (p: Self)
        ensures
            p@ == explorer_at_start(Seq::empty(), Seq::empty()).remote,
    {
        let p = Pane {
            label: String::from_str("~"),
            remote_cwd: String::from_str("."),
            local_cwd: String::new(),
            entries: Vec::new(),
            selected: None,
            loading: false,
            error: None,
            history: Vec::new(),
        };
        assert(p@.local_cwd =~= Seq::empty());
        assert(p@.entries =~= Seq::empty());
        assert(p@.history =~= Seq::empty());
        p
    }

    /// The local pane at its start.
    pub fn local(cwd: &str) -> (p: Self)
        ensures
            p@ == explorer_at_start(Seq::empty(), cwd@).local,
    {
        let p = Pane {
            label: String::from_str(cwd),
            remote_cwd: String::new(),
            local_cwd: String::from_str(cwd),
            entries: Vec::new(),
            selected: None,
            loading: false,
            error: None,
            history: Vec::new(),
        };
        assert(p@.remote_cwd =~= Seq::empty());
        assert(p@.entries =~= Seq::empty());
        assert(p@.history =~= Seq::empty());
        p
    }

    /// The path of a name in the remote directory.
    pub fn remote_path_for(&self, name: &str) -> (s: String)
        ensures
            s@ == remote_join(self@.remote_cwd, name@),
    {
        resolve_remote(&self.remote_cwd, name)
    }

    /// The entry that is selected.
    pub fn selected_item(&self) -> (r: Option<(String, bool)>)
        ensures
            r is Some == self@.selected_item() is Some,
            r matches Some(p) ==> self@.selected_item() == Some((p.0@, p.1)),
    {
        match self.selected {
            Some(i) => if i < self.entries.len() {
                assert(self@.entries[i as int] == self.entries@[i as int]@);
                Some((self.entries[i].name.clone(), self.entries[i].is_dir))
            } else {
                None
            },
            None => None,
        }
    }

    /// The name of an entry, or nothing where there is none.
    pub fn entry_name(&self, i: usize) -> (s: String)
        ensures
            s@ == name_at(self@, i),
    {
        if i < self.entries.len() {
            assert(self@.entries[i as int] == self.entries@[i as int]@);
            self.entries[i].name.clone()
        } else {
            let s = String::new();
            assert(s@ =~= Seq::empty());
            s
        }
    }

    fn go(&mut self, kind: PaneKind, label: String)
        ensures
            final(self)@ == (PaneView {
                history: old(self)@.history.push(old(self)@.label),
                label: label@,
                remote_cwd: if kind == PaneKind::Remote {
                    if label@ == "~"@ { "."@ } else { label@ }
                } else {
                    Seq::empty()
                },
                local_cwd: if kind == PaneKind::Local { label@ } else { Seq::empty() },
                selected: None,
                ..old(self)@
            }),
    {
        let ghost before = texts(self.history@);
        self.history.push(self.label.clone());
        assert(texts(self.history@) =~= before.push(old(self)@.label));
        match kind {
            PaneKind::Remote => {
                self.remote_cwd = if same(&label, "~") {
                    String::from_str(".")
                } else {
                    label.clone()
                };
                self.local_cwd = String::new();
                assert(self.local_cwd@ =~= Seq::empty());
            },
            PaneKind::Local => {
                self.remote_cwd = String::new();
                assert(self.remote_cwd@ =~= Seq::empty());
                self.local_cwd = label.clone();
            },
        }
        self.label = label;
        self.selected = None;
    }
}

impl Explorer {
    /// The explorer at its start. The local pane is still to be listed.
    pub fn new(target: &str, local_dir: &str) -> (e: Self)
        ensures
            e@ == explorer_at_start(target@, local_dir@),
    {
        let (user, ip) = match split_once(target, '@') {
            Some((u, i)) => (u, i),
            None => {
                let u = String::new();
                assert(u@ =~= Seq::empty());
                (u, String::from_str(target))
            },
        };
        let e = Explorer {
            live: false,
            connected: false,
            connect: ConnectDialog {
                user,
                ip,
                password: String::new(),
                accept_license: true,
                error: None,
                busy: false,
            },
            status: String::from_str("not connected"),
            remote: Pane::remote(),
            local: Pane::local(local_dir),
            focused: PaneKind::Remote,
            clipboard: None,
            sweep: None,
            terminal: TerminalPane {
                open: false,
                log: Vec::new(),
                input: String::new(),
                busy: false,
                elevated: false,
            },
            modal: None,
            drag: None,
        };
        assert(e@.connect.password =~= Seq::empty());
        assert(e@.terminal.log =~= Seq::empty());
        assert(e@.terminal.input =~= Seq::empty());
        e
    }

    /// A pane.
    pub fn pane(&self, kind: PaneKind) -> (p: &Pane)
        ensures
            p@ == self@.pane(kind),
    {
        match kind {
            PaneKind::Remote => &self.remote,
            PaneKind::Local => &self.local,
        }
    }

    /// Tells the user something.
    pub fn tell(&mut self, text: String)
        ensures
            final(self)@ == old(self)@.telling(text@),
    {
        self.status = text;
    }

    /// Asks for a pane's entries anew.
    pub fn request_list(&mut self, kind: PaneKind) -> (r: Vec<Effect>)
        ensures
            (final(self)@, effect_list(r@)) == listed(old(self)@, kind),
    {
        match kind {
            PaneKind::Remote => {
                if self.connected {
                    self.remote.loading = true;
                    self.remote.error = None;
                    one(Effect::ListDir { path: self.remote.remote_cwd.clone() })
                } else {
                    self.remote.loading = false;
                    self.remote.error = Some(String::from_str("not connected"));
                    none()
                }
            },
            PaneKind::Local => one(Effect::LoadLocal { dir: self.local.local_cwd.clone() }),
        }
    }

    /// Takes the entries of the local directory, or why there are none.
    pub fn load_local_listing(&mut self, listing: Result<Vec<Entry>, String>)
        ensures
            final(self)@ == (ExplorerView {
                local: PaneView {
                    entries: match listing {
                        Ok(v) => in_order(entry_list(v@)),
                        Err(_) => Seq::empty(),
                    },
                    loading: false,
                    error: match listing {
                        Ok(_) => None,
                        Err(e) => Some(e@),
                    },
                    ..old(self)@.local
                },
                ..old(self)@
            }),
    {
        self.local.loading = false;
        match listing {
            Ok(v) => {
                self.local.entries = sort_entries(v);
                self.local.error = None;
            },
            Err(e) => {
                self.local.entries = Vec::new();
                assert(entry_list(self.local.entries@) =~= Seq::empty());
                self.local.error = Some(e);
            },
        }
    }

    /// Takes a pane to another directory.
    pub fn navigate(&mut self, kind: PaneKind, label: String) -> (r: Vec<Effect>)
        ensures
            (final(self)@, effect_list(r@)) == navigated(old(self)@, kind, label@),
    {
        match kind {
            PaneKind::Remote => self.remote.go(kind, label),
            PaneKind::Local => self.local.go(kind, label),
        }
        self.request_list(kind)
    }

    /// Selects an entry of a pane, or none.
    pub fn select(&mut self, kind: PaneKind, selected: Option<usize>)
        ensures
            final(self)@ == old(self)@.with_pane(
                kind,
                PaneView { selected, ..old(self)@.pane(kind) },
            ),
    {
        match kind {
            PaneKind::Remote => {
                self.remote.selected = selected;
            },
            PaneKind::Local => {
                self.local.selected = selected;
            },
        }
    }

    // ------------------------------------------------------------ transfers

    /// Downloads a file of the remote pane.
    pub fn pull(&mut self, name: &str, is_dir: bool) -> (r: Vec<Effect>)
        ensures
            (final(self)@, effect_list(r@)) == pulled(old(self)@, name@, is_dir),
    {
        if is_dir {
            self.tell(cat3("'", name, "' is a directory — download is file-only for now"));
            return none();
        }
        if !self.connected {
            self.tell(String::from_str("not connected"));
            return none();
        }
        let remote = self.remote.remote_path_for(name);
        let local = place(&self.local.local_cwd, name);
        self.tell(cat3("downloading ", name, "..."));
        one(Effect::Get { remote, local })
    }

    /// Uploads a file of the local pane.
    pub fn push(&mut self, name: &str, is_dir: bool, is_file: bool, shown: &str) -> (r: Vec<Effect>)
        ensures
            (final(self)@, effect_list(r@)) == pushed_up(
                old(self)@,
                name@,
                is_dir,
                is_file,
                shown@,
            ),
    {
        if is_dir {
            self.tell(cat3("'", name, "' is a directory — upload is file-only for now"));
            return none();
        }
        if !self.connected {
            self.tell(String::from_str("not connected"));
            return none();
        }
        if !is_file {
            self.tell(cat2("no such local file: ", shown));
            return none();
        }
        let remote = self.remote.remote_path_for(name);
        let local = place(&self.local.local_cwd, name);
        self.tell(cat3("uploading ", name, "..."));
        one(Effect::Put { local, remote })
    }

    // ------------------------------------------------------------ clipboard

    /// Copies or cuts the selected entry of the focused pane.
    pub fn copy_selection(&mut self, cut: bool)
        ensures
            final(self)@ == clipped(old(self)@, cut),
    {
        let kind = self.focused;
        let p = self.pane(kind);
        match p.selected_item() {
            None => {
                self.tell(String::from_str("nothing selected to copy"));
            },
            Some((name, is_dir)) => {
                let remote_cwd = p.remote_cwd.clone();
                let local_cwd = p.local_cwd.clone();
                let text = cat4(
                    if cut { "cut" } else { "copied" },
                    " '",
                    &name,
                    "' to clipboard",
                );
                let ghost item = ClipItemView { name: name@, is_dir };
                let mut items: Vec<ClipItem> = Vec::new();
                items.push(ClipItem { name, is_dir });
                assert(item_list(items@) =~= seq![item]);
                self.clipboard = Some(Clipboard { kind, remote_cwd, local_cwd, items, cut });
                self.tell(text);
            },
        }
    }

    /// What pasting one item does, and the source that goes afterwards.
    fn paste_item(&self, clip: &Clipboard, item: &ClipItem, to: PaneKind, is_file: bool) -> (r: (
        Option<Effect>,
        Option<SweepTarget>,
    ))
        ensures
            ({
                let (f, t) = paste_effect(self@, clip@, item@, to, is_file);
                &&& r.0 is Some == f is Some
                &&& r.0 matches Some(x) ==> f == Some(x@)
                &&& r.1 is Some == t is Some
                &&& r.1 matches Some(x) ==> t == Some(x@)
            }),
    {
        let dst = self.pane(to);
        let name = dedup_name(&dst.entries, &item.name, item.is_dir, !clip.cut);
        let from_remote = resolve_remote(&clip.remote_cwd, &item.name);
        let from_local = place(&clip.local_cwd, &item.name);
        let to_remote = resolve_remote(&dst.remote_cwd, &name);
        let to_local = place(&dst.local_cwd, &name);
        match (clip.kind, to) {
            (PaneKind::Remote, PaneKind::Remote) => if self.connected {
                let target = if clip.cut {
                    Some(SweepTarget::Remote { path: from_remote.clone() })
                } else {
                    None
                };
                (Some(Effect::Copy { from_path: from_remote, to_path: to_remote }), target)
            } else {
                (None, None)
            },
            (PaneKind::Local, PaneKind::Local) => {
                let is_dir = item.is_dir;
                if clip.cut {
                    (Some(Effect::MoveLocal { from: from_local, to: to_local, is_dir }), None)
                } else {
                    (Some(Effect::CopyLocal { from: from_local, to: to_local, is_dir }), None)
                }
            },
            (PaneKind::Remote, PaneKind::Local) => if self.connected && !item.is_dir {
                let target = if clip.cut {
                    Some(SweepTarget::Remote { path: from_remote.clone() })
                } else {
                    None
                };
                (Some(Effect::Get { remote: from_remote, local: to_local }), target)
            } else {
                (None, None)
            },
            (PaneKind::Local, PaneKind::Remote) => if self.connected && !item.is_dir && is_file {
                let target = if clip.cut {
                    Some(SweepTarget::Local { place: from_local.clone() })
                } else {
                    None
                };
                (Some(Effect::Put { local: from_local, remote: to_remote }), target)
            } else {
                (None, None)
            },
        }
    }

    /// What pasting the clipboard's items does, and the sources that go
    /// afterwards.
    fn paste_work(&self, clip: &Clipboard, to: PaneKind, files: &Vec<bool>) -> (r: (
        Vec<Effect>,
        Vec<SweepTarget>,
    ))
        ensures
            (effect_list(r.0@), target_list(r.1@)) == paste_effects(
                self@,
                clip@,
                clip@.items,
                to,
                files@,
            ),
    {
        let mut work: Vec<Effect> = Vec::new();
        let mut targets: Vec<SweepTarget> = Vec::new();
        let ghost items = clip@.items;
        assert(effect_list(work@) =~= Seq::<EffectView>::empty());
        assert(target_list(targets@) =~= Seq::<SweepTargetView>::empty());
        let mut i: usize = 0;
        while i < clip.items.len()
            invariant
                i <= clip.items.len(),
                items == item_list(clip.items@),
                (effect_list(work@), target_list(targets@)) == paste_effects(
                    self@,
                    clip@,
                    items.take(i as int),
                    to,
                    files@,
                ),
            decreases clip.items.len() - i,
        {
            let ghost (work0, targets0) = (work@, targets@);
            let (effect, target) = self.paste_item(
                clip,
                &clip.items[i],
                to,
                i < files.len() && files[i],
            );
            if let Some(f) = effect {
                let ghost fv = f@;
                work.push(f);
                assert(effect_list(work@) =~= effect_list(work0).push(fv));
            }
            if let Some(t) = target {
                let ghost tv = t@;
                targets.push(t);
                assert(target_list(targets@) =~= target_list(targets0).push(tv));
            }
            assert(items.take(i + 1).drop_last() =~= items.take(i as int));
            i += 1;
        }
        assert(items.take(i as int) =~= items);
        (work, targets)
    }

    /// Pastes the clipboard into a pane. `files` says of each of its items
    /// whether a local source is a file.
    pub fn paste_to(&mut self, to: PaneKind, files: &Vec<bool>) -> (r: Vec<Effect>)
        ensures
            (final(self)@, effect_list(r@)) == pasted(old(self)@, to, files@),
    {
        let (work, targets, kind, cut) = match &self.clipboard {
            None => {
                self.tell(String::from_str("clipboard is empty"));
                return none();
            },
            Some(clip) => {
                let (work, targets) = self.paste_work(clip, to, files);
                (work, targets, clip.kind, clip.cut)
            },
        };
        if targets.len() > 0 {
            self.sweep = Some(PendingSweep { remaining: targets.len(), targets });
        }
        let first = self.request_list(to);
        let second = if kind != to { self.request_list(kind) } else { none() };
        self.tell(
            cat5(
                if cut { "moved" } else { "copied" },
                " ",
                name_of_pane(kind),
                " -> ",
                name_of_pane(to),
            ),
        );
        both(both(work, first), second)
    }

    /// Removes the sources that were cut.
    pub fn apply_sweep(&mut self) -> (r: Vec<Effect>)
        ensures
            (final(self)@, effect_list(r@)) == swept(old(self)@),
    {
        let mut sweep: Option<PendingSweep> = None;
        std::mem::swap(&mut sweep, &mut self.sweep);
        match sweep {
            None => none(),
            Some(s) => {
                self.tell(String::from_str("cut sources removed"));
                let connected = self.connected;
                let ghost targets = target_list(s.targets@);
                let mut work: Vec<Effect> = Vec::new();
                assert(effect_list(work@) =~= Seq::<EffectView>::empty());
                let mut i: usize = 0;
                while i < s.targets.len()
                    invariant
                        i <= s.targets.len(),
                        targets == target_list(s.targets@),
                        effect_list(work@) == sweep_effects(connected, targets.take(i as int)),
                    decreases s.targets.len() - i,
                {
                    let ghost work0 = work@;
                    let effect = match &s.targets[i] {
                        SweepTarget::Remote { path } => if connected {
                            Some(Effect::Delete { path: path.clone(), recursive: true })
                        } else {
                            None
                        },
                        SweepTarget::Local { place } => Some(
                            Effect::SweepLocal { place: place.clone() },
                        ),
                    };
                    if let Some(f) = effect {
                        let ghost fv = f@;
                        work.push(f);
                        assert(effect_list(work@) =~= effect_list(work0).push(fv));
                    }
                    assert(targets.take(i + 1).drop_last() =~= targets.take(i as int));
                    assert(targets.take(i + 1).last() == s.targets@[i as int]@);
                    i += 1;
                }
                assert(targets.take(i as int) =~= targets);
                work
            },
        }
    }

    /// Notes that a copy is complete.
    fn on_copy_done(&mut self) -> (r: Vec<Effect>)
        ensures
            (final(self)@, effect_list(r@)) == copy_done(old(self)@),
    {
        let mut sweep: Option<PendingSweep> = None;
        std::mem::swap(&mut sweep, &mut self.sweep);
        match sweep {
            None => none(),
            Some(s) => {
                let left: usize = if s.remaining > 0 { s.remaining - 1 } else { 0 };
                self.sweep = Some(PendingSweep { remaining: left, targets: s.targets });
                if left == 0 {
                    self.apply_sweep()
                } else {
                    none()
                }
            },
        }
    }
}

fn name_of_pane(kind: PaneKind) -> (s: &'static str)
    ensures
        s@ == pane_name(kind),
{
    match kind {
        PaneKind::Remote => "remote",
        PaneKind::Local => "local",
    }
}

// ---------------------------------------------------------------- execution: gestures

impl Explorer {
    /// Does what the user asks for in a pane. `parent` is the directory above
    /// the local one, `home` the user's, and `inside` the local directory that
    /// is entered.
    pub fn handle_op(&mut self, op: Op, parent: Option<String>, home: &str, inside: &str) -> (r: Vec<
        Effect,
    >)
        ensures
            (final(self)@, effect_list(r@)) == op_step(
                old(self)@,
                op,
                owned_opt(parent),
                home@,
                inside@,
            ),
    {
        match op {
            Op::Refresh(kind) => self.request_list(kind),
            Op::Up(kind) => self.go_up(kind, parent),
            Op::Back(kind) => self.go_back(kind),
            Op::Home(kind) => match kind {
                PaneKind::Remote => self.navigate(kind, String::from_str("~")),
                PaneKind::Local => self.navigate(kind, String::from_str(home)),
            },
            Op::Enter(kind, i) => self.enter(kind, i, inside),
            Op::NewFolder(kind) => {
                self.ask_folder(kind);
                none()
            },
            Op::Rename(kind, i) => {
                self.ask_name(kind, i);
                none()
            },
            Op::Delete(kind, i) => {
                self.ask_delete(kind, i);
                none()
            },
            Op::CopyClip(kind) => {
                self.focused = kind;
                self.copy_selection(false);
                none()
            },
            Op::CutClip(kind) => {
                self.focused = kind;
                self.copy_selection(true);
                none()
            },
        }
    }

    fn go_up(&mut self, kind: PaneKind, parent: Option<String>) -> (r: Vec<Effect>)
        ensures
            (final(self)@, effect_list(r@)) == op_step(
                old(self)@,
                Op::Up(kind),
                owned_opt(parent),
                Seq::empty(),
                Seq::empty(),
            ),
    {
        match kind {
            PaneKind::Remote => {
                let next = normalize_remote(&self.remote.remote_cwd);
                let label = if same(&next, ".") { String::from_str("~") } else { next };
                self.navigate(kind, label)
            },
            PaneKind::Local => match parent {
                Some(p) => self.navigate(kind, p),
                None => none(),
            },
        }
    }

    fn enter(&mut self, kind: PaneKind, i: usize, inside: &str) -> (r: Vec<Effect>)
        ensures
            (final(self)@, effect_list(r@)) == op_step(
                old(self)@,
                Op::Enter(kind, i),
                None,
                Seq::empty(),
                inside@,
            ),
    {
        self.focused = kind;
        let p = self.pane(kind);
        if i >= p.entries.len() {
            return none();
        }
        assert(p@.entries[i as int] == p.entries@[i as int]@);
        if !p.entries[i].is_dir {
            return none();
        }
        match kind {
            PaneKind::Remote => {
                let next = p.remote_path_for(&p.entries[i].name);
                self.navigate(kind, next)
            },
            PaneKind::Local => self.navigate(kind, String::from_str(inside)),
        }
    }

    fn ask_folder(&mut self, kind: PaneKind)
        ensures
            (final(self)@, Seq::<EffectView>::empty()) == op_step(
                old(self)@,
                Op::NewFolder(kind),
                None,
                Seq::empty(),
                Seq::empty(),
            ),
    {
        self.focused = kind;
        let input = String::new();
        assert(input@ =~= Seq::empty());
        self.modal = Some(
            Modal::Text {
                title: String::from_str("New folder"),
                input,
                mode: TextMode::NewFolder(kind),
            },
        );
    }

    fn ask_name(&mut self, kind: PaneKind, i: usize)
        ensures
            (final(self)@, Seq::<EffectView>::empty()) == op_step(
                old(self)@,
                Op::Rename(kind, i),
                None,
                Seq::empty(),
                Seq::empty(),
            ),
    {
        self.focused = kind;
        let input = self.pane(kind).entry_name(i);
        self.modal = Some(
            Modal::Text {
                title: String::from_str("Rename"),
                input,
                mode: TextMode::Rename(kind, i),
            },
        );
    }

    fn go_back(&mut self, kind: PaneKind) -> (r: Vec<Effect>)
        ensures
            (final(self)@, effect_list(r@)) == op_step(
                old(self)@,
                Op::Back(kind),
                None,
                Seq::empty(),
                Seq::empty(),
            ),
    {
        let label = match kind {
            PaneKind::Remote => {
                let ghost h = self.remote.history@;
                let l = self.remote.history.pop();
                proof {
                    if h.len() > 0 {
                        assert(texts(self.remote.history@) =~= texts(h).drop_last());
                    } else {
                        assert(texts(self.remote.history@) =~= texts(h));
                    }
                }
                l
            },
            PaneKind::Local => {
                let ghost h = self.local.history@;
                let l = self.local.history.pop();
                proof {
                    if h.len() > 0 {
                        assert(texts(self.local.history@) =~= texts(h).drop_last());
                    } else {
                        assert(texts(self.local.history@) =~= texts(h));
                    }
                }
                l
            },
        };
        match label {
            Some(label) => self.navigate(kind, label),
            None => none(),
        }
    }

    fn ask_delete(&mut self, kind: PaneKind, i: usize)
        ensures
            (final(self)@, Seq::<EffectView>::empty()) == op_step(
                old(self)@,
                Op::Delete(kind, i),
                None,
                Seq::empty(),
                Seq::empty(),
            ),
    {
        self.focused = kind;
        let p = self.pane(kind);
        if i < p.entries.len() {
            assert(p@.entries[i as int] == p.entries@[i as int]@);
            let name = p.entries[i].name.clone();
            let is_dir = p.entries[i].is_dir;
            let action = match kind {
                PaneKind::Remote => ConfirmAction::DeleteRemote {
                    path: p.remote_path_for(&name),
                    is_dir,
                },
                PaneKind::Local => ConfirmAction::DeleteLocal { place: place(&p.local_cwd, &name) },
            };
            self.modal = Some(
                Modal::Confirm {
                    title: String::from_str("Delete"),
                    msg: cat3("Delete '", &name, "'?"),
                    action,
                },
            );
        }
    }

    /// Takes a text that was asked for.
    pub fn run_modal_text(&mut self, input: &str, mode: TextMode) -> (r: Vec<Effect>)
        ensures
            (final(self)@, effect_list(r@)) == text_given(old(self)@, input@, mode),
    {
        let name = trim(input);
        if name.as_str().is_empty() {
            self.tell(String::from_str("name must not be empty"));
            return none();
        }
        match mode {
            TextMode::NewFolder(PaneKind::Remote) => if self.connected {
                let path = self.remote.remote_path_for(&name);
                let l = self.request_list(PaneKind::Remote);
                both(one(Effect::CreateDir { path }), l)
            } else {
                none()
            },
            TextMode::NewFolder(PaneKind::Local) => {
                one(Effect::MakeDir { place: place(&self.local.local_cwd, &name) })
            },
            TextMode::Rename(PaneKind::Remote, i) => if self.connected {
                let was = self.remote.entry_name(i);
                let old_path = self.remote.remote_path_for(&was);
                let new_path = self.remote.remote_path_for(&name);
                let l = self.request_list(PaneKind::Remote);
                both(one(Effect::Rename { old_path, new_path }), l)
            } else {
                none()
            },
            TextMode::Rename(PaneKind::Local, i) => {
                let was = self.local.entry_name(i);
                one(
                    Effect::RenameLocal {
                        from: place(&self.local.local_cwd, &was),
                        to: place(&self.local.local_cwd, &name),
                    },
                )
            },
        }
    }

    /// Takes a confirmation.
    pub fn run_confirm(&mut self, action: ConfirmAction) -> (r: Vec<Effect>)
        ensures
            (final(self)@, effect_list(r@)) == deletion_confirmed(old(self)@, action@),
    {
        match action {
            ConfirmAction::DeleteRemote { path, is_dir } => {
                let work = if self.connected {
                    one(Effect::Delete { path, recursive: is_dir })
                } else {
                    none()
                };
                let l = self.request_list(PaneKind::Remote);
                both(work, l)
            },
            ConfirmAction::DeleteLocal { place } => {
                let l = self.request_list(PaneKind::Local);
                both(one(Effect::RemoveLocal { place }), l)
            },
        }
    }

    /// Closes the dialog that is open, and does what it was for if it was
    /// answered so.
    pub fn answer_modal(&mut self, ok: bool) -> (r: Vec<Effect>)
        ensures
            (final(self)@, effect_list(r@)) == modal_answered(old(self)@, ok),
    {
        let mut modal: Option<Modal> = None;
        std::mem::swap(&mut modal, &mut self.modal);
        match modal {
            None => none(),
            Some(m) => if !ok {
                none()
            } else {
                match m {
                    Modal::Text { title: _, input, mode } => self.run_modal_text(&input, mode),
                    Modal::Confirm { title: _, msg: _, action } => self.run_confirm(action),
                }
            },
        }
    }

    /// Notes the end of local work that was asked for: the local pane is listed
    /// anew, or the user is told what failed.
    pub fn local_work_done(&mut self, what: &str, fault: Option<&str>) -> (r: Vec<Effect>)
        ensures
            (final(self)@, effect_list(r@)) == (match text_opt(fault) {
                None => listed(old(self)@, PaneKind::Local),
                Some(e) => (
                    old(self)@.telling(what@ + " failed: "@ + e),
                    Seq::<EffectView>::empty(),
                ),
            }),
    {
        match fault {
            None => self.request_list(PaneKind::Local),
            Some(e) => {
                self.tell(cat3(what, " failed: ", e));
                none()
            },
        }
    }

    /// Takes files that were dropped onto the explorer.
    pub fn handle_dropped_files(&mut self, files: &Vec<Place>, over_local: bool) -> (r: Vec<Effect>)
        ensures
            (final(self)@, effect_list(r@)) == dropped(old(self)@, place_list(files@), over_local),
    {
        let ghost fs = place_list(files@);
        if files.len() == 0 || (!over_local && !self.connected) {
            return none();
        }
        let mut work = none();
        let mut i: usize = 0;
        assert(fs.take(0) =~= Seq::empty());
        while i < files.len()
            invariant
                i <= files@.len(),
                *self == *old(self),
                fs == place_list(files@),
                effect_list(work@) == drop_effects(self@, fs.take(i as int), over_local),
            decreases files@.len() - i,
        {
            let ghost before = effect_list(work@);
            let f = files[i].clone();
            let ghost fv = f@;
            let name = f.name.clone();
            let step = if over_local {
                Effect::CopyLocal {
                    from: f,
                    to: place(&self.local.local_cwd, &name),
                    is_dir: false,
                }
            } else {
                Effect::Put { local: f, remote: self.remote.remote_path_for(&name) }
            };
            let ghost sv = step@;
            work.push(step);
            proof {
                assert(effect_list(work@) =~= before.push(sv));
                assert(fs.take(i + 1).drop_last() =~= fs.take(i as int));
                assert(fs.take(i + 1).last() == fv);
            }
            i += 1;
        }
        assert(fs.take(i as int) =~= fs);
        let n = dec(files.len() as u128);
        if over_local {
            let l = self.request_list(PaneKind::Local);
            self.tell(cat3("copied ", &n, " file(s) into local"));
            both(work, l)
        } else {
            self.tell(cat3("uploading ", &n, " file(s)..."));
            work
        }
    }

    /// Notes that the user drags an entry.
    pub fn start_drag(&mut self, kind: PaneKind, name: String, is_dir: bool)
        ensures
            final(self)@ == (ExplorerView {
                drag: Some(DragView { kind, name: name@, is_dir }),
                ..old(self)@
            }),
    {
        self.drag = Some(DragState { kind, name, is_dir });
    }

    /// Takes the entry that was dragged and let go. `is_file` says whether a
    /// local source is a file.
    pub fn handle_dnd(&mut self, over: Option<PaneKind>, is_file: bool) -> (r: Vec<Effect>)
        ensures
            (final(self)@, effect_list(r@)) == drag_released(old(self)@, over, is_file),
    {
        let mut drag: Option<DragState> = None;
        std::mem::swap(&mut drag, &mut self.drag);
        let d = match drag {
            None => {
                return none();
            },
            Some(d) => d,
        };
        match (d.kind, over) {
            (PaneKind::Remote, Some(PaneKind::Local)) => {
                if self.connected && !d.is_dir {
                    let remote = self.remote.remote_path_for(&d.name);
                    let name = dedup_name(&self.local.entries, &d.name, false, true);
                    let local = place(&self.local.local_cwd, &name);
                    self.tell(cat3("downloading ", &d.name, "..."));
                    one(Effect::Get { remote, local })
                } else {
                    none()
                }
            },
            (PaneKind::Local, Some(PaneKind::Remote)) => {
                if self.connected && !d.is_dir && is_file {
                    let name = dedup_name(&self.remote.entries, &d.name, false, true);
                    let remote = self.remote.remote_path_for(&name);
                    let local = place(&self.local.local_cwd, &d.name);
                    self.tell(cat3("uploading ", &d.name, "..."));
                    one(Effect::Put { local, remote })
                } else {
                    none()
                }
            },
            _ => none(),
        }
    }

    /// Takes the keys for copying, cutting and pasting. `files` says of each
    /// item of the clipboard whether a local source is a file.
    pub fn handle_keyboard(&mut self, copy: bool, cut: bool, paste: bool, files: &Vec<bool>) -> (r:
        Vec<Effect>)
        ensures
            (final(self)@, effect_list(r@)) == keys_pressed(old(self)@, copy, cut, paste, files@),
    {
        if copy {
            self.copy_selection(false);
            none()
        } else if cut {
            self.copy_selection(true);
            none()
        } else if paste {
            let kind = self.focused;
            self.paste_to(kind, files)
        } else {
            none()
        }
    }

    // ------------------------------------------------------------ terminal and session

    /// Opens the terminal, or closes it.
    pub fn toggle_terminal(&mut self)
        ensures
            final(self)@ == (ExplorerView {
                terminal: TerminalView { open: !old(self)@.terminal.open, ..old(self)@.terminal },
                ..old(self)@
            }),
    {
        self.terminal.open = !self.terminal.open;
    }

    /// Runs the command in the terminal's input.
    pub fn run_command(&mut self) -> (r: Vec<Effect>)
        ensures
            (final(self)@, effect_list(r@)) == command_run(old(self)@),
    {
        let cmd = trim(&self.terminal.input);
        if cmd.as_str().is_empty() || self.terminal.busy {
            return none();
        }
        self.terminal.busy = true;
        self.terminal.input = String::new();
        assert(self.terminal.input@ =~= Seq::empty());
        if self.connected {
            one(Effect::Exec { cmd, elevated: self.terminal.elevated })
        } else {
            none()
        }
    }

    /// Asks to connect, with what stands in the dialog.
    pub fn ask_connect(&mut self) -> (r: Vec<Effect>)
        ensures
            (final(self)@, effect_list(r@)) == connect_asked(old(self)@),
    {
        let user = trim(&self.connect.user);
        let ip = trim(&self.connect.ip);
        if user.as_str().is_empty() || ip.as_str().is_empty() {
            self.connect.error = Some(String::from_str("user and host are required"));
            return none();
        }
        self.connect.busy = true;
        one(
            Effect::Connect {
                target: cat3(&user, "@", &ip),
                password: self.connect.password.clone(),
                accept_license: self.connect.accept_license,
            },
        )
    }

    /// Notes that the attempt to connect has ended.
    pub fn end_connect(&mut self, fault: Option<String>)
        ensures
            final(self)@ == connect_ended(old(self)@, owned_opt(fault)),
    {
        self.connect.busy = false;
        match fault {
            None => {
                self.connected = true;
                self.live = true;
                self.connect.error = None;
                self.status = String::from_str("connecting...");
            },
            Some(e) => {
                self.connect.error = Some(e);
            },
        }
    }

    /// Ends the session.
    pub fn disconnect(&mut self) -> (r: Vec<Effect>)
        ensures
            (final(self)@, effect_list(r@)) == disconnected(old(self)@),
    {
        let was = self.connected;
        self.connected = false;
        self.live = false;
        self.connect.busy = false;
        self.connect.error = None;
        if was {
            one(Effect::CloseSession)
        } else {
            none()
        }
    }

    /// Takes an event of the session.
    pub fn on_event(&mut self, ev: GuiEvent) -> (r: Vec<Effect>)
        ensures
            (final(self)@, effect_list(r@)) == event_step(old(self)@, ev@),
    {
        match ev {
            GuiEvent::Ready => {
                self.tell(String::from_str("connected — loading remote..."));
                self.request_list(PaneKind::Remote)
            },
            GuiEvent::DirListing { path, entries } => {
                if same(&path, &self.remote.remote_cwd) {
                    self.remote.entries = sort_entries(entries);
                    self.remote.loading = false;
                    self.remote.error = None;
                }
                none()
            },
            GuiEvent::OpResult { op, ok, msg } => {
                if ok {
                    self.tell(cat3("remote ", &op, " ok"));
                    let l = self.request_list(PaneKind::Remote);
                    if same(&op, "copy") {
                        let s = self.on_copy_done();
                        both(l, s)
                    } else {
                        l
                    }
                } else {
                    self.tell(cat4("remote ", &op, " failed: ", &msg));
                    none()
                }
            },
            GuiEvent::TransferDone { label, ok } => {
                let s = if ok { self.on_copy_done() } else { none() };
                self.tell(
                    cat4("transfer '", &label, "' ", if ok { "OK" } else { "FAILED" }),
                );
                let a = self.request_list(PaneKind::Remote);
                let b = self.request_list(PaneKind::Local);
                both(both(s, a), b)
            },
            GuiEvent::ExecOutput { bytes } => {
                self.show_output(bytes);
                none()
            },
            GuiEvent::ExecEnd { code, denied } => {
                self.terminal.busy = false;
                let line = cat2(if denied { "[denied] " } else { "[exit] " }, &code);
                self.terminal.push(line, if denied { Tone::Bad } else { Tone::Good });
                none()
            },
            GuiEvent::Message => none(),
            GuiEvent::Closed { reason } => {
                self.connected = false;
                self.live = false;
                self.connect.busy = false;
                self.connect.error = None;
                let t = trim(&reason);
                self.status = if t.as_str().is_empty() {
                    String::from_str("disconnected")
                } else {
                    cat2("disconnected: ", &t)
                };
                none()
            },
        }
    }

    fn show_output(&mut self, bytes: Vec<u8>)
        ensures
            final(self)@ == event_step(
                old(self)@,
                GuiEventView::ExecOutput { text: output_text(bytes@) },
            ).0,
    {
        match text_from_utf8(bytes) {
            None => {},
            Some(text) => {
                let lines = split_lines(&text);
                let ghost all = texts(lines@);
                let ghost start = self.terminal@;
                let mut i: usize = 0;
                assert(with_lines(start, all.take(0)) == start);
                while i < lines.len()
                    invariant
                        i <= lines@.len(),
                        all == texts(lines@),
                        self@ == (ExplorerView {
                            terminal: with_lines(start, all.take(i as int)),
                            ..old(self)@
                        }),
                    decreases lines@.len() - i,
                {
                    proof {
                        assert(all.take(i + 1).drop_last() =~= all.take(i as int));
                        assert(all.take(i + 1).last() == lines@[i as int]@);
                    }
                    self.terminal.push(lines[i].clone(), Tone::Plain);
                    i += 1;
                }
                assert(all.take(i as int) =~= all);
            },
        }
    }
}

/// The text of a command's output, if it is text.
pub open spec fn output_text(bytes: Seq<u8>) -> Option<Seq<char>> {
    if valid_utf8(bytes) { Some(decode_utf8(bytes)) } else { None }
}

/// What comes from the session.
pub enum GuiEvent {
    Ready,
    DirListing { path: String, entries: Vec<Entry> },
    OpResult { op: String, ok: bool, msg: String },
    TransferDone { label: String, ok: bool },
    ExecOutput { bytes: Vec<u8> },
    ExecEnd { code: String, denied: bool },
    Message,
    Closed { reason: String },
}

impl View for GuiEvent {
    type V = GuiEventView;

    open spec fn view(&self) -> GuiEventView {
        match self {
            GuiEvent::Ready => GuiEventView::Ready,
            GuiEvent::DirListing { path, entries } => GuiEventView::DirListing {
                path: path@,
                entries: entry_list(entries@),
            },
            GuiEvent::OpResult { op, ok, msg } => GuiEventView::OpResult {
                op: op@,
                ok: *ok,
                msg: msg@,
            },
            GuiEvent::TransferDone { label, ok } => GuiEventView::TransferDone {
                label: label@,
                ok: *ok,
            },
            GuiEvent::ExecOutput { bytes } => GuiEventView::ExecOutput {
                text: output_text(bytes@),
            },
            GuiEvent::ExecEnd { code, denied } => GuiEventView::ExecEnd {
                code: code@,
                denied: *denied,
            },
            GuiEvent::Message => GuiEventView::Message,
            GuiEvent::Closed { reason } => GuiEventView::Closed { reason: reason@ },
        }
    }
}

// ---------------------------------------------------------------- laws

/// The source of what a transfer copies.
pub open spec fn source_of(f: EffectView) -> Option<SweepTargetView> {
    match f {
        EffectView::Copy { from_path, to_path } => Some(SweepTargetView::Remote { path: from_path }),
        EffectView::Get { remote, local } => Some(SweepTargetView::Remote { path: remote }),
        EffectView::Put { local, remote } => Some(SweepTargetView::Local { place: local }),
        _ => None,
    }
}

/// The effect takes a file away.
pub open spec fn removes(f: EffectView) -> bool {
    f is Delete || f is RemoveLocal || f is SweepLocal
}

/// Pasting takes no file away: the sources of what was cut stay until their
/// copies are complete.
pub proof fn cut_keeps_source_until_copied(e: ExplorerView, to: PaneKind, files: Seq<bool>)
    ensures
        forall|i: int|
            0 <= i < pasted(e, to, files).1.len() ==> !removes(#[trigger] pasted(e, to, files).1[i]),
{
    if let Some(clip) = e.clipboard {
        lemma_paste_removes_nothing(e, clip, clip.items, to, files);
        let all = pasted(e, to, files).1;
        assert forall|i: int| 0 <= i < all.len() implies !removes(#[trigger] all[i]) by {
            let effects = paste_effects(e, clip, clip.items, to, files).0;
            if i < effects.len() {
                assert(all[i] == effects[i]);
            }
        }
    }
}

proof fn lemma_paste_removes_nothing(
    e: ExplorerView,
    clip: ClipView,
    items: Seq<ClipItemView>,
    to: PaneKind,
    files: Seq<bool>,
)
    ensures
        forall|i: int|
            0 <= i < paste_effects(e, clip, items, to, files).0.len() ==> !removes(
                #[trigger] paste_effects(e, clip, items, to, files).0[i],
            ),
    decreases items.len(),
{
    if items.len() > 0 {
        lemma_paste_removes_nothing(e, clip, items.drop_last(), to, files);
        let before = paste_effects(e, clip, items.drop_last(), to, files).0;
        let all = paste_effects(e, clip, items, to, files).0;
        assert forall|i: int| 0 <= i < all.len() implies !removes(#[trigger] all[i]) by {
            if i < before.len() {
                assert(all[i] == before[i]);
            }
        }
    }
}

/// What waits to go after items were cut and pasted is the source of every
/// transfer that the pasting began, in their order.
pub proof fn every_cut_copy_has_its_source(
    e: ExplorerView,
    clip: ClipView,
    items: Seq<ClipItemView>,
    to: PaneKind,
    files: Seq<bool>,
)
    requires
        clip.cut,
        clip.kind is Remote || to is Remote,
    ensures
        ({
            let (effects, targets) = paste_effects(e, clip, items, to, files);
            effects.len() == targets.len() && forall|i: int|
                0 <= i < targets.len() ==> source_of(effects[i]) == Some(#[trigger] targets[i])
        }),
    decreases items.len(),
{
    if items.len() > 0 {
        every_cut_copy_has_its_source(e, clip, items.drop_last(), to, files);
    }
}

/// The sources of what was cut go with the last of the copies that they wait
/// for, all of them and once.
pub proof fn sources_go_with_the_last_copy(e: ExplorerView, s: SweepView)
    requires
        e.sweep == Some(s),
        s.remaining > 0,
    ensures
        s.remaining > 1 ==> copy_done(e) == (
            (ExplorerView {
                sweep: Some(SweepView { remaining: (s.remaining - 1) as nat, targets: s.targets }),
                ..e
            }),
            Seq::<EffectView>::empty(),
        ),
        s.remaining == 1 ==> copy_done(e).0.sweep is None && copy_done(e).1 == sweep_effects(
            e.connected,
            s.targets,
        ),
        s.remaining == 1 ==> copy_done(copy_done(e).0) == (
            copy_done(e).0,
            Seq::<EffectView>::empty(),
        ),
{
}

/// While there is a session every source that waits goes, in their order.
pub proof fn every_source_goes(targets: Seq<SweepTargetView>)
    ensures
        sweep_effects(true, targets).len() == targets.len(),
        forall|i: int|
            0 <= i < targets.len() ==> Some(#[trigger] sweep_effects(true, targets)[i])
                == sweep_effect(true, targets[i]),
    decreases targets.len(),
{
    if targets.len() > 0 {
        every_source_goes(targets.drop_last());
        let work = sweep_effects(true, targets.drop_last());
        let all = sweep_effects(true, targets);
        assert forall|i: int| 0 <= i < targets.len() implies Some(#[trigger] all[i]) == sweep_effect(
            true,
            targets[i],
        ) by {
            if i < work.len() {
                assert(all[i] == work[i]);
            }
        }
    }
}

/// A transfer that failed removes no source.
pub proof fn failed_transfer_keeps_source(e: ExplorerView, label: Seq<char>)
    ensures
        ({
            let (f, work) = event_step(e, GuiEventView::TransferDone { label, ok: false });
            f.sweep == e.sweep && forall|i: int|
                0 <= i < work.len() ==> !removes(#[trigger] work[i])
        }),
{
    let a: Step = (e, Seq::empty());
    let told = e.telling("transfer '"@ + label + "' "@ + "FAILED"@);
    let b = and_then(a, listed(told, PaneKind::Remote));
    let work = event_step(e, GuiEventView::TransferDone { label, ok: false }).1;
    assert(work == and_then(b, listed(b.0, PaneKind::Local)).1);
    assert forall|i: int| 0 <= i < work.len() implies !removes(#[trigger] work[i]) by {
    }
}

/// The terminal keeps a bounded number of lines.
pub proof fn terminal_is_bounded(t: TerminalView, line: Seq<char>, tone: Tone)
    requires
        t.log.len() <= TERMINAL_LINES + 1,
    ensures
        with_line(t, line, tone).log.len() <= TERMINAL_LINES + 1,
        with_line(t, line, tone).log.last() == (line, tone),
{
}

/// Going back shows the directory that was shown before.
pub proof fn back_undoes_navigation(e: ExplorerView, label: Seq<char>, home: Seq<char>, inside: Seq<char>)
    ensures
        ({
            let there = navigated(e, PaneKind::Local, label).0;
            let back = op_step(there, Op::Back(PaneKind::Local), None, home, inside).0;
            back.local.label == e.local.label && back.local.local_cwd == e.local.label
        }),
{
    let p = e.local;
    assert(p.history.push(p.label).last() == p.label);
}

// ---------------------------------------------------------------- the focused pane

impl Explorer {
    /// Downloads the selected entry of the focused pane, if there is one.
    pub fn pull_selected(&mut self) -> (r: Vec<Effect>)
        ensures
            (final(self)@, effect_list(r@)) == (match old(self)@.pane(
                old(self)@.focused,
            ).selected_item() {
                Some((name, is_dir)) => pulled(old(self)@, name, is_dir),
                None => (old(self)@, Seq::<EffectView>::empty()),
            }),
    {
        match self.pane(self.focused).selected_item() {
            Some((name, is_dir)) => self.pull(&name, is_dir),
            None => none(),
        }
    }

    /// Uploads the selected entry of the focused pane, if there is one.
    pub fn push_selected(&mut self, is_file: bool, shown: &str) -> (r: Vec<Effect>)
        ensures
            (final(self)@, effect_list(r@)) == (match old(self)@.pane(
                old(self)@.focused,
            ).selected_item() {
                Some((name, is_dir)) => pushed_up(old(self)@, name, is_dir, is_file, shown@),
                None => (old(self)@, Seq::<EffectView>::empty()),
            }),
    {
        match self.pane(self.focused).selected_item() {
            Some((name, is_dir)) => self.push(&name, is_dir, is_file, shown),
            None => none(),
        }
    }
}

/// So many blanks.
pub open spec fn blanks(n: nat) -> Seq<char> {
    Seq::new(n, |i: int| ' ')
}

/// A text with blanks before it, to a width of at least `width`.
pub open spec fn right_aligned(s: Seq<char>, width: nat) -> Seq<char> {
    if s.len() < width { blanks((width - s.len()) as nat) + s } else { s }
}

fn pad_left(s: &str, width: usize) -> (r: String)
    ensures
        r@ == right_aligned(s@, width as nat),
{
    let n: usize = chars_of(s).len();
    let mut r = String::new();
    let mut i: usize = n;
    assert(r@ =~= blanks(0));
    while i < width
        invariant
            n <= i,
            i <= width || i == n,
            r@ == blanks((i - n) as nat),
        decreases width - i,
    {
        r.push(' ');
        i += 1;
        assert(r@ =~= blanks((i - n) as nat));
    }
    let ghost b = r@;
    r.append(s);
    proof {
        if n >= width {
            assert(b + s@ =~= s@);
        }
    }
    r
}

/// The line that a pane shows of an entry.
pub open spec fn entry_text(e: EntryView) -> Seq<char> {
    (if e.is_dir { "·[DIR]·"@ } else { "·"@ }) + " "@ + e.name + "  "@ + right_aligned(
        if e.is_dir { "<dir>"@ } else { decimal(e.size as nat) + " B"@ },
        12,
    )
}

/// The line that a pane shows of an entry: what it is, its name and its size.
pub fn entry_line(e: &Entry) -> (s: String)
    ensures
        s@ == entry_text(e@),
{
    let size = if e.is_dir {
        String::from_str("<dir>")
    } else {
        let n = dec(e.size as u128);
        cat2(&n, " B")
    };
    let p = pad_left(&size, 12);
    cat5(if e.is_dir { "·[DIR]·" } else { "·" }, " ", &e.name, "  ", &p)
}

} // verus!
