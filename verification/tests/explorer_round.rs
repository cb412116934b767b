use pyielink::explorer::{
    ClipItem, Clipboard, Effect, Explorer, GuiEvent, Op, PaneKind, PendingSweep, Place, SweepTarget,
};
use pyielink::explorer_round::{Gesture, LocalFacts, Round};
use pyielink::listing::Entry;

fn entry(name: &str) -> Entry {
    Entry { name: name.into(), is_dir: false, size: 1 }
}

fn live() -> Explorer {
    let mut e = Explorer::new("bob@host", "/home/bob");
    e.end_connect(None);
    e
}

fn facts() -> LocalFacts {
    LocalFacts {
        parent: Some("/home".into()),
        home: "/home/bob".into(),
        inside: "/home/bob/in".into(),
        shown: "/home/bob/a.txt".into(),
        is_file: true,
        files: vec![true, true, false],
    }
}

fn quiet() -> Round {
    Round {
        disconnect: false,
        terminal: false,
        run: false,
        connect: false,
        pull: false,
        push: false,
        paste: false,
        local_ops: vec![],
        remote_ops: vec![],
        focused: PaneKind::Local,
        cut: false,
        copy: false,
        folder: false,
        files: vec![],
        over_local: false,
        released: false,
        over: None,
        copy_key: false,
        cut_key: false,
        paste_key: false,
    }
}

fn clip(kind: PaneKind, cut: bool) -> Clipboard {
    let item = |name: &str, is_dir| ClipItem { name: name.into(), is_dir };
    Clipboard {
        kind,
        remote_cwd: "docs".into(),
        local_cwd: "/src".into(),
        items: vec![item("a.txt", false), item("d", true), item("b.txt", false)],
        cut,
    }
}

#[test]
fn every_item_is_pasted() {
    let mut e = live();
    e.clipboard = Some(clip(PaneKind::Remote, false));
    let f = e.paste_to(PaneKind::Remote, &vec![]);
    let copied: Vec<(&str, &str)> = f
        .iter()
        .filter_map(|x| match x {
            Effect::Copy { from_path, to_path } => Some((from_path.as_str(), to_path.as_str())),
            _ => None,
        })
        .collect();
    assert_eq!(copied, [("docs/a.txt", "a.txt"), ("docs/d", "d"), ("docs/b.txt", "b.txt")]);
    assert_eq!(f.len(), 4);
    assert!(e.sweep.is_none());
    // directories are not downloaded
    let f = e.paste_to(PaneKind::Local, &vec![]);
    assert!(matches!(&f[..], [Effect::Get { remote, .. }, Effect::Get { remote: second, .. },
        Effect::LoadLocal { .. }, Effect::ListDir { .. }]
        if remote == "docs/a.txt" && second == "docs/b.txt"));
    // nor uploaded, nor what is no file
    e.clipboard = Some(clip(PaneKind::Local, false));
    let f = e.paste_to(PaneKind::Remote, &vec![false, true, true]);
    assert!(matches!(&f[..], [Effect::Put { local, remote }, Effect::ListDir { .. }, Effect::LoadLocal { .. }]
        if local.dir == "/src" && local.name == "b.txt" && remote == "b.txt"));
    let f = e.paste_to(PaneKind::Local, &vec![]);
    assert!(matches!(&f[..], [Effect::CopyLocal { is_dir: false, .. }, Effect::CopyLocal { is_dir: true, .. },
        Effect::CopyLocal { from, .. }, Effect::LoadLocal { .. }] if from.name == "b.txt"));
    assert_eq!(e.status, "copied local -> local");
}

#[test]
fn cut_sources_go_with_the_last_copy() {
    let mut e = live();
    e.clipboard = Some(clip(PaneKind::Remote, true));
    let f = e.paste_to(PaneKind::Local, &vec![]);
    assert!(!f.iter().any(|x| matches!(x, Effect::Delete { .. } | Effect::SweepLocal { .. })));
    assert!(matches!(&e.sweep, Some(PendingSweep { remaining: 2, targets }) if targets.len() == 2));
    let f = e.on_event(GuiEvent::TransferDone { label: "a.txt".into(), ok: true });
    assert!(matches!(&f[..], [Effect::ListDir { .. }, Effect::LoadLocal { .. }]));
    assert!(matches!(&e.sweep, Some(PendingSweep { remaining: 1, .. })));
    let f = e.on_event(GuiEvent::TransferDone { label: "b.txt".into(), ok: false });
    assert_eq!(f.len(), 2);
    let f = e.on_event(GuiEvent::TransferDone { label: "b.txt".into(), ok: true });
    assert!(matches!(&f[..], [Effect::Delete { path, recursive: true }, Effect::Delete { path: second, .. },
        Effect::ListDir { .. }, Effect::LoadLocal { .. }]
        if path == "docs/a.txt" && second == "docs/b.txt"));
    assert!(e.sweep.is_none());
    // without a session only local sources go
    e.sweep = Some(PendingSweep {
        remaining: 1,
        targets: vec![
            SweepTarget::Remote { path: "x".into() },
            SweepTarget::Local { place: Place { dir: "/src".into(), name: "y".into() } },
        ],
    });
    e.disconnect();
    let f = e.apply_sweep();
    assert!(matches!(&f[..], [Effect::SweepLocal { place }] if place.name == "y"));
    assert_eq!(e.status, "cut sources removed");
    assert!(e.apply_sweep().is_empty());
}

#[test]
fn gestures_come_in_order() {
    assert!(quiet().gestures().is_empty());
    let mut r = quiet();
    r.paste_key = true;
    r.released = true;
    r.over = Some(PaneKind::Remote);
    r.files = vec![Place { dir: "/tmp".into(), name: "one".into() }];
    r.over_local = true;
    r.folder = true;
    r.copy = true;
    r.cut = true;
    r.remote_ops = vec![Op::Up(PaneKind::Remote)];
    r.local_ops = vec![Op::Refresh(PaneKind::Local), Op::Back(PaneKind::Local)];
    r.paste = true;
    r.push = true;
    r.pull = true;
    r.connect = true;
    r.run = true;
    r.terminal = true;
    r.disconnect = true;
    let g = r.gestures();
    assert_eq!(g.len(), 16);
    assert!(matches!(
        &g[..7],
        [
            Gesture::Disconnect,
            Gesture::ToggleTerminal,
            Gesture::RunCommand,
            Gesture::AskConnect,
            Gesture::Pull,
            Gesture::Push,
            Gesture::Paste
        ]
    ));
    let ops: Vec<Op> = g
        .iter()
        .filter_map(|x| match x {
            Gesture::Act { op } => Some(*op),
            _ => None,
        })
        .collect();
    assert_eq!(
        ops,
        [
            Op::Refresh(PaneKind::Local),
            Op::Back(PaneKind::Local),
            Op::Up(PaneKind::Remote),
            Op::CutClip(PaneKind::Local),
            Op::CopyClip(PaneKind::Local),
            Op::NewFolder(PaneKind::Local),
        ]
    );
    assert!(matches!(
        &g[13..],
        [
            Gesture::DropFiles { over_local: true, .. },
            Gesture::LetGo { over: Some(PaneKind::Remote) },
            Gesture::Keys { copy: false, cut: false, paste: true }
        ]
    ));
}

#[test]
fn gestures_are_done() {
    let mut e = live();
    e.poll_events(vec![GuiEvent::DirListing { path: ".".into(), entries: vec![entry("a.txt")] }]);
    e.load_local_listing(Ok(vec![entry("a.txt")]));
    e.select(PaneKind::Remote, Some(0));
    e.focused = PaneKind::Remote;
    assert!(e.update(Gesture::ToggleTerminal, facts()).is_empty());
    assert!(e.terminal.open);
    e.terminal.input = "ls".into();
    let f = e.update(Gesture::RunCommand, facts());
    assert!(matches!(&f[..], [Effect::Exec { cmd, elevated: false }] if cmd == "ls"));
    let f = e.update(Gesture::Pull, facts());
    assert!(matches!(&f[..], [Effect::Get { remote, .. }] if remote == "a.txt"));
    let f = e.update(Gesture::Act { op: Op::Enter(PaneKind::Local, 0) }, facts());
    assert!(f.is_empty());
    let f = e.update(Gesture::Act { op: Op::Up(PaneKind::Local) }, facts());
    assert!(matches!(&f[..], [Effect::LoadLocal { dir }] if dir == "/home"));
    e.select(PaneKind::Local, Some(0));
    e.load_local_listing(Ok(vec![entry("a.txt")]));
    e.select(PaneKind::Local, Some(0));
    e.focused = PaneKind::Local;
    let f = e.update(Gesture::Push, facts());
    assert!(matches!(&f[..], [Effect::Put { local, .. }] if local.name == "a.txt"));
    e.update(Gesture::Keys { copy: true, cut: false, paste: false }, facts());
    assert_eq!(e.status, "copied 'a.txt' to clipboard");
    let f = e.update(Gesture::Paste, facts());
    assert!(matches!(&f[..], [Effect::CopyLocal { to, .. }, Effect::LoadLocal { .. }]
        if to.name == "a (copy 2).txt"));
    e.start_drag(PaneKind::Local, "a.txt".into(), false);
    let f = e.update(Gesture::LetGo { over: Some(PaneKind::Remote) }, facts());
    assert!(matches!(&f[..], [Effect::Put { remote, .. }] if remote == "a (copy 2).txt"));
    let files = vec![Place { dir: "/tmp".into(), name: "one".into() }];
    let f = e.update(Gesture::DropFiles { files, over_local: false }, facts());
    assert!(matches!(&f[..], [Effect::Put { remote, .. }] if remote == "one"));
    e.update(Gesture::Act { op: Op::Delete(PaneKind::Local, 0) }, facts());
    let f = e.update(Gesture::Answer { ok: true }, facts());
    assert!(matches!(&f[..], [Effect::RemoveLocal { place }, Effect::LoadLocal { .. }]
        if place.name == "a.txt"));
    let f = e.update(Gesture::AskConnect, facts());
    assert!(matches!(&f[..], [Effect::Connect { target, .. }] if target == "bob@host"));
}

#[test]
fn a_closed_session_is_asked_nothing() {
    let mut e = live();
    e.clipboard = Some(clip(PaneKind::Local, true));
    let mut r = quiet();
    r.disconnect = true;
    r.paste = true;
    r.focused = PaneKind::Remote;
    r.remote_ops = vec![Op::Refresh(PaneKind::Remote), Op::Home(PaneKind::Remote)];
    let mut work = vec![];
    for g in r.gestures() {
        work.extend(e.update(g, facts()));
    }
    assert!(matches!(work.first(), Some(Effect::CloseSession)));
    assert!(!work.iter().any(|f| matches!(f, Effect::ListDir { .. } | Effect::Put { .. })));
    assert_eq!(e.remote.error.as_deref(), Some("not connected"));
    assert!(e.poll_events(vec![GuiEvent::Ready]).is_empty());
}

#[test]
fn events_are_taken_in_turn() {
    let mut e = live();
    let f = e.poll_events(vec![
        GuiEvent::Ready,
        GuiEvent::TransferDone { label: "x".into(), ok: true },
        GuiEvent::Closed { reason: "bye".into() },
        GuiEvent::Ready,
    ]);
    assert!(matches!(&f[..], [Effect::ListDir { .. }, Effect::ListDir { .. }, Effect::LoadLocal { .. }]));
    assert!(!e.connected && !e.live);
    assert_eq!(e.remote.error.as_deref(), Some("not connected"));
}
