use pyielink::browser::{
    child_order, classify, FileBrowser, FileEntry, FileType, RemoteFileEntry,
};
use pyielink::explorer::{
    entry_line, Effect, Explorer, GuiEvent, Modal, Op, PaneKind, Place, TextMode, Tone, TERMINAL_LINES,
};
use pyielink::icons::{FILE, FILE_IMAGE, FILE_TEXT, FOLDER_CLOSED, FOLDER_OPEN};
use pyielink::listing::{
    dedup_name, normalize_remote, resolve_remote, sort_entries, split_lines, stem_of, Entry,
};
use std::cmp::Ordering;

fn entry(name: &str, is_dir: bool) -> Entry {
    Entry { name: name.into(), is_dir, size: 1 }
}

fn names(v: &[Entry]) -> Vec<&str> {
    v.iter().map(|e| e.name.as_str()).collect()
}

fn live() -> Explorer {
    let mut e = Explorer::new("bob@host", "/home/bob");
    e.end_connect(None);
    e
}

#[test]
fn listings_are_sorted() {
    let v = vec![entry("b", false), entry("Zoo", true), entry("A", false), entry("a", false), entry("éa", true)];
    assert_eq!(names(&sort_entries(v)), ["Zoo", "éa", "A", "a", "b"]);
}

#[test]
fn copies_get_free_names() {
    let v = vec![entry("a.txt", false), entry("a (copy 2).txt", false), entry("d.d", true)];
    assert_eq!(dedup_name(&v, "b.txt", false, true), "b.txt");
    assert_eq!(dedup_name(&v, "a.txt", false, true), "a (copy 3).txt");
    assert_eq!(dedup_name(&v, "a.txt", false, false), "a.txt");
    assert_eq!(dedup_name(&v, "d.d", true, true), "d (copy 2)");
    assert_eq!(stem_of("a.tar.gz"), "a.tar");
    assert_eq!(stem_of(".profile"), ".profile");
    assert_eq!(stem_of("plain"), "plain");
}

#[test]
fn remote_paths() {
    assert_eq!(resolve_remote(".", "a"), "a");
    assert_eq!(resolve_remote("a/b", "c"), "a/b/c");
    assert_eq!(normalize_remote("a/b"), "a");
    assert_eq!(normalize_remote("a"), ".");
    assert_eq!(normalize_remote("."), ".");
    assert_eq!(split_lines("a\r\nb\n\nc\r"), ["a", "b", "", "c\r"]);
    assert!(split_lines("").is_empty());
}

#[test]
fn explorer_connects() {
    let mut e = Explorer::new("bob@host", "/h");
    assert_eq!((e.connect.user.as_str(), e.connect.ip.as_str()), ("bob", "host"));
    assert_eq!(e.status, "not connected");
    e.connect.user = " ".into();
    assert!(e.ask_connect().is_empty());
    assert_eq!(e.connect.error.as_deref(), Some("user and host are required"));
    e.connect.user = " bob ".into();
    e.connect.password = "pw".into();
    match e.ask_connect().pop() {
        Some(Effect::Connect { target, password, accept_license }) => {
            assert_eq!((target.as_str(), password.as_str(), accept_license), ("bob@host", "pw", true));
        }
        _ => panic!("a connection is asked for"),
    }
    assert!(e.connect.busy);
    e.end_connect(Some("refused".into()));
    assert!(!e.live && !e.connect.busy);
    assert_eq!(e.connect.error.as_deref(), Some("refused"));
    e.end_connect(None);
    assert!(e.live && e.connected);
    let f = e.on_event(GuiEvent::Ready);
    assert!(matches!(&f[..], [Effect::ListDir { path }] if path == "."));
    assert!(e.remote.loading);
    let f = e.disconnect();
    assert!(matches!(&f[..], [Effect::CloseSession]));
    assert!(!e.live);
    let e2 = Explorer::new("host", "/h");
    assert_eq!((e2.connect.user.as_str(), e2.connect.ip.as_str()), ("", "host"));
}

#[test]
fn listings_come_in() {
    let mut e = live();
    let f = e.on_event(GuiEvent::DirListing {
        path: ".".into(),
        entries: vec![entry("b", false), entry("a", true)],
    });
    assert!(f.is_empty());
    assert_eq!(names(&e.remote.entries), ["a", "b"]);
    e.on_event(GuiEvent::DirListing { path: "elsewhere".into(), entries: vec![] });
    assert_eq!(e.remote.entries.len(), 2);
    e.load_local_listing(Ok(vec![entry("z", false), entry("y", false)]));
    assert_eq!(names(&e.local.entries), ["y", "z"]);
    e.load_local_listing(Err("denied".into()));
    assert!(e.local.entries.is_empty());
    assert_eq!(e.local.error.as_deref(), Some("denied"));
}

#[test]
fn panes_are_walked() {
    let mut e = live();
    e.on_event(GuiEvent::DirListing { path: ".".into(), entries: vec![entry("docs", true)] });
    let f = e.handle_op(Op::Enter(PaneKind::Remote, 0), None, "", "");
    assert!(matches!(&f[..], [Effect::ListDir { path }] if path == "docs"));
    assert_eq!(e.remote.label, "docs");
    let f = e.handle_op(Op::Up(PaneKind::Remote), None, "", "");
    assert!(matches!(&f[..], [Effect::ListDir { path }] if path == "."));
    assert_eq!(e.remote.label, "~");
    let f = e.handle_op(Op::Back(PaneKind::Remote), None, "", "");
    assert!(matches!(&f[..], [Effect::ListDir { path }] if path == "docs"));
    e.load_local_listing(Ok(vec![entry("sub", true)]));
    let f = e.handle_op(Op::Enter(PaneKind::Local, 0), None, "", "/home/bob/sub");
    assert!(matches!(&f[..], [Effect::LoadLocal { dir }] if dir == "/home/bob/sub"));
    let f = e.handle_op(Op::Up(PaneKind::Local), Some("/home/bob".into()), "", "");
    assert!(matches!(&f[..], [Effect::LoadLocal { dir }] if dir == "/home/bob"));
    assert!(e.handle_op(Op::Up(PaneKind::Local), None, "", "").is_empty());
    let f = e.handle_op(Op::Home(PaneKind::Local), None, "/root", "");
    assert!(matches!(&f[..], [Effect::LoadLocal { dir }] if dir == "/root"));
    let f = e.handle_op(Op::Home(PaneKind::Remote), None, "/root", "");
    assert!(matches!(&f[..], [Effect::ListDir { path }] if path == "."));
    assert!(e.handle_op(Op::Enter(PaneKind::Remote, 9), None, "", "").is_empty());
    // without a session there is nothing to list
    e.disconnect();
    assert!(e.handle_op(Op::Refresh(PaneKind::Remote), None, "", "").is_empty());
    assert_eq!(e.remote.error.as_deref(), Some("not connected"));
    let mut fresh = live();
    assert!(fresh.handle_op(Op::Back(PaneKind::Local), None, "", "").is_empty());
}

#[test]
fn files_are_transferred() {
    let mut e = live();
    let f = e.pull("a.txt", false);
    assert!(matches!(&f[..], [Effect::Get { remote, local }]
        if remote == "a.txt" && local.dir == "/home/bob" && local.name == "a.txt"));
    assert_eq!(e.status, "downloading a.txt...");
    assert!(e.pull("d", true).is_empty());
    assert_eq!(e.status, "'d' is a directory — download is file-only for now");
    let f = e.push("b", false, true, "/home/bob/b");
    assert!(matches!(&f[..], [Effect::Put { local, remote }] if local.name == "b" && remote == "b"));
    assert!(e.push("b", false, false, "/home/bob/b").is_empty());
    assert_eq!(e.status, "no such local file: /home/bob/b");
    assert!(e.push("d", true, false, "").is_empty());
    assert_eq!(e.status, "'d' is a directory — upload is file-only for now");
    e.disconnect();
    assert!(e.pull("a", false).is_empty());
    assert_eq!(e.status, "not connected");
}

#[test]
fn cut_and_paste_on_the_host() {
    let mut e = live();
    e.copy_selection(true);
    assert_eq!(e.status, "nothing selected to copy");
    assert!(e.paste_to(PaneKind::Remote, &vec![false]).is_empty());
    assert_eq!(e.status, "clipboard is empty");
    e.on_event(GuiEvent::DirListing { path: ".".into(), entries: vec![entry("a.txt", false)] });
    e.select(PaneKind::Remote, Some(0));
    e.handle_op(Op::CutClip(PaneKind::Remote), None, "", "");
    assert_eq!(e.status, "cut 'a.txt' to clipboard");
    e.navigate(PaneKind::Remote, "docs".into());
    let f = e.paste_to(PaneKind::Remote, &vec![false]);
    assert!(matches!(&f[..], [Effect::Copy { from_path, to_path }, Effect::ListDir { .. }]
        if from_path == "a.txt" && to_path == "docs/a.txt"));
    assert_eq!(e.status, "moved remote -> remote");
    // the source goes when the copy is complete
    let f = e.on_event(GuiEvent::OpResult { op: "mkdir".into(), ok: true, msg: String::new() });
    assert!(matches!(&f[..], [Effect::ListDir { .. }]));
    let f = e.on_event(GuiEvent::OpResult { op: "copy".into(), ok: true, msg: String::new() });
    assert!(matches!(&f[..], [Effect::ListDir { .. }, Effect::Delete { path, recursive: true }]
        if path == "a.txt"));
    assert_eq!(e.status, "cut sources removed");
    let f = e.on_event(GuiEvent::OpResult { op: "copy".into(), ok: false, msg: "full".into() });
    assert!(f.is_empty());
    assert_eq!(e.status, "remote copy failed: full");
}

#[test]
fn paste_between_panes() {
    let mut e = live();
    e.on_event(GuiEvent::DirListing { path: ".".into(), entries: vec![entry("a.txt", false)] });
    e.load_local_listing(Ok(vec![entry("a.txt", false), entry("d", true)]));
    e.select(PaneKind::Remote, Some(0));
    e.handle_op(Op::CopyClip(PaneKind::Remote), None, "", "");
    let f = e.paste_to(PaneKind::Local, &vec![false]);
    assert!(matches!(&f[..], [Effect::Get { remote, local }, Effect::LoadLocal { .. }, Effect::ListDir { .. }]
        if remote == "a.txt" && local.name == "a (copy 2).txt"));
    assert_eq!(e.status, "copied remote -> local");
    // a local source that was cut goes when the transfer is complete
    e.select(PaneKind::Local, Some(1));
    e.handle_op(Op::CutClip(PaneKind::Local), None, "", "");
    let f = e.paste_to(PaneKind::Remote, &vec![true]);
    assert!(matches!(&f[..], [Effect::Put { local, remote }, Effect::ListDir { .. }, Effect::LoadLocal { .. }]
        if local.name == "a.txt" && remote == "a.txt"));
    let f = e.on_event(GuiEvent::TransferDone { label: "a.txt".into(), ok: false });
    assert!(matches!(&f[..], [Effect::ListDir { .. }, Effect::LoadLocal { .. }]));
    assert_eq!(e.status, "transfer 'a.txt' FAILED");
    let f = e.on_event(GuiEvent::TransferDone { label: "a.txt".into(), ok: true });
    assert!(matches!(&f[..], [Effect::SweepLocal { place }, Effect::ListDir { .. }, Effect::LoadLocal { .. }]
        if place.name == "a.txt"));
    assert_eq!(e.status, "transfer 'a.txt' OK");
    // directories do not cross
    e.select(PaneKind::Local, Some(0));
    e.handle_keyboard(true, false, false, &vec![false]);
    let f = e.paste_to(PaneKind::Remote, &vec![false]);
    assert!(matches!(&f[..], [Effect::ListDir { .. }, Effect::LoadLocal { .. }]));
    // on this device
    e.focused = PaneKind::Local;
    let f = e.handle_keyboard(false, false, true, &vec![false]);
    assert!(matches!(&f[..], [Effect::CopyLocal { from, to, is_dir: true }, Effect::LoadLocal { .. }]
        if from.name == "d" && to.name == "d (copy 2)"));
    e.handle_keyboard(false, true, false, &vec![false]);
    let f = e.paste_to(PaneKind::Local, &vec![false]);
    assert!(matches!(&f[..], [Effect::MoveLocal { from, to, .. }, Effect::LoadLocal { .. }]
        if from.name == "d" && to.name == "d"));
}

#[test]
fn dialogs_ask_first() {
    let mut e = live();
    e.on_event(GuiEvent::DirListing { path: ".".into(), entries: vec![entry("a", true)] });
    e.handle_op(Op::NewFolder(PaneKind::Remote), None, "", "");
    assert!(matches!(&e.modal, Some(Modal::Text { mode: TextMode::NewFolder(PaneKind::Remote), .. })));
    if let Some(Modal::Text { input, .. }) = &mut e.modal {
        *input = " new ".into();
    }
    let f = e.answer_modal(true);
    assert!(matches!(&f[..], [Effect::CreateDir { path }, Effect::ListDir { .. }] if path == "new"));
    assert!(e.modal.is_none());
    e.handle_op(Op::Rename(PaneKind::Remote, 0), None, "", "");
    assert!(matches!(&e.modal, Some(Modal::Text { input, .. }) if input == "a"));
    let f = e.run_modal_text("b", TextMode::Rename(PaneKind::Remote, 0));
    assert!(matches!(&f[..], [Effect::Rename { old_path, new_path }, Effect::ListDir { .. }]
        if old_path == "a" && new_path == "b"));
    assert!(e.answer_modal(false).is_empty());
    assert!(e.modal.is_none());
    assert!(e.run_modal_text("  ", TextMode::NewFolder(PaneKind::Local)).is_empty());
    assert_eq!(e.status, "name must not be empty");
    let f = e.run_modal_text("x", TextMode::NewFolder(PaneKind::Local));
    assert!(matches!(&f[..], [Effect::MakeDir { place }] if place.name == "x"));
    let f = e.local_work_done("mkdir", None);
    assert!(matches!(&f[..], [Effect::LoadLocal { .. }]));
    assert!(e.local_work_done("mkdir", Some("denied")).is_empty());
    assert_eq!(e.status, "mkdir failed: denied");
    e.load_local_listing(Ok(vec![entry("q", false)]));
    let f = e.run_modal_text("r", TextMode::Rename(PaneKind::Local, 0));
    assert!(matches!(&f[..], [Effect::RenameLocal { from, to }] if from.name == "q" && to.name == "r"));
    e.handle_op(Op::Delete(PaneKind::Remote, 0), None, "", "");
    assert!(matches!(&e.modal, Some(Modal::Confirm { msg, .. }) if msg == "Delete 'a'?"));
    let f = e.answer_modal(true);
    assert!(matches!(&f[..], [Effect::Delete { path, recursive: true }, Effect::ListDir { .. }] if path == "a"));
    e.handle_op(Op::Delete(PaneKind::Local, 0), None, "", "");
    let f = e.answer_modal(true);
    assert!(matches!(&f[..], [Effect::RemoveLocal { place }, Effect::LoadLocal { .. }] if place.name == "q"));
    e.handle_op(Op::Delete(PaneKind::Local, 7), None, "", "");
    assert!(e.modal.is_none());
}

#[test]
fn files_are_dropped_and_dragged() {
    let mut e = live();
    let files = vec![
        Place { dir: "/tmp".into(), name: "one".into() },
        Place { dir: "/tmp".into(), name: "two".into() },
    ];
    let f = e.handle_dropped_files(&files, true);
    assert!(matches!(&f[..], [Effect::CopyLocal { .. }, Effect::CopyLocal { from, to, .. }, Effect::LoadLocal { .. }]
        if from.dir == "/tmp" && to.dir == "/home/bob" && to.name == "two"));
    assert_eq!(e.status, "copied 2 file(s) into local");
    let f = e.handle_dropped_files(&files, false);
    assert!(matches!(&f[..], [Effect::Put { .. }, Effect::Put { remote, .. }] if remote == "two"));
    assert_eq!(e.status, "uploading 2 file(s)...");
    assert!(e.handle_dropped_files(&vec![], true).is_empty());
    e.load_local_listing(Ok(vec![entry("a", false)]));
    e.start_drag(PaneKind::Remote, "a".into(), false);
    let f = e.handle_dnd(Some(PaneKind::Local), false);
    assert!(matches!(&f[..], [Effect::Get { local, .. }] if local.name == "a (copy 2)"));
    assert!(e.drag.is_none());
    e.start_drag(PaneKind::Local, "a".into(), false);
    let f = e.handle_dnd(Some(PaneKind::Remote), true);
    assert!(matches!(&f[..], [Effect::Put { remote, .. }] if remote == "a"));
    e.start_drag(PaneKind::Local, "a".into(), false);
    assert!(e.handle_dnd(Some(PaneKind::Local), true).is_empty());
    assert!(e.handle_dnd(Some(PaneKind::Remote), true).is_empty());
    e.disconnect();
    assert!(e.handle_dropped_files(&files, false).is_empty());
}

#[test]
fn terminal_runs_commands() {
    let mut e = live();
    e.toggle_terminal();
    assert!(e.terminal.open);
    assert!(e.run_command().is_empty());
    e.terminal.input = " ls ".into();
    e.terminal.elevated = true;
    let f = e.run_command();
    assert!(matches!(&f[..], [Effect::Exec { cmd, elevated: true }] if cmd == "ls"));
    assert!(e.terminal.busy && e.terminal.input.is_empty());
    e.terminal.input = "again".into();
    assert!(e.run_command().is_empty());
    e.on_event(GuiEvent::ExecOutput { bytes: b"one\r\ntwo\n".to_vec() });
    e.on_event(GuiEvent::ExecOutput { bytes: vec![0xFF] });
    e.on_event(GuiEvent::ExecEnd { code: "0".into(), denied: false });
    e.on_event(GuiEvent::ExecEnd { code: "no".into(), denied: true });
    e.on_event(GuiEvent::Message);
    let log: Vec<(&str, Tone)> = e.terminal.log.iter().map(|(l, t)| (l.as_str(), *t)).collect();
    assert_eq!(
        log,
        [
            ("one", Tone::Plain),
            ("two", Tone::Plain),
            ("[exit] 0", Tone::Good),
            ("[denied] no", Tone::Bad),
        ]
    );
    assert!(!e.terminal.busy);
    for i in 0..600 {
        e.terminal.push(format!("{}", i), Tone::Plain);
    }
    assert_eq!(e.terminal.log.len(), TERMINAL_LINES + 1);
    assert_eq!(e.terminal.log.last().unwrap().0, "599");
}

#[test]
fn sessions_close() {
    let mut e = live();
    e.on_event(GuiEvent::Closed { reason: " gone ".into() });
    assert_eq!(e.status, "disconnected: gone");
    assert!(!e.live && !e.connected);
    e.on_event(GuiEvent::Closed { reason: " ".into() });
    assert_eq!(e.status, "disconnected");
}

#[test]
fn browser_entries() {
    assert_eq!(classify("a.PNG", false), FileType::Image);
    assert_eq!(classify("notes.md", false), FileType::Text);
    assert_eq!(classify("a.bin", false), FileType::File);
    assert_eq!(classify(".md", false), FileType::File);
    assert_eq!(classify("x.png", true), FileType::Directory);
    let mut d = FileEntry::new("/d".into(), "d".into(), true, 9);
    assert_eq!((d.size, d.file_type), (0, FileType::Directory));
    assert_eq!(d.icon(), FOLDER_CLOSED);
    assert!(d.toggle());
    assert_eq!(d.icon(), FOLDER_OPEN);
    d.load_children(vec![FileEntry::new("/d/a".into(), "a.jpg".into(), false, 9)]);
    assert_eq!(d.children[0].icon(), FILE_IMAGE);
    assert!(!d.toggle());
    assert!(!d.toggle());
    let mut f = FileEntry::new("/a.rs".into(), "a.rs".into(), false, 9);
    assert_eq!((f.icon(), f.size), (FILE_TEXT, 9));
    assert!(!f.toggle());
    f.load_children(vec![FileEntry::new("/x".into(), "x".into(), false, 1)]);
    assert!(f.children.is_empty());
    let mut r = RemoteFileEntry::new("r".into(), "/r".into(), true, 0);
    assert_eq!((r.file_type(), r.icon()), (FileType::Directory, FOLDER_CLOSED));
    r.toggle();
    assert_eq!(r.icon(), FOLDER_OPEN);
    assert_eq!(RemoteFileEntry::new("r".into(), "/r".into(), false, 0).icon(), FILE);
    assert_eq!(child_order(true, "z", false, "a"), Ordering::Less);
    assert_eq!(child_order(false, "a", true, "z"), Ordering::Greater);
    assert_eq!(child_order(false, "B", false, "a"), Ordering::Less);
    assert_eq!(child_order(true, "b", true, "a"), Ordering::Greater);
    assert_eq!(child_order(true, "b", true, "b"), Ordering::Equal);
}

#[test]
fn browser_progress() {
    let mut b = FileBrowser::new(FileEntry::new("/".into(), "".into(), true, 0));
    assert!(b.remote_root.is_none());
    b.set_remote_root(RemoteFileEntry::new("r".into(), "/".into(), true, 0));
    assert!(b.remote_root.is_some());
    b.update_transfer_progress("f".into(), 1, 10, true, 77);
    b.update_transfer_progress("g".into(), 5, 10, false, 88);
    let p = b.transfer_progress.as_ref().unwrap();
    assert_eq!((p.filename.as_str(), p.bytes_transferred, p.is_upload, p.start_time), ("f", 5, true, 77));
    b.update_transfer_progress("f".into(), 10, 10, true, 99);
    assert!(b.transfer_progress.is_none());
}

#[test]
fn selected_entries_are_transferred() {
    let mut e = live();
    assert!(e.pull_selected().is_empty() && e.push_selected(true, "").is_empty());
    e.on_event(GuiEvent::DirListing { path: ".".into(), entries: vec![entry("a", false)] });
    e.select(PaneKind::Remote, Some(0));
    let f = e.pull_selected();
    assert!(matches!(&f[..], [Effect::Get { remote, .. }] if remote == "a"));
    e.load_local_listing(Ok(vec![entry("b", false)]));
    e.select(PaneKind::Local, Some(0));
    e.focused = PaneKind::Local;
    let f = e.push_selected(true, "/home/bob/b");
    assert!(matches!(&f[..], [Effect::Put { local, remote }] if local.name == "b" && remote == "b"));
    assert!(e.push_selected(false, "/home/bob/b").is_empty());
    assert_eq!(e.status, "no such local file: /home/bob/b");
}

#[test]
fn entries_are_shown_with_their_size() {
    assert_eq!(entry_line(&entry("docs", true)), "·[DIR]· docs         <dir>");
    let big = Entry { name: "a".into(), is_dir: false, size: 123_456_789_012 };
    assert_eq!(entry_line(&big), "· a  123456789012 B");
    assert_eq!(entry_line(&entry("é", false)), "· é           1 B");
}

#[test]
fn trees_show_directories_first() {
    let file = |name: &str, dir: bool| FileEntry::new(format!("/r/{}", name), name.into(), dir, 1);
    let mut root = FileEntry::new("/r".into(), "r".into(), true, 0);
    root.load_children(vec![file("b", false), file("z", true), file("B", false), file("a", true)]);
    assert_eq!(root.display_order(), [3, 1, 2, 0]);
    root.load_children(vec![file("same", false), file("same", false)]);
    assert_eq!(root.display_order(), [0, 1]);
    assert!(file("f", false).display_order().is_empty());
}
