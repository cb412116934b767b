//! The file explorer: which entry each gesture is about, and what the session
//! answers.

use crate::client::last_name;
use crate::explorer::{
    ClipItemView, ClipView, ConfirmAction, DragView, Effect, EffectView, Explorer, ExplorerView,
    GuiEvent, ModalView, Op, Pane, PaneKind, PaneView, Place, PlaceView, SweepTargetView,
    SweepView, TerminalPane, TerminalView, TextMode, Tone, blanks, drop_effects, effect_list,
    entry_line, every_source_goes, name_at, navigated, paste_effects, place_list, right_aligned,
    sweep_effect, sweep_effects, with_lines,
};
use crate::explorer_round::{
    Gesture, GestureView, LocalFacts, Round, event_list, events_taken, if_made,
};
use crate::laws::listing::{
    comes_as, is_name, leads_back, lemma_comes_as, lemma_joined_path, names_entry,
};
use crate::laws::text::{cutting_splits_at_the_first, cutting_splits_at_the_last};
use crate::listing::{
    Entry, entry_list, name_in, remote_join, remote_parent, sort_entries, split_lines,
};
use crate::text::{decimal, texts, trimmed};
use vstd::prelude::*;
use vstd::string::*;

verus! {

/// Nothing but the status line differs.
pub open spec fn only_tells(e: ExplorerView, f: ExplorerView) -> bool {
    f == (ExplorerView { status: f.status, ..e })
}

/// There is exactly one thing to do.
pub open spec fn only(r: Seq<Effect>, f: EffectView) -> bool {
    r.len() == 1 && r[0]@ == f
}

proof fn lemma_effects(r: Seq<Effect>)
    ensures
        effect_list(r).len() == r.len(),
        forall|i: int|
            #![trigger effect_list(r)[i]]
            #![trigger r[i]]
            0 <= i < r.len() ==> effect_list(r)[i] == r[i]@,
{
}

// ---------------------------------------------------------------- downloads and uploads

/// Downloading an entry of the remote pane asks for that entry: the path leads
/// back to the directory that the pane shows and to the entry's name, whatever
/// they are. The file goes under its name into the directory of the local pane.
pub proof fn downloads_name_their_entry(e: &mut Explorer, name: &str, r: Vec<Effect>)
    requires
        call_ensures(Explorer::pull, (e, name, false), r),
        old(e)@.connected,
    ensures
        r@.len() == 1,
        r@[0]@ is Get,
        names_entry(r@[0]@->Get_remote, old(e)@.remote.remote_cwd, name@),
        old(e)@.remote.remote_cwd.len() > 0 && is_name(name@) ==> remote_parent(
            r@[0]@->Get_remote,
        ) == old(e)@.remote.remote_cwd && last_name(r@[0]@->Get_remote) == name@,
        r@[0]@->Get_local.dir == old(e)@.local.local_cwd,
        r@[0]@->Get_local.name == name@,
        only_tells(old(e)@, final(e)@),
        final(e)@.status == "downloading "@ + name@ + "..."@,
{
    lemma_effects(r@);
    lemma_joined_path(old(e)@.remote.remote_cwd, name@);
}

/// Uploading an entry of the local pane offers that file, and puts it under its
/// name into the directory that the remote pane shows.
pub proof fn uploads_name_their_entry(e: &mut Explorer, name: &str, shown: &str, r: Vec<Effect>)
    requires
        call_ensures(Explorer::push, (e, name, false, true, shown), r),
        old(e)@.connected,
    ensures
        r@.len() == 1,
        r@[0]@ is Put,
        names_entry(r@[0]@->Put_remote, old(e)@.remote.remote_cwd, name@),
        old(e)@.remote.remote_cwd.len() > 0 && is_name(name@) ==> leads_back(
            r@[0]@->Put_remote,
            old(e)@.remote.remote_cwd,
            name@,
        ),
        r@[0]@->Put_local.dir == old(e)@.local.local_cwd,
        r@[0]@->Put_local.name == name@,
        only_tells(old(e)@, final(e)@),
        final(e)@.status == "uploading "@ + name@ + "..."@,
{
    lemma_effects(r@);
    lemma_joined_path(old(e)@.remote.remote_cwd, name@);
}

/// A directory is neither down- nor uploaded, nothing is without a session, and
/// no file is uploaded that is not there; the status line says why.
pub proof fn other_entries_are_refused(
    e: &mut Explorer,
    f: &mut Explorer,
    name: &str,
    is_dir: bool,
    is_file: bool,
    shown: &str,
    r: Vec<Effect>,
    s: Vec<Effect>,
)
    requires
        call_ensures(Explorer::pull, (e, name, is_dir), r),
        call_ensures(Explorer::push, (f, name, is_dir, is_file, shown), s),
    ensures
        is_dir || !old(e)@.connected ==> r@.len() == 0 && only_tells(old(e)@, final(e)@),
        is_dir || !old(f)@.connected || !is_file ==> s@.len() == 0 && only_tells(
            old(f)@,
            final(f)@,
        ),
        is_dir ==> final(e)@.status == "'"@ + name@
            + "' is a directory — download is file-only for now"@,
        is_dir ==> final(f)@.status == "'"@ + name@
            + "' is a directory — upload is file-only for now"@,
        !is_dir && !old(e)@.connected ==> final(e)@.status == "not connected"@,
        !is_dir && !old(f)@.connected ==> final(f)@.status == "not connected"@,
        !is_dir && old(f)@.connected && !is_file ==> final(f)@.status == "no such local file: "@
            + shown@,
{
    lemma_effects(r@);
    lemma_effects(s@);
}

/// The entry that is selected in the focused pane is the one that goes; with
/// none selected nothing happens.
pub proof fn the_selected_entry_goes(
    e: &mut Explorer,
    f: &mut Explorer,
    is_file: bool,
    shown: &str,
    r: Vec<Effect>,
    s: Vec<Effect>,
    i: usize,
)
    requires
        call_ensures(Explorer::pull_selected, (e,), r),
        call_ensures(Explorer::push_selected, (f, is_file, shown), s),
        old(f)@ == old(e)@,
        old(e)@.connected,
    ensures
        ({
            let p = if old(e)@.focused == PaneKind::Remote { old(e)@.remote } else { old(e)@.local };
            let chosen = p.selected == Some(i) && i < p.entries.len();
            &&& chosen && !p.entries[i as int].is_dir ==> {
                &&& r@.len() == 1 && r@[0]@ is Get
                &&& names_entry(
                    r@[0]@->Get_remote,
                    old(e)@.remote.remote_cwd,
                    p.entries[i as int].name,
                )
                &&& is_file ==> s@.len() == 1 && s@[0]@ is Put && s@[0]@->Put_local.name
                    == p.entries[i as int].name
            }
            &&& chosen && p.entries[i as int].is_dir ==> r@.len() == 0 && s@.len() == 0
            &&& p.selected is None || p.selected == Some(i) && i >= p.entries.len() ==> r@.len()
                == 0 && s@.len() == 0 && final(e)@ == old(e)@ && final(f)@ == old(f)@
        }),
{
    lemma_effects(r@);
    lemma_effects(s@);
    let p = if old(e)@.focused == PaneKind::Remote { old(e)@.remote } else { old(e)@.local };
    assert(p == old(e)@.pane(old(e)@.focused));
    if i < p.entries.len() {
        lemma_joined_path(old(e)@.remote.remote_cwd, p.entries[i as int].name);
    }
}

/// An entry that is dragged onto the other pane goes there: from the directory
/// of its pane into that of the other, where it hides nothing. Let go elsewhere,
/// or without a session, or as a directory, it stays where it is. The drag is
/// over in any case.
pub proof fn dragged_entries_go_to_the_other_pane(
    e: &mut Explorer,
    over: Option<PaneKind>,
    is_file: bool,
    r: Vec<Effect>,
    d: DragView,
)
    requires
        call_ensures(Explorer::handle_dnd, (e, over, is_file), r),
        old(e)@.drag == Some(d),
    ensures
        final(e)@.drag is None,
        only_tells((ExplorerView { drag: None, ..old(e)@ }), final(e)@),
        ({
            let down = d.kind == PaneKind::Remote && over == Some(PaneKind::Local) && !d.is_dir
                && old(e)@.connected;
            let up = d.kind == PaneKind::Local && over == Some(PaneKind::Remote) && !d.is_dir
                && is_file && old(e)@.connected;
            &&& down ==> {
                &&& r@.len() == 1 && r@[0]@ is Get
                &&& names_entry(r@[0]@->Get_remote, old(e)@.remote.remote_cwd, d.name)
                &&& r@[0]@->Get_local.dir == old(e)@.local.local_cwd
                &&& comes_as(
                    old(e)@.local.entries,
                    d.name,
                    false,
                    false,
                    r@[0]@->Get_local.name,
                )
                &&& final(e)@.status == "downloading "@ + d.name + "..."@
            }
            &&& up ==> {
                &&& r@.len() == 1 && r@[0]@ is Put
                &&& r@[0]@->Put_local == (PlaceView { dir: old(e)@.local.local_cwd, name: d.name })
                &&& exists|new: Seq<char>| #[trigger]
                    comes_as(old(e)@.remote.entries, d.name, false, false, new) && names_entry(
                        r@[0]@->Put_remote,
                        old(e)@.remote.remote_cwd,
                        new,
                    )
                &&& final(e)@.status == "uploading "@ + d.name + "..."@
            }
            &&& !down && !up ==> r@.len() == 0 && final(e)@.status == old(e)@.status
        }),
{
    lemma_effects(r@);
    lemma_joined_path(old(e)@.remote.remote_cwd, d.name);
    lemma_comes_as(old(e)@.local.entries, d.name, false, true);
    lemma_comes_as(old(e)@.remote.entries, d.name, false, true);
    let new = name_in(old(e)@.remote.entries, d.name, false, true);
    lemma_joined_path(old(e)@.remote.remote_cwd, new);
}

/// What is dragged is what was taken up; without a drag letting go does nothing.
pub proof fn drags_carry_what_was_taken(
    e: &mut Explorer,
    kind: PaneKind,
    name: String,
    is_dir: bool,
    f: &mut Explorer,
    over: Option<PaneKind>,
    is_file: bool,
    r: Vec<Effect>,
)
    requires
        call_ensures(Explorer::start_drag, (e, kind, name, is_dir), ()),
        call_ensures(Explorer::handle_dnd, (f, over, is_file), r),
        old(f)@.drag is None,
    ensures
        final(e)@ == (ExplorerView {
            drag: Some(DragView { kind, name: name@, is_dir }),
            ..old(e)@
        }),
        final(f)@ == old(f)@,
        r@.len() == 0,
{
    lemma_effects(r@);
}

/// Files that are dropped over the local pane are copied into its directory,
/// elsewhere they are uploaded into that of the remote pane; each under its
/// name and in their order.
pub proof fn dropped_files_arrive(
    e: &mut Explorer,
    files: &Vec<Place>,
    over_local: bool,
    r: Vec<Effect>,
    i: int,
)
    requires
        call_ensures(Explorer::handle_dropped_files, (e, files, over_local), r),
        0 <= i < files@.len(),
    ensures
        over_local ==> r@.len() == files@.len() + 1 && r@[i]@ == (EffectView::CopyLocal {
            from: files@[i]@,
            to: PlaceView { dir: old(e)@.local.local_cwd, name: files@[i].name@ },
            is_dir: false,
        }) && r@[files@.len() as int]@ == (EffectView::LoadLocal { dir: old(e)@.local.local_cwd }),
        !over_local && old(e)@.connected ==> r@.len() == files@.len() && r@[i]@ is Put
            && r@[i]@->Put_local == files@[i]@ && names_entry(
            r@[i]@->Put_remote,
            old(e)@.remote.remote_cwd,
            files@[i].name@,
        ),
        !over_local && !old(e)@.connected ==> r@.len() == 0 && final(e)@ == old(e)@,
        over_local ==> final(e)@.status == "copied "@ + decimal(files@.len())
            + " file(s) into local"@,
        !over_local && old(e)@.connected ==> final(e)@.status == "uploading "@ + decimal(
            files@.len(),
        ) + " file(s)..."@,
        only_tells(old(e)@, final(e)@),
{
    lemma_effects(r@);
    let ps = place_list(files@);
    lemma_drop_effects(old(e)@, ps, over_local, i);
    assert(ps[i] == files@[i]@);
    lemma_joined_path(old(e)@.remote.remote_cwd, files@[i].name@);
    assert(drop_effects(old(e)@, ps, over_local).len() == ps.len());
}

proof fn lemma_drop_effects(e: ExplorerView, files: Seq<PlaceView>, over_local: bool, i: int)
    requires
        0 <= i < files.len(),
    ensures
        drop_effects(e, files, over_local).len() == files.len(),
        drop_effects(e, files, over_local)[i] == (if over_local {
            EffectView::CopyLocal {
                from: files[i],
                to: PlaceView { dir: e.local.local_cwd, name: files[i].name },
                is_dir: false,
            }
        } else {
            EffectView::Put {
                local: files[i],
                remote: remote_join(e.remote.remote_cwd, files[i].name),
            }
        }),
    decreases files.len(),
{
    let rest = files.drop_last();
    assert(drop_effects(e, Seq::empty(), over_local).len() == 0);
    if rest.len() > 0 {
        lemma_drop_effects(e, rest, over_local, if i < rest.len() { i } else { 0 });
        if i < rest.len() {
            assert(rest[i] == files[i]);
        }
    }
}

// ---------------------------------------------------------------- copying and pasting

/// What is copied or cut is the selected entry of the focused pane, together
/// with the directory that it is in.
pub proof fn clipboard_holds_the_selected_entry(e: &mut Explorer, cut: bool, i: usize)
    requires
        call_ensures(Explorer::copy_selection, (e, cut), ()),
    ensures
        ({
            let p = if old(e)@.focused == PaneKind::Remote { old(e)@.remote } else { old(e)@.local };
            &&& p.selected == Some(i) && i < p.entries.len() ==> {
                &&& final(e)@.clipboard matches Some(c) && c.kind == old(e)@.focused && c.remote_cwd
                    == p.remote_cwd && c.local_cwd == p.local_cwd && c.cut == cut && c.items.len()
                    == 1 && c.items[0].name == p.entries[i as int].name && c.items[0].is_dir
                    == p.entries[i as int].is_dir
                &&& cut ==> final(e)@.status == "cut"@ + " '"@ + p.entries[i as int].name
                    + "' to clipboard"@
                &&& !cut ==> final(e)@.status == "copied"@ + " '"@ + p.entries[i as int].name
                    + "' to clipboard"@
            }
            &&& p.selected is None ==> final(e)@.clipboard == old(e)@.clipboard && final(e)@.status
                == "nothing selected to copy"@
            &&& final(e)@ == (ExplorerView {
                status: final(e)@.status,
                clipboard: final(e)@.clipboard,
                ..old(e)@
            })
        }),
{
}

/// The keys copy, cut and paste in the focused pane as the commands do; copying
/// goes before cutting, and both before pasting.
pub proof fn keys_do_as_the_commands(
    e: &mut Explorer,
    copy: bool,
    cut: bool,
    paste: bool,
    files: &Vec<bool>,
    r: Vec<Effect>,
    f: &mut Explorer,
    g: &mut Explorer,
    s: Vec<Effect>,
)
    requires
        call_ensures(Explorer::handle_keyboard, (e, copy, cut, paste, files), r),
        call_ensures(Explorer::copy_selection, (f, !copy), ()),
        call_ensures(Explorer::paste_to, (g, old(e)@.focused, files), s),
        old(f)@ == old(e)@,
        old(g)@ == old(e)@,
    ensures
        copy || cut ==> final(e)@ == final(f)@ && r@.len() == 0,
        !copy && !cut && paste ==> final(e)@ == final(g)@ && effect_list(r@) == effect_list(s@),
        !copy && !cut && !paste ==> final(e)@ == old(e)@ && r@.len() == 0,
{
    lemma_effects(r@);
}

/// An item of the clipboard that can go to the other place.
pub open spec fn can_go(
    e: ExplorerView,
    c: ClipView,
    to: PaneKind,
    i: int,
    files: Seq<bool>,
) -> bool {
    if c.kind == PaneKind::Local && to == PaneKind::Local {
        true
    } else if c.kind == PaneKind::Remote && to == PaneKind::Remote {
        e.connected
    } else if c.kind == PaneKind::Remote {
        e.connected && !c.items[i].is_dir
    } else {
        e.connected && !c.items[i].is_dir && i < files.len() && files[i]
    }
}

/// What is done with an item of the clipboard: from the directory in which it
/// was copied into that of the pane, and under a name that hides nothing unless
/// it was cut.
pub open spec fn goes(
    e: ExplorerView,
    c: ClipView,
    to: PaneKind,
    item: ClipItemView,
    f: EffectView,
) -> bool {
    let from = PlaceView { dir: c.local_cwd, name: item.name };
    if c.kind == PaneKind::Remote && to == PaneKind::Remote {
        &&& f is Copy
        &&& names_entry(f->from_path, c.remote_cwd, item.name)
        &&& exists|new: Seq<char>| #[trigger]
            comes_as(e.remote.entries, item.name, item.is_dir, c.cut, new) && names_entry(
                f->to_path,
                e.remote.remote_cwd,
                new,
            )
    } else if c.kind == PaneKind::Remote {
        &&& f is Get
        &&& names_entry(f->Get_remote, c.remote_cwd, item.name)
        &&& f->Get_local.dir == e.local.local_cwd
        &&& comes_as(e.local.entries, item.name, item.is_dir, c.cut, f->Get_local.name)
    } else if to == PaneKind::Remote {
        &&& f is Put
        &&& f->Put_local == from
        &&& exists|new: Seq<char>| #[trigger]
            comes_as(e.remote.entries, item.name, item.is_dir, c.cut, new) && names_entry(
                f->Put_remote,
                e.remote.remote_cwd,
                new,
            )
    } else if c.cut {
        &&& f is MoveLocal
        &&& f->MoveLocal_from == from
        &&& f->MoveLocal_to == (PlaceView { dir: e.local.local_cwd, name: item.name })
        &&& f->MoveLocal_is_dir == item.is_dir
    } else {
        &&& f is CopyLocal
        &&& f->CopyLocal_from == from
        &&& f->CopyLocal_to.dir == e.local.local_cwd
        &&& comes_as(e.local.entries, item.name, item.is_dir, false, f->CopyLocal_to.name)
        &&& f->CopyLocal_is_dir == item.is_dir
    }
}

/// The source of an item that was cut.
pub open spec fn is_source(c: ClipView, item: ClipItemView, t: SweepTargetView) -> bool {
    if c.kind == PaneKind::Remote {
        t is Remote && names_entry(t->path, c.remote_cwd, item.name)
    } else {
        t is Local && t->place == (PlaceView { dir: c.local_cwd, name: item.name })
    }
}

proof fn lemma_paste_effects(
    e: ExplorerView,
    c: ClipView,
    items: Seq<ClipItemView>,
    to: PaneKind,
    files: Seq<bool>,
)
    requires
        forall|i: int| 0 <= i < items.len() ==> #[trigger] can_go(
            e,
            (ClipView { items, ..c }),
            to,
            i,
            files,
        ),
    ensures
        ({
            let (fs, ts) = paste_effects(e, c, items, to, files);
            &&& fs.len() == items.len()
            &&& forall|i: int|
                0 <= i < items.len() ==> goes(e, c, to, items[i], #[trigger] fs[i])
            &&& !c.cut || c.kind == PaneKind::Local && to == PaneKind::Local ==> ts.len() == 0
            &&& c.cut && !(c.kind == PaneKind::Local && to == PaneKind::Local) ==> ts.len()
                == items.len() && forall|i: int|
                0 <= i < items.len() ==> is_source(c, items[i], #[trigger] ts[i])
        }),
    decreases items.len(),
{
    if items.len() > 0 {
        let rest = items.drop_last();
        let i = items.len() - 1;
        assert forall|k: int| 0 <= k < rest.len() implies #[trigger] can_go(
            e,
            (ClipView { items: rest, ..c }),
            to,
            k,
            files,
        ) by {
            assert(rest[k] == items[k]);
            assert(can_go(e, (ClipView { items, ..c }), to, k, files));
        }
        lemma_paste_effects(e, c, rest, to, files);
        assert(can_go(e, (ClipView { items, ..c }), to, i, files));
        let item = items[i];
        let dst = e.pane(to);
        let new = name_in(dst.entries, item.name, item.is_dir, !c.cut);
        lemma_comes_as(dst.entries, item.name, item.is_dir, !c.cut);
        lemma_joined_path(c.remote_cwd, item.name);
        lemma_joined_path(dst.remote_cwd, new);
        let (fs0, ts0) = paste_effects(e, c, rest, to, files);
        let (fs, ts) = paste_effects(e, c, items, to, files);
        assert(goes(e, c, to, item, fs[i]));
        assert forall|k: int| 0 <= k < items.len() implies goes(
            e,
            c,
            to,
            items[k],
            #[trigger] fs[k],
        ) by {
            if k < i {
                assert(fs[k] == fs0[k] && rest[k] == items[k]);
            }
        }
        if c.cut && !(c.kind == PaneKind::Local && to == PaneKind::Local) {
            assert(ts.len() == items.len());
            assert forall|k: int| 0 <= k < items.len() implies is_source(
                c,
                items[k],
                #[trigger] ts[k],
            ) by {
                if k < i {
                    assert(ts[k] == ts0[k] && rest[k] == items[k]);
                }
            }
        }
    }
}

/// Pasting brings every item of the clipboard from where it was copied into the
/// directory of the pane. What was cut goes at its source only once all copies
/// are complete: the sources wait, one for each copy, and none waits where
/// nothing was cut or the files are moved at once. Both panes are listed anew.
pub proof fn pasted_items_arrive(
    e: &mut Explorer,
    to: PaneKind,
    files: &Vec<bool>,
    r: Vec<Effect>,
    c: ClipView,
)
    requires
        call_ensures(Explorer::paste_to, (e, to, files), r),
        old(e)@.clipboard == Some(c),
        forall|i: int| 0 <= i < c.items.len() ==> #[trigger] can_go(old(e)@, c, to, i, files@),
    ensures
        r@.len() >= c.items.len(),
        forall|i: int|
            0 <= i < c.items.len() ==> goes(old(e)@, c, to, c.items[i], #[trigger] r@[i]@),
        !c.cut || c.kind == PaneKind::Local && to == PaneKind::Local ==> final(e)@.sweep == old(
            e,
        )@.sweep,
        c.cut && c.items.len() > 0 && !(c.kind == PaneKind::Local && to == PaneKind::Local)
            ==> (final(e)@.sweep matches Some(s) && s.remaining == c.items.len() && s.targets.len()
            == c.items.len() && forall|i: int|
            0 <= i < c.items.len() ==> is_source(c, c.items[i], #[trigger] s.targets[i])),
        final(e)@.clipboard == old(e)@.clipboard,
        final(e)@.status == (if c.cut { "moved"@ } else { "copied"@ }) + " "@ + (if c.kind
            == PaneKind::Remote { "remote"@ } else { "local"@ }) + " -> "@ + (if to
            == PaneKind::Remote { "remote"@ } else { "local"@ }),
{
    assert((ClipView { items: c.items, ..c }) == c);
    lemma_paste_effects(old(e)@, c, c.items, to, files@);
    lemma_effects(r@);
    let (fs, ts) = paste_effects(old(e)@, c, c.items, to, files@);
    assert forall|i: int| 0 <= i < c.items.len() implies goes(
        old(e)@,
        c,
        to,
        c.items[i],
        #[trigger] r@[i]@,
    ) by {
        assert(effect_list(r@)[i] == fs[i]);
    }
}

/// With nothing on the clipboard pasting only says so.
pub proof fn an_empty_clipboard_is_told(
    e: &mut Explorer,
    to: PaneKind,
    files: &Vec<bool>,
    r: Vec<Effect>,
)
    requires
        call_ensures(Explorer::paste_to, (e, to, files), r),
        old(e)@.clipboard is None,
    ensures
        r@.len() == 0,
        only_tells(old(e)@, final(e)@),
        final(e)@.status == "clipboard is empty"@,
{
    lemma_effects(r@);
}

/// A copy that is complete brings the sources that wait one nearer; with the
/// last one each of them goes, remote ones with all that they hold, and none
/// waits any longer.
pub proof fn sources_go_when_all_copies_are_there(
    e: &mut Explorer,
    ev: GuiEvent,
    r: Vec<Effect>,
    s: SweepView,
    i: int,
)
    requires
        call_ensures(Explorer::on_event, (e, ev), r),
        ev@ is TransferDone && ev@->TransferDone_ok || ev@ is OpResult && ev@->OpResult_ok
            && ev@->op == "copy"@,
        old(e)@.sweep == Some(s),
        old(e)@.connected,
        0 <= i < s.targets.len(),
    ensures
        s.remaining > 1 ==> final(e)@.sweep == Some(
            SweepView { remaining: (s.remaining - 1) as nat, ..s },
        ),
        s.remaining > 1 ==> forall|j: int| 0 <= j < r@.len() ==> !(#[trigger] r@[j]@ is Delete)
            && !(r@[j]@ is SweepLocal),
        s.remaining <= 1 ==> final(e)@.sweep is None,
        s.remaining <= 1 ==> exists|j: int|
            0 <= j < r@.len() && (if s.targets[i] is Remote {
                #[trigger] r@[j]@ == (EffectView::Delete {
                    path: s.targets[i]->path,
                    recursive: true,
                })
            } else {
                r@[j]@ == (EffectView::SweepLocal { place: s.targets[i]->place })
            }),
{
    lemma_effects(r@);
    every_source_goes(s.targets);
    let w = sweep_effects(true, s.targets);
    let all = effect_list(r@);
    assert(Some(w[i]) == sweep_effect(true, s.targets[i]));
    if s.remaining <= 1 {
        if ev@ is TransferDone {
            assert(all[i] == w[i]);
            assert(r@[i]@ == w[i]);
        } else {
            assert(all[i + 1] == w[i]);
            assert(r@[i + 1]@ == w[i]);
        }
    }
}

// ---------------------------------------------------------------- dialogs

/// The name that was typed for a new folder or for an entry, without blanks
/// round it, is the one that is made or given, in the directory of the pane; an
/// empty one is refused.
pub proof fn typed_names_are_given(
    e: &mut Explorer,
    input: &str,
    mode: TextMode,
    r: Vec<Effect>,
    name: Seq<char>,
)
    requires
        call_ensures(Explorer::run_modal_text, (e, input, mode), r),
        name == trimmed(input@),
    ensures
        name.len() == 0 ==> r@.len() == 0 && only_tells(old(e)@, final(e)@) && final(e)@.status
            == "name must not be empty"@,
        name.len() > 0 ==> match mode {
            TextMode::NewFolder(PaneKind::Remote) => if old(e)@.connected {
                r@.len() == 2 && r@[0]@ is CreateDir && names_entry(
                    r@[0]@->CreateDir_path,
                    old(e)@.remote.remote_cwd,
                    name,
                ) && r@[1]@ == (EffectView::ListDir { path: old(e)@.remote.remote_cwd })
            } else {
                r@.len() == 0 && final(e)@ == old(e)@
            },
            TextMode::NewFolder(PaneKind::Local) => only(
                r@,
                EffectView::MakeDir { place: PlaceView { dir: old(e)@.local.local_cwd, name } },
            ) && final(e)@ == old(e)@,
            TextMode::Rename(PaneKind::Remote, i) => if old(e)@.connected {
                r@.len() == 2 && r@[0]@ is Rename && names_entry(
                    r@[0]@->new_path,
                    old(e)@.remote.remote_cwd,
                    name,
                ) && (i < old(e)@.remote.entries.len() ==> names_entry(
                    r@[0]@->old_path,
                    old(e)@.remote.remote_cwd,
                    old(e)@.remote.entries[i as int].name,
                )) && r@[1]@ == (EffectView::ListDir { path: old(e)@.remote.remote_cwd })
            } else {
                r@.len() == 0 && final(e)@ == old(e)@
            },
            TextMode::Rename(PaneKind::Local, i) => r@.len() == 1 && r@[0]@ is RenameLocal
                && r@[0]@->RenameLocal_to == (PlaceView { dir: old(e)@.local.local_cwd, name })
                && r@[0]@->RenameLocal_from.dir == old(e)@.local.local_cwd && (i < old(
                e,
            )@.local.entries.len() ==> r@[0]@->RenameLocal_from.name == old(
                e,
            )@.local.entries[i as int].name) && final(e)@ == old(e)@,
        },
{
    lemma_effects(r@);
    lemma_joined_path(old(e)@.remote.remote_cwd, name);
    if let TextMode::Rename(PaneKind::Remote, i) = mode {
        lemma_joined_path(old(e)@.remote.remote_cwd, name_at(old(e)@.remote, i));
    }
}

/// An entry is removed only after a dialog that names it was answered with yes.
/// What is then removed is that entry of the directory that was shown; a remote
/// directory goes with all that it holds.
pub proof fn removals_are_confirmed(
    e: &mut Explorer,
    kind: PaneKind,
    i: usize,
    parent: Option<String>,
    home: &str,
    inside: &str,
    r: Vec<Effect>,
    f: &mut Explorer,
    ok: bool,
    s: Vec<Effect>,
)
    requires
        call_ensures(Explorer::handle_op, (e, Op::Delete(kind, i), parent, home, inside), r),
        *old(f) == *final(e),
        call_ensures(Explorer::answer_modal, (f, ok), s),
        i < old(e)@.pane(kind).entries.len(),
        old(e)@.connected,
    ensures
        r@.len() == 0,
        final(e)@.focused == kind,
        final(e)@.modal matches Some(m) && m is Confirm && m->Confirm_title == "Delete"@ && m->msg
            == "Delete '"@ + old(e)@.pane(kind).entries[i as int].name + "'?"@,
        final(f)@.modal is None,
        !ok ==> s@.len() == 0,
        ok && kind == PaneKind::Remote ==> {
            &&& s@.len() == 2 && s@[0]@ is Delete
            &&& names_entry(
                s@[0]@->Delete_path,
                old(e)@.remote.remote_cwd,
                old(e)@.remote.entries[i as int].name,
            )
            &&& s@[0]@->recursive == old(e)@.remote.entries[i as int].is_dir
            &&& s@[1]@ == (EffectView::ListDir { path: old(e)@.remote.remote_cwd })
        },
        ok && kind == PaneKind::Local ==> {
            &&& s@.len() == 2
            &&& s@[0]@ == (EffectView::RemoveLocal {
                place: PlaceView {
                    dir: old(e)@.local.local_cwd,
                    name: old(e)@.local.entries[i as int].name,
                },
            })
            &&& s@[1]@ == (EffectView::LoadLocal { dir: old(e)@.local.local_cwd })
        },
{
    lemma_effects(r@);
    lemma_effects(s@);
    lemma_joined_path(old(e)@.remote.remote_cwd, old(e)@.pane(kind).entries[i as int].name);
}

/// The dialogs ask for what they were opened for; a new name starts out as the
/// entry's name, and the name that was given counts for the pane and the entry
/// that the dialog was opened for. A dialog that is closed without yes does
/// nothing.
pub proof fn dialogs_do_what_they_were_opened_for(
    e: &mut Explorer,
    op: Op,
    parent: Option<String>,
    home: &str,
    inside: &str,
    r: Vec<Effect>,
)
    requires
        call_ensures(Explorer::handle_op, (e, op, parent, home, inside), r),
        op is NewFolder || op is Rename,
    ensures
        r@.len() == 0,
        match op {
            Op::NewFolder(kind) => final(e)@ == (ExplorerView {
                focused: kind,
                modal: Some(
                    ModalView::Text {
                        title: "New folder"@,
                        input: Seq::empty(),
                        mode: TextMode::NewFolder(kind),
                    },
                ),
                ..old(e)@
            }),
            Op::Rename(kind, i) => {
                &&& final(e)@.focused == kind
                &&& final(e)@.modal matches Some(m) && m is Text && m->mode == TextMode::Rename(
                    kind,
                    i,
                ) && m->Text_title == "Rename"@ && (i < old(e)@.pane(kind).entries.len()
                    ==> m->input == old(e)@.pane(kind).entries[i as int].name)
            },
            _ => true,
        },
{
    lemma_effects(r@);
}

/// A text dialog that is answered with yes does what its text is for; one that
/// is closed does nothing. It is gone either way.
pub proof fn dialogs_are_answered(
    e: &mut Explorer,
    ok: bool,
    r: Vec<Effect>,
    f: &mut Explorer,
    input: &str,
    mode: TextMode,
    s: Vec<Effect>,
    title: Seq<char>,
)
    requires
        call_ensures(Explorer::answer_modal, (e, ok), r),
        old(e)@.modal == Some(ModalView::Text { title, input: input@, mode }),
        call_ensures(Explorer::run_modal_text, (f, input, mode), s),
        old(f)@ == (ExplorerView { modal: None, ..old(e)@ }),
    ensures
        ok ==> final(e)@ == final(f)@ && effect_list(r@) == effect_list(s@),
        !ok ==> final(e)@ == old(f)@ && r@.len() == 0,
{
    lemma_effects(r@);
}

// ---------------------------------------------------------------- going about

/// The pane shows another directory: it asks for its entries, remembers the one
/// before, and has nothing selected. The other pane stays.
pub open spec fn went_to(
    e: ExplorerView,
    f: ExplorerView,
    kind: PaneKind,
    label: Seq<char>,
    r: Seq<Effect>,
) -> bool {
    let p = e.pane(kind);
    let q = f.pane(kind);
    let start = label == seq!['~'];
    &&& q.label == label
    &&& q.history == p.history.push(p.label)
    &&& q.selected is None
    &&& q.entries == p.entries
    &&& kind == PaneKind::Remote ==> {
        &&& start ==> q.remote_cwd == seq!['.']
        &&& !start ==> q.remote_cwd == label
        &&& f.local == e.local
        &&& e.connected ==> q.loading && q.error is None && only(
            r,
            EffectView::ListDir { path: q.remote_cwd },
        )
        &&& !e.connected ==> !q.loading && q.error == Some("not connected"@) && r.len() == 0
    }
    &&& kind == PaneKind::Local ==> {
        &&& q.local_cwd == label
        &&& f.remote == e.remote
        &&& only(r, EffectView::LoadLocal { dir: label })
    }
}

proof fn lemma_navigated(
    e: ExplorerView,
    kind: PaneKind,
    label: Seq<char>,
    f: ExplorerView,
    r: Seq<Effect>,
)
    requires
        (f, effect_list(r)) == navigated(e, kind, label),
    ensures
        went_to(e, f, kind, label, r),
        f == e.with_pane(kind, f.pane(kind)),
{
    lemma_effects(r);
    reveal_strlit(".");
    reveal_strlit("~");
    assert("."@ =~= seq!['.']);
    assert("~"@ =~= seq!['~']);
}

/// Entering an entry that is a directory shows that directory: in the remote
/// pane the one whose path leads back to the directory that was shown and to
/// the entry's name. Any other entry only gives the pane the focus.
pub proof fn directories_are_entered(
    e: &mut Explorer,
    kind: PaneKind,
    i: usize,
    parent: Option<String>,
    home: &str,
    inside: &str,
    r: Vec<Effect>,
)
    requires
        call_ensures(Explorer::handle_op, (e, Op::Enter(kind, i), parent, home, inside), r),
    ensures
        final(e)@.focused == kind,
        ({
            let p = old(e)@.pane(kind);
            let dir = i < p.entries.len() && p.entries[i as int].is_dir;
            &&& dir && kind == PaneKind::Remote ==> {
                let path = final(e)@.remote.label;
                &&& went_to(old(e)@, final(e)@, kind, path, r@)
                &&& names_entry(path, p.remote_cwd, p.entries[i as int].name)
                &&& p.remote_cwd.len() > 0 && is_name(p.entries[i as int].name) ==> leads_back(
                    path,
                    p.remote_cwd,
                    p.entries[i as int].name,
                )
            }
            &&& dir && kind == PaneKind::Local ==> went_to(old(e)@, final(e)@, kind, inside@, r@)
            &&& !dir ==> r@.len() == 0 && final(e)@ == (ExplorerView { focused: kind, ..old(e)@ })
        }),
{
    lemma_effects(r@);
    let p = old(e)@.pane(kind);
    let f = ExplorerView { focused: kind, ..old(e)@ };
    if i < p.entries.len() && p.entries[i as int].is_dir {
        let path = remote_join(old(e)@.remote.remote_cwd, p.entries[i as int].name);
        lemma_joined_path(p.remote_cwd, p.entries[i as int].name);
        match kind {
            PaneKind::Remote => {
                lemma_navigated(f, kind, path, final(e)@, r@);
            },
            PaneKind::Local => {
                lemma_navigated(f, kind, inside@, final(e)@, r@);
            },
        }
    }
}

/// Up leads to the directory above, from which the path was made; home to the
/// directory in which the session starts, or to the user's own.
pub proof fn up_and_home_lead_there(
    e: &mut Explorer,
    f: &mut Explorer,
    kind: PaneKind,
    parent: Option<String>,
    home: &str,
    inside: &str,
    r: Vec<Effect>,
    s: Vec<Effect>,
    dir: Seq<char>,
    name: Seq<char>,
)
    requires
        call_ensures(Explorer::handle_op, (e, Op::Up(kind), parent, home, inside), r),
        call_ensures(Explorer::handle_op, (f, Op::Home(kind), parent, home, inside), s),
        is_name(name),
        old(e)@.remote.remote_cwd == dir + seq!['/'] + name && dir.len() > 0 && dir != seq!['.']
            || old(e)@.remote.remote_cwd == name && dir == seq!['~'],
    ensures
        kind == PaneKind::Remote ==> went_to(old(e)@, final(e)@, kind, dir, r@),
        kind == PaneKind::Remote ==> went_to(old(f)@, final(f)@, kind, seq!['~'], s@),
        kind == PaneKind::Local ==> went_to(old(f)@, final(f)@, kind, home@, s@),
        kind == PaneKind::Local ==> (parent matches Some(p) ==> went_to(
            old(e)@,
            final(e)@,
            kind,
            p@,
            r@,
        )),
        kind == PaneKind::Local && parent is None ==> final(e)@ == old(e)@ && r@.len() == 0,
{
    lemma_effects(r@);
    reveal_strlit(".");
    reveal_strlit("~");
    assert("."@ =~= seq!['.']);
    assert("~"@ =~= seq!['~']);
    cutting_splits_at_the_last(dir, '/', name);
    match kind {
        PaneKind::Remote => {
            lemma_navigated(old(e)@, kind, dir, final(e)@, r@);
            lemma_navigated(old(f)@, kind, "~"@, final(f)@, s@);
        },
        PaneKind::Local => {
            lemma_navigated(old(f)@, kind, home@, final(f)@, s@);
            if let Some(p) = parent {
                lemma_navigated(old(e)@, kind, p@, final(e)@, r@);
            }
        },
    }
}

/// Back shows what was shown before the last step, and can be undone in turn;
/// without a step before it does nothing.
pub proof fn back_leads_back(
    e: &mut Explorer,
    kind: PaneKind,
    parent: Option<String>,
    home: &str,
    inside: &str,
    r: Vec<Effect>,
)
    requires
        call_ensures(Explorer::handle_op, (e, Op::Back(kind), parent, home, inside), r),
    ensures
        ({
            let p = old(e)@.pane(kind);
            let q = final(e)@.pane(kind);
            let start = q.label == seq!['~'];
            &&& p.history.len() > 0 ==> {
                &&& q.label == p.history.last()
                &&& q.history == p.history.drop_last().push(p.label)
                &&& q.selected is None
                &&& kind == PaneKind::Remote && start ==> q.remote_cwd == seq!['.']
                &&& kind == PaneKind::Remote && !start ==> q.remote_cwd == q.label
                &&& kind == PaneKind::Remote && old(e)@.connected ==> only(
                    r@,
                    EffectView::ListDir { path: q.remote_cwd },
                )
                &&& kind == PaneKind::Local ==> q.local_cwd == q.label && only(
                    r@,
                    EffectView::LoadLocal { dir: q.label },
                )
            }
            &&& p.history.len() == 0 ==> final(e)@ == old(e)@ && r@.len() == 0
        }),
{
    lemma_effects(r@);
    let p = old(e)@.pane(kind);
    if p.history.len() > 0 {
        let f = old(e)@.with_pane(kind, PaneView { history: p.history.drop_last(), ..p });
        lemma_navigated(f, kind, p.history.last(), final(e)@, r@);
    }
}

/// A pane that is listed anew asks for the directory that it shows.
pub proof fn refreshing_asks_for_the_shown_directory(
    e: &mut Explorer,
    kind: PaneKind,
    parent: Option<String>,
    home: &str,
    inside: &str,
    r: Vec<Effect>,
)
    requires
        call_ensures(Explorer::handle_op, (e, Op::Refresh(kind), parent, home, inside), r),
    ensures
        kind == PaneKind::Local ==> only(
            r@,
            EffectView::LoadLocal { dir: old(e)@.local.local_cwd },
        ) && final(e)@ == old(e)@,
        kind == PaneKind::Remote && old(e)@.connected ==> only(
            r@,
            EffectView::ListDir { path: old(e)@.remote.remote_cwd },
        ) && final(e)@ == (ExplorerView {
            remote: PaneView { loading: true, error: None, ..old(e)@.remote },
            ..old(e)@
        }),
        kind == PaneKind::Remote && !old(e)@.connected ==> r@.len() == 0 && final(e)@ == (
        ExplorerView {
            remote: PaneView {
                loading: false,
                error: Some("not connected"@),
                ..old(e)@.remote
            },
            ..old(e)@
        }),
{
    lemma_effects(r@);
}

/// Selecting an entry changes nothing else.
pub proof fn selecting_changes_the_selection(
    e: &mut Explorer,
    kind: PaneKind,
    selected: Option<usize>,
)
    requires
        call_ensures(Explorer::select, (e, kind, selected), ()),
    ensures
        final(e)@.pane(kind) == (PaneView { selected, ..old(e)@.pane(kind) }),
        kind == PaneKind::Remote ==> final(e)@.local == old(e)@.local,
        kind == PaneKind::Local ==> final(e)@.remote == old(e)@.remote,
        final(e)@ == (ExplorerView {
            remote: final(e)@.remote,
            local: final(e)@.local,
            ..old(e)@
        }),
{
}

// ---------------------------------------------------------------- what the session answers

/// A listing is shown exactly where it is of the directory that the remote pane
/// shows: its entries, sorted. Any other comes too late and is left.
pub proof fn listings_are_shown_where_they_belong(
    e: &mut Explorer,
    ev: GuiEvent,
    r: Vec<Effect>,
    entries: Vec<Entry>,
    sorted: Vec<Entry>,
)
    requires
        call_ensures(Explorer::on_event, (e, ev), r),
        ev@ is DirListing,
        ev@->DirListing_entries == entry_list(entries@),
        call_ensures(sort_entries, (entries,), sorted),
    ensures
        r@.len() == 0,
        ev@->DirListing_path != old(e)@.remote.remote_cwd ==> final(e)@ == old(e)@,
        ev@->DirListing_path == old(e)@.remote.remote_cwd ==> final(e)@ == (ExplorerView {
            remote: PaneView {
                entries: entry_list(sorted@),
                loading: false,
                error: None,
                ..old(e)@.remote
            },
            ..old(e)@
        }),
{
    lemma_effects(r@);
}

/// A local listing is shown sorted; where there is none the pane is empty and
/// says why.
pub proof fn local_listings_are_shown(
    e: &mut Explorer,
    listing: Result<Vec<Entry>, String>,
    sorted: Vec<Entry>,
)
    requires
        call_ensures(Explorer::load_local_listing, (e, listing), ()),
        listing matches Ok(v) ==> call_ensures(sort_entries, (v,), sorted),
    ensures
        final(e)@ == (ExplorerView {
            local: PaneView {
                entries: final(e)@.local.entries,
                loading: false,
                error: final(e)@.local.error,
                ..old(e)@.local
            },
            ..old(e)@
        }),
        listing is Ok ==> final(e)@.local.entries == entry_list(sorted@) && final(e)@.local.error
            is None,
        listing matches Err(m) ==> final(e)@.local.entries.len() == 0 && final(e)@.local.error
            == Some(m@),
{
}

/// Work that the host has done is told and the remote pane listed anew; work
/// that failed is told with what went wrong.
pub proof fn remote_work_is_told(e: &mut Explorer, ev: GuiEvent, r: Vec<Effect>)
    requires
        call_ensures(Explorer::on_event, (e, ev), r),
        ev@ is OpResult,
        old(e)@.connected,
        old(e)@.sweep is None,
    ensures
        ev@->OpResult_ok ==> only(r@, EffectView::ListDir { path: old(e)@.remote.remote_cwd })
            && final(e)@.status == "remote "@ + ev@->op + " ok"@ && final(e)@.remote.loading,
        !ev@->OpResult_ok ==> r@.len() == 0 && only_tells(old(e)@, final(e)@) && final(e)@.status
            == "remote "@ + ev@->op + " failed: "@ + ev@->OpResult_msg,
{
    lemma_effects(r@);
}

/// A transfer that has ended is told, and both panes are listed anew.
pub proof fn transfers_are_told(e: &mut Explorer, ev: GuiEvent, r: Vec<Effect>)
    requires
        call_ensures(Explorer::on_event, (e, ev), r),
        ev@ is TransferDone,
        old(e)@.connected,
        old(e)@.sweep is None || !ev@->TransferDone_ok,
    ensures
        r@.len() == 2,
        r@[0]@ == (EffectView::ListDir { path: old(e)@.remote.remote_cwd }),
        r@[1]@ == (EffectView::LoadLocal { dir: old(e)@.local.local_cwd }),
        final(e)@.sweep == old(e)@.sweep,
        ev@->TransferDone_ok ==> final(e)@.status == "transfer '"@ + ev@->TransferDone_label + "' "@
            + "OK"@,
        !ev@->TransferDone_ok ==> final(e)@.status == "transfer '"@ + ev@->TransferDone_label
            + "' "@ + "FAILED"@,
{
    lemma_effects(r@);
}

/// A session that is ready lists the remote pane; one that has ended takes the
/// user back to the dialog that asks where to connect, and says why.
pub proof fn sessions_come_and_go(e: &mut Explorer, ev: GuiEvent, r: Vec<Effect>)
    requires
        call_ensures(Explorer::on_event, (e, ev), r),
    ensures
        ev@ is Ready && old(e)@.connected ==> only(
            r@,
            EffectView::ListDir { path: old(e)@.remote.remote_cwd },
        ) && final(e)@.status == "connected — loading remote..."@,
        ev@ is Closed ==> {
            &&& r@.len() == 0
            &&& !final(e)@.connected
            &&& !final(e)@.live
            &&& !final(e)@.connect.busy
            &&& final(e)@.connect.error is None
            &&& trimmed(ev@->reason).len() == 0 ==> final(e)@.status == "disconnected"@
            &&& trimmed(ev@->reason).len() > 0 ==> final(e)@.status == "disconnected: "@ + trimmed(
                ev@->reason,
            )
            &&& final(e)@.remote == old(e)@.remote
            &&& final(e)@.local == old(e)@.local
        },
        ev@ is Message ==> r@.len() == 0 && final(e)@ == old(e)@,
{
    lemma_effects(r@);
}

// ---------------------------------------------------------------- connecting

/// Who is to connect where is what was typed, without blanks round it; both are
/// needed.
pub proof fn typed_targets_are_connected(
    e: &mut Explorer,
    r: Vec<Effect>,
    user: Seq<char>,
    ip: Seq<char>,
)
    requires
        call_ensures(Explorer::ask_connect, (e,), r),
        user == trimmed(old(e)@.connect.user),
        ip == trimmed(old(e)@.connect.ip),
    ensures
        user.len() > 0 && ip.len() > 0 ==> {
            &&& only(
                r@,
                EffectView::Connect {
                    target: user + seq!['@'] + ip,
                    password: old(e)@.connect.password,
                    accept_license: old(e)@.connect.accept_license,
                },
            )
            &&& final(e)@.connect.busy
            &&& final(e)@.connected == old(e)@.connected
        },
        user.len() == 0 || ip.len() == 0 ==> r@.len() == 0 && final(e)@.connect.error == Some(
            "user and host are required"@,
        ) && final(e)@.connect.busy == old(e)@.connect.busy,
{
    lemma_effects(r@);
    reveal_strlit("@");
    assert("@"@ =~= seq!['@']);
}

/// An attempt to connect that succeeds shows the panes; one that fails says
/// why, and leaves all else as it was.
pub proof fn attempts_to_connect_end(e: &mut Explorer, fault: Option<String>)
    requires
        call_ensures(Explorer::end_connect, (e, fault), ()),
    ensures
        !final(e)@.connect.busy,
        final(e)@.remote == old(e)@.remote,
        final(e)@.local == old(e)@.local,
        fault is None ==> final(e)@.connected && final(e)@.live && final(e)@.connect.error is None
            && final(e)@.status == "connecting..."@,
        fault matches Some(m) ==> final(e)@.connect.error == Some(m@) && final(e)@.connected == old(
            e,
        )@.connected && final(e)@.live == old(e)@.live && final(e)@.status == old(e)@.status,
{
}

/// Disconnecting closes the session, if there is one, and asks where to connect.
pub proof fn disconnecting_closes_the_session(e: &mut Explorer, r: Vec<Effect>)
    requires
        call_ensures(Explorer::disconnect, (e,), r),
    ensures
        !final(e)@.connected,
        !final(e)@.live,
        !final(e)@.connect.busy,
        final(e)@.connect.error is None,
        final(e)@.connect.user == old(e)@.connect.user,
        final(e)@.connect.ip == old(e)@.connect.ip,
        old(e)@.connected ==> only(r@, EffectView::CloseSession),
        !old(e)@.connected ==> r@.len() == 0,
{
    lemma_effects(r@);
}

/// The explorer starts with the user and the host of its target, the remote
/// pane where the session starts, the local pane in its directory, and without
/// a session.
pub proof fn explorers_start(
    target: &str,
    local_dir: &str,
    e: Explorer,
    user: Seq<char>,
    ip: Seq<char>,
)
    requires
        call_ensures(Explorer::new, (target, local_dir), e),
        forall|i: int| 0 <= i < user.len() ==> (#[trigger] user[i]) != '@',
    ensures
        target@ == user + seq!['@'] + ip ==> e@.connect.user == user && e@.connect.ip == ip,
        target@ == user ==> e@.connect.user.len() == 0 && e@.connect.ip == user,
        e@.remote.remote_cwd == seq!['.'],
        e@.remote.label == seq!['~'],
        e@.local.local_cwd == local_dir@,
        e@.local.label == local_dir@,
        !e@.connected,
        !e@.live,
        !e@.connect.busy,
        e@.connect.accept_license,
        e@.connect.password.len() == 0,
        e@.focused == PaneKind::Remote,
        e@.remote.entries.len() == 0 && e@.local.entries.len() == 0,
        e@.clipboard is None && e@.sweep is None && e@.modal is None && e@.drag is None,
        !e@.terminal.open && !e@.terminal.busy && !e@.terminal.elevated && e@.terminal.log.len()
            == 0,
        e@.status == "not connected"@,
{
    reveal_strlit(".");
    reveal_strlit("~");
    assert("."@ =~= seq!['.']);
    assert("~"@ =~= seq!['~']);
    cutting_splits_at_the_first(user, '@', ip);
}

// ---------------------------------------------------------------- the terminal

/// The command that was typed is run without blanks round it, with the rights
/// that were chosen; the input is then empty, and no other command runs until
/// this one has ended. Nothing is run while one runs or where nothing was typed.
pub proof fn typed_commands_are_run(e: &mut Explorer, r: Vec<Effect>, cmd: Seq<char>)
    requires
        call_ensures(Explorer::run_command, (e,), r),
        cmd == trimmed(old(e)@.terminal.input),
    ensures
        cmd.len() == 0 || old(e)@.terminal.busy ==> r@.len() == 0 && final(e)@ == old(e)@,
        cmd.len() > 0 && !old(e)@.terminal.busy ==> {
            &&& final(e)@.terminal.busy
            &&& final(e)@.terminal.input.len() == 0
            &&& final(e)@.terminal.log == old(e)@.terminal.log
            &&& old(e)@.connected ==> only(
                r@,
                EffectView::Exec { cmd, elevated: old(e)@.terminal.elevated },
            )
            &&& !old(e)@.connected ==> r@.len() == 0
        },
{
    lemma_effects(r@);
}

/// The end of a command is told with its code, and others can be run again.
pub proof fn ends_of_terminal_commands_are_told(e: &mut Explorer, ev: GuiEvent, r: Vec<Effect>)
    requires
        call_ensures(Explorer::on_event, (e, ev), r),
        ev@ is ExecEnd,
    ensures
        r@.len() == 0,
        !final(e)@.terminal.busy,
        final(e)@.terminal.log.len() > 0,
        ev@->denied ==> final(e)@.terminal.log.last() == ("[denied] "@ + ev@->ExecEnd_code, Tone::Bad),
        !ev@->denied ==> final(e)@.terminal.log.last() == (
            "[exit] "@ + ev@->ExecEnd_code,
            Tone::Good,
        ),
{
    lemma_effects(r@);
}

/// A line that is shown stands last; the lines before it stay, but for the
/// oldest once there are more than 500.
pub proof fn lines_are_added(t: &mut TerminalPane, line: String, tone: Tone)
    requires
        call_ensures(TerminalPane::push, (t, line, tone), ()),
    ensures
        old(t)@.log.len() <= 500 ==> final(t)@.log == old(t)@.log.push((line@, tone)),
        old(t)@.log.len() > 500 ==> final(t)@.log == old(t)@.log.skip(1).push((line@, tone)),
        final(t)@.open == old(t)@.open && final(t)@.input == old(t)@.input && final(t)@.busy == old(
            t,
        )@.busy && final(t)@.elevated == old(t)@.elevated,
{
}

/// Output is shown line by line, in its order; the lines before it stay while
/// there is room.
pub proof fn output_is_shown_by_lines(
    e: &mut Explorer,
    ev: GuiEvent,
    r: Vec<Effect>,
    text: &str,
    lines: Vec<String>,
    i: int,
)
    requires
        call_ensures(Explorer::on_event, (e, ev), r),
        ev@ is ExecOutput,
        ev@->text == Some(text@),
        call_ensures(split_lines, (text,), lines),
        old(e)@.terminal.log.len() + lines@.len() <= 500,
        0 <= i < lines@.len(),
    ensures
        r@.len() == 0,
        final(e)@.terminal.log.len() == old(e)@.terminal.log.len() + lines@.len(),
        final(e)@.terminal.log.take(old(e)@.terminal.log.len() as int) == old(e)@.terminal.log,
        final(e)@.terminal.log[old(e)@.terminal.log.len() + i] == (lines@[i]@, Tone::Plain),
{
    lemma_effects(r@);
    let ls = texts(lines@);
    lemma_with_lines(old(e)@.terminal, ls);
    assert(ls[i] == lines@[i]@);
    assert(final(e)@.terminal.log.take(old(e)@.terminal.log.len() as int)
        =~= old(e)@.terminal.log);
}

proof fn lemma_with_lines(t: TerminalView, lines: Seq<Seq<char>>)
    requires
        t.log.len() + lines.len() <= 500,
    ensures
        with_lines(t, lines).log.len() == t.log.len() + lines.len(),
        forall|i: int| 0 <= i < t.log.len() ==> with_lines(t, lines).log[i] == t.log[i],
        forall|i: int|
            t.log.len() <= i < t.log.len() + lines.len() ==> with_lines(t, lines).log[i] == (
                lines[i - t.log.len()],
                Tone::Plain,
            ),
    decreases lines.len(),
{
    if lines.len() > 0 {
        lemma_with_lines(t, lines.drop_last());
    }
}

/// Opening the terminal twice leaves it as it was.
pub proof fn terminal_opens_and_closes(e: &mut Explorer, f: &mut Explorer)
    requires
        call_ensures(Explorer::toggle_terminal, (e,), ()),
        *old(f) == *final(e),
        call_ensures(Explorer::toggle_terminal, (f,), ()),
    ensures
        final(e)@.terminal.open != old(e)@.terminal.open,
        final(f)@ == old(e)@,
{
}

/// The line of an entry shows what it is, its name, and its size at the right.
pub proof fn entries_are_shown(e: &Entry, s: String)
    requires
        call_ensures(entry_line, (e,), s),
    ensures
        e.is_dir ==> s@ == "·[DIR]·"@ + " "@ + e.name@ + "  "@ + blanks(7) + "<dir>"@,
        !e.is_dir && decimal(e.size as nat).len() <= 10 ==> s@ == "·"@ + " "@ + e.name@ + "  "@ + blanks(
            (10 - decimal(e.size as nat).len()) as nat,
        ) + decimal(e.size as nat) + " B"@,
        !e.is_dir && decimal(e.size as nat).len() >= 10 ==> s@ == "·"@ + " "@ + e.name@ + "  "@
            + decimal(e.size as nat) + " B"@,
{
    reveal_strlit("<dir>");
    reveal_strlit(" B");
    let d = decimal(e.size as nat);
    let size = if e.is_dir { "<dir>"@ } else { d + " B"@ };
    assert("<dir>"@.len() == 5 && " B"@.len() == 2);
    let head = (if e.is_dir { "·[DIR]·"@ } else { "·"@ }) + " "@ + e.name@ + "  "@;
    if e.is_dir {
        assert(s@ =~= head + blanks(7) + "<dir>"@);
    } else if d.len() <= 10 {
        let b = blanks((10 - d.len()) as nat);
        assert(right_aligned(size, 12) =~= b + (d + " B"@));
        assert(head + (b + (d + " B"@)) =~= head + b + d + " B"@);
        if d.len() == 10 {
            assert(b =~= Seq::empty());
            assert(head + b + d + " B"@ =~= head + d + " B"@);
        }
    } else {
        assert(s@ =~= head + d + " B"@);
    }
}

// ---------------------------------------------------------------- panes and rounds

/// A pane names its entries: by their place, by the selection, and in the remote
/// pane by their paths.
pub proof fn panes_name_their_entries(
    p: &Pane,
    i: usize,
    s: String,
    r: Option<(String, bool)>,
    name: &str,
    path: String,
    a: Pane,
    cwd: &str,
    b: Pane,
)
    requires
        call_ensures(Pane::entry_name, (p, i), s),
        call_ensures(Pane::selected_item, (p,), r),
        call_ensures(Pane::remote_path_for, (p, name), path),
        call_ensures(Pane::remote, (), a),
        call_ensures(Pane::local, (cwd,), b),
    ensures
        i < p@.entries.len() ==> s@ == p@.entries[i as int].name,
        i >= p@.entries.len() ==> s@.len() == 0,
        p@.selected == Some(i) && i < p@.entries.len() ==> (r matches Some(x) && x.0@
            == p@.entries[i as int].name && x.1 == p@.entries[i as int].is_dir),
        p@.selected is None || p@.selected == Some(i) && i >= p@.entries.len() ==> r is None,
        names_entry(path@, p@.remote_cwd, name@),
        a@.remote_cwd == seq!['.'] && a@.label == seq!['~'] && a@.entries.len() == 0
            && a@.history.len() == 0 && a@.selected is None,
        b@.local_cwd == cwd@ && b@.label == cwd@ && b@.entries.len() == 0 && b@.history.len() == 0
            && b@.selected is None,
{
    lemma_joined_path(p@.remote_cwd, name@);
    reveal_strlit(".");
    reveal_strlit("~");
    assert("."@ =~= seq!['.']);
    assert("~"@ =~= seq!['~']);
}

/// Local work that is done lists the local pane anew; work that failed is told.
pub proof fn local_work_is_told(
    e: &mut Explorer,
    what: &str,
    fault: Option<&str>,
    r: Vec<Effect>,
    f: &mut Explorer,
    text: String,
)
    requires
        call_ensures(Explorer::local_work_done, (e, what, fault), r),
        call_ensures(Explorer::tell, (f, text), ()),
    ensures
        fault is None ==> only(r@, EffectView::LoadLocal { dir: old(e)@.local.local_cwd })
            && final(e)@ == old(e)@,
        fault matches Some(m) ==> r@.len() == 0 && only_tells(old(e)@, final(e)@) && final(e)@.status
            == what@ + " failed: "@ + m@,
        only_tells(old(f)@, final(f)@),
        final(f)@.status == text@,
{
    lemma_effects(r@);
}

/// A pane goes to the directory that is named, and can be asked for its entries.
pub proof fn panes_go_where_they_are_sent(
    e: &mut Explorer,
    kind: PaneKind,
    label: String,
    r: Vec<Effect>,
    f: &mut Explorer,
    s: Vec<Effect>,
    g: &Explorer,
    p: &Pane,
)
    requires
        call_ensures(Explorer::navigate, (e, kind, label), r),
        call_ensures(Explorer::request_list, (f, kind), s),
        call_ensures(Explorer::pane, (g, kind), p),
    ensures
        went_to(old(e)@, final(e)@, kind, label@, r@),
        kind == PaneKind::Local ==> only(s@, EffectView::LoadLocal { dir: old(f)@.local.local_cwd }),
        kind == PaneKind::Remote && old(f)@.connected ==> only(
            s@,
            EffectView::ListDir { path: old(f)@.remote.remote_cwd },
        ) && final(f)@.remote.loading,
        kind == PaneKind::Remote && !old(f)@.connected ==> s@.len() == 0,
        kind == PaneKind::Remote ==> p@ == g@.remote,
        kind == PaneKind::Local ==> p@ == g@.local,
{
    lemma_effects(s@);
    lemma_navigated(old(e)@, kind, label@, final(e)@, r@);
}

/// The sources that wait go, each once, and none waits any longer; without any
/// nothing happens. Remote ones need a session.
pub proof fn waiting_sources_go(e: &mut Explorer, r: Vec<Effect>, s: SweepView, i: int)
    requires
        call_ensures(Explorer::apply_sweep, (e,), r),
    ensures
        old(e)@.sweep is None ==> final(e)@ == old(e)@ && r@.len() == 0,
        old(e)@.sweep is Some ==> final(e)@.sweep is None && final(e)@.status
            == "cut sources removed"@,
        old(e)@.sweep == Some(s) && old(e)@.connected ==> r@.len() == s.targets.len(),
        old(e)@.sweep == Some(s) && old(e)@.connected && 0 <= i < s.targets.len() ==> (
        s.targets[i] is Remote ==> r@[i]@ == (EffectView::Delete {
            path: s.targets[i]->path,
            recursive: true,
        })) && (s.targets[i] is Local ==> r@[i]@ == (EffectView::SweepLocal {
            place: s.targets[i]->place,
        })),
{
    lemma_effects(r@);
    if old(e)@.sweep == Some(s) && old(e)@.connected {
        every_source_goes(s.targets);
        if 0 <= i < s.targets.len() {
            let w = sweep_effects(true, s.targets);
            assert(Some(w[i]) == sweep_effect(true, s.targets[i]));
        }
    }
}

/// A removal that is confirmed removes what it was confirmed for.
pub proof fn confirmed_removals_are_done(e: &mut Explorer, action: ConfirmAction, r: Vec<Effect>)
    requires
        call_ensures(Explorer::run_confirm, (e, action), r),
        old(e)@.connected,
    ensures
        action matches ConfirmAction::DeleteRemote { path, is_dir } ==> r@.len() == 2 && r@[0]@ == (
        EffectView::Delete { path: path@, recursive: is_dir }) && r@[1]@ == (EffectView::ListDir {
            path: old(e)@.remote.remote_cwd,
        }),
        action matches ConfirmAction::DeleteLocal { place } ==> r@.len() == 2 && r@[0]@ == (
        EffectView::RemoveLocal { place: place@ }) && r@[1]@ == (EffectView::LoadLocal {
            dir: old(e)@.local.local_cwd,
        }),
{
    lemma_effects(r@);
}

/// The buttons do what they say.
pub proof fn buttons_do_what_they_say(
    e: &mut Explorer,
    g: Gesture,
    k: LocalFacts,
    r: Vec<Effect>,
    a: &mut Explorer,
    ra: Vec<Effect>,
    b: &mut Explorer,
    c: &mut Explorer,
    rc: Vec<Effect>,
    d: &mut Explorer,
    rd: Vec<Effect>,
    h: &mut Explorer,
    ok: bool,
    rh: Vec<Effect>,
)
    requires
        call_ensures(Explorer::update, (e, g, k), r),
        call_ensures(Explorer::disconnect, (a,), ra),
        call_ensures(Explorer::toggle_terminal, (b,), ()),
        call_ensures(Explorer::run_command, (c,), rc),
        call_ensures(Explorer::ask_connect, (d,), rd),
        call_ensures(Explorer::answer_modal, (h, ok), rh),
        old(a)@ == old(e)@,
        old(b)@ == old(e)@,
        old(c)@ == old(e)@,
        old(d)@ == old(e)@,
        old(h)@ == old(e)@,
    ensures
        g is Disconnect ==> final(e)@ == final(a)@ && effect_list(r@) == effect_list(ra@),
        g is ToggleTerminal ==> final(e)@ == final(b)@ && r@.len() == 0,
        g is RunCommand ==> final(e)@ == final(c)@ && effect_list(r@) == effect_list(rc@),
        g is AskConnect ==> final(e)@ == final(d)@ && effect_list(r@) == effect_list(rd@),
        g@ == (GestureView::Answer { ok }) ==> final(e)@ == final(h)@ && effect_list(r@)
            == effect_list(rh@),
{
    lemma_effects(r@);
}

/// Down- and uploading, pasting and the keys work on the focused pane, with what
/// the file system says of its files.
pub proof fn transfers_work_on_the_focused_pane(
    e: &mut Explorer,
    g: Gesture,
    k: LocalFacts,
    r: Vec<Effect>,
    a: &mut Explorer,
    ra: Vec<Effect>,
    b: &mut Explorer,
    shown: &str,
    rb: Vec<Effect>,
    c: &mut Explorer,
    files: &Vec<bool>,
    rc: Vec<Effect>,
    d: &mut Explorer,
    copy: bool,
    cut: bool,
    paste: bool,
    rd: Vec<Effect>,
)
    requires
        shown@ == k.shown@,
        files@ == k.files@,
        call_ensures(Explorer::update, (e, g, k), r),
        call_ensures(Explorer::pull_selected, (a,), ra),
        call_ensures(Explorer::push_selected, (b, k.is_file, shown), rb),
        call_ensures(Explorer::paste_to, (c, old(e)@.focused, files), rc),
        call_ensures(Explorer::handle_keyboard, (d, copy, cut, paste, files), rd),
        old(a)@ == old(e)@,
        old(b)@ == old(e)@,
        old(c)@ == old(e)@,
        old(d)@ == old(e)@,
    ensures
        g is Pull ==> final(e)@ == final(a)@ && effect_list(r@) == effect_list(ra@),
        g is Push ==> final(e)@ == final(b)@ && effect_list(r@) == effect_list(rb@),
        g is Paste ==> final(e)@ == final(c)@ && effect_list(r@) == effect_list(rc@),
        g@ == (GestureView::Keys { copy, cut, paste }) ==> final(e)@ == final(d)@ && effect_list(r@)
            == effect_list(rd@),
{
}

/// What is done in a pane, dropped or let go is done as by itself.
pub proof fn gestures_in_panes_are_done(
    e: &mut Explorer,
    g: Gesture,
    k: LocalFacts,
    r: Vec<Effect>,
    a: &mut Explorer,
    op: Op,
    home: &str,
    inside: &str,
    ra: Vec<Effect>,
    b: &mut Explorer,
    files: &Vec<Place>,
    over_local: bool,
    rb: Vec<Effect>,
    c: &mut Explorer,
    over: Option<PaneKind>,
    rc: Vec<Effect>,
)
    requires
        home@ == k.home@,
        inside@ == k.inside@,
        call_ensures(Explorer::update, (e, g, k), r),
        call_ensures(Explorer::handle_op, (a, op, k.parent, home, inside), ra),
        call_ensures(Explorer::handle_dropped_files, (b, files, over_local), rb),
        call_ensures(Explorer::handle_dnd, (c, over, k.is_file), rc),
        old(a)@ == old(e)@,
        old(b)@ == old(e)@,
        old(c)@ == old(e)@,
    ensures
        g@ == (GestureView::Act { op }) ==> final(e)@ == final(a)@ && effect_list(r@)
            == effect_list(ra@),
        g@ == (GestureView::DropFiles { files: place_list(files@), over_local }) ==> final(e)@
            == final(b)@ && effect_list(r@) == effect_list(rb@),
        g@ == (GestureView::LetGo { over }) ==> final(e)@ == final(c)@ && effect_list(r@)
            == effect_list(rc@),
{
}

/// A gesture, where it was made.
#[verifier::opaque]
pub open spec fn where_made(made: bool, g: GestureView) -> Seq<GestureView> {
    if made { seq![g] } else { Seq::empty() }
}

/// In a round the buttons come first, then what was done in the local pane and
/// in the remote one, then the buttons of the focused pane, and last what was
/// dropped, let go and typed.
pub proof fn rounds_have_an_order(w: Round, v: Vec<Gesture>)
    requires
        call_ensures(Round::gestures, (w,), v),
    ensures
        v@.map_values(|g: Gesture| g@) == (where_made(w.disconnect, GestureView::Disconnect)
            + where_made(w.terminal, GestureView::ToggleTerminal) + where_made(
            w.run,
            GestureView::RunCommand,
        ) + where_made(w.connect, GestureView::AskConnect) + where_made(w.pull, GestureView::Pull)
            + where_made(w.push, GestureView::Push) + where_made(w.paste, GestureView::Paste)) + (
        w.local_ops@.map_values(|op: Op| GestureView::Act { op }) + w.remote_ops@.map_values(
            |op: Op| GestureView::Act { op },
        ) + where_made(w.cut, GestureView::Act { op: Op::CutClip(w.focused) }) + where_made(
            w.copy,
            GestureView::Act { op: Op::CopyClip(w.focused) },
        ) + where_made(w.folder, GestureView::Act { op: Op::NewFolder(w.focused) })) + (where_made(
            w.files@.len() > 0,
            GestureView::DropFiles { files: place_list(w.files@), over_local: w.over_local },
        ) + where_made(w.released, GestureView::LetGo { over: w.over }) + where_made(
            w.copy_key || w.cut_key || w.paste_key,
            GestureView::Keys { copy: w.copy_key, cut: w.cut_key, paste: w.paste_key },
        )),
{
    let focused = w.focused;
    lemma_where_made(w.disconnect, GestureView::Disconnect);
    lemma_where_made(w.terminal, GestureView::ToggleTerminal);
    lemma_where_made(w.run, GestureView::RunCommand);
    lemma_where_made(w.connect, GestureView::AskConnect);
    lemma_where_made(w.pull, GestureView::Pull);
    lemma_where_made(w.push, GestureView::Push);
    lemma_where_made(w.paste, GestureView::Paste);
    lemma_where_made(w.cut, GestureView::Act { op: Op::CutClip(focused) });
    lemma_where_made(w.copy, GestureView::Act { op: Op::CopyClip(focused) });
    lemma_where_made(w.folder, GestureView::Act { op: Op::NewFolder(focused) });
    let files = place_list(w.files@);
    assert(files.len() == w.files@.len());
    lemma_where_made(
        w.files@.len() > 0,
        GestureView::DropFiles { files, over_local: w.over_local },
    );
    lemma_where_made(w.released, GestureView::LetGo { over: w.over });
    lemma_where_made(
        w.copy_key || w.cut_key || w.paste_key,
        GestureView::Keys { copy: w.copy_key, cut: w.cut_key, paste: w.paste_key },
    );
}

proof fn lemma_where_made(made: bool, g: GestureView)
    ensures
        if_made(made, g) == where_made(made, g),
{
    reveal(if_made);
    reveal(where_made);
}

/// The session's events are taken in their order, each as by itself; without a
/// session there are none.
pub proof fn events_are_taken_in_order(
    e: &mut Explorer,
    events: Vec<GuiEvent>,
    r: Vec<Effect>,
    f: &mut Explorer,
    ev: GuiEvent,
    s: Vec<Effect>,
    g: &mut Explorer,
    ev2: GuiEvent,
    t: Vec<Effect>,
)
    requires
        call_ensures(Explorer::poll_events, (e, events), r),
        call_ensures(Explorer::on_event, (f, ev), s),
        *old(g) == *final(f),
        call_ensures(Explorer::on_event, (g, ev2), t),
        old(f)@ == old(e)@,
    ensures
        !old(e)@.connected ==> final(e)@ == old(e)@ && r@.len() == 0,
        events@.len() == 0 ==> final(e)@ == old(e)@ && r@.len() == 0,
        old(e)@.connected && events@ == seq![ev] ==> final(e)@ == final(f)@ && effect_list(r@)
            == effect_list(s@),
        old(e)@.connected && events@ == seq![ev, ev2] ==> final(e)@ == final(g)@ && effect_list(r@)
            == effect_list(s@) + effect_list(t@),
{
    lemma_effects(r@);
    reveal_with_fuel(events_taken, 3);
    let vs = event_list(events@);
    assert(Seq::<EffectView>::empty() + effect_list(s@) =~= effect_list(s@));
    if events@ == seq![ev] {
        assert(vs.drop_last() =~= Seq::empty());
        assert(vs.last() == ev@);
    }
    if events@ == seq![ev, ev2] {
        assert(vs.drop_last() =~= seq![ev@]);
        assert(vs.drop_last().drop_last() =~= Seq::empty());
        assert(vs.last() == ev2@);
        assert(vs.drop_last().last() == ev@);
    }
}

} // verus!
