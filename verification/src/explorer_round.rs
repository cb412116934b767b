//! One round of the explorer's window: the events that came from the session,
//! then what the user did, in the order in which it is handled.
//!
//! A listing or the end of an attempt to connect comes back between two gestures
//! of one round, so each gesture is a step of its own.

use crate::explorer::{
    ClipItemView, ClipView, Effect, EffectView, Explorer, ExplorerView, GuiEvent, GuiEventView,
    Op, PaneKind, Place, PlaceView, Step, TerminalView, and_then, both, command_run,
    connect_asked, disconnected, drag_released, drop_effects, dropped, effect_list, event_step,
    keys_pressed, modal_answered, op_step, paste_effects, pasted, place_list, pulled, pushed_up,
};
use crate::text::owned_opt;
use vstd::prelude::*;
use vstd::string::*;

verus! {

// ---------------------------------------------------------------- model

/// Something that the user did.
pub enum GestureView {
    Disconnect,
    ToggleTerminal,
    RunCommand,
    AskConnect,
    Pull,
    Push,
    Paste,
    Act { op: Op },
    DropFiles { files: Seq<PlaceView>, over_local: bool },
    LetGo { over: Option<PaneKind> },
    Keys { copy: bool, cut: bool, paste: bool },
    Answer { ok: bool },
}

/// What was pressed, dropped and let go in one round. `focused` is the pane that
/// had the focus when the round's window was drawn.
pub struct RoundView {
    pub disconnect: bool,
    pub terminal: bool,
    pub run: bool,
    pub connect: bool,
    pub pull: bool,
    pub push: bool,
    pub paste: bool,
    pub local_ops: Seq<Op>,
    pub remote_ops: Seq<Op>,
    pub focused: PaneKind,
    pub cut: bool,
    pub copy: bool,
    pub folder: bool,
    pub files: Seq<PlaceView>,
    pub over_local: bool,
    pub released: bool,
    pub over: Option<PaneKind>,
    pub copy_key: bool,
    pub cut_key: bool,
    pub paste_key: bool,
}

/// What the local file system says at a step: the directory above the local one
/// and the user's own, the directory that an entry of the local pane is, how the
/// selected entry's path is shown, whether the selected or dragged entry is a
/// file, and of each item of the clipboard whether it is one.
pub struct FactsView {
    pub parent: Option<Seq<char>>,
    pub home: Seq<char>,
    pub inside: Seq<char>,
    pub shown: Seq<char>,
    pub is_file: bool,
    pub files: Seq<bool>,
}

/// A gesture, if it was made.
#[verifier::opaque]
pub open spec fn if_made(made: bool, g: GestureView) -> Seq<GestureView> {
    if made {
        seq![g]
    } else {
        Seq::empty()
    }
}

/// What the user did in a pane, as gestures.
pub open spec fn acts(ops: Seq<Op>) -> Seq<GestureView> {
    ops.map_values(|op: Op| GestureView::Act { op })
}

/// The buttons that were pressed, in the order in which they are handled.
pub open spec fn button_gestures(r: RoundView) -> Seq<GestureView> {
    if_made(r.disconnect, GestureView::Disconnect)
        + if_made(r.terminal, GestureView::ToggleTerminal)
        + if_made(r.run, GestureView::RunCommand)
        + if_made(r.connect, GestureView::AskConnect)
        + if_made(r.pull, GestureView::Pull)
        + if_made(r.push, GestureView::Push)
        + if_made(r.paste, GestureView::Paste)
}

/// What was done in the panes, and then by the buttons that do the same in the
/// focused pane.
pub open spec fn pane_gestures(r: RoundView) -> Seq<GestureView> {
    acts(r.local_ops)
        + acts(r.remote_ops)
        + if_made(r.cut, GestureView::Act { op: Op::CutClip(r.focused) })
        + if_made(r.copy, GestureView::Act { op: Op::CopyClip(r.focused) })
        + if_made(r.folder, GestureView::Act { op: Op::NewFolder(r.focused) })
}

/// What was dropped and let go, and then the keys.
pub open spec fn pointer_gestures(r: RoundView) -> Seq<GestureView> {
    if_made(
        r.files.len() > 0,
        GestureView::DropFiles { files: r.files, over_local: r.over_local },
    ) + if_made(r.released, GestureView::LetGo { over: r.over })
        + if_made(
        r.copy_key || r.cut_key || r.paste_key,
        GestureView::Keys { copy: r.copy_key, cut: r.cut_key, paste: r.paste_key },
    )
}

/// The gestures of a round, in the order in which they are handled.
pub open spec fn round_gestures(r: RoundView) -> Seq<GestureView> {
    button_gestures(r) + pane_gestures(r) + pointer_gestures(r)
}

/// What a gesture does.
pub open spec fn gesture_step(e: ExplorerView, g: GestureView, k: FactsView) -> Step {
    match g {
        GestureView::Disconnect => disconnected(e),
        GestureView::ToggleTerminal => (
            ExplorerView {
                terminal: TerminalView { open: !e.terminal.open, ..e.terminal },
                ..e
            },
            Seq::empty(),
        ),
        GestureView::RunCommand => command_run(e),
        GestureView::AskConnect => connect_asked(e),
        GestureView::Pull => match e.pane(e.focused).selected_item() {
            Some((name, is_dir)) => pulled(e, name, is_dir),
            None => (e, Seq::empty()),
        },
        GestureView::Push => match e.pane(e.focused).selected_item() {
            Some((name, is_dir)) => pushed_up(e, name, is_dir, k.is_file, k.shown),
            None => (e, Seq::empty()),
        },
        GestureView::Paste => pasted(e, e.focused, k.files),
        GestureView::Act { op } => op_step(e, op, k.parent, k.home, k.inside),
        GestureView::DropFiles { files, over_local } => dropped(e, files, over_local),
        GestureView::LetGo { over } => drag_released(e, over, k.is_file),
        GestureView::Keys { copy, cut, paste } => keys_pressed(e, copy, cut, paste, k.files),
        GestureView::Answer { ok } => modal_answered(e, ok),
    }
}

/// Events of the session, one after the other.
pub open spec fn events_taken(e: ExplorerView, events: Seq<GuiEventView>) -> Step
    decreases events.len(),
{
    if events.len() == 0 {
        (e, Seq::empty())
    } else {
        let before = events_taken(e, events.drop_last());
        and_then(before, event_step(before.0, events.last()))
    }
}

/// The session's events at the start of a round; without a session there are
/// none.
pub open spec fn polled(e: ExplorerView, events: Seq<GuiEventView>) -> Step {
    if e.connected {
        events_taken(e, events)
    } else {
        (e, Seq::empty())
    }
}

// ---------------------------------------------------------------- execution

/// Something that the user did.
pub enum Gesture {
    Disconnect,
    ToggleTerminal,
    RunCommand,
    AskConnect,
    Pull,
    Push,
    Paste,
    Act { op: Op },
    DropFiles { files: Vec<Place>, over_local: bool },
    LetGo { over: Option<PaneKind> },
    Keys { copy: bool, cut: bool, paste: bool },
    Answer { ok: bool },
}

impl View for Gesture {
    type V = GestureView;

    open spec fn view(&self) -> GestureView {
        match self {
            Gesture::Disconnect => GestureView::Disconnect,
            Gesture::ToggleTerminal => GestureView::ToggleTerminal,
            Gesture::RunCommand => GestureView::RunCommand,
            Gesture::AskConnect => GestureView::AskConnect,
            Gesture::Pull => GestureView::Pull,
            Gesture::Push => GestureView::Push,
            Gesture::Paste => GestureView::Paste,
            Gesture::Act { op } => GestureView::Act { op: *op },
            Gesture::DropFiles { files, over_local } => GestureView::DropFiles {
                files: place_list(files@),
                over_local: *over_local,
            },
            Gesture::LetGo { over } => GestureView::LetGo { over: *over },
            Gesture::Keys { copy, cut, paste } => GestureView::Keys {
                copy: *copy,
                cut: *cut,
                paste: *paste,
            },
            Gesture::Answer { ok } => GestureView::Answer { ok: *ok },
        }
    }
}

/// Gestures as their views.
pub open spec fn gesture_list(v: Seq<Gesture>) -> Seq<GestureView> {
    v.map_values(|g: Gesture| g@)
}

/// What was pressed, dropped and let go in one round.
pub struct Round {
    pub disconnect: bool,
    pub terminal: bool,
    pub run: bool,
    pub connect: bool,
    pub pull: bool,
    pub push: bool,
    pub paste: bool,
    pub local_ops: Vec<Op>,
    pub remote_ops: Vec<Op>,
    pub focused: PaneKind,
    pub cut: bool,
    pub copy: bool,
    pub folder: bool,
    pub files: Vec<Place>,
    pub over_local: bool,
    pub released: bool,
    pub over: Option<PaneKind>,
    pub copy_key: bool,
    pub cut_key: bool,
    pub paste_key: bool,
}

impl View for Round {
    type V = RoundView;

    open spec fn view(&self) -> RoundView {
        RoundView {
            disconnect: self.disconnect,
            terminal: self.terminal,
            run: self.run,
            connect: self.connect,
            pull: self.pull,
            push: self.push,
            paste: self.paste,
            local_ops: self.local_ops@,
            remote_ops: self.remote_ops@,
            focused: self.focused,
            cut: self.cut,
            copy: self.copy,
            folder: self.folder,
            files: place_list(self.files@),
            over_local: self.over_local,
            released: self.released,
            over: self.over,
            copy_key: self.copy_key,
            cut_key: self.cut_key,
            paste_key: self.paste_key,
        }
    }
}

/// What the local file system says at a step.
pub struct LocalFacts {
    pub parent: Option<String>,
    pub home: String,
    pub inside: String,
    pub shown: String,
    pub is_file: bool,
    pub files: Vec<bool>,
}

impl View for LocalFacts {
    type V = FactsView;

    open spec fn view(&self) -> FactsView {
        FactsView {
            parent: owned_opt(self.parent),
            home: self.home@,
            inside: self.inside@,
            shown: self.shown@,
            is_file: self.is_file,
            files: self.files@,
        }
    }
}

/// Events as their views.
pub open spec fn event_list(v: Seq<GuiEvent>) -> Seq<GuiEventView> {
    v.map_values(|ev: GuiEvent| ev@)
}

fn push_if(v: &mut Vec<Gesture>, made: bool, g: Gesture)
    ensures
        gesture_list(final(v)@) == gesture_list(old(v)@) + if_made(made, g@),
{
    let ghost (before, gv) = (v@, g@);
    if made {
        v.push(g);
    }
    proof {
        reveal(if_made);
    }
    assert(gesture_list(v@) =~= gesture_list(before) + if_made(made, gv));
}

fn push_acts(v: &mut Vec<Gesture>, ops: &Vec<Op>)
    ensures
        gesture_list(final(v)@) == gesture_list(old(v)@) + acts(ops@),
{
    let ghost before = gesture_list(v@);
    let mut i: usize = 0;
    assert(gesture_list(v@) =~= before + acts(ops@.take(0)));
    while i < ops.len()
        invariant
            i <= ops@.len(),
            gesture_list(v@) == before + acts(ops@.take(i as int)),
        decreases ops@.len() - i,
    {
        push_if(v, true, Gesture::Act { op: ops[i] });
        proof {
            reveal(if_made);
        }
        assert(acts(ops@.take(i + 1)) =~= acts(ops@.take(i as int)).push(
            GestureView::Act { op: ops@[i as int] },
        ));
        assert(gesture_list(v@) =~= before + acts(ops@.take(i + 1)));
        i += 1;
    }
    assert(ops@.take(i as int) =~= ops@);
}

impl Round {
    fn buttons(&self) -> (v: Vec<Gesture>)
        ensures
            gesture_list(v@) == button_gestures(self@),
    {
        let mut v: Vec<Gesture> = Vec::new();
        push_if(&mut v, self.disconnect, Gesture::Disconnect);
        assert(gesture_list(v@) =~= if_made(self.disconnect, GestureView::Disconnect));
        push_if(&mut v, self.terminal, Gesture::ToggleTerminal);
        push_if(&mut v, self.run, Gesture::RunCommand);
        push_if(&mut v, self.connect, Gesture::AskConnect);
        push_if(&mut v, self.pull, Gesture::Pull);
        push_if(&mut v, self.push, Gesture::Push);
        push_if(&mut v, self.paste, Gesture::Paste);
        v
    }

    fn in_panes(&self) -> (v: Vec<Gesture>)
        ensures
            gesture_list(v@) == pane_gestures(self@),
    {
        let mut v: Vec<Gesture> = Vec::new();
        push_acts(&mut v, &self.local_ops);
        assert(gesture_list(v@) =~= acts(self.local_ops@));
        push_acts(&mut v, &self.remote_ops);
        push_if(&mut v, self.cut, Gesture::Act { op: Op::CutClip(self.focused) });
        push_if(&mut v, self.copy, Gesture::Act { op: Op::CopyClip(self.focused) });
        push_if(&mut v, self.folder, Gesture::Act { op: Op::NewFolder(self.focused) });
        v
    }

    fn by_pointer(self) -> (v: Vec<Gesture>)
        ensures
            gesture_list(v@) == pointer_gestures(self@),
    {
        let mut v: Vec<Gesture> = Vec::new();
        let made = self.files.len() > 0;
        let (files, over_local) = (self.files, self.over_local);
        let ghost first = GestureView::DropFiles { files: place_list(files@), over_local };
        push_if(&mut v, made, Gesture::DropFiles { files, over_local });
        assert(gesture_list(v@) =~= if_made(made, first));
        push_if(&mut v, self.released, Gesture::LetGo { over: self.over });
        let (copy, cut, paste) = (self.copy_key, self.cut_key, self.paste_key);
        push_if(&mut v, copy || cut || paste, Gesture::Keys { copy, cut, paste });
        v
    }

    /// The gestures of the round, in the order in which they are to be handled.
    pub fn gestures(self) -> (v: Vec<Gesture>)
        ensures
            gesture_list(v@) == round_gestures(self@),
    {
        let mut v = self.buttons();
        let ghost first = v@;
        let mut second = self.in_panes();
        let ghost next = second@;
        v.append(&mut second);
        assert(gesture_list(v@) =~= gesture_list(first) + gesture_list(next));
        let mut third = self.by_pointer();
        let ghost (before, last) = (v@, third@);
        v.append(&mut third);
        assert(gesture_list(v@) =~= gesture_list(before) + gesture_list(last));
        v
    }
}

impl Explorer {
    /// Does one gesture of a round. `facts` is what the local file system says
    /// at that step.
    pub fn update(&mut self, g: Gesture, facts: LocalFacts) -> (r: Vec<Effect>)
        ensures
            (final(self)@, effect_list(r@)) == gesture_step(old(self)@, g@, facts@),
    {
        match g {
            Gesture::Disconnect => self.disconnect(),
            Gesture::ToggleTerminal => {
                self.toggle_terminal();
                let v: Vec<Effect> = Vec::new();
                assert(effect_list(v@) =~= Seq::<EffectView>::empty());
                v
            },
            Gesture::RunCommand => self.run_command(),
            Gesture::AskConnect => self.ask_connect(),
            Gesture::Pull => self.pull_selected(),
            Gesture::Push => self.push_selected(facts.is_file, &facts.shown),
            Gesture::Paste => self.paste_to(self.focused, &facts.files),
            Gesture::Act { op } => self.handle_op(op, facts.parent, &facts.home, &facts.inside),
            Gesture::DropFiles { files, over_local } => self.handle_dropped_files(
                &files,
                over_local,
            ),
            Gesture::LetGo { over } => self.handle_dnd(over, facts.is_file),
            Gesture::Keys { copy, cut, paste } => self.handle_keyboard(
                copy,
                cut,
                paste,
                &facts.files,
            ),
            Gesture::Answer { ok } => self.answer_modal(ok),
        }
    }

    /// Takes the session's events at the start of a round.
    pub fn poll_events(&mut self, events: Vec<GuiEvent>) -> (r: Vec<Effect>)
        ensures
            (final(self)@, effect_list(r@)) == polled(old(self)@, event_list(events@)),
    {
        let mut work: Vec<Effect> = Vec::new();
        assert(effect_list(work@) =~= Seq::<EffectView>::empty());
        if !self.connected {
            return work;
        }
        let ghost all = events@;
        let ghost views = event_list(all);
        let ghost e = self@;
        for ev in it: events
            invariant
                it.seq() == all,
                views == event_list(all),
                (self@, effect_list(work@)) == events_taken(e, views.take(it.index())),
        {
            let ghost i = it.index();
            assert(views.take(i + 1).drop_last() =~= views.take(i));
            assert(views.take(i + 1).last() == all[i]@);
            let more = self.on_event(ev);
            work = both(work, more);
        }
        assert(views.take(all.len() as int) =~= views);
        work
    }
}

// ---------------------------------------------------------------- laws

/// The effect is a request of the session.
pub open spec fn asks_host(f: EffectView) -> bool {
    f is ListDir || f is Get || f is Put || f is Copy || f is Delete || f is CreateDir || f is Rename
        || f is Exec
}

/// Without a session no gesture asks anything of a host, and none makes a
/// session: that takes the end of an attempt to connect.
pub proof fn nothing_is_asked_without_a_session(e: ExplorerView, g: GestureView, k: FactsView)
    requires
        !e.connected,
    ensures
        !gesture_step(e, g, k).0.connected,
        forall|i: int|
            0 <= i < gesture_step(e, g, k).1.len() ==> !asks_host(
                #[trigger] gesture_step(e, g, k).1[i],
            ),
{
    match g {
        GestureView::Paste => {
            lemma_pasted_without_session(e, e.focused, k.files);
        },
        GestureView::Keys { copy, cut, paste } => {
            lemma_pasted_without_session(e, e.focused, k.files);
        },
        GestureView::DropFiles { files, over_local } => {
            lemma_dropped_without_session(e, files, over_local);
        },
        GestureView::Act { op } => {
            lemma_act_without_session(e, op, k);
        },
        GestureView::Answer { ok } => {
            lemma_answer_without_session(e, ok);
        },
        _ => {},
    }
}

/// The step asks nothing of a host and makes no session.
spec fn stays_local(step: Step) -> bool {
    &&& !step.0.connected
    &&& forall|i: int| 0 <= i < step.1.len() ==> !asks_host(#[trigger] step.1[i])
}

proof fn lemma_pasted_without_session(e: ExplorerView, to: PaneKind, files: Seq<bool>)
    requires
        !e.connected,
    ensures
        stays_local(pasted(e, to, files)),
{
    if let Some(clip) = e.clipboard {
        lemma_paste_without_session(e, clip, clip.items, to, files);
        let work = pasted(e, to, files).1;
        let first = paste_effects(e, clip, clip.items, to, files).0;
        assert forall|i: int| 0 <= i < work.len() implies !asks_host(#[trigger] work[i]) by {
            if i < first.len() {
                assert(work[i] == first[i]);
            }
        }
    }
}

proof fn lemma_dropped_without_session(e: ExplorerView, files: Seq<PlaceView>, over_local: bool)
    requires
        !e.connected,
    ensures
        stays_local(dropped(e, files, over_local)),
{
    lemma_local_drops(e, files);
    let work = dropped(e, files, over_local).1;
    let first = drop_effects(e, files, true);
    assert forall|i: int| 0 <= i < work.len() implies !asks_host(#[trigger] work[i]) by {
        if i < first.len() {
            assert(work[i] == first[i]);
        }
    }
}

proof fn lemma_act_without_session(e: ExplorerView, op: Op, k: FactsView)
    requires
        !e.connected,
    ensures
        stays_local(op_step(e, op, k.parent, k.home, k.inside)),
{
}

proof fn lemma_answer_without_session(e: ExplorerView, ok: bool)
    requires
        !e.connected,
    ensures
        stays_local(modal_answered(e, ok)),
{
}

proof fn lemma_paste_without_session(
    e: ExplorerView,
    clip: ClipView,
    items: Seq<ClipItemView>,
    to: PaneKind,
    files: Seq<bool>,
)
    requires
        !e.connected,
    ensures
        forall|i: int|
            0 <= i < paste_effects(e, clip, items, to, files).0.len() ==> !asks_host(
                #[trigger] paste_effects(e, clip, items, to, files).0[i],
            ),
    decreases items.len(),
{
    if items.len() > 0 {
        lemma_paste_without_session(e, clip, items.drop_last(), to, files);
        let before = paste_effects(e, clip, items.drop_last(), to, files).0;
        let all = paste_effects(e, clip, items, to, files).0;
        assert forall|i: int| 0 <= i < all.len() implies !asks_host(#[trigger] all[i]) by {
            if i < before.len() {
                assert(all[i] == before[i]);
            }
        }
    }
}

proof fn lemma_local_drops(e: ExplorerView, files: Seq<PlaceView>)
    ensures
        forall|i: int|
            0 <= i < drop_effects(e, files, true).len() ==> #[trigger] drop_effects(
                e,
                files,
                true,
            )[i] is CopyLocal,
    decreases files.len(),
{
    if files.len() > 0 {
        lemma_local_drops(e, files.drop_last());
        let before = drop_effects(e, files.drop_last(), true);
        let all = drop_effects(e, files, true);
        assert forall|i: int| 0 <= i < all.len() implies #[trigger] all[i] is CopyLocal by {
            if i < before.len() {
                assert(all[i] == before[i]);
            }
        }
    }
}

/// Where the user disconnects in a round, that is done first, and from then on
/// there is no session.
pub proof fn disconnecting_comes_first(r: RoundView, e: ExplorerView, k: FactsView)
    requires
        r.disconnect,
    ensures
        round_gestures(r).len() > 0,
        round_gestures(r)[0] == GestureView::Disconnect,
        !gesture_step(e, round_gestures(r)[0], k).0.connected,
{
    let first = if_made(r.disconnect, GestureView::Disconnect);
    assert(first == seq![GestureView::Disconnect]) by {
        reveal(if_made);
    }
}

} // verus!
