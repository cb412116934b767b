//! What is kept of a session over a broken data link: the ticket, whether input
//! is captured, and how far each transfer has come.

use crate::text::{chars_of, find_from, first_at, has_part, lemma_first_at, stands_at, text_of};
use crate::transfer::{ActiveView, GetView, Outcome, PutView, TransfersView, label_of};
use vstd::prelude::*;
use vstd::string::*;

verus! {

// ---------------------------------------------------------------- model

/// What is kept of a transfer.
pub struct KeptView {
    pub id: u32,
    pub label: Seq<char>,
    pub is_get: bool,
    pub remote: Seq<char>,
    pub local: Seq<char>,
    pub offset: u64,
    pub size: u64,
    pub expect_sha: Seq<char>,
    pub written: u64,
}

/// The part of a label before its first arrow.
pub open spec fn before_arrow(label: Seq<char>) -> Seq<char> {
    match first_at(label, " -> "@, 0) {
        Some(i) => label.take(i),
        None => label,
    }
}

/// The part of a label between its first arrow and its second.
pub open spec fn after_arrow(label: Seq<char>) -> Seq<char> {
    match first_at(label, " -> "@, 0) {
        Some(i) => before_arrow(label.skip(i + 4)),
        None => Seq::empty(),
    }
}

/// What is kept of a transfer.
pub open spec fn kept_of(id: u32, a: ActiveView) -> KeptView {
    match a {
        ActiveView::Get { label, get } => KeptView {
            id,
            label,
            is_get: true,
            remote: before_arrow(label),
            local: get.local,
            offset: get.written,
            size: get.size,
            expect_sha: get.expect_sha,
            written: get.written,
        },
        ActiveView::Put { label, put } => KeptView {
            id,
            label,
            is_get: false,
            remote: after_arrow(label),
            local: put.path,
            offset: put.next_offset,
            size: put.size,
            expect_sha: Seq::empty(),
            written: put.next_offset,
        },
    }
}

/// The transfer that is taken up again. A download that has bytes hashes them
/// anew when its file is opened.
pub open spec fn resumed_of(k: KeptView) -> ActiveView {
    if k.is_get {
        ActiveView::Get {
            label: k.label,
            get: GetView {
                local: k.local,
                open: false,
                written: k.written,
                size: k.size,
                expect_sha: k.expect_sha,
                hashed: Seq::empty(),
                seeded: k.written == 0,
                last_pct: -1,
            },
        }
    } else {
        ActiveView::Put {
            label: k.label,
            put: PutView {
                path: k.local,
                streaming: false,
                next_offset: k.offset,
                size: k.size,
                awaiting_done: false,
                last_pct: 0,
            },
        }
    }
}

/// The transfers that are taken up again, in the order in which they were kept.
pub open spec fn resumed(kept: Seq<KeptView>) -> TransfersView
    decreases kept.len(),
{
    if kept.len() == 0 {
        TransfersView { map: Map::empty(), next_id: 1, outcome: Outcome::Running }
    } else {
        let t = resumed(kept.drop_last());
        let k = kept.last();
        TransfersView {
            map: t.map.insert(k.id, resumed_of(k)),
            next_id: if k.id + 1 > t.next_id { (k.id + 1) as u32 } else { t.next_id },
            outcome: t.outcome,
        }
    }
}

/// A transfer that was kept goes on where it was: under its name, on its file,
/// with its size and digest, from the byte that it had reached.
pub proof fn kept_transfer_goes_on(id: u32, a: ActiveView)
    ensures
        match (a, resumed_of(kept_of(id, a))) {
            (ActiveView::Get { label, get }, ActiveView::Get { label: l2, get: g2 }) => l2 == label
                && g2.local == get.local && g2.written == get.written && g2.size == get.size
                && g2.expect_sha == get.expect_sha && (g2.seeded ==> g2.written == 0) && !g2.open,
            (ActiveView::Put { label, put }, ActiveView::Put { label: l2, put: p2 }) => l2 == label
                && p2.path == put.path && p2.next_offset == put.next_offset && p2.size == put.size
                && !p2.streaming && !p2.awaiting_done,
            _ => false,
        },
{
}

/// What a transfer is called tells what is at its ends: the label of a download
/// gives back the remote name, that of an upload too, unless the names
/// themselves hold an arrow.
pub proof fn label_tells_remote(from: Seq<char>, to: Seq<char>)
    requires
        forall|j: int| 0 <= j < from.len() ==> !#[trigger] stands_at(label_of(from, to), " -> "@, j),
        !has_part(to, " -> "@),
    ensures
        before_arrow(label_of(from, to)) == from,
        after_arrow(label_of(from, to)) == to,
{
    let arrow = " -> "@;
    reveal_strlit(" -> ");
    let l = label_of(from, to);
    let n = from.len() as int;
    assert(l.subrange(n, n + 4) =~= arrow);
    assert(stands_at(l, arrow, n));
    lemma_first_at(l, arrow, 0);
    assert(first_at(l, arrow, 0) == Some(n));
    assert(l.take(n) =~= from);
    assert(l.skip(n + 4) =~= to);
    lemma_first_at(to, arrow, 0);
}

// ---------------------------------------------------------------- execution

/// What is kept of a transfer.
pub struct TransferState {
    pub id: u32,
    pub label: String,
    pub is_get: bool,
    pub remote: String,
    pub local: String,
    pub offset: u64,
    pub size: u64,
    pub expect_sha: String,
    pub written: u64,
}

impl View for TransferState {
    type V = KeptView;

    open spec fn view(&self) -> KeptView {
        KeptView {
            id: self.id,
            label: self.label@,
            is_get: self.is_get,
            remote: self.remote@,
            local: self.local@,
            offset: self.offset,
            size: self.size,
            expect_sha: self.expect_sha@,
            written: self.written,
        }
    }
}

/// What is kept of a session.
pub struct SessionState {
    pub user: String,
    pub ip: String,
    pub session_key: String,
    pub data_port: String,
    pub input_running: bool,
    pub transfers: Vec<TransferState>,
}

impl SessionState {
    /// A session at its start: no input captured, no transfers.
    pub fn new(user: String, ip: String, session_key: String, data_port: String) -> (s: Self)
        ensures
            s.user == user,
            s.ip == ip,
            s.session_key == session_key,
            s.data_port == data_port,
            !s.input_running,
            s.transfers@.len() == 0,
    {
        SessionState {
            user,
            ip,
            session_key,
            data_port,
            input_running: false,
            transfers: Vec::new(),
        }
    }
}

/// What is kept of several transfers.
pub open spec fn kept_list(v: Seq<TransferState>) -> Seq<KeptView> {
    v.map_values(|s: TransferState| s@)
}

fn arrow_cut(v: &Vec<char>, from: usize) -> (r: usize)
    requires
        from <= v@.len(),
    ensures
        from <= r <= v@.len(),
        before_arrow(v@.skip(from as int)) == v@.subrange(from as int, r as int),
        first_at(v@.skip(from as int), " -> "@, 0) == (if r < v@.len() || first_at(
            v@.skip(from as int),
            " -> "@,
            0,
        ) is Some {
            Some(r - from)
        } else {
            None
        }),
        r < v@.len() ==> r + 4 <= v@.len(),
{
    let t = text_of(v, from, v.len());
    let w = chars_of(&t);
    let p = chars_of(" -> ");
    proof {
        reveal_strlit(" -> ");
        assert(v@.subrange(from as int, v@.len() as int) =~= v@.skip(from as int));
    }
    let ghost s = v@.skip(from as int);
    let n: usize = v.len();
    match find_from(&w, &p, 0) {
        Some(i) => {
            assert(s.take(i as int) =~= v@.subrange(from as int, from + i));
            from + i
        },
        None => {
            assert(s =~= v@.subrange(from as int, n as int));
            n
        },
    }
}

/// The part of a label before its first arrow.
pub fn label_start(label: &str) -> (s: String)
    ensures
        s@ == before_arrow(label@),
{
    let v = chars_of(label);
    let r: usize = arrow_cut(&v, 0);
    assert(v@.skip(0) =~= v@);
    text_of(&v, 0, r)
}

/// The part of a label between its first arrow and its second.
pub fn label_end(label: &str) -> (s: String)
    ensures
        s@ == after_arrow(label@),
{
    let v = chars_of(label);
    let r: usize = arrow_cut(&v, 0);
    assert(v@.skip(0) =~= v@);
    proof {
        reveal_strlit(" -> ");
        lemma_first_at(label@, " -> "@, 0);
    }
    if r < v.len() {
        let q: usize = arrow_cut(&v, r + 4);
        text_of(&v, r + 4, q)
    } else {
        let s = String::new();
        assert(s@ =~= Seq::empty());
        s
    }
}

} // verus!
