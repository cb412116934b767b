//! File transfers over the data link, as the client keeps them: downloads and
//! uploads by number, and what each message and each piece of data does to
//! them.

use sha2::Sha256;
use std::collections::HashMap;
use crate::client_session::FileFacts;
use crate::digest::{MESSAGE_LIMIT, absorbed, hasher_finalize, hasher_new, hasher_update, sha256};
use crate::message::{
    eof_message, eof_text, field_number, field_text, jnum, jstr, pull_message, pull_text,
    push_message, push_text,
};
use crate::mux::{chunk_bytes, chunk_parts, chunk_payload, chunk_reads_back, parse_chunk};
use crate::proto::payload_text;
use crate::resume::{
    KeptView, TransferState, kept_list, kept_of, label_end, label_start, resumed, resumed_of,
};
use crate::table::{distinct, lemma_map_push, map_of};
use crate::text::{cat3, lossy_text, lowered, same, to_lower};
use crate::token::{hex_text, to_hex};
use vstd::prelude::*;
use vstd::std_specs::iter::IteratorSpec;
use vstd::string::*;

verus! {

/// Bytes in one piece of an upload.
pub const XFER_CHUNK: usize = 64 * 1024;

/// Pieces that an upload sends before the link's heartbeats are looked after
/// again.
pub const XFER_PUMP_CHUNKS: usize = 8;

/// How a single transfer ended.
#[derive(Clone, Copy, Debug, PartialEq, Eq, Structural)]
pub enum Outcome {
    Running,
    Done,
    Failed,
}

/// The outcome after one more transfer ended: the first end counts.
pub open spec fn settled(o: Outcome, ok: bool) -> Outcome {
    if o == Outcome::Running {
        if ok { Outcome::Done } else { Outcome::Failed }
    } else {
        o
    }
}

// ---------------------------------------------------------------- model

/// A download.
pub struct GetView {
    pub local: Seq<char>,
    /// The file is open for writing.
    pub open: bool,
    /// Bytes of the file that are there.
    pub written: u64,
    pub size: u64,
    pub expect_sha: Seq<char>,
    /// The bytes that the digest covers so far.
    pub hashed: Seq<u8>,
    pub seeded: bool,
    pub last_pct: int,
}

/// An upload.
pub struct PutView {
    pub path: Seq<char>,
    /// The file is open for reading.
    pub streaming: bool,
    pub next_offset: u64,
    pub size: u64,
    pub awaiting_done: bool,
    pub last_pct: int,
}

/// A transfer.
pub enum ActiveView {
    Get { label: Seq<char>, get: GetView },
    Put { label: Seq<char>, put: PutView },
}

impl ActiveView {
    pub open spec fn label(self) -> Seq<char> {
        match self {
            ActiveView::Get { label, get } => label,
            ActiveView::Put { label, put } => label,
        }
    }
}

/// All transfers, the next number, and how a single transfer ended.
pub struct TransfersView {
    pub map: Map<u32, ActiveView>,
    pub next_id: u32,
    pub outcome: Outcome,
}

impl TransfersView {
    /// There is a download of that number.
    pub open spec fn has_get(self, id: u32) -> bool {
        self.map.dom().contains(id) && self.map[id] is Get
    }

    /// There is an upload of that number.
    pub open spec fn has_put(self, id: u32) -> bool {
        self.map.dom().contains(id) && self.map[id] is Put
    }

    pub open spec fn with(self, id: u32, a: ActiveView) -> TransfersView {
        TransfersView { map: self.map.insert(id, a), ..self }
    }

    /// The transfer has ended.
    pub open spec fn without(self, id: u32, ok: bool) -> TransfersView {
        TransfersView {
            map: self.map.remove(id),
            outcome: settled(self.outcome, ok),
            ..self
        }
    }

    /// Every transfer has a number that was given out before.
    pub open spec fn numbered(self) -> bool {
        forall|id: u32| #[trigger] self.map.dom().contains(id) ==> id < self.next_id
    }
}

/// What a transfer is called: from where to where.
pub open spec fn label_of(from: Seq<char>, to: Seq<char>) -> Seq<char> {
    from + " -> "@ + to
}

/// How much of a file is done, in percent.
pub open spec fn percent(done: nat, size: nat) -> int {
    if size > 0 {
        ((if done < size { done } else { size }) * 100 / size) as int
    } else {
        100
    }
}

/// A download that was just asked for.
pub open spec fn new_get(remote: Seq<char>, local: Seq<char>, have: u64) -> ActiveView {
    ActiveView::Get {
        label: label_of(remote, local),
        get: GetView {
            local,
            open: false,
            written: have,
            size: 0,
            expect_sha: Seq::empty(),
            hashed: Seq::empty(),
            seeded: false,
            last_pct: -1,
        },
    }
}

/// An upload that was just offered.
pub open spec fn new_put(local: Seq<char>, remote: Seq<char>, size: u64) -> ActiveView {
    ActiveView::Put {
        label: label_of(local, remote),
        put: PutView {
            path: local,
            streaming: false,
            next_offset: 0,
            size,
            awaiting_done: false,
            last_pct: 0,
        },
    }
}

/// The end of a download: whether the digest of all its bytes is the one that
/// was announced, in either case of letters.
pub open spec fn digest_matches(hashed: Seq<u8>, expect_sha: Seq<char>) -> bool {
    lowered(hex_text(sha256(hashed))) == lowered(expect_sha)
}

/// What is to be done on a message.
pub enum MetaActionView {
    Nothing,
    /// Open the file for appending; with `prefix`, hash what it holds first.
    OpenDownload { id: u32, local: Seq<char>, size: u64, sha256: Seq<char>, prefix: bool },
    /// Open the file for reading, from `start` on.
    OpenUpload { id: u32, path: Seq<char>, start: u64, size: u64 },
    /// A message for a transfer that is not there.
    Unknown { id: u32 },
    /// A download has ended: acknowledge it.
    Finished { id: u32, label: Seq<char>, written: u64, ok: bool, digest: Seq<char> },
    /// An upload has ended.
    Done { label: Seq<char>, ok: bool },
    /// The host gave a transfer up.
    Failed { label: Seq<char>, code: Seq<char>, msg: Seq<char> },
}

/// A download ends.
pub open spec fn finalized(t: TransfersView, id: u32) -> (TransfersView, MetaActionView) {
    match t.map[id] {
        ActiveView::Get { label, get: tx } => {
            let ok = digest_matches(tx.hashed, tx.expect_sha);
            (
                t.without(id, ok),
                MetaActionView::Finished {
                    id,
                    label,
                    written: tx.written,
                    ok,
                    digest: hex_text(sha256(tx.hashed)),
                },
            )
        },
        _ => (t, MetaActionView::Nothing),
    }
}

pub open spec fn number_or_zero(json: Seq<char>, key: Seq<char>) -> u64 {
    match field_number(json, key, u64::MAX as nat) {
        Some(n) => n as u64,
        None => 0,
    }
}

pub open spec fn text_or_empty(json: Seq<char>, key: Seq<char>) -> Seq<char> {
    match field_text(json, key) {
        Some(s) => s,
        None => Seq::empty(),
    }
}

/// The step of the transfers on a message of that type for that transfer.
pub open spec fn meta_step_for(t: TransfersView, json: Seq<char>, kind: Seq<char>, id: u32) -> (
    TransfersView,
    MetaActionView,
) {
    if kind == "meta"@ {
        if t.has_get(id) {
            let tx = t.map[id]->get;
            if tx.open {
                (t, MetaActionView::Nothing)
            } else {
                (
                    t,
                    MetaActionView::OpenDownload {
                        id,
                        local: tx.local,
                        size: number_or_zero(json, "size"@),
                        sha256: text_or_empty(json, "sha256"@),
                        prefix: !tx.seeded && tx.written > 0,
                    },
                )
            }
        } else {
            (t, MetaActionView::Unknown { id })
        }
    } else if kind == "ready"@ {
        if t.has_put(id) {
            let tx = t.map[id]->put;
            let resume = number_or_zero(json, "resume"@);
            (
                t,
                MetaActionView::OpenUpload {
                    id,
                    path: tx.path,
                    start: if resume < tx.size { resume } else { tx.size },
                    size: number_or_zero(json, "size"@),
                },
            )
        } else {
            (t, MetaActionView::Unknown { id })
        }
    } else if kind == "eof"@ {
        if t.has_get(id) && t.map[id]->get.written >= t.map[id]->get.size {
            finalized(t, id)
        } else {
            (t, MetaActionView::Nothing)
        }
    } else if kind == "done"@ {
        if t.map.dom().contains(id) {
            let ok = field_text(json, "ok"@) == Some("true"@);
            (t.without(id, ok), MetaActionView::Done { label: t.map[id].label(), ok })
        } else {
            (t, MetaActionView::Nothing)
        }
    } else if kind == "error"@ {
        if t.map.dom().contains(id) {
            (
                t.without(id, false),
                MetaActionView::Failed {
                    label: t.map[id].label(),
                    code: text_or_empty(json, "code"@),
                    msg: text_or_empty(json, "msg"@),
                },
            )
        } else {
            (t, MetaActionView::Nothing)
        }
    } else {
        (t, MetaActionView::Nothing)
    }
}

/// The step of the transfers on a message.
pub open spec fn meta_step(t: TransfersView, json: Seq<char>) -> (TransfersView, MetaActionView) {
    match field_text(json, "t"@) {
        None => (t, MetaActionView::Nothing),
        Some(kind) => match field_number(json, "id"@, u32::MAX as nat) {
            None => (t, MetaActionView::Nothing),
            Some(id) => meta_step_for(t, json, kind, id as u32),
        },
    }
}

/// The download after some bytes were written: the digest covers them, and
/// progress is told at every tenth and at the end.
pub open spec fn got(tx: GetView, data: Seq<u8>) -> (GetView, Option<int>) {
    let written = (tx.written + data.len()) as u64;
    let pct = percent(written as nat, tx.size as nat);
    let tell = pct >= tx.last_pct + 10 || written >= tx.size;
    (
        GetView {
            hashed: tx.hashed + data,
            written,
            last_pct: if tell { pct } else { tx.last_pct },
            ..tx
        },
        if tell { Some(pct) } else { None },
    )
}

/// The step of the transfers once a piece of a download was written, or not:
/// the progress to tell, and the end of the download if that was all of it.
pub open spec fn chunk_step(t: TransfersView, id: u32, data: Seq<u8>, ok: bool) -> (
    TransfersView,
    Option<int>,
    MetaActionView,
) {
    if !t.has_get(id) {
        (t, None, MetaActionView::Nothing)
    } else if !ok {
        (t.without(id, false), None, MetaActionView::Nothing)
    } else {
        let (tx, tell) = got(t.map[id]->get, data);
        let u = t.with(id, ActiveView::Get { label: t.map[id].label(), get: tx });
        if tx.size > 0 && tx.written >= tx.size {
            let (v, action) = finalized(u, id);
            (v, tell, action)
        } else {
            (u, tell, MetaActionView::Nothing)
        }
    }
}

/// The piece of a download that is to be written: it belongs to a download
/// whose file is open, and starts where the file ends.
pub open spec fn wanted_chunk(t: TransfersView, payload: Seq<u8>) -> Option<(u32, Seq<u8>)> {
    match chunk_parts(payload) {
        None => None,
        Some((id, offset, data)) => if t.has_get(id) && t.map[id]->get.written == offset
            && t.map[id]->get.open {
            Some((id, data))
        } else {
            None
        },
    }
}

/// A transfer can take that many more bytes: its digest and its count of bytes
/// stay within their limits.
pub open spec fn room_for(t: TransfersView, id: u32, n: nat) -> bool {
    &&& t.has_get(id) ==> t.map[id]->get.hashed.len() + n < MESSAGE_LIMIT && t.map[id]->get.written
        + n <= u64::MAX
    &&& t.has_put(id) ==> t.map[id]->put.next_offset + n <= u64::MAX
}

/// What an upload sends next.
pub enum PumpActionView {
    Nothing,
    /// The end of the file: say so.
    Eof { message: Seq<char> },
    /// A piece of the file, and the progress to tell.
    Chunk { payload: Seq<u8>, tell: Option<int> },
}

/// An upload can send data.
pub open spec fn is_streaming(a: ActiveView) -> bool {
    a matches ActiveView::Put { label, put } && put.streaming && !put.awaiting_done
}

/// The upload after some bytes were read.
pub open spec fn put_on(tx: PutView, n: nat) -> (PutView, Option<int>) {
    let next = (tx.next_offset + n) as u64;
    let pct = percent(next as nat, tx.size as nat);
    let tell = next >= tx.size || pct >= tx.last_pct + 10;
    (
        PutView { next_offset: next, last_pct: if tell { pct } else { tx.last_pct }, ..tx },
        if tell { Some(pct) } else { None },
    )
}

/// The step of the transfers once a piece of an upload was read; an empty piece
/// is the end of the file.
pub open spec fn pump_step(t: TransfersView, id: u32, data: Seq<u8>) -> (
    TransfersView,
    PumpActionView,
) {
    if !t.map.dom().contains(id) || !is_streaming(t.map[id]) {
        (t, PumpActionView::Nothing)
    } else {
        let label = t.map[id].label();
        let tx = t.map[id]->put;
        if data.len() == 0 {
            (
                t.with(id, ActiveView::Put { label, put: PutView { awaiting_done: true, ..tx } }),
                PumpActionView::Eof { message: eof_message(id, tx.next_offset) },
            )
        } else {
            let (tx2, tell) = put_on(tx, data.len());
            (
                t.with(id, ActiveView::Put { label, put: tx2 }),
                PumpActionView::Chunk { payload: chunk_bytes(id, tx.next_offset, data), tell },
            )
        }
    }
}

// ---------------------------------------------------------------- execution

/// A download.
pub struct ActiveGet {
    local: String,
    open: bool,
    written: u64,
    size: u64,
    expect_sha: String,
    hasher: Sha256,
    hashed_len: u64,
    seeded: bool,
    last_pct: i64,
}

impl View for ActiveGet {
    type V = GetView;

    closed spec fn view(&self) -> GetView {
        GetView {
            local: self.local@,
            open: self.open,
            written: self.written,
            size: self.size,
            expect_sha: self.expect_sha@,
            hashed: absorbed(self.hasher),
            seeded: self.seeded,
            last_pct: self.last_pct as int,
        }
    }
}

/// An upload.
pub struct ActivePut {
    path: String,
    streaming: bool,
    next_offset: u64,
    size: u64,
    awaiting_done: bool,
    last_pct: i64,
}

impl View for ActivePut {
    type V = PutView;

    closed spec fn view(&self) -> PutView {
        PutView {
            path: self.path@,
            streaming: self.streaming,
            next_offset: self.next_offset,
            size: self.size,
            awaiting_done: self.awaiting_done,
            last_pct: self.last_pct as int,
        }
    }
}

/// A transfer.
pub enum Active {
    Get { label: String, get: ActiveGet },
    Put { label: String, put: ActivePut },
}

impl View for Active {
    type V = ActiveView;

    closed spec fn view(&self) -> ActiveView {
        match self {
            Active::Get { label, get } => ActiveView::Get { label: label@, get: get@ },
            Active::Put { label, put } => ActiveView::Put { label: label@, put: put@ },
        }
    }
}

impl Active {
    spec fn wf(self) -> bool {
        match self {
            Active::Get { label, get } => -1 <= get.last_pct <= 100 && get.hashed_len == absorbed(
                get.hasher,
            ).len() && get.hashed_len < MESSAGE_LIMIT,
            Active::Put { label, put } => -1 <= put.last_pct <= 100,
        }
    }

    /// What the transfer is called.
    pub fn label(&self) -> (s: &str)
        ensures
            s@ == self@.label(),
    {
        match self {
            Active::Get { label, get: _ } => label.as_str(),
            Active::Put { label, put: _ } => label.as_str(),
        }
    }
}

/// What is to be done on a message.
pub enum MetaAction {
    Nothing,
    OpenDownload { id: u32, local: String, size: u64, sha256: String, prefix: bool },
    OpenUpload { id: u32, path: String, start: u64, size: u64 },
    Unknown { id: u32 },
    Finished { id: u32, label: String, written: u64, ok: bool, digest: String },
    Done { label: String, ok: bool },
    Failed { label: String, code: String, msg: String },
}

impl View for MetaAction {
    type V = MetaActionView;

    open spec fn view(&self) -> MetaActionView {
        match self {
            MetaAction::Nothing => MetaActionView::Nothing,
            MetaAction::OpenDownload { id, local, size, sha256, prefix } => {
                MetaActionView::OpenDownload {
                    id: *id,
                    local: local@,
                    size: *size,
                    sha256: sha256@,
                    prefix: *prefix,
                }
            },
            MetaAction::OpenUpload { id, path, start, size } => MetaActionView::OpenUpload {
                id: *id,
                path: path@,
                start: *start,
                size: *size,
            },
            MetaAction::Unknown { id } => MetaActionView::Unknown { id: *id },
            MetaAction::Finished { id, label, written, ok, digest } => MetaActionView::Finished {
                id: *id,
                label: label@,
                written: *written,
                ok: *ok,
                digest: digest@,
            },
            MetaAction::Done { label, ok } => MetaActionView::Done { label: label@, ok: *ok },
            MetaAction::Failed { label, code, msg } => MetaActionView::Failed {
                label: label@,
                code: code@,
                msg: msg@,
            },
        }
    }
}

/// What an upload sends next.
pub enum PumpAction {
    Nothing,
    Eof { message: String },
    Chunk { payload: Vec<u8>, tell: Option<i64> },
}

/// Progress as a number of its own.
pub open spec fn pct_view(p: Option<i64>) -> Option<int> {
    match p {
        Some(n) => Some(n as int),
        None => None,
    }
}

impl View for PumpAction {
    type V = PumpActionView;

    open spec fn view(&self) -> PumpActionView {
        match self {
            PumpAction::Nothing => PumpActionView::Nothing,
            PumpAction::Eof { message } => PumpActionView::Eof { message: message@ },
            PumpAction::Chunk { payload, tell } => PumpActionView::Chunk {
                payload: payload@,
                tell: pct_view(*tell),
            },
        }
    }
}

proof fn lemma_percent(done: nat, size: nat)
    ensures
        0 <= percent(done, size) <= 100,
{
    if size > 0 {
        let d = if done < size { done } else { size };
        assert(0 <= d * 100 / size <= 100) by (nonlinear_arith)
            requires
                d <= size,
                size > 0,
        {
        }
    }
}

/// How much of a file is done, in percent.
fn percent_of(done: u64, size: u64) -> (p: i64)
    ensures
        p == percent(done as nat, size as nat),
        0 <= p <= 100,
{
    proof {
        lemma_percent(done as nat, size as nat);
    }
    if size > 0 {
        let d: u64 = if done < size { done } else { size };
        let p: u128 = d as u128 * 100 / size as u128;
        p as i64
    } else {
        100
    }
}

/// The digest of a file that is read piece by piece.
pub struct FileDigest {
    hasher: Sha256,
    len: u64,
}

impl FileDigest {
    #[verifier::type_invariant]
    spec fn wf(self) -> bool {
        self.len == absorbed(self.hasher).len()
    }

    /// The bytes that were taken in.
    pub closed spec fn bytes(self) -> Seq<u8> {
        absorbed(self.hasher)
    }

    pub fn new() -> (r: Self)
        ensures
            r.bytes() == Seq::<u8>::empty(),
    {
        FileDigest { hasher: hasher_new(), len: 0 }
    }

    /// Whether that many more bytes can be taken in.
    pub fn has_room(&self, n: usize) -> (r: bool)
        ensures
            r == (self.bytes().len() + n < MESSAGE_LIMIT),
    {
        proof {
            use_type_invariant(self);
        }
        self.len < MESSAGE_LIMIT && (n as u64) < MESSAGE_LIMIT - self.len
    }

    /// Takes in the next piece.
    pub fn update(self, data: &[u8]) -> (r: Self)
        requires
            self.bytes().len() + data@.len() < MESSAGE_LIMIT,
        ensures
            r.bytes() == self.bytes() + data@,
    {
        proof {
            use_type_invariant(&self);
        }
        let mut h = self.hasher;
        hasher_update(&mut h, data);
        FileDigest { hasher: h, len: self.len + data.len() as u64 }
    }

    /// The digest of everything, in hexadecimal.
    pub fn finish(self) -> (s: String)
        requires
            self.bytes().len() < MESSAGE_LIMIT,
        ensures
            s@ == hex_text(sha256(self.bytes())),
    {
        let d = hasher_finalize(self.hasher);
        to_hex(&d)
    }

    /// What is known of a file that holds these bytes.
    pub fn facts(self) -> (f: FileFacts)
        requires
            self.bytes().len() < MESSAGE_LIMIT,
        ensures
            f matches FileFacts::Known { size, sha256: digest } && size == self.bytes().len()
                && digest@ == hex_text(sha256(self.bytes())),
    {
        proof {
            use_type_invariant(&self);
        }
        let size: u64 = self.len;
        FileFacts::Known { size, sha256: self.finish() }
    }
}

/// The transfers of a data link.
pub struct Transfers {
    entries: HashMap<u32, Active>,
    next_id: u32,
    outcome: Outcome,
}

spec fn active_map(m: Map<u32, Active>) -> Map<u32, ActiveView> {
    Map::new(|id: u32| m.dom().contains(id), |id: u32| m[id]@)
}

impl View for Transfers {
    type V = TransfersView;

    closed spec fn view(&self) -> TransfersView {
        TransfersView {
            map: active_map(self.entries@),
            next_id: self.next_id,
            outcome: self.outcome,
        }
    }
}

spec fn entries_wf(m: Map<u32, Active>) -> bool {
    forall|id: u32| #[trigger] m.dom().contains(id) ==> m[id].wf()
}

/// The numbers of some transfers, in any order.
fn numbers(m: &HashMap<u32, Active>) -> (ids: Vec<u32>)
    ensures
        ids@.no_duplicates(),
        forall|id: u32| ids@.contains(id) == m@.dom().contains(id),
{
    let mut ids: Vec<u32> = Vec::new();
    let ghost all = m.keys().remaining();
    for id in it: m.keys()
        invariant
            it.seq() == all,
            ids@.len() == it.index(),
            forall|k: int| 0 <= k < ids@.len() ==> ids@[k] == *all[k],
    {
        ids.push(*id);
    }
    proof {
        assert(ids@ =~= all.unref());
        assert forall|i: int, j: int| 0 <= i < ids@.len() && 0 <= j < ids@.len() && i != j implies ids@[i]
            != ids@[j] by {
            assert(all[i] != all[j]);
        }
        assert forall|id: u32| ids@.contains(id) == m@.dom().contains(id) by {
            assert(ids@.contains(id) == all.unref().to_set().contains(id));
        }
    }
    ids
}

impl Transfers {
    #[verifier::type_invariant]
    spec fn wf(self) -> bool {
        entries_wf(self.entries@) && self@.numbered()
    }

    /// No transfers; the first gets the number 1.
    pub fn new() -> (r: Self)
        ensures
            r@ == (TransfersView {
                map: Map::empty(),
                next_id: 1,
                outcome: Outcome::Running,
            }),
    {
        let r = Transfers { entries: HashMap::new(), next_id: 1, outcome: Outcome::Running };
        assert(r@.map =~= Map::empty());
        r
    }

    /// How a single transfer ended.
    pub fn outcome(&self) -> (o: Outcome)
        ensures
            o == self@.outcome,
    {
        self.outcome
    }

    /// The number of the next transfer; all others have smaller ones.
    pub fn next_id(&self) -> (id: u32)
        ensures
            id == self@.next_id,
            self@.numbered(),
    {
        proof {
            use_type_invariant(self);
        }
        self.next_id
    }

    /// How many transfers there are.
    pub fn count(&self) -> (n: usize)
        ensures
            n == self@.map.dom().len(),
            self@.map.dom().finite(),
    {
        proof {
            assert(self@.map.dom() =~= self.entries@.dom());
        }
        self.entries.len()
    }

    /// Notes that a transfer could not even be started.
    pub fn not_started(&mut self)
        ensures
            final(self)@ == (TransfersView {
                outcome: settled(old(self)@.outcome, false),
                ..old(self)@
            }),
    {
        proof {
            use_type_invariant(&*self);
        }
        self.outcome = settle(self.outcome, false);
    }

    fn find(&self, id: u32) -> (r: Option<&Active>)
        ensures
            r is Some == self@.map.dom().contains(id),
            r matches Some(a) ==> a@ == self@.map[id] && a.wf(),
    {
        proof {
            use_type_invariant(self);
        }
        self.entries.get(&id)
    }

    fn add(&mut self, a: Active) -> (id: u32)
        requires
            a.wf(),
            old(self)@.next_id < u32::MAX,
        ensures
            id == old(self)@.next_id,
            !old(self)@.map.dom().contains(id),
            final(self)@ == (TransfersView {
                map: old(self)@.map.insert(id, a@),
                next_id: (id + 1) as u32,
                outcome: old(self)@.outcome,
            }),
    {
        proof {
            use_type_invariant(&*self);
        }
        let id: u32 = self.next_id;
        let mut entries: HashMap<u32, Active> = HashMap::new();
        let ghost (before, av) = (self@, a@);
        assert(!before.map.dom().contains(id));
        std::mem::swap(&mut entries, &mut self.entries);
        let _ = entries.insert(id, a);
        assert(active_map(entries@) =~= before.map.insert(id, av));
        let outcome = self.outcome;
        *self = Transfers { entries, next_id: id + 1, outcome };
        id
    }

    /// Asks for a file, of which the first `have` bytes are there. Gives the
    /// message to send.
    pub fn start_get(&mut self, remote: &str, local: &str, have: u64) -> (r: String)
        requires
            old(self)@.next_id < u32::MAX,
        ensures
            !old(self)@.map.dom().contains(old(self)@.next_id),
            final(self)@ == (TransfersView {
                map: old(self)@.map.insert(old(self)@.next_id, new_get(remote@, local@, have)),
                next_id: (old(self)@.next_id + 1) as u32,
                outcome: old(self)@.outcome,
            }),
            r@ == pull_message(old(self)@.next_id, remote@, have),
    {
        let get = ActiveGet {
            local: String::from_str(local),
            open: false,
            written: have,
            size: 0,
            expect_sha: String::new(),
            hasher: hasher_new(),
            hashed_len: 0,
            seeded: false,
            last_pct: -1,
        };
        assert(get@.expect_sha =~= Seq::empty());
        let a = Active::Get { label: cat3(remote, " -> ", local), get };
        assert(a@ == new_get(remote@, local@, have));
        let id: u32 = self.add(a);
        pull_text(id, remote, have)
    }

    /// Offers a file of that size and digest. Gives the message to send.
    pub fn start_put(&mut self, local: &str, remote: &str, size: u64, sha256: &str) -> (r: String)
        requires
            old(self)@.next_id < u32::MAX,
        ensures
            !old(self)@.map.dom().contains(old(self)@.next_id),
            final(self)@ == (TransfersView {
                map: old(self)@.map.insert(old(self)@.next_id, new_put(local@, remote@, size)),
                next_id: (old(self)@.next_id + 1) as u32,
                outcome: old(self)@.outcome,
            }),
            r@ == push_message(old(self)@.next_id, remote@, size, sha256@),
    {
        let put = ActivePut {
            path: String::from_str(local),
            streaming: false,
            next_offset: 0,
            size,
            awaiting_done: false,
            last_pct: 0,
        };
        let a = Active::Put { label: cat3(local, " -> ", remote), put };
        assert(a@ == new_put(local@, remote@, size));
        let id: u32 = self.add(a);
        push_text(id, remote, size, sha256)
    }
}

/// The outcome after one more transfer ended.
pub fn settle(o: Outcome, ok: bool) -> (r: Outcome)
    ensures
        r == settled(o, ok),
{
    match o {
        Outcome::Running => if ok { Outcome::Done } else { Outcome::Failed },
        other => other,
    }
}

impl Transfers {
    /// Replaces a transfer that is there, or adds one whose number was given
    /// out before.
    fn store(&mut self, id: u32, a: Active)
        requires
            a.wf(),
            id < old(self)@.next_id,
            !old(self)@.map.dom().contains(id),
        ensures
            final(self)@ == old(self)@.with(id, a@),
    {
        proof {
            use_type_invariant(&*self);
        }
        let mut entries: HashMap<u32, Active> = HashMap::new();
        let ghost (before, av) = (self@, a@);
        std::mem::swap(&mut entries, &mut self.entries);
        let _ = entries.insert(id, a);
        assert(active_map(entries@) =~= before.map.insert(id, av));
        self.entries = entries;
    }

    /// Takes a transfer out.
    fn remove(&mut self, id: u32) -> (r: Option<Active>)
        ensures
            final(self)@ == (TransfersView { map: old(self)@.map.remove(id), ..old(self)@ }),
            r is Some == old(self)@.map.dom().contains(id),
            r matches Some(a) ==> a.wf() && a@ == old(self)@.map[id] && id < old(self)@.next_id,
    {
        proof {
            use_type_invariant(&*self);
        }
        let mut entries: HashMap<u32, Active> = HashMap::new();
        let ghost before = self@;
        std::mem::swap(&mut entries, &mut self.entries);
        let r = entries.remove(&id);
        assert(active_map(entries@) =~= before.map.remove(id));
        self.entries = entries;
        r
    }

    fn end(&mut self, ok: bool)
        ensures
            final(self)@ == (TransfersView {
                outcome: settled(old(self)@.outcome, ok),
                ..old(self)@
            }),
    {
        proof {
            use_type_invariant(&*self);
        }
        self.outcome = settle(self.outcome, ok);
    }

    /// Whether a transfer can take that many more bytes.
    pub fn has_room(&self, id: u32, n: usize) -> (r: bool)
        ensures
            r == room_for(self@, id, n as nat),
    {
        proof {
            use_type_invariant(self);
        }
        match self.find(id) {
            None => true,
            Some(a) => match a {
                Active::Get { label: _, get } => get.hashed_len < MESSAGE_LIMIT && (n as u64)
                    < MESSAGE_LIMIT - get.hashed_len && get.written <= u64::MAX - n as u64,
                Active::Put { label: _, put } => put.next_offset <= u64::MAX - n as u64,
            },
        }
    }

    /// Ends a download.
    fn finalize_get(&mut self, id: u32) -> (a: MetaAction)
        requires
            old(self)@.has_get(id),
        ensures
            (final(self)@, a@) == finalized(old(self)@, id),
    {
        match self.remove(id) {
            Some(Active::Get { label, get }) => {
                let d = hasher_finalize(get.hasher);
                let digest = to_hex(&d);
                let want = to_lower(&get.expect_sha);
                let got = to_lower(&digest);
                let ok = same(&want, &got);
                self.end(ok);
                MetaAction::Finished { id, label, written: get.written, ok, digest }
            },
            _ => MetaAction::Nothing,
        }
    }

    fn on_meta(&self, json: &str, id: u32) -> (a: MetaAction)
        ensures
            (self@, a@) == meta_step_for(self@, json@, "meta"@, id),
    {
        match self.find(id) {
            Some(a) => match a {
                Active::Get { label: _, get } => if get.open {
                    MetaAction::Nothing
                } else {
                    let size: u64 = number_in(json, "size");
                    let sha256 = text_in(json, "sha256");
                    MetaAction::OpenDownload {
                        id,
                        local: get.local.clone(),
                        size,
                        sha256,
                        prefix: !get.seeded && get.written > 0,
                    }
                },
                Active::Put { label: _, put: _ } => MetaAction::Unknown { id },
            },
            None => MetaAction::Unknown { id },
        }
    }

    fn on_ready(&self, json: &str, id: u32) -> (a: MetaAction)
        ensures
            (self@, a@) == meta_step_for(self@, json@, "ready"@, id),
    {
        proof {
            lemma_kinds();
        }
        match self.find(id) {
            Some(a) => match a {
                Active::Put { label: _, put } => {
                    let resume: u64 = number_in(json, "resume");
                    let size: u64 = number_in(json, "size");
                    MetaAction::OpenUpload {
                        id,
                        path: put.path.clone(),
                        start: if resume < put.size { resume } else { put.size },
                        size,
                    }
                },
                Active::Get { label: _, get: _ } => MetaAction::Unknown { id },
            },
            None => MetaAction::Unknown { id },
        }
    }

    /// Takes the bytes of a message of the host.
    pub fn handle_meta_json(&mut self, payload: &[u8]) -> (a: MetaAction)
        ensures
            (final(self)@, a@) == meta_step(old(self)@, lossy_text(payload@)),
    {
        let json = payload_text(payload);
        self.on_meta_text(&json)
    }

    /// Takes the text of a message of the host.
    pub fn on_meta_text(&mut self, json: &str) -> (a: MetaAction)
        ensures
            (final(self)@, a@) == meta_step(old(self)@, json@),
    {
        let kind = match jstr(json, "t") {
            Some(t) => t,
            None => {
                return MetaAction::Nothing;
            },
        };
        let id: u32 = match jnum(json, "id", u32::MAX as u128) {
            Some(n) => n as u32,
            None => {
                return MetaAction::Nothing;
            },
        };
        proof {
            lemma_kinds();
        }
        if same(&kind, "meta") {
            self.on_meta(json, id)
        } else if same(&kind, "ready") {
            self.on_ready(json, id)
        } else if same(&kind, "eof") {
            let done = match self.find(id) {
                Some(a) => match a {
                    Active::Get { label: _, get } => get.written >= get.size,
                    Active::Put { label: _, put: _ } => false,
                },
                None => false,
            };
            if done {
                self.finalize_get(id)
            } else {
                MetaAction::Nothing
            }
        } else if same(&kind, "done") {
            let ok = match jstr(json, "ok") {
                Some(v) => same(&v, "true"),
                None => false,
            };
            match self.remove(id) {
                Some(a) => {
                    let label = String::from_str(a.label());
                    self.end(ok);
                    MetaAction::Done { label, ok }
                },
                None => {
                    assert(self@.map =~= old(self)@.map);
                    MetaAction::Nothing
                },
            }
        } else if same(&kind, "error") {
            let code = text_in(json, "code");
            let msg = text_in(json, "msg");
            match self.remove(id) {
                Some(a) => {
                    let label = String::from_str(a.label());
                    self.end(false);
                    MetaAction::Failed { label, code, msg }
                },
                None => {
                    assert(self@.map =~= old(self)@.map);
                    MetaAction::Nothing
                },
            }
        } else {
            MetaAction::Nothing
        }
    }

    /// Hashes a part of what a download's file already holds.
    pub fn seed(&mut self, id: u32, data: &[u8])
        requires
            room_for(old(self)@, id, data@.len()),
        ensures
            final(self)@ == (if old(self)@.has_get(id) {
                let a = old(self)@.map[id];
                old(self)@.with(
                    id,
                    ActiveView::Get {
                        label: a.label(),
                        get: GetView { hashed: a->get.hashed + data@, ..a->get },
                    },
                )
            } else {
                old(self)@
            }),
    {
        let ghost t = self@;
        match self.remove(id) {
            Some(Active::Get { label, mut get }) => {
                let ghost before = get@;
                let mut h = get.hasher;
                hasher_update(&mut h, data);
                let get = ActiveGet {
                    hasher: h,
                    hashed_len: get.hashed_len + data.len() as u64,
                    ..get
                };
                self.store(id, Active::Get { label, get });
                assert(self@.map =~= t.map.insert(id, self@.map[id]));
            },
            Some(a) => {
                self.store(id, a);
                assert(self@.map =~= t.map);
            },
            None => {
                assert(self@.map =~= t.map);
            },
        }
    }

    /// The file of a download is open, and what it held is hashed.
    pub fn download_opened(&mut self, id: u32, size: u64, sha256: String)
        ensures
            final(self)@ == (if old(self)@.has_get(id) {
                let a = old(self)@.map[id];
                old(self)@.with(
                    id,
                    ActiveView::Get {
                        label: a.label(),
                        get: GetView {
                            seeded: true,
                            size,
                            expect_sha: sha256@,
                            open: true,
                            ..a->get
                        },
                    },
                )
            } else {
                old(self)@
            }),
    {
        let ghost t = self@;
        match self.remove(id) {
            Some(Active::Get { label, get }) => {
                let get = ActiveGet { seeded: true, size, expect_sha: sha256, open: true, ..get };
                self.store(id, Active::Get { label, get });
                assert(self@.map =~= t.map.insert(id, self@.map[id]));
            },
            Some(a) => {
                self.store(id, a);
                assert(self@.map =~= t.map);
            },
            None => {
                assert(self@.map =~= t.map);
            },
        }
    }

    /// The file of an upload is open for reading, from `start` on.
    pub fn upload_opened(&mut self, id: u32, start: u64)
        ensures
            final(self)@ == (if old(self)@.has_put(id) {
                let a = old(self)@.map[id];
                old(self)@.with(
                    id,
                    ActiveView::Put {
                        label: a.label(),
                        put: PutView { streaming: true, next_offset: start, ..a->put },
                    },
                )
            } else {
                old(self)@
            }),
    {
        let ghost t = self@;
        match self.remove(id) {
            Some(Active::Put { label, put }) => {
                let put = ActivePut { streaming: true, next_offset: start, ..put };
                self.store(id, Active::Put { label, put });
                assert(self@.map =~= t.map.insert(id, self@.map[id]));
            },
            Some(a) => {
                self.store(id, a);
                assert(self@.map =~= t.map);
            },
            None => {
                assert(self@.map =~= t.map);
            },
        }
    }

    /// The file of a transfer cannot be opened: the transfer has failed.
    pub fn open_failed(&mut self, id: u32)
        ensures
            final(self)@ == old(self)@.without(id, false),
    {
        let _ = self.remove(id);
        self.end(false);
    }

    /// The piece of a download that is to be written, if the payload is one.
    pub fn accept_chunk(&self, payload: &[u8]) -> (r: Option<(u32, Vec<u8>)>)
        ensures
            r is Some == wanted_chunk(self@, payload@) is Some,
            r matches Some(p) ==> wanted_chunk(self@, payload@) == Some((p.0, p.1@)),
    {
        match parse_chunk(payload) {
            None => None,
            Some((id, offset, data)) => match self.find(id) {
                None => None,
                Some(a) => match a {
                    Active::Get { label: _, get } => if get.written == offset && get.open {
                        Some((id, data))
                    } else {
                        None
                    },
                    Active::Put { label: _, put: _ } => None,
                },
            },
        }
    }

    /// A piece of a download was written, or could not be.
    pub fn handle_chunk(&mut self, id: u32, data: &[u8], ok: bool) -> (r: (Option<i64>, MetaAction))
        requires
            room_for(old(self)@, id, data@.len()),
        ensures
            (final(self)@, pct_view(r.0), r.1@) == chunk_step(old(self)@, id, data@, ok),
    {
        let ghost t = self@;
        match self.remove(id) {
            Some(Active::Get { label, get }) => {
                if !ok {
                    self.end(false);
                    return (None, MetaAction::Nothing);
                }
                let mut h = get.hasher;
                hasher_update(&mut h, data);
                let written: u64 = get.written + data.len() as u64;
                let pct: i64 = percent_of(written, get.size);
                let tell = pct >= get.last_pct + 10 || written >= get.size;
                let last_pct: i64 = if tell { pct } else { get.last_pct };
                let told = if tell { Some(pct) } else { None };
                let size: u64 = get.size;
                let get = ActiveGet {
                    hasher: h,
                    hashed_len: get.hashed_len + data.len() as u64,
                    written,
                    last_pct,
                    ..get
                };
                self.store(id, Active::Get { label, get });
                assert(self@.map =~= t.map.insert(id, self@.map[id]));
                if size > 0 && written >= size {
                    let a = self.finalize_get(id);
                    (told, a)
                } else {
                    (told, MetaAction::Nothing)
                }
            },
            Some(a) => {
                self.store(id, a);
                assert(self@.map =~= t.map);
                (None, MetaAction::Nothing)
            },
            None => {
                assert(self@.map =~= t.map);
                (None, MetaAction::Nothing)
            },
        }
    }

    /// The uploads that can send data, in any order.
    pub fn streaming(&self) -> (ids: Vec<u32>)
        ensures
            forall|id: u32|
                ids@.contains(id) == (self@.map.dom().contains(id) && is_streaming(self@.map[id])),
            ids@.no_duplicates(),
    {
        let all = numbers(&self.entries);
        let mut ids: Vec<u32> = Vec::new();
        let mut i: usize = 0;
        while i < all.len()
            invariant
                i <= all@.len(),
                all@.no_duplicates(),
                forall|id: u32| all@.contains(id) == self@.map.dom().contains(id),
                ids@.no_duplicates(),
                forall|id: u32|
                    #![trigger ids@.contains(id)]
                    ids@.contains(id) == (all@.take(i as int).contains(id) && is_streaming(
                        self@.map[id],
                    )),
            decreases all@.len() - i,
        {
            let id: u32 = all[i];
            let ghost before = ids@;
            let ghost seen = all@.take(i as int);
            proof {
                assert(all@.contains(id));
                assert(all@.take(i + 1) =~= seen.push(id));
                assert(!seen.contains(id)) by {
                    if seen.contains(id) {
                        let k = seen.index_of(id);
                        assert(all@[k] == all@[i as int]);
                    }
                }
                assert forall|q: u32| all@.take(i + 1).contains(q) == (seen.contains(q) || q
                    == id) by {
                    lemma_push_contains(seen, id, q);
                }
            }
            let go = match self.find(id) {
                Some(a) => match a {
                    Active::Put { label: _, put } => put.streaming && !put.awaiting_done,
                    Active::Get { label: _, get: _ } => false,
                },
                None => false,
            };
            assert(go == is_streaming(self@.map[id]));
            assert(!before.contains(id));
            if go {
                ids.push(id);
                proof {
                    assert forall|a: int, b: int|
                        0 <= a < ids@.len() && 0 <= b < ids@.len() && a != b implies ids@[a]
                        != ids@[b] by {
                        if a < before.len() {
                            assert(before.contains(before[a]));
                        }
                        if b < before.len() {
                            assert(before.contains(before[b]));
                        }
                    }
                }
            }
            assert forall|q: u32| #[trigger] ids@.contains(q) == (all@.take(i + 1).contains(q)
                && is_streaming(self@.map[q])) by {
                lemma_push_contains(before, id, q);
                assert(before.contains(q) == (seen.contains(q) && is_streaming(self@.map[q])));
            }
            i += 1;
        }
        assert(all@.take(i as int) =~= all@);
        ids
    }

    /// A piece of an upload was read; an empty one is the end of the file.
    pub fn pump_put(&mut self, id: u32, data: &[u8]) -> (a: PumpAction)
        requires
            room_for(old(self)@, id, data@.len()),
        ensures
            (final(self)@, a@) == pump_step(old(self)@, id, data@),
    {
        let ghost t = self@;
        match self.remove(id) {
            Some(Active::Put { label, put }) => {
                if !put.streaming || put.awaiting_done {
                    self.store(id, Active::Put { label, put });
                    assert(self@.map =~= t.map);
                    return PumpAction::Nothing;
                }
                if data.len() == 0 {
                    let message = eof_text(id, put.next_offset);
                    let put = ActivePut { awaiting_done: true, ..put };
                    self.store(id, Active::Put { label, put });
                    assert(self@.map =~= t.map.insert(id, self@.map[id]));
                    return PumpAction::Eof { message };
                }
                let payload = chunk_payload(id, put.next_offset, data);
                let next: u64 = put.next_offset + data.len() as u64;
                let pct: i64 = percent_of(next, put.size);
                let tell = next >= put.size || pct >= put.last_pct + 10;
                let last_pct: i64 = if tell { pct } else { put.last_pct };
                let put = ActivePut { next_offset: next, last_pct, ..put };
                self.store(id, Active::Put { label, put });
                assert(self@.map =~= t.map.insert(id, self@.map[id]));
                PumpAction::Chunk { payload, tell: if tell { Some(pct) } else { None } }
            },
            Some(a) => {
                self.store(id, a);
                assert(self@.map =~= t.map);
                PumpAction::Nothing
            },
            None => {
                assert(self@.map =~= t.map);
                PumpAction::Nothing
            },
        }
    }
}

proof fn lemma_push_contains(s: Seq<u32>, x: u32, q: u32)
    ensures
        s.push(x).contains(q) == (s.contains(q) || q == x),
{
    let t = s.push(x);
    if s.contains(q) {
        let k = s.index_of(q);
        assert(t[k] == q);
    }
    assert(t[s.len() as int] == x);
    if t.contains(q) && q != x {
        let k = t.index_of(q);
        assert(s[k] == q);
    }
}

proof fn lemma_kinds()
    ensures
        "ready"@ != "meta"@,
        "eof"@ != "meta"@,
        "eof"@ != "ready"@,
{
    reveal_strlit("meta");
    reveal_strlit("ready");
    reveal_strlit("eof");
    assert("meta"@.len() == 4);
    assert("ready"@.len() == 5);
    assert("eof"@.len() == 3);
}

fn number_in(json: &str, key: &str) -> (n: u64)
    ensures
        n == number_or_zero(json@, key@),
{
    match jnum(json, key, u64::MAX as u128) {
        Some(n) => n as u64,
        None => 0,
    }
}

fn text_in(json: &str, key: &str) -> (s: String)
    ensures
        s@ == text_or_empty(json@, key@),
{
    match jstr(json, key) {
        Some(s) => s,
        None => {
            let s = String::new();
            assert(s@ =~= Seq::empty());
            s
        },
    }
}

// ---------------------------------------------------------------- keeping and resuming

/// Kept transfers by their numbers.
pub open spec fn keyed(v: Seq<TransferState>) -> Seq<(u32, KeptView)> {
    v.map_values(|s: TransferState| (s.id, s@))
}

/// What is kept of each transfer.
pub open spec fn kept_map(m: Map<u32, ActiveView>) -> Map<u32, KeptView> {
    Map::new(|id: u32| m.dom().contains(id), |id: u32| kept_of(id, m[id]))
}

fn keep(id: u32, a: &Active) -> (s: TransferState)
    ensures
        s@ == kept_of(id, a@),
{
    match a {
        Active::Get { label, get } => TransferState {
            id,
            label: label.clone(),
            is_get: true,
            remote: label_start(label),
            local: get.local.clone(),
            offset: get.written,
            size: get.size,
            expect_sha: get.expect_sha.clone(),
            written: get.written,
        },
        Active::Put { label, put } => {
            let expect_sha = String::new();
            assert(expect_sha@ =~= Seq::empty());
            TransferState {
                id,
                label: label.clone(),
                is_get: false,
                remote: label_end(label),
                local: put.path.clone(),
                offset: put.next_offset,
                size: put.size,
                expect_sha,
                written: put.next_offset,
            }
        },
    }
}

fn take_up(s: &TransferState) -> (a: Active)
    ensures
        a.wf(),
        a@ == resumed_of(s@),
{
    if s.is_get {
        Active::Get {
            label: s.label.clone(),
            get: ActiveGet {
                local: s.local.clone(),
                open: false,
                written: s.written,
                size: s.size,
                expect_sha: s.expect_sha.clone(),
                hasher: hasher_new(),
                hashed_len: 0,
                seeded: s.written == 0,
                last_pct: -1,
            },
        }
    } else {
        Active::Put {
            label: s.label.clone(),
            put: ActivePut {
                path: s.local.clone(),
                streaming: false,
                next_offset: s.offset,
                size: s.size,
                awaiting_done: false,
                last_pct: 0,
            },
        }
    }
}

impl Transfers {
    /// What is kept of the transfers when the link breaks.
    pub fn save_session_state(&self) -> (r: Vec<TransferState>)
        ensures
            distinct(keyed(r@)),
            map_of(keyed(r@)) == kept_map(self@.map),
    {
        let all = numbers(&self.entries);
        let mut r: Vec<TransferState> = Vec::new();
        let mut i: usize = 0;
        assert(map_of(keyed(r@)) =~= Map::empty());
        while i < all.len()
            invariant
                i <= all@.len(),
                all@.no_duplicates(),
                forall|id: u32| all@.contains(id) == self@.map.dom().contains(id),
                distinct(keyed(r@)),
                forall|id: u32| #[trigger]
                    map_of(keyed(r@)).dom().contains(id) == all@.take(i as int).contains(id),
                forall|id: u32| #[trigger]
                    map_of(keyed(r@)).dom().contains(id) ==> map_of(keyed(r@))[id] == kept_of(
                        id,
                        self@.map[id],
                    ),
            decreases all@.len() - i,
        {
            let id: u32 = all[i];
            let ghost had = keyed(r@);
            let ghost seen = all@.take(i as int);
            proof {
                assert(all@.contains(id));
                assert(all@.take(i + 1) =~= seen.push(id));
                assert(!seen.contains(id)) by {
                    if seen.contains(id) {
                        let k = seen.index_of(id);
                        assert(all@[k] == all@[i as int]);
                    }
                }
                assert forall|q: u32| all@.take(i + 1).contains(q) == (seen.contains(q) || q
                    == id) by {
                    lemma_push_contains(seen, id, q);
                }
                lemma_map_push(had, id, kept_of(id, self@.map[id]));
            }
            if let Some(a) = self.find(id) {
                r.push(keep(id, a));
            }
            assert(keyed(r@) =~= had.push((id, kept_of(id, self@.map[id]))));
            i += 1;
        }
        assert(all@.take(i as int) =~= all@);
        assert(map_of(keyed(r@)) =~= kept_map(self@.map));
        r
    }

    /// The transfers that were kept, taken up again.
    pub fn resume(kept: &Vec<TransferState>) -> (r: Self)
        requires
            forall|i: int| 0 <= i < kept@.len() ==> (#[trigger] kept@[i]).id < u32::MAX,
        ensures
            r@ == resumed(kept_list(kept@)),
    {
        let mut t = Transfers::new();
        let mut i: usize = 0;
        assert(kept_list(kept@).take(0) =~= Seq::empty());
        while i < kept.len()
            invariant
                i <= kept@.len(),
                forall|k: int| 0 <= k < kept@.len() ==> (#[trigger] kept@[k]).id < u32::MAX,
                t@ == resumed(kept_list(kept@).take(i as int)),
            decreases kept@.len() - i,
        {
            let ghost before = t@;
            let k = &kept[i];
            let id: u32 = k.id;
            let a = take_up(k);
            let ghost av = a@;
            let _ = t.remove(id);
            if id + 1 > t.next_id {
                proof {
                    use_type_invariant(&t);
                    let m = active_map(t.entries@);
                    assert forall|q: u32| #[trigger] m.dom().contains(q) implies q < id + 1 by {
                        assert(t@.map.dom().contains(q));
                    }
                }
                t = Transfers { entries: t.entries, next_id: id + 1, outcome: t.outcome };
            }
            t.store(id, a);
            proof {
                let ks = kept_list(kept@).take(i + 1);
                assert(ks.drop_last() =~= kept_list(kept@).take(i as int));
                assert(ks.last() == kept@[i as int]@);
                assert(t@.map =~= before.map.insert(id, av));
            }
            i += 1;
        }
        assert(kept_list(kept@).take(i as int) =~= kept_list(kept@));
        t
    }
}

/// Transfers that were kept, each once, are all there again and no others.
pub proof fn kept_transfers_are_resumed(kept: Seq<KeptView>)
    requires
        forall|i: int, j: int|
            0 <= i < j < kept.len() ==> (#[trigger] kept[i]).id != (#[trigger] kept[j]).id,
    ensures
        forall|i: int|
            0 <= i < kept.len() ==> resumed(kept).map.dom().contains((#[trigger] kept[i]).id)
                && resumed(kept).map[kept[i].id] == resumed_of(kept[i]),
        forall|id: u32| #[trigger]
            resumed(kept).map.dom().contains(id) ==> exists|i: int|
                0 <= i < kept.len() && (#[trigger] kept[i]).id == id,
    decreases kept.len(),
{
    if kept.len() > 0 {
        let init = kept.drop_last();
        assert forall|i: int, j: int| 0 <= i < j < init.len() implies (#[trigger] init[i]).id != (
        #[trigger] init[j]).id by {
            assert(init[i] == kept[i] && init[j] == kept[j]);
        }
        kept_transfers_are_resumed(init);
        assert forall|i: int| 0 <= i < kept.len() implies resumed(kept).map.dom().contains(
            (#[trigger] kept[i]).id,
        ) && resumed(kept).map[kept[i].id] == resumed_of(kept[i]) by {
            if i < init.len() {
                assert(init[i] == kept[i]);
                assert(kept[i].id != kept[kept.len() - 1].id);
            }
        }
        assert forall|id: u32| #[trigger] resumed(kept).map.dom().contains(id) implies exists|i: int|
            0 <= i < kept.len() && (#[trigger] kept[i]).id == id by {
            if id == kept.last().id {
                assert(kept[kept.len() - 1].id == id);
            } else {
                let i = choose|i: int| 0 <= i < init.len() && (#[trigger] init[i]).id == id;
                assert(kept[i].id == id);
            }
        }
    }
}

// ---------------------------------------------------------------- laws

/// Several pieces of a download written one after the other.
pub open spec fn got_all(tx: GetView, pieces: Seq<Seq<u8>>) -> GetView
    decreases pieces.len(),
{
    if pieces.len() == 0 {
        tx
    } else {
        got(got_all(tx, pieces.drop_last()), pieces.last()).0
    }
}

/// All bytes of some pieces.
pub open spec fn joined(pieces: Seq<Seq<u8>>) -> Seq<u8>
    decreases pieces.len(),
{
    if pieces.len() == 0 {
        Seq::empty()
    } else {
        joined(pieces.drop_last()) + pieces.last()
    }
}

/// The digest of a download covers all its bytes in their order, and its count
/// is their number.
pub proof fn download_covers_all_bytes(tx: GetView, pieces: Seq<Seq<u8>>)
    requires
        tx.written + joined(pieces).len() <= u64::MAX,
    ensures
        got_all(tx, pieces).hashed == tx.hashed + joined(pieces),
        got_all(tx, pieces).written == tx.written + joined(pieces).len(),
    decreases pieces.len(),
{
    if pieces.len() == 0 {
        assert(tx.hashed + joined(pieces) =~= tx.hashed);
    } else {
        download_covers_all_bytes(tx, pieces.drop_last());
        assert((tx.hashed + joined(pieces.drop_last())) + pieces.last() =~= tx.hashed + joined(
            pieces,
        ));
    }
}

/// A download is reported as good exactly where the digest of its bytes is the
/// one that the host announced; it is then gone from the transfers.
pub proof fn download_is_verified(t: TransfersView, id: u32)
    requires
        t.has_get(id),
    ensures
        !finalized(t, id).0.map.dom().contains(id),
        finalized(t, id).1 matches MetaActionView::Finished { id: i, label, written, ok, digest }
            && i == id && ok == (lowered(digest) == lowered(t.map[id]->get.expect_sha)) && digest
            == hex_text(sha256(t.map[id]->get.hashed)),
{
}

/// A message or a piece of data for one transfer leaves all others as they are.
pub proof fn transfers_are_apart(t: TransfersView, json: Seq<char>, other: u32)
    requires
        field_number(json, "id"@, u32::MAX as nat) != Some(other as nat),
    ensures
        meta_step(t, json).0.map.dom().contains(other) == t.map.dom().contains(other),
        t.map.dom().contains(other) ==> meta_step(t, json).0.map[other] == t.map[other],
{
}

/// The first end of a transfer settles the outcome for good.
pub proof fn outcome_is_settled_once(t: TransfersView, json: Seq<char>)
    requires
        t.outcome != Outcome::Running,
    ensures
        meta_step(t, json).0.outcome == t.outcome,
{
}

/// Several pieces of an upload read one after the other: the transfers after
/// them, and what was sent.
pub open spec fn pumped(t: TransfersView, id: u32, pieces: Seq<Seq<u8>>) -> (
    TransfersView,
    Seq<Seq<u8>>,
)
    decreases pieces.len(),
{
    if pieces.len() == 0 {
        (t, Seq::empty())
    } else {
        let (u, sent) = pumped(t, id, pieces.drop_last());
        match pump_step(u, id, pieces.last()) {
            (v, PumpActionView::Chunk { payload, tell }) => (v, sent.push(payload)),
            (v, _) => (v, sent),
        }
    }
}

/// No piece is empty.
pub open spec fn none_empty(pieces: Seq<Seq<u8>>) -> bool {
    forall|k: int| 0 <= k < pieces.len() ==> (#[trigger] pieces[k]).len() > 0
}

/// The pieces of an upload are sent in their order, each with its place in the
/// file; a download that begins where the upload begins takes every one of
/// them.
pub proof fn upload_reaches_download(
    t: TransfersView,
    id: u32,
    pieces: Seq<Seq<u8>>,
    r: TransfersView,
    k: int,
)
    requires
        t.map.dom().contains(id),
        is_streaming(t.map[id]),
        t.map[id]->put.next_offset + joined(pieces).len() <= u64::MAX,
        none_empty(pieces),
        r.has_get(id),
        r.map[id]->get.open,
        r.map[id]->get.written == t.map[id]->put.next_offset,
        0 <= k < pieces.len(),
    ensures
        pumped(t, id, pieces).1.len() == pieces.len(),
        chunk_parts(pumped(t, id, pieces).1[k]) == Some(
            (
                id,
                (t.map[id]->put.next_offset + joined(pieces.take(k)).len()) as u64,
                pieces[k],
            ),
        ),
        ({
            let got_so_far = ActiveView::Get {
                label: r.map[id].label(),
                get: got_all(r.map[id]->get, pieces.take(k)),
            };
            wanted_chunk(r.with(id, got_so_far), pumped(t, id, pieces).1[k]) == Some(
                (id, pieces[k]),
            )
        }),
    decreases pieces.len(),
{
    let rest = pieces.drop_last();
    lemma_joined_take(pieces, k);
    lemma_pumped(t, id, pieces);
    lemma_pumped(t, id, rest);
    if k < pieces.len() - 1 {
        assert(none_empty(rest)) by {
            assert forall|j: int| 0 <= j < rest.len() implies (#[trigger] rest[j]).len() > 0 by {
                assert(rest[j] == pieces[j]);
            }
        }
        upload_reaches_download(t, id, rest, r, k);
        assert(rest.take(k) =~= pieces.take(k));
    } else {
        assert(pieces.take(k) =~= rest);
        let offset = (t.map[id]->put.next_offset + joined(rest).len()) as u64;
        chunk_reads_back(id, offset, pieces[k]);
    }
    download_covers_all_bytes(r.map[id]->get, pieces.take(k));
    lemma_got_keeps_open(r.map[id]->get, pieces.take(k));
}

/// The first pieces hold no more bytes than all of them.
proof fn lemma_joined_take(pieces: Seq<Seq<u8>>, k: int)
    requires
        0 <= k <= pieces.len(),
    ensures
        joined(pieces.take(k)).len() <= joined(pieces).len(),
    decreases pieces.len(),
{
    if k == pieces.len() {
        assert(pieces.take(k) =~= pieces);
    } else {
        assert(pieces.drop_last().take(k) =~= pieces.take(k));
        lemma_joined_take(pieces.drop_last(), k);
    }
}

/// An upload goes on from where it is by what was read.
proof fn lemma_pumped(t: TransfersView, id: u32, pieces: Seq<Seq<u8>>)
    requires
        t.map.dom().contains(id),
        is_streaming(t.map[id]),
        t.map[id]->put.next_offset + joined(pieces).len() <= u64::MAX,
        none_empty(pieces),
    ensures
        ({
            let (u, sent) = pumped(t, id, pieces);
            &&& u.map.dom().contains(id)
            &&& is_streaming(u.map[id])
            &&& u.map[id]->put.next_offset == t.map[id]->put.next_offset + joined(pieces).len()
            &&& sent.len() == pieces.len()
        }),
    decreases pieces.len(),
{
    if pieces.len() > 0 {
        let rest = pieces.drop_last();
        assert(none_empty(rest)) by {
            assert forall|j: int| 0 <= j < rest.len() implies (#[trigger] rest[j]).len() > 0 by {
                assert(rest[j] == pieces[j]);
            }
        }
        assert(pieces[pieces.len() - 1].len() > 0);
        lemma_pumped(t, id, rest);
    }
}

/// A download stays open while it takes pieces.
proof fn lemma_got_keeps_open(tx: GetView, pieces: Seq<Seq<u8>>)
    ensures
        got_all(tx, pieces).open == tx.open,
    decreases pieces.len(),
{
    if pieces.len() > 0 {
        lemma_got_keeps_open(tx, pieces.drop_last());
    }
}

} // verus!
