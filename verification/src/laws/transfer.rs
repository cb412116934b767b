//! File transfers: what the host's messages and the pieces of the files do to
//! them.

use crate::client_session::FileFacts;
use crate::digest::{MESSAGE_LIMIT, sha256};
use crate::laws::message::{
    eof_messages_read_back, pull_messages_read_back, push_messages_read_back,
};
use crate::message::{field_number, field_text};
use crate::mux::{chunk_bytes, chunk_parts, chunk_reads_back};
use crate::resume::{
    KeptView, SessionState, TransferState, kept_list, kept_of, label_end, label_start,
    label_tells_remote, resumed,
};
use crate::table::{lemma_map_at, map_of};
use crate::text::{encoded_text_reads_back, has_part, lowered, stands_at};
use crate::token::hex_text;
use crate::transfer::{
    ActiveView, FileDigest, GetView, MetaAction, Outcome, PumpAction, Transfers, TransfersView,
    digest_matches, download_covers_all_bytes, got_all, joined, kept_transfers_are_resumed, keyed,
    none_empty, pct_view, percent, pumped, room_for, settle, upload_reaches_download,
};
use vstd::prelude::*;
use vstd::string::*;
use vstd::utf8::*;

verus! {

// ---------------------------------------------------------------- the messages of the host

/// A message says of which type it is and for which transfer.
pub open spec fn is_about(json: Seq<char>, kind: Seq<char>, id: u32) -> bool {
    field_text(json, "t"@) == Some(kind) && field_number(json, "id"@, u32::MAX as nat) == Some(
        id as nat,
    )
}

/// Where the host has `r` bytes of a file, the upload goes on from exactly
/// there: a file of at least that size is opened at the offset `r`, a shorter
/// one at its end, and one of which the host says nothing at its beginning.
pub proof fn uploads_go_on_where_the_host_ends(
    t: &mut Transfers,
    json: &str,
    a: MetaAction,
    id: u32,
)
    requires
        call_ensures(Transfers::on_meta_text, (t, json), a),
        is_about(json@, "ready"@, id),
        old(t)@.has_put(id),
    ensures
        final(t)@ == old(t)@,
        a is OpenUpload,
        a->OpenUpload_id == id,
        a->path@ == old(t)@.map[id]->put.path,
        a->start <= old(t)@.map[id]->put.size,
        field_number(json@, "resume"@, u64::MAX as nat) matches Some(r) ==> (r <= old(
            t,
        )@.map[id]->put.size ==> a->start == r),
        field_number(json@, "resume"@, u64::MAX as nat) matches Some(r) ==> (r >= old(
            t,
        )@.map[id]->put.size ==> a->start == old(t)@.map[id]->put.size),
        field_number(json@, "resume"@, u64::MAX as nat) is None ==> a->start == 0,
{
    lemma_message_kinds();
}

/// The bytes that the host has, followed by the pieces that are sent, are the
/// whole file. Each piece says where it belongs, and these are the file's bytes
/// there. `t` hears that the host is ready and has `r` bytes; `u` is told that
/// the file is open; the pieces are what can be read from there on.
pub proof fn uploads_complete_the_file(
    t: &mut Transfers,
    json: &str,
    a: MetaAction,
    u: &mut Transfers,
    id: u32,
    r: u64,
    file: Seq<u8>,
    pieces: Seq<Seq<u8>>,
)
    requires
        call_ensures(Transfers::on_meta_text, (t, json), a),
        is_about(json@, "ready"@, id),
        field_number(json@, "resume"@, u64::MAX as nat) == Some(r as nat),
        old(t)@.has_put(id),
        !old(t)@.map[id]->put.awaiting_done,
        old(t)@.map[id]->put.size == file.len(),
        r <= file.len(),
        *old(u) == *final(t),
        call_ensures(Transfers::upload_opened, (u, id, a->start), ()),
        joined(pieces) == file.skip(a->start as int),
        none_empty(pieces),
    ensures
        file.take(r as int) + joined(pieces) == file,
        pumped(final(u)@, id, pieces).1.len() == pieces.len(),
        forall|k: int|
            0 <= k < pieces.len() ==> {
                let sent = chunk_parts(#[trigger] pumped(final(u)@, id, pieces).1[k]);
                &&& sent matches Some((i, o, d)) && i == id && d == pieces[k] && r <= o && o
                    + d.len() <= file.len() && d == file.subrange(o as int, o + d.len())
            },
{
    uploads_go_on_where_the_host_ends(t, json, a, id);
    assert(file.take(r as int) + file.skip(r as int) =~= file);
    let v = final(u)@;
    let holder = TransfersView {
        map: Map::empty().insert(
            id,
            ActiveView::Get {
                label: Seq::empty(),
                get: GetView {
                    local: Seq::empty(),
                    open: true,
                    written: r,
                    size: 0,
                    expect_sha: Seq::empty(),
                    hashed: Seq::empty(),
                    seeded: true,
                    last_pct: 0,
                },
            },
        ),
        next_id: 1,
        outcome: Outcome::Running,
    };
    if pieces.len() == 0 {
        assert(pumped(v, id, pieces).1.len() == 0);
    } else {
        upload_reaches_download(v, id, pieces, holder, 0);
    }
    assert forall|k: int| 0 <= k < pieces.len() implies {
        let sent = chunk_parts(#[trigger] pumped(final(u)@, id, pieces).1[k]);
        &&& sent matches Some((i, o, d)) && i == id && d == pieces[k] && r <= o && o + d.len()
            <= file.len() && d == file.subrange(o as int, o + d.len())
    } by {
        upload_reaches_download(v, id, pieces, holder, k);
        lemma_piece_in_joined(pieces, k);
        let n = joined(pieces.take(k)).len() as int;
        let o = r + n;
        assert(pieces[k] =~= file.subrange(o, o + pieces[k].len())) by {
            assert forall|i: int| 0 <= i < pieces[k].len() implies #[trigger] pieces[k][i] == file[o
                + i] by {
                assert(joined(pieces).subrange(n, n + pieces[k].len())[i] == joined(pieces)[n + i]);
                assert(file.skip(r as int)[n + i] == file[r + (n + i)]);
            }
        }
    }
}

proof fn lemma_piece_in_joined(pieces: Seq<Seq<u8>>, k: int)
    requires
        0 <= k < pieces.len(),
    ensures
        joined(pieces.take(k)).len() + pieces[k].len() <= joined(pieces).len(),
        joined(pieces).subrange(
            joined(pieces.take(k)).len() as int,
            joined(pieces.take(k)).len() + pieces[k].len() as int,
        ) == pieces[k],
    decreases pieces.len(),
{
    let rest = pieces.drop_last();
    if k == pieces.len() - 1 {
        assert(pieces.take(k) =~= rest);
        assert(joined(pieces).subrange(joined(rest).len() as int, joined(pieces).len() as int)
            =~= pieces[k]);
    } else {
        assert(pieces.take(k) =~= rest.take(k));
        assert(rest[k] == pieces[k]);
        lemma_piece_in_joined(rest, k);
        let a = joined(pieces.take(k)).len() as int;
        assert(joined(pieces).subrange(a, a + pieces[k].len()) =~= joined(rest).subrange(
            a,
            a + pieces[k].len(),
        ));
    }
}

/// What the host says of a file that was asked for opens that file here, with
/// the size and the digest that were announced; what was there before is hashed
/// first. Said again while the file is open it does nothing.
pub proof fn announced_files_are_opened(t: &mut Transfers, json: &str, a: MetaAction, id: u32)
    requires
        call_ensures(Transfers::on_meta_text, (t, json), a),
        is_about(json@, "meta"@, id),
        old(t)@.has_get(id),
    ensures
        final(t)@ == old(t)@,
        old(t)@.map[id]->get.open ==> a is Nothing,
        !old(t)@.map[id]->get.open ==> {
            &&& a is OpenDownload
            &&& a->OpenDownload_id == id
            &&& a->local@ == old(t)@.map[id]->get.local
            &&& field_number(json@, "size"@, u64::MAX as nat) matches Some(n) ==> a->OpenDownload_size == n
            &&& field_text(json@, "sha256"@) matches Some(d) ==> a->sha256@ == d
            &&& a->prefix <==> old(t)@.map[id]->get.written > 0 && !old(t)@.map[id]->get.seeded
        },
{
    lemma_message_kinds();
}

/// The end of a download that the host tells counts once all its bytes are
/// there. The download is then good exactly where the digest of its bytes is
/// the announced one, and is gone either way.
pub proof fn told_ends_wait_for_all_bytes(t: &mut Transfers, json: &str, a: MetaAction, id: u32)
    requires
        call_ensures(Transfers::on_meta_text, (t, json), a),
        is_about(json@, "eof"@, id),
        old(t)@.has_get(id),
    ensures
        old(t)@.map[id]->get.written < old(t)@.map[id]->get.size ==> a is Nothing && final(t)@
            == old(t)@,
        old(t)@.map[id]->get.written >= old(t)@.map[id]->get.size ==> {
            &&& a is Finished
            &&& a->Finished_id == id
            &&& a->Finished_label@ == old(t)@.map[id].label()
            &&& a->written == old(t)@.map[id]->get.written
            &&& a->digest@ == hex_text(sha256(old(t)@.map[id]->get.hashed))
            &&& a->Finished_ok <==> lowered(a->digest@) == lowered(old(t)@.map[id]->get.expect_sha)
            &&& final(t)@.map == old(t)@.map.remove(id)
            &&& final(t)@.next_id == old(t)@.next_id
            &&& old(t)@.outcome == Outcome::Running ==> final(t)@.outcome == if a->Finished_ok {
                Outcome::Done
            } else {
                Outcome::Failed
            }
            &&& old(t)@.outcome != Outcome::Running ==> final(t)@.outcome == old(t)@.outcome
        },
{
    lemma_message_kinds();
}

/// The host's word ends a transfer: as good exactly where it says so, as failed
/// where it says what went wrong. The transfer is gone, the others stay.
pub proof fn hosts_word_ends_transfers(t: &mut Transfers, json: &str, a: MetaAction, id: u32)
    requires
        call_ensures(Transfers::on_meta_text, (t, json), a),
        is_about(json@, "done"@, id) || is_about(json@, "error"@, id),
        old(t)@.map.dom().contains(id),
    ensures
        final(t)@.map == old(t)@.map.remove(id),
        final(t)@.next_id == old(t)@.next_id,
        old(t)@.outcome != Outcome::Running ==> final(t)@.outcome == old(t)@.outcome,
        is_about(json@, "done"@, id) ==> {
            &&& a is Done
            &&& a->Done_label@ == old(t)@.map[id].label()
            &&& a->Done_ok <==> field_text(json@, "ok"@) == Some(seq!['t', 'r', 'u', 'e'])
            &&& old(t)@.outcome == Outcome::Running ==> final(t)@.outcome == if a->Done_ok {
                Outcome::Done
            } else {
                Outcome::Failed
            }
        },
        is_about(json@, "error"@, id) ==> {
            &&& a is Failed
            &&& a->Failed_label@ == old(t)@.map[id].label()
            &&& field_text(json@, "code"@) matches Some(c) ==> a->code@ == c
            &&& field_text(json@, "msg"@) matches Some(m) ==> a->msg@ == m
            &&& old(t)@.outcome == Outcome::Running ==> final(t)@.outcome == Outcome::Failed
        },
{
    lemma_message_kinds();
    reveal_strlit("true");
    assert("true"@ =~= seq!['t', 'r', 'u', 'e']);
}

/// A message that is for no transfer of its sort changes nothing: one for a
/// download that is not there, for an upload that is not there, or for neither,
/// and one of any other type.
pub proof fn stray_messages_change_nothing(
    t: &mut Transfers,
    json: &str,
    a: MetaAction,
    kind: Seq<char>,
    id: u32,
)
    requires
        call_ensures(Transfers::on_meta_text, (t, json), a),
        is_about(json@, kind, id),
        kind == "meta"@ ==> !old(t)@.has_get(id),
        kind == "ready"@ ==> !old(t)@.has_put(id),
        kind == "eof"@ ==> !old(t)@.has_get(id),
        kind == "done"@ || kind == "error"@ ==> !old(t)@.map.dom().contains(id),
    ensures
        final(t)@ == old(t)@,
        kind == "meta"@ || kind == "ready"@ ==> a is Unknown && a->Unknown_id == id,
        kind != "meta"@ && kind != "ready"@ ==> a is Nothing,
{
    lemma_message_kinds();
}

/// A text that is no message changes nothing.
pub proof fn other_texts_change_nothing(t: &mut Transfers, json: &str, a: MetaAction)
    requires
        call_ensures(Transfers::on_meta_text, (t, json), a),
        field_text(json@, "t"@) is None || field_number(json@, "id"@, u32::MAX as nat) is None,
    ensures
        final(t)@ == old(t)@,
        a is Nothing,
{
}

/// Messages that arrive as bytes do what their text does.
pub proof fn messages_arrive_as_bytes(
    t: &mut Transfers,
    payload: &[u8],
    a: MetaAction,
    u: &mut Transfers,
    json: &str,
    b: MetaAction,
)
    requires
        payload@ == encode_utf8(json@),
        call_ensures(Transfers::handle_meta_json, (t, payload), a),
        call_ensures(Transfers::on_meta_text, (u, json), b),
        old(t)@ == old(u)@,
    ensures
        a@ == b@,
        final(t)@ == final(u)@,
{
    encoded_text_reads_back(json@);
}

proof fn lemma_message_kinds()
    ensures
        "ready"@ != "meta"@,
        "eof"@ != "meta"@,
        "eof"@ != "ready"@,
        "done"@ != "meta"@,
        "done"@ != "ready"@,
        "done"@ != "eof"@,
        "error"@ != "meta"@,
        "error"@ != "ready"@,
        "error"@ != "eof"@,
        "error"@ != "done"@,
{
    reveal_strlit("meta");
    reveal_strlit("ready");
    reveal_strlit("eof");
    reveal_strlit("done");
    reveal_strlit("error");
    assert("meta"@.len() == 4 && "ready"@.len() == 5 && "eof"@.len() == 3 && "done"@.len() == 4
        && "error"@.len() == 5);
    assert("meta"@[0] == 'm' && "done"@[0] == 'd');
    assert("ready"@[0] == 'r' && "error"@[0] == 'e');
}

// ---------------------------------------------------------------- beginnings

/// Every transfer that begins gets a number of its own, above all that are
/// there, and leaves the others alone.
pub open spec fn joins(t: TransfersView, u: TransfersView, id: u32) -> bool {
    &&& id == t.next_id
    &&& u.next_id == id + 1
    &&& u.outcome == t.outcome
    &&& u.map.dom() == t.map.dom().insert(id)
    &&& !t.map.dom().contains(id)
    &&& forall|other: u32| #[trigger] t.map.dom().contains(other) ==> u.map[other] == t.map[other]
}

/// A download that begins asks the host for the file by its name there, under
/// the number of the download, and says how many bytes are here; the file goes
/// to the local name, behind those bytes.
pub proof fn downloads_begin(
    t: &mut Transfers,
    remote: &str,
    local: &str,
    have: u64,
    json: String,
    id: u32,
)
    requires
        call_ensures(Transfers::start_get, (t, remote, local, have), json),
        id == old(t)@.next_id,
        id < u32::MAX,
    ensures
        is_about(json@, "pull"@, id),
        field_text(json@, "name"@) == Some(remote@),
        field_number(json@, "have"@, u64::MAX as nat) == Some(have as nat),
        joins(old(t)@, final(t)@, id),
        final(t)@.has_get(id),
        final(t)@.map[id].label() == remote@ + seq![' ', '-', '>', ' '] + local@,
        final(t)@.map[id]->get.local == local@,
        final(t)@.map[id]->get.written == have,
        final(t)@.map[id]->get.hashed == Seq::<u8>::empty(),
        !final(t)@.map[id]->get.open,
        !final(t)@.map[id]->get.seeded,
        final(t)@.map[id]->get.last_pct == -1,
{
    pull_messages_read_back(id, remote@, have);
    reveal_strlit(" -> ");
    assert(" -> "@ =~= seq![' ', '-', '>', ' ']);
}

/// An upload that begins offers the file to the host by its name there, under
/// the number of the upload, with its size and digest; nothing is sent before
/// the host is ready.
pub proof fn uploads_begin(
    t: &mut Transfers,
    local: &str,
    remote: &str,
    size: u64,
    digest: &str,
    json: String,
    id: u32,
)
    requires
        call_ensures(Transfers::start_put, (t, local, remote, size, digest), json),
        id == old(t)@.next_id,
        id < u32::MAX,
        forall|i: int|
            0 <= i < digest@.len() ==> (#[trigger] digest@[i]) != '"' && digest@[i] != '\\'
                && digest@[i] as u32 >= 0x20,
    ensures
        is_about(json@, "push"@, id),
        field_text(json@, "name"@) == Some(remote@),
        field_number(json@, "size"@, u64::MAX as nat) == Some(size as nat),
        field_text(json@, "sha256"@) == Some(digest@),
        joins(old(t)@, final(t)@, id),
        final(t)@.has_put(id),
        final(t)@.map[id].label() == local@ + seq![' ', '-', '>', ' '] + remote@,
        final(t)@.map[id]->put.path == local@,
        final(t)@.map[id]->put.size == size,
        !final(t)@.map[id]->put.streaming,
        !final(t)@.map[id]->put.awaiting_done,
        final(t)@.map[id]->put.next_offset == 0,
        final(t)@.map[id]->put.last_pct == 0,
{
    push_messages_read_back(id, remote@, size, digest@);
    reveal_strlit(" -> ");
    assert(" -> "@ =~= seq![' ', '-', '>', ' ']);
}

/// The first transfer has the number 1.
pub proof fn numbers_begin_at_one(t: Transfers)
    requires
        call_ensures(Transfers::new, (), t),
    ensures
        t@.next_id == 1,
        t@.map.dom() =~= Set::empty(),
        t@.outcome == Outcome::Running,
{
}

/// A transfer that could not begin or whose file cannot be opened has failed,
/// unless an end was settled before; the others stay.
pub proof fn transfers_without_files_fail(t: &mut Transfers, u: &mut Transfers, id: u32)
    requires
        call_ensures(Transfers::open_failed, (t, id), ()),
        call_ensures(Transfers::not_started, (u,), ()),
    ensures
        final(t)@.map == old(t)@.map.remove(id),
        final(t)@.next_id == old(t)@.next_id,
        final(t)@.outcome == (if old(t)@.outcome == Outcome::Running {
            Outcome::Failed
        } else {
            old(t)@.outcome
        }),
        final(u)@.map == old(u)@.map,
        final(u)@.next_id == old(u)@.next_id,
        final(u)@.outcome == (if old(u)@.outcome == Outcome::Running {
            Outcome::Failed
        } else {
            old(u)@.outcome
        }),
{
}

// ---------------------------------------------------------------- the pieces of a file

/// A piece of a file is written exactly where its transfer is a download with
/// an open file and the piece begins where that file ends.
pub proof fn pieces_join_their_file(
    t: &Transfers,
    payload: &[u8],
    r: Option<(u32, Vec<u8>)>,
    id: u32,
    offset: u64,
    data: Seq<u8>,
)
    requires
        call_ensures(Transfers::accept_chunk, (t, payload), r),
        payload@ == chunk_bytes(id, offset, data),
    ensures
        r is Some <==> t@.has_get(id) && t@.map[id]->get.open && t@.map[id]->get.written == offset,
        r matches Some(p) ==> p.0 == id && p.1@ == data,
{
    chunk_reads_back(id, offset, data);
}

/// How a part of a whole is told: in percent, rounded down.
pub open spec fn tells_part(p: int, done: nat, size: nat) -> bool {
    &&& 0 <= p <= 100
    &&& done >= size ==> p == 100
    &&& done < size ==> p * size <= done * 100 < (p + 1) * size
}

proof fn lemma_percent_tells(done: nat, size: nat)
    ensures
        tells_part(percent(done, size), done, size),
{
    let p = percent(done, size);
    if size > 0 {
        let d = if done < size { done } else { size };
        assert(p == d * 100 / size);
        assert(p * size <= d * 100 < (p + 1) * size && 0 <= p <= 100) by (nonlinear_arith)
            requires
                p == d * 100 / size,
                0 <= d <= size,
                size > 0,
        {
        }
        assert(d == size ==> p == 100) by (nonlinear_arith)
            requires
                p == d * 100 / size,
                size > 0,
        {
        }
    }
}

/// A piece that was written lengthens the file by its bytes, and the digest
/// covers them behind the others. With the last byte the download ends: good
/// exactly where the digest of all bytes is the announced one.
pub proof fn written_pieces_count(
    t: &mut Transfers,
    id: u32,
    data: &[u8],
    r: (Option<i64>, MetaAction),
)
    requires
        old(t)@.has_get(id),
        room_for(old(t)@, id, data@.len()),
        call_ensures(Transfers::handle_chunk, (t, id, data, true), r),
    ensures
        ({
            let tx = old(t)@.map[id]->get;
            let n = tx.written + data@.len();
            let all = tx.hashed + data@;
            let complete = tx.size > 0 && n >= tx.size;
            &&& final(t)@.next_id == old(t)@.next_id
            &&& !complete ==> {
                &&& r.1 is Nothing
                &&& final(t)@.outcome == old(t)@.outcome
                &&& final(t)@.map.dom() =~= old(t)@.map.dom()
                &&& final(t)@.has_get(id)
                &&& final(t)@.map[id].label() == old(t)@.map[id].label()
                &&& final(t)@.map[id]->get.written == n
                &&& final(t)@.map[id]->get.hashed == all
                &&& final(t)@.map[id]->get.open == tx.open
                &&& final(t)@.map[id]->get.size == tx.size
                &&& final(t)@.map[id]->get.local == tx.local
                &&& final(t)@.map[id]->get.expect_sha == tx.expect_sha
            }
            &&& complete ==> {
                &&& r.1 is Finished
                &&& r.1->Finished_id == id
                &&& r.1->Finished_label@ == old(t)@.map[id].label()
                &&& r.1->written == n
                &&& r.1->digest@ == hex_text(sha256(all))
                &&& r.1->Finished_ok <==> lowered(hex_text(sha256(all))) == lowered(tx.expect_sha)
                &&& final(t)@.map.dom() =~= old(t)@.map.dom().remove(id)
                &&& old(t)@.outcome == Outcome::Running ==> final(t)@.outcome
                    == if r.1->Finished_ok {
                    Outcome::Done
                } else {
                    Outcome::Failed
                }
                &&& old(t)@.outcome != Outcome::Running ==> final(t)@.outcome == old(t)@.outcome
            }
            &&& forall|other: u32| #[trigger]
                old(t)@.map.dom().contains(other) && other != id ==> final(t)@.map[other] == old(
                    t,
                )@.map[other]
            &&& n >= tx.size ==> r.0 == Some(100i64)
            &&& r.0 matches Some(p) ==> tells_part(p as int, n as nat, tx.size as nat)
            &&& n < tx.size ==> {
                &&& r.0 matches Some(p) ==> p >= tx.last_pct + 10
                    && final(t)@.map[id]->get.last_pct == p
                &&& r.0 is None ==> final(t)@.map[id]->get.last_pct == tx.last_pct && n * 100 < (
                tx.last_pct + 10) * tx.size
            }
        }),
{
    let tx = old(t)@.map[id]->get;
    let n = (tx.written + data@.len()) as nat;
    lemma_percent_tells(n, tx.size as nat);
    assert(r.0 matches Some(p) ==> pct_view(r.0) == Some(p as int));
    assert(n >= tx.size ==> r.0 is Some);
    let p = percent(n, tx.size as nat);
    if n < tx.size && r.0 is None {
        assert(p + 1 <= tx.last_pct + 10);
        lemma_less_told(n as int, p, tx.last_pct, tx.size as int);
    }
}

proof fn lemma_less_told(n: int, p: int, last: int, size: int)
    requires
        p + 1 <= last + 10,
        n * 100 < (p + 1) * size,
        size >= 0,
    ensures
        n * 100 < (last + 10) * size,
{
    assert((p + 1) * size <= (last + 10) * size) by (nonlinear_arith)
        requires
            p + 1 <= last + 10,
            size >= 0,
    {
    }
}

/// A piece that could not be written ends its download as failed.
pub proof fn unwritten_pieces_end_downloads(
    t: &mut Transfers,
    id: u32,
    data: &[u8],
    r: (Option<i64>, MetaAction),
)
    requires
        old(t)@.has_get(id),
        call_ensures(Transfers::handle_chunk, (t, id, data, false), r),
    ensures
        final(t)@.map == old(t)@.map.remove(id),
        final(t)@.outcome == (if old(t)@.outcome == Outcome::Running {
            Outcome::Failed
        } else {
            old(t)@.outcome
        }),
        r.0 is None,
        r.1 is Nothing,
{
}

/// A piece for no download changes nothing.
pub proof fn stray_pieces_change_nothing(
    t: &mut Transfers,
    id: u32,
    data: &[u8],
    ok: bool,
    r: (Option<i64>, MetaAction),
)
    requires
        !old(t)@.has_get(id),
        call_ensures(Transfers::handle_chunk, (t, id, data, ok), r),
    ensures
        final(t)@ == old(t)@,
        r.0 is None,
        r.1 is Nothing,
{
}

/// Once the file of a download is open it has the size and digest that were
/// announced, and takes pieces from the byte on that it had reached; what was
/// in the file is covered by the digest once it was read.
pub proof fn opened_downloads_take_pieces(
    s: &mut Transfers,
    t: &mut Transfers,
    id: u32,
    held: &[u8],
    size: u64,
    digest: String,
)
    requires
        old(s)@.has_get(id),
        call_ensures(Transfers::seed, (s, id, held), ()),
        *old(t) == *final(s),
        call_ensures(Transfers::download_opened, (t, id, size, digest), ()),
    ensures
        final(t)@.has_get(id),
        final(t)@.map.dom() =~= old(s)@.map.dom(),
        final(t)@.map[id].label() == old(s)@.map[id].label(),
        final(t)@.map[id]->get.open,
        final(t)@.map[id]->get.seeded,
        final(t)@.map[id]->get.size == size,
        final(t)@.map[id]->get.expect_sha == digest@,
        final(t)@.map[id]->get.written == old(s)@.map[id]->get.written,
        final(t)@.map[id]->get.local == old(s)@.map[id]->get.local,
        final(t)@.map[id]->get.hashed == old(s)@.map[id]->get.hashed + held@,
        final(t)@.outcome == old(s)@.outcome,
        final(t)@.next_id == old(s)@.next_id,
        forall|other: u32| #[trigger]
            old(s)@.map.dom().contains(other) && other != id ==> final(t)@.map[other] == old(
                s,
            )@.map[other],
{
}

/// A download whose bytes are those of the announced file is good, however the
/// file was cut: `held` was there before, `pieces` came one after the other.
pub proof fn whole_files_are_good(tx: GetView, held: Seq<u8>, pieces: Seq<Seq<u8>>, file: Seq<u8>)
    requires
        tx.hashed == held,
        tx.written == held.len(),
        held + joined(pieces) == file,
        file.len() <= u64::MAX,
        lowered(tx.expect_sha) == lowered(hex_text(sha256(file))),
    ensures
        got_all(tx, pieces).written == file.len(),
        digest_matches(got_all(tx, pieces).hashed, got_all(tx, pieces).expect_sha),
{
    download_covers_all_bytes(tx, pieces);
    lemma_digest_stays(tx, pieces);
}

proof fn lemma_digest_stays(tx: GetView, pieces: Seq<Seq<u8>>)
    ensures
        got_all(tx, pieces).expect_sha == tx.expect_sha,
    decreases pieces.len(),
{
    if pieces.len() > 0 {
        lemma_digest_stays(tx, pieces.drop_last());
    }
}

/// An upload that is open sends what it reads as the piece at its place, and
/// goes on behind it; at the end of the file it says how many bytes there were,
/// and sends nothing more.
pub proof fn read_pieces_are_sent(t: &mut Transfers, id: u32, data: &[u8], a: PumpAction)
    requires
        old(t)@.has_put(id),
        old(t)@.map[id]->put.streaming,
        !old(t)@.map[id]->put.awaiting_done,
        room_for(old(t)@, id, data@.len()),
        call_ensures(Transfers::pump_put, (t, id, data), a),
    ensures
        ({
            let tx = old(t)@.map[id]->put;
            let now = final(t)@.map[id]->put;
            let n = tx.next_offset + data@.len();
            &&& final(t)@.has_put(id)
            &&& final(t)@.map.dom() =~= old(t)@.map.dom()
            &&& final(t)@.map[id].label() == old(t)@.map[id].label()
            &&& final(t)@.outcome == old(t)@.outcome
            &&& final(t)@.next_id == old(t)@.next_id
            &&& now.path == tx.path && now.size == tx.size && now.streaming
            &&& now.next_offset == n
            &&& now.awaiting_done <==> data@.len() == 0
            &&& data@.len() == 0 ==> a is Eof && is_about(a->message@, "eof"@, id) && field_number(
                a->message@,
                "bytes"@,
                u64::MAX as nat,
            ) == Some(n as nat)
            &&& data@.len() > 0 ==> {
                &&& a is Chunk
                &&& chunk_parts(a->payload@) == Some((id, tx.next_offset, data@))
                &&& n >= tx.size ==> a->tell == Some(100i64)
                &&& a->tell matches Some(p) ==> tells_part(p as int, n as nat, tx.size as nat)
                &&& n < tx.size ==> (a->tell matches Some(p) ==> p >= tx.last_pct + 10
                    && now.last_pct == p)
                &&& n < tx.size && a->tell is None ==> now.last_pct == tx.last_pct && n * 100 < (
                tx.last_pct + 10) * tx.size
            }
            &&& forall|other: u32| #[trigger]
                old(t)@.map.dom().contains(other) && other != id ==> final(t)@.map[other] == old(
                    t,
                )@.map[other]
        }),
{
    let tx = old(t)@.map[id]->put;
    let n = (tx.next_offset + data@.len()) as nat;
    lemma_percent_tells(n, tx.size as nat);
    eof_messages_read_back(id, tx.next_offset);
    chunk_reads_back(id, tx.next_offset, data@);
    if data@.len() > 0 {
        assert(a is Chunk);
        assert(a->tell matches Some(p) ==> pct_view(a->tell) == Some(p as int));
        assert(n >= tx.size ==> a->tell is Some);
        let p = percent(n, tx.size as nat);
        if n < tx.size && a->tell is None {
            assert(p + 1 <= tx.last_pct + 10);
            lemma_less_told(n as int, p, tx.last_pct, tx.size as int);
        }
    }
}

/// Nothing is sent for an upload that the host is not ready for, that has told
/// its end, or that is not there.
pub proof fn other_uploads_send_nothing(t: &mut Transfers, id: u32, data: &[u8], a: PumpAction)
    requires
        !old(t)@.has_put(id) || !old(t)@.map[id]->put.streaming || old(
            t,
        )@.map[id]->put.awaiting_done,
        call_ensures(Transfers::pump_put, (t, id, data), a),
    ensures
        a is Nothing,
        final(t)@ == old(t)@,
{
}

/// The uploads that have something to send are those that are open and have
/// not told their end.
pub proof fn open_uploads_are_found(t: &Transfers, ids: Vec<u32>, id: u32)
    requires
        call_ensures(Transfers::streaming, (t,), ids),
    ensures
        ids@.contains(id) <==> t@.has_put(id) && t@.map[id]->put.streaming
            && !t@.map[id]->put.awaiting_done,
{
}

// ---------------------------------------------------------------- broken links

/// What is kept of the transfers over a broken link brings every one of them
/// back under its number, from the byte that it had reached, and no other.
pub proof fn kept_transfers_come_back(
    t: &Transfers,
    kept: &Vec<TransferState>,
    u: Transfers,
    id: u32,
)
    requires
        call_ensures(Transfers::save_session_state, (t,), *kept),
        call_ensures(Transfers::resume, (kept,), u),
        forall|i: int| 0 <= i < kept@.len() ==> (#[trigger] kept@[i]).id < u32::MAX,
    ensures
        u@.map.dom().contains(id) <==> t@.map.dom().contains(id),
        t@.has_get(id) ==> {
            &&& u@.has_get(id)
            &&& u@.map[id].label() == t@.map[id].label()
            &&& u@.map[id]->get.local == t@.map[id]->get.local
            &&& u@.map[id]->get.written == t@.map[id]->get.written
            &&& u@.map[id]->get.size == t@.map[id]->get.size
            &&& u@.map[id]->get.expect_sha == t@.map[id]->get.expect_sha
            &&& !u@.map[id]->get.open
            &&& u@.map[id]->get.hashed == Seq::<u8>::empty()
            &&& u@.map[id]->get.seeded <==> t@.map[id]->get.written == 0
        },
        t@.has_put(id) ==> {
            &&& u@.has_put(id)
            &&& u@.map[id].label() == t@.map[id].label()
            &&& u@.map[id]->put.path == t@.map[id]->put.path
            &&& u@.map[id]->put.next_offset == t@.map[id]->put.next_offset
            &&& u@.map[id]->put.size == t@.map[id]->put.size
            &&& !u@.map[id]->put.streaming
            &&& !u@.map[id]->put.awaiting_done
        },
        u@.outcome == Outcome::Running,
        u@.map.dom().contains(id) ==> id < u@.next_id,
        u@.next_id >= 1,
{
    let ks = kept_list(kept@);
    let ps = keyed(kept@);
    assert forall|i: int, j: int| 0 <= i < j < ks.len() implies (#[trigger] ks[i]).id != (
    #[trigger] ks[j]).id by {
        assert(ps[i].0 != ps[j].0);
    }
    kept_transfers_are_resumed(ks);
    assert(map_of(ps).dom().contains(id) == t@.map.dom().contains(id));
    if t@.map.dom().contains(id) {
        let i = choose|i: int| 0 <= i < ps.len() && (#[trigger] ps[i]).0 == id;
        lemma_map_at(ps, i);
        assert(ks[i].id == id);
        assert(ks[i] == kept_of(id, t@.map[id]));
    }
    if u@.map.dom().contains(id) {
        let i = choose|i: int| 0 <= i < ks.len() && (#[trigger] ks[i]).id == id;
        assert(ps[i].0 == id);
    }
    lemma_resumed_outcome(ks);
    lemma_resumed_numbers(ks, id);
}

proof fn lemma_resumed_numbers(kept: Seq<KeptView>, id: u32)
    requires
        forall|i: int| 0 <= i < kept.len() ==> (#[trigger] kept[i]).id < u32::MAX,
    ensures
        resumed(kept).map.dom().contains(id) ==> id < resumed(kept).next_id,
        resumed(kept).next_id >= 1,
    decreases kept.len(),
{
    if kept.len() > 0 {
        let init = kept.drop_last();
        assert forall|i: int| 0 <= i < init.len() implies (#[trigger] init[i]).id < u32::MAX by {
            assert(init[i] == kept[i]);
        }
        assert(kept[kept.len() - 1].id < u32::MAX);
        lemma_resumed_numbers(init, id);
    }
}

proof fn lemma_resumed_outcome(kept: Seq<KeptView>)
    ensures
        resumed(kept).outcome == Outcome::Running,
    decreases kept.len(),
{
    if kept.len() > 0 {
        lemma_resumed_outcome(kept.drop_last());
    }
}

// ---------------------------------------------------------------- digests, counts and ends

/// The digest of a file that is read piece by piece is that of all its bytes,
/// and its size their number.
pub proof fn files_are_digested_in_pieces(
    d: FileDigest,
    a: &[u8],
    e: FileDigest,
    b: &[u8],
    f: FileDigest,
    s: String,
    k: FileFacts,
)
    requires
        call_ensures(FileDigest::new, (), d),
        call_ensures(FileDigest::update, (d, a), e),
        call_ensures(FileDigest::update, (e, b), f),
        call_ensures(FileDigest::finish, (f,), s),
        call_ensures(FileDigest::facts, (f,), k),
    ensures
        s@ == hex_text(sha256(a@ + b@)),
        k matches FileFacts::Known { size, sha256: digest } && size == a@.len() + b@.len()
            && digest@ == s@,
{
    assert(Seq::<u8>::empty() + a@ =~= a@);
}

/// The transfers are counted; their outcome is that of the first to end.
pub proof fn transfers_are_counted(
    t: &Transfers,
    n: usize,
    o: Outcome,
    id: u32,
    p: Outcome,
    q: Outcome,
    r: Outcome,
)
    requires
        call_ensures(Transfers::count, (t,), n),
        call_ensures(Transfers::outcome, (t,), o),
        call_ensures(Transfers::next_id, (t,), id),
        call_ensures(settle, (Outcome::Running, true), p),
        call_ensures(settle, (Outcome::Running, false), q),
        call_ensures(settle, (Outcome::Failed, true), r),
    ensures
        n == t@.map.dom().len(),
        o == t@.outcome,
        id == t@.next_id,
        forall|k: u32| #[trigger] t@.map.dom().contains(k) ==> k < id,
        p == Outcome::Done,
        q == Outcome::Failed,
        r == Outcome::Failed,
{
}

/// What is kept of a transfer names both its ends, unless a name itself holds an
/// arrow.
pub proof fn labels_name_both_ends(
    label: &str,
    a: String,
    b: String,
    from: Seq<char>,
    to: Seq<char>,
)
    requires
        call_ensures(label_start, (label,), a),
        call_ensures(label_end, (label,), b),
        label@ == from + seq![' ', '-', '>', ' '] + to,
        forall|j: int| 0 <= j < from.len() ==> !#[trigger] stands_at(label@, " -> "@, j),
        !has_part(to, " -> "@),
    ensures
        a@ == from,
        b@ == to,
{
    reveal_strlit(" -> ");
    assert(" -> "@ =~= seq![' ', '-', '>', ' ']);
    label_tells_remote(from, to);
}

/// A session that is kept begins without input and without transfers.
pub proof fn kept_sessions_begin_empty(
    user: String,
    ip: String,
    key: String,
    port: String,
    s: SessionState,
)
    requires
        call_ensures(SessionState::new, (user, ip, key, port), s),
    ensures
        s.user == user && s.ip == ip && s.session_key == key && s.data_port == port,
        !s.input_running && s.transfers@.len() == 0,
{
}

/// What is told of a transfer that is not there, or is of the other sort,
/// changes nothing.
pub proof fn stray_files_change_nothing(
    s: &mut Transfers,
    t: &mut Transfers,
    u: &mut Transfers,
    id: u32,
    held: &[u8],
    size: u64,
    digest: String,
    start: u64,
)
    requires
        call_ensures(Transfers::seed, (s, id, held), ()),
        call_ensures(Transfers::download_opened, (t, id, size, digest), ()),
        call_ensures(Transfers::upload_opened, (u, id, start), ()),
    ensures
        !old(s)@.has_get(id) ==> final(s)@ == old(s)@,
        !old(t)@.has_get(id) ==> final(t)@ == old(t)@,
        !old(u)@.has_put(id) ==> final(u)@ == old(u)@,
        old(u)@.has_put(id) ==> final(u)@.map[id]->put.next_offset == start
            && final(u)@.map[id]->put.streaming && final(u)@.map[id]->put.path
            == old(u)@.map[id]->put.path && final(u)@.map[id]->put.size == old(u)@.map[id]->put.size
            && final(u)@.map[id].label() == old(u)@.map[id].label() && final(u)@.map.dom()
            =~= old(u)@.map.dom() && final(u)@.outcome == old(u)@.outcome,
{
}

/// There is room for more bytes while the digest and the counts can take them.
pub proof fn room_is_told(t: &Transfers, id: u32, n: usize, r: bool)
    requires
        call_ensures(Transfers::has_room, (t, id, n), r),
    ensures
        t@.has_get(id) ==> (r <==> t@.map[id]->get.hashed.len() + n < MESSAGE_LIMIT
            && t@.map[id]->get.written + n <= u64::MAX),
        t@.has_put(id) ==> (r <==> t@.map[id]->put.next_offset + n <= u64::MAX),
        !t@.map.dom().contains(id) ==> r,
{
}

} // verus!
