//! Directory listings: their order, names for copies, and remote paths.

use crate::text::{
    cat2, cat3, cat4, cat5, chars_of, cut_last, dec, decimal, lemma_lex_asymmetric,
    lemma_lex_total, lemma_lex_transitive, lemma_span, lemma_span_back_is, lemma_span_is,
    lex_less, other_than, rsplit_once, same, span, text_less, text_of, texts,
};
use vstd::prelude::*;
use vstd::string::*;

verus! {

// ---------------------------------------------------------------- entries and their order

/// One entry of a directory.
pub struct EntryView {
    pub name: Seq<char>,
    pub is_dir: bool,
    pub size: u64,
}

/// One entry of a directory.
pub struct Entry {
    pub name: String,
    pub is_dir: bool,
    pub size: u64,
}

impl View for Entry {
    type V = EntryView;

    open spec fn view(&self) -> EntryView {
        EntryView { name: self.name@, is_dir: self.is_dir, size: self.size }
    }
}

impl Clone for Entry {
    fn clone(&self) -> (r: Self)
        ensures
            r == *self,
    {
        Entry { name: self.name.clone(), is_dir: self.is_dir, size: self.size }
    }
}

/// Entries as their views.
pub open spec fn entry_list(v: Seq<Entry>) -> Seq<EntryView> {
    v.map_values(|e: Entry| e@)
}

/// A text in lower case, by the rules of Unicode.
pub uninterp spec fn lowercase(s: Seq<char>) -> Seq<char>;

/// `str::to_lowercase` of std: the text in lower case, by the rules of Unicode.
#[verifier::external_body]
pub(crate) fn to_lowercase(s: &str) -> (r: String)
    ensures
        r@ == lowercase(s@),
{
    s.to_lowercase()
}

/// An entry stands before another: directories first, then by name without
/// regard to case.
pub open spec fn goes_before(a: EntryView, b: EntryView) -> bool {
    if a.is_dir != b.is_dir {
        a.is_dir
    } else {
        lex_less(lowercase(a.name), lowercase(b.name))
    }
}

/// Entries with one more put in its place, after those that it equals.
pub open spec fn placed(s: Seq<EntryView>, e: EntryView) -> Seq<EntryView>
    decreases s.len(),
{
    if s.len() > 0 && goes_before(e, s.last()) {
        placed(s.drop_last(), e).push(s.last())
    } else {
        s.push(e)
    }
}

/// Entries in order; those that are equal keep the order that they had.
pub open spec fn in_order(s: Seq<EntryView>) -> Seq<EntryView>
    decreases s.len(),
{
    if s.len() == 0 {
        Seq::empty()
    } else {
        placed(in_order(s.drop_last()), s.last())
    }
}

/// No entry stands before an earlier one.
pub open spec fn is_ordered(s: Seq<EntryView>) -> bool {
    forall|i: int, j: int| 0 <= i < j < s.len() ==> !goes_before(#[trigger] s[j], #[trigger] s[i])
}

/// Two entries have the same place in the order.
pub open spec fn same_place(a: EntryView, b: EntryView) -> bool {
    !goes_before(a, b) && !goes_before(b, a)
}

/// The entries of a list with the same place as `k`, in their order.
pub open spec fn peers(s: Seq<EntryView>, k: EntryView) -> Seq<EntryView>
    decreases s.len(),
{
    if s.len() == 0 {
        Seq::empty()
    } else if same_place(s.last(), k) {
        peers(s.drop_last(), k).push(s.last())
    } else {
        peers(s.drop_last(), k)
    }
}

proof fn lemma_before_transitive(a: EntryView, b: EntryView, c: EntryView)
    requires
        goes_before(a, b),
        !goes_before(c, b),
    ensures
        goes_before(a, c),
{
    let (x, y, z) = (lowercase(a.name), lowercase(b.name), lowercase(c.name));
    if a.is_dir == b.is_dir && b.is_dir == c.is_dir {
        lemma_lex_total(y, z);
        if lex_less(y, z) {
            lemma_lex_transitive(x, y, z);
        }
    }
}

proof fn lemma_before_asymmetric(a: EntryView, b: EntryView)
    ensures
        !(goes_before(a, b) && goes_before(b, a)),
{
    lemma_lex_asymmetric(lowercase(a.name), lowercase(b.name));
}

proof fn lemma_placed(s: Seq<EntryView>, e: EntryView, k: EntryView)
    requires
        is_ordered(s),
    ensures
        is_ordered(placed(s, e)),
        placed(s, e).to_multiset() == s.to_multiset().insert(e),
        placed(s, e).len() == s.len() + 1,
        forall|i: int| 0 <= i < placed(s, e).len() ==> (#[trigger] placed(s, e)[i]) == e || s.contains(
            placed(s, e)[i],
        ),
        peers(placed(s, e), k) == (if same_place(e, k) {
            peers(s, k).push(e)
        } else {
            peers(s, k)
        }),
    decreases s.len(),
{
    broadcast use vstd::seq_lib::group_to_multiset_ensures;

    let p = placed(s, e);
    if s.len() > 0 && goes_before(e, s.last()) {
        let t = s.drop_last();
        assert(is_ordered(t)) by {
            assert forall|i: int, j: int| 0 <= i < j < t.len() implies !goes_before(
                #[trigger] t[j],
                #[trigger] t[i],
            ) by {
                assert(t[i] == s[i] && t[j] == s[j]);
            }
        }
        lemma_placed(t, e, k);
        let q = placed(t, e);
        assert(s =~= t.push(s.last()));
        assert(p == q.push(s.last()));
        assert forall|i: int, j: int| 0 <= i < j < p.len() implies !goes_before(
            #[trigger] p[j],
            #[trigger] p[i],
        ) by {
            if j < q.len() {
                assert(p[i] == q[i] && p[j] == q[j]);
            } else {
                assert(p[i] == q[i] && p[j] == s.last());
                if q[i] == e {
                    lemma_before_asymmetric(e, s.last());
                } else {
                    let m = t.index_of(q[i]);
                    assert(s[m] == q[i]);
                    assert(!goes_before(s[s.len() - 1], s[m]));
                }
            }
        }
        assert forall|i: int| 0 <= i < p.len() implies (#[trigger] p[i]) == e || s.contains(p[i]) by {
            if i < q.len() {
                assert(p[i] == q[i]);
                if q[i] != e {
                    let m = t.index_of(q[i]);
                    assert(s[m] == p[i]);
                }
            } else {
                assert(s[s.len() - 1] == p[i]);
            }
        }
        assert(p.to_multiset() =~= s.to_multiset().insert(e));
        assert(p.drop_last() =~= q);
        if same_place(e, k) {
            // the entry that stays last is no peer of `k`
            assert(!same_place(s.last(), k)) by {
                if same_place(s.last(), k) {
                    lemma_before_transitive(e, s.last(), k);
                }
            }
        }
    } else {
        assert forall|i: int, j: int| 0 <= i < j < p.len() implies !goes_before(
            #[trigger] p[j],
            #[trigger] p[i],
        ) by {
            if j < s.len() {
                assert(p[i] == s[i] && p[j] == s[j]);
            } else {
                assert(p[j] == e && p[i] == s[i]);
                if goes_before(e, s[i]) {
                    if i < s.len() - 1 {
                        assert(!goes_before(s[s.len() - 1], s[i]));
                        lemma_before_transitive(e, s[i], s.last());
                    }
                }
            }
        }
        assert forall|i: int| 0 <= i < p.len() implies (#[trigger] p[i]) == e || s.contains(p[i]) by {
            if i < s.len() {
                assert(s[i] == p[i]);
            }
        }
        assert(p.to_multiset() =~= s.to_multiset().insert(e));
        assert(p.drop_last() =~= s);
    }
}

/// A listing in order holds the same entries, ordered; entries with the same
/// place keep the order that they had.
pub proof fn listing_is_ordered(s: Seq<EntryView>, k: EntryView)
    ensures
        is_ordered(in_order(s)),
        in_order(s).to_multiset() == s.to_multiset(),
        peers(in_order(s), k) == peers(s, k),
    decreases s.len(),
{
    broadcast use vstd::seq_lib::group_to_multiset_ensures;

    if s.len() > 0 {
        listing_is_ordered(s.drop_last(), k);
        lemma_placed(in_order(s.drop_last()), s.last(), k);
        assert(s =~= s.drop_last().push(s.last()));
    } else {
        assert(in_order(s) =~= s);
    }
}

/// The position at which an entry is put.
proof fn lemma_placed_at(s: Seq<EntryView>, e: EntryView, n: int)
    requires
        0 <= n <= s.len(),
        forall|i: int| n <= i < s.len() ==> goes_before(e, #[trigger] s[i]),
        n > 0 ==> !goes_before(e, s[n - 1]),
    ensures
        placed(s, e) == s.insert(n, e),
    decreases s.len(),
{
    if n < s.len() {
        let t = s.drop_last();
        assert(goes_before(e, s[s.len() - 1]));
        assert forall|i: int| n <= i < t.len() implies goes_before(e, #[trigger] t[i]) by {
            assert(t[i] == s[i]);
        }
        if n > 0 {
            assert(t[n - 1] == s[n - 1]);
        }
        lemma_placed_at(t, e, n);
        assert(placed(s, e) =~= s.insert(n, e));
    } else {
        assert(s.push(e) =~= s.insert(n, e));
    }
}

fn stands_before(a: &Entry, a_key: &str, b: &Entry, b_key: &str) -> (r: bool)
    requires
        a_key@ == lowercase(a.name@),
        b_key@ == lowercase(b.name@),
    ensures
        r == goes_before(a@, b@),
{
    if a.is_dir != b.is_dir {
        a.is_dir
    } else {
        text_less(a_key, b_key)
    }
}

/// Puts the entries of a listing in order.
pub fn sort_entries(entries: Vec<Entry>) -> (r: Vec<Entry>)
    ensures
        entry_list(r@) == in_order(entry_list(entries@)),
{
    let ghost all = entry_list(entries@);
    let mut out: Vec<Entry> = Vec::new();
    let mut keys: Vec<String> = Vec::new();
    let mut i: usize = 0;
    assert(entry_list(out@) =~= in_order(all.take(0)));
    while i < entries.len()
        invariant
            i <= entries@.len(),
            all == entry_list(entries@),
            entry_list(out@) == in_order(all.take(i as int)),
            keys@.len() == out@.len(),
            forall|k: int|
                0 <= k < out@.len() ==> (#[trigger] keys@[k])@ == lowercase(out@[k].name@),
        decreases entries@.len() - i,
    {
        let e = entries[i].clone();
        let key = to_lowercase(&e.name);
        let ghost ev = e@;
        let ghost kv = key@;
        let ghost before = entry_list(out@);
        let ghost old_out = out@;
        let ghost old_keys = keys@;
        let mut n: usize = out.len();
        while n > 0 && stands_before(&e, &key, &out[n - 1], &keys[n - 1])
            invariant
                n <= out@.len(),
                before == entry_list(out@),
                ev == e@,
                kv == key@,
                kv == lowercase(ev.name),
                keys@.len() == out@.len(),
                forall|k: int|
                    0 <= k < out@.len() ==> (#[trigger] keys@[k])@ == lowercase(out@[k].name@),
                forall|k: int| n <= k < before.len() ==> goes_before(ev, #[trigger] before[k]),
            decreases n,
        {
            assert(before[n - 1] == out@[n - 1]@);
            assert(keys@[n - 1]@ == lowercase(out@[n - 1].name@));
            n -= 1;
        }
        proof {
            if n > 0 {
                assert(before[n - 1] == out@[n - 1]@);
                assert(keys@[n - 1]@ == lowercase(out@[n - 1].name@));
            }
            lemma_placed_at(before, ev, n as int);
        }
        out.insert(n, e);
        keys.insert(n, key);
        proof {
            assert(entry_list(out@) =~= before.insert(n as int, ev));
            assert(all.take(i + 1).drop_last() =~= all.take(i as int));
            assert(all.take(i + 1).last() == ev);
            assert forall|k: int| 0 <= k < out@.len() implies (#[trigger] keys@[k])@ == lowercase(
                out@[k].name@,
            ) by {
                if k < n {
                    assert(keys@[k] == old_keys[k] && out@[k] == old_out[k]);
                } else if k > n {
                    assert(keys@[k] == old_keys[k - 1] && out@[k] == old_out[k - 1]);
                }
            }
        }
        i += 1;
    }
    assert(all.take(i as int) =~= all);
    out
}

// ---------------------------------------------------------------- names for copies

/// A name without its extension, and the extension with its dot. A name that
/// only starts with a dot has none.
pub open spec fn name_parts(name: Seq<char>) -> (Seq<char>, Seq<char>) {
    match cut_last(name, '.') {
        Some((stem, ext)) => if stem.len() > 0 { (stem, "."@ + ext) } else {
            (name, Seq::empty())
        },
        None => (name, Seq::empty()),
    }
}

/// The name without its extension.
pub fn stem_of(name: &str) -> (s: String)
    ensures
        s@ == name_parts(name@).0,
{
    match rsplit_once(name, '.') {
        Some((stem, _)) => if stem.as_str().is_empty() { String::from_str(name) } else { stem },
        None => String::from_str(name),
    }
}

fn extension_of(name: &str) -> (s: String)
    ensures
        s@ == name_parts(name@).1,
{
    match rsplit_once(name, '.') {
        Some((stem, ext)) => if stem.as_str().is_empty() {
            let s = String::new();
            assert(s@ =~= Seq::empty());
            s
        } else {
            cat2(".", &ext)
        },
        None => {
            let s = String::new();
            assert(s@ =~= Seq::empty());
            s
        },
    }
}

/// Some entry has that name.
pub open spec fn is_taken(entries: Seq<EntryView>, name: Seq<char>) -> bool {
    exists|i: int| 0 <= i < entries.len() && (#[trigger] entries[i]).name == name
}

/// The name of the copy with that number.
pub open spec fn copy_name(name: Seq<char>, is_dir: bool, n: nat) -> Seq<char> {
    let (stem, ext) = name_parts(name);
    stem + " (copy "@ + decimal(n) + ")"@ + (if is_dir { Seq::empty() } else { ext })
}

/// The first free name of a copy from number `n` on, below 10000.
pub open spec fn free_copy_name(entries: Seq<EntryView>, name: Seq<char>, is_dir: bool, n: nat) -> Seq<
    char,
>
    decreases 10000 - n,
{
    if n >= 10000 {
        name
    } else if is_taken(entries, copy_name(name, is_dir, n)) {
        free_copy_name(entries, name, is_dir, n + 1)
    } else {
        copy_name(name, is_dir, n)
    }
}

/// The name under which an entry is put into a directory: its own, or that of
/// the first free copy where its own is taken and must not be reused.
pub open spec fn name_in(entries: Seq<EntryView>, name: Seq<char>, is_dir: bool, apply: bool) -> Seq<
    char,
> {
    if apply && is_taken(entries, name) {
        free_copy_name(entries, name, is_dir, 2)
    } else {
        name
    }
}

fn taken(entries: &Vec<Entry>, name: &str) -> (r: bool)
    ensures
        r == is_taken(entry_list(entries@), name@),
{
    let mut i: usize = 0;
    while i < entries.len()
        invariant
            i <= entries@.len(),
            forall|k: int| 0 <= k < i ==> (#[trigger] entry_list(entries@)[k]).name != name@,
        decreases entries@.len() - i,
    {
        assert(entry_list(entries@)[i as int].name == entries@[i as int].name@);
        if same(&entries[i].name, name) {
            return true;
        }
        i += 1;
    }
    false
}

/// The name under which an entry is put into a directory.
pub fn dedup_name(entries: &Vec<Entry>, name: &str, is_dir: bool, apply: bool) -> (s: String)
    ensures
        s@ == name_in(entry_list(entries@), name@, is_dir, apply),
{
    if !apply || !taken(entries, name) {
        return String::from_str(name);
    }
    let stem = stem_of(name);
    let ext = extension_of(name);
    let ghost list = entry_list(entries@);
    let mut n: u32 = 2;
    while n < 10000
        invariant
            2 <= n <= 10000,
            list == entry_list(entries@),
            apply && is_taken(list, name@),
            stem@ == name_parts(name@).0,
            ext@ == name_parts(name@).1,
            free_copy_name(list, name@, is_dir, 2) == free_copy_name(list, name@, is_dir, n as nat),
        decreases 10000 - n,
    {
        let d = dec(n as u128);
        let cand = if is_dir {
            cat4(&stem, " (copy ", &d, ")")
        } else {
            cat5(&stem, " (copy ", &d, ")", &ext)
        };
        proof {
            assert(cand@ =~= copy_name(name@, is_dir, n as nat));
        }
        if !taken(entries, &cand) {
            return cand;
        }
        n += 1;
    }
    String::from_str(name)
}

/// A name that was made for a copy is free, unless all copies up to number 9999
/// are there.
pub proof fn copy_name_is_free(entries: Seq<EntryView>, name: Seq<char>, is_dir: bool, n: nat)
    requires
        n <= 10000,
        exists|m: nat| n <= m < 10000 && !is_taken(entries, #[trigger] copy_name(name, is_dir, m)),
    ensures
        !is_taken(entries, free_copy_name(entries, name, is_dir, n)),
    decreases 10000 - n,
{
    if n < 10000 && is_taken(entries, copy_name(name, is_dir, n)) {
        let m = choose|m: nat|
            n <= m < 10000 && !is_taken(entries, #[trigger] copy_name(name, is_dir, m));
        assert(m != n);
        assert(n + 1 <= m && !is_taken(entries, copy_name(name, is_dir, m)));
        copy_name_is_free(entries, name, is_dir, n + 1);
    }
}

// ---------------------------------------------------------------- remote paths

/// A name in a remote directory; `.` is the directory in which the session
/// starts.
pub open spec fn remote_join(cwd: Seq<char>, name: Seq<char>) -> Seq<char> {
    if cwd == "."@ || cwd.len() == 0 { name } else { cwd + "/"@ + name }
}

/// A name in a remote directory.
pub fn resolve_remote(cwd: &str, name: &str) -> (s: String)
    ensures
        s@ == remote_join(cwd@, name@),
{
    if cwd.is_empty() || same(cwd, ".") {
        String::from_str(name)
    } else {
        cat3(cwd, "/", name)
    }
}

/// The directory above a remote directory; above the start there is none.
pub open spec fn remote_parent(cwd: Seq<char>) -> Seq<char> {
    match cut_last(cwd, '/') {
        Some((parent, _)) => if parent.len() > 0 { parent } else { "."@ },
        None => "."@,
    }
}

/// The directory above a remote directory.
pub fn normalize_remote(cwd: &str) -> (s: String)
    ensures
        s@ == remote_parent(cwd@),
{
    match rsplit_once(cwd, '/') {
        Some((parent, _)) => if parent.as_str().is_empty() {
            String::from_str(".")
        } else {
            parent
        },
        None => String::from_str("."),
    }
}

/// Going into a directory and up again leads back.
pub proof fn up_leads_back(cwd: Seq<char>, name: Seq<char>)
    requires
        cwd.len() > 0,
        forall|i: int| 0 <= i < name.len() ==> #[trigger] name[i] != '/',
    ensures
        remote_parent(remote_join(cwd, name)) == cwd,
{
    reveal_strlit(".");
    reveal_strlit("/");
    let p = remote_join(cwd, name);
    if cwd == "."@ {
        assert forall|i: int| 0 <= i < name.len() implies other_than('/')(#[trigger] name[i]) by {
        }
        lemma_span_back_is(name, other_than('/'), name.len() as int);
    } else {
        let n = name.len() as int;
        assert forall|i: int| p.len() - n <= i < p.len() implies other_than('/')(#[trigger] p[i]) by {
            assert(p[i] == name[i - cwd.len() - 1]);
        }
        assert(p[p.len() - n - 1] == '/');
        lemma_span_back_is(p, other_than('/'), n);
        assert(p.take(p.len() - n - 1) =~= cwd);
    }
}

// ---------------------------------------------------------------- lines of output

/// The lines of a text: each ends with a line feed, before which one carriage
/// return may stand; the last may end with the text.
pub open spec fn lines_of(s: Seq<char>) -> Seq<Seq<char>>
    decreases s.len(),
{
    proof {
        lemma_span(s, other_than('\n'));
    }
    if s.len() == 0 {
        Seq::empty()
    } else {
        let n = span(s, other_than('\n')) as int;
        if n >= s.len() {
            seq![s]
        } else {
            let line = if n > 0 && s[n - 1] == '\r' { s.take(n - 1) } else { s.take(n) };
            seq![line] + lines_of(s.skip(n + 1))
        }
    }
}

/// The lines of a text.
pub fn split_lines(s: &str) -> (r: Vec<String>)
    ensures
        texts(r@) == lines_of(s@),
{
    let v = chars_of(s);
    let n: usize = v.len();
    let mut r: Vec<String> = Vec::new();
    let mut i: usize = 0;
    proof {
        assert(v@.skip(0) =~= s@);
        assert(texts(r@) + lines_of(v@.skip(0)) =~= lines_of(s@));
    }
    while i < n
        invariant
            n == v@.len(),
            i <= n,
            texts(r@) + lines_of(v@.skip(i as int)) == lines_of(s@),
        decreases n - i,
    {
        let ghost rest = v@.skip(i as int);
        let start: usize = i;
        while i < n && v[i] != '\n'
            invariant
                n == v@.len(),
                start <= i <= n,
                forall|k: int| start <= k < i ==> #[trigger] v@[k] != '\n',
            decreases n - i,
        {
            i += 1;
        }
        let ghost d = i - start;
        proof {
            assert forall|k: int| 0 <= k < d implies other_than('\n')(#[trigger] rest[k]) by {
                assert(rest[k] == v@[start + k]);
            }
            lemma_span_is(rest, other_than('\n'), d);
        }
        let ghost before = texts(r@);
        if i >= n {
            let line = text_of(&v, start, n);
            let ghost lv = line@;
            r.push(line);
            proof {
                assert(lv =~= rest);
                assert(texts(r@) =~= before.push(lv));
                assert(texts(r@) + lines_of(v@.skip(n as int)) =~= before + seq![rest]);
            }
        } else {
            let end: usize = if i > start && v[i - 1] == '\r' { i - 1 } else { i };
            let line = text_of(&v, start, end);
            let ghost lv = line@;
            r.push(line);
            i += 1;
            proof {
                if d > 0 {
                    assert(rest[d - 1] == v@[start + d - 1]);
                }
                assert(rest.take(end - start) =~= lv);
                assert(rest.skip(d + 1) =~= v@.skip(i as int));
                assert(texts(r@) =~= before.push(lv));
                assert(texts(r@) + lines_of(v@.skip(i as int)) =~= before + (seq![lv] + lines_of(
                    v@.skip(i as int),
                )));
            }
        }
    }
    assert(texts(r@) =~= lines_of(s@)) by {
        assert(lines_of(v@.skip(i as int)) =~= Seq::empty());
    }
    r
}

} // verus!
