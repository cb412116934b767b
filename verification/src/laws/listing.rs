//! Listings: remote paths, the order of entries, names for copies and the lines
//! of a text.

use crate::client::{basename_of, last_name};
use crate::laws::text::{cutting_splits_at_the_last, last_name_is_last};
use crate::listing::{
    Entry, EntryView, copy_name, dedup_name, entry_list, free_copy_name, goes_before, is_taken,
    lines_of, listing_is_ordered, lowercase, name_in, normalize_remote, peers, remote_join,
    remote_parent, resolve_remote, sort_entries, split_lines, stem_of, up_leads_back,
};
use crate::text::{decimal, lemma_span_is, lex_less, other_than, texts};
use vstd::prelude::*;
use vstd::string::*;

verus! {

// ---------------------------------------------------------------- remote paths

/// A name that stands for one entry of a directory.
pub open spec fn is_name(name: Seq<char>) -> bool {
    name.len() > 0 && forall|i: int|
        0 <= i < name.len() ==> (#[trigger] name[i]) != '/' && name[i] != '\\'
}

/// The path is that of the entry with that name in that remote directory: the
/// directory, a slash and the name, or the name alone in the directory in which
/// the session starts.
pub open spec fn names_entry(path: Seq<char>, dir: Seq<char>, name: Seq<char>) -> bool {
    if dir.len() == 0 || dir == seq!['.'] {
        path == name
    } else {
        path == dir + seq!['/'] + name
    }
}

/// From the path one gets back to the directory and to the name.
pub open spec fn leads_back(path: Seq<char>, dir: Seq<char>, name: Seq<char>) -> bool {
    remote_parent(path) == dir && last_name(path) == name
}

/// The path of an entry names it, and leads back to the directory and to the
/// name, whatever they are.
pub proof fn paths_lead_back(dir: &str, name: &str, path: String, p: &str, up: String, last: String)
    requires
        call_ensures(resolve_remote, (dir, name), path),
        p@ == path@,
        call_ensures(normalize_remote, (p,), up),
        call_ensures(basename_of, (p,), last),
    ensures
        names_entry(path@, dir@, name@),
        dir@.len() > 0 && is_name(name@) ==> up@ == dir@ && last@ == name@,
{
    lemma_joined_path(dir@, name@);
}

/// The path of an entry in a directory.
pub proof fn lemma_joined_path(dir: Seq<char>, name: Seq<char>)
    ensures
        names_entry(remote_join(dir, name), dir, name),
        dir.len() > 0 && is_name(name) ==> leads_back(remote_join(dir, name), dir, name),
{
    reveal_strlit(".");
    reveal_strlit("/");
    assert("."@ =~= seq!['.']);
    assert("/"@ =~= seq!['/']);
    let p = remote_join(dir, name);
    let e = Seq::<char>::empty();
    if dir.len() > 0 && is_name(name) {
        up_leads_back(dir, name);
        if dir == "."@ {
            assert(e + name + e =~= p);
            last_name_is_last(e, name, e);
        } else {
            assert((dir + seq!['/']) + name + e =~= p);
            last_name_is_last(dir + seq!['/'], name, e);
        }
    }
}

/// Above a directory is what stands before its last slash; above one without a
/// slash, or at the root, is the directory in which the session starts.
pub proof fn directories_have_parents(path: &str, up: String, dir: Seq<char>, name: Seq<char>)
    requires
        call_ensures(normalize_remote, (path,), up),
        forall|i: int| 0 <= i < name.len() ==> (#[trigger] name[i]) != '/',
    ensures
        path@ == dir + seq!['/'] + name && dir.len() > 0 ==> up@ == dir,
        path@ == seq!['/'] + name || path@ == name ==> up@ == seq!['.'],
{
    reveal_strlit(".");
    assert("."@ =~= seq!['.']);
    cutting_splits_at_the_last(dir, '/', name);
    cutting_splits_at_the_last(Seq::empty(), '/', name);
    assert(Seq::<char>::empty() + seq!['/'] + name =~= seq!['/'] + name);
}

// ---------------------------------------------------------------- order

/// The order of characters decides at the first difference; a text stands
/// before what it begins.
pub proof fn first_difference_decides(p: Seq<char>, x: char, a: Seq<char>, y: char, b: Seq<char>)
    ensures
        x != y ==> lex_less(p + seq![x] + a, p + seq![y] + b) == (x < y),
        lex_less(p, p + seq![y] + b),
        !lex_less(p + seq![x] + a, p),
        !lex_less(p, p),
    decreases p.len(),
{
    let s = p + seq![x] + a;
    let t = p + seq![y] + b;
    if p.len() > 0 {
        let q = p.drop_first();
        first_difference_decides(q, x, a, y, b);
        assert(s.drop_first() =~= q + seq![x] + a);
        assert(t.drop_first() =~= q + seq![y] + b);
    }
}

/// A sorted listing holds the entries that it was given, each as often. The
/// directories stand first; among the directories and among the rest the names
/// rise, without regard to case; entries that are alike in both keep their
/// order.
pub proof fn listings_are_sorted(v: Vec<Entry>, r: Vec<Entry>, i: int, j: int, k: EntryView)
    requires
        call_ensures(sort_entries, (v,), r),
        0 <= i < j < r@.len(),
    ensures
        entry_list(r@).to_multiset() == entry_list(v@).to_multiset(),
        r@[j].is_dir ==> r@[i].is_dir,
        r@[j].is_dir == r@[i].is_dir ==> !lex_less(
            lowercase(r@[j].name@),
            lowercase(r@[i].name@),
        ),
        alike(entry_list(r@), k) == alike(entry_list(v@), k),
{
    listing_is_ordered(entry_list(v@), k);
    let s = entry_list(r@);
    assert(!goes_before(s[j], s[i]));
    lemma_alike_are_peers(entry_list(r@), k);
    lemma_alike_are_peers(entry_list(v@), k);
}

/// The entries that are of the same sort as `k` and neither before nor behind
/// it by name, in their order.
pub open spec fn alike(s: Seq<EntryView>, k: EntryView) -> Seq<EntryView>
    decreases s.len(),
{
    if s.len() == 0 {
        Seq::empty()
    } else {
        let e = s.last();
        let more = e.is_dir == k.is_dir && !lex_less(lowercase(e.name), lowercase(k.name))
            && !lex_less(lowercase(k.name), lowercase(e.name));
        if more { alike(s.drop_last(), k).push(e) } else { alike(s.drop_last(), k) }
    }
}

proof fn lemma_alike_are_peers(s: Seq<EntryView>, k: EntryView)
    ensures
        alike(s, k) == peers(s, k),
    decreases s.len(),
{
    if s.len() > 0 {
        lemma_alike_are_peers(s.drop_last(), k);
    }
}

// ---------------------------------------------------------------- names for copies

/// There is an entry of that name.
pub open spec fn occurs(entries: Seq<EntryView>, name: Seq<char>) -> bool {
    exists|i: int| 0 <= i < entries.len() && (#[trigger] entries[i]).name == name
}

/// The name under which an entry comes into a directory. It keeps its name
/// where that is free or is to be replaced; else it gets the first free one of
/// its copies' names, the second copy being the first that is made.
pub open spec fn comes_as(
    entries: Seq<EntryView>,
    name: Seq<char>,
    is_dir: bool,
    replace: bool,
    new: Seq<char>,
) -> bool {
    if replace || !occurs(entries, name) {
        new == name
    } else {
        ||| exists|n: nat| #[trigger] first_free(entries, name, is_dir, n) && new == copy_name(
            name,
            is_dir,
            n,
        )
        ||| new == name && forall|m: nat|
            2 <= m < 10000 ==> occurs(entries, #[trigger] copy_name(name, is_dir, m))
    }
}

/// The copy with that number is the first whose name is free.
pub open spec fn first_free(
    entries: Seq<EntryView>,
    name: Seq<char>,
    is_dir: bool,
    n: nat,
) -> bool {
    &&& 2 <= n < 10000
    &&& !occurs(entries, copy_name(name, is_dir, n))
    &&& forall|m: nat| 2 <= m < n ==> occurs(entries, #[trigger] copy_name(name, is_dir, m))
}

/// The name under which an entry comes into a directory.
pub proof fn lemma_comes_as(entries: Seq<EntryView>, name: Seq<char>, is_dir: bool, apply: bool)
    ensures
        comes_as(entries, name, is_dir, !apply, name_in(entries, name, is_dir, apply)),
{
    assert(occurs(entries, name) == is_taken(entries, name));
    if apply && is_taken(entries, name) {
        lemma_free_copy(entries, name, is_dir, 2);
    }
}

proof fn lemma_free_copy(entries: Seq<EntryView>, name: Seq<char>, is_dir: bool, n: nat)
    requires
        2 <= n <= 10000,
        forall|m: nat| 2 <= m < n ==> occurs(entries, #[trigger] copy_name(name, is_dir, m)),
    ensures
        ({
            let new = free_copy_name(entries, name, is_dir, n);
            ||| exists|k: nat| #[trigger] first_free(entries, name, is_dir, k) && new == copy_name(
                name,
                is_dir,
                k,
            )
            ||| new == name && forall|m: nat|
                2 <= m < 10000 ==> occurs(entries, #[trigger] copy_name(name, is_dir, m))
        }),
    decreases 10000 - n,
{
    if n < 10000 {
        if is_taken(entries, copy_name(name, is_dir, n)) {
            assert(occurs(entries, copy_name(name, is_dir, n)));
            lemma_free_copy(entries, name, is_dir, n + 1);
        } else {
            assert(first_free(entries, name, is_dir, n));
        }
    }
}

/// A name that is not to be replaced never hides an entry, as long as one of
/// the copies' names is free; and it is changed only where it has to be.
pub proof fn copies_hide_nothing(
    entries: &Vec<Entry>,
    name: &str,
    is_dir: bool,
    apply: bool,
    new: String,
)
    requires
        call_ensures(dedup_name, (entries, name, is_dir, apply), new),
    ensures
        comes_as(entry_list(entries@), name@, is_dir, !apply, new@),
        apply && (exists|m: nat|
            2 <= m < 10000 && !occurs(
                entry_list(entries@),
                #[trigger] copy_name(name@, is_dir, m),
            )) ==> !occurs(entry_list(entries@), new@),
{
    lemma_comes_as(entry_list(entries@), name@, is_dir, apply);
}

/// The name of a copy says its number between the stem and the extension; the
/// extension starts at the last dot, and a name that only starts with a dot has
/// none. Directories have no extension.
pub proof fn copies_are_numbered(stem: Seq<char>, ext: Seq<char>, n: nat)
    requires
        stem.len() > 0,
        forall|i: int| 0 <= i < ext.len() ==> (#[trigger] ext[i]) != '.',
    ensures
        copy_name(stem + seq!['.'] + ext, false, n) == stem + " (copy "@ + decimal(n) + ")"@ + seq![
            '.',
        ] + ext,
        copy_name(stem + seq!['.'] + ext, true, n) == stem + " (copy "@ + decimal(n) + ")"@,
        copy_name(seq!['.'] + ext, false, n) == seq!['.'] + ext + " (copy "@ + decimal(n) + ")"@,
        copy_name(ext, false, n) == ext + " (copy "@ + decimal(n) + ")"@,
        copy_name(ext, true, n) == ext + " (copy "@ + decimal(n) + ")"@,
{
    reveal_strlit(".");
    let dot = seq!['.'];
    assert("."@ =~= dot);
    let e = Seq::<char>::empty();
    cutting_splits_at_the_last(stem, '.', ext);
    cutting_splits_at_the_last(e, '.', ext);
    assert(e + dot + ext =~= dot + ext);
    let mid = " (copy "@ + decimal(n) + ")"@;
    assert(copy_name(stem + dot + ext, false, n) =~= stem + " (copy "@ + decimal(n) + ")"@ + dot
        + ext);
    assert(copy_name(stem + dot + ext, true, n) =~= stem + " (copy "@ + decimal(n) + ")"@);
    assert(copy_name(dot + ext, false, n) =~= dot + ext + " (copy "@ + decimal(n) + ")"@);
    assert(copy_name(ext, false, n) =~= ext + " (copy "@ + decimal(n) + ")"@);
    assert(copy_name(ext, true, n) =~= ext + " (copy "@ + decimal(n) + ")"@);
}

/// A name is its stem and its extension.
pub proof fn stems_end_at_the_last_dot(name: &str, s: String, stem: Seq<char>, ext: Seq<char>)
    requires
        call_ensures(stem_of, (name,), s),
        forall|i: int| 0 <= i < ext.len() ==> (#[trigger] ext[i]) != '.',
    ensures
        name@ == stem + seq!['.'] + ext && stem.len() > 0 ==> s@ == stem,
        name@ == seq!['.'] + ext || name@ == ext ==> s@ == name@,
{
    cutting_splits_at_the_last(stem, '.', ext);
    cutting_splits_at_the_last(Seq::empty(), '.', ext);
    assert(Seq::<char>::empty() + seq!['.'] + ext =~= seq!['.'] + ext);
}

// ---------------------------------------------------------------- lines

/// A text is read line by line: each line ends with a line feed, or with a
/// carriage return and a line feed, neither of which belongs to it; the last
/// may end with the text.
pub proof fn lines_end_with_line_feeds(line: Seq<char>, rest: Seq<char>)
    requires
        forall|i: int| 0 <= i < line.len() ==> (#[trigger] line[i]) != '\n',
    ensures
        line.len() == 0 || line.last() != '\r' ==> lines_of(line + seq!['\n'] + rest) == seq![line]
            + lines_of(rest),
        lines_of(line + seq!['\r', '\n'] + rest) == seq![line] + lines_of(rest),
        line.len() > 0 ==> lines_of(line) == seq![line],
        lines_of(Seq::empty()) == Seq::<Seq<char>>::empty(),
{
    let n = line.len() as int;
    let a = line + seq!['\n'] + rest;
    let b = line + seq!['\r', '\n'] + rest;
    lemma_span_is(a, other_than('\n'), n);
    assert(a.take(n) =~= line);
    assert(a.skip(n + 1) =~= rest);
    assert forall|i: int| 0 <= i < n + 1 implies other_than('\n')(#[trigger] b[i]) by {
    }
    lemma_span_is(b, other_than('\n'), n + 1);
    assert(b[n] == '\r' && b[n + 1] == '\n');
    assert(b.take(n) =~= line);
    assert(b.skip(n + 2) =~= rest);
    lemma_span_is(line, other_than('\n'), n);
    if n > 0 {
        assert(a[n - 1] == line.last());
    }
}

/// The lines of a text are those that it is read by.
pub proof fn text_is_read_by_lines(
    s: &str,
    r: Vec<String>,
    line: Seq<char>,
    t: &str,
    u: Vec<String>,
)
    requires
        call_ensures(split_lines, (s,), r),
        call_ensures(split_lines, (t,), u),
        s@ == line + seq!['\n'] + t@,
        forall|i: int| 0 <= i < line.len() ==> (#[trigger] line[i]) != '\n' && line[i] != '\r',
    ensures
        texts(r@) == seq![line] + texts(u@),
{
    lines_end_with_line_feeds(line, t@);
}

} // verus!
