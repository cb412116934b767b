//! Texts: trimming, words, names in paths, cutting and case.

use crate::client::{is_separator, last_name};
use crate::text::{
    all_digits, begins, cat2, cat3, cat4, cat5, chars_of, contains, cut_first, cut_last, dec,
    dec_signed, decimal, digits_value, ends_with, find_from, finishes, is_digit, is_white,
    lemma_decimal, lemma_first_at, lemma_lex_irreflexive, lemma_span, lemma_span_back,
    lemma_span_back_is, lemma_span_is, lex_less, lower_char, lowered, other_than, parse_unsigned,
    rsplit_once, same, same_bytes, signed_decimal, span, span_back, split_once, split_words,
    stands_at, starts_with, strip_prefix, text_less, text_of, texts, to_lower, to_lower_char,
    trim, trim_line_end, trimmed, trimmed_end_by, trimmed_start, white, words,
};
use vstd::prelude::*;
use vstd::string::*;

verus! {

/// Nothing but white space.
pub open spec fn all_white(s: Seq<char>) -> bool {
    forall|i: int| 0 <= i < s.len() ==> white(#[trigger] s[i])
}

/// A text that neither begins nor ends with white space.
pub open spec fn is_tight(s: Seq<char>) -> bool {
    s.len() > 0 ==> !white(s[0]) && !white(s.last())
}

/// A word: not empty, and without white space.
pub open spec fn is_word(s: Seq<char>) -> bool {
    s.len() > 0 && forall|i: int| 0 <= i < s.len() ==> !white(#[trigger] s[i])
}

/// Words with one blank between them.
pub open spec fn spaced(ws: Seq<Seq<char>>) -> Seq<char>
    decreases ws.len(),
{
    if ws.len() == 0 {
        Seq::empty()
    } else if ws.len() == 1 {
        ws[0]
    } else {
        ws[0] + seq![' '] + spaced(ws.drop_first())
    }
}

/// Of the ASCII characters the blank and those from tab to carriage return are
/// white space.
pub proof fn ascii_white_space(c: char)
    requires
        c as u32 <= 127,
    ensures
        white(c) == (c as u32 == 32 || 9 <= c as u32 <= 13),
{
}

/// Trimming takes white space off both ends, and nothing else.
pub proof fn trimming_takes_off_blanks(a: Seq<char>, s: Seq<char>, b: Seq<char>)
    requires
        all_white(a),
        all_white(b),
        is_tight(s),
    ensures
        trimmed(a + s + b) == s,
{
    let w = |c: char| white(c);
    let all = a + s + b;
    if s.len() == 0 {
        lemma_span_is(all, w, all.len() as int);
        assert(trimmed_start(all) =~= Seq::empty());
        assert(trimmed(all) =~= s);
    } else {
        lemma_span_is(all, w, a.len() as int);
        let t = trimmed_start(all);
        assert(t =~= s + b);
        lemma_span_back_is(t, w, b.len() as int);
        assert(trimmed(all) =~= s);
    }
}

/// What was trimmed neither begins nor ends with white space, and stands in the
/// text with nothing but white space around it.
pub proof fn trimmed_text_is_tight(s: Seq<char>)
    ensures
        is_tight(trimmed(s)),
        exists|a: Seq<char>, b: Seq<char>|
            all_white(a) && all_white(b) && s == #[trigger] (a + trimmed(s) + b),
{
    let w = |c: char| white(c);
    lemma_span(s, w);
    let t = trimmed_start(s);
    lemma_span_back(t, w);
    let a = s.take(span(s, w) as int);
    let b = t.skip(t.len() - span_back(t, w));
    assert(s =~= a + trimmed(s) + b);
    assert forall|i: int| 0 <= i < a.len() implies white(#[trigger] a[i]) by {
        assert(w(s[i]));
    }
    assert forall|i: int| 0 <= i < b.len() implies white(#[trigger] b[i]) by {
        assert(w(t[t.len() - span_back(t, w) + i]));
    }
    let r = trimmed(s);
    if r.len() > 0 {
        assert(r[0] == t[0] && t[0] == s[span(s, w) as int]);
        assert(r.last() == t[t.len() - span_back(t, w) - 1]);
    }
}

/// The words of a text are those that it was put together from.
pub proof fn words_read_back(ws: Seq<Seq<char>>)
    requires
        forall|i: int| 0 <= i < ws.len() ==> is_word(#[trigger] ws[i]),
    ensures
        words(spaced(ws)) == ws,
    decreases ws.len(),
{
    let s = spaced(ws);
    if ws.len() == 0 {
        lemma_span_is(s, |c: char| white(c), 0);
        assert(trimmed_start(s) =~= s);
        assert(words(s) =~= ws);
    } else {
        let w = ws[0];
        let rest = ws.drop_first();
        let tail = s.skip(w.len() as int);
        assert forall|i: int| 0 <= i < rest.len() implies is_word(#[trigger] rest[i]) by {
            assert(rest[i] == ws[i + 1]);
        }
        assert(s =~= w + tail);
        lemma_words_first(w, tail);
        if ws.len() == 1 {
            assert(tail =~= Seq::empty());
            lemma_span_is(tail, |c: char| white(c), 0);
            assert(trimmed_start(tail) =~= tail);
            assert(words(tail) =~= Seq::empty());
        } else {
            assert(tail =~= seq![' '] + spaced(rest));
            words_read_back(rest);
            lemma_words_after_blank(spaced(rest));
        }
        assert(seq![w] + words(tail) =~= ws);
    }
}

proof fn lemma_words_first(w: Seq<char>, tail: Seq<char>)
    requires
        is_word(w),
        tail.len() > 0 ==> white(tail[0]),
    ensures
        words(w + tail) == seq![w] + words(tail),
{
    let s = w + tail;
    lemma_span_is(s, |c: char| white(c), 0);
    assert(trimmed_start(s) =~= s);
    lemma_span_is(s, |c: char| !white(c), w.len() as int);
    assert(s.take(w.len() as int) =~= w);
    assert(s.skip(w.len() as int) =~= tail);
}

proof fn lemma_words_after_blank(s: Seq<char>)
    ensures
        words(seq![' '] + s) == words(s),
{
    let w = |c: char| white(c);
    let b = seq![' '] + s;
    lemma_span(s, w);
    lemma_span_is(b, w, span(s, w) + 1int);
    assert(trimmed_start(b) =~= trimmed_start(s));
}

/// The last name in a path is what stands behind its last separator, of either
/// kind; separators at the end do not count.
pub proof fn last_name_is_last(dir: Seq<char>, name: Seq<char>, tail: Seq<char>)
    requires
        name.len() > 0,
        forall|i: int| 0 <= i < name.len() ==> (#[trigger] name[i]) != '/' && name[i] != '\\',
        forall|i: int| 0 <= i < tail.len() ==> (#[trigger] tail[i]) == '/' || tail[i] == '\\',
        dir.len() > 0 ==> dir.last() == '/' || dir.last() == '\\',
    ensures
        last_name(dir + name + tail) == name,
{
    let p = dir + name + tail;
    lemma_span_back_is(p, is_separator(), tail.len() as int);
    let t = trimmed_end_by(p, is_separator());
    assert(t =~= dir + name);
    lemma_span_back_is(t, |c: char| !is_separator()(c), name.len() as int);
    assert(t.skip(t.len() - name.len()) =~= name);
}

/// A text is cut at the first place of a character, and nothing of it is lost.
pub proof fn cutting_splits_at_the_first(a: Seq<char>, c: char, b: Seq<char>)
    requires
        forall|i: int| 0 <= i < a.len() ==> (#[trigger] a[i]) != c,
    ensures
        cut_first(a + seq![c] + b, c) == Some((a, b)),
        cut_first(a, c) is None,
{
    let s = a + seq![c] + b;
    lemma_span_is(s, other_than(c), a.len() as int);
    assert(s.take(a.len() as int) =~= a);
    assert(s.skip(a.len() + 1int) =~= b);
    lemma_span_is(a, other_than(c), a.len() as int);
}

/// A text is cut at the last place of a character, and nothing of it is lost.
pub proof fn cutting_splits_at_the_last(a: Seq<char>, c: char, b: Seq<char>)
    requires
        forall|i: int| 0 <= i < b.len() ==> (#[trigger] b[i]) != c,
    ensures
        cut_last(a + seq![c] + b, c) == Some((a, b)),
        cut_last(b, c) is None,
{
    let s = a + seq![c] + b;
    lemma_span_back_is(s, other_than(c), b.len() as int);
    assert(s.take(s.len() - b.len() - 1) =~= a);
    assert(s.skip(s.len() - b.len()) =~= b);
    lemma_span_back_is(b, other_than(c), b.len() as int);
}

/// Lower case moves the 26 capital letters up by 32 and leaves every other
/// character as it is.
pub proof fn lower_case_moves_letters(c: char)
    ensures
        65 <= c as u32 <= 90 ==> lower_char(c) as u32 == c as u32 + 32,
        !(65 <= c as u32 <= 90) ==> lower_char(c) == c,
{
}

/// A text in lower case has as many characters, and stays as it is if it is put
/// into lower case again.
pub proof fn lower_case_stays(s: Seq<char>)
    ensures
        lowered(s).len() == s.len(),
        lowered(lowered(s)) == lowered(s),
        forall|i: int| 0 <= i < s.len() ==> lower_char(s[i]) == #[trigger] lowered(s)[i],
{
    assert(lowered(lowered(s)) =~= lowered(s)) by {
        assert forall|i: int| 0 <= i < s.len() implies lowered(lowered(s))[i] == lowered(s)[i] by {
            lower_case_moves_letters(s[i]);
            lower_case_moves_letters(lowered(s)[i]);
        }
    }
}

/// What stands before a text is what it begins with, and what stands after it is
/// what it ends with.
pub proof fn ends_of_a_text(a: Seq<char>, b: Seq<char>)
    ensures
        begins(a + b, a),
        finishes(a + b, b),
        stands_at(a + b, b, a.len() as int),
        begins(a, b) ==> exists|t: Seq<char>| a == #[trigger] (b + t),
{
    assert((a + b).take(a.len() as int) =~= a);
    assert((a + b).skip((a + b).len() - b.len()) =~= b);
    assert((a + b).subrange(a.len() as int, (a + b).len() as int) =~= b);
    if begins(a, b) {
        assert(a =~= b + a.skip(b.len() as int));
    }
}

/// A number is written with the digits that make it up, the last one for its ones:
/// reading them as digits gives the number, and the first is no zero unless it is
/// the only one.
pub proof fn numbers_are_written_out(n: nat)
    ensures
        all_digits(decimal(n)),
        digits_value(decimal(n)) == n,
        n < 10 ==> decimal(n).len() == 1 && decimal(n)[0] as u32 == 48 + n,
        n >= 10 ==> decimal(n).last() as u32 == 48 + n % 10 && decimal(n)[0] != '0',
    decreases n,
{
    lemma_decimal(n);
    if n >= 10 {
        numbers_are_written_out(n / 10);
        lemma_decimal(n / 10);
        assert(decimal(n)[0] == decimal(n / 10)[0]);
    }
}

/// A negative number is written as its amount behind a minus sign.
pub proof fn signs_are_written(n: nat)
    requires
        n > 0,
    ensures
        signed_decimal(-(n as int)) == seq!['-'] + decimal(n),
        signed_decimal(n as int) == decimal(n),
        signed_decimal(0) == decimal(0),
{
    reveal_strlit("-");
    assert("-"@ =~= seq!['-']);
}

// ---------------------------------------------------------------- functions on texts

/// Texts are alike where their characters are, and one stands before another
/// where the first character in which they differ does.
pub proof fn texts_are_compared(a: &str, b: &str, r: bool, x: &[u8], y: &[u8], q: bool, l: bool)
    requires
        call_ensures(same, (a, b), r),
        call_ensures(same_bytes, (x, y), q),
        call_ensures(text_less, (a, b), l),
    ensures
        r <==> a@ == b@,
        q <==> x@ == y@,
        l <==> lex_less(a@, b@),
        l ==> !r,
{
    if a@ == b@ {
        lemma_lex_irreflexive(a@);
    }
}

/// Texts are joined in their order.
pub proof fn texts_are_joined(
    a: &str,
    b: &str,
    c: &str,
    d: &str,
    e: &str,
    r: String,
    s: String,
    t: String,
    u: String,
)
    requires
        call_ensures(cat2, (a, b), r),
        call_ensures(cat3, (a, b, c), s),
        call_ensures(cat4, (a, b, c, d), t),
        call_ensures(cat5, (a, b, c, d, e), u),
    ensures
        r@ == a@ + b@,
        s@ == r@ + c@,
        t@ == s@ + d@,
        u@ == t@ + e@,
{
}

/// What stands in a text between white space is taken off it by trimming, and
/// the ends of a line by taking off the line's end.
pub proof fn texts_are_trimmed(
    s: &str,
    r: String,
    t: &str,
    u: String,
    a: Seq<char>,
    m: Seq<char>,
    b: Seq<char>,
    end: Seq<char>,
)
    requires
        call_ensures(trim, (s,), r),
        s@ == a + m + b,
        all_white(a),
        all_white(b),
        is_tight(m),
        call_ensures(trim_line_end, (t,), u),
        t@ == m + end,
        forall|i: int| 0 <= i < end.len() ==> (#[trigger] end[i]) == '\r' || end[i] == '\n',
        m.len() == 0 || m.last() != '\r' && m.last() != '\n',
    ensures
        r@ == m,
        u@ == m,
{
    trimming_takes_off_blanks(a, m, b);
    lemma_span_back_is(t@, |c: char| c == '\r' || c == '\n', end.len() as int);
    assert(t@.take(t@.len() - end.len()) =~= m);
}

/// The characters that count as white space.
pub proof fn white_space_is_unicodes(c: char, r: bool)
    requires
        call_ensures(is_white, (c,), r),
    ensures
        c as u32 == 9 || c as u32 == 10 || c as u32 == 11 || c as u32 == 12 || c as u32 == 13
            || c as u32 == 32 || c as u32 == 0x85 || c as u32 == 0xA0 || c as u32 == 0x1680 || 0x2000
            <= c as u32 <= 0x200A || c as u32 == 0x2028 || c as u32 == 0x2029 || c as u32 == 0x202F
            || c as u32 == 0x205F || c as u32 == 0x3000 <==> r,
{
}

/// A text starts and ends with its parts, and with no text that is not one; what
/// is left behind a start that was taken off is the rest.
pub proof fn parts_of_texts(
    s: &str,
    p: &str,
    a: bool,
    b: bool,
    c: bool,
    r: Option<String>,
    x: Seq<char>,
    y: Seq<char>,
)
    requires
        call_ensures(starts_with, (s, p), a),
        call_ensures(ends_with, (s, p), b),
        call_ensures(contains, (s, p), c),
        call_ensures(strip_prefix, (s, p), r),
    ensures
        s@ == p@ + x ==> a && c && (r matches Some(t) && t@ == x),
        s@ == x + p@ ==> b && c,
        s@ == x + p@ + y ==> c,
        a ==> s@ == p@ + s@.skip(p@.len() as int),
        b ==> s@ == s@.take(s@.len() - p@.len()) + p@,
        !a <==> r is None,
        s@.len() < p@.len() ==> !a && !b && !c,
{
    if s@ == p@ + x {
        assert(s@.take(p@.len() as int) =~= p@);
        assert(s@.skip(p@.len() as int) =~= x);
        assert(s@.subrange(0, p@.len() as int) =~= p@);
        assert(stands_at(s@, p@, 0));
    }
    if s@ == x + p@ {
        assert(s@.skip(s@.len() - p@.len()) =~= p@);
        assert(s@.subrange(x.len() as int, x.len() + p@.len() as int) =~= p@);
        assert(stands_at(s@, p@, x.len() as int));
    }
    if s@ == x + p@ + y {
        assert(s@.subrange(x.len() as int, x.len() + p@.len() as int) =~= p@);
        assert(stands_at(s@, p@, x.len() as int));
    }
    if a {
        assert(s@ =~= s@.take(p@.len() as int) + s@.skip(p@.len() as int));
    }
    if b {
        assert(s@ =~= s@.take(s@.len() - p@.len()) + s@.skip(s@.len() - p@.len()));
    }
}

/// A part is found where it stands first.
pub proof fn parts_are_found_where_they_stand_first(
    v: &Vec<char>,
    p: &Vec<char>,
    from: usize,
    r: Option<usize>,
    i: int,
)
    requires
        call_ensures(find_from, (v, p, from), r),
    ensures
        r matches Some(n) ==> from <= n && v@.subrange(n as int, n + p@.len()) == p@ && (from <= i
            < n ==> !stands_at(v@, p@, i)),
        r is None && from <= i ==> !stands_at(v@, p@, i),
{
    lemma_first_at(v@, p@, from as int);
}

/// A text is cut once, at the first or at the last place of a character, and
/// nothing but that character is lost.
pub proof fn texts_are_cut_once(
    s: &str,
    c: char,
    f: Option<(String, String)>,
    l: Option<(String, String)>,
    a: Seq<char>,
    b: Seq<char>,
)
    requires
        call_ensures(split_once, (s, c), f),
        call_ensures(rsplit_once, (s, c), l),
    ensures
        f matches Some(p) ==> s@ == p.0@ + seq![c] + p.1@ && !p.0@.contains(c),
        l matches Some(p) ==> s@ == p.0@ + seq![c] + p.1@ && !p.1@.contains(c),
        s@.contains(c) <==> f is Some,
        s@.contains(c) <==> l is Some,
        s@ == a + seq![c] + b && !a.contains(c) ==> (f matches Some(p) && p.0@ == a && p.1@ == b),
        s@ == a + seq![c] + b && !b.contains(c) ==> (l matches Some(p) && p.0@ == a && p.1@ == b),
{
    let n = span(s@, other_than(c)) as int;
    lemma_span(s@, other_than(c));
    if n < s@.len() {
        assert(s@[n] == c);
        assert(s@ =~= s@.take(n) + seq![c] + s@.skip(n + 1));
        assert forall|i: int| 0 <= i < n implies s@.take(n)[i] != c by {
            assert(other_than(c)(s@[i]));
        }
    } else {
        assert forall|i: int| 0 <= i < s@.len() implies s@[i] != c by {
            assert(other_than(c)(s@[i]));
        }
    }
    let m = span_back(s@, other_than(c)) as int;
    lemma_span_back(s@, other_than(c));
    if m < s@.len() {
        let k = s@.len() - m - 1;
        assert(s@[k] == c);
        assert(s@ =~= s@.take(k) + seq![c] + s@.skip(k + 1));
        let tail = s@.skip(k + 1);
        assert forall|i: int| 0 <= i < m implies #[trigger] tail[i] != c by {
            assert(other_than(c)(s@[k + 1 + i]));
        }
    } else {
        assert forall|i: int| 0 <= i < s@.len() implies s@[i] != c by {
            assert(other_than(c)(s@[i]));
        }
    }
    if s@ == a + seq![c] + b {
        if !a.contains(c) {
            assert forall|i: int| 0 <= i < a.len() implies (#[trigger] a[i]) != c by {
                if a[i] == c {
                    assert(a.contains(c));
                }
            }
            cutting_splits_at_the_first(a, c, b);
        }
        if !b.contains(c) {
            assert forall|i: int| 0 <= i < b.len() implies (#[trigger] b[i]) != c by {
                if b[i] == c {
                    assert(b.contains(c));
                }
            }
            cutting_splits_at_the_last(a, c, b);
        }
    }
}

/// The words of a text are what stands between blanks.
pub proof fn texts_are_read_by_words(s: &str, r: Vec<String>, ws: Seq<Seq<char>>)
    requires
        call_ensures(split_words, (s,), r),
        s@ == spaced(ws),
        forall|i: int| 0 <= i < ws.len() ==> is_word(#[trigger] ws[i]),
    ensures
        texts(r@) == ws,
{
    words_read_back(ws);
}

/// Texts are put into lower case letter by letter.
pub proof fn texts_are_put_into_lower_case(s: &str, r: String, c: char, d: char, i: int)
    requires
        call_ensures(to_lower, (s,), r),
        call_ensures(to_lower_char, (c,), d),
        0 <= i < s@.len(),
    ensures
        r@.len() == s@.len(),
        65 <= s@[i] as u32 <= 90 ==> r@[i] as u32 == s@[i] as u32 + 32,
        !(65 <= s@[i] as u32 <= 90) ==> r@[i] == s@[i],
        65 <= c as u32 <= 90 ==> d as u32 == c as u32 + 32,
        !(65 <= c as u32 <= 90) ==> d == c,
{
    lower_case_moves_letters(s@[i]);
    lower_case_moves_letters(c);
}

/// A number that was written is read back, unless it is too large; a sign may
/// stand before it, and anything else is no number.
pub proof fn written_numbers_are_read_back(
    n: u128,
    s: String,
    t: &str,
    max: u128,
    r: Option<u128>,
    k: i32,
    z: String,
)
    requires
        call_ensures(dec, (n,), s),
        call_ensures(parse_unsigned, (t, max), r),
        call_ensures(dec_signed, (k,), z),
    ensures
        t@ == s@ || t@ == seq!['+'] + s@ ==> (n <= max ==> r == Some(n)) && (n > max ==> r is None),
        t@.len() == 0 ==> r is None,
        (exists|i: int| 0 <= i < t@.len() && !('0' <= #[trigger] t@[i] <= '9') && t@[i] != '+')
            ==> r is None,
        s@.len() > 0,
        forall|i: int| 0 <= i < s@.len() ==> '0' <= #[trigger] s@[i] <= '9',
        n < 10 ==> s@.len() == 1 && s@[0] as u32 == 48 + n,
        n >= 10 ==> s@[0] != '0',
        k < 0 ==> z@ == seq!['-'] + decimal((-k) as nat),
        k >= 0 ==> z@ == decimal(k as nat),
{
    lemma_decimal(n as nat);
    lemma_no_leading_zero(n as nat);
    let d = decimal(n as nat);
    assert forall|i: int| 0 <= i < s@.len() implies '0' <= #[trigger] s@[i] <= '9' by {
        assert(is_digit(d[i]));
    }
    assert(is_digit(d[0]));
    assert((seq!['+'] + d).skip(1) =~= d);
    reveal_strlit("-");
    assert("-"@ =~= seq!['-']);
    let body = if t@.len() > 0 && t@[0] == '+' { t@.skip(1) } else { t@ };
    if exists|i: int| 0 <= i < t@.len() && !('0' <= #[trigger] t@[i] <= '9') && t@[i] != '+' {
        let i = choose|i: int| 0 <= i < t@.len() && !('0' <= #[trigger] t@[i] <= '9') && t@[i] != '+';
        if t@[0] == '+' {
            assert(body[i - 1] == t@[i]);
        } else {
            assert(body[i] == t@[i]);
        }
    }
}

proof fn lemma_no_leading_zero(n: nat)
    ensures
        n > 0 ==> decimal(n)[0] != '0',
    decreases n,
{
    if n >= 10 {
        lemma_no_leading_zero(n / 10);
        lemma_decimal(n / 10);
    }
}

/// A text is its characters, and a part of it the characters there.
pub proof fn texts_are_their_characters(
    s: &str,
    v: Vec<char>,
    w: &Vec<char>,
    from: usize,
    to: usize,
    t: String,
)
    requires
        call_ensures(chars_of, (s,), v),
        call_ensures(text_of, (w, from, to), t),
        from <= to <= w@.len(),
    ensures
        v@ == s@,
        t@ == w@.subrange(from as int, to as int),
{
}

} // verus!
