//! Text as sequences of characters: searching, trimming, joining and decimal
//! numbers, over the view `Seq<char>` of strings.

use vstd::prelude::*;
use vstd::string::*;
use vstd::utf8::*;

verus! {

broadcast use vstd::utf8::group_utf8_lib;

// ---------------------------------------------------------------- models

/// How many leading characters of `s` satisfy `keep` before the first that
/// does not.
pub open spec fn span(s: Seq<char>, keep: spec_fn(char) -> bool) -> nat
    decreases s.len(),
{
    if s.len() > 0 && keep(s[0]) {
        1 + span(s.drop_first(), keep)
    } else {
        0
    }
}

/// How many trailing characters of `s` satisfy `keep` after the last that does
/// not.
pub open spec fn span_back(s: Seq<char>, keep: spec_fn(char) -> bool) -> nat
    decreases s.len(),
{
    if s.len() > 0 && keep(s.last()) {
        1 + span_back(s.drop_last(), keep)
    } else {
        0
    }
}

/// Every character but `c`.
pub open spec fn other_than(c: char) -> spec_fn(char) -> bool {
    |x: char| x != c
}

/// Unicode white space.
pub open spec fn white(c: char) -> bool {
    ||| '\u{9}' <= c <= '\u{d}'
    ||| c == ' '
    ||| c == '\u{85}'
    ||| c == '\u{a0}'
    ||| c == '\u{1680}'
    ||| '\u{2000}' <= c <= '\u{200a}'
    ||| c == '\u{2028}'
    ||| c == '\u{2029}'
    ||| c == '\u{202f}'
    ||| c == '\u{205f}'
    ||| c == '\u{3000}'
}

/// `s` without white space at its start.
pub open spec fn trimmed_start(s: Seq<char>) -> Seq<char> {
    s.skip(span(s, |c: char| white(c)) as int)
}

/// `s` without trailing characters that satisfy `drop`.
pub open spec fn trimmed_end_by(s: Seq<char>, drop: spec_fn(char) -> bool) -> Seq<char> {
    s.take(s.len() - span_back(s, drop))
}

/// `s` without white space at its end.
pub open spec fn trimmed_end(s: Seq<char>) -> Seq<char> {
    trimmed_end_by(s, |c: char| white(c))
}

/// `s` without white space at either end.
pub open spec fn trimmed(s: Seq<char>) -> Seq<char> {
    trimmed_end(trimmed_start(s))
}

/// `s` begins with `p`.
pub open spec fn begins(s: Seq<char>, p: Seq<char>) -> bool {
    p.len() <= s.len() && s.take(p.len() as int) == p
}

/// `s` ends with `p`.
pub open spec fn finishes(s: Seq<char>, p: Seq<char>) -> bool {
    p.len() <= s.len() && s.skip(s.len() - p.len()) == p
}

/// `p` stands in `s` at position `i`.
pub open spec fn stands_at(s: Seq<char>, p: Seq<char>, i: int) -> bool {
    0 <= i && i + p.len() <= s.len() && s.subrange(i, i + p.len()) == p
}

/// `p` stands somewhere in `s`.
pub open spec fn has_part(s: Seq<char>, p: Seq<char>) -> bool {
    exists|i: int| stands_at(s, p, i)
}

/// The first position of `p` in `s` at or after `from`.
pub open spec fn first_at(s: Seq<char>, p: Seq<char>, from: int) -> Option<int>
    decreases s.len() + 1 - from,
{
    if from < 0 || from > s.len() {
        None
    } else if stands_at(s, p, from) {
        Some(from)
    } else {
        first_at(s, p, from + 1)
    }
}

/// `s` cut at the first `c`: what stands before it and what stands after it.
pub open spec fn cut_first(s: Seq<char>, c: char) -> Option<(Seq<char>, Seq<char>)> {
    let n = span(s, other_than(c));
    if n < s.len() {
        Some((s.take(n as int), s.skip(n as int + 1)))
    } else {
        None
    }
}

/// `s` cut at the last `c`.
pub open spec fn cut_last(s: Seq<char>, c: char) -> Option<(Seq<char>, Seq<char>)> {
    let n = span_back(s, other_than(c));
    if n < s.len() {
        Some((s.take(s.len() - n - 1), s.skip(s.len() - n)))
    } else {
        None
    }
}

/// `a` stands before `b` in the order of characters, the shorter first where one
/// begins the other.
pub open spec fn lex_less(a: Seq<char>, b: Seq<char>) -> bool
    decreases a.len(),
{
    if b.len() == 0 {
        false
    } else if a.len() == 0 {
        true
    } else if a[0] == b[0] {
        lex_less(a.drop_first(), b.drop_first())
    } else {
        a[0] < b[0]
    }
}

/// The words of a text: what stands between white space.
pub open spec fn words(s: Seq<char>) -> Seq<Seq<char>>
    decreases s.len(),
{
    proof {
        lemma_span(s, |c: char| white(c));
        lemma_span(trimmed_start(s), |c: char| !white(c));
    }
    let t = trimmed_start(s);
    let n = span(t, |c: char| !white(c)) as int;
    if t.len() == 0 {
        Seq::empty()
    } else {
        seq![t.take(n)] + words(t.skip(n))
    }
}

/// ASCII letters in lower case, everything else as it is.
pub open spec fn lower_char(c: char) -> char {
    if c == 'A' { 'a' } else if c == 'B' { 'b' } else if c == 'C' { 'c' } else if c == 'D' { 'd' }
    else if c == 'E' { 'e' } else if c == 'F' { 'f' } else if c == 'G' { 'g' } else if c == 'H' { 'h' }
    else if c == 'I' { 'i' } else if c == 'J' { 'j' } else if c == 'K' { 'k' } else if c == 'L' { 'l' }
    else if c == 'M' { 'm' } else if c == 'N' { 'n' } else if c == 'O' { 'o' } else if c == 'P' { 'p' }
    else if c == 'Q' { 'q' } else if c == 'R' { 'r' } else if c == 'S' { 's' } else if c == 'T' { 't' }
    else if c == 'U' { 'u' } else if c == 'V' { 'v' } else if c == 'W' { 'w' } else if c == 'X' { 'x' }
    else if c == 'Y' { 'y' } else if c == 'Z' { 'z' } else { c }
}

/// A text with its ASCII letters in lower case.
pub open spec fn lowered(s: Seq<char>) -> Seq<char> {
    s.map_values(|c: char| lower_char(c))
}

pub open spec fn is_digit(c: char) -> bool {
    '0' <= c <= '9'
}

/// The value of a decimal digit.
pub open spec fn digit_value(c: char) -> nat {
    (c as u32 - '0' as u32) as nat
}

/// The decimal digit of a value below ten.
pub open spec fn digit_char(d: nat) -> char {
    if d == 0 { '0' } else if d == 1 { '1' } else if d == 2 { '2' } else if d == 3 { '3' }
    else if d == 4 { '4' } else if d == 5 { '5' } else if d == 6 { '6' } else if d == 7 { '7' }
    else if d == 8 { '8' } else { '9' }
}

/// The number that a text of decimal digits writes.
pub open spec fn digits_value(s: Seq<char>) -> nat
    decreases s.len(),
{
    if s.len() == 0 {
        0
    } else {
        digits_value(s.drop_last()) * 10 + digit_value(s.last())
    }
}

pub open spec fn all_digits(s: Seq<char>) -> bool {
    forall|i: int| 0 <= i < s.len() ==> is_digit(#[trigger] s[i])
}

/// The digits of `n` in decimal, without leading zeros.
pub open spec fn decimal(n: nat) -> Seq<char>
    decreases n,
{
    if n < 10 {
        seq![digit_char(n)]
    } else {
        decimal(n / 10).push(digit_char(n % 10))
    }
}

/// A number in decimal, with its sign where it is negative.
pub open spec fn signed_decimal(n: int) -> Seq<char> {
    if n < 0 { "-"@ + decimal((-n) as nat) } else { decimal(n as nat) }
}

/// An unsigned decimal number no greater than `max`: digits, at least one, with
/// an optional `+` before them.
pub open spec fn unsigned_value(s: Seq<char>, max: nat) -> Option<nat> {
    let body = if s.len() > 0 && s[0] == '+' { s.skip(1) } else { s };
    if body.len() > 0 && all_digits(body) && digits_value(body) <= max {
        Some(digits_value(body))
    } else {
        None
    }
}

// ---------------------------------------------------------------- lemmas

/// The span is the first position whose character is not kept.
pub proof fn lemma_span(s: Seq<char>, keep: spec_fn(char) -> bool)
    ensures
        span(s, keep) <= s.len(),
        forall|i: int| 0 <= i < span(s, keep) ==> keep(#[trigger] s[i]),
        span(s, keep) < s.len() ==> !keep(s[span(s, keep) as int]),
    decreases s.len(),
{
    if s.len() > 0 && keep(s[0]) {
        let t = s.drop_first();
        lemma_span(t, keep);
        assert forall|i: int| 0 <= i < span(s, keep) implies keep(#[trigger] s[i]) by {
            if i > 0 {
                assert(s[i] == t[i - 1]);
            }
        }
    }
}

/// A position with the properties of the span is the span.
pub proof fn lemma_span_is(s: Seq<char>, keep: spec_fn(char) -> bool, n: int)
    requires
        0 <= n <= s.len(),
        forall|i: int| 0 <= i < n ==> keep(#[trigger] s[i]),
        n < s.len() ==> !keep(s[n]),
    ensures
        span(s, keep) == n,
{
    lemma_span(s, keep);
    let m = span(s, keep) as int;
    if m < n {
        assert(keep(s[m]));
    } else if n < m {
        assert(keep(s[n]));
    }
}

/// The counterpart of `lemma_span` at the end of a text.
pub proof fn lemma_span_back(s: Seq<char>, keep: spec_fn(char) -> bool)
    ensures
        span_back(s, keep) <= s.len(),
        forall|i: int| s.len() - span_back(s, keep) <= i < s.len() ==> keep(#[trigger] s[i]),
        span_back(s, keep) < s.len() ==> !keep(s[s.len() - span_back(s, keep) - 1]),
    decreases s.len(),
{
    if s.len() > 0 && keep(s.last()) {
        let t = s.drop_last();
        lemma_span_back(t, keep);
        assert forall|i: int| s.len() - span_back(s, keep) <= i < s.len() implies keep(
            #[trigger] s[i],
        ) by {
            if i < s.len() - 1 {
                assert(s[i] == t[i]);
            }
        }
    }
}

/// The counterpart of `lemma_span_is` at the end of a text.
pub proof fn lemma_span_back_is(s: Seq<char>, keep: spec_fn(char) -> bool, n: int)
    requires
        0 <= n <= s.len(),
        forall|i: int| s.len() - n <= i < s.len() ==> keep(#[trigger] s[i]),
        n < s.len() ==> !keep(s[s.len() - n - 1]),
    ensures
        span_back(s, keep) == n,
{
    lemma_span_back(s, keep);
    let m = span_back(s, keep) as int;
    if m < n {
        assert(keep(s[s.len() - m - 1]));
    } else if n < m {
        assert(keep(s[s.len() - n - 1]));
    }
}

/// No text stands before itself.
pub proof fn lemma_lex_irreflexive(a: Seq<char>)
    ensures
        !lex_less(a, a),
    decreases a.len(),
{
    if a.len() > 0 {
        lemma_lex_irreflexive(a.drop_first());
    }
}

/// The order is transitive.
pub proof fn lemma_lex_transitive(a: Seq<char>, b: Seq<char>, c: Seq<char>)
    requires
        lex_less(a, b),
        lex_less(b, c),
    ensures
        lex_less(a, c),
    decreases a.len(),
{
    if a.len() > 0 && a[0] == b[0] && b[0] == c[0] {
        lemma_lex_transitive(a.drop_first(), b.drop_first(), c.drop_first());
    }
}

/// Two texts do not stand before each other.
pub proof fn lemma_lex_asymmetric(a: Seq<char>, b: Seq<char>)
    ensures
        !(lex_less(a, b) && lex_less(b, a)),
{
    if lex_less(a, b) && lex_less(b, a) {
        lemma_lex_transitive(a, b, a);
        lemma_lex_irreflexive(a);
    }
}

/// Of two different texts one stands before the other.
pub proof fn lemma_lex_total(a: Seq<char>, b: Seq<char>)
    ensures
        a == b || lex_less(a, b) || lex_less(b, a),
    decreases a.len(),
{
    if a.len() > 0 && b.len() > 0 && a[0] == b[0] {
        lemma_lex_total(a.drop_first(), b.drop_first());
        if a.drop_first() == b.drop_first() {
            assert(a =~= seq![a[0]] + a.drop_first());
            assert(b =~= seq![b[0]] + b.drop_first());
        }
    } else if a.len() == 0 && b.len() == 0 {
        assert(a =~= b);
    }
}

/// Reading back the decimal digits of a number gives the number.
pub proof fn lemma_decimal(n: nat)
    ensures
        decimal(n).len() > 0,
        all_digits(decimal(n)),
        digits_value(decimal(n)) == n,
    decreases n,
{
    if n < 10 {
        assert(decimal(n).drop_last() =~= Seq::<char>::empty());
        assert(digits_value(decimal(n).drop_last()) == 0);
    } else {
        lemma_decimal(n / 10);
        let d = decimal(n);
        assert(d.drop_last() =~= decimal(n / 10));
        assert(d.last() == digit_char(n % 10));
    }
}

/// Writing a number in decimal and reading it as an unsigned number gives the
/// number back, whatever bound it meets.
pub proof fn decimal_reads_back(n: nat, max: nat)
    requires
        n <= max,
    ensures
        unsigned_value(decimal(n), max) == Some(n),
{
    lemma_decimal(n);
    assert(is_digit(decimal(n)[0]));
}

pub proof fn lemma_digits_monotone(s: Seq<char>, n: int)
    requires
        0 <= n <= s.len(),
        all_digits(s),
    ensures
        digits_value(s.take(n)) <= digits_value(s),
    decreases s.len() - n,
{
    if n < s.len() {
        lemma_digits_monotone(s, n + 1);
        assert(s.take(n + 1).drop_last() =~= s.take(n));
    } else {
        assert(s.take(n) =~= s);
    }
}

/// Texts with the same bytes are the same.
pub proof fn lemma_same_bytes(a: Seq<char>, b: Seq<char>)
    requires
        encode_utf8(a) == encode_utf8(b),
    ensures
        a == b,
{
    encode_utf8_decode_utf8(a);
    encode_utf8_decode_utf8(b);
}

/// Nothing is trimmed off text without white space at its ends.
pub proof fn lemma_trimmed_same(s: Seq<char>)
    requires
        s.len() > 0,
        !white(s[0]),
        !white(s.last()),
    ensures
        trimmed_start(s) == s,
        trimmed(s) == s,
{
    lemma_span_is(s, |c: char| white(c), 0);
    assert(s.skip(0) =~= s);
    lemma_span_back_is(s, |c: char| white(c), 0);
    assert(s.take(s.len() as int) =~= s);
}

/// White space is taken off a text once and for all.
pub proof fn lemma_trimmed_again(s: Seq<char>)
    ensures
        trimmed(trimmed(s)) == trimmed(s),
{
    let w = |c: char| white(c);
    let a = trimmed_start(s);
    let t = trimmed(s);
    lemma_span(s, w);
    lemma_span_back(a, w);
    if t.len() > 0 {
        assert(t[0] == a[0] && a[0] == s[span(s, w) as int]);
        assert(t.last() == a[a.len() - span_back(a, w) - 1]);
        lemma_trimmed_same(t);
    } else {
        assert(trimmed_start(t) =~= t);
        assert(trimmed(t) =~= t);
    }
}

/// The bytes of two texts, one after the other, are the bytes of both.
pub proof fn lemma_encode_concat(a: Seq<char>, b: Seq<char>)
    ensures
        encode_utf8(a + b) == encode_utf8(a) + encode_utf8(b),
    decreases a.len(),
{
    if a.len() == 0 {
        assert(a + b =~= b);
        assert(encode_utf8(a) + encode_utf8(b) =~= encode_utf8(b));
    } else {
        let t = a.drop_first();
        lemma_encode_concat(t, b);
        assert((a + b).drop_first() =~= t + b);
        assert((a + b)[0] == a[0]);
        assert(encode_utf8(a + b) =~= encode_utf8(a) + encode_utf8(b));
    }
}

/// A part of a text has no more bytes than the text.
pub proof fn lemma_encode_part(s: Seq<char>, i: int, j: int)
    requires
        0 <= i <= j <= s.len(),
    ensures
        encode_utf8(s.subrange(i, j)).len() <= encode_utf8(s).len(),
{
    let a = s.take(i);
    let b = s.subrange(i, j);
    let c = s.skip(j);
    assert(s =~= a + b + c);
    lemma_encode_concat(a, b);
    lemma_encode_concat(a + b, c);
}

/// A text has no more characters than bytes.
pub proof fn lemma_encode_len(s: Seq<char>)
    ensures
        s.len() <= encode_utf8(s).len(),
    decreases s.len(),
{
    if s.len() > 0 {
        lemma_encode_len(s.drop_first());
    }
}

/// Trimming does not add bytes.
pub proof fn lemma_encode_trimmed(s: Seq<char>)
    ensures
        encode_utf8(trimmed(s)).len() <= encode_utf8(s).len(),
{
    lemma_span(s, |c: char| white(c));
    let n = span(s, |c: char| white(c)) as int;
    let t = trimmed_start(s);
    lemma_span_back(t, |c: char| white(c));
    let m = t.len() - span_back(t, |c: char| white(c));
    assert(trimmed(s) =~= s.subrange(n, n + m));
    lemma_encode_part(s, n, n + m);
}

/// Neither half of a cut text has more bytes than the text.
pub proof fn lemma_encode_cut(s: Seq<char>, c: char)
    ensures
        cut_first(s, c) matches Some(p) ==> encode_utf8(p.0).len() <= encode_utf8(s).len()
            && encode_utf8(p.1).len() <= encode_utf8(s).len(),
{
    lemma_span(s, other_than(c));
    let n = span(s, other_than(c)) as int;
    if n < s.len() {
        assert(s.take(n) =~= s.subrange(0, n));
        assert(s.skip(n + 1) =~= s.subrange(n + 1, s.len() as int));
        lemma_encode_part(s, 0, n);
        lemma_encode_part(s, n + 1, s.len() as int);
    }
}

// ---------------------------------------------------------------- functions

/// `String::push` of std: the character goes to the end of the text.
pub assume_specification[ String::push ](s: &mut String, c: char)
    ensures
        final(s)@ == old(s)@.push(c),
;

/// `String::from_utf8` of std: the text that the bytes encode, if they are
/// valid UTF-8.
#[verifier::external_body]
pub(crate) fn text_from_utf8(bytes: Vec<u8>) -> (r: Option<String>)
    ensures
        r is Some == valid_utf8(bytes@),
        r matches Some(s) ==> s@ == decode_utf8(bytes@),
{
    String::from_utf8(bytes).ok()
}

/// The text of bytes that are not valid UTF-8, with U+FFFD in place of what is
/// invalid.
pub uninterp spec fn patched_text(bytes: Seq<u8>) -> Seq<char>;

/// The text of bytes: what they encode, or the nearest to it where they are not
/// valid UTF-8.
pub open spec fn lossy_text(bytes: Seq<u8>) -> Seq<char> {
    if valid_utf8(bytes) { decode_utf8(bytes) } else { patched_text(bytes) }
}

/// `String::from_utf8_lossy` of std: bytes that are valid UTF-8 give the text
/// that they encode, others a text with U+FFFD in place of what is invalid.
#[verifier::external_body]
pub(crate) fn text_from_utf8_lossy(bytes: &[u8]) -> (s: String)
    ensures
        s@ == (if valid_utf8(bytes@) { decode_utf8(bytes@) } else { patched_text(bytes@) }),
{
    String::from_utf8_lossy(bytes).into_owned()
}

/// Bytes that encode a text are read as that text.
pub proof fn encoded_text_reads_back(s: Seq<char>)
    ensures
        lossy_text(encode_utf8(s)) == s,
{
    encode_utf8_valid_utf8(s);
    encode_utf8_decode_utf8(s);
}

/// The characters of a text.
pub fn chars_of(s: &str) -> (v: Vec<char>)
    ensures
        v@ == s@,
{
    let mut v: Vec<char> = Vec::new();
    for c in it: s.chars()
        invariant
            it.seq() == s@,
            v@ == s@.take(it.index()),
    {
        v.push(c);
        assert(v@ =~= s@.take(it.index() + 1));
    }
    assert(v@ =~= s@);
    v
}

/// The text of the characters from `from` to before `to`.
pub fn text_of(v: &Vec<char>, from: usize, to: usize) -> (s: String)
    requires
        from <= to <= v@.len(),
    ensures
        s@ == v@.subrange(from as int, to as int),
{
    let mut s = String::new();
    let mut i: usize = from;
    while i < to
        invariant
            from <= i <= to <= v@.len(),
            s@ == v@.subrange(from as int, i as int),
        decreases to - i,
    {
        s.push(v[i]);
        i += 1;
        assert(s@ =~= v@.subrange(from as int, i as int));
    }
    assert(s@ =~= v@.subrange(from as int, to as int));
    s
}

/// Whether two byte strings are equal.
pub fn same_bytes(x: &[u8], y: &[u8]) -> (r: bool)
    ensures
        r == (x@ == y@),
{
    if x.len() != y.len() {
        return false;
    }
    let mut i: usize = 0;
    while i < x.len()
        invariant
            x@.len() == y@.len(),
            i <= x@.len(),
            forall|j: int| 0 <= j < i ==> x@[j] == y@[j],
        decreases x@.len() - i,
    {
        if x[i] != y[i] {
            return false;
        }
        i += 1;
    }
    assert(x@ =~= y@);
    true
}

/// Whether two texts are equal.
pub fn same(a: &str, b: &str) -> (r: bool)
    ensures
        r == (a@ == b@),
{
    let r = same_bytes(a.as_bytes(), b.as_bytes());
    proof {
        if r {
            lemma_same_bytes(a@, b@);
        }
    }
    r
}

/// Whether `a` stands before `b` in the order of characters.
pub fn text_less(a: &str, b: &str) -> (r: bool)
    ensures
        r == lex_less(a@, b@),
{
    let x = chars_of(a);
    let y = chars_of(b);
    let mut i: usize = 0;
    assert(x@.skip(0) =~= x@);
    assert(y@.skip(0) =~= y@);
    while i < x.len() && i < y.len() && x[i] == y[i]
        invariant
            x@ == a@,
            y@ == b@,
            i <= x@.len(),
            i <= y@.len(),
            lex_less(a@, b@) == lex_less(a@.skip(i as int), b@.skip(i as int)),
        decreases x@.len() - i,
    {
        assert(x@.skip(i as int).drop_first() =~= x@.skip(i + 1));
        assert(y@.skip(i as int).drop_first() =~= y@.skip(i + 1));
        i += 1;
    }
    i < y.len() && (i >= x.len() || x[i] < y[i])
}

/// Two texts, one after the other.
pub fn cat2(a: &str, b: &str) -> (s: String)
    ensures
        s@ == a@ + b@,
{
    let mut s = String::from_str(a);
    s.append(b);
    s
}

/// Three texts, one after the other.
pub fn cat3(a: &str, b: &str, c: &str) -> (s: String)
    ensures
        s@ == a@ + b@ + c@,
{
    let mut s = cat2(a, b);
    s.append(c);
    s
}

/// Four texts, one after the other.
pub fn cat4(a: &str, b: &str, c: &str, d: &str) -> (s: String)
    ensures
        s@ == a@ + b@ + c@ + d@,
{
    let mut s = cat3(a, b, c);
    s.append(d);
    s
}

/// Five texts, one after the other.
pub fn cat5(a: &str, b: &str, c: &str, d: &str, e: &str) -> (s: String)
    ensures
        s@ == a@ + b@ + c@ + d@ + e@,
{
    let mut s = cat4(a, b, c, d);
    s.append(e);
    s
}

/// Whether a character is Unicode white space.
pub fn is_white(c: char) -> (r: bool)
    ensures
        r == white(c),
{
    ('\u{9}' <= c && c <= '\u{d}') || c == ' ' || c == '\u{85}' || c == '\u{a0}' || c == '\u{1680}'
        || ('\u{2000}' <= c && c <= '\u{200a}') || c == '\u{2028}' || c == '\u{2029}'
        || c == '\u{202f}' || c == '\u{205f}' || c == '\u{3000}'
}

/// The text without white space at either end.
pub fn trim(s: &str) -> (r: String)
    ensures
        r@ == trimmed(s@),
{
    let v = chars_of(s);
    let mut i: usize = 0;
    while i < v.len() && is_white(v[i])
        invariant
            i <= v@.len(),
            forall|k: int| 0 <= k < i ==> white(#[trigger] v@[k]),
        decreases v@.len() - i,
    {
        i += 1;
    }
    proof {
        lemma_span_is(v@, |c: char| white(c), i as int);
    }
    let ghost t = trimmed_start(s@);
    let mut j: usize = v.len();
    while j > i && is_white(v[j - 1])
        invariant
            i <= j <= v@.len(),
            forall|k: int| j <= k < v@.len() ==> white(#[trigger] v@[k]),
        decreases j,
    {
        j -= 1;
    }
    proof {
        let n = v@.len() - j;
        assert(t == v@.skip(i as int));
        assert forall|k: int| t.len() - n <= k < t.len() implies white(#[trigger] t[k]) by {
            assert(t[k] == v@[i + k]);
        }
        lemma_span_back_is(t, |c: char| white(c), n);
        assert(trimmed(s@) =~= v@.subrange(i as int, j as int));
    }
    text_of(&v, i, j)
}

/// The text without line ends at its end.
pub fn trim_line_end(s: &str) -> (r: String)
    ensures
        r@ == trimmed_end_by(s@, |c: char| c == '\r' || c == '\n'),
{
    let v = chars_of(s);
    let mut j: usize = v.len();
    while j > 0 && (v[j - 1] == '\r' || v[j - 1] == '\n')
        invariant
            0 <= j <= v@.len(),
            forall|k: int| j <= k < v@.len() ==> (#[trigger] v@[k] == '\r' || v@[k] == '\n'),
        decreases j,
    {
        j -= 1;
    }
    proof {
        lemma_span_back_is(v@, |c: char| c == '\r' || c == '\n', v@.len() - j);
        assert(v@.take(j as int) =~= v@.subrange(0, j as int));
    }
    text_of(&v, 0, j)
}

/// Whether the characters of `p` stand in `v` at position `i`.
pub fn stands(v: &Vec<char>, p: &Vec<char>, i: usize) -> (r: bool)
    ensures
        r == stands_at(v@, p@, i as int),
{
    if i > v.len() || p.len() > v.len() - i {
        return false;
    }
    let n: usize = v.len();
    let mut k: usize = 0;
    while k < p.len()
        invariant
            n == v@.len(),
            k <= p@.len(),
            i + p@.len() <= n,
            forall|j: int| 0 <= j < k ==> v@[i + j] == #[trigger] p@[j],
        decreases p@.len() - k,
    {
        if v[i + k] != p[k] {
            assert(v@.subrange(i as int, i + p@.len())[k as int] != p@[k as int]);
            return false;
        }
        k += 1;
    }
    assert(v@.subrange(i as int, i + p@.len()) =~= p@);
    true
}

/// Whether `s` begins with `p`.
pub fn starts_with(s: &str, p: &str) -> (r: bool)
    ensures
        r == begins(s@, p@),
{
    let v = chars_of(s);
    let q = chars_of(p);
    proof {
        if p@.len() <= s@.len() {
            assert(s@.subrange(0, 0int + p@.len()) =~= s@.take(p@.len() as int));
        }
    }
    stands(&v, &q, 0)
}

/// Whether `s` ends with `p`.
pub fn ends_with(s: &str, p: &str) -> (r: bool)
    ensures
        r == finishes(s@, p@),
{
    let v = chars_of(s);
    let q = chars_of(p);
    if q.len() > v.len() {
        return false;
    }
    assert(s@.subrange(s@.len() - p@.len(), s@.len() as int) =~= s@.skip(s@.len() - p@.len()));
    stands(&v, &q, v.len() - q.len())
}

/// What follows `p` in `s`, if `s` begins with `p`.
pub fn strip_prefix(s: &str, p: &str) -> (r: Option<String>)
    ensures
        r is Some == begins(s@, p@),
        r matches Some(t) ==> t@ == s@.skip(p@.len() as int),
{
    let v = chars_of(s);
    let q = chars_of(p);
    proof {
        if p@.len() <= s@.len() {
            assert(s@.subrange(0, 0int + p@.len()) =~= s@.take(p@.len() as int));
        }
    }
    if stands(&v, &q, 0) {
        assert(v@.skip(q@.len() as int) =~= v@.subrange(q@.len() as int, v@.len() as int));
        Some(text_of(&v, q.len(), v.len()))
    } else {
        None
    }
}

/// The first position at or after `from` at which `p` stands in `v`.
pub fn find_from(v: &Vec<char>, p: &Vec<char>, from: usize) -> (r: Option<usize>)
    ensures
        r is Some == first_at(v@, p@, from as int) is Some,
        r matches Some(i) ==> first_at(v@, p@, from as int) == Some(i as int) && from <= i
            && i + p@.len() <= v@.len(),
{
    if from > v.len() {
        return None;
    }
    let mut i: usize = from;
    loop
        invariant
            from <= i <= v@.len(),
            first_at(v@, p@, from as int) == first_at(v@, p@, i as int),
        decreases v@.len() - i,
    {
        if stands(v, p, i) {
            return Some(i);
        }
        if i >= v.len() {
            assert(first_at(v@, p@, i + 1) is None);
            return None;
        }
        i += 1;
    }
}

/// A part is found exactly where one stands.
pub proof fn lemma_first_at(s: Seq<char>, p: Seq<char>, from: int)
    requires
        0 <= from,
    ensures
        match first_at(s, p, from) {
            Some(i) => from <= i && stands_at(s, p, i) && forall|j: int|
                from <= j < i ==> !#[trigger] stands_at(s, p, j),
            None => forall|j: int| from <= j ==> !#[trigger] stands_at(s, p, j),
        },
    decreases s.len() + 1 - from,
{
    if from <= s.len() && !stands_at(s, p, from) {
        lemma_first_at(s, p, from + 1);
    }
}

/// Whether `p` stands somewhere in `s`.
pub fn contains(s: &str, p: &str) -> (r: bool)
    ensures
        r == has_part(s@, p@),
{
    let v = chars_of(s);
    let q = chars_of(p);
    proof {
        lemma_first_at(s@, p@, 0);
    }
    find_from(&v, &q, 0).is_some()
}

/// The text cut at its first `c`.
pub fn split_once(s: &str, c: char) -> (r: Option<(String, String)>)
    ensures
        r is Some == cut_first(s@, c) is Some,
        r matches Some(p) ==> cut_first(s@, c) == Some((p.0@, p.1@)),
{
    let v = chars_of(s);
    let mut i: usize = 0;
    while i < v.len() && v[i] != c
        invariant
            i <= v@.len(),
            forall|k: int| 0 <= k < i ==> #[trigger] v@[k] != c,
        decreases v@.len() - i,
    {
        i += 1;
    }
    proof {
        lemma_span_is(v@, other_than(c), i as int);
    }
    if i < v.len() {
        assert(v@.take(i as int) =~= v@.subrange(0, i as int));
        assert(v@.skip(i + 1) =~= v@.subrange(i + 1, v@.len() as int));
        Some((text_of(&v, 0, i), text_of(&v, i + 1, v.len())))
    } else {
        None
    }
}

/// The text cut at its last `c`.
pub fn rsplit_once(s: &str, c: char) -> (r: Option<(String, String)>)
    ensures
        r is Some == cut_last(s@, c) is Some,
        r matches Some(p) ==> cut_last(s@, c) == Some((p.0@, p.1@)),
{
    let v = chars_of(s);
    let mut j: usize = v.len();
    while j > 0 && v[j - 1] != c
        invariant
            j <= v@.len(),
            forall|k: int| j <= k < v@.len() ==> #[trigger] v@[k] != c,
        decreases j,
    {
        j -= 1;
    }
    proof {
        lemma_span_back_is(v@, other_than(c), v@.len() - j);
    }
    if j > 0 {
        assert(v@.take(j - 1) =~= v@.subrange(0, j - 1));
        assert(v@.skip(j as int) =~= v@.subrange(j as int, v@.len() as int));
        Some((text_of(&v, 0, j - 1), text_of(&v, j, v.len())))
    } else {
        None
    }
}

/// A text as its view, where there is one.
pub open spec fn text_opt(s: Option<&str>) -> Option<Seq<char>> {
    match s {
        Some(t) => Some(t@),
        None => None,
    }
}

/// A text as its view, where there is one.
pub open spec fn owned_opt(s: Option<String>) -> Option<Seq<char>> {
    match s {
        Some(t) => Some(t@),
        None => None,
    }
}

/// The texts of a list.
pub open spec fn texts(v: Seq<String>) -> Seq<Seq<char>> {
    v.map_values(|s: String| s@)
}

/// The words of a text.
pub fn split_words(s: &str) -> (r: Vec<String>)
    ensures
        texts(r@) == words(s@),
{
    let v = chars_of(s);
    let n: usize = v.len();
    let mut r: Vec<String> = Vec::new();
    let mut i: usize = 0;
    proof {
        assert(v@.skip(0) =~= s@);
        assert(texts(r@) + words(v@.skip(0)) =~= words(s@));
    }
    loop
        invariant
            n == v@.len(),
            i <= n,
            texts(r@) + words(v@.skip(i as int)) == words(s@),
        decreases n - i,
    {
        let ghost rest = v@.skip(i as int);
        let ghost first = i as int;
        while i < n && is_white(v[i])
            invariant
                n == v@.len(),
                first <= i <= n,
                0 <= first,
                rest == v@.skip(first),
                forall|k: int| first <= k < i ==> white(#[trigger] v@[k]),
            decreases n - i,
        {
            i += 1;
        }
        proof {
            let d = i - first;
            assert forall|k: int| 0 <= k < d implies white(#[trigger] rest[k]) by {
                assert(rest[k] == v@[first + k]);
            }
            lemma_span_is(rest, |c: char| white(c), d);
            assert(rest.skip(d) =~= v@.skip(i as int));
        }
        let ghost t = v@.skip(i as int);
        assert(t == trimmed_start(rest));
        let start: usize = i;
        while i < n && !is_white(v[i])
            invariant
                n == v@.len(),
                start <= i <= n,
                forall|k: int| start <= k < i ==> !white(#[trigger] v@[k]),
            decreases n - i,
        {
            i += 1;
        }
        proof {
            let d = i - start;
            assert forall|k: int| 0 <= k < d implies !white(#[trigger] t[k]) by {
                assert(t[k] == v@[start + k]);
            }
            lemma_span_is(t, |c: char| !white(c), d);
        }
        if i == start {
            assert(words(rest) =~= Seq::empty());
            assert(texts(r@) =~= words(s@));
            return r;
        }
        let w = text_of(&v, start, i);
        let ghost before = texts(r@);
        proof {
            assert(t.take(i - start) =~= w@);
            assert(t.skip(i - start) =~= v@.skip(i as int));
            assert(words(rest) == seq![w@] + words(v@.skip(i as int)));
        }
        let ghost wv = w@;
        r.push(w);
        proof {
            assert(texts(r@) =~= before.push(wv));
            assert(texts(r@) + words(v@.skip(i as int)) =~= before + (seq![wv] + words(
                v@.skip(i as int),
            )));
        }
    }
}

/// A character with ASCII letters in lower case.
pub fn to_lower_char(c: char) -> (r: char)
    ensures
        r == lower_char(c),
{
    match c {
        'A' => 'a', 'B' => 'b', 'C' => 'c', 'D' => 'd', 'E' => 'e', 'F' => 'f', 'G' => 'g',
        'H' => 'h', 'I' => 'i', 'J' => 'j', 'K' => 'k', 'L' => 'l', 'M' => 'm', 'N' => 'n',
        'O' => 'o', 'P' => 'p', 'Q' => 'q', 'R' => 'r', 'S' => 's', 'T' => 't', 'U' => 'u',
        'V' => 'v', 'W' => 'w', 'X' => 'x', 'Y' => 'y', 'Z' => 'z',
        _ => c,
    }
}

/// The text with its ASCII letters in lower case.
pub fn to_lower(s: &str) -> (r: String)
    ensures
        r@ == lowered(s@),
{
    let v = chars_of(s);
    let mut r = String::new();
    let mut i: usize = 0;
    while i < v.len()
        invariant
            v@ == s@,
            i <= v@.len(),
            r@ == lowered(v@.take(i as int)),
        decreases v@.len() - i,
    {
        r.push(to_lower_char(v[i]));
        i += 1;
        assert(r@ =~= lowered(v@.take(i as int)));
    }
    assert(v@.take(i as int) =~= v@);
    r
}

fn to_digit_char(d: u128) -> (c: char)
    requires
        d < 10,
    ensures
        c == digit_char(d as nat),
{
    match d {
        0 => '0', 1 => '1', 2 => '2', 3 => '3', 4 => '4',
        5 => '5', 6 => '6', 7 => '7', 8 => '8', _ => '9',
    }
}

/// The number in decimal.
pub fn dec(n: u128) -> (s: String)
    ensures
        s@ == decimal(n as nat),
    decreases n,
{
    if n < 10 {
        let mut s = String::new();
        s.push(to_digit_char(n));
        assert(s@ =~= seq![digit_char(n as nat)]);
        s
    } else {
        let mut s = dec(n / 10);
        s.push(to_digit_char(n % 10));
        s
    }
}

/// The number in decimal, with its sign where it is negative.
pub fn dec_signed(n: i32) -> (s: String)
    ensures
        s@ == signed_decimal(n as int),
{
    if n < 0 {
        let d = dec((-(n as i64)) as u128);
        cat2("-", &d)
    } else {
        dec(n as u128)
    }
}

/// The unsigned decimal number that the text writes, if it writes one no
/// greater than `max`.
pub fn parse_unsigned(s: &str, max: u128) -> (r: Option<u128>)
    ensures
        r is Some == unsigned_value(s@, max as nat) is Some,
        r matches Some(n) ==> unsigned_value(s@, max as nat) == Some(n as nat) && n <= max,
{
    let v = chars_of(s);
    let mut i: usize = 0;
    if v.len() > 0 && v[0] == '+' {
        i = 1;
    }
    let ghost start = i as int;
    let ghost body = if s@.len() > 0 && s@[0] == '+' { s@.skip(1) } else { s@ };
    assert(body =~= s@.skip(start));
    if i >= v.len() {
        return None;
    }
    let mut n: u128 = 0;
    while i < v.len()
        invariant
            v@ == s@,
            start <= i <= v@.len(),
            0 <= start < v@.len(),
            body == s@.skip(start),
            unsigned_value(s@, max as nat) == (if body.len() > 0 && all_digits(body) && digits_value(
                body,
            ) <= max { Some(digits_value(body)) } else { None }),
            all_digits(body.take(i - start)),
            n == digits_value(body.take(i - start)),
            n <= max,
        decreases v@.len() - i,
    {
        let c = v[i];
        assert(body[i - start] == c);
        if c < '0' || c > '9' {
            return None;
        }
        let d: u128 = (c as u32 - '0' as u32) as u128;
        proof {
            let t = body.take(i - start + 1);
            assert(t.drop_last() =~= body.take(i - start));
            assert(t.last() == c);
            if all_digits(body) {
                lemma_digits_monotone(body, i - start + 1);
            }
            assert(digits_value(t) == n * 10 + d);
        }
        if max < d || n > (max - d) / 10 {
            return None;
        }
        n = n * 10 + d;
        i += 1;
        proof {
            let t = body.take(i - start);
            assert forall|k: int| 0 <= k < t.len() implies is_digit(#[trigger] t[k]) by {
                if k < i - start - 1 {
                    assert(t[k] == body.take(i - start - 1)[k]);
                }
            }
        }
    }
    assert(body.take(i - start) =~= body);
    Some(n)
}

} // verus!
