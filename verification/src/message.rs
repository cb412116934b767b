//! The messages of the data link: small JSON texts, written whole and read
//! field by field.

use crate::text::{
    cat3, cat5, chars_of, dec, dec_signed, decimal, find_from, first_at, is_white, lemma_first_at,
    lemma_span_back_is, lemma_span_is, parse_unsigned, signed_decimal, span, span_back, stands_at,
    text_of, trim, trimmed, trimmed_start, unsigned_value, white,
};
use crate::token::{all_hex, hex_char, hex_digit, hex_digit_value, hex_value, is_hex};
use vstd::prelude::*;
use vstd::string::*;
use vstd::utf8::*;

verus! {

// ---------------------------------------------------------------- writing text

/// A character as it stands in a JSON text.
pub open spec fn escape(c: char) -> Seq<char> {
    if c == '\\' {
        "\\\\"@
    } else if c == '"' {
        "\\\""@
    } else if c == '\n' {
        "\\n"@
    } else if c == '\r' {
        "\\r"@
    } else if c == '\t' {
        "\\t"@
    } else if (c as u32) < 0x20 {
        "\\u00"@ + seq![hex_char((c as u32 / 16) as nat), hex_char((c as u32 % 16) as nat)]
    } else {
        seq![c]
    }
}

/// A text as it stands in JSON, between its quotes.
pub open spec fn escaped(s: Seq<char>) -> Seq<char>
    decreases s.len(),
{
    if s.len() == 0 {
        Seq::empty()
    } else {
        escape(s[0]) + escaped(s.drop_first())
    }
}

fn push_escape(out: &mut String, c: char)
    ensures
        final(out)@ == old(out)@ + escape(c),
{
    if c == '\\' {
        out.append("\\\\");
    } else if c == '"' {
        out.append("\\\"");
    } else if c == '\n' {
        out.append("\\n");
    } else if c == '\r' {
        out.append("\\r");
    } else if c == '\t' {
        out.append("\\t");
    } else if (c as u32) < 0x20 {
        out.append("\\u00");
        let ghost mid = out@;
        let n: u32 = c as u32;
        out.push(hex_digit((n / 16) as u8));
        out.push(hex_digit((n % 16) as u8));
        assert(out@ =~= mid + seq![hex_char((n / 16) as nat), hex_char((n % 16) as nat)]);
        assert(out@ =~= old(out)@ + escape(c));
    } else {
        out.push(c);
        assert(out@ =~= old(out)@ + seq![c]);
    }
}

/// The text as it stands in JSON.
pub fn json_escape(s: &str) -> (r: String)
    ensures
        r@ == escaped(s@),
{
    let v = chars_of(s);
    let mut out = String::new();
    let mut i: usize = 0;
    assert(out@ + escaped(v@.skip(0)) =~= escaped(s@)) by {
        assert(v@.skip(0) =~= s@);
    }
    while i < v.len()
        invariant
            v@ == s@,
            i <= v@.len(),
            out@ + escaped(v@.skip(i as int)) == escaped(s@),
        decreases v@.len() - i,
    {
        let ghost before = out@;
        push_escape(&mut out, v[i]);
        proof {
            let t = v@.skip(i as int);
            assert(t[0] == v@[i as int]);
            assert(t.drop_first() =~= v@.skip(i + 1));
            assert((before + escape(t[0])) + escaped(t.drop_first()) =~= before + (escape(t[0])
                + escaped(t.drop_first())));
        }
        i += 1;
    }
    assert(out@ =~= escaped(s@));
    out
}

// ---------------------------------------------------------------- reading fields

/// `char::from_u32` of std: the character with that code, if there is one.
pub assume_specification[ char::from_u32 ](i: u32) -> (r: Option<char>)
    ensures
        r is Some == is_scalar(i),
        r matches Some(c) ==> c as u32 == i,
;

/// The number that a text of hexadecimal digits writes.
pub open spec fn hex_number(s: Seq<char>) -> nat
    decreases s.len(),
{
    if s.len() == 0 {
        0
    } else {
        hex_number(s.drop_last()) * 16 + hex_digit_value(s.last())
    }
}

/// The code in the digits after `\u`: at most four characters, digits with an
/// optional `+` before them.
pub open spec fn code_in(s: Seq<char>) -> Option<nat> {
    let body = if s.len() > 0 && s[0] == '+' { s.skip(1) } else { s };
    if body.len() > 0 && all_hex(body) { Some(hex_number(body)) } else { None }
}

/// At most the first four characters.
pub open spec fn four(s: Seq<char>) -> Seq<char> {
    s.take(if s.len() < 4 { s.len() as int } else { 4 })
}

/// The text up to the closing quote, with its escapes resolved.
pub open spec fn unescaped(s: Seq<char>) -> Option<Seq<char>>
    decreases s.len(),
{
    if s.len() == 0 {
        None
    } else if s[0] == '"' {
        Some(Seq::empty())
    } else if s[0] == '\\' {
        if s.len() < 2 {
            None
        } else if s[1] == 'u' {
            let digits = four(s.skip(2));
            match code_in(digits) {
                Some(n) => if is_scalar(n as u32) {
                    match unescaped(s.skip(2 + digits.len() as int)) {
                        Some(t) => Some(seq![n as u32 as char] + t),
                        None => None,
                    }
                } else {
                    None
                },
                None => None,
            }
        } else {
            let c = if s[1] == 'n' {
                '\n'
            } else if s[1] == 'r' {
                '\r'
            } else if s[1] == 't' {
                '\t'
            } else {
                s[1]
            };
            match unescaped(s.skip(2)) {
                Some(t) => Some(seq![c] + t),
                None => None,
            }
        }
    } else {
        match unescaped(s.skip(1)) {
            Some(t) => Some(seq![s[0]] + t),
            None => None,
        }
    }
}

/// Quotes at both ends taken off, as many as there are.
pub open spec fn without_quotes(s: Seq<char>) -> Seq<char> {
    let t = s.skip(span(s, |c: char| c == '"') as int);
    t.take(t.len() - span_back(t, |c: char| c == '"'))
}

/// What stands before a field's value.
pub open spec fn field_mark(key: Seq<char>) -> Seq<char> {
    "\""@ + key + "\":"@
}

/// The value of the first field of that name: a text with its escapes resolved,
/// or what stands before the next comma or closing brace.
pub open spec fn field_text(json: Seq<char>, key: Seq<char>) -> Option<Seq<char>> {
    match first_at(json, field_mark(key), 0) {
        None => None,
        Some(i) => {
            let rest = trimmed_start(json.skip(i + field_mark(key).len()));
            if rest.len() > 0 && rest[0] == '"' {
                unescaped(rest.skip(1))
            } else {
                Some(
                    without_quotes(
                        trimmed(rest.take(span(rest, |c: char| c != ',' && c != '}') as int)),
                    ),
                )
            }
        },
    }
}

/// The unsigned number in the first field of that name, no greater than `max`.
pub open spec fn field_number(json: Seq<char>, key: Seq<char>, max: nat) -> Option<nat> {
    match field_text(json, key) {
        Some(t) => unsigned_value(trimmed(t), max),
        None => None,
    }
}

fn read_code(v: &Vec<char>, from: usize, to: usize) -> (r: Option<u32>)
    requires
        from <= to <= v@.len(),
        to - from <= 4,
    ensures
        r is Some == code_in(v@.subrange(from as int, to as int)) is Some,
        r matches Some(n) ==> code_in(v@.subrange(from as int, to as int)) == Some(n as nat),
{
    let ghost s = v@.subrange(from as int, to as int);
    let mut i: usize = from;
    if i < to && v[i] == '+' {
        i += 1;
    }
    let ghost start = i as int;
    let ghost body = if s.len() > 0 && s[0] == '+' { s.skip(1) } else { s };
    assert(body =~= v@.subrange(start, to as int));
    if i >= to {
        return None;
    }
    let mut n: u32 = 0;
    while i < to
        invariant
            0 <= start <= i <= to <= v@.len(),
            to - start <= 4,
            start < to,
            body == v@.subrange(start, to as int),
            code_in(s) == (if body.len() > 0 && all_hex(body) { Some(hex_number(body)) } else {
                None
            }),
            s == v@.subrange(from as int, to as int),
            all_hex(body.take(i - start)),
            n == hex_number(body.take(i - start)),
            i - start == 0 ==> n == 0,
            i - start == 1 ==> n < 16,
            i - start == 2 ==> n < 256,
            i - start == 3 ==> n < 4096,
            i - start == 4 ==> n < 65536,
        decreases to - i,
    {
        assert(body[i - start] == v@[i as int]);
        match hex_value(v[i]) {
            None => {
                return None;
            },
            Some(d) => {
                proof {
                    let t = body.take(i - start + 1);
                    assert(t.drop_last() =~= body.take(i - start));
                    assert(t.last() == v@[i as int]);
                    assert forall|k: int| 0 <= k < t.len() implies is_hex(#[trigger] t[k]) by {
                        if k < i - start {
                            assert(t[k] == body.take(i - start)[k]);
                        }
                    }
                }
                n = n * 16 + d as u32;
            },
        }
        i += 1;
    }
    assert(body.take(i - start) =~= body);
    Some(n)
}

/// The text after `a` and `b`, one after the other.
spec fn after(a: Seq<char>, b: Option<Seq<char>>) -> Option<Seq<char>> {
    match b {
        Some(t) => Some(a + t),
        None => None,
    }
}

/// Resolves the escapes of the text that starts at `from`, up to its closing
/// quote.
#[verifier::rlimit(80)]
#[verifier::spinoff_prover]
fn unescape(v: &Vec<char>, from: usize) -> (r: Option<String>)
    requires
        from <= v@.len(),
    ensures
        r is Some == unescaped(v@.skip(from as int)) is Some,
        r matches Some(s) ==> unescaped(v@.skip(from as int)) == Some(s@),
{
    let n: usize = v.len();
    let mut out = String::new();
    let mut i: usize = from;
    let ghost whole = unescaped(v@.skip(from as int));
    proof {
        if let Some(t) = whole {
            assert(out@ + t =~= t);
        }
    }
    while i < n
        invariant
            n == v@.len(),
            from <= i <= n,
            whole == unescaped(v@.skip(from as int)),
            whole == after(out@, unescaped(v@.skip(i as int))),
        decreases n - i,
    {
        let ghost s = v@.skip(i as int);
        let ghost before = out@;
        let c = v[i];
        assert(s[0] == c);
        if c == '"' {
            assert(out@ + Seq::<char>::empty() =~= out@);
            return Some(out);
        }
        if c != '\\' {
            out.push(c);
            i += 1;
            proof {
                assert(s.skip(1) =~= v@.skip(i as int));
                if let Some(t) = unescaped(s.skip(1)) {
                    assert(before + (seq![c] + t) =~= out@ + t);
                }
            }
            continue;
        }
        if i + 1 >= n {
            return None;
        }
        let e = v[i + 1];
        assert(s[1] == e);
        if e == 'u' {
            let to: usize = if n - (i + 2) < 4 { n } else { i + 6 };
            let ghost digits = four(s.skip(2));
            assert(digits =~= v@.subrange(i + 2, to as int));
            match read_code(v, i + 2, to) {
                None => {
                    return None;
                },
                Some(code) => match char::from_u32(code) {
                    None => {
                        return None;
                    },
                    Some(x) => {
                        out.push(x);
                        proof {
                            char_u32_cast(x, code);
                            assert(code as char == x);
                            assert(s.skip(2 + digits.len() as int) =~= v@.skip(to as int));
                            if let Some(t) = unescaped(v@.skip(to as int)) {
                                assert(before + (seq![x] + t) =~= out@ + t);
                            }
                        }
                        i = to;
                    },
                },
            }
        } else {
            let x = match e {
                'n' => '\n',
                'r' => '\r',
                't' => '\t',
                other => other,
            };
            out.push(x);
            i += 2;
            proof {
                assert(s.skip(2) =~= v@.skip(i as int));
                if let Some(t) = unescaped(s.skip(2)) {
                    assert(before + (seq![x] + t) =~= out@ + t);
                }
            }
        }
    }
    assert(v@.skip(i as int).len() == 0);
    None
}

fn strip_quotes(s: &str) -> (r: String)
    ensures
        r@ == without_quotes(s@),
{
    let v = chars_of(s);
    let mut i: usize = 0;
    while i < v.len() && v[i] == '"'
        invariant
            i <= v@.len(),
            forall|k: int| 0 <= k < i ==> #[trigger] v@[k] == '"',
        decreases v@.len() - i,
    {
        i += 1;
    }
    proof {
        lemma_span_is(v@, |c: char| c == '"', i as int);
    }
    let ghost t = v@.skip(i as int);
    let mut j: usize = v.len();
    while j > i && v[j - 1] == '"'
        invariant
            i <= j <= v@.len(),
            forall|k: int| j <= k < v@.len() ==> #[trigger] v@[k] == '"',
        decreases j,
    {
        j -= 1;
    }
    proof {
        let n = v@.len() - j;
        assert forall|k: int| t.len() - n <= k < t.len() implies #[trigger] t[k] == '"' by {
            assert(t[k] == v@[i + k]);
        }
        lemma_span_back_is(t, |c: char| c == '"', n);
        assert(without_quotes(s@) =~= v@.subrange(i as int, j as int));
    }
    text_of(&v, i, j)
}

/// The value of the first field of that name.
pub fn jstr(json: &str, key: &str) -> (r: Option<String>)
    ensures
        r is Some == field_text(json@, key@) is Some,
        r matches Some(s) ==> field_text(json@, key@) == Some(s@),
{
    let v = chars_of(json);
    let mark = cat3("\"", key, "\":");
    let p = chars_of(&mark);
    let at = match find_from(&v, &p, 0) {
        None => {
            return None;
        },
        Some(i) => i,
    };
    let n: usize = v.len();
    let start: usize = at + p.len();
    let ghost tail = v@.skip(start as int);
    let mut i: usize = start;
    while i < n && is_white(v[i])
        invariant
            n == v@.len(),
            start <= i <= n,
            forall|k: int| start <= k < i ==> white(#[trigger] v@[k]),
        decreases n - i,
    {
        i += 1;
    }
    proof {
        let d = i - start;
        assert forall|k: int| 0 <= k < d implies white(#[trigger] tail[k]) by {
            assert(tail[k] == v@[start + k]);
        }
        lemma_span_is(tail, |c: char| white(c), d);
        assert(tail.skip(d) =~= v@.skip(i as int));
    }
    let ghost rest = v@.skip(i as int);
    if i < n && v[i] == '"' {
        assert(rest[0] == '"');
        assert(rest.skip(1) =~= v@.skip(i + 1));
        return unescape(&v, i + 1);
    }
    let mut j: usize = i;
    while j < n && v[j] != ',' && v[j] != '}'
        invariant
            n == v@.len(),
            i <= j <= n,
            forall|k: int| i <= k < j ==> #[trigger] v@[k] != ',' && v@[k] != '}',
        decreases n - j,
    {
        j += 1;
    }
    proof {
        let d = j - i;
        assert forall|k: int| 0 <= k < d implies #[trigger] rest[k] != ',' && rest[k] != '}' by {
            assert(rest[k] == v@[i + k]);
        }
        lemma_span_is(rest, |c: char| c != ',' && c != '}', d);
        assert(rest.take(d) =~= v@.subrange(i as int, j as int));
        if rest.len() > 0 {
            assert(rest[0] == v@[i as int]);
        }
    }
    let raw = text_of(&v, i, j);
    let t = trim(&raw);
    Some(strip_quotes(&t))
}

/// The unsigned number in the first field of that name, no greater than `max`.
pub fn jnum(json: &str, key: &str, max: u128) -> (r: Option<u128>)
    ensures
        r is Some == field_number(json@, key@, max as nat) is Some,
        r matches Some(n) ==> field_number(json@, key@, max as nat) == Some(n as nat) && n <= max,
{
    match jstr(json, key) {
        None => None,
        Some(t) => {
            let t = trim(&t);
            parse_unsigned(&t, max)
        },
    }
}

// ---------------------------------------------------------------- reading what was written

proof fn lemma_unescape_one(c: char, rest: Seq<char>)
    ensures
        unescaped(escape(c) + rest) == after(seq![c], unescaped(rest)),
{
    let s = escape(c) + rest;
    reveal_strlit("\\\\");
    reveal_strlit("\\\"");
    reveal_strlit("\\n");
    reveal_strlit("\\r");
    reveal_strlit("\\t");
    reveal_strlit("\\u00");
    if c == '\\' || c == '"' || c == '\n' || c == '\r' || c == '\t' {
        assert(s.skip(2) =~= rest);
    } else if (c as u32) < 0x20 {
        let n = c as u32;
        let hi = hex_char((n / 16) as nat);
        let lo = hex_char((n % 16) as nat);
        let d = seq!['0', '0', hi, lo];
        assert(s =~= seq!['\\', 'u'] + d + rest);
        assert(four(s.skip(2)) =~= d);
        assert(s.skip(6) =~= rest);
        assert(is_hex(hi) && is_hex(lo));
        assert(d.drop_last() =~= seq!['0', '0', hi]);
        assert(d.drop_last().drop_last() =~= seq!['0', '0']);
        assert(d.drop_last().drop_last().drop_last() =~= seq!['0']);
        assert(d.drop_last().drop_last().drop_last().drop_last() =~= Seq::<char>::empty());
        assert(hex_number(Seq::<char>::empty()) == 0);
        assert(hex_number(seq!['0']) == 0);
        assert(hex_number(seq!['0', '0']) == 0);
        assert(hex_number(seq!['0', '0', hi]) == n / 16);
        assert(hex_number(d) == n);
        assert(all_hex(d)) by {
            assert forall|i: int| 0 <= i < d.len() implies is_hex(#[trigger] d[i]) by {
            }
        }
        assert(code_in(d) == Some(n as nat));
        char_is_scalar(c);
        char_u32_cast(c, n);
    } else {
        assert(s.skip(1) =~= rest);
    }
}

/// Text that was escaped comes back when the escapes are resolved, up to the
/// quote that ends it.
pub proof fn escaped_text_reads_back(v: Seq<char>, tail: Seq<char>)
    ensures
        unescaped(escaped(v) + (seq!['"'] + tail)) == Some(v),
    decreases v.len(),
{
    let end = seq!['"'] + tail;
    if v.len() == 0 {
        assert(escaped(v) + end =~= end);
        assert(v =~= Seq::<char>::empty());
    } else {
        let t = v.drop_first();
        escaped_text_reads_back(t, tail);
        assert((escape(v[0]) + escaped(t)) + end =~= escape(v[0]) + (escaped(t) + end));
        lemma_unescape_one(v[0], escaped(t) + end);
        assert(seq![v[0]] + t =~= v);
    }
}

/// A field that was written as escaped text between quotes reads back as the
/// text, wherever it is the first field of its name.
pub proof fn written_field_reads_back(
    before: Seq<char>,
    key: Seq<char>,
    value: Seq<char>,
    tail: Seq<char>,
)
    requires
        forall|j: int|
            0 <= j < before.len() ==> !#[trigger] stands_at(
                before + field_mark(key) + (seq!['"'] + (escaped(value) + (seq!['"'] + tail))),
                field_mark(key),
                j,
            ),
    ensures
        field_text(
            before + field_mark(key) + (seq!['"'] + (escaped(value) + (seq!['"'] + tail))),
            key,
        ) == Some(value),
{
    let m = field_mark(key);
    let body = seq!['"'] + (escaped(value) + (seq!['"'] + tail));
    let json = before + m + body;
    lemma_first_at(json, m, 0);
    let n = before.len() as int;
    assert(json.subrange(n, n + m.len()) =~= m);
    assert(stands_at(json, m, n));
    assert(first_at(json, m, 0) == Some(n));
    assert(json.skip(n + m.len()) =~= body);
    lemma_span_is(body, |c: char| white(c), 0);
    assert(body.skip(0) =~= body);
    assert(body.skip(1) =~= escaped(value) + (seq!['"'] + tail));
    escaped_text_reads_back(value, tail);
}

// ---------------------------------------------------------------- the messages

/// The first message on the data link: the session key.
pub open spec fn key_message(key: Seq<char>) -> Seq<char> {
    "{\"k\":\""@ + key + "\"}"@
}

/// A request for a file, of which the client has the first `have` bytes.
pub open spec fn pull_message(id: u32, name: Seq<char>, have: u64) -> Seq<char> {
    "{\"t\":\"pull\",\"id\":"@ + decimal(id as nat) + ",\"name\":\""@ + escaped(name)
        + "\",\"have\":"@ + decimal(have as nat) + "}"@
}

/// The offer of a file, with its size and its digest.
pub open spec fn push_message(id: u32, name: Seq<char>, size: u64, sha256: Seq<char>) -> Seq<char> {
    "{\"t\":\"push\",\"id\":"@ + decimal(id as nat) + ",\"name\":\""@ + escaped(name)
        + "\",\"size\":"@ + decimal(size as nat) + ",\"sha256\":\""@ + sha256 + "\"}"@
}

/// The end of an upload, after so many bytes.
pub open spec fn eof_message(id: u32, bytes: u64) -> Seq<char> {
    "{\"t\":\"eof\",\"id\":"@ + decimal(id as nat) + ",\"bytes\":"@ + decimal(bytes as nat) + "}"@
}

/// The end of a download.
pub open spec fn done_ack_message(id: u32) -> Seq<char> {
    "{\"t\":\"done-ack\",\"id\":"@ + decimal(id as nat) + "}"@
}

/// The request for a bitrate.
pub open spec fn bitrate_message(kbps: u32) -> Seq<char> {
    "{\"kbps\":"@ + decimal(kbps as nat) + ",\"t\":\"bitrate_request\"}"@
}

/// The request for video of a part of a monitor.
pub open spec fn video_start_message(
    monitor_index: u32,
    offset_x: i32,
    offset_y: i32,
    width: u32,
    height: u32,
) -> Seq<char> {
    "{\"height\":"@ + decimal(height as nat) + ",\"monitor_index\":"@ + decimal(
        monitor_index as nat,
    ) + ",\"offset_x\":"@ + signed_decimal(offset_x as int) + ",\"offset_y\":"@ + signed_decimal(
        offset_y as int,
    ) + ",\"t\":\"video_start\",\"width\":"@ + decimal(width as nat) + "}"@
}

pub const INPUT_START_MESSAGE: &'static str = "{\"t\":\"input_start\"}";

pub const INPUT_STOP_MESSAGE: &'static str = "{\"t\":\"input_stop\"}";

pub const VIDEO_PAUSE_MESSAGE: &'static str = "{\"t\":\"video_pause\"}";

pub const VIDEO_RESUME_MESSAGE: &'static str = "{\"t\":\"video_resume\"}";

pub const KEYFRAME_MESSAGE: &'static str = "{\"t\":\"video_keyframe_request\"}";

/// The first message on the data link.
pub fn key_text(key: &str) -> (s: String)
    ensures
        s@ == key_message(key@),
{
    cat3("{\"k\":\"", key, "\"}")
}

/// A request for a file.
pub fn pull_text(id: u32, name: &str, have: u64) -> (s: String)
    ensures
        s@ == pull_message(id, name@, have),
{
    let i = dec(id as u128);
    let n = json_escape(name);
    let h = dec(have as u128);
    let mut s = cat5("{\"t\":\"pull\",\"id\":", &i, ",\"name\":\"", &n, "\",\"have\":");
    s.append(&h);
    s.append("}");
    s
}

/// The offer of a file.
pub fn push_text(id: u32, name: &str, size: u64, sha256: &str) -> (s: String)
    ensures
        s@ == push_message(id, name@, size, sha256@),
{
    let i = dec(id as u128);
    let n = json_escape(name);
    let z = dec(size as u128);
    let mut s = cat5("{\"t\":\"push\",\"id\":", &i, ",\"name\":\"", &n, "\",\"size\":");
    s.append(&z);
    s.append(",\"sha256\":\"");
    s.append(sha256);
    s.append("\"}");
    s
}

/// The end of an upload.
pub fn eof_text(id: u32, bytes: u64) -> (s: String)
    ensures
        s@ == eof_message(id, bytes),
{
    let i = dec(id as u128);
    let b = dec(bytes as u128);
    cat5("{\"t\":\"eof\",\"id\":", &i, ",\"bytes\":", &b, "}")
}

/// The end of a download.
pub fn done_ack_text(id: u32) -> (s: String)
    ensures
        s@ == done_ack_message(id),
{
    let i = dec(id as u128);
    cat3("{\"t\":\"done-ack\",\"id\":", &i, "}")
}

/// The request for a bitrate.
pub fn bitrate_text(kbps: u32) -> (s: String)
    ensures
        s@ == bitrate_message(kbps),
{
    let k = dec(kbps as u128);
    cat3("{\"kbps\":", &k, ",\"t\":\"bitrate_request\"}")
}

/// The request for video of a part of a monitor.
pub fn video_start_text(
    monitor_index: u32,
    offset_x: i32,
    offset_y: i32,
    width: u32,
    height: u32,
) -> (s: String)
    ensures
        s@ == video_start_message(monitor_index, offset_x, offset_y, width, height),
{
    let h = dec(height as u128);
    let m = dec(monitor_index as u128);
    let x = dec_signed(offset_x);
    let y = dec_signed(offset_y);
    let w = dec(width as u128);
    let mut s = cat5("{\"height\":", &h, ",\"monitor_index\":", &m, ",\"offset_x\":");
    s.append(&x);
    s.append(",\"offset_y\":");
    s.append(&y);
    s.append(",\"t\":\"video_start\",\"width\":");
    s.append(&w);
    s.append("}");
    s
}

} // verus!
