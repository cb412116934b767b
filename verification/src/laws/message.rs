//! Messages: what is written into a field is what is read from it.

use crate::message::{
    bitrate_message, bitrate_text, done_ack_message, done_ack_text, eof_message, eof_text, escape,
    escaped, field_mark, field_number, field_text, jnum, json_escape, jstr, key_message, key_text,
    pull_message, pull_text, push_message, video_start_message, video_start_text,
    written_field_reads_back,
};
use crate::text::{
    decimal, decimal_reads_back, first_at, is_digit, lemma_decimal, lemma_first_at,
    lemma_span_back_is, lemma_span_is, lemma_trimmed_same, signed_decimal, stands_at,
    trimmed_start, white,
};
use vstd::prelude::*;
use vstd::string::*;

verus! {

/// A name of a field: not empty, and without the characters that structure a
/// message.
pub open spec fn is_key(k: Seq<char>) -> bool {
    k.len() > 0 && forall|i: int|
        0 <= i < k.len() ==> (#[trigger] k[i]) != '"' && k[i] != '\\' && k[i] != ':' && k[i] != ','
            && k[i] != '}'
}

/// A field with a number.
pub open spec fn number_part(key: Seq<char>, n: nat) -> Seq<char> {
    field_mark(key) + decimal(n)
}

/// A field with a text.
pub open spec fn text_part(key: Seq<char>, s: Seq<char>) -> Seq<char> {
    field_mark(key) + (seq!['"'] + (escaped(s) + seq!['"']))
}

proof fn lemma_mark(key: Seq<char>)
    ensures
        field_mark(key).len() == key.len() + 3,
        field_mark(key)[0] == '"',
        forall|i: int| 0 <= i < key.len() ==> #[trigger] field_mark(key)[i + 1] == key[i],
        field_mark(key)[key.len() + 1int] == '"',
        field_mark(key)[key.len() + 2int] == ':',
{
    reveal_strlit("\"");
    reveal_strlit("\":");
}

proof fn lemma_not_at(json: Seq<char>, m: Seq<char>, j: int, k: int)
    requires
        0 <= j,
        0 <= k < m.len(),
        j + k < json.len() ==> json[j + k] != m[k],
    ensures
        !stands_at(json, m, j),
{
    if stands_at(json, m, j) {
        assert(json.subrange(j, j + m.len())[k] == json[j + k]);
    }
}

/// A field is the first of its name in a text exactly if it is in what follows
/// something in which no field of that name begins.
proof fn lemma_field_skips(x: Seq<char>, y: Seq<char>, key: Seq<char>)
    requires
        forall|j: int| 0 <= j < x.len() ==> !#[trigger] stands_at(x + y, field_mark(key), j),
    ensures
        field_text(x + y, key) == field_text(y, key),
{
    let m = field_mark(key);
    let s = x + y;
    lemma_first_at(s, m, 0);
    lemma_first_at(y, m, 0);
    assert forall|j: int| 0 <= j implies stands_at(s, m, x.len() + j) == #[trigger] stands_at(
        y,
        m,
        j,
    ) by {
        if j + m.len() <= y.len() {
            assert(s.subrange(x.len() + j, x.len() + j + m.len()) =~= y.subrange(j, j + m.len()));
        }
    }
    match first_at(s, m, 0) {
        Some(i) => {
            assert(i >= x.len());
            assert(stands_at(y, m, i - x.len()));
            let k = first_at(y, m, 0)->0;
            assert(stands_at(s, m, x.len() + k));
            assert(k == i - x.len());
            assert(s.skip(i + m.len()) =~= y.skip(k + m.len()));
        },
        None => {
            if first_at(y, m, 0) is Some {
                let k = first_at(y, m, 0)->0;
                assert(stands_at(s, m, x.len() + k));
            }
        },
    }
}

/// No field of another name begins where a field's name stands.
proof fn lemma_other_name(k: Seq<char>, rest: Seq<char>, key: Seq<char>, j: int)
    requires
        is_key(k),
        is_key(key),
        k != key,
        0 <= j < k.len() + 3,
    ensures
        !stands_at(field_mark(k) + rest, field_mark(key), j),
{
    let s = field_mark(k) + rest;
    let m = field_mark(key);
    lemma_mark(k);
    lemma_mark(key);
    if j == 0 {
        if k.len() < key.len() {
            assert(s[k.len() + 1int] == '"');
            assert(m[k.len() + 1int] == key[k.len() as int]);
            lemma_not_at(s, m, 0, k.len() + 1int);
        } else if k.len() > key.len() {
            assert(s[key.len() + 1int] == field_mark(k)[key.len() + 1int]);
            assert(field_mark(k)[key.len() + 1int] == k[key.len() as int]);
            lemma_not_at(s, m, 0, key.len() + 1int);
        } else {
            assert(exists|i: int| 0 <= i < k.len() && k[i] != key[i]) by {
                if forall|i: int| 0 <= i < k.len() ==> k[i] == key[i] {
                    assert(k =~= key);
                }
            }
            let i = choose|i: int| 0 <= i < k.len() && k[i] != key[i];
            assert(s[i + 1] == field_mark(k)[i + 1]);
            assert(field_mark(k)[i + 1] == k[i] && m[i + 1] == key[i]);
            lemma_not_at(s, m, 0, i + 1);
        }
    } else if j <= k.len() {
        assert(s[j] == field_mark(k)[(j - 1) + 1]);
        assert(field_mark(k)[(j - 1) + 1] == k[j - 1]);
        lemma_not_at(s, m, j, 0);
    } else if j == k.len() + 1 {
        assert(s[j + 1] == ':');
        assert(m[0int + 1] == key[0]);
        lemma_not_at(s, m, j, 1);
    } else {
        lemma_not_at(s, m, j, 0);
    }
}

/// A field behind one with a number, of another name, is found there.
pub proof fn fields_behind_numbers(k: Seq<char>, n: nat, y: Seq<char>, key: Seq<char>)
    requires
        is_key(k),
        is_key(key),
        k != key,
    ensures
        field_text(number_part(k, n) + seq![','] + y, key) == field_text(y, key),
{
    let x = number_part(k, n) + seq![','];
    let m = field_mark(key);
    lemma_mark(k);
    lemma_mark(key);
    lemma_decimal(n);
    let rest = decimal(n) + seq![','] + y;
    assert(x + y =~= field_mark(k) + rest);
    assert forall|j: int| 0 <= j < x.len() implies !#[trigger] stands_at(x + y, m, j) by {
        if j < k.len() + 3 {
            lemma_other_name(k, rest, key, j);
        } else {
            let i = j - (k.len() + 3);
            if i < decimal(n).len() {
                assert((x + y)[j] == decimal(n)[i]);
                assert(is_digit(decimal(n)[i]));
            } else {
                assert((x + y)[j] == ',');
            }
            lemma_not_at(x + y, m, j, 0);
        }
    }
    lemma_field_skips(x, y, key);
}

proof fn lemma_escape_quotes(c: char)
    ensures
        forall|i: int|
            0 <= i < escape(c).len() && #[trigger] escape(c)[i] == '"' ==> i > 0 && escape(c)[i - 1]
                == '\\',
{
    reveal_strlit("\\\\");
    reveal_strlit("\\\"");
    reveal_strlit("\\n");
    reveal_strlit("\\r");
    reveal_strlit("\\t");
    reveal_strlit("\\u00");
}

/// Quotes in an escaped text stand behind a backslash.
proof fn lemma_escaped_quotes(s: Seq<char>)
    ensures
        forall|i: int|
            0 <= i < escaped(s).len() && #[trigger] escaped(s)[i] == '"' ==> i > 0 && escaped(s)[i
                - 1] == '\\',
    decreases s.len(),
{
    if s.len() > 0 {
        let t = s.drop_first();
        let e = escape(s[0]);
        lemma_escaped_quotes(t);
        lemma_escape_quotes(s[0]);
        assert(escaped(s) == e + escaped(t));
        assert forall|i: int|
            0 <= i < escaped(s).len() && #[trigger] escaped(s)[i] == '"' implies i > 0 && escaped(
            s,
        )[i - 1] == '\\' by {
            if i < e.len() {
                assert(e[i] == '"');
            } else {
                assert(escaped(t)[i - e.len()] == '"');
            }
        }
    }
}

/// A field behind one with a text, of another name, is found there, whatever the
/// text holds.
pub proof fn fields_behind_texts(k: Seq<char>, s: Seq<char>, c: char, y: Seq<char>, key: Seq<char>)
    requires
        is_key(k),
        is_key(key),
        k != key,
        c == ',' || c == '}',
    ensures
        field_text(text_part(k, s) + seq![c] + y, key) == field_text(y, key),
{
    let x = text_part(k, s) + seq![c];
    let m = field_mark(key);
    let e = escaped(s);
    lemma_mark(k);
    lemma_mark(key);
    lemma_escaped_quotes(s);
    let rest = seq!['"'] + e + seq!['"'] + seq![c] + y;
    let z = x + y;
    assert(z =~= field_mark(k) + rest);
    let a = k.len() + 4int;
    let end = a + e.len();
    assert(z[end] == '"' && z[end + 1] == c);
    assert forall|j: int| 0 <= j < x.len() implies !#[trigger] stands_at(z, m, j) by {
        if j < k.len() + 3 {
            lemma_other_name(k, rest, key, j);
        } else if stands_at(z, m, j) {
            let q = j + key.len() + 1;
            assert(z.subrange(j, j + m.len())[0] == z[j]);
            assert(z.subrange(j, j + m.len())[key.len() + 1int] == z[q]);
            assert(z.subrange(j, j + m.len())[key.len() + 2int] == z[q + 1]);
            let last: int = key.len() - 1;
            assert(m[last + 1] == key[last]);
            assert(z.subrange(j, j + m.len())[key.len() as int] == z[q - 1]);
            assert(m[0int + 1] == key[0]);
            assert(z.subrange(j, j + m.len())[1] == z[j + 1]);
            assert(z[j] == '"' && z[q] == '"' && z[q + 1] == ':' && z[q - 1] == key[last]);
            if q < end {
                assert(z[q] == e[q - a]);
                assert(e[q - a - 1] == '\\');
                assert(z[q - 1] == e[q - a - 1]);
            } else if q > end {
                if j < end {
                    let i = end - j - 1;
                    assert(m[i + 1] == key[i]);
                    assert(z.subrange(j, j + m.len())[i + 1] == z[end as int]);
                } else if j == end {
                    assert(z[j + 1] == c);
                    assert(key[0] == c);
                }
            }
        }
    }
    lemma_field_skips(x, y, key);
}

/// A number in a field is read as it was written.
pub proof fn numbers_read_back(key: Seq<char>, n: nat, c: char, y: Seq<char>, max: nat)
    requires
        n <= max,
        c == ',' || c == '}',
    ensures
        field_number(number_part(key, n) + seq![c] + y, key, max) == Some(n),
{
    let m = field_mark(key);
    let d = decimal(n);
    let body = d + seq![c] + y;
    let json = number_part(key, n) + seq![c] + y;
    lemma_decimal(n);
    lemma_mark(key);
    assert(json =~= m + body);
    assert(json.subrange(0, m.len() as int) =~= m);
    assert(stands_at(json, m, 0));
    assert(json.skip(0int + m.len()) =~= body);
    assert(is_digit(d[0]) && is_digit(d[d.len() - 1]));
    lemma_span_is(body, |x: char| white(x), 0);
    assert(body.skip(0) =~= body);
    let keep = |x: char| x != ',' && x != '}';
    assert forall|i: int| 0 <= i < d.len() implies keep(#[trigger] body[i]) by {
        assert(is_digit(d[i]));
    }
    lemma_span_is(body, keep, d.len() as int);
    assert(body.take(d.len() as int) =~= d);
    lemma_trimmed_same(d);
    let quote = |x: char| x == '"';
    lemma_span_is(d, quote, 0);
    assert(d.skip(0) =~= d);
    lemma_span_back_is(d, quote, 0);
    assert(d.take(d.len() as int) =~= d);
    decimal_reads_back(n, max);
}

/// A text in a field is read as it was written.
pub proof fn texts_read_back(key: Seq<char>, s: Seq<char>, y: Seq<char>)
    ensures
        field_text(text_part(key, s) + y, key) == Some(s),
{
    let before = Seq::<char>::empty();
    let json = before + field_mark(key) + (seq!['"'] + (escaped(s) + (seq!['"'] + y)));
    assert(text_part(key, s) + y =~= json);
    written_field_reads_back(before, key, s, y);
}

/// The brace before the first field does not matter.
pub proof fn fields_behind_the_brace(y: Seq<char>, key: Seq<char>)
    ensures
        field_text(seq!['{'] + y, key) == field_text(y, key),
{
    let x = seq!['{'];
    lemma_mark(key);
    assert forall|j: int| 0 <= j < x.len() implies !#[trigger] stands_at(
        x + y,
        field_mark(key),
        j,
    ) by {
        lemma_not_at(x + y, field_mark(key), j, 0);
    }
    lemma_field_skips(x, y, key);
}

// ---------------------------------------------------------------- messages of the link

/// The start of a message: its type and the number of its transfer.
pub open spec fn message_head(kind: Seq<char>, id: u32) -> Seq<char> {
    seq!['{'] + text_part("t"@, kind) + seq![','] + number_part("id"@, id as nat)
}

proof fn lemma_keys()
    ensures
        is_key("t"@),
        is_key("id"@),
        is_key("name"@),
        is_key("have"@),
        is_key("size"@),
        is_key("sha256"@),
        is_key("bytes"@),
        is_key("resume"@),
        is_key("ok"@),
        is_key("code"@),
        is_key("msg"@),
        is_key("kbps"@),
        "t"@.len() == 1,
        "id"@.len() == 2,
        "name"@.len() == 4 && "name"@[0] == 'n',
        "have"@.len() == 4 && "have"@[0] == 'h',
        "size"@.len() == 4 && "size"@[0] == 's',
        "sha256"@.len() == 6 && "sha256"@[0] == 's',
        "bytes"@.len() == 5,
        "resume"@.len() == 6 && "resume"@[0] == 'r',
        "ok"@.len() == 2 && "ok"@[0] == 'o',
        "id"@[0] == 'i',
        "code"@.len() == 4 && "code"@[0] == 'c',
        "msg"@.len() == 3,
        "kbps"@.len() == 4,
{
    reveal_strlit("t");
    reveal_strlit("id");
    reveal_strlit("name");
    reveal_strlit("have");
    reveal_strlit("size");
    reveal_strlit("sha256");
    reveal_strlit("bytes");
    reveal_strlit("resume");
    reveal_strlit("ok");
    reveal_strlit("code");
    reveal_strlit("msg");
    reveal_strlit("kbps");
}

/// The type and the number of a message are read from it, and every other field
/// from what follows them.
pub proof fn message_heads_read_back(
    kind: Seq<char>,
    id: u32,
    c: char,
    y: Seq<char>,
    key: Seq<char>,
)
    requires
        c == ',' || c == '}',
        is_key(key),
        key != "t"@,
        key != "id"@,
    ensures
        field_text(message_head(kind, id) + seq![c] + y, "t"@) == Some(kind),
        field_number(message_head(kind, id) + seq![c] + y, "id"@, u32::MAX as nat) == Some(id as nat),
        c == ',' ==> field_text(message_head(kind, id) + seq![c] + y, key) == field_text(y, key),
{
    lemma_keys();
    let json = message_head(kind, id) + seq![c] + y;
    let z = number_part("id"@, id as nat) + seq![c] + y;
    let a = text_part("t"@, kind) + seq![','] + z;
    assert(json =~= seq!['{'] + a);
    fields_behind_the_brace(a, "t"@);
    fields_behind_the_brace(a, "id"@);
    fields_behind_the_brace(a, key);
    assert(a =~= text_part("t"@, kind) + (seq![','] + z));
    texts_read_back("t"@, kind, seq![','] + z);
    fields_behind_texts("t"@, kind, ',', z, "id"@);
    numbers_read_back("id"@, id as nat, c, y, u32::MAX as nat);
    fields_behind_texts("t"@, kind, ',', z, key);
    if c == ',' {
        fields_behind_numbers("id"@, id as nat, y, key);
    }
}

/// A request for a file reads back: its number, the file's name and how much of it
/// is there.
#[verifier::rlimit(80)]
#[verifier::spinoff_prover]
pub proof fn pull_messages_read_back(id: u32, name: Seq<char>, have: u64)
    ensures
        ({
            let json = pull_message(id, name, have);
            &&& field_text(json, "t"@) == Some("pull"@)
            &&& field_number(json, "id"@, u32::MAX as nat) == Some(id as nat)
            &&& field_text(json, "name"@) == Some(name)
            &&& field_number(json, "have"@, u64::MAX as nat) == Some(have as nat)
        }),
{
    lemma_keys();
    let json = pull_message(id, name, have);
    let z = number_part("have"@, have as nat) + seq!['}'] + Seq::<char>::empty();
    let y = text_part("name"@, name) + seq![','] + z;
    reveal_strlit("pull");
    lemma_plain_text("pull"@);
    assert(json =~= message_head("pull"@, id) + seq![','] + y) by {
        reveal_strlit("{\"t\":\"pull\",\"id\":");
        reveal_strlit(",\"name\":\"");
        reveal_strlit("\",\"have\":");
        reveal_strlit("}");
        lemma_literals();
        reveal_strlit("pull");
    }
    message_heads_read_back("pull"@, id, ',', y, "name"@);
    message_heads_read_back("pull"@, id, ',', y, "have"@);
    assert(y =~= text_part("name"@, name) + (seq![','] + z));
    texts_read_back("name"@, name, seq![','] + z);
    fields_behind_texts("name"@, name, ',', z, "have"@);
    numbers_read_back("have"@, have as nat, '}', Seq::empty(), u64::MAX as nat);
}

proof fn lemma_literals()
    ensures
        "\""@ == seq!['"'],
        "\":"@ == seq!['"', ':'],
        "t"@ == seq!['t'],
        "id"@ == seq!['i', 'd'],
        "name"@ == seq!['n', 'a', 'm', 'e'],
        "have"@ == seq!['h', 'a', 'v', 'e'],
        "size"@ == seq!['s', 'i', 'z', 'e'],
        "sha256"@ == seq!['s', 'h', 'a', '2', '5', '6'],
        "bytes"@ == seq!['b', 'y', 't', 'e', 's'],
{
    reveal_strlit("\"");
    reveal_strlit("\":");
    reveal_strlit("t");
    reveal_strlit("id");
    reveal_strlit("name");
    reveal_strlit("have");
    reveal_strlit("size");
    reveal_strlit("sha256");
    reveal_strlit("bytes");
    assert("\""@ =~= seq!['"']);
    assert("\":"@ =~= seq!['"', ':']);
    assert("t"@ =~= seq!['t']);
    assert("id"@ =~= seq!['i', 'd']);
    assert("name"@ =~= seq!['n', 'a', 'm', 'e']);
    assert("have"@ =~= seq!['h', 'a', 'v', 'e']);
    assert("size"@ =~= seq!['s', 'i', 'z', 'e']);
    assert("sha256"@ =~= seq!['s', 'h', 'a', '2', '5', '6']);
    assert("bytes"@ =~= seq!['b', 'y', 't', 'e', 's']);
}

/// A text without characters that have to be escaped stands as it is.
pub proof fn lemma_plain_text(s: Seq<char>)
    requires
        forall|i: int|
            0 <= i < s.len() ==> (#[trigger] s[i]) != '"' && s[i] != '\\' && s[i] as u32 >= 0x20,
    ensures
        escaped(s) == s,
    decreases s.len(),
{
    if s.len() > 0 {
        let t = s.drop_first();
        assert forall|i: int| 0 <= i < t.len() implies (#[trigger] t[i]) != '"' && t[i] != '\\'
            && t[i] as u32 >= 0x20 by {
            assert(t[i] == s[i + 1]);
        }
        lemma_plain_text(t);
        assert(seq![s[0]] + t =~= s);
    } else {
        assert(escaped(s) =~= s);
    }
}

#[verifier::rlimit(60)]
#[verifier::spinoff_prover]
proof fn lemma_push_shape(id: u32, name: Seq<char>, size: u64, digest: Seq<char>)
    requires
        escaped("push"@) == "push"@,
        escaped(digest) == digest,
    ensures
        ({
            let w = text_part("sha256"@, digest) + seq!['}'];
            let z = number_part("size"@, size as nat) + seq![','] + w;
            let y = text_part("name"@, name) + seq![','] + z;
            push_message(id, name, size, digest) == message_head("push"@, id) + seq![','] + y
        }),
{
    let q = seq!['"'];
    let c = seq![','];
    lemma_literals();
    assert("{\"t\":\"push\",\"id\":"@ =~= seq!['{'] + text_part("t"@, "push"@) + c + field_mark(
        "id"@,
    )) by {
        reveal_strlit("{\"t\":\"push\",\"id\":");
        reveal_strlit("push");
    }
    assert(",\"name\":\""@ =~= c + field_mark("name"@) + q) by {
        reveal_strlit(",\"name\":\"");
    }
    assert("\",\"size\":"@ =~= q + c + field_mark("size"@)) by {
        reveal_strlit("\",\"size\":");
    }
    assert(",\"sha256\":\""@ =~= c + field_mark("sha256"@) + q) by {
        reveal_strlit(",\"sha256\":\"");
    }
    assert("\"}"@ =~= q + seq!['}']) by {
        reveal_strlit("\"}");
    }
    let head = seq!['{'] + text_part("t"@, "push"@) + c + field_mark("id"@) + decimal(id as nat);
    let (mn, ms, md) = (field_mark("name"@), field_mark("size"@), field_mark("sha256"@));
    let (n, e, d) = (decimal(size as nat), escaped(name), digest);
    let a = head + (c + mn + q) + e;
    let b = a + (q + c + ms) + n;
    let json = b + (c + md + q) + d + (q + seq!['}']);
    assert(push_message(id, name, size, digest) == json);
    let w = md + (q + (d + q)) + seq!['}'];
    assert((c + md + q) + d + (q + seq!['}']) =~= c + w);
    assert(json =~= b + (c + w));
    let z = ms + n + c + w;
    assert((q + c + ms) + n + (c + w) =~= q + c + z);
    assert(json =~= a + (q + c + z));
    let y = mn + (q + (e + q)) + c + z;
    assert((c + mn + q) + e + (q + c + z) =~= c + y);
    assert(json =~= head + (c + y));
    assert(head =~= message_head("push"@, id));
    assert(head + (c + y) =~= head + c + y);
}

/// An offer of a file reads back: its number, the name on the host, the size and
/// the digest.
#[verifier::rlimit(80)]
#[verifier::spinoff_prover]
pub proof fn push_messages_read_back(id: u32, name: Seq<char>, size: u64, digest: Seq<char>)
    requires
        forall|i: int|
            0 <= i < digest.len() ==> (#[trigger] digest[i]) != '"' && digest[i] != '\\'
                && digest[i] as u32 >= 0x20,
    ensures
        ({
            let json = push_message(id, name, size, digest);
            &&& field_text(json, "t"@) == Some("push"@)
            &&& field_number(json, "id"@, u32::MAX as nat) == Some(id as nat)
            &&& field_text(json, "name"@) == Some(name)
            &&& field_number(json, "size"@, u64::MAX as nat) == Some(size as nat)
            &&& field_text(json, "sha256"@) == Some(digest)
        }),
{
    lemma_keys();
    let json = push_message(id, name, size, digest);
    let w = text_part("sha256"@, digest) + seq!['}'];
    let z = number_part("size"@, size as nat) + seq![','] + w;
    let y = text_part("name"@, name) + seq![','] + z;
    reveal_strlit("push");
    lemma_plain_text("push"@);
    lemma_plain_text(digest);
    lemma_push_shape(id, name, size, digest);
    message_heads_read_back("push"@, id, ',', y, "name"@);
    message_heads_read_back("push"@, id, ',', y, "size"@);
    message_heads_read_back("push"@, id, ',', y, "sha256"@);
    assert(y =~= text_part("name"@, name) + (seq![','] + z));
    texts_read_back("name"@, name, seq![','] + z);
    fields_behind_texts("name"@, name, ',', z, "size"@);
    fields_behind_texts("name"@, name, ',', z, "sha256"@);
    numbers_read_back("size"@, size as nat, ',', w, u64::MAX as nat);
    fields_behind_numbers("size"@, size as nat, w, "sha256"@);
    texts_read_back("sha256"@, digest, seq!['}']);
}

/// The end of an upload reads back: its number and how many bytes were sent.
#[verifier::rlimit(80)]
#[verifier::spinoff_prover]
pub proof fn eof_messages_read_back(id: u32, bytes: u64)
    ensures
        ({
            let json = eof_message(id, bytes);
            &&& field_text(json, "t"@) == Some("eof"@)
            &&& field_number(json, "id"@, u32::MAX as nat) == Some(id as nat)
            &&& field_number(json, "bytes"@, u64::MAX as nat) == Some(bytes as nat)
        }),
{
    lemma_keys();
    let json = eof_message(id, bytes);
    let y = number_part("bytes"@, bytes as nat) + seq!['}'] + Seq::<char>::empty();
    reveal_strlit("eof");
    lemma_plain_text("eof"@);
    assert(json =~= message_head("eof"@, id) + seq![','] + y) by {
        reveal_strlit("{\"t\":\"eof\",\"id\":");
        reveal_strlit(",\"bytes\":");
        reveal_strlit("}");
        lemma_literals();
    }
    message_heads_read_back("eof"@, id, ',', y, "bytes"@);
    numbers_read_back("bytes"@, bytes as nat, '}', Seq::empty(), u64::MAX as nat);
}

/// The acknowledgement of a download names the download.
#[verifier::rlimit(80)]
#[verifier::spinoff_prover]
pub proof fn done_ack_messages_read_back(id: u32)
    ensures
        field_text(done_ack_message(id), "t"@) == Some("done-ack"@),
        field_number(done_ack_message(id), "id"@, u32::MAX as nat) == Some(id as nat),
{
    lemma_keys();
    let json = done_ack_message(id);
    reveal_strlit("done-ack");
    lemma_plain_text("done-ack"@);
    assert(json =~= message_head("done-ack"@, id) + seq!['}'] + Seq::<char>::empty()) by {
        reveal_strlit("{\"t\":\"done-ack\",\"id\":");
        reveal_strlit("}");
        lemma_literals();
    }
    message_heads_read_back("done-ack"@, id, '}', Seq::empty(), "name"@);
}

/// A request for a bitrate asks for that bitrate.
#[verifier::rlimit(80)]
#[verifier::spinoff_prover]
pub proof fn bitrate_messages_read_back(kbps: u32)
    ensures
        field_text(bitrate_message(kbps), "t"@) == Some("bitrate_request"@),
        field_number(bitrate_message(kbps), "kbps"@, u32::MAX as nat) == Some(kbps as nat),
{
    lemma_keys();
    let json = bitrate_message(kbps);
    reveal_strlit("bitrate_request");
    lemma_plain_text("bitrate_request"@);
    let y = text_part("t"@, "bitrate_request"@) + seq!['}'];
    let z = number_part("kbps"@, kbps as nat) + seq![','] + y;
    assert(json =~= seq!['{'] + z) by {
        reveal_strlit("{\"kbps\":");
        reveal_strlit(",\"t\":\"bitrate_request\"}");
        reveal_strlit("kbps");
        lemma_literals();
    }
    fields_behind_the_brace(z, "kbps"@);
    fields_behind_the_brace(z, "t"@);
    numbers_read_back("kbps"@, kbps as nat, ',', y, u32::MAX as nat);
    fields_behind_numbers("kbps"@, kbps as nat, y, "t"@);
    texts_read_back("t"@, "bitrate_request"@, seq!['}']);
}

/// The first message on the link carries the key, where that is plain text.
#[verifier::rlimit(80)]
#[verifier::spinoff_prover]
pub proof fn key_messages_read_back(key: Seq<char>)
    requires
        forall|i: int|
            0 <= i < key.len() ==> (#[trigger] key[i]) != '"' && key[i] != '\\' && key[i] as u32
                >= 0x20,
    ensures
        field_text(key_message(key), "k"@) == Some(key),
{
    let json = key_message(key);
    lemma_plain_text(key);
    let y = text_part("k"@, key) + seq!['}'];
    assert(json =~= seq!['{'] + y) by {
        reveal_strlit("{\"k\":\"");
        reveal_strlit("\"}");
        reveal_strlit("k");
        lemma_literals();
    }
    fields_behind_the_brace(y, "k"@);
    texts_read_back("k"@, key, seq!['}']);
}

#[verifier::rlimit(60)]
#[verifier::spinoff_prover]
proof fn lemma_video_shape(monitor: u32, x: i32, y: i32, width: u32, height: u32)
    requires
        x >= 0,
        y >= 0,
        escaped("video_start"@) == "video_start"@,
    ensures
        ({
            let w5 = number_part("width"@, width as nat) + seq!['}'] + Seq::<char>::empty();
            let w4 = text_part("t"@, "video_start"@) + seq![','] + w5;
            let w3 = number_part("offset_y"@, y as nat) + seq![','] + w4;
            let w2 = number_part("offset_x"@, x as nat) + seq![','] + w3;
            let w1 = number_part("monitor_index"@, monitor as nat) + seq![','] + w2;
            let w0 = number_part("height"@, height as nat) + seq![','] + w1;
            video_start_message(monitor, x, y, width, height) == seq!['{'] + w0
        }),
{
    let c = seq![','];
    lemma_literals();
    let mh = field_mark("height"@);
    let mm = field_mark("monitor_index"@);
    let mx = field_mark("offset_x"@);
    let my = field_mark("offset_y"@);
    let mw = field_mark("width"@);
    let t = text_part("t"@, "video_start"@);
    assert("{\"height\":"@ =~= seq!['{'] + mh) by {
        reveal_strlit("{\"height\":");
        reveal_strlit("height");
    }
    assert(",\"monitor_index\":"@ =~= c + mm) by {
        reveal_strlit(",\"monitor_index\":");
        reveal_strlit("monitor_index");
    }
    assert(",\"offset_x\":"@ =~= c + mx) by {
        reveal_strlit(",\"offset_x\":");
        reveal_strlit("offset_x");
    }
    assert(",\"offset_y\":"@ =~= c + my) by {
        reveal_strlit(",\"offset_y\":");
        reveal_strlit("offset_y");
    }
    assert(",\"t\":\"video_start\",\"width\":"@ =~= c + t + c + mw) by {
        reveal_strlit(",\"t\":\"video_start\",\"width\":");
        reveal_strlit("video_start");
        reveal_strlit("width");
    }
    assert("}"@ =~= seq!['}']) by {
        reveal_strlit("}");
    }
    let (dh, dm, dx) = (decimal(height as nat), decimal(monitor as nat), decimal(x as nat));
    let (dy, dw) = (decimal(y as nat), decimal(width as nat));
    let a1 = seq!['{'] + mh + dh;
    let a2 = a1 + (c + mm) + dm;
    let a3 = a2 + (c + mx) + dx;
    let a4 = a3 + (c + my) + dy;
    let json = a4 + (c + t + c + mw) + dw + seq!['}'];
    assert(video_start_message(monitor, x, y, width, height) == json);
    let w5 = mw + dw + seq!['}'] + Seq::<char>::empty();
    let w4 = t + c + w5;
    assert((c + t + c + mw) + dw + seq!['}'] =~= c + w4);
    assert(json =~= a4 + (c + w4));
    let w3 = my + dy + c + w4;
    assert((c + my) + dy + (c + w4) =~= c + w3);
    assert(json =~= a3 + (c + w3));
    let w2 = mx + dx + c + w3;
    assert((c + mx) + dx + (c + w3) =~= c + w2);
    assert(json =~= a2 + (c + w2));
    let w1 = mm + dm + c + w2;
    assert((c + mm) + dm + (c + w2) =~= c + w1);
    assert(json =~= a1 + (c + w1));
    let w0 = mh + dh + c + w1;
    assert(a1 + (c + w1) =~= seq!['{'] + w0);
}

/// What a request for video carries as numbers reads back: the monitor and the
/// size, and offsets that are not negative.
#[verifier::rlimit(80)]
#[verifier::spinoff_prover]
pub proof fn video_requests_read_back(monitor: u32, x: i32, y: i32, width: u32, height: u32)
    requires
        x >= 0,
        y >= 0,
    ensures
        ({
            let json = video_start_message(monitor, x, y, width, height);
            &&& field_text(json, "t"@) == Some("video_start"@)
            &&& field_number(json, "monitor_index"@, u32::MAX as nat) == Some(monitor as nat)
            &&& field_number(json, "offset_x"@, u32::MAX as nat) == Some(x as nat)
            &&& field_number(json, "offset_y"@, u32::MAX as nat) == Some(y as nat)
            &&& field_number(json, "width"@, u32::MAX as nat) == Some(width as nat)
            &&& field_number(json, "height"@, u32::MAX as nat) == Some(height as nat)
        }),
{
    lemma_keys();
    reveal_strlit("height");
    reveal_strlit("monitor_index");
    reveal_strlit("offset_x");
    reveal_strlit("offset_y");
    reveal_strlit("width");
    reveal_strlit("video_start");
    lemma_plain_text("video_start"@);
    let max = u32::MAX as nat;
    let json = video_start_message(monitor, x, y, width, height);
    let e = Seq::<char>::empty();
    let w5 = number_part("width"@, width as nat) + seq!['}'] + e;
    let w4 = text_part("t"@, "video_start"@) + seq![','] + w5;
    let w3 = number_part("offset_y"@, y as nat) + seq![','] + w4;
    let w2 = number_part("offset_x"@, x as nat) + seq![','] + w3;
    let w1 = number_part("monitor_index"@, monitor as nat) + seq![','] + w2;
    let w0 = number_part("height"@, height as nat) + seq![','] + w1;
    lemma_video_shape(monitor, x, y, width, height);
    assert("offset_x"@[7] != "offset_y"@[7]);
    fields_behind_the_brace(w0, "height"@);
    fields_behind_the_brace(w0, "monitor_index"@);
    fields_behind_the_brace(w0, "offset_x"@);
    fields_behind_the_brace(w0, "offset_y"@);
    fields_behind_the_brace(w0, "t"@);
    fields_behind_the_brace(w0, "width"@);
    numbers_read_back("height"@, height as nat, ',', w1, max);
    fields_behind_numbers("height"@, height as nat, w1, "monitor_index"@);
    fields_behind_numbers("height"@, height as nat, w1, "offset_x"@);
    fields_behind_numbers("height"@, height as nat, w1, "offset_y"@);
    fields_behind_numbers("height"@, height as nat, w1, "t"@);
    fields_behind_numbers("height"@, height as nat, w1, "width"@);
    numbers_read_back("monitor_index"@, monitor as nat, ',', w2, max);
    fields_behind_numbers("monitor_index"@, monitor as nat, w2, "offset_x"@);
    fields_behind_numbers("monitor_index"@, monitor as nat, w2, "offset_y"@);
    fields_behind_numbers("monitor_index"@, monitor as nat, w2, "t"@);
    fields_behind_numbers("monitor_index"@, monitor as nat, w2, "width"@);
    numbers_read_back("offset_x"@, x as nat, ',', w3, max);
    fields_behind_numbers("offset_x"@, x as nat, w3, "offset_y"@);
    fields_behind_numbers("offset_x"@, x as nat, w3, "t"@);
    fields_behind_numbers("offset_x"@, x as nat, w3, "width"@);
    numbers_read_back("offset_y"@, y as nat, ',', w4, max);
    fields_behind_numbers("offset_y"@, y as nat, w4, "t"@);
    fields_behind_numbers("offset_y"@, y as nat, w4, "width"@);
    assert(w4 =~= text_part("t"@, "video_start"@) + (seq![','] + w5));
    texts_read_back("t"@, "video_start"@, seq![','] + w5);
    fields_behind_texts("t"@, "video_start"@, ',', w5, "width"@);
    numbers_read_back("width"@, width as nat, '}', e, max);
}

// ---------------------------------------------------------------- messages of the host

/// The host can take an upload, of which it has the first bytes.
pub open spec fn ready_message(id: u32, resume: u64, size: u64) -> Seq<char> {
    message_head("ready"@, id) + seq![','] + (number_part("resume"@, resume as nat) + seq![',']
        + number_part("size"@, size as nat) + seq!['}'])
}

/// The host has the file of a download, of that size and digest.
pub open spec fn meta_message(id: u32, size: u64, digest: Seq<char>) -> Seq<char> {
    message_head("meta"@, id) + seq![','] + (number_part("size"@, size as nat) + seq![',']
        + text_part("sha256"@, digest) + seq!['}'])
}

/// The host has given a transfer up.
pub open spec fn error_message(id: u32, code: Seq<char>, msg: Seq<char>) -> Seq<char> {
    message_head("error"@, id) + seq![','] + (text_part("code"@, code) + seq![','] + text_part(
        "msg"@,
        msg,
    ) + seq!['}'])
}

/// The host has all of an upload, and says whether it is as it was announced.
pub open spec fn done_message(id: u32, ok: Seq<char>) -> Seq<char> {
    message_head("done"@, id) + seq![','] + (text_part("ok"@, ok) + seq!['}'])
}

/// The host's messages read back.
#[verifier::rlimit(80)]
#[verifier::spinoff_prover]
pub proof fn host_messages_read_back(
    id: u32,
    resume: u64,
    size: u64,
    digest: Seq<char>,
    code: Seq<char>,
    msg: Seq<char>,
    ok: Seq<char>,
)
    ensures
        ({
            let json = ready_message(id, resume, size);
            &&& field_text(json, "t"@) == Some("ready"@)
            &&& field_number(json, "id"@, u32::MAX as nat) == Some(id as nat)
            &&& field_number(json, "resume"@, u64::MAX as nat) == Some(resume as nat)
            &&& field_number(json, "size"@, u64::MAX as nat) == Some(size as nat)
        }),
        ({
            let json = meta_message(id, size, digest);
            &&& field_text(json, "t"@) == Some("meta"@)
            &&& field_number(json, "id"@, u32::MAX as nat) == Some(id as nat)
            &&& field_number(json, "size"@, u64::MAX as nat) == Some(size as nat)
            &&& field_text(json, "sha256"@) == Some(digest)
        }),
        ({
            let json = error_message(id, code, msg);
            &&& field_text(json, "t"@) == Some("error"@)
            &&& field_number(json, "id"@, u32::MAX as nat) == Some(id as nat)
            &&& field_text(json, "code"@) == Some(code)
            &&& field_text(json, "msg"@) == Some(msg)
        }),
        ({
            let json = done_message(id, ok);
            &&& field_text(json, "t"@) == Some("done"@)
            &&& field_number(json, "id"@, u32::MAX as nat) == Some(id as nat)
            &&& field_text(json, "ok"@) == Some(ok)
        }),
{
    lemma_keys();
    let e = Seq::<char>::empty();
    let max = u64::MAX as nat;
    let s1 = number_part("size"@, size as nat) + seq!['}'] + e;
    let r1 = number_part("resume"@, resume as nat) + seq![','] + s1;
    assert(ready_message(id, resume, size) =~= message_head("ready"@, id) + seq![','] + r1);
    message_heads_read_back("ready"@, id, ',', r1, "resume"@);
    message_heads_read_back("ready"@, id, ',', r1, "size"@);
    numbers_read_back("resume"@, resume as nat, ',', s1, max);
    fields_behind_numbers("resume"@, resume as nat, s1, "size"@);
    numbers_read_back("size"@, size as nat, '}', e, max);
    let d2 = text_part("sha256"@, digest) + seq!['}'];
    let s2 = number_part("size"@, size as nat) + seq![','] + d2;
    assert(meta_message(id, size, digest) =~= message_head("meta"@, id) + seq![','] + s2);
    message_heads_read_back("meta"@, id, ',', s2, "size"@);
    message_heads_read_back("meta"@, id, ',', s2, "sha256"@);
    numbers_read_back("size"@, size as nat, ',', d2, max);
    fields_behind_numbers("size"@, size as nat, d2, "sha256"@);
    texts_read_back("sha256"@, digest, seq!['}']);
    let m3 = text_part("msg"@, msg) + seq!['}'];
    let c3 = text_part("code"@, code) + seq![','] + m3;
    assert(error_message(id, code, msg) =~= message_head("error"@, id) + seq![','] + c3);
    message_heads_read_back("error"@, id, ',', c3, "code"@);
    message_heads_read_back("error"@, id, ',', c3, "msg"@);
    assert(c3 =~= text_part("code"@, code) + (seq![','] + m3));
    texts_read_back("code"@, code, seq![','] + m3);
    fields_behind_texts("code"@, code, ',', m3, "msg"@);
    texts_read_back("msg"@, msg, seq!['}']);
    let o4 = text_part("ok"@, ok) + seq!['}'];
    message_heads_read_back("done"@, id, ',', o4, "ok"@);
    texts_read_back("ok"@, ok, seq!['}']);
}

// ---------------------------------------------------------------- the texts themselves

/// In a message a quotation mark, a backslash and the characters below the blank
/// are written by a backslash and what stands for them; every other character
/// as it is.
pub proof fn texts_are_escaped(s: &str, r: String, c: char)
    requires
        call_ensures(json_escape, (s,), r),
        s@ == seq![c],
    ensures
        c == '"' ==> r@ == seq!['\\', '"'],
        c == '\\' ==> r@ == seq!['\\', '\\'],
        c == '\n' ==> r@ == seq!['\\', 'n'],
        c == '\r' ==> r@ == seq!['\\', 'r'],
        c == '\t' ==> r@ == seq!['\\', 't'],
        c as u32 >= 0x20 && c != '"' && c != '\\' ==> r@ == seq![c],
        (c as u32) < 0x20 && c != '\n' && c != '\r' && c != '\t' ==> r@.len() == 6 && r@.take(4)
            == seq!['\\', 'u', '0', '0'],
{
    reveal_with_fuel(escaped, 2);
    assert(s@.drop_first() =~= Seq::empty());
    assert(escaped(Seq::empty()) =~= Seq::empty());
    assert(r@ =~= escape(c));
    reveal_strlit("\\\"");
    reveal_strlit("\\\\");
    reveal_strlit("\\n");
    reveal_strlit("\\r");
    reveal_strlit("\\t");
    reveal_strlit("\\u00");
    assert("\\\""@ =~= seq!['\\', '"']);
    assert("\\\\"@ =~= seq!['\\', '\\']);
    assert("\\n"@ =~= seq!['\\', 'n']);
    assert("\\r"@ =~= seq!['\\', 'r']);
    assert("\\t"@ =~= seq!['\\', 't']);
    assert("\\u00"@ =~= seq!['\\', 'u', '0', '0']);
    if (c as u32) < 0x20 && c != '\n' && c != '\r' && c != '\t' {
        assert(r@.take(4) =~= "\\u00"@);
    }
}

/// Escaping goes character by character.
pub proof fn texts_are_escaped_in_order(a: &str, b: &str, s: &str, x: String, y: String, z: String)
    requires
        call_ensures(json_escape, (a,), x),
        call_ensures(json_escape, (b,), y),
        call_ensures(json_escape, (s,), z),
        s@ == a@ + b@,
    ensures
        z@ == x@ + y@,
{
    lemma_escaped_concat(a@, b@);
}

proof fn lemma_escaped_concat(a: Seq<char>, b: Seq<char>)
    ensures
        escaped(a + b) == escaped(a) + escaped(b),
    decreases a.len(),
{
    if a.len() == 0 {
        assert(a + b =~= b);
        assert(escaped(a) + escaped(b) =~= escaped(b));
    } else {
        lemma_escaped_concat(a.drop_first(), b);
        assert((a + b).drop_first() =~= a.drop_first() + b);
        assert(escape(a[0]) + (escaped(a.drop_first()) + escaped(b)) =~= (escape(a[0]) + escaped(
            a.drop_first(),
        )) + escaped(b));
    }
}

/// A field is read by its name, as a text or as a number up to a limit.
pub proof fn fields_are_read_by_name(
    json: &str,
    key: &str,
    max: u128,
    s: Option<String>,
    n: Option<u128>,
    v: Seq<char>,
    m: nat,
    rest: Seq<char>,
    mark: Seq<char>,
)
    requires
        mark == seq!['"'] + key@ + seq!['"', ':'],
        call_ensures(jstr, (json, key), s),
        call_ensures(jnum, (json, key, max), n),
    ensures
        json@ == text_part(key@, v) + rest ==> (s matches Some(t) && t@ == v),
        json@ == number_part(key@, m) + seq!['}'] + rest && m <= max ==> (n matches Some(k) && k
            == m),
        (forall|i: int| !#[trigger] stands_at(json@, mark, i)) ==> s is None
            && n is None,
{
    texts_read_back(key@, v, rest);
    if m <= max {
        numbers_read_back(key@, m, '}', rest, max as nat);
    }
    reveal_strlit("\"");
    reveal_strlit("\":");
    assert(field_mark(key@) =~= mark);
    lemma_first_at(json@, field_mark(key@), 0);
}

/// The messages that the client sends are those that read back.
pub proof fn sent_messages_read_back(
    key: &str,
    id: u32,
    kbps: u32,
    bytes: u64,
    name: &str,
    have: u64,
    k: String,
    d: String,
    b: String,
    e: String,
    p: String,
)
    requires
        call_ensures(key_text, (key,), k),
        call_ensures(done_ack_text, (id,), d),
        call_ensures(bitrate_text, (kbps,), b),
        call_ensures(eof_text, (id, bytes), e),
        call_ensures(pull_text, (id, name, have), p),
        forall|i: int|
            0 <= i < key@.len() ==> (#[trigger] key@[i]) != '"' && key@[i] != '\\' && key@[i] as u32
                >= 0x20,
    ensures
        field_text(k@, "k"@) == Some(key@),
        field_text(d@, "t"@) == Some("done-ack"@),
        field_number(d@, "id"@, u32::MAX as nat) == Some(id as nat),
        field_text(b@, "t"@) == Some("bitrate_request"@),
        field_number(b@, "kbps"@, u32::MAX as nat) == Some(kbps as nat),
        field_text(e@, "t"@) == Some("eof"@),
        field_number(e@, "bytes"@, u64::MAX as nat) == Some(bytes as nat),
        field_text(p@, "t"@) == Some("pull"@),
        field_text(p@, "name"@) == Some(name@),
{
    key_messages_read_back(key@);
    done_ack_messages_read_back(id);
    bitrate_messages_read_back(kbps);
    eof_messages_read_back(id, bytes);
    pull_messages_read_back(id, name@, have);
}

/// A request for video names the part of the monitor, places left of or above
/// the first monitor with their signs.
pub proof fn video_is_asked_for(m: u32, x: i32, y: i32, w: u32, h: u32, s: String)
    requires
        call_ensures(video_start_text, (m, x, y, w, h), s),
    ensures
        s@ == "{\"height\":"@ + decimal(h as nat) + ",\"monitor_index\":"@ + decimal(m as nat)
            + ",\"offset_x\":"@ + signed_decimal(x as int) + ",\"offset_y\":"@ + signed_decimal(
            y as int,
        ) + ",\"t\":\"video_start\",\"width\":"@ + decimal(w as nat) + "}"@,
        x >= 0 && y >= 0 ==> field_number(s@, "width"@, u32::MAX as nat) == Some(w as nat)
            && field_number(s@, "height"@, u32::MAX as nat) == Some(h as nat),
{
    if x >= 0 && y >= 0 {
        video_requests_read_back(m, x, y, w, h);
    }
}

/// A word that stands without quotation marks reads back too.
pub proof fn bare_words_read_back(key: Seq<char>, w: Seq<char>, c: char, rest: Seq<char>)
    requires
        w.len() > 0,
        forall|i: int|
            0 <= i < w.len() ==> (#[trigger] w[i]) != ',' && w[i] != '}' && w[i] != '"' && !white(
                w[i],
            ),
        c == ',' || c == '}',
    ensures
        field_text(field_mark(key) + w + seq![c] + rest, key) == Some(w),
{
    let m = field_mark(key);
    let body = w + seq![c] + rest;
    let json = m + w + seq![c] + rest;
    assert(json =~= m + body);
    assert(json.subrange(0, m.len() as int) =~= m);
    assert(stands_at(json, m, 0));
    assert(first_at(json, m, 0) == Some(0int));
    assert(json.skip(0int + m.len()) =~= body);
    assert(body[0] == w[0]);
    lemma_span_is(body, |x: char| white(x), 0);
    assert(trimmed_start(body) =~= body);
    lemma_span_is(body, |x: char| x != ',' && x != '}', w.len() as int);
    assert(body.take(w.len() as int) =~= w);
    lemma_trimmed_same(w);
    lemma_span_is(w, |x: char| x == '"', 0);
    assert(w.skip(0) =~= w);
    lemma_span_back_is(w, |x: char| x == '"', 0);
    assert(w.take(w.len() as int) =~= w);
}

/// Blanks between the colon and what follows it do not matter.
pub proof fn blanks_behind_colons_do_not_matter(
    key: Seq<char>,
    blanks: Seq<char>,
    body: Seq<char>,
    max: nat,
)
    requires
        forall|i: int| 0 <= i < blanks.len() ==> white(#[trigger] blanks[i]),
        body.len() > 0,
        !white(body[0]),
    ensures
        field_text(field_mark(key) + blanks + body, key) == field_text(field_mark(key) + body, key),
        field_number(field_mark(key) + blanks + body, key, max) == field_number(
            field_mark(key) + body,
            key,
            max,
        ),
{
    let m = field_mark(key);
    let a = m + blanks + body;
    let b = m + body;
    assert(a.subrange(0, m.len() as int) =~= m);
    assert(b.subrange(0, m.len() as int) =~= m);
    assert(stands_at(a, m, 0) && stands_at(b, m, 0));
    assert(first_at(a, m, 0) == Some(0int));
    assert(first_at(b, m, 0) == Some(0int));
    let c = blanks + body;
    assert(a.skip(0int + m.len()) =~= c);
    assert(b.skip(0int + m.len()) =~= body);
    assert forall|i: int| 0 <= i < blanks.len() implies white(#[trigger] c[i]) by {
        assert(c[i] == blanks[i]);
    }
    lemma_span_is(c, |x: char| white(x), blanks.len() as int);
    lemma_span_is(body, |x: char| white(x), 0);
    assert(trimmed_start(c) =~= body);
    assert(trimmed_start(body) =~= body);
}

} // verus!
