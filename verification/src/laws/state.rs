//! The host's state as text: its fields stand in any order, what is left out is
//! blank, and what is not known is passed over.

use crate::accounts::{HostState, StateView};
use crate::state_file::{
    after_blanks, after_mark, all_blank, bool_text, is_blank, lemma_reads_boolean,
    lemma_reads_literal, lemma_reads_mark, literal, no_quote, parse_state, state_fields,
};
use crate::text::lemma_span_is;
use vstd::prelude::*;
use vstd::string::*;

verus! {

/// A field of a text: blanks, the name in quotation marks, a colon, and what
/// follows.
pub open spec fn field_of(w: Seq<char>, key: Seq<char>, rest: Seq<char>) -> Seq<char> {
    w + seq!['"'] + (key + (seq!['"'] + (seq![':'] + rest)))
}

/// A switch is read wherever it stands, whatever blanks are round its value, and
/// the fields behind it after it.
pub proof fn switches_are_read(
    w: Seq<char>,
    gap: Seq<char>,
    value: bool,
    tail: Seq<char>,
    st: StateView,
)
    requires
        all_blank(w),
        all_blank(gap),
    ensures
        ({
            let word = if value { "true"@ } else { "false"@ };
            &&& state_fields(field_of(w, "enabled"@, gap + (word + tail)), st) == state_fields(
                tail,
                StateView { enabled: value, ..st },
            )
            &&& state_fields(field_of(w, "allow_all_ips"@, gap + (word + tail)), st)
                == state_fields(tail, StateView { allow_all_ips: value, ..st })
        }),
{
    let word = bool_text(value);
    let rest = gap + (word + tail);
    lemma_names();
    lemma_reads_boolean(rest, gap, value, tail);
    lemma_key(w, "enabled"@, rest);
    lemma_key(w, "allow_all_ips"@, rest);
}

proof fn lemma_key(w: Seq<char>, key: Seq<char>, rest: Seq<char>)
    requires
        all_blank(w),
        no_quote(key),
    ensures
        ({
            let s = field_of(w, key, rest);
            let t = after_blanks(s);
            &&& t.len() > 0
            &&& t[0] == '"'
            &&& literal(t) == Some((key, seq![':'] + rest))
            &&& after_mark(seq![':'] + rest, ':') == Some(rest)
        }),
{
    let s = field_of(w, key, rest);
    lemma_reads_literal(s, w, key, seq![':'] + rest);
    let e = Seq::<char>::empty();
    assert(e + seq![':'] + rest =~= seq![':'] + rest);
    lemma_reads_mark(seq![':'] + rest, e, ':', rest);
}

proof fn lemma_names()
    ensures
        no_quote("enabled"@),
        no_quote("allow_all_ips"@),
        "enabled"@ != "allow_all_ips"@,
{
    reveal_strlit("enabled");
    reveal_strlit("allow_all_ips");
    assert("enabled"@.len() == 7 && "allow_all_ips"@.len() == 13);
}

/// A field that is not known is passed over, up to the comma or the brace behind
/// it.
pub proof fn unknown_fields_are_passed_over(
    w: Seq<char>,
    key: Seq<char>,
    value: Seq<char>,
    c: char,
    tail: Seq<char>,
    st: StateView,
)
    requires
        all_blank(w),
        no_quote(key),
        key != "enabled"@ && key != "allow_all_ips"@ && key != "ip_whitelist"@ && key != "users"@,
        forall|i: int| 0 <= i < value.len() ==> (#[trigger] value[i]) != ',' && value[i] != '}',
        c == ',' || c == '}',
    ensures
        state_fields(field_of(w, key, value + seq![c] + tail), st) == state_fields(
            seq![c] + tail,
            st,
        ),
{
    let rest = value + seq![c] + tail;
    lemma_key(w, key, rest);
    let r = seq![':'] + rest;
    lemma_span_is(r, |x: char| is_blank(x), 0);
    assert(after_blanks(r) =~= r);
    let keep = |x: char| x != ',' && x != '}';
    assert forall|i: int| 0 <= i < value.len() + 1 implies keep(#[trigger] r[i]) by {
        if i > 0 {
            assert(r[i] == value[i - 1]);
        }
    }
    assert(r[value.len() + 1int] == c);
    lemma_span_is(r, keep, value.len() + 1int);
    assert(r.skip(value.len() + 1int) =~= seq![c] + tail);
}

/// Commas between fields do not matter, the brace ends them, and blanks stand
/// anywhere between.
pub proof fn fields_end_with_the_brace(w: Seq<char>, tail: Seq<char>, st: StateView)
    requires
        all_blank(w),
    ensures
        state_fields(w + seq!['}'] + tail, st) == Some((st, tail)),
        state_fields(w + seq![','] + tail, st) == state_fields(tail, st),
        state_fields(w, st) is None,
{
    lemma_reads_mark(w + seq!['}'] + tail, w, '}', tail);
    lemma_reads_mark(w + seq![','] + tail, w, ',', tail);
    assert((seq!['}'] + tail).skip(1) =~= tail);
    assert((seq![','] + tail).skip(1) =~= tail);
    lemma_span_is(w, |x: char| is_blank(x), w.len() as int);
    assert(after_blanks(w).len() == 0);
}

/// A text that begins with a brace is the state of its fields, what it leaves
/// out being blank; any other text is none.
pub proof fn states_begin_with_a_brace(
    body: &str,
    r: Option<HostState>,
    w: Seq<char>,
    c: char,
    rest: Seq<char>,
)
    requires
        call_ensures(parse_state, (body,), r),
        all_blank(w),
        !is_blank(c),
        body@ == w + seq![c] + rest,
    ensures
        c != '{' ==> r is None,
        c == '{' ==> (r is Some <==> state_fields(rest, StateView::blank()) is Some),
        c == '{' ==> (r matches Some(x) ==> (state_fields(rest, StateView::blank())->0).0 == x@),
        c == '{' && rest == seq!['}'] ==> (r matches Some(x) && !x@.enabled && !x@.allow_all_ips
            && x@.users.len() == 0 && x@.ip_whitelist.len() == 0),
{
    lemma_reads_mark(body@, w, c, rest);
    let e = Seq::<char>::empty();
    fields_end_with_the_brace(e, e, StateView::blank());
    assert(e + seq!['}'] + e =~= seq!['}']);
}

} // verus!
