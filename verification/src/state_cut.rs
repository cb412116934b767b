//! A state text that was cut off: what is read of the start of a text is read of
//! the whole text too, so that a text without its closing brace gives no state.

use crate::accounts::{StateView, UserList, UserView, names_rise, with_user};
use crate::state_file::{
    account_field, account_fields, addresses, after_blanks, after_mark, after_value, boolean,
    is_blank, lemma_account_field_shorter, lemma_named_account_shorter, lemma_shorter,
    lemma_state_field_shorter, literal, named_account, named_accounts, role_after_colon,
    state_and_rest, state_field, state_fields, state_is_plain, state_of, state_reads_back,
    state_text,
};
use crate::text::{begins, lemma_span, lemma_span_is, other_than, span};
use vstd::prelude::*;
use vstd::string::*;

verus! {

proof fn lemma_more_blanks(p: Seq<char>, e: Seq<char>)
    requires
        after_blanks(p).len() > 0,
    ensures
        after_blanks(p + e) == after_blanks(p) + e,
{
    let w = |c: char| is_blank(c);
    let s = p + e;
    lemma_span(p, w);
    let n = span(p, w) as int;
    assert(s[n] == p[n]);
    assert forall|i: int| 0 <= i < n implies w(#[trigger] s[i]) by {
        assert(s[i] == p[i]);
    }
    lemma_span_is(s, w, n);
    assert(s.skip(n) =~= p.skip(n) + e);
}

proof fn lemma_more_mark(p: Seq<char>, e: Seq<char>, c: char)
    ensures
        after_mark(p, c) matches Some(r) ==> after_mark(p + e, c) == Some(r + e),
{
    if after_mark(p, c) is Some {
        let t = after_blanks(p);
        lemma_more_blanks(p, e);
        assert((t + e)[0] == t[0]);
        assert((t + e).skip(1) =~= t.skip(1) + e);
    }
}

proof fn lemma_more_literal(p: Seq<char>, e: Seq<char>)
    ensures
        literal(p) matches Some(l) ==> literal(p + e) == Some((l.0, l.1 + e)),
{
    if let Some((v, r)) = literal(p) {
        lemma_more_mark(p, e, '"');
        let q = after_mark(p, '"')->0;
        let keep = other_than('"');
        let s = q + e;
        lemma_span(q, keep);
        let n = span(q, keep) as int;
        assert(s[n] == q[n]);
        assert forall|i: int| 0 <= i < n implies keep(#[trigger] s[i]) by {
            assert(s[i] == q[i]);
        }
        lemma_span_is(s, keep, n);
        assert(s.take(n) =~= q.take(n));
        assert(s.skip(n + 1) =~= q.skip(n + 1) + e);
    }
}

proof fn lemma_more_boolean(p: Seq<char>, e: Seq<char>)
    ensures
        boolean(p) matches Some(b) ==> boolean(p + e) == Some((b.0, b.1 + e)),
{
    if boolean(p) is Some {
        reveal_strlit("true");
        reveal_strlit("false");
        assert("true"@.len() == 4 && "false"@.len() == 5);
        assert("true"@[0] == 't' && "false"@[0] == 'f');
        lemma_more_blanks(p, e);
        let t = after_blanks(p);
        let s = t + e;
        if begins(t, "true"@) {
            assert(s.take(4) =~= t.take(4));
            assert(s.skip(4) =~= t.skip(4) + e);
        } else {
            assert(s.take(5) =~= t.take(5));
            assert(s.skip(5) =~= t.skip(5) + e);
            assert(t.take(5) == "false"@);
            assert(s[0] == t.take(5)[0]);
            if begins(s, "true"@) {
                assert(s.take(4) == "true"@);
                assert(s[0] == s.take(4)[0]);
            }
        }
    }
}

/// A value that is passed over ends at the same place, unless the text ends
/// with it.
proof fn lemma_more_value(p: Seq<char>, e: Seq<char>)
    ensures
        after_value(p) matches Some(r) ==> r.len() > 0 ==> after_value(p + e) == Some(r + e),
{
    if let Some(r) = after_value(p) {
        if r.len() > 0 {
            let t = after_blanks(p);
            lemma_more_blanks(p, e);
            assert((t + e)[0] == t[0]);
            if t[0] == '"' {
                lemma_more_literal(t, e);
            } else {
                let keep = |c: char| c != ',' && c != '}';
                let s = t + e;
                lemma_span(t, keep);
                let n = span(t, keep) as int;
                assert(s[n] == t[n]);
                assert forall|i: int| 0 <= i < n implies keep(#[trigger] s[i]) by {
                    assert(s[i] == t[i]);
                }
                lemma_span_is(s, keep, n);
                assert(s.skip(n) =~= t.skip(n) + e);
            }
        }
    }
}

proof fn lemma_more_role(p: Seq<char>, e: Seq<char>)
    ensures
        role_after_colon(p) matches Some(v) ==> v.1.len() > 0 ==> role_after_colon(p + e) == Some(
            (v.0, v.1 + e),
        ),
{
    if let Some((v, rest)) = role_after_colon(p) {
        if rest.len() > 0 {
            lemma_more_mark(p, e, ':');
            let r = after_mark(p, ':')->0;
            lemma_more_literal(r, e);
            if literal(r) is None {
                lemma_more_blanks(r, e);
                let t = after_blanks(r);
                assert((t + e)[0] == t[0]);
            }
        }
    }
}

proof fn lemma_more_account_field(p: Seq<char>, e: Seq<char>, u: UserView)
    ensures
        account_field(p, u) matches Some(f) ==> f.1.len() > 0 ==> account_field(p + e, u) == Some(
            (f.0, f.1 + e),
        ),
{
    lemma_more_literal(p, e);
    if let Some((k, r)) = literal(p) {
        lemma_more_mark(r, e, ':');
        lemma_more_role(r, e);
        if let Some(r2) = after_mark(r, ':') {
            lemma_more_literal(r2, e);
            lemma_more_boolean(r2, e);
            lemma_more_value(r2, e);
        }
    }
}

proof fn lemma_more_account_fields(p: Seq<char>, e: Seq<char>, u: UserView)
    ensures
        account_fields(p, u) matches Some(f) ==> account_fields(p + e, u) == Some((f.0, f.1 + e)),
    decreases p.len(),
{
    let t = after_blanks(p);
    lemma_shorter(p);
    lemma_account_field_shorter(t, u);
    if account_fields(p, u) is Some {
        lemma_more_blanks(p, e);
        assert((t + e)[0] == t[0]);
        assert((t + e).skip(1) =~= t.skip(1) + e);
        if t[0] == ',' {
            lemma_more_account_fields(t.skip(1), e, u);
        } else if t[0] == '"' {
            let (u2, r) = account_field(t, u)->0;
            lemma_shorter(r);
            lemma_more_account_field(t, e, u);
            lemma_more_account_fields(r, e, u2);
        }
    }
}

proof fn lemma_more_named_account(p: Seq<char>, e: Seq<char>)
    ensures
        named_account(p) matches Some(a) ==> named_account(p + e) == Some((a.0, a.1, a.2 + e)),
{
    lemma_more_literal(p, e);
    if let Some((name, r)) = literal(p) {
        lemma_more_mark(r, e, ':');
        if let Some(r2) = after_mark(r, ':') {
            lemma_more_mark(r2, e, '{');
            if let Some(r3) = after_mark(r2, '{') {
                lemma_more_account_fields(r3, e, UserView::blank());
            }
        }
    }
}

proof fn lemma_more_named_accounts(p: Seq<char>, e: Seq<char>, users: UserList)
    ensures
        named_accounts(p, users) matches Some(f) ==> named_accounts(p + e, users) == Some(
            (f.0, f.1 + e),
        ),
    decreases p.len(),
{
    let t = after_blanks(p);
    lemma_shorter(p);
    lemma_named_account_shorter(t);
    if named_accounts(p, users) is Some {
        lemma_more_blanks(p, e);
        assert((t + e)[0] == t[0]);
        assert((t + e).skip(1) =~= t.skip(1) + e);
        if t[0] == ',' {
            lemma_more_named_accounts(t.skip(1), e, users);
        } else if t[0] == '"' {
            let (name, u, r) = named_account(t)->0;
            lemma_more_named_account(t, e);
            lemma_more_named_accounts(r, e, with_user(users, name, u));
        }
    }
}

proof fn lemma_more_addresses(p: Seq<char>, e: Seq<char>, ips: Seq<Seq<char>>)
    ensures
        addresses(p, ips) matches Some(f) ==> addresses(p + e, ips) == Some((f.0, f.1 + e)),
    decreases p.len(),
{
    let t = after_blanks(p);
    lemma_shorter(p);
    lemma_shorter(t);
    if addresses(p, ips) is Some {
        lemma_more_blanks(p, e);
        assert((t + e)[0] == t[0]);
        assert((t + e).skip(1) =~= t.skip(1) + e);
        if t[0] == ',' {
            lemma_more_addresses(t.skip(1), e, ips);
        } else if t[0] == '"' {
            let (ip, r) = literal(t)->0;
            lemma_more_literal(t, e);
            lemma_more_addresses(r, e, ips.push(ip));
        }
    }
}

proof fn lemma_more_state_field(p: Seq<char>, e: Seq<char>, st: StateView)
    ensures
        state_field(p, st) matches Some(f) ==> f.1.len() > 0 ==> state_field(p + e, st) == Some(
            (f.0, f.1 + e),
        ),
{
    lemma_more_literal(p, e);
    if let Some((k, r)) = literal(p) {
        lemma_more_mark(r, e, ':');
        lemma_more_value(r, e);
        if let Some(r2) = after_mark(r, ':') {
            lemma_more_boolean(r2, e);
            lemma_more_mark(r2, e, '[');
            lemma_more_mark(r2, e, '{');
            if let Some(r3) = after_mark(r2, '[') {
                lemma_more_addresses(r3, e, st.ip_whitelist);
            }
            if let Some(r3) = after_mark(r2, '{') {
                lemma_more_named_accounts(r3, e, st.users);
            }
        }
    }
}

proof fn lemma_more_state_fields(p: Seq<char>, e: Seq<char>, st: StateView)
    ensures
        state_fields(p, st) matches Some(f) ==> state_fields(p + e, st) == Some((f.0, f.1 + e)),
    decreases p.len(),
{
    let t = after_blanks(p);
    lemma_shorter(p);
    lemma_state_field_shorter(t, st);
    if state_fields(p, st) is Some {
        lemma_more_blanks(p, e);
        assert((t + e)[0] == t[0]);
        assert((t + e).skip(1) =~= t.skip(1) + e);
        if t[0] == ',' {
            lemma_more_state_fields(t.skip(1), e, st);
        } else if t[0] == '"' {
            let (st2, r) = state_field(t, st)->0;
            lemma_shorter(r);
            lemma_more_state_field(t, e, st);
            lemma_more_state_fields(r, e, st2);
        }
    }
}

/// A state that is read at the start of a text is read of any longer text too,
/// with what was added behind it.
pub proof fn more_text_changes_nothing(p: Seq<char>, e: Seq<char>)
    ensures
        state_and_rest(p) matches Some(f) ==> state_and_rest(p + e) == Some((f.0, f.1 + e)),
{
    lemma_more_mark(p, e, '{');
    if let Some(r) = after_mark(p, '{') {
        lemma_more_state_fields(r, e, StateView::blank());
    }
}

/// The text of a state that was cut off before its last brace gives no state at
/// all. Texts are written as they are, so none may hold a quote.
pub proof fn cut_state_is_refused(st: StateView, k: int)
    requires
        names_rise(st.users),
        state_is_plain(st),
        0 <= k < state_text(st).len() - 1,
    ensures
        state_of(state_text(st).take(k)) is None,
{
    let s = state_text(st);
    let p = s.take(k);
    let e = s.skip(k);
    assert(p + e =~= s);
    state_reads_back(st);
    more_text_changes_nothing(p, e);
    reveal_strlit("\n");
    if let Some((got, rest)) = state_and_rest(p) {
        assert((rest + e).len() >= 2);
        assert("\n"@.len() == 1);
    }
}

} // verus!
