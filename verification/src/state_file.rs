//! The host's state as text: a small fixed JSON schema, written and read back.

use crate::accounts::{
    HostState, ROLE_USER, StateView, UserList, UserRecord, UserView, Users, lemma_rank_is,
    names_rise, with_user,
};
use crate::text::{
    begins, chars_of, cut_first, lemma_span, lemma_span_is, lex_less, other_than, same, span,
    stands, text_of, texts,
};
use vstd::prelude::*;
use vstd::string::*;

verus! {

// ---------------------------------------------------------------- writing

/// `true` or `false`.
pub open spec fn bool_text(b: bool) -> Seq<char> {
    if b { "true"@ } else { "false"@ }
}

/// A text between quotes.
pub open spec fn quoted(s: Seq<char>) -> Seq<char> {
    "\""@ + s + "\""@
}

/// Addresses between quotes, separated by commas.
pub open spec fn addresses_text(ips: Seq<Seq<char>>) -> Seq<char>
    decreases ips.len(),
{
    if ips.len() == 0 {
        Seq::empty()
    } else if ips.len() == 1 {
        quoted(ips[0])
    } else {
        addresses_text(ips.drop_last()) + ", "@ + quoted(ips.last())
    }
}

/// The role that is written for an account: `user` where it has none.
pub open spec fn written_role(role: Seq<char>) -> Seq<char> {
    if role.len() == 0 { "user"@ } else { role }
}

/// One account.
pub open spec fn account_text(name: Seq<char>, u: UserView) -> Seq<char> {
    "    \""@ + name + "\": { \"pw_salt\": \""@ + u.pw_salt + "\", \"pw_hash\": \""@ + u.pw_hash
        + "\", \"licensed\": "@ + bool_text(u.licensed) + ", \"token_hash\": \""@ + u.token_hash
        + "\", \"role\": \""@ + written_role(u.role) + "\" }"@
}

/// The accounts, one on each line.
pub open spec fn accounts_text(users: UserList) -> Seq<char>
    decreases users.len(),
{
    if users.len() == 0 {
        Seq::empty()
    } else if users.len() == 1 {
        account_text(users[0].0, users[0].1)
    } else {
        accounts_text(users.drop_last()) + ",\n"@ + account_text(users.last().0, users.last().1)
    }
}

/// The whole state.
pub open spec fn state_text(st: StateView) -> Seq<char> {
    "{\n  \"enabled\": "@ + bool_text(st.enabled) + ",\n  \"allow_all_ips\": "@ + bool_text(
        st.allow_all_ips,
    ) + ",\n  \"ip_whitelist\": ["@ + addresses_text(st.ip_whitelist) + "],\n  \"users\": {\n"@
        + accounts_text(st.users) + (if st.users.len() > 0 { "\n"@ } else { Seq::empty() })
        + "  }\n}\n"@
}

fn bool_word(b: bool) -> (s: &'static str)
    ensures
        s@ == bool_text(b),
{
    if b { "true" } else { "false" }
}

fn render_account(out: &mut String, name: &str, u: &UserRecord)
    ensures
        final(out)@ == old(out)@ + account_text(name@, u@),
{
    let ghost o = out@;
    let mut t = String::from_str("    \"");
    t.append(name);
    t.append("\": { \"pw_salt\": \"");
    t.append(&u.pw_salt);
    t.append("\", \"pw_hash\": \"");
    t.append(&u.pw_hash);
    t.append("\", \"licensed\": ");
    t.append(bool_word(u.licensed));
    t.append(", \"token_hash\": \"");
    t.append(&u.token_hash);
    t.append("\", \"role\": \"");
    if u.role.as_str().is_empty() {
        t.append(ROLE_USER);
    } else {
        t.append(&u.role);
    }
    t.append("\" }");
    out.append(&t);
}

/// The state as text, with the accounts in the order of their names.
pub fn render_state(state: &HostState) -> (out: String)
    ensures
        out@ == state_text(state@),
{
    let mut out = String::from_str("{\n  \"enabled\": ");
    out.append(bool_word(state.enabled));
    out.append(",\n  \"allow_all_ips\": ");
    out.append(bool_word(state.allow_all_ips));
    out.append(",\n  \"ip_whitelist\": [");
    let ghost head = out@;
    let ips = &state.ip_whitelist;
    let mut i: usize = 0;
    assert(head + addresses_text(texts(ips@).take(0)) =~= head);
    while i < ips.len()
        invariant
            i <= ips@.len(),
            out@ == head + addresses_text(texts(ips@).take(i as int)),
        decreases ips@.len() - i,
    {
        if i > 0 {
            out.append(", ");
        }
        out.append("\"");
        out.append(&ips[i]);
        out.append("\"");
        i += 1;
        proof {
            let t = texts(ips@).take(i as int);
            assert(t.drop_last() =~= texts(ips@).take(i - 1));
            assert(t.last() == ips@[i - 1]@);
            assert(out@ =~= head + addresses_text(t));
        }
    }
    assert(texts(ips@).take(i as int) =~= texts(ips@));
    out.append("],\n  \"users\": {\n");
    let ghost head2 = out@;
    let users = &state.users;
    let n: usize = users.len();
    let mut k: usize = 0;
    assert(head2 + accounts_text(users@.take(0)) =~= head2);
    while k < n
        invariant
            n == users@.len(),
            k <= n,
            out@ == head2 + accounts_text(users@.take(k as int)),
        decreases n - k,
    {
        if k > 0 {
            out.append(",\n");
        }
        let (name, u) = users.entry(k);
        render_account(&mut out, name, u);
        k += 1;
        proof {
            let t = users@.take(k as int);
            assert(t.drop_last() =~= users@.take(k - 1));
            assert(t.last() == users@[k - 1]);
            assert(out@ =~= head2 + accounts_text(t));
        }
    }
    assert(users@.take(k as int) =~= users@);
    if n > 0 {
        out.append("\n");
    }
    assert(out@ =~= head2 + accounts_text(users@) + (if users@.len() > 0 { "\n"@ } else {
        Seq::empty()
    }));
    out.append("  }\n}\n");
    out
}

// ---------------------------------------------------------------- reading

/// Blanks between the parts of the text.
pub open spec fn is_blank(c: char) -> bool {
    c == ' ' || c == '\t' || c == '\n' || c == '\u{c}' || c == '\r'
}

/// What follows the blanks at the start.
pub open spec fn after_blanks(s: Seq<char>) -> Seq<char> {
    s.skip(span(s, |c: char| is_blank(c)) as int)
}

/// What follows the character `c`, which stands first after blanks.
pub open spec fn after_mark(s: Seq<char>, c: char) -> Option<Seq<char>> {
    let t = after_blanks(s);
    if t.len() > 0 && t[0] == c { Some(t.skip(1)) } else { None }
}

/// A text between quotes, first after blanks, and what follows it. No character
/// is escaped: the text ends at the next quote.
pub open spec fn literal(s: Seq<char>) -> Option<(Seq<char>, Seq<char>)> {
    match after_mark(s, '"') {
        Some(t) => cut_first(t, '"'),
        None => None,
    }
}

/// `true` or `false`, first after blanks, and what follows it.
pub open spec fn boolean(s: Seq<char>) -> Option<(bool, Seq<char>)> {
    let t = after_blanks(s);
    if begins(t, "true"@) {
        Some((true, t.skip(4)))
    } else if begins(t, "false"@) {
        Some((false, t.skip(5)))
    } else {
        None
    }
}

/// What follows a value that is passed over: a text between quotes, or
/// everything before the next comma or closing brace.
pub open spec fn after_value(s: Seq<char>) -> Option<Seq<char>> {
    let t = after_blanks(s);
    if t.len() == 0 {
        None
    } else if t[0] == '"' {
        match literal(t) {
            Some((_, r)) => Some(r),
            None => Some(Seq::empty()),
        }
    } else {
        Some(t.skip(span(t, |c: char| c != ',' && c != '}') as int))
    }
}

/// A text value where one is due.
pub open spec fn text_after_colon(s: Seq<char>) -> Option<(Seq<char>, Seq<char>)> {
    match after_mark(s, ':') {
        Some(r) => literal(r),
        None => None,
    }
}

/// A truth value where one is due.
pub open spec fn bool_after_colon(s: Seq<char>) -> Option<(bool, Seq<char>)> {
    match after_mark(s, ':') {
        Some(r) => boolean(r),
        None => None,
    }
}

/// The role, which may be missing: without a text there, the role is empty.
pub open spec fn role_after_colon(s: Seq<char>) -> Option<(Seq<char>, Seq<char>)> {
    match after_mark(s, ':') {
        Some(r) => match literal(r) {
            Some(p) => Some(p),
            None => Some(
                (
                    Seq::empty(),
                    if after_mark(r, '"') is Some { Seq::empty() } else { after_blanks(r) },
                ),
            ),
        },
        None => None,
    }
}

/// One field of an account, from its name on: the account with the field set,
/// and what follows. A field of another name is passed over.
pub open spec fn account_field(s: Seq<char>, u: UserView) -> Option<(UserView, Seq<char>)> {
    match literal(s) {
        None => None,
        Some((k, r)) => if k == "pw_salt"@ {
            match text_after_colon(r) {
                Some((v, r2)) => Some((UserView { pw_salt: v, ..u }, r2)),
                None => None,
            }
        } else if k == "pw_hash"@ {
            match text_after_colon(r) {
                Some((v, r2)) => Some((UserView { pw_hash: v, ..u }, r2)),
                None => None,
            }
        } else if k == "licensed"@ {
            match bool_after_colon(r) {
                Some((v, r2)) => Some((UserView { licensed: v, ..u }, r2)),
                None => None,
            }
        } else if k == "token_hash"@ {
            match text_after_colon(r) {
                Some((v, r2)) => Some((UserView { token_hash: v, ..u }, r2)),
                None => None,
            }
        } else if k == "role"@ {
            match role_after_colon(r) {
                Some((v, r2)) => Some((UserView { role: v, ..u }, r2)),
                None => None,
            }
        } else {
            match after_mark(r, ':') {
                Some(r2) => match after_value(r2) {
                    Some(r3) => Some((u, r3)),
                    None => None,
                },
                None => None,
            }
        },
    }
}

/// The fields of an account up to its closing brace, and what follows.
pub open spec fn account_fields(s: Seq<char>, u: UserView) -> Option<(UserView, Seq<char>)>
    decreases s.len(),
{
    proof {
        lemma_shorter(s);
        lemma_account_field_shorter(after_blanks(s), u);
    }
    let t = after_blanks(s);
    if t.len() == 0 {
        None
    } else if t[0] == '}' {
        Some((u, t.skip(1)))
    } else if t[0] == ',' {
        account_fields(t.skip(1), u)
    } else if t[0] == '"' {
        match account_field(t, u) {
            Some((u2, r)) => account_fields(r, u2),
            None => None,
        }
    } else {
        None
    }
}

/// An account: its fields between braces.
pub open spec fn account(s: Seq<char>) -> Option<(UserView, Seq<char>)> {
    match after_mark(s, '{') {
        Some(r) => account_fields(r, UserView::blank()),
        None => None,
    }
}

/// One named account, from its name on.
pub open spec fn named_account(s: Seq<char>) -> Option<(Seq<char>, UserView, Seq<char>)> {
    match literal(s) {
        Some((name, r)) => match after_mark(r, ':') {
            Some(r2) => match account(r2) {
                Some((u, r3)) => Some((name, u, r3)),
                None => None,
            },
            None => None,
        },
        None => None,
    }
}

/// Named accounts up to the closing brace, added to those before, and what
/// follows.
pub open spec fn named_accounts(s: Seq<char>, users: UserList) -> Option<(UserList, Seq<char>)>
    decreases s.len(),
{
    proof {
        lemma_shorter(s);
        lemma_named_account_shorter(after_blanks(s));
    }
    let t = after_blanks(s);
    if t.len() == 0 {
        None
    } else if t[0] == '}' {
        Some((users, t.skip(1)))
    } else if t[0] == ',' {
        named_accounts(t.skip(1), users)
    } else if t[0] == '"' {
        match named_account(t) {
            Some((name, u, r)) => named_accounts(r, with_user(users, name, u)),
            None => None,
        }
    } else {
        None
    }
}

/// Addresses up to the closing bracket, after those before, and what follows.
pub open spec fn addresses(s: Seq<char>, ips: Seq<Seq<char>>) -> Option<
    (Seq<Seq<char>>, Seq<char>),
>
    decreases s.len(),
{
    proof {
        lemma_shorter(s);
        lemma_shorter(after_blanks(s));
    }
    let t = after_blanks(s);
    if t.len() == 0 {
        None
    } else if t[0] == ']' {
        Some((ips, t.skip(1)))
    } else if t[0] == ',' {
        addresses(t.skip(1), ips)
    } else if t[0] == '"' {
        match literal(t) {
            Some((ip, r)) => addresses(r, ips.push(ip)),
            None => None,
        }
    } else {
        None
    }
}

/// One field of the state, from its name on.
pub open spec fn state_field(s: Seq<char>, st: StateView) -> Option<(StateView, Seq<char>)> {
    match literal(s) {
        None => None,
        Some((k, r)) => if k == "enabled"@ {
            match bool_after_colon(r) {
                Some((v, r2)) => Some((StateView { enabled: v, ..st }, r2)),
                None => None,
            }
        } else if k == "allow_all_ips"@ {
            match bool_after_colon(r) {
                Some((v, r2)) => Some((StateView { allow_all_ips: v, ..st }, r2)),
                None => None,
            }
        } else if k == "ip_whitelist"@ {
            match after_mark(r, ':') {
                Some(r2) => match after_mark(r2, '[') {
                    Some(r3) => match addresses(r3, st.ip_whitelist) {
                        Some((v, r4)) => Some((StateView { ip_whitelist: v, ..st }, r4)),
                        None => None,
                    },
                    None => None,
                },
                None => None,
            }
        } else if k == "users"@ {
            match after_mark(r, ':') {
                Some(r2) => match after_mark(r2, '{') {
                    Some(r3) => match named_accounts(r3, st.users) {
                        Some((v, r4)) => Some((StateView { users: v, ..st }, r4)),
                        None => None,
                    },
                    None => None,
                },
                None => None,
            }
        } else {
            match after_value(r) {
                Some(r2) => Some((st, r2)),
                None => None,
            }
        },
    }
}

/// The fields of the state up to the closing brace, and what follows.
pub open spec fn state_fields(s: Seq<char>, st: StateView) -> Option<(StateView, Seq<char>)>
    decreases s.len(),
{
    proof {
        lemma_shorter(s);
        lemma_state_field_shorter(after_blanks(s), st);
    }
    let t = after_blanks(s);
    if t.len() == 0 {
        None
    } else if t[0] == '}' {
        Some((st, t.skip(1)))
    } else if t[0] == ',' {
        state_fields(t.skip(1), st)
    } else if t[0] == '"' {
        match state_field(t, st) {
            Some((st2, r)) => state_fields(r, st2),
            None => None,
        }
    } else {
        None
    }
}

/// The state at the start of a text, between braces, and what follows.
pub open spec fn state_and_rest(s: Seq<char>) -> Option<(StateView, Seq<char>)> {
    match after_mark(s, '{') {
        Some(r) => state_fields(r, StateView::blank()),
        None => None,
    }
}

/// The state that a text describes; what follows its closing brace is ignored.
pub open spec fn state_of(s: Seq<char>) -> Option<StateView> {
    match state_and_rest(s) {
        Some((st, rest)) => Some(st),
        None => None,
    }
}

pub proof fn lemma_shorter(s: Seq<char>)
    ensures
        after_blanks(s).len() <= s.len(),
        forall|c: char|
            #![trigger after_mark(s, c)]
            after_mark(s, c) matches Some(r) ==> r.len() < s.len(),
        literal(s) matches Some(p) ==> p.1.len() < s.len(),
        boolean(s) matches Some(p) ==> p.1.len() < s.len(),
        after_value(s) matches Some(r) ==> r.len() <= s.len(),
{
    lemma_span(s, |c: char| is_blank(c));
    let t = after_blanks(s);
    lemma_span(t, |c: char| c != ',' && c != '}');
    if let Some(q) = after_mark(s, '"') {
        lemma_span(q, other_than('"'));
    }
    lemma_span(t, |c: char| is_blank(c));
    if let Some(q) = after_mark(t, '"') {
        lemma_span(q, other_than('"'));
    }
    reveal_strlit("true");
    reveal_strlit("false");
}

pub proof fn lemma_account_field_shorter(s: Seq<char>, u: UserView)
    ensures
        account_field(s, u) matches Some(p) ==> p.1.len() < s.len(),
{
    lemma_shorter(s);
    if let Some((k, r)) = literal(s) {
        lemma_shorter(r);
        if let Some(r2) = after_mark(r, ':') {
            lemma_shorter(r2);
        }
    }
}

pub proof fn lemma_account_fields_shorter(s: Seq<char>, u: UserView)
    ensures
        account_fields(s, u) matches Some(p) ==> p.1.len() < s.len(),
    decreases s.len(),
{
    lemma_shorter(s);
    let t = after_blanks(s);
    lemma_account_field_shorter(t, u);
    if t.len() > 0 {
        if t[0] == ',' {
            lemma_account_fields_shorter(t.skip(1), u);
        } else if t[0] == '"' {
            if let Some((u2, r)) = account_field(t, u) {
                lemma_account_fields_shorter(r, u2);
            }
        }
    }
}

pub proof fn lemma_named_account_shorter(s: Seq<char>)
    ensures
        named_account(s) matches Some(p) ==> p.2.len() < s.len(),
{
    lemma_shorter(s);
    if let Some((name, r)) = literal(s) {
        lemma_shorter(r);
        if let Some(r2) = after_mark(r, ':') {
            lemma_shorter(r2);
            if let Some(r3) = after_mark(r2, '{') {
                lemma_account_fields_shorter(r3, UserView::blank());
            }
        }
    }
}

pub proof fn lemma_named_accounts_shorter(s: Seq<char>, users: UserList)
    ensures
        named_accounts(s, users) matches Some(p) ==> p.1.len() < s.len(),
    decreases s.len(),
{
    lemma_shorter(s);
    let t = after_blanks(s);
    lemma_named_account_shorter(t);
    if t.len() > 0 {
        if t[0] == ',' {
            lemma_named_accounts_shorter(t.skip(1), users);
        } else if t[0] == '"' {
            if let Some((name, u, r)) = named_account(t) {
                lemma_named_accounts_shorter(r, with_user(users, name, u));
            }
        }
    }
}

pub proof fn lemma_addresses_shorter(s: Seq<char>, ips: Seq<Seq<char>>)
    ensures
        addresses(s, ips) matches Some(p) ==> p.1.len() < s.len(),
    decreases s.len(),
{
    lemma_shorter(s);
    let t = after_blanks(s);
    lemma_shorter(t);
    if t.len() > 0 {
        if t[0] == ',' {
            lemma_addresses_shorter(t.skip(1), ips);
        } else if t[0] == '"' {
            if let Some((ip, r)) = literal(t) {
                lemma_addresses_shorter(r, ips.push(ip));
            }
        }
    }
}

pub proof fn lemma_state_field_shorter(s: Seq<char>, st: StateView)
    ensures
        state_field(s, st) matches Some(p) ==> p.1.len() < s.len(),
{
    lemma_shorter(s);
    if let Some((k, r)) = literal(s) {
        lemma_shorter(r);
        if let Some(r2) = after_mark(r, ':') {
            lemma_shorter(r2);
            if let Some(r3) = after_mark(r2, '[') {
                lemma_addresses_shorter(r3, st.ip_whitelist);
            }
            if let Some(r3) = after_mark(r2, '{') {
                lemma_named_accounts_shorter(r3, st.users);
            }
        }
    }
}

/// A position in the characters of a text.
struct Scan {
    s: Vec<char>,
    i: usize,
}

impl Scan {
    spec fn wf(self) -> bool {
        self.i <= self.s@.len()
    }

    /// What is left to read.
    spec fn rest(self) -> Seq<char> {
        self.s@.skip(self.i as int)
    }

    fn ws(&mut self)
        requires
            old(self).wf(),
        ensures
            final(self).wf(),
            final(self).rest() == after_blanks(old(self).rest()),
    {
        let ghost start = self.i as int;
        let ghost all = self.s@;
        while self.i < self.s.len() && (self.s[self.i] == ' ' || self.s[self.i] == '\t'
            || self.s[self.i] == '\n' || self.s[self.i] == '\u{c}' || self.s[self.i] == '\r')
            invariant
                self.s@ == all,
                0 <= start <= self.i <= all.len(),
                forall|k: int| start <= k < self.i ==> is_blank(#[trigger] all[k]),
            decreases all.len() - self.i,
        {
            self.i += 1;
        }
        proof {
            let r = all.skip(start);
            let n = self.i - start;
            assert forall|k: int| 0 <= k < n implies is_blank(#[trigger] r[k]) by {
                assert(r[k] == all[start + k]);
            }
            lemma_span_is(r, |c: char| is_blank(c), n);
            assert(r.skip(n) =~= all.skip(self.i as int));
        }
    }

    fn eat(&mut self, c: char) -> (r: bool)
        requires
            old(self).wf(),
        ensures
            final(self).wf(),
            r == after_mark(old(self).rest(), c) is Some,
            r ==> after_mark(old(self).rest(), c) == Some(final(self).rest()),
            !r ==> final(self).rest() == after_blanks(old(self).rest()),
    {
        self.ws();
        if self.i < self.s.len() && self.s[self.i] == c {
            assert(self.rest()[0] == c);
            let ghost before = self.rest();
            self.i += 1;
            assert(before.skip(1) =~= self.rest());
            true
        } else {
            false
        }
    }

    fn peek(&mut self) -> (r: Option<char>)
        requires
            old(self).wf(),
        ensures
            final(self).wf(),
            final(self).rest() == after_blanks(old(self).rest()),
            r is Some == (final(self).rest().len() > 0),
            r matches Some(c) ==> c == final(self).rest()[0],
    {
        self.ws();
        if self.i < self.s.len() {
            Some(self.s[self.i])
        } else {
            None
        }
    }

    fn str_lit(&mut self) -> (r: Option<String>)
        requires
            old(self).wf(),
        ensures
            final(self).wf(),
            r is Some == literal(old(self).rest()) is Some,
            r matches Some(v) ==> literal(old(self).rest()) == Some((v@, final(self).rest())),
            r is None ==> final(self).rest() == (if after_mark(old(self).rest(), '"') is Some {
                Seq::<char>::empty()
            } else {
                after_blanks(old(self).rest())
            }),
    {
        if !self.eat('"') {
            return None;
        }
        let start: usize = self.i;
        let ghost all = self.s@;
        let ghost r = self.rest();
        while self.i < self.s.len() && self.s[self.i] != '"'
            invariant
                self.s@ == all,
                start <= self.i <= all.len(),
                forall|k: int| start <= k < self.i ==> #[trigger] all[k] != '"',
            decreases all.len() - self.i,
        {
            self.i += 1;
        }
        proof {
            let n = self.i - start;
            assert forall|k: int| 0 <= k < n implies other_than('"')(#[trigger] r[k]) by {
                assert(r[k] == all[start + k]);
            }
            lemma_span_is(r, other_than('"'), n);
        }
        if self.i >= self.s.len() {
            assert(self.rest() =~= Seq::<char>::empty());
            return None;
        }
        let v = text_of(&self.s, start, self.i);
        self.i += 1;
        proof {
            let n = self.i - 1 - start;
            assert(r.take(n) =~= v@);
            assert(r.skip(n + 1) =~= self.rest());
        }
        Some(v)
    }

    fn boolean(&mut self) -> (r: Option<bool>)
        requires
            old(self).wf(),
        ensures
            final(self).wf(),
            r is Some == boolean(old(self).rest()) is Some,
            r matches Some(v) ==> boolean(old(self).rest()) == Some((v, final(self).rest())),
    {
        self.ws();
        let ghost t = self.rest();
        let n: usize = self.s.len();
        let yes = chars_of("true");
        let no = chars_of("false");
        proof {
            reveal_strlit("true");
            reveal_strlit("false");
            if t.len() >= 4 {
                assert(self.s@.subrange(self.i as int, self.i + 4) =~= t.take(4));
            }
            if t.len() >= 5 {
                assert(self.s@.subrange(self.i as int, self.i + 5) =~= t.take(5));
            }
        }
        if stands(&self.s, &yes, self.i) {
            self.i += 4;
            assert(t.skip(4) =~= self.rest());
            Some(true)
        } else if stands(&self.s, &no, self.i) {
            self.i += 5;
            assert(t.skip(5) =~= self.rest());
            Some(false)
        } else {
            None
        }
    }

    /// Passes over a value.
    fn skip_value(&mut self) -> (r: bool)
        requires
            old(self).wf(),
        ensures
            final(self).wf(),
            r == after_value(old(self).rest()) is Some,
            r ==> after_value(old(self).rest()) == Some(final(self).rest()),
    {
        match self.peek() {
            None => false,
            Some('"') => {
                proof {
                    let t = self.rest();
                    lemma_span_is(t, |c: char| is_blank(c), 0);
                    assert(t.skip(0) =~= t);
                }
                let _ = self.str_lit();
                true
            },
            _ => {
                let ghost start = self.i as int;
                let ghost all = self.s@;
                let ghost t = self.rest();
                while self.i < self.s.len() && self.s[self.i] != ',' && self.s[self.i] != '}'
                    invariant
                        self.s@ == all,
                        0 <= start <= self.i <= all.len(),
                        forall|k: int|
                            start <= k < self.i ==> #[trigger] all[k] != ',' && all[k] != '}',
                    decreases all.len() - self.i,
                {
                    self.i += 1;
                }
                proof {
                    let n = self.i - start;
                    assert forall|k: int| 0 <= k < n implies #[trigger] t[k] != ',' && t[k]
                        != '}' by {
                        assert(t[k] == all[start + k]);
                    }
                    lemma_span_is(t, |c: char| c != ',' && c != '}', n);
                    assert(t.skip(n) =~= self.rest());
                }
                true
            },
        }
    }
}


/// At a character that is no blank, nothing is skipped.
proof fn lemma_at_mark(t: Seq<char>)
    requires
        t.len() > 0,
        !is_blank(t[0]),
    ensures
        after_blanks(t) == t,
{
    lemma_span_is(t, |c: char| is_blank(c), 0);
    assert(t.skip(0) =~= t);
}

/// What follows blanks begins with none.
proof fn lemma_after_blanks_idle(s: Seq<char>)
    ensures
        after_blanks(after_blanks(s)) == after_blanks(s),
{
    let t = after_blanks(s);
    lemma_span(s, |c: char| is_blank(c));
    if t.len() > 0 {
        assert(t[0] == s[span(s, |c: char| is_blank(c)) as int]);
        lemma_at_mark(t);
    } else {
        assert(t.skip(0) =~= t);
    }
}

fn parse_user(sc: &mut Scan) -> (r: Option<UserRecord>)
    requires
        old(sc).wf(),
    ensures
        final(sc).wf(),
        r is Some == account(old(sc).rest()) is Some,
        r matches Some(u) ==> account(old(sc).rest()) == Some((u@, final(sc).rest())),
{
    let mut rec = UserRecord::default();
    let ghost whole = account(sc.rest());
    if !sc.eat('{') {
        return None;
    }
    loop
        invariant
            sc.wf(),
            whole == account(old(sc).rest()),
            whole == account_fields(sc.rest(), rec@),
        decreases sc.rest().len(),
    {
        proof {
            lemma_shorter(sc.rest());
            lemma_after_blanks_idle(sc.rest());
            lemma_account_field_shorter(after_blanks(sc.rest()), rec@);
        }
        let ghost before = sc.rest();
        let c = match sc.peek() {
            Some(c) => c,
            None => {
                return None;
            },
        };
        let ghost t = sc.rest();
        if c == '}' {
            sc.eat('}');
            return Some(rec);
        } else if c == ',' {
            sc.eat(',');
        } else if c == '"' {
            let k = match sc.str_lit() {
                Some(k) => k,
                None => {
                    return None;
                },
            };
            if !sc.eat(':') {
                return None;
            }
            if same(&k, "pw_salt") {
                match sc.str_lit() {
                    Some(v) => {
                        rec.pw_salt = v;
                    },
                    None => {
                        return None;
                    },
                }
            } else if same(&k, "pw_hash") {
                match sc.str_lit() {
                    Some(v) => {
                        rec.pw_hash = v;
                    },
                    None => {
                        return None;
                    },
                }
            } else if same(&k, "licensed") {
                match sc.boolean() {
                    Some(v) => {
                        rec.licensed = v;
                    },
                    None => {
                        return None;
                    },
                }
            } else if same(&k, "token_hash") {
                match sc.str_lit() {
                    Some(v) => {
                        rec.token_hash = v;
                    },
                    None => {
                        return None;
                    },
                }
            } else if same(&k, "role") {
                match sc.str_lit() {
                    Some(v) => {
                        rec.role = v;
                    },
                    None => {
                        rec.role = String::new();
                        assert(rec@.role =~= Seq::empty());
                    },
                }
            } else if !sc.skip_value() {
                return None;
            }
        } else {
            return None;
        }
    }
}

fn parse_addresses(sc: &mut Scan, ips: &mut Vec<String>) -> (r: bool)
    requires
        old(sc).wf(),
    ensures
        final(sc).wf(),
        r == addresses(old(sc).rest(), texts(old(ips)@)) is Some,
        r ==> addresses(old(sc).rest(), texts(old(ips)@)) == Some(
            (texts(final(ips)@), final(sc).rest()),
        ),
{
    let ghost whole = addresses(sc.rest(), texts(ips@));
    loop
        invariant
            sc.wf(),
            whole == addresses(old(sc).rest(), texts(old(ips)@)),
            whole == addresses(sc.rest(), texts(ips@)),
        decreases sc.rest().len(),
    {
        proof {
            lemma_shorter(sc.rest());
            lemma_shorter(after_blanks(sc.rest()));
            lemma_after_blanks_idle(sc.rest());
        }
        let c = match sc.peek() {
            Some(c) => c,
            None => {
                return false;
            },
        };
        if c == ']' {
            sc.eat(']');
            return true;
        } else if c == ',' {
            sc.eat(',');
        } else if c == '"' {
            match sc.str_lit() {
                Some(ip) => {
                    let ghost pre = texts(ips@);
                    ips.push(ip);
                    assert(texts(ips@) =~= pre.push(ip@));
                },
                None => {
                    return false;
                },
            }
        } else {
            return false;
        }
    }
}

fn parse_users(sc: &mut Scan, users: &mut Users) -> (r: bool)
    requires
        old(sc).wf(),
    ensures
        final(sc).wf(),
        r == named_accounts(old(sc).rest(), old(users)@) is Some,
        r ==> named_accounts(old(sc).rest(), old(users)@) == Some(
            (final(users)@, final(sc).rest()),
        ),
{
    let ghost whole = named_accounts(sc.rest(), users@);
    loop
        invariant
            sc.wf(),
            whole == named_accounts(old(sc).rest(), old(users)@),
            whole == named_accounts(sc.rest(), users@),
        decreases sc.rest().len(),
    {
        proof {
            lemma_shorter(sc.rest());
            lemma_named_account_shorter(after_blanks(sc.rest()));
            lemma_after_blanks_idle(sc.rest());
        }
        let c = match sc.peek() {
            Some(c) => c,
            None => {
                return false;
            },
        };
        if c == '}' {
            sc.eat('}');
            return true;
        } else if c == ',' {
            sc.eat(',');
        } else if c == '"' {
            let name = match sc.str_lit() {
                Some(name) => name,
                None => {
                    return false;
                },
            };
            if !sc.eat(':') {
                return false;
            }
            match parse_user(sc) {
                Some(rec) => {
                    users.insert(name, rec);
                },
                None => {
                    return false;
                },
            }
        } else {
            return false;
        }
    }
}

/// The state that a text describes, if it describes one.
pub fn parse_state(body: &str) -> (r: Option<HostState>)
    ensures
        r is Some == state_of(body@) is Some,
        r matches Some(st) ==> state_of(body@) == Some(st@),
{
    let mut sc = Scan { s: chars_of(body), i: 0 };
    let mut state = HostState::default();
    let ghost whole = state_and_rest(body@);
    assert(sc.rest() =~= body@);
    if !sc.eat('{') {
        return None;
    }
    loop
        invariant
            sc.wf(),
            whole == state_and_rest(body@),
            whole == state_fields(sc.rest(), state@),
        decreases sc.rest().len(),
    {
        proof {
            lemma_shorter(sc.rest());
            lemma_state_field_shorter(after_blanks(sc.rest()), state@);
            lemma_after_blanks_idle(sc.rest());
        }
        let c = match sc.peek() {
            Some(c) => c,
            None => {
                return None;
            },
        };
        if c == '}' {
            return Some(state);
        } else if c == ',' {
            sc.eat(',');
        } else if c == '"' {
            let ghost st0 = state@;
            let k = match sc.str_lit() {
                Some(k) => k,
                None => {
                    return None;
                },
            };
            if same(&k, "enabled") {
                if !sc.eat(':') {
                    return None;
                }
                match sc.boolean() {
                    Some(v) => {
                        state.enabled = v;
                    },
                    None => {
                        return None;
                    },
                }
            } else if same(&k, "allow_all_ips") {
                if !sc.eat(':') {
                    return None;
                }
                match sc.boolean() {
                    Some(v) => {
                        state.allow_all_ips = v;
                    },
                    None => {
                        return None;
                    },
                }
            } else if same(&k, "ip_whitelist") {
                if !sc.eat(':') || !sc.eat('[') || !parse_addresses(
                    &mut sc,
                    &mut state.ip_whitelist,
                ) {
                    return None;
                }
            } else if same(&k, "users") {
                if !sc.eat(':') || !sc.eat('{') || !parse_users(&mut sc, &mut state.users) {
                    return None;
                }
            } else if !sc.skip_value() {
                return None;
            }
        } else {
            return None;
        }
    }
}

// ---------------------------------------------------------------- reading what was written

pub open spec fn no_quote(s: Seq<char>) -> bool {
    forall|i: int| 0 <= i < s.len() ==> #[trigger] s[i] != '"'
}

pub open spec fn all_blank(s: Seq<char>) -> bool {
    forall|i: int| 0 <= i < s.len() ==> is_blank(#[trigger] s[i])
}

/// An account whose texts hold no quote.
pub open spec fn account_is_plain(name: Seq<char>, u: UserView) -> bool {
    no_quote(name) && no_quote(u.pw_salt) && no_quote(u.pw_hash) && no_quote(u.token_hash)
        && no_quote(u.role)
}

/// A state whose texts hold no quote.
pub open spec fn state_is_plain(st: StateView) -> bool {
    (forall|i: int| 0 <= i < st.users.len() ==> account_is_plain(#[trigger] st.users[i].0, st.users[i].1))
        && (forall|i: int| 0 <= i < st.ip_whitelist.len() ==> no_quote(#[trigger] st.ip_whitelist[i]))
}

/// An account with the role `user` where it has none.
pub open spec fn with_role(u: UserView) -> UserView {
    UserView { role: written_role(u.role), ..u }
}

/// Accounts with the role `user` where they have none.
pub open spec fn with_roles(users: UserList) -> UserList {
    users.map_values(|e: (Seq<char>, UserView)| (e.0, with_role(e.1)))
}

proof fn lemma_assoc(a: Seq<char>, b: Seq<char>, c: Seq<char>)
    ensures
        (a + b) + c == a + (b + c),
{
    assert((a + b) + c =~= a + (b + c));
}

pub proof fn lemma_reads_mark(s: Seq<char>, w: Seq<char>, c: char, tail: Seq<char>)
    requires
        all_blank(w),
        !is_blank(c),
        s == w + seq![c] + tail,
    ensures
        after_blanks(s) == seq![c] + tail,
        after_blanks(s).len() > 0,
        after_blanks(s)[0] == c,
        after_mark(s, c) == Some(tail),
{
    assert forall|i: int| 0 <= i < w.len() implies is_blank(#[trigger] s[i]) by {
        assert(s[i] == w[i]);
    }
    assert(s[w.len() as int] == c);
    lemma_span_is(s, |x: char| is_blank(x), w.len() as int);
    assert(s.skip(w.len() as int) =~= seq![c] + tail);
    assert((seq![c] + tail).skip(1) =~= tail);
}

pub proof fn lemma_reads_literal(s: Seq<char>, w: Seq<char>, v: Seq<char>, tail: Seq<char>)
    requires
        all_blank(w),
        no_quote(v),
        s == w + seq!['"'] + (v + (seq!['"'] + tail)),
    ensures
        after_blanks(s).len() > 0,
        after_blanks(s)[0] == '"',
        literal(s) == Some((v, tail)),
        literal(after_blanks(s)) == Some((v, tail)),
{
    let body = v + (seq!['"'] + tail);
    lemma_reads_mark(s, w, '"', body);
    lemma_after_blanks_idle(s);
    assert forall|i: int| 0 <= i < v.len() implies other_than('"')(#[trigger] body[i]) by {
        assert(body[i] == v[i]);
    }
    assert(body[v.len() as int] == '"');
    lemma_span_is(body, other_than('"'), v.len() as int);
    assert(body.take(v.len() as int) =~= v);
    assert(body.skip(v.len() as int + 1) =~= tail);
}

pub proof fn lemma_reads_boolean(s: Seq<char>, w: Seq<char>, b: bool, tail: Seq<char>)
    requires
        all_blank(w),
        s == w + (bool_text(b) + tail),
    ensures
        boolean(s) == Some((b, tail)),
{
    reveal_strlit("true");
    reveal_strlit("false");
    let t = bool_text(b) + tail;
    let c = bool_text(b)[0];
    assert(s =~= w + seq![c] + t.skip(1));
    lemma_reads_mark(s, w, c, t.skip(1));
    assert(after_blanks(s) =~= t);
    assert(t.take(bool_text(b).len() as int) =~= bool_text(b));
    assert(t.skip(bool_text(b).len() as int) =~= tail);
    if !b {
        assert(t.take(4)[0] == 'f');
    }
}

/// A name, a colon and a text.
proof fn lemma_reads_text_field(
    s: Seq<char>,
    w: Seq<char>,
    key: Seq<char>,
    value: Seq<char>,
    tail: Seq<char>,
)
    requires
        all_blank(w),
        no_quote(key),
        no_quote(value),
        s == w + seq!['"'] + (key + (seq!['"'] + (": \""@ + (value + (seq!['"'] + tail))))),
    ensures
        after_blanks(s).len() > 0,
        after_blanks(s)[0] == '"',
        literal(after_blanks(s)) matches Some(p) && p.0 == key && text_after_colon(p.1) == Some(
            (value, tail),
        ) && role_after_colon(p.1) == Some((value, tail)),
{
    reveal_strlit(": \"");
    let r = ": \""@ + (value + (seq!['"'] + tail));
    lemma_reads_literal(s, w, key, r);
    let r2 = seq![' ', '"'] + (value + (seq!['"'] + tail));
    assert(r =~= Seq::<char>::empty() + seq![':'] + r2);
    lemma_reads_mark(r, Seq::empty(), ':', r2);
    assert(r2 =~= seq![' '] + seq!['"'] + (value + (seq!['"'] + tail)));
    lemma_reads_literal(r2, seq![' '], value, tail);
}

/// A name, a colon and a truth value.
proof fn lemma_reads_bool_field(
    s: Seq<char>,
    w: Seq<char>,
    key: Seq<char>,
    value: bool,
    tail: Seq<char>,
)
    requires
        all_blank(w),
        no_quote(key),
        s == w + seq!['"'] + (key + (seq!['"'] + (": "@ + (bool_text(value) + tail)))),
    ensures
        after_blanks(s).len() > 0,
        after_blanks(s)[0] == '"',
        literal(after_blanks(s)) matches Some(p) && p.0 == key && bool_after_colon(p.1) == Some(
            (value, tail),
        ),
{
    reveal_strlit(": ");
    let r = ": "@ + (bool_text(value) + tail);
    lemma_reads_literal(s, w, key, r);
    let r2 = seq![' '] + (bool_text(value) + tail);
    assert(r =~= Seq::<char>::empty() + seq![':'] + r2);
    lemma_reads_mark(r, Seq::empty(), ':', r2);
    lemma_reads_boolean(r2, seq![' '], value, tail);
}

proof fn lemma_account_names()
    ensures
        no_quote("pw_salt"@),
        no_quote("pw_hash"@),
        no_quote("licensed"@),
        no_quote("token_hash"@),
        no_quote("role"@),
        "pw_hash"@ != "pw_salt"@,
        "licensed"@ != "pw_salt"@,
        "licensed"@ != "pw_hash"@,
        "token_hash"@ != "pw_salt"@,
        "token_hash"@ != "pw_hash"@,
        "token_hash"@ != "licensed"@,
        "role"@ != "pw_salt"@,
        "role"@ != "pw_hash"@,
        "role"@ != "licensed"@,
        "role"@ != "token_hash"@,
{
    reveal_strlit("pw_salt");
    reveal_strlit("pw_hash");
    reveal_strlit("licensed");
    reveal_strlit("token_hash");
    reveal_strlit("role");
    assert("pw_hash"@[3] != "pw_salt"@[3]);
}

/// The leads of the fields, after the quote that ends the text before them.
proof fn lemma_leads()
    ensures
        "\", \"pw_hash\": \""@ == seq!['"'] + ", \"pw_hash\": \""@,
        "\", \"licensed\": "@ == seq!['"'] + ", \"licensed\": "@,
        "\", \"role\": \""@ == seq!['"'] + ", \"role\": \""@,
        "\" }"@ == seq!['"'] + " }"@,
        "\": { \"pw_salt\": \""@ == seq!['"'] + (": {"@ + " \"pw_salt\": \""@),
{
    reveal_strlit("\", \"pw_hash\": \"");
    reveal_strlit("\", \"licensed\": ");
    reveal_strlit("\", \"role\": \"");
    reveal_strlit("\" }");
    reveal_strlit("\": { \"pw_salt\": \"");
    reveal_strlit(", \"pw_hash\": \"");
    reveal_strlit(", \"licensed\": ");
    reveal_strlit(", \"role\": \"");
    reveal_strlit(" }");
    reveal_strlit(": {");
    reveal_strlit(" \"pw_salt\": \"");
    assert("\", \"pw_hash\": \""@ =~= seq!['"'] + ", \"pw_hash\": \""@);
    assert("\", \"licensed\": "@ =~= seq!['"'] + ", \"licensed\": "@);
    assert("\", \"role\": \""@ =~= seq!['"'] + ", \"role\": \""@);
    assert("\" }"@ =~= seq!['"'] + " }"@);
    assert("\": { \"pw_salt\": \""@ =~= seq!['"'] + (": {"@ + " \"pw_salt\": \""@));
}

proof fn lemma_reads_salt(v: Seq<char>, tail: Seq<char>, u: UserView)
    requires
        no_quote(v),
    ensures
        account_fields(" \"pw_salt\": \""@ + (v + (seq!['"'] + tail)), u) == account_fields(
            tail,
            UserView { pw_salt: v, ..u },
        ),
{
    lemma_account_names();
    reveal_strlit(" \"pw_salt\": \"");
    reveal_strlit("pw_salt");
    reveal_strlit(": \"");
    let s = " \"pw_salt\": \""@ + (v + (seq!['"'] + tail));
    let q = seq![' ', '"'] + ("pw_salt"@ + (seq!['"'] + (": \""@ + (v + (seq!['"'] + tail)))));
    assert(s =~= q);
    assert(q =~= seq![' '] + seq!['"'] + ("pw_salt"@ + (seq!['"'] + (": \""@ + (v + (seq!['"']
        + tail))))));
    lemma_reads_text_field(q, seq![' '], "pw_salt"@, v, tail);
}

proof fn lemma_reads_hash(v: Seq<char>, tail: Seq<char>, u: UserView)
    requires
        no_quote(v),
    ensures
        account_fields(", \"pw_hash\": \""@ + (v + (seq!['"'] + tail)), u) == account_fields(
            tail,
            UserView { pw_hash: v, ..u },
        ),
{
    lemma_account_names();
    reveal_strlit(", \"pw_hash\": \"");
    reveal_strlit("pw_hash");
    reveal_strlit(": \"");
    let s = ", \"pw_hash\": \""@ + (v + (seq!['"'] + tail));
    let q = seq![' ', '"'] + ("pw_hash"@ + (seq!['"'] + (": \""@ + (v + (seq!['"'] + tail)))));
    assert(s =~= seq![','] + q);
    lemma_reads_comma(s, q, u);
    assert(q =~= seq![' '] + seq!['"'] + ("pw_hash"@ + (seq!['"'] + (": \""@ + (v + (seq!['"']
        + tail))))));
    lemma_reads_text_field(q, seq![' '], "pw_hash"@, v, tail);
}

proof fn lemma_reads_token(v: Seq<char>, tail: Seq<char>, u: UserView)
    requires
        no_quote(v),
    ensures
        account_fields(", \"token_hash\": \""@ + (v + (seq!['"'] + tail)), u) == account_fields(
            tail,
            UserView { token_hash: v, ..u },
        ),
{
    lemma_account_names();
    reveal_strlit(", \"token_hash\": \"");
    reveal_strlit("token_hash");
    reveal_strlit(": \"");
    let s = ", \"token_hash\": \""@ + (v + (seq!['"'] + tail));
    let q = seq![' ', '"'] + ("token_hash"@ + (seq!['"'] + (": \""@ + (v + (seq!['"'] + tail)))));
    assert(s =~= seq![','] + q);
    lemma_reads_comma(s, q, u);
    assert(q =~= seq![' '] + seq!['"'] + ("token_hash"@ + (seq!['"'] + (": \""@ + (v + (seq!['"']
        + tail))))));
    lemma_reads_text_field(q, seq![' '], "token_hash"@, v, tail);
}

proof fn lemma_reads_role(v: Seq<char>, tail: Seq<char>, u: UserView)
    requires
        no_quote(v),
    ensures
        account_fields(", \"role\": \""@ + (v + (seq!['"'] + tail)), u) == account_fields(
            tail,
            UserView { role: v, ..u },
        ),
{
    lemma_account_names();
    reveal_strlit(", \"role\": \"");
    reveal_strlit("role");
    reveal_strlit(": \"");
    let s = ", \"role\": \""@ + (v + (seq!['"'] + tail));
    let q = seq![' ', '"'] + ("role"@ + (seq!['"'] + (": \""@ + (v + (seq!['"'] + tail)))));
    assert(s =~= seq![','] + q);
    lemma_reads_comma(s, q, u);
    assert(q =~= seq![' '] + seq!['"'] + ("role"@ + (seq!['"'] + (": \""@ + (v + (seq!['"']
        + tail))))));
    lemma_reads_text_field(q, seq![' '], "role"@, v, tail);
}

proof fn lemma_reads_licensed(v: bool, tail: Seq<char>, u: UserView)
    ensures
        account_fields(", \"licensed\": "@ + (bool_text(v) + tail), u) == account_fields(
            tail,
            UserView { licensed: v, ..u },
        ),
{
    lemma_account_names();
    reveal_strlit(", \"licensed\": ");
    reveal_strlit("licensed");
    reveal_strlit(": ");
    let s = ", \"licensed\": "@ + (bool_text(v) + tail);
    let q = seq![' ', '"'] + ("licensed"@ + (seq!['"'] + (": "@ + (bool_text(v) + tail))));
    assert(s =~= seq![','] + q);
    lemma_reads_comma(s, q, u);
    assert(q =~= seq![' '] + seq!['"'] + ("licensed"@ + (seq!['"'] + (": "@ + (bool_text(v)
        + tail)))));
    lemma_reads_bool_field(q, seq![' '], "licensed"@, v, tail);
}

proof fn lemma_reads_end(tail: Seq<char>, u: UserView)
    ensures
        account_fields(" }"@ + tail, u) == Some((u, tail)),
{
    reveal_strlit(" }");
    let s = " }"@ + tail;
    assert(s =~= seq![' '] + seq!['}'] + tail);
    lemma_reads_mark(s, seq![' '], '}', tail);
    assert((seq!['}'] + tail).skip(1) =~= tail);
}

/// The fields of an account, and what follows.
spec fn fields_text(u: UserView, tail: Seq<char>) -> Seq<char> {
    let q = seq!['"'];
    " \"pw_salt\": \""@ + (u.pw_salt + (q + (", \"pw_hash\": \""@ + (u.pw_hash + (q + (
    ", \"licensed\": "@ + (bool_text(u.licensed) + (", \"token_hash\": \""@ + (u.token_hash + (q + (
    ", \"role\": \""@ + (written_role(u.role) + (q + (" }"@ + tail))))))))))))))
}

/// Reading the fields of an account as they are written.
proof fn lemma_reads_fields(u: UserView, tail: Seq<char>)
    requires
        account_is_plain(Seq::empty(), u),
    ensures
        account_fields(fields_text(u, tail), UserView::blank()) == Some((with_role(u), tail)),
{
    let q = seq!['"'];
    let role = written_role(u.role);
    assert(no_quote(role)) by {
        reveal_strlit("user");
    }
    let a7 = " }"@ + tail;
    let a6 = ", \"role\": \""@ + (role + (q + a7));
    let a5 = ", \"token_hash\": \""@ + (u.token_hash + (q + a6));
    let a4 = ", \"licensed\": "@ + (bool_text(u.licensed) + a5);
    let a3 = ", \"pw_hash\": \""@ + (u.pw_hash + (q + a4));
    lemma_reads_salt(u.pw_salt, a3, UserView::blank());
    let u1 = UserView { pw_salt: u.pw_salt, ..UserView::blank() };
    lemma_reads_hash(u.pw_hash, a4, u1);
    let u2 = UserView { pw_hash: u.pw_hash, ..u1 };
    lemma_reads_licensed(u.licensed, a5, u2);
    let u3 = UserView { licensed: u.licensed, ..u2 };
    lemma_reads_token(u.token_hash, a6, u3);
    let u4 = UserView { token_hash: u.token_hash, ..u3 };
    lemma_reads_role(role, a7, u4);
    let u5 = UserView { role, ..u4 };
    lemma_reads_end(tail, u5);
    assert(u5 == with_role(u));
}

/// The text of an account holds its name, a colon and its fields.
proof fn lemma_account_text_holds(name: Seq<char>, u: UserView, tail: Seq<char>)
    ensures
        account_text(name, u) + tail == "    \""@ + (name + (seq!['"'] + (": {"@ + fields_text(
            u,
            tail,
        )))),
{
    let q = seq!['"'];
    let role = written_role(u.role);
    lemma_leads();
    let a7 = " }"@ + tail;
    let a6 = ", \"role\": \""@ + (role + (q + a7));
    let a5 = ", \"token_hash\": \""@ + (u.token_hash + (q + a6));
    let a4 = ", \"licensed\": "@ + (bool_text(u.licensed) + a5);
    let a3 = ", \"pw_hash\": \""@ + (u.pw_hash + (q + a4));
    lemma_assoc(q, " }"@, tail);
    lemma_assoc(q, ", \"role\": \""@, role + (q + a7));
    lemma_assoc(q, ", \"licensed\": "@, bool_text(u.licensed) + a5);
    lemma_assoc(q, ", \"pw_hash\": \""@, u.pw_hash + (q + a4));
    lemma_assoc(q, ": {"@ + " \"pw_salt\": \""@, u.pw_salt + (q + a3));
    lemma_assoc(": {"@, " \"pw_salt\": \""@, u.pw_salt + (q + a3));
    lemma_account_text_nests(name, u, tail);
}

/// Reading a named account as it is written.
proof fn lemma_reads_account(name: Seq<char>, u: UserView, tail: Seq<char>)
    requires
        account_is_plain(name, u),
    ensures
        after_blanks(account_text(name, u) + tail).len() > 0,
        after_blanks(account_text(name, u) + tail)[0] == '"',
        named_account(after_blanks(account_text(name, u) + tail)) == Some(
            (name, with_role(u), tail),
        ),
{
    let q = seq!['"'];
    let f = fields_text(u, tail);
    lemma_reads_fields(u, tail);
    lemma_account_text_holds(name, u, tail);
    let s = account_text(name, u) + tail;
    let w = seq![' ', ' ', ' ', ' '];
    let r = ": {"@ + f;
    assert(s == w + q + (name + (q + r))) by {
        reveal_strlit("    \"");
        assert("    \""@ =~= w + q);
    }
    lemma_reads_literal(s, w, name, r);
    let r1 = seq![' ', '{'] + f;
    assert(r == Seq::<char>::empty() + seq![':'] + r1) by {
        reveal_strlit(": {");
        assert(r =~= Seq::<char>::empty() + seq![':'] + r1);
    }
    lemma_reads_mark(r, Seq::empty(), ':', r1);
    assert(r1 =~= seq![' '] + seq!['{'] + f);
    lemma_reads_mark(r1, seq![' '], '{', f);
}

/// The text of an account and what follows it, from the outside in.
proof fn lemma_account_text_nests(name: Seq<char>, u: UserView, tail: Seq<char>)
    ensures
        account_text(name, u) + tail == "    \""@ + (name + ("\": { \"pw_salt\": \""@ + (u.pw_salt
            + ("\", \"pw_hash\": \""@ + (u.pw_hash + ("\", \"licensed\": "@ + (bool_text(u.licensed)
            + (", \"token_hash\": \""@ + (u.token_hash + ("\", \"role\": \""@ + (written_role(
            u.role,
        ) + ("\" }"@ + tail)))))))))))),
{
    let p1 = "    \""@ + name;
    let p2 = p1 + "\": { \"pw_salt\": \""@;
    let p3 = p2 + u.pw_salt;
    let p4 = p3 + "\", \"pw_hash\": \""@;
    let p5 = p4 + u.pw_hash;
    let p6 = p5 + "\", \"licensed\": "@;
    let p7 = p6 + bool_text(u.licensed);
    let p8 = p7 + ", \"token_hash\": \""@;
    let p9 = p8 + u.token_hash;
    let p10 = p9 + "\", \"role\": \""@;
    let p11 = p10 + written_role(u.role);
    let t12 = "\" }"@ + tail;
    let t11 = written_role(u.role) + t12;
    let t10 = "\", \"role\": \""@ + t11;
    let t9 = u.token_hash + t10;
    let t8 = ", \"token_hash\": \""@ + t9;
    let t7 = bool_text(u.licensed) + t8;
    let t6 = "\", \"licensed\": "@ + t7;
    let t5 = u.pw_hash + t6;
    let t4 = "\", \"pw_hash\": \""@ + t5;
    let t3 = u.pw_salt + t4;
    let t2 = "\": { \"pw_salt\": \""@ + t3;
    lemma_assoc(p11, "\" }"@, tail);
    lemma_assoc(p10, written_role(u.role), t12);
    lemma_assoc(p9, "\", \"role\": \""@, t11);
    lemma_assoc(p8, u.token_hash, t10);
    lemma_assoc(p7, ", \"token_hash\": \""@, t9);
    lemma_assoc(p6, bool_text(u.licensed), t8);
    lemma_assoc(p5, "\", \"licensed\": "@, t7);
    lemma_assoc(p4, u.pw_hash, t6);
    lemma_assoc(p3, "\", \"pw_hash\": \""@, t5);
    lemma_assoc(p2, u.pw_salt, t4);
    lemma_assoc(p1, "\": { \"pw_salt\": \""@, t3);
    lemma_assoc("    \""@, name, t2);
}

/// Adding an account whose name stands after all others puts it at the end.
proof fn lemma_add_last(users: UserList, name: Seq<char>, u: UserView)
    requires
        forall|i: int| 0 <= i < users.len() ==> lex_less(#[trigger] users[i].0, name),
    ensures
        with_user(users, name, u) == users.push((name, u)),
{
    lemma_rank_is(users, name, users.len() as int);
    assert(users.insert(users.len() as int, (name, u)) =~= users.push((name, u)));
}

/// Reading the accounts as they are written.
proof fn lemma_reads_accounts(users: UserList, tail: Seq<char>)
    requires
        names_rise(users),
        forall|i: int| 0 <= i < users.len() ==> account_is_plain(#[trigger] users[i].0, users[i].1),
    ensures
        named_accounts(accounts_text(users) + tail, UserList::empty()) == named_accounts(
            tail,
            with_roles(users),
        ),
    decreases users.len(),
{
    if users.len() == 0 {
        assert(accounts_text(users) + tail =~= tail);
        assert(with_roles(users) =~= UserList::empty());
    } else {
        let init = users.drop_last();
        let (name, u) = users.last();
        let this = account_text(name, u) + tail;
        assert forall|i: int| 0 <= i < init.len() implies lex_less(#[trigger] with_roles(init)[i].0, name) by {
            assert(with_roles(init)[i].0 == users[i].0);
            assert(lex_less(users[i].0, users[users.len() - 1].0));
        }
        lemma_add_last(with_roles(init), name, with_role(u));
        assert(with_roles(init).push((name, with_role(u))) =~= with_roles(users));
        assert(account_is_plain(users[users.len() - 1].0, users[users.len() - 1].1));
        lemma_reads_account(name, u, tail);
        assert(named_accounts(this, with_roles(init)) == named_accounts(tail, with_roles(users)));
        if users.len() == 1 {
            assert(with_roles(init) =~= UserList::empty());
        } else {
            assert(names_rise(init)) by {
                assert forall|i: int, j: int| 0 <= i < j < init.len() implies lex_less(#[trigger] init[i].0, #[trigger] init[j].0) by {
                    assert(init[i] == users[i] && init[j] == users[j]);
                }
            }
            assert forall|i: int| 0 <= i < init.len() implies account_is_plain(#[trigger] init[i].0, init[i].1) by {
                assert(init[i] == users[i]);
            }
            let sep = ",\n"@ + this;
            lemma_reads_accounts(init, sep);
            lemma_assoc(accounts_text(init), ",\n"@, account_text(name, u));
            lemma_assoc(accounts_text(init), ",\n"@ + account_text(name, u), tail);
            lemma_assoc(",\n"@, account_text(name, u), tail);
            reveal_strlit(",\n");
            assert(sep =~= Seq::<char>::empty() + seq![','] + (seq!['\n'] + this));
            lemma_reads_mark(sep, Seq::empty(), ',', seq!['\n'] + this);
            assert((seq![','] + (seq!['\n'] + this)).skip(1) =~= seq!['\n'] + this);
            lemma_blank_first('\n', this);
        }
    }
}

/// A blank at the start changes nothing.
proof fn lemma_blank_first(c: char, s: Seq<char>)
    requires
        is_blank(c),
    ensures
        after_blanks(seq![c] + s) == after_blanks(s),
        forall|users: UserList| named_accounts(seq![c] + s, users) == #[trigger] named_accounts(s, users),
        forall|ips: Seq<Seq<char>>| addresses(seq![c] + s, ips) == #[trigger] addresses(s, ips),
        forall|st: StateView| state_fields(seq![c] + s, st) == #[trigger] state_fields(s, st),
{
    let t = seq![c] + s;
    assert(t.drop_first() =~= s);
    assert(span(t, |x: char| is_blank(x)) == 1 + span(s, |x: char| is_blank(x)));
    lemma_span(s, |x: char| is_blank(x));
    assert(after_blanks(t) =~= after_blanks(s));
}

/// Reading the addresses as they are written.
proof fn lemma_reads_addresses(ips: Seq<Seq<char>>, tail: Seq<char>)
    requires
        forall|i: int| 0 <= i < ips.len() ==> no_quote(#[trigger] ips[i]),
    ensures
        addresses(addresses_text(ips) + tail, Seq::empty()) == addresses(tail, ips),
    decreases ips.len(),
{
    if ips.len() == 0 {
        assert(addresses_text(ips) + tail =~= tail);
        assert(ips =~= Seq::empty());
    } else {
        reveal_strlit("\"");
        let init = ips.drop_last();
        let ip = ips.last();
        assert(no_quote(ips[ips.len() - 1]));
        let this = quoted(ip) + tail;
        assert(this =~= Seq::<char>::empty() + seq!['"'] + (ip + (seq!['"'] + tail)));
        lemma_reads_literal(this, Seq::empty(), ip, tail);
        assert(init.push(ip) =~= ips);
        assert(addresses(this, init) == addresses(tail, ips));
        if ips.len() == 1 {
            assert(init =~= Seq::empty());
        } else {
            assert forall|i: int| 0 <= i < init.len() implies no_quote(#[trigger] init[i]) by {
                assert(init[i] == ips[i]);
            }
            let sep = ", "@ + this;
            lemma_reads_addresses(init, sep);
            lemma_assoc(addresses_text(init), ", "@, quoted(ip));
            lemma_assoc(addresses_text(init), ", "@ + quoted(ip), tail);
            lemma_assoc(", "@, quoted(ip), tail);
            reveal_strlit(", ");
            assert(sep =~= Seq::<char>::empty() + seq![','] + (seq![' '] + this));
            lemma_reads_mark(sep, Seq::empty(), ',', seq![' '] + this);
            assert((seq![','] + (seq![' '] + this)).skip(1) =~= seq![' '] + this);
            lemma_blank_first(' ', this);
        }
    }
}

proof fn lemma_reads_comma(e: Seq<char>, q: Seq<char>, u: UserView)
    requires
        e == seq![','] + q,
    ensures
        account_fields(e, u) == account_fields(q, u),
{
    assert(e =~= Seq::<char>::empty() + seq![','] + q);
    lemma_reads_mark(e, Seq::empty(), ',', q);
    assert((seq![','] + q).skip(1) =~= q);
}

proof fn lemma_state_names()
    ensures
        no_quote("enabled"@),
        no_quote("allow_all_ips"@),
        no_quote("ip_whitelist"@),
        no_quote("users"@),
        "allow_all_ips"@ != "enabled"@,
        "ip_whitelist"@ != "enabled"@,
        "ip_whitelist"@ != "allow_all_ips"@,
        "users"@ != "enabled"@,
        "users"@ != "allow_all_ips"@,
        "users"@ != "ip_whitelist"@,
{
    reveal_strlit("enabled");
    reveal_strlit("allow_all_ips");
    reveal_strlit("ip_whitelist");
    reveal_strlit("users");
    assert("enabled"@.len() == 7);
    assert("allow_all_ips"@.len() == 13);
    assert("ip_whitelist"@.len() == 12);
    assert("users"@.len() == 5);
}

proof fn lemma_reads_state_comma(s: Seq<char>, q: Seq<char>, st: StateView)
    requires
        s == seq![','] + q,
    ensures
        state_fields(s, st) == state_fields(q, st),
{
    assert(s =~= Seq::<char>::empty() + seq![','] + q);
    lemma_reads_mark(s, Seq::empty(), ',', q);
    assert((seq![','] + q).skip(1) =~= q);
}

proof fn lemma_reads_enabled(b: bool, tail: Seq<char>, st: StateView)
    ensures
        state_fields("\n  \"enabled\": "@ + (bool_text(b) + tail), st) == state_fields(
            tail,
            StateView { enabled: b, ..st },
        ),
{
    lemma_state_names();
    let w = seq!['\n', ' ', ' '];
    let s = "\n  \"enabled\": "@ + (bool_text(b) + tail);
    let t = seq!['"'] + (": "@ + (bool_text(b) + tail));
    assert(s == w + seq!['"'] + ("enabled"@ + t)) by {
        reveal_strlit("\n  \"enabled\": ");
        reveal_strlit("enabled");
        reveal_strlit(": ");
        assert(s =~= w + seq!['"'] + ("enabled"@ + t));
    }
    lemma_reads_bool_field(s, w, "enabled"@, b, tail);
}

proof fn lemma_reads_allow_all(b: bool, tail: Seq<char>, st: StateView)
    ensures
        state_fields(",\n  \"allow_all_ips\": "@ + (bool_text(b) + tail), st) == state_fields(
            tail,
            StateView { allow_all_ips: b, ..st },
        ),
{
    lemma_state_names();
    let w = seq!['\n', ' ', ' '];
    let s = ",\n  \"allow_all_ips\": "@ + (bool_text(b) + tail);
    let t = seq!['"'] + (": "@ + (bool_text(b) + tail));
    let q = w + seq!['"'] + ("allow_all_ips"@ + t);
    assert(s == seq![','] + q) by {
        reveal_strlit(",\n  \"allow_all_ips\": ");
        reveal_strlit("allow_all_ips");
        reveal_strlit(": ");
        assert(s =~= seq![','] + q);
    }
    lemma_reads_state_comma(s, q, st);
    lemma_reads_bool_field(q, w, "allow_all_ips"@, b, tail);
}

proof fn lemma_reads_whitelist(ips: Seq<Seq<char>>, tail: Seq<char>, st: StateView)
    requires
        forall|i: int| 0 <= i < ips.len() ==> no_quote(#[trigger] ips[i]),
        st.ip_whitelist.len() == 0,
    ensures
        state_fields(
            ",\n  \"ip_whitelist\": ["@ + (addresses_text(ips) + (seq![']'] + tail)),
            st,
        ) == state_fields(tail, StateView { ip_whitelist: ips, ..st }),
{
    lemma_state_names();
    assert(st.ip_whitelist =~= Seq::empty());
    let w = seq!['\n', ' ', ' '];
    let body = addresses_text(ips) + (seq![']'] + tail);
    let s = ",\n  \"ip_whitelist\": ["@ + body;
    let r = seq![':', ' ', '['] + body;
    let q = w + seq!['"'] + ("ip_whitelist"@ + (seq!['"'] + r));
    assert(s == seq![','] + q) by {
        reveal_strlit(",\n  \"ip_whitelist\": [");
        reveal_strlit("ip_whitelist");
        assert(s =~= seq![','] + q);
    }
    lemma_reads_state_comma(s, q, st);
    lemma_reads_literal(q, w, "ip_whitelist"@, r);
    let r2 = seq![' ', '['] + body;
    assert(r =~= Seq::<char>::empty() + seq![':'] + r2);
    lemma_reads_mark(r, Seq::empty(), ':', r2);
    assert(r2 =~= seq![' '] + seq!['['] + body);
    lemma_reads_mark(r2, seq![' '], '[', body);
    lemma_reads_addresses(ips, seq![']'] + tail);
    let close = seq![']'] + tail;
    assert(close =~= Seq::<char>::empty() + seq![']'] + tail);
    lemma_reads_mark(close, Seq::empty(), ']', tail);
    assert(close.skip(1) =~= tail);
    assert(addresses(body, Seq::empty()) == Some((ips, tail)));
}

proof fn lemma_reads_users(users: UserList, st: StateView)
    requires
        names_rise(users),
        forall|i: int| 0 <= i < users.len() ==> account_is_plain(#[trigger] users[i].0, users[i].1),
        st.users.len() == 0,
    ensures
        state_fields(
            ",\n  \"users\": {\n"@ + (accounts_text(users) + ((if users.len() > 0 {
                "\n"@
            } else {
                Seq::empty()
            }) + "  }\n}\n"@)),
            st,
        ) == Some((StateView { users: with_roles(users), ..st }, "\n"@)),
{
    lemma_state_names();
    assert(st.users =~= Seq::empty());
    let w = seq!['\n', ' ', ' '];
    let nl = if users.len() > 0 { "\n"@ } else { Seq::<char>::empty() };
    let end = nl + "  }\n}\n"@;
    let body = accounts_text(users) + end;
    let s = ",\n  \"users\": {\n"@ + body;
    let r = seq![':', ' ', '{'] + (seq!['\n'] + body);
    let q = w + seq!['"'] + ("users"@ + (seq!['"'] + r));
    assert(s == seq![','] + q) by {
        reveal_strlit(",\n  \"users\": {\n");
        reveal_strlit("users");
        assert(s =~= seq![','] + q);
    }
    lemma_reads_state_comma(s, q, st);
    lemma_reads_literal(q, w, "users"@, r);
    let r2 = seq![' ', '{'] + (seq!['\n'] + body);
    assert(r =~= Seq::<char>::empty() + seq![':'] + r2);
    lemma_reads_mark(r, Seq::empty(), ':', r2);
    let r3 = seq!['\n'] + body;
    assert(r2 =~= seq![' '] + seq!['{'] + r3);
    lemma_reads_mark(r2, seq![' '], '{', r3);
    lemma_blank_first('\n', body);
    lemma_reads_accounts(users, end);
    reveal_strlit("\n");
    reveal_strlit("  }\n}\n");
    let last = seq!['\n', '}', '\n'];
    let wn = nl + seq![' ', ' '];
    assert(end =~= wn + seq!['}'] + last);
    lemma_reads_mark(end, wn, '}', last);
    assert((seq!['}'] + last).skip(1) =~= last);
    assert(named_accounts(r3, Seq::empty()) == Some((with_roles(users), last)));
    assert(last =~= seq!['\n'] + seq!['}'] + seq!['\n']);
    lemma_reads_mark(last, seq!['\n'], '}', seq!['\n']);
    let st2 = StateView { users: with_roles(users), ..st };
    assert((seq!['}'] + seq!['\n']).skip(1) =~= "\n"@);
    assert(state_fields(last, st2) == Some((st2, "\n"@)));
}

/// A state that was written reads back as it was, with the role `user` for
/// accounts that have none. Texts are written as they are, so none may hold a
/// quote.
pub proof fn state_reads_back(st: StateView)
    requires
        names_rise(st.users),
        state_is_plain(st),
    ensures
        state_of(state_text(st)) == Some(StateView { users: with_roles(st.users), ..st }),
        state_and_rest(state_text(st)) == Some(
            (StateView { users: with_roles(st.users), ..st }, "\n"@),
        ),
{
    let nl = if st.users.len() > 0 { "\n"@ } else { Seq::<char>::empty() };
    let b1 = bool_text(st.enabled);
    let b2 = bool_text(st.allow_all_ips);
    let ips = addresses_text(st.ip_whitelist);
    let acc = accounts_text(st.users);
    let l1 = "{\n  \"enabled\": "@;
    let l2 = ",\n  \"allow_all_ips\": "@;
    let l3 = ",\n  \"ip_whitelist\": ["@;
    let l4 = "],\n  \"users\": {\n"@;
    let end = "  }\n}\n"@;
    let t7 = nl + end;
    let t6 = acc + t7;
    let t5 = l4 + t6;
    let t4 = ips + t5;
    let t3 = l3 + t4;
    let t2 = b2 + t3;
    let t1 = l2 + t2;
    let s = state_text(st);
    lemma_assoc(l1 + b1 + l2 + b2 + l3 + ips + l4 + acc, nl, end);
    lemma_assoc(l1 + b1 + l2 + b2 + l3 + ips + l4, acc, t7);
    lemma_assoc(l1 + b1 + l2 + b2 + l3 + ips, l4, t6);
    lemma_assoc(l1 + b1 + l2 + b2 + l3, ips, t5);
    lemma_assoc(l1 + b1 + l2 + b2, l3, t4);
    lemma_assoc(l1 + b1 + l2, b2, t3);
    lemma_assoc(l1 + b1, l2, t2);
    lemma_assoc(l1, b1, t1);
    assert(s == l1 + (b1 + t1));
    let f = "\n  \"enabled\": "@;
    assert(l1 == seq!['{'] + f) by {
        reveal_strlit("{\n  \"enabled\": ");
        reveal_strlit("\n  \"enabled\": ");
        assert(l1 =~= seq!['{'] + f);
    }
    lemma_assoc(seq!['{'], f, b1 + t1);
    let r = f + (b1 + t1);
    assert(s == Seq::<char>::empty() + seq!['{'] + r) by {
        assert(Seq::<char>::empty() + seq!['{'] =~= seq!['{']);
    }
    lemma_reads_mark(s, Seq::empty(), '{', r);
    let s0 = StateView::blank();
    lemma_reads_enabled(st.enabled, t1, s0);
    let s1 = StateView { enabled: st.enabled, ..s0 };
    lemma_reads_allow_all(st.allow_all_ips, t3, s1);
    let s2 = StateView { allow_all_ips: st.allow_all_ips, ..s1 };
    let l5 = ",\n  \"users\": {\n"@;
    assert(l4 == seq![']'] + l5) by {
        reveal_strlit("],\n  \"users\": {\n");
        reveal_strlit(",\n  \"users\": {\n");
        assert(l4 =~= seq![']'] + l5);
    }
    lemma_assoc(seq![']'], l5, t6);
    lemma_reads_whitelist(st.ip_whitelist, l5 + t6, s2);
    let s3 = StateView { ip_whitelist: st.ip_whitelist, ..s2 };
    lemma_reads_users(st.users, s3);
}

} // verus!
