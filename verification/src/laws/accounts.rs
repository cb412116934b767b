//! Accounts, addresses and the host's switches: names, roles, passwords and what
//! the commands change.

use crate::accounts::{
    HostState, StateView, UserRecord, UserView, Users, inserted_user_is_found, lookup, names_rise,
    with_user,
};
use crate::creds::{
    MaskedKey, MasterKey, add_to_whitelist, add_user, add_user_with_salt, check_new_user,
    cmd_enable, cmd_enable_with_flags, is_name_char, is_sealed, load_state, masked_text,
    master_key, name_chars_ok, new_account, normalize_role, password_hash, prompt_new_password,
    read_line_prompt, read_masked, read_masked_tty, remove_from_whitelist, removed_text_is_gone,
    role_named, save_state, seal_state, sealed_parts, sealed_text, unseal_state,
    validate_username, written_key_reads_back,
};
use crate::host::admits;
use crate::laws::text::{all_white, is_tight, trimming_takes_off_blanks};
use crate::state_file::{
    parse_state, render_state, state_is_plain, state_reads_back, state_text, with_roles,
};
use crate::text::{
    begins, encoded_text_reads_back, lemma_encode_len, lemma_span, lemma_span_back,
    lemma_span_back_is, lemma_span_is, lex_less, lowered, span_back, texts, trimmed,
    trimmed_start, white,
};
use crate::token::{all_hex, hex_text};
use vstd::prelude::*;
use vstd::string::*;
use vstd::utf8::*;

verus! {

/// A name may have 1 to 32 letters, digits, underscores, dots and hyphens, and
/// nothing else.
pub proof fn names_are_plain(name: &str, r: Result<(), String>, i: int)
    requires
        call_ensures(validate_username, (name,), r),
    ensures
        r is Ok <==> 1 <= name@.len() <= 32 && forall|k: int|
            0 <= k < name@.len() ==> ('0' <= #[trigger] name@[k] <= '9') || ('a' <= name@[k]
                <= 'z') || ('A' <= name@[k] <= 'Z') || name@[k] == '_' || name@[k] == '.'
                || name@[k] == '-',
        name@.len() == 0 ==> (r matches Err(e) && e@ == "username must be 1-32 characters"@),
        0 <= i < name@.len() <= 8 && (name@[i] == ' ' || name@[i] == '/') ==> (r matches Err(e)
            && e@ == "username may only contain letters, digits, '_', '.', '-'"@),
{
    lemma_encode_len(name@);
    if name_chars_ok(name@) {
        lemma_plain_bytes(name@);
    }
    if name@.len() <= 8 {
        lemma_few_bytes(name@);
    }
    if 0 <= i < name@.len() && (name@[i] == ' ' || name@[i] == '/') {
        assert(!is_name_char(name@[i]));
    }
}

proof fn lemma_plain_bytes(s: Seq<char>)
    requires
        name_chars_ok(s),
    ensures
        encode_utf8(s).len() == s.len(),
    decreases s.len(),
{
    if s.len() > 0 {
        let t = s.drop_first();
        assert forall|i: int| 0 <= i < t.len() implies is_name_char(#[trigger] t[i]) by {
            assert(t[i] == s[i + 1]);
        }
        lemma_plain_bytes(t);
        assert(is_name_char(s[0]));
    }
}

proof fn lemma_few_bytes(s: Seq<char>)
    ensures
        encode_utf8(s).len() <= 4 * s.len(),
    decreases s.len(),
{
    if s.len() > 0 {
        lemma_few_bytes(s.drop_first());
    }
}

/// A role is that of a user or of an administrator, by either of its names, in
/// either case and with blanks round it or not; no name is that of a user.
pub proof fn roles_have_names(
    role: &str,
    r: Result<String, String>,
    a: Seq<char>,
    w: Seq<char>,
    b: Seq<char>,
)
    requires
        call_ensures(normalize_role, (role,), r),
        role@ == a + w + b,
        all_white(a),
        all_white(b),
        is_tight(w),
    ensures
        lowered(w) == "user"@ || lowered(w) == "standard"@ ==> (r matches Ok(s) && s@ == "user"@),
        lowered(w) == "admin"@ || lowered(w) == "sudo"@ ==> (r matches Ok(s) && s@ == "admin"@),
        lowered(w) != "user"@ && lowered(w) != "standard"@ && lowered(w) != "admin"@ && lowered(w)
            != "sudo"@ && w.len() > 0 ==> (r matches Err(e) && e@ == "unknown role '"@ + lowered(w)
            + "' (use 'user' or 'admin')"@),
{
    trimming_takes_off_blanks(a, w, b);
    reveal_strlit("");
    reveal_strlit("user");
    reveal_strlit("standard");
    reveal_strlit("admin");
    reveal_strlit("sudo");
    assert("user"@.len() == 4 && "standard"@.len() == 8 && "admin"@.len() == 5 && "sudo"@.len() == 4
        && ""@.len() == 0);
    assert("user"@[0] == 'u' && "sudo"@[0] == 's');
}

/// Nothing but blanks is the role of a user.
pub proof fn no_role_is_that_of_a_user(role: &str, r: Result<String, String>)
    requires
        call_ensures(normalize_role, (role,), r),
        role@.len() == 0,
    ensures
        r matches Ok(s) && s@ == "user"@,
{
    lemma_span(role@, |c: char| white(c));
    lemma_span_back(trimmed_start(role@), |c: char| white(c));
    reveal_strlit("");
    assert(lowered(trimmed(role@)) =~= ""@);
}

/// An administrator is one whose role says so.
pub proof fn administrators_are_known_by_their_role(u: &UserRecord, r: bool)
    requires
        call_ensures(UserRecord::is_admin, (u,), r),
    ensures
        r <==> u.role@ == seq!['a', 'd', 'm', 'i', 'n'],
{
    reveal_strlit("admin");
    assert("admin"@ =~= seq!['a', 'd', 'm', 'i', 'n']);
}

/// A new password is taken where it was typed twice alike and is not empty.
pub proof fn new_passwords_are_typed_twice(first: &str, second: &str, r: Result<String, String>)
    requires
        call_ensures(prompt_new_password, (first, second), r),
    ensures
        first@.len() > 0 && first@ == second@ ==> (r matches Ok(p) && p@ == first@),
        first@.len() == 0 ==> (r matches Err(e) && e@ == "password cannot be empty"@),
        first@.len() > 0 && first@ != second@ ==> (r matches Err(e) && e@
            == "passwords do not match. user not created."@),
{
}

/// What is typed unseen: the line ends with the return key, the last character
/// is taken back with the backspace key, and every other character is taken.
pub proof fn unseen_characters_are_taken(typed: &mut Vec<u8>, code: i32, r: MaskedKey)
    requires
        call_ensures(read_masked_tty, (typed, code), r),
    ensures
        code == 13 || code == 10 <==> r == MaskedKey::Done,
        code == 3 <==> r == MaskedKey::Interrupt,
        code == 0 || code == 224 <==> r == MaskedKey::DropNext,
        code == 8 && old(typed)@.len() > 0 <==> r == MaskedKey::Erase,
        32 <= code <= 255 && code != 224 <==> r == MaskedKey::Echo,
        r == MaskedKey::Echo ==> final(typed)@ == old(typed)@.push(code as u8),
        r == MaskedKey::Erase ==> final(typed)@.len() == old(typed)@.len() - 1 && final(typed)@.push(old(typed)@.last()) == old(typed)@,
        r != MaskedKey::Echo && r != MaskedKey::Erase ==> final(typed)@ == old(typed)@,
{
    if r == MaskedKey::Erase {
        assert(old(typed)@.drop_last().push(old(typed)@.last()) =~= old(typed)@);
    }
}

/// What was typed unseen is the text of its bytes; a line read without a
/// terminal loses its end, and one that is asked for the blanks round it.
pub proof fn typed_lines_are_read(
    typed: &Vec<u8>,
    s: String,
    line: &str,
    t: String,
    u: String,
    text: Seq<char>,
    end: Seq<char>,
)
    requires
        call_ensures(masked_text, (typed,), s),
        typed@ == encode_utf8(text),
        call_ensures(read_masked, (line,), t),
        line@ == text + end,
        forall|i: int| 0 <= i < end.len() ==> (#[trigger] end[i]) == '\r' || end[i] == '\n',
        text.len() == 0 || text.last() != '\r' && text.last() != '\n',
        call_ensures(read_line_prompt, (line,), u),
        is_tight(text),
    ensures
        s@ == text,
        t@ == text,
        u@ == text,
{
    encoded_text_reads_back(text);
    lemma_span_back_is(line@, |c: char| c == '\r' || c == '\n', end.len() as int);
    assert(line@.take(line@.len() - end.len()) =~= text);
    let e = Seq::<char>::empty();
    trimming_takes_off_blanks(e, text, end);
    assert(e + text + end =~= line@);
}

// ---------------------------------------------------------------- accounts

/// A new account is found under its name, with its role, a hash of its password
/// by a salt of its own, no token and no license; every other account is as
/// before. It is refused where the name or the role is wrong or the name is
/// taken.
pub proof fn accounts_are_added(
    st: &mut HostState,
    name: &str,
    role: &str,
    password: &str,
    r: Result<(), String>,
    n: Result<(), String>,
    o: Result<String, String>,
    other: Seq<char>,
)
    requires
        call_ensures(add_user, (st, name, role, password), r),
        call_ensures(validate_username, (name,), n),
        call_ensures(normalize_role, (role,), o),
        names_rise(old(st)@.users),
    ensures
        r is Ok <==> n is Ok && o is Ok && lookup(old(st)@.users, name@) is None,
        n matches Err(e) ==> (r matches Err(f) && f@ == e@),
        n is Ok ==> (o matches Err(e) ==> (r matches Err(f) && f@ == e@)),
        n is Ok && o is Ok && lookup(old(st)@.users, name@) is Some ==> (r matches Err(f) && f@
            == "user '"@ + name@ + "' already exists"@),
        r is Err ==> *final(st) == *old(st),
        r is Ok ==> {
            let u = lookup(final(st)@.users, name@);
            &&& u matches Some(v) && o matches Ok(role_name) && v.role == role_name@ && !v.licensed
                && v.token_hash.len() == 0 && v.pw_salt.len() == 32 && all_hex(v.pw_salt)
                && v.pw_hash == password_hash(v.pw_salt, password@)
            &&& other != name@ ==> lookup(final(st)@.users, other) == lookup(old(st)@.users, other)
            &&& final(st)@ == (StateView { users: final(st)@.users, ..old(st)@ })
        },
{
    if r is Ok {
        let salt = choose|salt: Seq<char>|
            salt.len() == 32 && all_hex(salt) && final(st)@ == (StateView {
                users: with_user(
                    old(st)@.users,
                    name@,
                    #[trigger] new_account(salt, password@, role_named(role@)->0),
                ),
                ..old(st)@
            });
        inserted_user_is_found(
            old(st)@.users,
            name@,
            new_account(salt, password@, role_named(role@)->0),
            other,
        );
    }
}

/// A host is enabled only where it has accounts; the command says whether that
/// changes anything, and with flags it sets who may come in.
pub proof fn hosts_are_enabled(
    s: &mut HostState,
    t: &mut HostState,
    all: bool,
    list: Vec<String>,
    r: Result<bool, String>,
    q: Result<(), String>,
)
    requires
        call_ensures(cmd_enable, (s,), r),
        call_ensures(cmd_enable_with_flags, (t, all, list), q),
    ensures
        old(s)@.users.len() == 0 ==> (r matches Err(e) && e@
            == "no user accounts exist yet. run '/adduser -m <name>' first."@) && *final(s) == *old(s),
        old(s)@.users.len() > 0 ==> r == Ok::<bool, String>(!old(s)@.enabled) && final(s)@ == (
        StateView { enabled: true, ..old(s)@ }),
        old(t)@.users.len() == 0 ==> (q matches Err(e) && e@
            == "no user accounts exist yet. run '/adduser -m <name>' first."@) && *final(t) == *old(t),
        old(t)@.users.len() > 0 ==> q is Ok && final(t)@ == (StateView {
            enabled: true,
            allow_all_ips: all,
            ip_whitelist: texts(list@),
            users: old(t)@.users,
        }),
{
}

/// An address that is put on the host's list may come in; once it is taken off
/// and others are left, it may not. Neither happens without accounts.
pub proof fn the_hosts_list_is_kept(
    s: &mut HostState,
    ip: String,
    r: Result<bool, String>,
    t: &mut HostState,
    off: &str,
    q: Result<(), String>,
    a: bool,
    b: bool,
)
    requires
        off@ == ip@,
        call_ensures(add_to_whitelist, (s, ip), r),
        call_ensures(admits, (&*final(s), off), a),
        call_ensures(remove_from_whitelist, (t, off), q),
        call_ensures(admits, (&*final(t), off), b),
    ensures
        r is Ok <==> old(s)@.users.len() > 0,
        q is Ok <==> old(t)@.users.len() > 0,
        r matches Ok(changed) ==> a && (changed <==> !old(s)@.ip_whitelist.contains(ip@)) && (!changed
            ==> final(s)@ == old(s)@) && (changed ==> final(s)@ == (StateView {
            ip_whitelist: old(s)@.ip_whitelist.push(ip@),
            ..old(s)@
        })),
        r matches Err(e) ==> *final(s) == *old(s) && e@
            == "no user accounts exist. run '/adduser -m <name>' first."@,
        q is Ok ==> !final(t)@.ip_whitelist.contains(ip@) && (b <==> old(t)@.allow_all_ips || final(t)@.ip_whitelist.len() == 0),
        q is Ok ==> forall|other: Seq<char>|
            other != ip@ ==> #[trigger] final(t)@.ip_whitelist.contains(other) == old(
                t,
            )@.ip_whitelist.contains(other),
        q is Ok ==> final(t)@ == (StateView { ip_whitelist: final(t)@.ip_whitelist, ..old(t)@ }),
        q matches Err(e) ==> *final(t) == *old(t) && e@
            == "no user accounts exist. run '/adduser -m <name>' first."@,
{
    removed_text_is_gone(old(t)@.ip_whitelist, ip@);
    if r is Ok && !old(s)@.ip_whitelist.contains(ip@) {
        let v = old(s)@.ip_whitelist.push(ip@);
        assert(v[v.len() - 1] == ip@);
    }
}

// ---------------------------------------------------------------- the state on disk

/// A state that is written, in the clear or sealed with a key, is read back with
/// that key; without a file the state is blank.
pub proof fn states_are_kept(
    st: &HostState,
    plaintext: bool,
    key: Option<&[u8]>,
    r: Option<String>,
    file: Option<&str>,
    q: (HostState, bool),
    none: (HostState, bool),
)
    requires
        call_ensures(save_state, (st, plaintext, key), r),
        state_is_plain(st@),
        r is Some,
        file matches Some(f) && f@ == r->0@,
        call_ensures(load_state, (file, key), q),
        call_ensures(load_state, (None::<&str>, key), none),
    ensures
        !q.1,
        q.0@.enabled == st@.enabled,
        q.0@.ip_whitelist == st@.ip_whitelist,
        q.0@.allow_all_ips == st@.allow_all_ips,
        q.0@.users == with_roles(st@.users),
        none.0@ == StateView::blank(),
        !none.1,
        !none.0@.enabled && none.0@.users.len() == 0,
{
}

/// The key is read from its file, where it stands as 64 digits; without a file a
/// new one is drawn, and a file with anything else in it is corrupt.
pub proof fn keys_are_kept(stored: Option<&str>, r: MasterKey, key: Seq<u8>)
    requires
        call_ensures(master_key, (stored,), r),
        key.len() == 32,
    ensures
        stored is None ==> r is Fresh && r->Fresh_0@.len() == 32,
        stored matches Some(s) ==> (s@ == hex_text(key) ==> r is Stored && r->Stored_0@ == key),
        stored matches Some(s) ==> (s@.len() == 0 ==> r is Corrupt),
        r is Stored ==> r->Stored_0@.len() == 32,
{
    written_key_reads_back(key);
    if stored is Some && stored->0@.len() == 0 {
        let s = stored->0@;
        lemma_span(s, |c: char| white(c));
        lemma_span_back(trimmed_start(s), |c: char| white(c));
        assert(trimmed(s).len() == 0);
    }
}

// ---------------------------------------------------------------- lists of accounts

/// An account that was put into the list is found there under its name, every
/// other as before; the names rise.
pub proof fn lists_hold_what_was_put(
    u: &mut Users,
    name: String,
    rec: UserRecord,
    n: &str,
    a: Option<&UserRecord>,
    other: &str,
    before: Option<&UserRecord>,
    after: Option<&UserRecord>,
    has: bool,
)
    requires
        call_ensures(Users::insert, (u, name, rec), ()),
        names_rise(old(u)@),
        n@ == name@,
        other@ != name@,
        call_ensures(Users::get, (&*final(u), n), a),
        call_ensures(Users::get, (&*old(u), other), before),
        call_ensures(Users::get, (&*final(u), other), after),
        call_ensures(Users::contains_key, (&*final(u), n), has),
    ensures
        a matches Some(x) && x@ == rec@,
        has,
        before is Some <==> after is Some,
        after matches Some(x) ==> x@ == before->0@,
        forall|i: int, j: int|
            0 <= i < j < final(u)@.len() ==> lex_less(
                #[trigger] final(u)@[i].0,
                #[trigger] final(u)@[j].0,
            ),
{
    inserted_user_is_found(old(u)@, name@, rec@, other@);
}

/// A new list is empty; its accounts are counted and told in their order.
pub proof fn lists_are_counted(
    v: Users,
    u: &Users,
    n: usize,
    e: bool,
    i: usize,
    r: (&str, &UserRecord),
)
    requires
        call_ensures(Users::new, (), v),
        call_ensures(Users::len, (u,), n),
        call_ensures(Users::is_empty, (u,), e),
        call_ensures(Users::entry, (u, i), r),
        i < u@.len(),
    ensures
        v@.len() == 0,
        n == u@.len(),
        e <==> n == 0,
        r.0@ == u@[i as int].0 && r.1@ == u@[i as int].1,
{
}

/// A new account can be checked before its password is asked for; it is refused
/// for the same reasons.
pub proof fn accounts_are_checked_first(
    st: &HostState,
    name: &str,
    role: &str,
    r: Result<String, String>,
    s: &mut HostState,
    password: &str,
    salt: String,
    q: Result<(), String>,
)
    requires
        call_ensures(check_new_user, (st, name, role), r),
        call_ensures(add_user_with_salt, (s, name, role, password, salt), q),
        old(s)@ == st@,
        names_rise(st@.users),
    ensures
        r is Ok <==> q is Ok,
        r matches Err(e) ==> (q matches Err(f) && f@ == e@) && *final(s) == *old(s),
        r matches Ok(role_name) ==> lookup(final(s)@.users, name@) == Some(
            UserView {
                pw_salt: salt@,
                pw_hash: password_hash(salt@, password@),
                licensed: false,
                token_hash: Seq::empty(),
                role: role_name@,
            },
        ) && (role_name@ == "user"@ || role_name@ == "admin"@),
{
    if q is Ok {
        inserted_user_is_found(
            old(s)@.users,
            name@,
            new_account(salt@, password@, role_named(role@)->0),
            name@,
        );
    }
}

// ---------------------------------------------------------------- sealing

/// What was sealed with a key is opened with it; it says that it is sealed, and
/// is twice as long as its bytes, the nonce, the tag and eight characters more.
pub proof fn sealed_texts_are_opened(
    json: &str,
    key: &[u8],
    r: Option<String>,
    body: &str,
    q: Option<String>,
    marked: bool,
)
    requires
        call_ensures(seal_state, (json, key), r),
        r matches Some(s) && s@ == body@,
        call_ensures(unseal_state, (body, key), q),
        call_ensures(is_sealed, (body,), marked),
    ensures
        q matches Some(t) && t@ == json@,
        marked,
        body@.take(8) == seq!['P', 'Y', 'L', 'E', 'N', 'C', '1', ':'],
        body@.len() == 8 + 2 * (12 + json.spec_bytes().len() + 16),
{
    reveal_strlit("PYLENC1:");
    assert("PYLENC1:"@ =~= seq!['P', 'Y', 'L', 'E', 'N', 'C', '1', ':']);
}

/// A text without the mark is not opened.
pub proof fn other_texts_are_not_opened(
    body: &str,
    key: &[u8],
    q: Option<String>,
    marked: bool,
    p: Option<(Vec<u8>, Vec<u8>)>,
)
    requires
        call_ensures(unseal_state, (body, key), q),
        call_ensures(is_sealed, (body,), marked),
        call_ensures(sealed_parts, (body,), p),
        body@.len() > 0,
        body@[0] == '{',
    ensures
        q is None,
        !marked,
        p is None,
{
    let b = body@;
    reveal_strlit("PYLENC1:");
    assert("PYLENC1:"@[0] == 'P');
    assert(!white('{'));
    lemma_span_is(b, |c: char| white(c), 0);
    assert(trimmed_start(b) =~= b);
    lemma_span_back(b, |c: char| white(c));
    let t = trimmed(b);
    let n = span_back(b, |c: char| white(c)) as int;
    assert(n < b.len()) by {
        if n == b.len() {
            assert((|c: char| white(c))(b[0]));
        }
    }
    assert(t[0] == '{');
    if begins(t, "PYLENC1:"@) {
        assert(t.take(8)[0] == 'P');
    }
    if begins(b, "PYLENC1:"@) {
        assert(b.take(8)[0] == 'P');
    }
}

// ---------------------------------------------------------------- the state's text

/// A state is written with its switches, its addresses and its accounts, each
/// account with its salt, its hash, its license, its token and its role.
pub proof fn states_are_written(
    st: &HostState,
    s: String,
    u: UserView,
    name: Seq<char>,
    ip: Seq<char>,
)
    requires
        call_ensures(render_state, (st,), s),
        st@.users == seq![(name, u)],
        st@.ip_whitelist == seq![ip],
        u.role.len() > 0,
    ensures
        s@ == "{\n  \"enabled\": "@ + (if st@.enabled { "true"@ } else { "false"@ })
            + ",\n  \"allow_all_ips\": "@ + (if st@.allow_all_ips { "true"@ } else { "false"@ })
            + ",\n  \"ip_whitelist\": ["@ + ("\""@ + ip + "\""@) + "],\n  \"users\": {\n"@ + (
        "    \""@ + name + "\": { \"pw_salt\": \""@ + u.pw_salt + "\", \"pw_hash\": \""@ + u.pw_hash
            + "\", \"licensed\": "@ + (if u.licensed { "true"@ } else { "false"@ })
            + ", \"token_hash\": \""@ + u.token_hash + "\", \"role\": \""@ + u.role + "\" }"@)
            + "\n"@ + "  }\n}\n"@,
{
}

/// A state that was written is read back as it was.
pub proof fn written_states_are_read_back(st: &HostState, s: String, t: &str, r: Option<HostState>)
    requires
        call_ensures(render_state, (st,), s),
        t@ == s@,
        call_ensures(parse_state, (t,), r),
        names_rise(st@.users),
        state_is_plain(st@),
        forall|i: int| 0 <= i < st@.users.len() ==> (#[trigger] st@.users[i]).1.role.len() > 0,
    ensures
        r matches Some(x) && x@ == st@,
{
    state_reads_back(st@);
    assert(with_roles(st@.users) =~= st@.users);
}

/// A state that is sealed is not read without its key: it counts as blank, and
/// that it could not be read is told.
pub proof fn sealed_states_need_their_key(
    st: &HostState,
    key: &[u8],
    r: Option<String>,
    file: Option<&str>,
    q: (HostState, bool),
)
    requires
        call_ensures(save_state, (st, false, Some(key)), r),
        key@.len() == 32,
        r is Some,
        file matches Some(f) && f@ == r->0@,
        call_ensures(load_state, (file, None::<&[u8]>), q),
    ensures
        q.1,
        q.0@ == StateView::blank(),
        !q.0@.enabled && q.0@.users.len() == 0,
{
    let nonce = choose|nonce: Seq<u8>|
        nonce.len() == 12 && r->0@ == #[trigger] sealed_text(key@, nonce, state_text(st@));
    lemma_sealed_begins(r->0@, key@, nonce, state_text(st@));
}

proof fn lemma_sealed_begins(s: Seq<char>, key: Seq<u8>, nonce: Seq<u8>, json: Seq<char>)
    requires
        s == sealed_text(key, nonce, json),
    ensures
        begins(trimmed_start(s), "PYLENC1:"@),
{
    reveal_strlit("PYLENC1:");
    assert(s[0] == 'P');
    assert(!white('P'));
    lemma_span_is(s, |c: char| white(c), 0);
    assert(trimmed_start(s) =~= s);
    assert(s.take(8) =~= "PYLENC1:"@);
}

} // verus!
