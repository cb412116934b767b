//! What a host and a client hand on: commands for the data link, data layers,
//! addresses, tokens in their files.

use crate::client_session::{DlCommand, FileFacts, InputEvent, command_message, start_cmd};
use crate::creds::{is_interactive, key_path, state_path};
use crate::digest::sha256;
use crate::host_session::{
    banner_ip, can_spawn_datalayer, cannot_start, datalayer_bases, datalayer_script, handoff_name,
    handoff_text, is_loopback, local_ips, loopback, present, shell_for_exec, with_all_new,
};
use crate::input::input_message;
use crate::laws::listing::lines_end_with_line_feeds;
use crate::laws::text::{
    all_white, cutting_splits_at_the_last, is_tight, trimming_takes_off_blanks,
};
use crate::listing::lines_of;
use crate::text::{owned_opt, texts, white};
use crate::throttle::PeerIp;
use crate::token::{
    FoundToken, StatePath, TokenRecord, all_hex, client_token_path, hex_text, is_plain,
    kept_records, list_client_tokens, load_client_token, pyielink_dir, sanitize, sanitized,
    save_client_token, temp_name, token_file_is_plain, tokens_dir, verify_token,
};
use crate::transfer::{Outcome, Transfers};
use vstd::prelude::*;
use vstd::string::*;
use vstd::utf8::*;

verus! {

// ---------------------------------------------------------------- commands for the data link

/// A download or an upload that is asked for begins as such, and its message
/// goes out on the channel of the messages; a file that cannot be read is told
/// and counts as failed.
pub proof fn commands_begin_transfers(
    t: &mut Transfers,
    cmd: &DlCommand,
    have: u64,
    file: FileFacts,
    r: Result<(u8, String), String>,
    u: &mut Transfers,
    a: &str,
    b: &str,
    digest: &str,
    size: u64,
    got: String,
    v: &mut Transfers,
    put: String,
)
    requires
        call_ensures(start_cmd, (t, cmd, have, file), r),
        old(u)@ == old(t)@,
        old(v)@ == old(t)@,
        call_ensures(Transfers::start_get, (u, a, b, have), got),
        call_ensures(Transfers::start_put, (v, b, a, size, digest), put),
    ensures
        *cmd matches DlCommand::Get { remote, local } ==> (remote@ == a@ && local@ == b@ ==> (
        r matches Ok(m) && m.0 == 4 && m.1@ == got@) && final(t)@ == final(u)@),
        *cmd matches DlCommand::Put { local, remote } ==> (file matches FileFacts::Known {
            size: n,
            sha256: d,
        } ==> (remote@ == a@ && local@ == b@ && n == size && d@ == digest@ ==> (r matches Ok(m)
            && m.0 == 4 && m.1@ == put@) && final(t)@ == final(v)@)),
        *cmd matches DlCommand::Put { local, remote } ==> (file matches FileFacts::Unreadable {
            reason,
        } ==> (r matches Err(e) && e@ == reason@) && final(t)@.map == old(t)@.map && (old(
            t,
        )@.outcome == Outcome::Running ==> final(t)@.outcome == Outcome::Failed)),
{
}

/// The other commands go out as they are: input on its channel, and the
/// switches of input and video each on theirs. No transfer is touched.
pub proof fn other_commands_are_sent(
    t: &mut Transfers,
    cmd: &DlCommand,
    have: u64,
    file: FileFacts,
    r: Result<(u8, String), String>,
    events: &Vec<InputEvent>,
    text: String,
    p: Option<(u8, &'static str)>,
)
    requires
        call_ensures(start_cmd, (t, cmd, have, file), r),
        call_ensures(input_message, (events,), text),
        call_ensures(command_message, (cmd,), p),
        !(*cmd is Get) && !(*cmd is Put),
    ensures
        final(t)@ == old(t)@,
        *cmd == (DlCommand::Input { events: *events }) ==> (r matches Ok(m) && m.0 == 2 && m.1@
            == text@) && p is None,
        *cmd is InputStart ==> (r matches Ok(m) && m.0 == 2 && m.1@ == "{\"t\":\"input_start\"}"@),
        *cmd is InputStop ==> (r matches Ok(m) && m.0 == 2 && m.1@ == "{\"t\":\"input_stop\"}"@),
        *cmd is VideoPause ==> (r matches Ok(m) && m.0 == 3 && m.1@ == "{\"t\":\"video_pause\"}"@),
        *cmd is VideoResume ==> (r matches Ok(m) && m.0 == 3 && m.1@
            == "{\"t\":\"video_resume\"}"@),
        p matches Some(q) ==> (r matches Ok(m) && m.0 == q.0 && m.1@ == q.1@),
{
}

// ---------------------------------------------------------------- the host's sessions

/// A command runs in the shell of the system.
pub proof fn commands_run_in_a_shell(windows: bool, r: (&'static str, &'static str))
    requires
        call_ensures(shell_for_exec, (windows,), r),
    ensures
        windows ==> r.0@ == seq!['c', 'm', 'd'] && r.1@ == seq!['/', 'C'],
        !windows ==> r.0@ == seq!['s', 'h'] && r.1@ == seq!['-', 'c'],
{
    reveal_strlit("cmd");
    reveal_strlit("/C");
    reveal_strlit("sh");
    reveal_strlit("-c");
    assert("cmd"@ =~= seq!['c', 'm', 'd']);
    assert("/C"@ =~= seq!['/', 'C']);
    assert("sh"@ =~= seq!['s', 'h']);
    assert("-c"@ =~= seq!['-', 'c']);
}

/// A command that cannot be started is told, with the code 127.
pub proof fn commands_that_cannot_start(reason: &str, r: (String, i32))
    requires
        call_ensures(cannot_start, (reason,), r),
    ensures
        r.1 == 127,
        r.0@ == "pyielink: cannot start command: "@ + reason@ + seq!['\r', '\n'],
{
    reveal_strlit("\r\n");
    assert("\r\n"@ =~= seq!['\r', '\n']);
}

/// A data layer is started where there is a runtime, its script and a free port,
/// and at that port; else the first that lacks is told.
pub proof fn data_layers_need_three_things(
    node: bool,
    script: bool,
    port: Option<u16>,
    r: Result<u16, String>,
)
    requires
        call_ensures(can_spawn_datalayer, (node, script, port), r),
    ensures
        node && script && port is Some ==> r == Ok::<u16, String>(port->0),
        !node ==> (r matches Err(e) && e@
            == "data layer unavailable: node runtime not found on PATH"@),
        node && !script ==> (r matches Err(e) && e@
            == "data layer unavailable: datalayer/src/server.js not found"@),
        node && script && port is None ==> (r matches Err(e) && e@
            == "no free local port for data layer"@),
{
}

/// What is handed to a data layer is the key, the user and the role, each on a
/// line of its own: no part is lost where none holds a line feed.
pub proof fn sessions_are_handed_on(
    key: &str,
    user: &str,
    admin: bool,
    s: String,
    fresh: &str,
    n: String,
)
    requires
        call_ensures(handoff_text, (key, user, admin), s),
        call_ensures(handoff_name, (fresh,), n),
        forall|i: int|
            0 <= i < key@.len() ==> (#[trigger] key@[i]) != '\n' && key@[i] != '\r',
        forall|i: int|
            0 <= i < user@.len() ==> (#[trigger] user@[i]) != '\n' && user@[i] != '\r',
    ensures
        lines_of(s@) == seq![key@, user@, if admin { "admin"@ } else { "user"@ }],
        n@ == "pyielink-session-"@ + fresh@ + ".env"@,
{
    reveal_strlit("\n");
    assert("\n"@ =~= seq!['\n']);
    reveal_strlit("admin");
    reveal_strlit("user");
    let role = if admin { "admin"@ } else { "user"@ };
    let e = Seq::<char>::empty();
    let c = role + seq!['\n'] + e;
    let b = user@ + seq!['\n'] + c;
    let a = key@ + seq!['\n'] + b;
    assert(s@ =~= a);
    assert forall|i: int| 0 <= i < role.len() implies (#[trigger] role[i]) != '\n' && role[i]
        != '\r' by {
    }
    lines_end_with_line_feeds(key@, b);
    lines_end_with_line_feeds(user@, c);
    lines_end_with_line_feeds(role, e);
    assert(lines_of(a) =~= seq![key@, user@, role]);
}

/// A data layer is looked for in the directory that is named, then beside the
/// program, then in the working directory, always under the same name.
pub proof fn data_layers_are_looked_for(
    named: Option<String>,
    exe_dir: Option<String>,
    cwd: Option<String>,
    r: Vec<String>,
    p: StatePath,
)
    requires
        call_ensures(datalayer_bases, (named, exe_dir, cwd), r),
        call_ensures(datalayer_script, (), p),
    ensures
        p@ == seq!["datalayer"@, "src"@, "server.js"@],
        named matches Some(a) ==> r@.len() > 0 && r@[0]@ == a@,
        named is None ==> (exe_dir matches Some(b) ==> r@.len() > 0 && r@[0]@ == b@),
        cwd matches Some(c) ==> r@.len() > 0 && r@.last()@ == c@,
        named matches Some(a) ==> (exe_dir matches Some(b) ==> r@.len() > 1 && r@[1]@ == b@),
        r@.len() == (if named is Some { 1int } else { 0 }) + (if exe_dir is Some { 1int } else { 0 })
            + (if cwd is Some { 1int } else { 0 }),
{
    let t = texts(r@);
    assert(t.len() == r@.len());
    assert(t == present(owned_opt(named), owned_opt(exe_dir), owned_opt(cwd)));
    if t.len() > 0 {
        assert(t[0] == r@[0]@);
        assert(t.last() == r@.last()@);
    }
    if t.len() > 1 {
        assert(t[1] == r@[1]@);
    }
}

/// The addresses of the host are the one that leads out, first, and those that
/// its name resolves to, each once.
pub proof fn addresses_are_listed_once(
    outbound: Option<PeerIp>,
    resolved: &Vec<PeerIp>,
    r: Vec<PeerIp>,
    ip: PeerIp,
)
    requires
        call_ensures(local_ips, (outbound, resolved), r),
    ensures
        r@.contains(ip) <==> outbound == Some(ip) || resolved@.contains(ip),
        outbound matches Some(o) ==> r@.len() > 0 && r@[0] == o,
        forall|i: int, j: int| 0 <= i < j < r@.len() ==> r@[i] != r@[j],
{
    let first = if outbound is Some { seq![outbound->0] } else { Seq::empty() };
    lemma_all_new(first, resolved@, ip);
    if outbound is Some {
        assert(first[0] == outbound->0);
    }
}

proof fn lemma_all_new(v: Seq<PeerIp>, more: Seq<PeerIp>, ip: PeerIp)
    ensures
        with_all_new(v, more).contains(ip) <==> v.contains(ip) || more.contains(ip),
        v.len() > 0 ==> with_all_new(v, more).len() > 0 && with_all_new(v, more)[0] == v[0],
    decreases more.len(),
{
    if more.len() > 0 {
        let init = more.drop_last();
        lemma_all_new(v, init, ip);
        let w = with_all_new(v, init);
        let x = w.push(more.last());
        if init.contains(ip) {
            assert(more[init.index_of(ip)] == ip);
        }
        if more.contains(ip) && ip != more.last() {
            assert(init[more.index_of(ip)] == ip);
        }
        assert(more[more.len() - 1] == more.last());
        if w.contains(ip) {
            assert(x[w.index_of(ip)] == ip);
        }
        assert(x[w.len() as int] == more.last());
        if x.contains(ip) && ip != more.last() {
            assert(w[x.index_of(ip)] == ip);
        }
    }
}

/// The address leads back to the host itself.
pub open spec fn is_own(ip: PeerIp) -> bool {
    match ip {
        PeerIp::V4(a) => 0x7F00_0000 <= a <= 0x7FFF_FFFF,
        PeerIp::V6(a) => a == 1,
    }
}

/// The address that is shown is the first that does not lead back to the host
/// itself; only where all do is it the first of them.
pub proof fn outer_addresses_are_shown(
    ips: &Vec<PeerIp>,
    r: Option<PeerIp>,
    ip: PeerIp,
    b: bool,
    i: int,
)
    requires
        call_ensures(banner_ip, (ips,), r),
        call_ensures(loopback, (ip,), b),
    ensures
        b <==> is_own(ip),
        ips@.len() == 0 <==> r is None,
        0 <= i < ips@.len() && !is_own(ips@[i]) && (forall|k: int| 0 <= k < i ==> is_own(#[trigger] ips@[k]))
            ==> r == Some(ips@[i]),
        ips@.len() > 0 && (forall|k: int| 0 <= k < ips@.len() ==> is_own(#[trigger] ips@[k])) ==> r
            == Some(ips@[0]),
{
    assert forall|q: PeerIp| #[trigger] is_loopback(q) == is_own(q) by {
    }
    if ips@.len() > 0 && r is Some && !is_loopback(r->0) {
        let n = choose|n: int|
            0 <= n < ips@.len() && ips@[n] == r->0 && forall|j: int|
                0 <= j < n ==> is_loopback(#[trigger] ips@[j]);
        if 0 <= i < n {
            assert(is_loopback(ips@[i]));
        }
        if n < i {
            assert(!is_own(ips@[n]));
        }
        assert(!is_own(ips@[n]));
    }
    if ips@.len() > 0 && r is Some && is_loopback(r->0) && 0 <= i < ips@.len() {
        assert(is_loopback(ips@[i]));
    }
}

// ---------------------------------------------------------------- tokens in their files

/// The token of a user at an address has a file of its own under the tokens; no
/// character of its name leads out of the directory, and plain names stay as
/// they are.
pub proof fn tokens_have_files(user: &str, ip: &str, p: StatePath, s: &str, r: String, i: int)
    requires
        call_ensures(client_token_path, (user, ip), p),
        call_ensures(sanitize, (s,), r),
        0 <= i < s@.len(),
    ensures
        p@.len() == 2,
        p@[0] == "tokens"@,
        !p@[1].contains('/') && !p@[1].contains('\\'),
        (forall|k: int| 0 <= k < user@.len() ==> is_plain(#[trigger] user@[k])) && (forall|k: int|
            0 <= k < ip@.len() ==> is_plain(#[trigger] ip@[k])) ==> p@[1] == user@ + seq!['@']
            + ip@,
        r@.len() == s@.len(),
        r@[i] == s@[i] || r@[i] == '_',
        '0' <= s@[i] <= '9' || 'a' <= s@[i] <= 'z' || 'A' <= s@[i] <= 'Z' || s@[i] == '@' || s@[i]
            == '.' || s@[i] == '-' || s@[i] == '_' ==> r@[i] == s@[i],
        s@[i] == '/' || s@[i] == '\\' || s@[i] == ':' || s@[i] == ' ' ==> r@[i] == '_',
{
    token_file_is_plain(user@, ip@);
    reveal_strlit("@");
    assert("@"@ =~= seq!['@']);
    if (forall|k: int| 0 <= k < user@.len() ==> is_plain(#[trigger] user@[k])) && (forall|k: int|
        0 <= k < ip@.len() ==> is_plain(#[trigger] ip@[k])) {
        assert(sanitized(user@) =~= user@);
        assert(sanitized(ip@) =~= ip@);
    }
}

/// A token that was saved is found again under the same file, with its digest,
/// its user and address and when it was made; each finding notes its time.
pub proof fn saved_tokens_are_found(
    user: &str,
    ip: &str,
    digest: &str,
    saved: u64,
    r: (StatePath, TokenRecord),
    content: &str,
    now: u64,
    f: Option<FoundToken>,
)
    requires
        call_ensures(save_client_token, (user, ip, digest, saved), r),
        call_ensures(load_client_token, (user, ip, content, Some(r.1), now), f),
    ensures
        f is Some,
        f->0.path@ == r.0@,
        f->0.record.token_hash@ == digest@,
        f->0.record.user@ == user@ && f->0.record.ip@ == ip@,
        f->0.record.created_at == saved,
        f->0.record.last_used_at == now,
{
}

/// A file that holds nothing but a digest counts as one that was saved now; any
/// other that is no record holds no token.
pub proof fn bare_digests_are_found(
    user: &str,
    ip: &str,
    content: &str,
    now: u64,
    f: Option<FoundToken>,
    h: Seq<char>,
)
    requires
        call_ensures(load_client_token, (user, ip, content, None::<TokenRecord>, now), f),
        content@ == h + seq!['\n'],
        is_tight(h),
    ensures
        h.len() == 64 && all_hex(h) ==> (f matches Some(t) && t.record.token_hash@ == h
            && t.record.user@ == user@ && t.record.ip@ == ip@ && t.record.created_at == now
            && t.record.last_used_at == now),
        h.len() != 64 || !all_hex(h) ==> f is None,
{
    let e = Seq::<char>::empty();
    let nl = seq!['\n'];
    assert(all_white(nl)) by {
        assert(white('\n'));
    }
    trimming_takes_off_blanks(e, h, nl);
    assert(e + h + nl =~= content@);
}

/// A token is the one whose digest is stored, and no other by its digest.
pub proof fn tokens_are_known_by_their_digest(stored: Option<&str>, token: &str, r: bool)
    requires
        call_ensures(verify_token, (stored, token), r),
    ensures
        stored is None ==> !r,
        stored matches Some(s) ==> (r <==> s@ == hex_text(sha256(encode_utf8(token@)))),
{
}

/// Where a file is written first: beside it, with the extension `tmp` in place
/// of its own.
pub proof fn files_are_written_beside(name: &str, r: String, stem: Seq<char>, ext: Seq<char>)
    requires
        call_ensures(temp_name, (name,), r),
        forall|i: int| 0 <= i < ext.len() ==> (#[trigger] ext[i]) != '.',
    ensures
        name@ == stem + seq!['.'] + ext && stem.len() > 0 ==> r@ == stem + ".tmp"@,
        name@ == seq!['.'] + ext || name@ == ext ==> r@ == name@ + ".tmp"@,
{
    cutting_splits_at_the_last(stem, '.', ext);
    cutting_splits_at_the_last(Seq::empty(), '.', ext);
    assert(Seq::<char>::empty() + seq!['.'] + ext =~= seq!['.'] + ext);
}

/// The program's directory is the one that is named, and else lies under that of
/// the user.
pub proof fn the_programs_directory(
    named: Option<String>,
    profile: Option<String>,
    home: Option<String>,
    p: StatePath,
)
    requires
        call_ensures(pyielink_dir, (named, profile, home), p),
    ensures
        named matches Some(n) ==> (n@.len() > 0 ==> p@ == seq![n@]),
        (named is None || named->0@.len() == 0) ==> p@.len() == 2 && p@[1] == ".pyielink"@,
        (named is None || named->0@.len() == 0) ==> (profile matches Some(u) ==> p@[0] == u@),
        (named is None || named->0@.len() == 0) && profile is None ==> (home matches Some(h) ==> p@[0]
            == h@),
        (named is None || named->0@.len() == 0) && profile is None && home is None ==> p@[0] == "."@,
{
}

/// The files of the host and of the tokens have fixed names.
pub proof fn files_have_fixed_names(s: StatePath, k: StatePath, t: StatePath)
    requires
        call_ensures(state_path, (), s),
        call_ensures(key_path, (), k),
        call_ensures(tokens_dir, (), t),
    ensures
        s@ == seq!["host_state.json"@],
        k@ == seq!["host.key"@],
        t@ == seq!["tokens"@],
{
}

/// The records that could be read are listed, in their order.
pub proof fn readable_records_are_listed(parsed: Vec<Option<TokenRecord>>, r: Vec<TokenRecord>)
    requires
        call_ensures(list_client_tokens, (parsed,), r),
    ensures
        r@.len() <= parsed@.len(),
        forall|i: int|
            0 <= i < r@.len() ==> exists|k: int|
                0 <= k < parsed@.len() && parsed@[k] == Some(#[trigger] r@[i]),
        forall|k: int|
            0 <= k < parsed@.len() ==> (#[trigger] parsed@[k] matches Some(x) ==> r@.contains(x)),
        (forall|k: int| 0 <= k < parsed@.len() ==> #[trigger] parsed@[k] is Some) ==> r@.len()
            == parsed@.len() && forall|k: int| 0 <= k < r@.len() ==> Some(#[trigger] r@[k])
            == parsed@[k],
{
    lemma_kept_records(parsed@);
}

proof fn lemma_kept_records(parsed: Seq<Option<TokenRecord>>)
    ensures
        kept_records(parsed).len() <= parsed.len(),
        forall|i: int|
            0 <= i < kept_records(parsed).len() ==> exists|k: int|
                0 <= k < parsed.len() && parsed[k] == Some(#[trigger] kept_records(parsed)[i]),
        forall|k: int|
            0 <= k < parsed.len() ==> (#[trigger] parsed[k] matches Some(x) ==> kept_records(
                parsed,
            ).contains(x)),
        (forall|k: int| 0 <= k < parsed.len() ==> #[trigger] parsed[k] is Some) ==> kept_records(
            parsed,
        ).len() == parsed.len() && forall|k: int|
            0 <= k < kept_records(parsed).len() ==> Some(#[trigger] kept_records(parsed)[k])
                == parsed[k],
    decreases parsed.len(),
{
    if parsed.len() > 0 {
        let init = parsed.drop_last();
        lemma_kept_records(init);
        let a = kept_records(init);
        let b = kept_records(parsed);
        assert forall|k: int| 0 <= k < init.len() implies #[trigger] init[k] == parsed[k] by {
        }
        assert forall|i: int| 0 <= i < b.len() implies exists|k: int|
            0 <= k < parsed.len() && parsed[k] == Some(#[trigger] b[i]) by {
            if i < a.len() {
                assert(b[i] == a[i]);
                let k = choose|k: int| 0 <= k < init.len() && init[k] == Some(a[i]);
                assert(parsed[k] == Some(b[i]));
            } else {
                assert(parsed[parsed.len() - 1] == Some(b[i]));
            }
        }
        assert forall|k: int| 0 <= k < parsed.len() implies (#[trigger] parsed[k] matches Some(x)
            ==> b.contains(x)) by {
            if parsed[k] is Some {
                let x = parsed[k]->0;
                if k < init.len() {
                    assert(init[k] == parsed[k]);
                    assert(a.contains(x));
                    assert(b[a.index_of(x)] == x);
                } else {
                    assert(b[a.len() as int] == x);
                }
            }
        }
    }
}

/// A session is interactive at a terminal, or where it is said to be.
pub proof fn sessions_are_interactive_at_a_terminal(tty: bool, shell: Option<&str>, r: bool)
    requires
        call_ensures(is_interactive, (tty, shell), r),
    ensures
        tty ==> r,
        !tty ==> (r <==> (shell matches Some(s) && s@ == seq!['1'])),
{
    reveal_strlit("1");
    assert("1"@ =~= seq!['1']);
}

/// A record is made with its token, its user, its address and its moment.
pub proof fn records_are_made(
    user: String,
    ip: String,
    digest: String,
    now: u64,
    r: TokenRecord,
    s: TokenRecord,
    p: &StatePath,
    n: Option<&str>,
)
    requires
        call_ensures(TokenRecord::issued, (user, ip, digest, now), r),
        call_ensures(TokenRecord::new, (user, ip, digest), s),
        call_ensures(StatePath::file_name, (p,), n),
    ensures
        r.user == user && r.ip == ip && r.token_hash == digest && r.created_at == now
            && r.last_used_at == now,
        s.user == user && s.ip == ip && s.token_hash == digest && s.created_at == s.last_used_at,
        p@.len() == 0 <==> n is None,
        n matches Some(x) ==> x@ == p@[p@.len() - 1],
{
}

} // verus!
