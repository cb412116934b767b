//! The command line: which arguments ask for what.

use crate::cli::{
    Choice, CliCommand, CommandView, SlashCommand, SlashView, account_from, launcher, parse_args,
    repl_target, run, whitelist_from,
};
use crate::laws::text::{all_white, is_tight, trimming_takes_off_blanks};
use crate::text::{decimal, is_digit, lemma_decimal, texts};
use vstd::prelude::*;
use vstd::string::*;

verus! {

/// None of the arguments asks for help, the version or a terminal session.
pub open spec fn no_flags(args: Seq<Seq<char>>) -> bool {
    !args.contains("--version"@) && !args.contains("-v"@) && !args.contains("--help"@)
        && !args.contains("-h"@) && !args.contains("--repl"@)
}

proof fn lemma_first_words()
    ensures
        "enable"@ != "adduser"@,
        "enable"@ != "whitelist"@,
        "enable"@ != "tunnel"@,
        "enable"@ != "host"@,
        "adduser"@ != "whitelist"@,
        "adduser"@ != "tunnel"@,
        "adduser"@ != "host"@,
        "whitelist"@ != "tunnel"@,
        "whitelist"@ != "host"@,
        "tunnel"@ != "host"@,
        "add"@ != "remove"@,
        "nginx"@ != "cloudflared"@,
        "-m"@ != "-r"@,
        "-m"@ != "--role"@,
        "--name"@ != "-r"@,
        "--name"@ != "--role"@,
{
    reveal_strlit("enable");
    reveal_strlit("adduser");
    reveal_strlit("whitelist");
    reveal_strlit("tunnel");
    reveal_strlit("host");
    reveal_strlit("add");
    reveal_strlit("remove");
    reveal_strlit("nginx");
    reveal_strlit("cloudflared");
    reveal_strlit("-m");
    reveal_strlit("-r");
    reveal_strlit("--name");
    reveal_strlit("--role");
    assert("enable"@.len() == 6 && "adduser"@.len() == 7 && "whitelist"@.len() == 9
        && "tunnel"@.len() == 6 && "host"@.len() == 4 && "add"@.len() == 3 && "remove"@.len() == 6
        && "nginx"@.len() == 5 && "cloudflared"@.len() == 11);
    assert("enable"@[0] == 'e' && "tunnel"@[0] == 't');
    assert("-m"@[1] == 'm' && "-r"@[1] == 'r' && "-m"@.len() == 2 && "-r"@.len() == 2);
    assert("--name"@[2] == 'n' && "--role"@[2] == 'r' && "--name"@.len() == 6 && "--role"@.len()
        == 6);
}

/// The version goes before help, and both before everything else, wherever they
/// stand.
pub proof fn versions_and_help_go_first(args: &Vec<String>, c: CliCommand, a: Seq<Seq<char>>)
    requires
        call_ensures(parse_args, (args,), c),
        a == texts(args@),
    ensures
        a.contains("--version"@) || a.contains("-v"@) ==> c is Version,
        !a.contains("--version"@) && !a.contains("-v"@) && (a.contains("--help"@) || a.contains(
            "-h"@,
        )) ==> c is Help,
        a.len() == 0 ==> c is Empty,
{
}

/// A session in the terminal goes to the first target that is named, before or
/// behind the flag.
pub proof fn terminal_sessions_have_a_target(
    args: &Vec<String>,
    c: CliCommand,
    a: Seq<Seq<char>>,
    i: int,
)
    requires
        call_ensures(parse_args, (args,), c),
        a == texts(args@),
        a.contains("--repl"@),
        !a.contains("--version"@) && !a.contains("-v"@) && !a.contains("--help"@) && !a.contains(
            "-h"@,
        ),
    ensures
        0 <= i < a.len() && a[i].contains('@') && a[i] != "--repl"@ && (forall|k: int|
            0 <= k < i ==> !(#[trigger] a[k]).contains('@')) ==> c@ == (CommandView::Repl {
            target: a[i],
        }),
        (forall|k: int| 0 <= k < a.len() ==> !(#[trigger] a[k]).contains('@')) ==> c is ReplUsage,
{
    lemma_repl_target(a, i);
}

proof fn lemma_repl_target(a: Seq<Seq<char>>, i: int)
    ensures
        0 <= i < a.len() && a[i].contains('@') && a[i] != "--repl"@ && (forall|k: int|
            0 <= k < i ==> !(#[trigger] a[k]).contains('@')) ==> repl_target(a) == Some(a[i]),
        (forall|k: int| 0 <= k < a.len() ==> !(#[trigger] a[k]).contains('@')) ==> repl_target(a)
            is None,
    decreases a.len(),
{
    if a.len() > 0 {
        let b = a.drop_first();
        assert forall|k: int| 0 <= k < b.len() implies #[trigger] b[k] == a[k + 1] by {
        }
        lemma_repl_target(b, i - 1);
        if i > 0 && i < a.len() {
            assert(b[i - 1] == a[i]);
        }
    }
}

/// The first word says which command it is; a target is connected to.
pub proof fn first_words_are_commands(args: &Vec<String>, c: CliCommand, a: Seq<Seq<char>>)
    requires
        call_ensures(parse_args, (args,), c),
        a == texts(args@),
        a.len() > 0,
        no_flags(a),
    ensures
        a[0] == "host"@ ==> c is Host,
        a[0] == "enable"@ ==> c is Enable && c->allow_all == a.contains("--all"@),
        a[0] == "enable"@ && a.len() == 1 ==> c@->Enable_whitelist.len() == 0,
        a[0] == "enable"@ && a.len() == 3 && a[1] == "--whitelist"@ ==> c@->Enable_whitelist
            == seq![a[2]],
        a[0] == "enable"@ && a.len() == 5 && a[1] == "--whitelist"@ && a[3] == "--whitelist"@
            ==> c@->Enable_whitelist == seq![a[2], a[4]],
        a[0] == "adduser"@ && a.len() == 1 ==> c is AddUserUsage,
        a[0] == "adduser"@ && a.len() == 3 && a[1] == "-m"@ ==> c@ == (CommandView::AddUser {
            name: a[2],
            role: "user"@,
        }),
        a[0] == "adduser"@ && a.len() == 5 && a[1] == "-m"@ && a[3] == "-r"@ ==> c@ == (
        CommandView::AddUser { name: a[2], role: a[4] }),
        a[0] == "adduser"@ && a.len() == 5 && a[1] == "-r"@ && a[3] == "-m"@ ==> c@ == (
        CommandView::AddUser { name: a[4], role: a[2] }),
        a[0] == "adduser"@ && a.len() == 2 && a[1] != "-m"@ && a[1] != "--name"@ && a[1] != "-r"@
            && a[1] != "--role"@ ==> c@ == (CommandView::AddUser { name: a[1], role: "user"@ }),
        a[0] == "whitelist"@ && a.len() < 3 ==> c is WhitelistUsage,
        a[0] == "whitelist"@ && a.len() >= 3 && a[1] == "add"@ ==> c@ == (
        CommandView::WhitelistAdd { ip: a[2] }),
        a[0] == "whitelist"@ && a.len() >= 3 && a[1] == "remove"@ ==> c@ == (
        CommandView::WhitelistRemove { ip: a[2] }),
        a[0] == "whitelist"@ && a.len() >= 3 && a[1] != "add"@ && a[1] != "remove"@ ==> c@ == (
        CommandView::WhitelistUnknown { action: a[1] }),
        a[0] == "tunnel"@ && a.len() == 1 ==> c is TunnelUsage,
        a[0] == "tunnel"@ && a.len() >= 2 && a[1] != "start"@ ==> c@ == (
        CommandView::TunnelUnknown { sub: a[1] }),
        a[0] == "tunnel"@ && a.len() == 2 && a[1] == "start"@ ==> c is TunnelCloudflared,
        a[0] == "tunnel"@ && a.len() >= 3 && a[1] == "start"@ && a[2] == "cloudflared"@
            ==> c is TunnelCloudflared,
        a[0] == "tunnel"@ && a.len() >= 3 && a[1] == "start"@ && a[2] == "nginx"@
            ==> c is TunnelNginx,
        a[0] == "tunnel"@ && a.len() >= 3 && a[1] == "start"@ && a[2] != "nginx"@ && a[2]
            != "cloudflared"@ ==> c@ == (CommandView::TunnelUnknownType { kind: a[2] }),
        a[0].contains('@') ==> c@ == (CommandView::Connect { target: a[0] }),
{
    lemma_first_words();
    reveal_with_fuel(whitelist_from, 4);
    reveal_with_fuel(account_from, 4);
    lemma_no_at();
    let e = Seq::<Seq<char>>::empty();
    if a[0] == "enable"@ {
        if a.len() == 3 && a[1] == "--whitelist"@ {
            assert(whitelist_from(a, 1) =~= seq![a[2]]);
        }
        if a.len() == 5 && a[1] == "--whitelist"@ && a[3] == "--whitelist"@ {
            assert(whitelist_from(a, 3) =~= seq![a[4]]);
            assert(whitelist_from(a, 1) =~= seq![a[2], a[4]]);
        }
    }
}

proof fn lemma_no_at()
    ensures
        !"enable"@.contains('@'),
        !"adduser"@.contains('@'),
        !"whitelist"@.contains('@'),
        !"tunnel"@.contains('@'),
        !"host"@.contains('@'),
{
    reveal_strlit("enable");
    reveal_strlit("adduser");
    reveal_strlit("whitelist");
    reveal_strlit("tunnel");
    reveal_strlit("host");
}

/// The older command line: help and version are asked for by the first word, a
/// target is connected to, a port is a number that a port can be.
pub proof fn slash_commands_are_read(
    args: &Vec<String>,
    version: &str,
    c: SlashCommand,
    a: Seq<Seq<char>>,
    n: nat,
)
    requires
        call_ensures(run, (args, version), c),
        a == texts(args@),
    ensures
        a.len() == 0 ==> c is Launcher,
        a.len() > 0 && (a[0] == "-h"@ || a[0] == "--help"@ || a[0] == "/help"@) ==> c is Help,
        a.len() > 0 && (a[0] == "-v"@ || a[0] == "--version"@) ==> c is Version,
        a.len() > 0 && a[0].contains('@') ==> c@ == (SlashView::Connect { target: a[0] }),
        a.len() > 0 && a.len() <= 2 && a[0] == "/enable"@ ==> c@ == (SlashView::Enable {
            port: 4242,
        }),
        a.len() > 2 && a[0] == "/enable"@ && a[2] == decimal(n) && n < 65536 ==> c@ == (
        SlashView::Enable { port: n as u16 }),
        a.len() > 2 && a[0] == "/enable"@ && a[2] == decimal(n) && n >= 65536 ==> c@ == (
        SlashView::Fail { reason: "invalid port '"@ + a[2] + "'"@ }),
        a.len() > 2 && a[0] == "/adduser"@ && a[1] == "-m"@ ==> c@ == (SlashView::AddUser {
            name: a[2],
        }),
        a.len() > 0 && a[0] == "/adduser"@ && (a.len() <= 2 || a[1] != "-m"@) ==> c@ == (
        SlashView::Fail { reason: "usage: pyielink /adduser -m <username>"@ }),
{
    lemma_slash_words();
    lemma_decimal(n);
    assert(is_digit(decimal(n)[0]));
}

proof fn lemma_slash_words()
    ensures
        "/enable"@ != "/adduser"@,
        forall|s: Seq<char>|
            (s == "-h"@ || s == "--help"@ || s == "/help"@ || s == "-v"@ || s == "--version"@ || s
                == "/enable"@ || s == "/adduser"@) ==> !(#[trigger] s.contains('@')),
        "/enable"@ != "-h"@ && "/enable"@ != "--help"@ && "/enable"@ != "/help"@ && "/enable"@
            != "-v"@ && "/enable"@ != "--version"@,
        "/adduser"@ != "-h"@ && "/adduser"@ != "--help"@ && "/adduser"@ != "/help"@ && "/adduser"@
            != "-v"@ && "/adduser"@ != "--version"@,
        "-v"@ != "-h"@ && "-v"@ != "--help"@ && "-v"@ != "/help"@,
        "--version"@ != "-h"@ && "--version"@ != "--help"@ && "--version"@ != "/help"@,
{
    reveal_strlit("-h");
    reveal_strlit("--help");
    reveal_strlit("/help");
    reveal_strlit("-v");
    reveal_strlit("--version");
    reveal_strlit("/enable");
    reveal_strlit("/adduser");
    assert("-h"@.len() == 2 && "--help"@.len() == 6 && "/help"@.len() == 5 && "-v"@.len() == 2
        && "--version"@.len() == 9 && "/enable"@.len() == 7 && "/adduser"@.len() == 8);
    assert("-h"@[1] == 'h' && "-v"@[1] == 'v');
}

/// The number of a choice, with blanks round it or not.
pub proof fn choices_are_numbered(line: &str, c: Choice, a: Seq<char>, w: Seq<char>, b: Seq<char>)
    requires
        call_ensures(launcher, (line,), c),
        line@ == a + w + b,
        all_white(a),
        all_white(b),
        is_tight(w),
        w.len() > 0,
    ensures
        w == seq!['0'] ==> c == Choice::Exit,
        w == seq!['1'] ==> c == Choice::Connect,
        w == seq!['2'] ==> c == Choice::Enable,
        w == seq!['3'] ==> c == Choice::AddUser,
        w != seq!['0'] && w != seq!['1'] && w != seq!['2'] && w != seq!['3'] ==> c
            == Choice::Unknown,
{
    trimming_takes_off_blanks(a, w, b);
    reveal_strlit("0");
    reveal_strlit("1");
    reveal_strlit("2");
    reveal_strlit("3");
    reveal_strlit("");
    assert("0"@ =~= seq!['0']);
    assert("1"@ =~= seq!['1']);
    assert("2"@ =~= seq!['2']);
    assert("3"@ =~= seq!['3']);
    assert("0"@[0] == '0' && "1"@[0] == '1' && "2"@[0] == '2' && "3"@[0] == '3');
    assert(""@.len() == 0);
}

/// Addresses, each behind its flag.
pub open spec fn flagged(ips: Seq<Seq<char>>) -> Seq<Seq<char>>
    decreases ips.len(),
{
    if ips.len() == 0 {
        Seq::empty()
    } else {
        seq!["--whitelist"@, ips[0]] + flagged(ips.drop_first())
    }
}

/// Every address that stands behind its flag is taken, in their order, however
/// many there are.
pub proof fn flagged_addresses_are_taken(args: &Vec<String>, c: CliCommand, ips: Seq<Seq<char>>)
    requires
        call_ensures(parse_args, (args,), c),
        texts(args@) == seq!["enable"@] + flagged(ips),
        no_flags(texts(args@)),
    ensures
        c is Enable,
        c@->Enable_whitelist == ips,
{
    let a = texts(args@);
    assert(a[0] == "enable"@);
    lemma_flagged(seq!["enable"@], ips);
}

proof fn lemma_flagged(p: Seq<Seq<char>>, ips: Seq<Seq<char>>)
    requires
        p.len() >= 1,
    ensures
        whitelist_from(p + flagged(ips), p.len() as int) == ips,
    decreases ips.len(),
{
    let a = p + flagged(ips);
    if ips.len() == 0 {
        assert(whitelist_from(a, p.len() as int) =~= ips);
    } else {
        let q = p + seq!["--whitelist"@, ips[0]];
        lemma_flagged(q, ips.drop_first());
        assert(a =~= q + flagged(ips.drop_first()));
        assert(a[p.len() as int] == "--whitelist"@);
        assert(a[p.len() + 1int] == ips[0]);
        assert(whitelist_from(a, p.len() as int) == seq![ips[0]] + whitelist_from(
            a,
            p.len() + 2int,
        ));
        assert(seq![ips[0]] + ips.drop_first() =~= ips);
    }
}

/// The name and the role of an account are told by their flags, short or long,
/// in either order; a name may also stand alone.
pub proof fn accounts_are_told_by_flags(
    args: &Vec<String>,
    c: CliCommand,
    a: Seq<Seq<char>>,
    name: Seq<char>,
    role: Seq<char>,
)
    requires
        call_ensures(parse_args, (args,), c),
        a == texts(args@),
        no_flags(a),
        name != "-m"@ && name != "--name"@ && name != "-r"@ && name != "--role"@,
        a.len() > 0 && a[0] == "adduser"@,
    ensures
        a == seq!["adduser"@, "--name"@, name] ==> c@ == (CommandView::AddUser {
            name,
            role: "user"@,
        }),
        a == seq!["adduser"@, "--name"@, name, "--role"@, role] ==> c@ == (CommandView::AddUser {
            name,
            role,
        }),
        a == seq!["adduser"@, name, "-r"@, role] || a == seq!["adduser"@, "-r"@, role, name] ==> c@
            == (CommandView::AddUser { name, role }),
        a == seq!["adduser"@, "-r"@, role] ==> c is AddUserUsage,
{
    lemma_first_words();
    lemma_flag_names();
    reveal_with_fuel(account_from, 6);
}

proof fn lemma_flag_names()
    ensures
        "--name"@ != "-m"@,
        "--role"@ != "-r"@,
        "--role"@ != "-m"@,
        "--name"@ != "-r"@,
{
    reveal_strlit("-m");
    reveal_strlit("-r");
    reveal_strlit("--name");
    reveal_strlit("--role");
    assert("-m"@.len() == 2 && "-r"@.len() == 2 && "--name"@.len() == 6 && "--role"@.len() == 6);
}

} // verus!
