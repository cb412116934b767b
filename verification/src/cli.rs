//! The command line: what its words ask for.

use crate::accounts::ROLE_USER;
use crate::client::BOOTSTRAP_PORT;
use crate::creds::has_text;
use crate::text::{
    cat3, cat4, cat5, chars_of, dec, decimal, owned_opt, parse_unsigned, same, text_opt, texts,
    trim, trimmed, unsigned_value,
};
use vstd::prelude::*;
use vstd::string::*;

verus! {

/// The help text.
pub const USAGE: &'static str = "\
usage: pyielink <command> [args...]

commands:
  user@ip                   Connect to host (GUI mode)
  user@ip --repl            Connect to host (REPL terminal mode)
  --repl user@ip            Connect to host (REPL terminal mode)
  enable                  Enable host for connections
  enable --all             Enable host for connections from any IP
  enable --whitelist IP    Allow connections from specific IP
  adduser -m <name>        Create a host user account (prompts for password)
  adduser -m <name> -r <role>  Create account with role user|admin
  whitelist add IP         Add IP to connection whitelist
  whitelist remove IP      Remove IP from connection whitelist
  tunnel start             Start tunnel (cloudflared, requires binary)
  host                     Start the host listener (accept connections on port 4242)
";

// ---------------------------------------------------------------- model

/// What a command line asks for.
pub enum CommandView {
    Version,
    Help,
    /// Nothing was asked for.
    Empty,
    /// A session in the terminal.
    Repl { target: Seq<char> },
    ReplUsage,
    Enable { allow_all: bool, whitelist: Seq<Seq<char>> },
    AddUser { name: Seq<char>, role: Seq<char> },
    AddUserUsage,
    WhitelistAdd { ip: Seq<char> },
    WhitelistRemove { ip: Seq<char> },
    WhitelistUnknown { action: Seq<char> },
    WhitelistUsage,
    TunnelCloudflared,
    TunnelNginx,
    TunnelUnknownType { kind: Seq<char> },
    TunnelUnknown { sub: Seq<char> },
    TunnelUsage,
    Host,
    /// A session with windows.
    Connect { target: Seq<char> },
}

/// The addresses after `--whitelist`, from word `i` on.
pub open spec fn whitelist_from(args: Seq<Seq<char>>, i: int) -> Seq<Seq<char>>
    decreases args.len() - i,
{
    if i < 0 || i >= args.len() {
        Seq::empty()
    } else if args[i] == "--whitelist"@ && i + 1 < args.len() {
        seq![args[i + 1]] + whitelist_from(args, i + 2)
    } else {
        whitelist_from(args, i + 1)
    }
}

/// The name and the role of a new account, from word `i` on, after what stood
/// before.
pub open spec fn account_from(
    args: Seq<Seq<char>>,
    i: int,
    name: Option<Seq<char>>,
    role: Seq<char>,
) -> (Option<Seq<char>>, Seq<char>)
    decreases args.len() - i,
{
    if i < 0 || i >= args.len() {
        (name, role)
    } else if args[i] == "-m"@ || args[i] == "--name"@ {
        if i + 1 < args.len() {
            account_from(args, i + 2, Some(args[i + 1]), role)
        } else {
            account_from(args, i + 1, name, role)
        }
    } else if args[i] == "-r"@ || args[i] == "--role"@ {
        if i + 1 < args.len() {
            account_from(args, i + 2, name, args[i + 1])
        } else {
            account_from(args, i + 1, name, role)
        }
    } else {
        account_from(args, i + 1, if name is None { Some(args[i]) } else { name }, role)
    }
}

/// The first word that is a target for a session in the terminal.
pub open spec fn repl_target(args: Seq<Seq<char>>) -> Option<Seq<char>>
    decreases args.len(),
{
    if args.len() == 0 {
        None
    } else if args[0] != "--repl"@ && args[0].contains('@') {
        Some(args[0])
    } else {
        repl_target(args.drop_first())
    }
}

/// What a command line asks for. Help and version go before everything else,
/// wherever they stand; so does `--repl` before the other commands.
pub open spec fn command_of(args: Seq<Seq<char>>) -> CommandView {
    if args.contains("--version"@) || args.contains("-v"@) {
        CommandView::Version
    } else if args.contains("--help"@) || args.contains("-h"@) {
        CommandView::Help
    } else if args.len() == 0 {
        CommandView::Empty
    } else if args.contains("--repl"@) {
        match repl_target(args) {
            Some(target) => CommandView::Repl { target },
            None => CommandView::ReplUsage,
        }
    } else if args[0] == "enable"@ {
        CommandView::Enable {
            allow_all: args.contains("--all"@),
            whitelist: whitelist_from(args, 1),
        }
    } else if args[0] == "adduser"@ {
        let (name, role) = account_from(args, 1, None, "user"@);
        match name {
            Some(name) => CommandView::AddUser { name, role },
            None => CommandView::AddUserUsage,
        }
    } else if args[0] == "whitelist"@ {
        if args.len() < 3 {
            CommandView::WhitelistUsage
        } else if args[1] == "add"@ {
            CommandView::WhitelistAdd { ip: args[2] }
        } else if args[1] == "remove"@ {
            CommandView::WhitelistRemove { ip: args[2] }
        } else {
            CommandView::WhitelistUnknown { action: args[1] }
        }
    } else if args[0] == "tunnel"@ {
        if args.len() < 2 {
            CommandView::TunnelUsage
        } else if args[1] != "start"@ {
            CommandView::TunnelUnknown { sub: args[1] }
        } else if args.len() == 2 || args[2] == "cloudflared"@ {
            CommandView::TunnelCloudflared
        } else if args[2] == "nginx"@ {
            CommandView::TunnelNginx
        } else {
            CommandView::TunnelUnknownType { kind: args[2] }
        }
    } else if args[0] == "host"@ {
        CommandView::Host
    } else {
        CommandView::Connect { target: args[0] }
    }
}

// ---------------------------------------------------------------- execution

/// What a command line asks for.
pub enum CliCommand {
    Version,
    Help,
    Empty,
    Repl { target: String },
    ReplUsage,
    Enable { allow_all: bool, whitelist: Vec<String> },
    AddUser { name: String, role: String },
    AddUserUsage,
    WhitelistAdd { ip: String },
    WhitelistRemove { ip: String },
    WhitelistUnknown { action: String },
    WhitelistUsage,
    TunnelCloudflared,
    TunnelNginx,
    TunnelUnknownType { kind: String },
    TunnelUnknown { sub: String },
    TunnelUsage,
    Host,
    Connect { target: String },
}

impl View for CliCommand {
    type V = CommandView;

    open spec fn view(&self) -> CommandView {
        match self {
            CliCommand::Version => CommandView::Version,
            CliCommand::Help => CommandView::Help,
            CliCommand::Empty => CommandView::Empty,
            CliCommand::Repl { target } => CommandView::Repl { target: target@ },
            CliCommand::ReplUsage => CommandView::ReplUsage,
            CliCommand::Enable { allow_all, whitelist } => CommandView::Enable {
                allow_all: *allow_all,
                whitelist: texts(whitelist@),
            },
            CliCommand::AddUser { name, role } => CommandView::AddUser { name: name@, role: role@ },
            CliCommand::AddUserUsage => CommandView::AddUserUsage,
            CliCommand::WhitelistAdd { ip } => CommandView::WhitelistAdd { ip: ip@ },
            CliCommand::WhitelistRemove { ip } => CommandView::WhitelistRemove { ip: ip@ },
            CliCommand::WhitelistUnknown { action } => CommandView::WhitelistUnknown {
                action: action@,
            },
            CliCommand::WhitelistUsage => CommandView::WhitelistUsage,
            CliCommand::TunnelCloudflared => CommandView::TunnelCloudflared,
            CliCommand::TunnelNginx => CommandView::TunnelNginx,
            CliCommand::TunnelUnknownType { kind } => CommandView::TunnelUnknownType {
                kind: kind@,
            },
            CliCommand::TunnelUnknown { sub } => CommandView::TunnelUnknown { sub: sub@ },
            CliCommand::TunnelUsage => CommandView::TunnelUsage,
            CliCommand::Host => CommandView::Host,
            CliCommand::Connect { target } => CommandView::Connect { target: target@ },
        }
    }
}

fn find_whitelist(args: &Vec<String>) -> (r: Vec<String>)
    requires
        args@.len() >= 1,
    ensures
        texts(r@) == whitelist_from(texts(args@), 1),
{
    let ghost all = texts(args@);
    let n: usize = args.len();
    let mut r: Vec<String> = Vec::new();
    let mut i: usize = 1;
    assert(texts(r@) + whitelist_from(all, 1) =~= whitelist_from(all, 1));
    while i < n
        invariant
            n == args@.len(),
            1 <= i <= n,
            all == texts(args@),
            texts(r@) + whitelist_from(all, i as int) == whitelist_from(all, 1),
        decreases n - i,
    {
        assert(all[i as int] == args@[i as int]@);
        if same(&args[i], "--whitelist") && n - i > 1 {
            assert(all[i + 1] == args@[i + 1]@);
            let ghost before = texts(r@);
            let ip = args[i + 1].clone();
            let ghost ipv = ip@;
            r.push(ip);
            proof {
                assert(texts(r@) =~= before.push(ipv));
                assert(before + (seq![ipv] + whitelist_from(all, i + 2)) =~= texts(r@)
                    + whitelist_from(all, i + 2));
            }
            i += 2;
        } else {
            i += 1;
        }
    }
    assert(texts(r@) =~= whitelist_from(all, 1));
    r
}

fn find_account(args: &Vec<String>) -> (r: (Option<String>, String))
    requires
        args@.len() >= 1,
    ensures
        (owned_opt(r.0), r.1@) == account_from(texts(args@), 1, None, "user"@),
{
    let ghost all = texts(args@);
    let n: usize = args.len();
    let mut name: Option<String> = None;
    let mut role = String::from_str(ROLE_USER);
    let mut i: usize = 1;
    while i < n
        invariant
            n == args@.len(),
            1 <= i <= n,
            all == texts(args@),
            account_from(all, i as int, owned_opt(name), role@) == account_from(
                all,
                1,
                None,
                "user"@,
            ),
        decreases n - i,
    {
        assert(all[i as int] == args@[i as int]@);
        if same(&args[i], "-m") || same(&args[i], "--name") {
            if n - i > 1 {
                assert(all[i + 1] == args@[i + 1]@);
                name = Some(args[i + 1].clone());
                i += 2;
            } else {
                i += 1;
            }
        } else if same(&args[i], "-r") || same(&args[i], "--role") {
            if n - i > 1 {
                assert(all[i + 1] == args@[i + 1]@);
                role = args[i + 1].clone();
                i += 2;
            } else {
                i += 1;
            }
        } else {
            if name.is_none() {
                name = Some(args[i].clone());
            }
            i += 1;
        }
    }
    (name, role)
}

/// Whether a text holds a character.
pub fn has_char(s: &str, c: char) -> (r: bool)
    ensures
        r == s@.contains(c),
{
    let v = chars_of(s);
    let mut i: usize = 0;
    while i < v.len()
        invariant
            v@ == s@,
            i <= v@.len(),
            forall|k: int| 0 <= k < i ==> #[trigger] v@[k] != c,
        decreases v@.len() - i,
    {
        if v[i] == c {
            assert(v@[i as int] == c);
            return true;
        }
        i += 1;
    }
    false
}

fn find_target(args: &Vec<String>) -> (r: Option<String>)
    ensures
        owned_opt(r) == repl_target(texts(args@)),
{
    let ghost all = texts(args@);
    let mut i: usize = 0;
    assert(all.skip(0) =~= all);
    while i < args.len()
        invariant
            i <= args@.len(),
            all == texts(args@),
            repl_target(all.skip(i as int)) == repl_target(all),
        decreases args@.len() - i,
    {
        proof {
            assert(all.skip(i as int)[0] == args@[i as int]@);
            assert(all.skip(i as int).drop_first() =~= all.skip(i + 1));
        }
        if !same(&args[i], "--repl") && has_char(&args[i], '@') {
            return Some(args[i].clone());
        }
        i += 1;
    }
    None
}

/// What a command line asks for, from the words after the program's name.
pub fn parse_args(args: &Vec<String>) -> (c: CliCommand)
    ensures
        c@ == command_of(texts(args@)),
{
    let ghost all = texts(args@);
    if has_text(args, "--version") || has_text(args, "-v") {
        return CliCommand::Version;
    }
    if has_text(args, "--help") || has_text(args, "-h") {
        return CliCommand::Help;
    }
    if args.len() == 0 {
        return CliCommand::Empty;
    }
    if has_text(args, "--repl") {
        return match find_target(args) {
            Some(target) => CliCommand::Repl { target },
            None => CliCommand::ReplUsage,
        };
    }
    proof {
        lemma_commands();
        assert forall|i: int| 0 <= i < args@.len() implies all[i] == (#[trigger] args@[i])@ by {
        }
    }
    let command = args[0].as_str();
    assert(all[0] == args@[0]@);
    if same(command, "enable") {
        CliCommand::Enable {
            allow_all: has_text(args, "--all"),
            whitelist: find_whitelist(args),
        }
    } else if same(command, "adduser") {
        match find_account(args) {
            (Some(name), role) => CliCommand::AddUser { name, role },
            (None, _) => CliCommand::AddUserUsage,
        }
    } else if same(command, "whitelist") {
        if args.len() < 3 {
            CliCommand::WhitelistUsage
        } else if same(&args[1], "add") {
            CliCommand::WhitelistAdd { ip: args[2].clone() }
        } else if same(&args[1], "remove") {
            CliCommand::WhitelistRemove { ip: args[2].clone() }
        } else {
            CliCommand::WhitelistUnknown { action: args[1].clone() }
        }
    } else if same(command, "tunnel") {
        if args.len() < 2 {
            CliCommand::TunnelUsage
        } else if !same(&args[1], "start") {
            CliCommand::TunnelUnknown { sub: args[1].clone() }
        } else if args.len() == 2 || same(&args[2], "cloudflared") {
            CliCommand::TunnelCloudflared
        } else if same(&args[2], "nginx") {
            CliCommand::TunnelNginx
        } else {
            CliCommand::TunnelUnknownType { kind: args[2].clone() }
        }
    } else if same(command, "host") {
        CliCommand::Host
    } else {
        CliCommand::Connect { target: args[0].clone() }
    }
}

proof fn lemma_commands()
    ensures
        "add"@ != "remove"@,
{
    reveal_strlit("add");
    reveal_strlit("remove");
    assert("add"@.len() == 3);
    assert("remove"@.len() == 6);
}

/// Asking for help is always answered, whatever else stands on the line, unless
/// the version is asked for.
pub proof fn help_goes_first(args: Seq<Seq<char>>)
    ensures
        args.contains("--version"@) || args.contains("-v"@) ==> command_of(args)
            == CommandView::Version,
        (args.contains("--help"@) || args.contains("-h"@)) && !args.contains("--version"@)
            && !args.contains("-v"@) ==> command_of(args) == CommandView::Help,
{
}

// ---------------------------------------------------------------- slash commands and the launcher

/// What a line of slash commands asks for.
pub enum SlashView {
    Launcher,
    Help,
    Version,
    Connect { target: Seq<char> },
    Enable { port: u16 },
    AddUser { name: Seq<char> },
    Fail { reason: Seq<char> },
}

/// The port in a word, or the default where there is no word.
pub open spec fn port_in(word: Option<Seq<char>>) -> Result<u16, Seq<char>> {
    match word {
        None => Ok(BOOTSTRAP_PORT),
        Some(p) => match unsigned_value(p, u16::MAX as nat) {
            Some(n) => Ok(n as u16),
            None => Err("invalid port '"@ + p + "'"@),
        },
    }
}

/// The help text of the slash commands.
pub open spec fn slash_usage(version: Seq<char>) -> Seq<char> {
    "pyielink v"@ + version
        + " — emtypyie remote access framework\n\nUSAGE:\n  pyielink                     interactive launcher\n  pyielink <user>@<ip>         connect to a remote host\n  pyielink /enable [--port N]  open this device for connections (default port "@
        + decimal(BOOTSTRAP_PORT as nat)
        + ")\n  pyielink /adduser -m <name>  create a local user account (masked password prompt)\n  pyielink -h | --help         this help\n  pyielink -v | --version      version"@
}

/// The help text of the slash commands.
pub fn usage(version: &str) -> (s: String)
    ensures
        s@ == slash_usage(version@),
{
    let p = dec(BOOTSTRAP_PORT as u128);
    cat5(
        "pyielink v",
        version,
        " — emtypyie remote access framework\n\nUSAGE:\n  pyielink                     interactive launcher\n  pyielink <user>@<ip>         connect to a remote host\n  pyielink /enable [--port N]  open this device for connections (default port ",
        &p,
        ")\n  pyielink /adduser -m <name>  create a local user account (masked password prompt)\n  pyielink -h | --help         this help\n  pyielink -v | --version      version",
    )
}

/// What a line of slash commands asks for.
pub open spec fn slash_of(args: Seq<Seq<char>>, version: Seq<char>) -> SlashView {
    if args.len() == 0 {
        SlashView::Launcher
    } else if args[0] == "-h"@ || args[0] == "--help"@ || args[0] == "/help"@ {
        SlashView::Help
    } else if args[0] == "-v"@ || args[0] == "--version"@ {
        SlashView::Version
    } else if args[0].contains('@') {
        SlashView::Connect { target: args[0] }
    } else if args[0] == "/enable"@ {
        match port_in(if args.len() > 2 { Some(args[2]) } else { None }) {
            Ok(port) => SlashView::Enable { port },
            Err(reason) => SlashView::Fail { reason },
        }
    } else if args[0] == "/adduser"@ {
        if args.len() > 2 && args[1] == "-m"@ {
            SlashView::AddUser { name: args[2] }
        } else {
            SlashView::Fail { reason: "usage: pyielink /adduser -m <username>"@ }
        }
    } else {
        SlashView::Fail {
            reason: "unknown command '"@ + args[0] + "'\n"@ + slash_usage(version),
        }
    }
}

/// What a line of slash commands asks for.
pub enum SlashCommand {
    Launcher,
    Help,
    Version,
    Connect { target: String },
    Enable { port: u16 },
    AddUser { name: String },
    Fail { reason: String },
}

impl View for SlashCommand {
    type V = SlashView;

    open spec fn view(&self) -> SlashView {
        match self {
            SlashCommand::Launcher => SlashView::Launcher,
            SlashCommand::Help => SlashView::Help,
            SlashCommand::Version => SlashView::Version,
            SlashCommand::Connect { target } => SlashView::Connect { target: target@ },
            SlashCommand::Enable { port } => SlashView::Enable { port: *port },
            SlashCommand::AddUser { name } => SlashView::AddUser { name: name@ },
            SlashCommand::Fail { reason } => SlashView::Fail { reason: reason@ },
        }
    }
}

/// The port in a word, or the default where there is no word.
pub fn parse_port(arg: Option<&str>) -> (r: Result<u16, String>)
    ensures
        match port_in(text_opt(arg)) {
            Ok(p) => r == Ok::<u16, String>(p),
            Err(e) => r is Err && r->Err_0@ == e,
        },
{
    match arg {
        None => Ok(BOOTSTRAP_PORT),
        Some(p) => match parse_unsigned(p, u16::MAX as u128) {
            Some(n) => Ok(n as u16),
            None => Err(cat3("invalid port '", p, "'")),
        },
    }
}

/// What a line of slash commands asks for, from the words after the program's
/// name.
pub fn run(args: &Vec<String>, version: &str) -> (c: SlashCommand)
    ensures
        c@ == slash_of(texts(args@), version@),
{
    let ghost all = texts(args@);
    if args.len() == 0 {
        return SlashCommand::Launcher;
    }
    proof {
        assert forall|i: int| 0 <= i < args@.len() implies all[i] == (#[trigger] args@[i])@ by {
        }
    }
    let first = args[0].as_str();
    assert(all[0] == args@[0]@);
    if same(first, "-h") || same(first, "--help") || same(first, "/help") {
        SlashCommand::Help
    } else if same(first, "-v") || same(first, "--version") {
        SlashCommand::Version
    } else if has_char(first, '@') {
        SlashCommand::Connect { target: args[0].clone() }
    } else if same(first, "/enable") {
        let word = if args.len() > 2 { Some(args[2].as_str()) } else { None };
        match parse_port(word) {
            Ok(port) => SlashCommand::Enable { port },
            Err(reason) => SlashCommand::Fail { reason },
        }
    } else if same(first, "/adduser") {
        if args.len() > 2 && same(&args[1], "-m") {
            SlashCommand::AddUser { name: args[2].clone() }
        } else {
            SlashCommand::Fail { reason: String::from_str("usage: pyielink /adduser -m <username>") }
        }
    } else {
        let u = usage(version);
        SlashCommand::Fail { reason: cat4("unknown command '", first, "'\n", &u) }
    }
}

/// What a line typed at the launcher chooses.
#[derive(Clone, Copy, Debug, PartialEq, Eq, Structural)]
pub enum Choice {
    Exit,
    Connect,
    Enable,
    AddUser,
    Unknown,
}

/// What a line typed at the launcher chooses.
pub fn launcher(line: &str) -> (c: Choice)
    ensures
        c == ({
            let w = trimmed(line@);
            if w == "0"@ || w == ""@ {
                Choice::Exit
            } else if w == "1"@ {
                Choice::Connect
            } else if w == "2"@ {
                Choice::Enable
            } else if w == "3"@ {
                Choice::AddUser
            } else {
                Choice::Unknown
            }
        }),
{
    let w = trim(line);
    if same(&w, "0") || same(&w, "") {
        Choice::Exit
    } else if same(&w, "1") {
        Choice::Connect
    } else if same(&w, "2") {
        Choice::Enable
    } else if same(&w, "3") {
        Choice::AddUser
    } else {
        Choice::Unknown
    }
}

} // verus!
