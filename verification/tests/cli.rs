use pyielink::cli::{launcher, parse_args, parse_port, run, usage, Choice, CliCommand, SlashCommand, USAGE};
use pyielink::text::{dec, parse_unsigned, split_words, trim};
use pyielink::tunnel::{
    cloudflare_url, env_port, ngrok_url, nginx_line, tcp_address, tunnel_note, TunnelManager,
    TunnelType,
};

fn args(words: &[&str]) -> Vec<String> {
    words.iter().map(|w| w.to_string()).collect()
}

fn parse(words: &[&str]) -> CliCommand {
    parse_args(&args(words))
}

#[test]
fn commands() {
    assert!(matches!(parse(&["host", "-v"]), CliCommand::Version));
    assert!(matches!(parse(&["enable", "--help"]), CliCommand::Help));
    assert!(matches!(parse(&["--version", "--help"]), CliCommand::Version));
    assert!(matches!(parse(&[]), CliCommand::Empty));
    assert!(matches!(parse(&["--repl", "b@h"]), CliCommand::Repl { target } if target == "b@h"));
    assert!(matches!(parse(&["x", "b@h", "--repl"]), CliCommand::Repl { target } if target == "b@h"));
    assert!(matches!(parse(&["--repl", "host"]), CliCommand::ReplUsage));
    assert!(matches!(parse(&["host"]), CliCommand::Host));
    assert!(matches!(parse(&["b@h"]), CliCommand::Connect { target } if target == "b@h"));
    assert!(USAGE.starts_with("usage: pyielink <command> [args...]\n\ncommands:\n  user@ip "));
}

#[test]
fn enable_command() {
    match parse(&["enable", "--whitelist", "1.1.1.1", "--all", "--whitelist", "2.2.2.2", "--whitelist"]) {
        CliCommand::Enable { allow_all, whitelist } => {
            assert!(allow_all);
            assert_eq!(whitelist, ["1.1.1.1", "2.2.2.2"]);
        }
        _ => panic!("enable was asked for"),
    }
    assert!(matches!(parse(&["enable"]), CliCommand::Enable { allow_all: false, whitelist } if whitelist.is_empty()));
}

#[test]
fn adduser_command() {
    let ask = |words: &[&str]| match parse(words) {
        CliCommand::AddUser { name, role } => Some((name, role)),
        CliCommand::AddUserUsage => None,
        _ => panic!("an account was asked for"),
    };
    let pair = |a: &str, b: &str| Some((a.to_string(), b.to_string()));
    assert_eq!(ask(&["adduser", "-m", "bob"]), pair("bob", "user"));
    assert_eq!(ask(&["adduser", "--name", "bob", "--role", "admin"]), pair("bob", "admin"));
    assert_eq!(ask(&["adduser", "eve", "bob", "-r", "admin"]), pair("eve", "admin"));
    assert_eq!(ask(&["adduser", "eve", "-m", "bob"]), pair("bob", "user"));
    assert_eq!(ask(&["adduser", "-m"]), None);
    assert_eq!(ask(&["adduser"]), None);
}

#[test]
fn whitelist_and_tunnel_commands() {
    assert!(matches!(parse(&["whitelist", "add", "1"]), CliCommand::WhitelistAdd { ip } if ip == "1"));
    assert!(matches!(parse(&["whitelist", "remove", "1"]), CliCommand::WhitelistRemove { ip } if ip == "1"));
    assert!(matches!(parse(&["whitelist", "drop", "1"]), CliCommand::WhitelistUnknown { action } if action == "drop"));
    assert!(matches!(parse(&["whitelist", "add"]), CliCommand::WhitelistUsage));
    assert!(matches!(parse(&["tunnel"]), CliCommand::TunnelUsage));
    assert!(matches!(parse(&["tunnel", "start"]), CliCommand::TunnelCloudflared));
    assert!(matches!(parse(&["tunnel", "start", "cloudflared"]), CliCommand::TunnelCloudflared));
    assert!(matches!(parse(&["tunnel", "start", "nginx"]), CliCommand::TunnelNginx));
    assert!(matches!(parse(&["tunnel", "start", "ssh"]), CliCommand::TunnelUnknownType { kind } if kind == "ssh"));
    assert!(matches!(parse(&["tunnel", "stop"]), CliCommand::TunnelUnknown { sub } if sub == "stop"));
}

#[test]
fn slash_commands() {
    let one = |words: &[&str]| run(&args(words), "1.0");
    assert!(matches!(one(&[]), SlashCommand::Launcher));
    assert!(matches!(one(&["/help"]), SlashCommand::Help));
    assert!(matches!(one(&["-v"]), SlashCommand::Version));
    assert!(matches!(one(&["b@h"]), SlashCommand::Connect { target } if target == "b@h"));
    assert!(matches!(one(&["/enable"]), SlashCommand::Enable { port: 4242 }));
    assert!(matches!(one(&["/enable", "--port", "99"]), SlashCommand::Enable { port: 99 }));
    assert!(matches!(one(&["/enable", "--port", "x"]), SlashCommand::Fail { reason } if reason == "invalid port 'x'"));
    assert!(matches!(one(&["/adduser", "-m", "bob"]), SlashCommand::AddUser { name } if name == "bob"));
    assert!(matches!(one(&["/adduser", "bob"]), SlashCommand::Fail { reason }
        if reason == "usage: pyielink /adduser -m <username>"));
    assert!(matches!(one(&["what"]), SlashCommand::Fail { reason }
        if reason == format!("unknown command 'what'\n{}", usage("1.0"))));
    assert!(usage("1.0").contains("(default port 4242)\n  pyielink /adduser"));
    assert_eq!(parse_port(None), Ok(4242));
    assert_eq!(parse_port(Some("65536")), Err("invalid port '65536'".to_string()));
}

#[test]
fn launcher_choices() {
    assert_eq!(launcher("0\n"), Choice::Exit);
    assert_eq!(launcher(" \n"), Choice::Exit);
    assert_eq!(launcher("1"), Choice::Connect);
    assert_eq!(launcher("2"), Choice::Enable);
    assert_eq!(launcher(" 3 "), Choice::AddUser);
    assert_eq!(launcher("4"), Choice::Unknown);
}

#[test]
fn tunnel_rules() {
    let mut t = TunnelManager::new();
    assert!(!t.is_ip_allowed("1.1.1.1"));
    t.add_to_whitelist("1.1.1.1".into());
    t.add_to_whitelist("1.1.1.1".into());
    assert_eq!(t.get_config().whitelist, ["1.1.1.1"]);
    assert!(t.is_ip_allowed("1.1.1.1"));
    t.remove_from_whitelist("1.1.1.1");
    assert!(!t.is_ip_allowed("1.1.1.1"));
    t.set_allow_all(true);
    assert!(t.is_ip_allowed("9.9.9.9"));
    t.set_whitelist(vec!["2.2.2.2".into()]);
    assert_eq!(t.get_tunnel_info().whitelist, ["2.2.2.2"]);
}

#[test]
fn tunnels_run_one_at_a_time() {
    let mut t = TunnelManager::new();
    assert_eq!(t.start_tunnel(TunnelType::Custom, 1).unwrap_err(), "Custom tunnel type not implemented");
    assert_eq!(t.start_tunnel(TunnelType::NoTunnel, 1).unwrap_err(), "No tunnel type specified");
    t.start_tunnel(TunnelType::Ngrok, 9).unwrap();
    t.tunnel_started("https://x".into());
    assert_eq!(t.start_tunnel(TunnelType::Ngrok, 9).unwrap_err(), "Tunnel already running");
    let c = t.get_config();
    assert_eq!((c.enabled, c.local_port, c.public_url.as_deref()), (true, 9, Some("https://x")));
    t.stop_tunnel();
    let c = t.get_config();
    assert_eq!((c.enabled, c.tunnel_type, c.public_url), (false, TunnelType::NoTunnel, None));
}

#[test]
fn tunnel_programs_tell_addresses() {
    assert_eq!(
        cloudflare_url("INF | https://a.trycloudflare.com  | ok").unwrap(),
        "https://a.trycloudflare.com"
    );
    assert_eq!(cloudflare_url("trycloudflare.com"), None);
    assert_eq!(
        ngrok_url("see https://docs\nForwarding https://x.ngrok.io -> 80\n").unwrap(),
        "https://x.ngrok.io"
    );
    assert_eq!(ngrok_url("https://docs\nngrok"), None);
    assert_eq!(tcp_address("at tcp://a.b:123 now").unwrap(), "a.b:123");
    assert_eq!(tcp_address("{\"url\":\"tcp://a:1\"}").unwrap(), "a:1");
    assert_eq!(tcp_address("tcp:// nothing"), None);
    assert_eq!(tcp_address("none"), None);
    assert_eq!(tunnel_note(1, "b", 2, "d"), "bootstrap_local=1\nbootstrap=b\ndata_local=2\ndata=d\n");
    assert_eq!(nginx_line(7), "    server { listen 7; proxy_pass 127.0.0.1:7; }");
    assert_eq!(env_port(Some("81"), 5), 81);
    assert_eq!(env_port(Some("x"), 5), 5);
    assert_eq!(env_port(None, 5), 5);
}

#[test]
fn numbers_and_words() {
    assert_eq!(dec(0), "0");
    assert_eq!(dec(u128::MAX), u128::MAX.to_string());
    assert_eq!(parse_unsigned("340282366920938463463374607431768211455", u128::MAX), Some(u128::MAX));
    assert_eq!(parse_unsigned("340282366920938463463374607431768211456", u128::MAX), None);
    for s in ["", "+", "-1", " 1", "1 ", "++1", "0x1"] {
        assert_eq!(parse_unsigned(s, 100), s.parse::<u8>().ok().map(|n| n as u128));
    }
    assert_eq!(parse_unsigned("+007", 100), Some(7));
    assert_eq!(split_words(" a\t b\u{3000}c "), ["a", "b", "c"]);
    // trimming agrees with std on every character
    for c in (0..0x11_0000u32).filter_map(char::from_u32) {
        let s = format!("{}x{}", c, c);
        assert_eq!(trim(&s), s.trim());
    }
}
