//! Tunnels to the outside: who may come through, and what the tunnel programs
//! tell of their addresses.

use crate::accounts::copy_texts;
use crate::creds::{
    add_to_whitelist, has_text, remove_from_whitelist, remove_text, removed_text_is_gone,
    without_text,
};
use crate::listing::{lines_of, split_lines};
use crate::text::{
    cat5, chars_of, contains, dec, decimal, find_from, first_at, has_part, lemma_span_is,
    owned_opt, parse_unsigned, span, split_words, text_of, text_opt, texts, unsigned_value, words,
};
use vstd::prelude::*;
use vstd::string::*;

verus! {

pub const DEFAULT_TUNNEL_PORT: u16 = 4242;

/// The program that makes a tunnel.
#[derive(Clone, Copy, Debug, PartialEq, Eq, Structural)]
pub enum TunnelType {
    NoTunnel,
    Cloudflare,
    Ngrok,
    Custom,
}

/// A tunnel and its rules.
pub struct TunnelView {
    pub enabled: bool,
    pub allow_all: bool,
    pub whitelist: Seq<Seq<char>>,
    pub tunnel_type: TunnelType,
    pub tunnel_url: Option<Seq<char>>,
    pub local_port: u16,
    pub public_url: Option<Seq<char>>,
}

impl TunnelView {
    /// No tunnel, and nobody is let through.
    pub open spec fn blank() -> TunnelView {
        TunnelView {
            enabled: false,
            allow_all: false,
            whitelist: Seq::empty(),
            tunnel_type: TunnelType::NoTunnel,
            tunnel_url: None,
            local_port: DEFAULT_TUNNEL_PORT,
            public_url: None,
        }
    }

    /// The address may come through.
    pub open spec fn allows(self, ip: Seq<char>) -> bool {
        self.allow_all || self.whitelist.contains(ip)
    }
}

/// A tunnel and its rules.
pub struct TunnelConfig {
    pub enabled: bool,
    pub allow_all: bool,
    pub whitelist: Vec<String>,
    pub tunnel_type: TunnelType,
    pub tunnel_url: Option<String>,
    pub local_port: u16,
    pub public_url: Option<String>,
}

impl View for TunnelConfig {
    type V = TunnelView;

    open spec fn view(&self) -> TunnelView {
        TunnelView {
            enabled: self.enabled,
            allow_all: self.allow_all,
            whitelist: texts(self.whitelist@),
            tunnel_type: self.tunnel_type,
            tunnel_url: owned_opt(self.tunnel_url),
            local_port: self.local_port,
            public_url: owned_opt(self.public_url),
        }
    }
}

fn copy_opt(s: &Option<String>) -> (r: Option<String>)
    ensures
        r == *s,
{
    match s {
        Some(t) => Some(t.clone()),
        None => None,
    }
}

impl Clone for TunnelConfig {
    fn clone(&self) -> (r: Self)
        ensures
            r@ == self@,
    {
        TunnelConfig {
            enabled: self.enabled,
            allow_all: self.allow_all,
            whitelist: copy_texts(&self.whitelist),
            tunnel_type: self.tunnel_type,
            tunnel_url: copy_opt(&self.tunnel_url),
            local_port: self.local_port,
            public_url: copy_opt(&self.public_url),
        }
    }
}

impl Default for TunnelConfig {
    fn default() -> (r: Self)
        ensures
            r@ == TunnelView::blank(),
    {
        let r = TunnelConfig {
            enabled: false,
            allow_all: false,
            whitelist: Vec::new(),
            tunnel_type: TunnelType::NoTunnel,
            tunnel_url: None,
            local_port: DEFAULT_TUNNEL_PORT,
            public_url: None,
        };
        assert(r@.whitelist =~= Seq::empty());
        r
    }
}

/// A list with a text added, unless it is on it.
pub open spec fn with_text(v: Seq<Seq<char>>, s: Seq<char>) -> Seq<Seq<char>> {
    if v.contains(s) { v } else { v.push(s) }
}

/// Why a tunnel cannot be started, if it cannot.
pub open spec fn start_refusal(t: TunnelView, tunnel_type: TunnelType) -> Option<Seq<char>> {
    if t.enabled {
        Some("Tunnel already running"@)
    } else {
        match tunnel_type {
            TunnelType::Custom => Some("Custom tunnel type not implemented"@),
            TunnelType::NoTunnel => Some("No tunnel type specified"@),
            _ => None,
        }
    }
}

/// Keeps a tunnel and its rules.
pub struct TunnelManager {
    config: TunnelConfig,
}

impl View for TunnelManager {
    type V = TunnelView;

    closed spec fn view(&self) -> TunnelView {
        self.config@
    }
}

impl TunnelManager {
    pub fn new() -> (m: Self)
        ensures
            m@ == TunnelView::blank(),
    {
        TunnelManager { config: TunnelConfig::default() }
    }

    /// The tunnel and its rules, as they are.
    pub fn get_config(&self) -> (c: TunnelConfig)
        ensures
            c@ == self@,
    {
        self.config.clone()
    }

    /// The tunnel and its rules, as they are.
    pub fn get_tunnel_info(&self) -> (c: TunnelConfig)
        ensures
            c@ == self@,
    {
        self.config.clone()
    }

    pub fn set_whitelist(&mut self, whitelist: Vec<String>)
        ensures
            final(self)@ == (TunnelView { whitelist: texts(whitelist@), ..old(self)@ }),
    {
        self.config.whitelist = whitelist;
    }

    /// Lets an address through.
    pub fn add_to_whitelist(&mut self, ip: String)
        ensures
            final(self)@ == (TunnelView {
                whitelist: with_text(old(self)@.whitelist, ip@),
                ..old(self)@
            }),
            final(self)@.allows(ip@),
    {
        if !has_text(&self.config.whitelist, &ip) {
            let ghost before = texts(self.config.whitelist@);
            let ghost added = ip@;
            self.config.whitelist.push(ip);
            proof {
                let now = texts(self.config.whitelist@);
                assert(now =~= before.push(added));
                assert(now[before.len() as int] == added);
            }
        }
    }

    /// Lets an address through no longer, unless all are let through.
    pub fn remove_from_whitelist(&mut self, ip: &str)
        ensures
            final(self)@ == (TunnelView {
                whitelist: without_text(old(self)@.whitelist, ip@),
                ..old(self)@
            }),
            final(self)@.allows(ip@) == old(self)@.allow_all,
    {
        self.config.whitelist = remove_text(&self.config.whitelist, ip);
        proof {
            removed_text_is_gone(old(self)@.whitelist, ip@);
        }
    }

    pub fn set_allow_all(&mut self, allow: bool)
        ensures
            final(self)@ == (TunnelView { allow_all: allow, ..old(self)@ }),
    {
        self.config.allow_all = allow;
    }

    /// Whether an address may come through.
    pub fn is_ip_allowed(&self, ip: &str) -> (r: bool)
        ensures
            r == self@.allows(ip@),
    {
        self.config.allow_all || has_text(&self.config.whitelist, ip)
    }

    /// Begins to start a tunnel: notes what is started, or says why it cannot
    /// be.
    pub fn start_tunnel(&mut self, tunnel_type: TunnelType, local_port: u16) -> (r: Result<
        (),
        String,
    >)
        ensures
            r is Ok == start_refusal(old(self)@, tunnel_type) is None,
            r matches Err(e) ==> start_refusal(old(self)@, tunnel_type) == Some(e@),
            final(self)@ == (if old(self)@.enabled {
                old(self)@
            } else {
                TunnelView { tunnel_type, local_port, ..old(self)@ }
            }),
    {
        if self.config.enabled {
            return Err(String::from_str("Tunnel already running"));
        }
        self.config.tunnel_type = tunnel_type;
        self.config.local_port = local_port;
        match tunnel_type {
            TunnelType::Custom => Err(String::from_str("Custom tunnel type not implemented")),
            TunnelType::NoTunnel => Err(String::from_str("No tunnel type specified")),
            _ => Ok(()),
        }
    }

    /// Notes that the tunnel that was begun is up, under its public address.
    pub fn tunnel_started(&mut self, public_url: String)
        ensures
            final(self)@ == (TunnelView {
                enabled: true,
                public_url: Some(public_url@),
                ..old(self)@
            }),
    {
        self.config.enabled = true;
        self.config.public_url = Some(public_url);
    }

    /// Notes that the tunnel is down.
    pub fn stop_tunnel(&mut self)
        ensures
            final(self)@ == (TunnelView {
                enabled: false,
                public_url: None,
                tunnel_type: TunnelType::NoTunnel,
                ..old(self)@
            }),
    {
        self.config.enabled = false;
        self.config.public_url = None;
        self.config.tunnel_type = TunnelType::NoTunnel;
    }
}

/// A tunnel that is up keeps another from being started until it is stopped.
pub proof fn one_tunnel_at_a_time(t: TunnelView, url: Seq<char>, tunnel_type: TunnelType)
    ensures
        start_refusal(
            TunnelView { enabled: true, public_url: Some(url), ..t },
            tunnel_type,
        ) == Some("Tunnel already running"@),
        start_refusal(
            TunnelView {
                enabled: false,
                public_url: None,
                tunnel_type: TunnelType::NoTunnel,
                ..t
            },
            TunnelType::Cloudflare,
        ) is None,
{
}

// ---------------------------------------------------------------- what tunnel programs tell

/// The word that starts with the first `https://` in a line.
pub open spec fn url_in(line: Seq<char>) -> Option<Seq<char>> {
    match first_at(line, "https://"@, 0) {
        Some(i) => Some(
            {
                let w = words(line.skip(i));
                if w.len() > 0 { w[0] } else { Seq::empty() }
            },
        ),
        None => None,
    }
}

fn find_url(line: &str) -> (r: Option<String>)
    ensures
        r is Some == url_in(line@) is Some,
        r matches Some(s) ==> url_in(line@) == Some(s@),
{
    let v = chars_of(line);
    let p = chars_of("https://");
    match find_from(&v, &p, 0) {
        Some(i) => {
            let rest = text_of(&v, i, v.len());
            assert(rest@ =~= line@.skip(i as int));
            let w = split_words(&rest);
            assert(words(rest@).len() == w@.len());
            if w.len() > 0 {
                assert(texts(w@)[0] == w@[0]@);
                Some(w[0].clone())
            } else {
                let s = String::new();
                assert(s@ =~= Seq::empty());
                Some(s)
            }
        },
        None => None,
    }
}

/// The public address in a line of cloudflared.
pub fn cloudflare_url(line: &str) -> (r: Option<String>)
    ensures
        r is Some == url_in(line@) is Some,
        r matches Some(s) ==> url_in(line@) == Some(s@),
{
    find_url(line)
}

/// The first public address in lines of ngrok: in a line that names ngrok.
pub open spec fn ngrok_url_in(lines: Seq<Seq<char>>) -> Option<Seq<char>>
    decreases lines.len(),
{
    if lines.len() == 0 {
        None
    } else if url_in(lines[0]) is Some && has_part(lines[0], "ngrok"@) {
        url_in(lines[0])
    } else {
        ngrok_url_in(lines.drop_first())
    }
}

/// The first public address in the output of ngrok.
pub fn ngrok_url(output: &str) -> (r: Option<String>)
    ensures
        r is Some == ngrok_url_in(lines_of(output@)) is Some,
        r matches Some(s) ==> ngrok_url_in(lines_of(output@)) == Some(s@),
{
    let lines = split_lines(output);
    let ghost all = texts(lines@);
    let mut i: usize = 0;
    assert(all.skip(0) =~= all);
    while i < lines.len()
        invariant
            i <= lines@.len(),
            all == texts(lines@),
            all == lines_of(output@),
            ngrok_url_in(all.skip(i as int)) == ngrok_url_in(all),
        decreases lines@.len() - i,
    {
        proof {
            assert(all.skip(i as int)[0] == lines@[i as int]@);
            assert(all.skip(i as int).drop_first() =~= all.skip(i + 1));
        }
        let found = find_url(&lines[i]);
        if found.is_some() && contains(&lines[i], "ngrok") {
            return found;
        }
        i += 1;
    }
    None
}

/// Where an address ends in a line.
pub open spec fn ends_address(c: char) -> bool {
    c == ' ' || c == '"' || c == '|' || c == '}' || c == '\n'
}

/// The address after the first `tcp://` in a line, if it is not empty.
pub open spec fn tcp_address_in(line: Seq<char>) -> Option<Seq<char>> {
    match first_at(line, "tcp://"@, 0) {
        Some(i) => {
            let rest = line.skip(i + 6);
            let addr = rest.take(span(rest, |c: char| !ends_address(c)) as int);
            if addr.len() > 0 { Some(addr) } else { None }
        },
        None => None,
    }
}

/// The address that cloudflared tells in a line, if it tells one.
pub fn tcp_address(line: &str) -> (r: Option<String>)
    ensures
        r is Some == tcp_address_in(line@) is Some,
        r matches Some(s) ==> tcp_address_in(line@) == Some(s@),
{
    let v = chars_of(line);
    let p = chars_of("tcp://");
    proof {
        reveal_strlit("tcp://");
    }
    match find_from(&v, &p, 0) {
        Some(i) => {
            let n: usize = v.len();
            let start: usize = i + 6;
            let ghost rest = v@.skip(start as int);
            let mut j: usize = start;
            while j < n && v[j] != ' ' && v[j] != '"' && v[j] != '|' && v[j] != '}' && v[j] != '\n'
                invariant
                    n == v@.len(),
                    start <= j <= n,
                    forall|k: int| start <= k < j ==> !ends_address(#[trigger] v@[k]),
                decreases n - j,
            {
                j += 1;
            }
            proof {
                let d = j - start;
                assert forall|k: int| 0 <= k < d implies !ends_address(#[trigger] rest[k]) by {
                    assert(rest[k] == v@[start + k]);
                }
                lemma_span_is(rest, |c: char| !ends_address(c), d);
                assert(rest.take(d) =~= v@.subrange(start as int, j as int));
            }
            if j > start {
                Some(text_of(&v, start, j))
            } else {
                None
            }
        },
        None => None,
    }
}

/// What a pair of tunnels writes down for the host: the local ports and the
/// public addresses.
pub fn tunnel_note(bootstrap_port: u16, bootstrap: &str, data_port: u16, data: &str) -> (s: String)
    ensures
        s@ == "bootstrap_local="@ + decimal(bootstrap_port as nat) + "\nbootstrap="@ + bootstrap@
            + "\ndata_local="@ + decimal(data_port as nat) + "\ndata="@ + data@ + "\n"@,
{
    let b = dec(bootstrap_port as u128);
    let d = dec(data_port as u128);
    let mut s = cat5("bootstrap_local=", &b, "\nbootstrap=", bootstrap, "\ndata_local=");
    s.append(&d);
    s.append("\ndata=");
    s.append(data);
    s.append("\n");
    s
}

/// A line of a proxy's configuration that passes a port on to this device.
pub fn nginx_line(port: u16) -> (s: String)
    ensures
        s@ == "    server { listen "@ + decimal(port as nat) + "; proxy_pass 127.0.0.1:"@ + decimal(
            port as nat,
        ) + "; }"@,
{
    let p = dec(port as u128);
    cat5("    server { listen ", &p, "; proxy_pass 127.0.0.1:", &p, "; }")
}

/// A port that the environment names, or a default.
pub fn env_port(named: Option<&str>, fallback: u16) -> (p: u16)
    ensures
        p == (match text_opt(named) {
            Some(s) => match unsigned_value(s, u16::MAX as nat) {
                Some(n) => n as u16,
                None => fallback,
            },
            None => fallback,
        }),
{
    match named {
        Some(s) => match parse_unsigned(s, u16::MAX as u128) {
            Some(n) => n as u16,
            None => fallback,
        },
        None => fallback,
    }
}

} // verus!
