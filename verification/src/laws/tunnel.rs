//! Tunnels: who may come in, one tunnel at a time, and the addresses that the
//! tunnels' programs print.

use crate::creds::{removed_text_is_gone, without_text};
use crate::laws::text::is_word;
use crate::listing::lines_of;
use crate::text::{
    begins, decimal, first_at, has_part, is_digit, lemma_decimal, lemma_first_at, lemma_span_is,
    stands_at, texts, trimmed_start, white, words,
};
use crate::tunnel::{
    TunnelConfig, TunnelManager, TunnelType, TunnelView, cloudflare_url, ends_address, env_port,
    nginx_line, ngrok_url, ngrok_url_in, tcp_address, tunnel_note, url_in,
};
use vstd::prelude::*;
use vstd::string::*;

verus! {

/// An address may come in where all may, or where it is on the list.
pub proof fn listed_addresses_come_in(m: &TunnelManager, ip: &str, r: bool, c: TunnelConfig)
    requires
        call_ensures(TunnelManager::is_ip_allowed, (m, ip), r),
        call_ensures(TunnelManager::get_config, (m,), c),
    ensures
        c.allow_all ==> r,
        !c.allow_all ==> (r <==> exists|i: int|
            0 <= i < c.whitelist@.len() && (#[trigger] c.whitelist@[i])@ == ip@),
{
    let w = texts(c.whitelist@);
    if !c.allow_all && r {
        let i = choose|i: int| 0 <= i < w.len() && w[i] == ip@;
        assert(c.whitelist@[i]@ == ip@);
    }
    if exists|i: int| 0 <= i < c.whitelist@.len() && (#[trigger] c.whitelist@[i])@ == ip@ {
        let i = choose|i: int| 0 <= i < c.whitelist@.len() && (#[trigger] c.whitelist@[i])@ == ip@;
        assert(w[i] == ip@);
    }
}

/// An address that was put on the list may come in, one that was taken off may
/// not; no other is touched.
pub proof fn the_list_is_kept(
    m: &mut TunnelManager,
    n: &mut TunnelManager,
    ip: String,
    off: &str,
    other: &str,
    a: bool,
    b: bool,
    c: bool,
    d: bool,
    e: bool,
)
    requires
        off@ == ip@,
        other@ != ip@,
        *old(m) == *old(n),
        !old(m)@.allow_all,
        call_ensures(TunnelManager::add_to_whitelist, (m, ip), ()),
        call_ensures(TunnelManager::remove_from_whitelist, (n, off), ()),
        call_ensures(TunnelManager::is_ip_allowed, (&*final(m), off), a),
        call_ensures(TunnelManager::is_ip_allowed, (&*final(n), off), b),
        call_ensures(TunnelManager::is_ip_allowed, (&*old(m), other), c),
        call_ensures(TunnelManager::is_ip_allowed, (&*final(m), other), d),
        call_ensures(TunnelManager::is_ip_allowed, (&*final(n), other), e),
    ensures
        a,
        !b,
        c == d,
        c == e,
        old(m)@.whitelist.contains(ip@) ==> final(m)@ == old(m)@,
        !old(m)@.whitelist.contains(ip@) ==> final(m)@.whitelist == old(m)@.whitelist.push(ip@),
{
    removed_text_is_gone(old(n)@.whitelist, ip@);
    assert(without_text(old(n)@.whitelist, ip@).contains(other@) == old(n)@.whitelist.contains(
        other@,
    ));
    let w = old(m)@.whitelist;
    if !w.contains(ip@) {
        let v = w.push(ip@);
        if w.contains(other@) {
            assert(v[w.index_of(other@)] == other@);
        }
        if v.contains(other@) {
            assert(w[v.index_of(other@)] == other@);
        }
    }
}

/// A new list replaces the old one; whether all may come in is as it was set.
pub proof fn settings_are_taken(
    m: &mut TunnelManager,
    n: &mut TunnelManager,
    list: Vec<String>,
    all: bool,
)
    requires
        call_ensures(TunnelManager::set_whitelist, (m, list), ()),
        call_ensures(TunnelManager::set_allow_all, (n, all), ()),
    ensures
        final(m)@ == (TunnelView { whitelist: texts(list@), ..old(m)@ }),
        final(n)@ == (TunnelView { allow_all: all, ..old(n)@ }),
{
}

/// Without settings no tunnel runs, nobody may come in, and the port is 4242.
pub proof fn managers_start_closed(m: TunnelManager, ip: &str, r: bool)
    requires
        call_ensures(TunnelManager::new, (), m),
        call_ensures(TunnelManager::is_ip_allowed, (&m, ip), r),
    ensures
        !r,
        !m@.enabled && !m@.allow_all && m@.local_port == 4242 && m@.tunnel_type
            == TunnelType::NoTunnel && m@.public_url is None && m@.tunnel_url is None,
        m@.whitelist.len() == 0,
{
}

/// One tunnel runs at a time, and only of the two sorts that there are: another
/// is refused until the first was stopped.
pub proof fn tunnels_run_one_at_a_time(
    m: &mut TunnelManager,
    tunnel_type: TunnelType,
    port: u16,
    r: Result<(), String>,
)
    requires
        call_ensures(TunnelManager::start_tunnel, (m, tunnel_type, port), r),
    ensures
        r is Ok <==> !old(m)@.enabled && (tunnel_type == TunnelType::Cloudflare || tunnel_type
            == TunnelType::Ngrok),
        old(m)@.enabled ==> final(m)@ == old(m)@ && (r matches Err(e) && e@
            == "Tunnel already running"@),
        !old(m)@.enabled && tunnel_type == TunnelType::Custom ==> (r matches Err(e) && e@
            == "Custom tunnel type not implemented"@),
        !old(m)@.enabled && tunnel_type == TunnelType::NoTunnel ==> (r matches Err(e) && e@
            == "No tunnel type specified"@),
        r is Ok ==> final(m)@.tunnel_type == tunnel_type && final(m)@.local_port == port
            && final(m)@.whitelist == old(m)@.whitelist && final(m)@.allow_all == old(m)@.allow_all
            && !final(m)@.enabled,
{
}

/// A tunnel that has started runs under its public address until it is stopped;
/// after that another can be started.
pub proof fn tunnels_start_and_stop(
    m: &mut TunnelManager,
    url: String,
    n: &mut TunnelManager,
    o: &mut TunnelManager,
    port: u16,
    r: Result<(), String>,
)
    requires
        call_ensures(TunnelManager::tunnel_started, (m, url), ()),
        *old(n) == *final(m),
        call_ensures(TunnelManager::stop_tunnel, (n,), ()),
        *old(o) == *final(n),
        call_ensures(TunnelManager::start_tunnel, (o, TunnelType::Ngrok, port), r),
    ensures
        final(m)@ == (TunnelView { enabled: true, public_url: Some(url@), ..old(m)@ }),
        !final(n)@.enabled && final(n)@.public_url is None && final(n)@.tunnel_type
            == TunnelType::NoTunnel && final(n)@.whitelist == old(m)@.whitelist,
        r is Ok,
{
}

// ---------------------------------------------------------------- printed addresses

/// The address in a line is the word that begins with `https://`, wherever it
/// stands; a line without one gives none.
pub proof fn addresses_are_found(
    line: &str,
    r: Option<String>,
    a: Seq<char>,
    url: Seq<char>,
    b: Seq<char>,
)
    requires
        call_ensures(cloudflare_url, (line,), r),
    ensures
        (forall|j: int| !#[trigger] stands_at(line@, "https://"@, j)) ==> r is None,
        line@ == a + url + b && is_word(url) && begins(url, "https://"@) && (b.len() == 0 || white(
            b[0],
        )) && (forall|j: int| 0 <= j < a.len() ==> !#[trigger] stands_at(line@, "https://"@, j))
            ==> (r matches Some(s) && s@ == url),
{
    let p = "https://"@;
    lemma_first_at(line@, p, 0);
    if line@ == a + url + b && is_word(url) && begins(url, p) && (b.len() == 0 || white(b[0])) && (
    forall|j: int| 0 <= j < a.len() ==> !#[trigger] stands_at(line@, p, j)) {
        let i = a.len() as int;
        assert(line@.subrange(i, i + p.len()) =~= url.take(p.len() as int));
        assert(stands_at(line@, p, i));
        assert(first_at(line@, p, 0) == Some(i));
        assert(line@.skip(i) =~= url + b);
        first_word_of(url, b);
    }
}

/// The first word of a text is what stands before its first white space.
pub proof fn first_word_of(w: Seq<char>, b: Seq<char>)
    requires
        is_word(w),
        b.len() == 0 || white(b[0]),
    ensures
        words(w + b).len() > 0,
        words(w + b)[0] == w,
{
    let s = w + b;
    assert(!white(s[0])) by {
        assert(s[0] == w[0]);
    }
    lemma_span_is(s, |c: char| white(c), 0);
    assert(trimmed_start(s) =~= s);
    assert forall|i: int| 0 <= i < w.len() implies !white(#[trigger] s[i]) by {
        assert(s[i] == w[i]);
    }
    if b.len() > 0 {
        assert(s[w.len() as int] == b[0]);
    }
    lemma_span_is(s, |c: char| !white(c), w.len() as int);
    assert(s.take(w.len() as int) =~= w);
}

/// In what the other program prints, the address is that of the first line with
/// one that also names the program.
pub proof fn addresses_are_found_in_output(
    output: &str,
    r: Option<String>,
    lines: Seq<Seq<char>>,
    i: int,
)
    requires
        call_ensures(ngrok_url, (output,), r),
        lines == lines_of(output@),
    ensures
        (forall|k: int| 0 <= k < lines.len() ==> !(url_in(#[trigger] lines[k]) is Some && has_part(
            lines[k],
            "ngrok"@,
        ))) ==> r is None,
        0 <= i < lines.len() && url_in(lines[i]) is Some && has_part(lines[i], "ngrok"@) && (
        forall|k: int| 0 <= k < i ==> !(url_in(#[trigger] lines[k]) is Some && has_part(
            lines[k],
            "ngrok"@,
        ))) ==> (r matches Some(s) && Some(s@) == url_in(lines[i])),
{
    lemma_ngrok(lines, i);
}

proof fn lemma_ngrok(lines: Seq<Seq<char>>, i: int)
    ensures
        (forall|k: int| 0 <= k < lines.len() ==> !(url_in(#[trigger] lines[k]) is Some && has_part(
            lines[k],
            "ngrok"@,
        ))) ==> ngrok_url_in(lines) is None,
        0 <= i < lines.len() && url_in(lines[i]) is Some && has_part(lines[i], "ngrok"@) && (
        forall|k: int| 0 <= k < i ==> !(url_in(#[trigger] lines[k]) is Some && has_part(
            lines[k],
            "ngrok"@,
        ))) ==> ngrok_url_in(lines) == url_in(lines[i]),
    decreases lines.len(),
{
    if lines.len() > 0 {
        let rest = lines.drop_first();
        assert forall|k: int| 0 <= k < rest.len() implies #[trigger] rest[k] == lines[k + 1] by {
        }
        lemma_ngrok(rest, i - 1);
        if i > 0 && i < lines.len() {
            assert(rest[i - 1] == lines[i]);
        }
    }
}

/// The address behind `tcp://` ends at a blank, a quotation mark, a bar, a
/// closing brace or the end of the line.
pub proof fn tcp_addresses_are_found(
    line: &str,
    r: Option<String>,
    a: Seq<char>,
    addr: Seq<char>,
    b: Seq<char>,
)
    requires
        call_ensures(tcp_address, (line,), r),
    ensures
        (forall|j: int| !#[trigger] stands_at(line@, "tcp://"@, j)) ==> r is None,
        line@ == a + "tcp://"@ + addr + b && addr.len() > 0 && (forall|i: int|
            0 <= i < addr.len() ==> (#[trigger] addr[i]) != ' ' && addr[i] != '"' && addr[i] != '|'
                && addr[i] != '}' && addr[i] != '\n') && (b.len() == 0 || b[0] == ' ' || b[0] == '"'
            || b[0] == '|' || b[0] == '}' || b[0] == '\n') && (forall|j: int|
            0 <= j < a.len() ==> !#[trigger] stands_at(line@, "tcp://"@, j)) ==> (r matches Some(s)
            && s@ == addr),
{
    let p = "tcp://"@;
    reveal_strlit("tcp://");
    assert(p.len() == 6);
    lemma_first_at(line@, p, 0);
    if line@ == a + p + addr + b && addr.len() > 0 && (forall|i: int|
        0 <= i < addr.len() ==> (#[trigger] addr[i]) != ' ' && addr[i] != '"' && addr[i] != '|'
            && addr[i] != '}' && addr[i] != '\n') && (b.len() == 0 || b[0] == ' ' || b[0] == '"'
        || b[0] == '|' || b[0] == '}' || b[0] == '\n') && (forall|j: int|
        0 <= j < a.len() ==> !#[trigger] stands_at(line@, p, j)) {
        let i = a.len() as int;
        assert(line@.subrange(i, i + p.len()) =~= p);
        assert(stands_at(line@, p, i));
        assert(first_at(line@, p, 0) == Some(i));
        let rest = line@.skip(i + 6);
        assert(rest =~= addr + b);
        lemma_span_is(rest, |c: char| !ends_address(c), addr.len() as int);
        assert(rest.take(addr.len() as int) =~= addr);
    }
}

/// The note of a tunnel and the line for the relay name both ports.
pub proof fn notes_name_the_ports(p: u16, b: &str, q: u16, d: &str, s: String, t: String)
    requires
        call_ensures(tunnel_note, (p, b, q, d), s),
        call_ensures(nginx_line, (p,), t),
    ensures
        s@ == "bootstrap_local="@ + decimal(p as nat) + "\nbootstrap="@ + b@ + "\ndata_local="@
            + decimal(q as nat) + "\ndata="@ + d@ + "\n"@,
        t@ == "    server { listen "@ + decimal(p as nat) + "; proxy_pass 127.0.0.1:"@ + decimal(
            p as nat,
        ) + "; }"@,
{
}

/// A port that is named counts where it is a number that a port can be; in any
/// other case the port is the usual one.
pub proof fn named_ports_count(named: Option<&str>, usual: u16, p: u16, n: nat)
    requires
        call_ensures(env_port, (named, usual), p),
    ensures
        named is None ==> p == usual,
        named matches Some(s) ==> (s@ == decimal(n) && n < 65536 ==> p == n),
        named matches Some(s) ==> (s@ == decimal(n) && n >= 65536 ==> p == usual),
        named matches Some(s) ==> (s@.len() == 0 ==> p == usual),
        named matches Some(s) ==> ((exists|i: int|
            0 <= i < s@.len() && !is_digit(#[trigger] s@[i]) && s@[i] != '+') ==> p == usual),
{
    lemma_decimal(n);
    assert(decimal(n)[0] != '+') by {
        assert(is_digit(decimal(n)[0]));
    }
    if named is Some {
        let s = named->0@;
        let body = if s.len() > 0 && s[0] == '+' { s.skip(1) } else { s };
        if exists|i: int| 0 <= i < s.len() && !is_digit(#[trigger] s[i]) && s[i] != '+' {
            let i = choose|i: int| 0 <= i < s.len() && !is_digit(#[trigger] s[i]) && s[i] != '+';
            if s[0] == '+' {
                assert(body[i - 1] == s[i]);
            } else {
                assert(body[i] == s[i]);
            }
        }
    }
}

} // verus!
