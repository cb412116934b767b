//! The host's side of a promoted session: heartbeats, the remote terminal, and
//! what is started for it.

use crate::accounts::{ROLE_ADMIN, ROLE_USER};
use crate::bytes::copy_bytes;
use crate::proto::{BYE, EXEC_REQ, PING, PONG, payload_text};
use crate::text::{
    cat3, cat5, dec_signed, lossy_text, owned_opt, parse_unsigned, signed_decimal, texts, trim,
    trimmed, unsigned_value,
};
use crate::throttle::PeerIp;
use crate::token::{StatePath, place2};
use vstd::prelude::*;
use vstd::string::*;

verus! {

/// How often the host sends a heartbeat, in nanoseconds: 5 seconds.
pub const PING_INTERVAL: u64 = 5_000_000_000;

/// How long the host waits for a sign of life, in nanoseconds: 15 seconds.
pub const PONG_GRACE: u64 = 15_000_000_000;

/// The greatest number of bytes of output that one command may send.
pub const EXEC_OUT_CAP: usize = 512 * 1024;

/// The time from one moment to another; none if the other is earlier.
pub open spec fn elapsed(since: u64, now: u64) -> nat {
    if now >= since { (now - since) as nat } else { 0 }
}

/// The time from one moment to another; none if the other is earlier.
pub fn elapsed_since(since: u64, now: u64) -> (d: u64)
    ensures
        d == elapsed(since, now),
{
    if now >= since { now - since } else { 0 }
}

// ---------------------------------------------------------------- the loop

/// What goes over the channel after the login.
#[derive(Clone, Copy, Debug, PartialEq, Eq, Structural)]
pub enum Channel {
    /// Heartbeats alone; any other frame ends the session.
    Heartbeat,
    /// Heartbeats and the remote terminal; unknown frames are passed over.
    Terminal,
}

/// A session in its loop. Moments are nanoseconds of a clock that never goes
/// back.
#[derive(Clone, Copy, Debug, PartialEq, Eq, Structural)]
pub struct SessionLoop {
    pub channel: Channel,
    pub admin: bool,
    /// A command is running.
    pub busy: bool,
    pub last_pong: u64,
    /// When the last heartbeat was sent, if one was.
    pub last_ping: Option<u64>,
}

/// Why a session ends.
#[derive(Clone, Copy, Debug, PartialEq, Eq, Structural)]
pub enum EndReason {
    /// The client said goodbye.
    Bye,
    /// The client has given no sign of life for too long.
    Lost,
    /// A frame that has no place on this channel.
    Unexpected(u8),
    /// The connection is broken.
    Broken,
}

/// Why a command is not run.
#[derive(Clone, Copy, Debug, PartialEq, Eq, Structural)]
pub enum DenyReason {
    NotAdmin,
    Busy,
}

impl DenyReason {
    pub open spec fn reason(self) -> Seq<char> {
        match self {
            DenyReason::NotAdmin => "'sudo' requires an admin account on this host"@,
            DenyReason::Busy => "a command is still running on this session"@,
        }
    }

    /// What the client is told.
    pub fn text(self) -> (s: &'static str)
        ensures
            s@ == self.reason(),
    {
        match self {
            DenyReason::NotAdmin => "'sudo' requires an admin account on this host",
            DenyReason::Busy => "a command is still running on this session",
        }
    }
}

/// What the host does with a frame.
pub enum SessionActionView {
    Nothing,
    /// Note the sign of life, and end the session if it is not known any more.
    /// Where the heartbeat carries the moment at which it was sent, in
    /// milliseconds, the round trip can be told.
    Touch { sent: Option<u128> },
    /// Answer a heartbeat with its own payload.
    Answer { payload: Seq<u8> },
    Deny(DenyReason),
    Run { command: Seq<char>, elevated: bool },
    End(EndReason),
}

/// The moment that a heartbeat carries, if it carries one.
pub open spec fn moment_in(text: Seq<char>) -> Option<u128> {
    match unsigned_value(trimmed(text), u128::MAX as nat) {
        Some(n) => Some(n as u128),
        None => None,
    }
}

/// The step of a session on a request to run a command: the first byte says
/// whether it is to run elevated, the rest is the command.
pub open spec fn exec_step(s: SessionLoop, payload: Seq<u8>) -> (SessionLoop, SessionActionView) {
    if payload.len() == 0 {
        (s, SessionActionView::Nothing)
    } else {
        let elevated = payload[0] == 0x31;
        let command = trimmed(lossy_text(payload.skip(1)));
        if command.len() == 0 {
            (s, SessionActionView::Nothing)
        } else if elevated && !s.admin {
            (s, SessionActionView::Deny(DenyReason::NotAdmin))
        } else if s.busy {
            (s, SessionActionView::Deny(DenyReason::Busy))
        } else {
            (SessionLoop { busy: true, ..s }, SessionActionView::Run { command, elevated })
        }
    }
}

/// The step of a session on a frame.
pub open spec fn session_step(s: SessionLoop, msg: u8, payload: Seq<u8>, now: u64) -> (
    SessionLoop,
    SessionActionView,
) {
    if msg == PONG {
        (
            SessionLoop { last_pong: now, ..s },
            SessionActionView::Touch {
                sent: if s.channel == Channel::Heartbeat {
                    moment_in(lossy_text(payload))
                } else {
                    None
                },
            },
        )
    } else if msg == PING {
        (SessionLoop { last_pong: now, ..s }, SessionActionView::Answer { payload })
    } else if msg == BYE {
        (s, SessionActionView::End(EndReason::Bye))
    } else if s.channel == Channel::Heartbeat {
        (s, SessionActionView::End(EndReason::Unexpected(msg)))
    } else if msg == EXEC_REQ {
        exec_step(s, payload)
    } else {
        (s, SessionActionView::Nothing)
    }
}

/// What the host does with a frame.
pub enum SessionAction {
    Nothing,
    Touch { sent: Option<u128> },
    Answer { payload: Vec<u8> },
    Deny(DenyReason),
    Run { command: String, elevated: bool },
    End(EndReason),
}

impl View for SessionAction {
    type V = SessionActionView;

    open spec fn view(&self) -> SessionActionView {
        match self {
            SessionAction::Nothing => SessionActionView::Nothing,
            SessionAction::Touch { sent } => SessionActionView::Touch { sent: *sent },
            SessionAction::Answer { payload } => SessionActionView::Answer { payload: payload@ },
            SessionAction::Deny(r) => SessionActionView::Deny(*r),
            SessionAction::Run { command, elevated } => SessionActionView::Run {
                command: command@,
                elevated: *elevated,
            },
            SessionAction::End(r) => SessionActionView::End(*r),
        }
    }
}

impl SessionLoop {
    /// A session at its start: a heartbeat is due at once.
    pub fn start(channel: Channel, admin: bool, now: u64) -> (s: Self)
        ensures
            s == (SessionLoop { channel, admin, busy: false, last_pong: now, last_ping: None }),
    {
        SessionLoop { channel, admin, busy: false, last_pong: now, last_ping: None }
    }

    /// A heartbeat is due.
    pub open spec fn is_ping_due(self, now: u64) -> bool {
        match self.last_ping {
            Some(t) => elapsed(t, now) >= PING_INTERVAL,
            None => true,
        }
    }

    /// Whether a heartbeat is due.
    pub fn ping_due(&self, now: u64) -> (r: bool)
        ensures
            r == self.is_ping_due(now),
    {
        match self.last_ping {
            Some(t) => elapsed_since(t, now) >= PING_INTERVAL,
            None => true,
        }
    }

    /// Notes that a heartbeat was sent.
    pub fn pinged(&mut self, now: u64)
        ensures
            *final(self) == (SessionLoop { last_ping: Some(now), ..*old(self) }),
    {
        self.last_ping = Some(now);
    }

    /// Takes a frame.
    pub fn on_frame(&mut self, msg: u8, payload: Vec<u8>, now: u64) -> (a: SessionAction)
        ensures
            (*final(self), a@) == session_step(*old(self), msg, payload@, now),
    {
        if msg == PONG {
            self.last_pong = now;
            let sent = match self.channel {
                Channel::Heartbeat => {
                    let t = payload_text(&payload);
                    let t = trim(&t);
                    parse_unsigned(&t, u128::MAX)
                },
                Channel::Terminal => None,
            };
            SessionAction::Touch { sent }
        } else if msg == PING {
            self.last_pong = now;
            SessionAction::Answer { payload }
        } else if msg == BYE {
            SessionAction::End(EndReason::Bye)
        } else {
            match self.channel {
                Channel::Heartbeat => SessionAction::End(EndReason::Unexpected(msg)),
                Channel::Terminal => if msg == EXEC_REQ {
                    self.on_exec(&payload)
                } else {
                    SessionAction::Nothing
                },
            }
        }
    }

    fn on_exec(&mut self, payload: &Vec<u8>) -> (a: SessionAction)
        ensures
            (*final(self), a@) == exec_step(*old(self), payload@),
    {
        if payload.len() == 0 {
            return SessionAction::Nothing;
        }
        let elevated = payload[0] == 0x31;
        let rest = copy_bytes(payload.as_slice(), 1, payload.len());
        assert(rest@ =~= payload@.skip(1));
        let text = payload_text(&rest);
        let command = trim(&text);
        if command.as_str().is_empty() {
            return SessionAction::Nothing;
        }
        if elevated && !self.admin {
            return SessionAction::Deny(DenyReason::NotAdmin);
        }
        if self.busy {
            return SessionAction::Deny(DenyReason::Busy);
        }
        self.busy = true;
        SessionAction::Run { command, elevated }
    }

    /// Looks after the session when nothing came in for a while.
    pub fn on_idle(&self, now: u64) -> (r: Option<EndReason>)
        ensures
            r == (if elapsed(self.last_pong, now) >= PONG_GRACE {
                Some(EndReason::Lost)
            } else {
                None
            }),
    {
        if elapsed_since(self.last_pong, now) >= PONG_GRACE {
            Some(EndReason::Lost)
        } else {
            None
        }
    }

    /// Notes that the command has ended, and gives what the client is told: its
    /// exit code, or -1 where it has none.
    pub fn on_command_end(&mut self, code: Option<i32>) -> (s: String)
        ensures
            *final(self) == (SessionLoop { busy: false, ..*old(self) }),
            s@ == signed_decimal(if code is Some { code->0 as int } else { -1 }),
    {
        self.busy = false;
        match code {
            Some(c) => dec_signed(c),
            None => dec_signed(-1),
        }
    }
}

/// The round trip of a heartbeat, in milliseconds.
pub fn round_trip(now_ms: u128, sent: u128) -> (r: u128)
    ensures
        r == (if now_ms >= sent { (now_ms - sent) as u128 } else { 0 }),
{
    if now_ms >= sent { now_ms - sent } else { 0 }
}

/// Only the session of an admin ever runs a command elevated, and the session of
/// any other is told so. No command starts while another runs.
pub proof fn only_admins_run_elevated(s: SessionLoop, msg: u8, payload: Seq<u8>, now: u64)
    ensures
        ({
            let (next, action) = session_step(s, msg, payload, now);
            &&& action matches SessionActionView::Run { command, elevated } ==> (elevated ==> s.admin)
                && !s.busy && next.busy && command.len() > 0
            &&& next.admin == s.admin
            &&& s.busy ==> next.busy
        }),
        s.channel == Channel::Terminal && msg == EXEC_REQ && payload.len() > 0 && payload[0] == 0x31
            && trimmed(lossy_text(payload.skip(1))).len() > 0 && !s.admin ==> session_step(
            s,
            msg,
            payload,
            now,
        ) == (s, SessionActionView::Deny(DenyReason::NotAdmin)),
{
}

// ---------------------------------------------------------------- output of commands

/// How much output a command may still send. Both of its output streams draw
/// on it.
pub struct OutputBudget {
    left: usize,
    told: bool,
}

impl OutputBudget {
    #[verifier::type_invariant]
    spec fn wf(self) -> bool {
        self.left <= EXEC_OUT_CAP
    }

    /// The number of bytes that were sent.
    pub closed spec fn used(self) -> int {
        EXEC_OUT_CAP - self.left
    }

    /// The client was told that there is more output than it gets.
    pub closed spec fn has_told(self) -> bool {
        self.told
    }

    pub fn new() -> (r: Self)
        ensures
            r.used() == 0,
            !r.has_told(),
    {
        OutputBudget { left: EXEC_OUT_CAP, told: false }
    }

    /// How many bytes may be read into a buffer of this size.
    pub fn grant(&self, buffer: usize) -> (n: usize)
        ensures
            n == (if buffer <= EXEC_OUT_CAP - self.used() { buffer as int } else {
                EXEC_OUT_CAP - self.used()
            }),
            0 <= self.used() <= EXEC_OUT_CAP,
    {
        proof {
            use_type_invariant(self);
        }
        if buffer <= self.left { buffer } else { self.left }
    }

    /// Notes that some bytes are sent, and gives how many of them may be.
    pub fn draw(&mut self, n: usize) -> (m: usize)
        ensures
            m == (if n <= EXEC_OUT_CAP - old(self).used() { n as int } else {
                EXEC_OUT_CAP - old(self).used()
            }),
            final(self).used() == old(self).used() + m,
            final(self).used() <= EXEC_OUT_CAP,
            final(self).has_told() == old(self).has_told(),
    {
        proof {
            use_type_invariant(&*self);
        }
        let m: usize = if n <= self.left { n } else { self.left };
        self.left = self.left - m;
        m
    }

    /// Whether the notice that output was cut off is to be sent: once, when
    /// nothing may be sent any more.
    pub fn tell(&mut self) -> (r: bool)
        ensures
            r == (old(self).used() == EXEC_OUT_CAP && !old(self).has_told()),
            final(self).used() == old(self).used(),
            final(self).has_told() == (old(self).has_told() || r),
    {
        proof {
            use_type_invariant(&*self);
        }
        if self.left == 0 && !self.told {
            self.told = true;
            true
        } else {
            false
        }
    }
}

/// The notice that output was cut off.
pub const TRUNCATED_NOTICE: &'static str = "\r\n...output truncated...\r\n";

/// What the client is told when a command cannot be started; its exit code is
/// then 127.
pub fn cannot_start(reason: &str) -> (r: (String, i32))
    ensures
        r.0@ == "pyielink: cannot start command: "@ + reason@ + "\r\n"@,
        r.1 == 127,
{
    (cat3("pyielink: cannot start command: ", reason, "\r\n"), 127)
}

/// The shell that runs commands, and the flag before the command.
pub fn shell_for_exec(windows: bool) -> (r: (&'static str, &'static str))
    ensures
        windows ==> r.0@ == "cmd"@ && r.1@ == "/C"@,
        !windows ==> r.0@ == "sh"@ && r.1@ == "-c"@,
{
    if windows { ("cmd", "/C") } else { ("sh", "-c") }
}

// ---------------------------------------------------------------- the data layer

/// Why no data layer can be started, if none can, before it is tried.
pub open spec fn no_data_layer(node: bool, script: bool, port: bool) -> Option<Seq<char>> {
    if !node {
        Some("data layer unavailable: node runtime not found on PATH"@)
    } else if !script {
        Some("data layer unavailable: datalayer/src/server.js not found"@)
    } else if !port {
        Some("no free local port for data layer"@)
    } else {
        None
    }
}

/// Whether a data layer can be started: the runtime, the script and a port are
/// there.
pub fn can_spawn_datalayer(node: bool, script: bool, port: Option<u16>) -> (r: Result<u16, String>)
    ensures
        r is Ok == no_data_layer(node, script, port is Some) is None,
        r matches Ok(p) ==> port == Some(p),
        r matches Err(e) ==> no_data_layer(node, script, port is Some) == Some(e@),
{
    if !node {
        return Err(String::from_str("data layer unavailable: node runtime not found on PATH"));
    }
    if !script {
        return Err(String::from_str("data layer unavailable: datalayer/src/server.js not found"));
    }
    match port {
        Some(p) => Ok(p),
        None => Err(String::from_str("no free local port for data layer")),
    }
}

/// What the data layer is told of its session: the key, the user and the role,
/// one on each line.
pub fn handoff_text(key: &str, user: &str, admin: bool) -> (s: String)
    ensures
        s@ == key@ + "\n"@ + user@ + "\n"@ + (if admin { "admin"@ } else { "user"@ }) + "\n"@,
{
    let mut s = cat5(key, "\n", user, "\n", if admin { ROLE_ADMIN } else { ROLE_USER });
    s.append("\n");
    s
}

/// The name of the file that tells it, for a fresh random text.
pub fn handoff_name(fresh: &str) -> (s: String)
    ensures
        s@ == "pyielink-session-"@ + fresh@ + ".env"@,
{
    cat3("pyielink-session-", fresh, ".env")
}

/// The values that are there, in their order.
pub open spec fn present(a: Option<Seq<char>>, b: Option<Seq<char>>, c: Option<Seq<char>>) -> Seq<
    Seq<char>,
> {
    let x = if a is Some { seq![a->0] } else { Seq::empty() };
    let y = if b is Some { x.push(b->0) } else { x };
    if c is Some { y.push(c->0) } else { y }
}

/// The directories in which the data layer's script is looked for: the one
/// named by the environment, the program's, the current one.
pub fn datalayer_bases(named: Option<String>, exe_dir: Option<String>, cwd: Option<String>) -> (r:
    Vec<String>)
    ensures
        texts(r@) == present(owned_opt(named), owned_opt(exe_dir), owned_opt(cwd)),
{
    let mut r: Vec<String> = Vec::new();
    let ghost (a, b, c) = (owned_opt(named), owned_opt(exe_dir), owned_opt(cwd));
    if let Some(d) = named {
        r.push(d);
    }
    assert(texts(r@) =~= (if a is Some { seq![a->0] } else { Seq::empty() }));
    if let Some(d) = exe_dir {
        r.push(d);
    }
    assert(texts(r@) =~= present(a, b, None));
    if let Some(d) = cwd {
        r.push(d);
    }
    assert(texts(r@) =~= present(a, b, c));
    r
}

/// The script below one of those directories.
pub fn datalayer_script() -> (p: StatePath)
    ensures
        p@ == seq!["datalayer"@, "src"@, "server.js"@],
{
    let mut p = place2("datalayer", "src");
    let ghost before = p@;
    p.parts.push(String::from_str("server.js"));
    assert(p@ =~= before.push("server.js"@));
    assert(p@ =~= seq!["datalayer"@, "src"@, "server.js"@]);
    p
}

// ---------------------------------------------------------------- addresses of this device

/// The addresses with another after them, unless it is among them.
pub open spec fn with_new(v: Seq<PeerIp>, ip: PeerIp) -> Seq<PeerIp> {
    if v.contains(ip) { v } else { v.push(ip) }
}

/// The addresses of a list after others, each once.
pub open spec fn with_all_new(v: Seq<PeerIp>, more: Seq<PeerIp>) -> Seq<PeerIp>
    decreases more.len(),
{
    if more.len() == 0 {
        v
    } else {
        with_new(with_all_new(v, more.drop_last()), more.last())
    }
}

/// The addresses of this device: the one that leads outside first, then those
/// of its name, each once.
pub fn local_ips(outbound: Option<PeerIp>, resolved: &Vec<PeerIp>) -> (r: Vec<PeerIp>)
    ensures
        r@ == with_all_new(
            if outbound is Some { seq![outbound->0] } else { Seq::empty() },
            resolved@,
        ),
        forall|i: int, j: int| 0 <= i < j < r@.len() ==> r@[i] != r@[j],
{
    let mut r: Vec<PeerIp> = Vec::new();
    if let Some(ip) = outbound {
        r.push(ip);
    }
    let ghost first = r@;
    assert(first =~= (if outbound is Some { seq![outbound->0] } else { Seq::empty() }));
    let mut i: usize = 0;
    while i < resolved.len()
        invariant
            i <= resolved@.len(),
            r@ == with_all_new(first, resolved@.take(i as int)),
            forall|a: int, b: int| 0 <= a < b < r@.len() ==> r@[a] != r@[b],
        decreases resolved@.len() - i,
    {
        let ip = resolved[i];
        let mut found = false;
        let mut k: usize = 0;
        while k < r.len() && !found
            invariant
                k <= r@.len(),
                found ==> r@.contains(ip),
                !found ==> forall|j: int| 0 <= j < k ==> #[trigger] r@[j] != ip,
            decreases r@.len() - k, !found as nat,
        {
            if r[k] == ip {
                found = true;
                assert(r@[k as int] == ip);
            } else {
                k += 1;
            }
        }
        if !found {
            r.push(ip);
        }
        i += 1;
        proof {
            assert(resolved@.take(i as int).drop_last() =~= resolved@.take(i - 1));
        }
    }
    assert(resolved@.take(i as int) =~= resolved@);
    r
}

/// An address of the device itself.
pub open spec fn is_loopback(ip: PeerIp) -> bool {
    match ip {
        PeerIp::V4(a) => a / 0x100_0000 == 127,
        PeerIp::V6(a) => a == 1,
    }
}

/// Whether an address is one of the device itself.
pub fn loopback(ip: PeerIp) -> (r: bool)
    ensures
        r == is_loopback(ip),
{
    match ip {
        PeerIp::V4(a) => a / 0x100_0000 == 127,
        PeerIp::V6(a) => a == 1,
    }
}

/// The address to show to clients: the first that others can reach, else the
/// first.
pub fn banner_ip(ips: &Vec<PeerIp>) -> (r: Option<PeerIp>)
    ensures
        r is Some == (ips@.len() > 0),
        r matches Some(ip) ==> ips@.contains(ip),
        r matches Some(ip) ==> (is_loopback(ip) ==> ip == ips@[0] && forall|i: int|
            0 <= i < ips@.len() ==> is_loopback(#[trigger] ips@[i])),
        r matches Some(ip) ==> (!is_loopback(ip) ==> exists|i: int|
            0 <= i < ips@.len() && ips@[i] == ip && forall|j: int|
                0 <= j < i ==> is_loopback(#[trigger] ips@[j])),
{
    let mut i: usize = 0;
    while i < ips.len()
        invariant
            i <= ips@.len(),
            forall|j: int| 0 <= j < i ==> is_loopback(#[trigger] ips@[j]),
        decreases ips@.len() - i,
    {
        if !loopback(ips[i]) {
            assert(ips@[i as int] == ips@[i as int]);
            return Some(ips[i]);
        }
        i += 1;
    }
    if ips.len() == 0 { None } else {
        assert(ips@.contains(ips@[0]));
        Some(ips[0])
    }
}

} // verus!
