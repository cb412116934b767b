//! The client's side of a promoted session: what typed lines ask for, what
//! frames say, and when the session ends.

use crate::client::{basename_of, last_name, upper_hex, upper_hex_text};
use crate::host_session::{Channel, elapsed, elapsed_since, moment_in};
use crate::input::{input_message, input_text};
use crate::message::{
    INPUT_START_MESSAGE, INPUT_STOP_MESSAGE, VIDEO_PAUSE_MESSAGE, VIDEO_RESUME_MESSAGE,
    pull_message, push_message,
};
use crate::mux::{DL_CH_INPUT, DL_CH_META, DL_CH_VIDEO};
use crate::proto::{BYE, EXEC_DENY, EXEC_END, EXEC_OUT, PING, PONG, payload_text};
use crate::text::{
    begins, cat2, cat3, lossy_text, parse_unsigned, same, split_words, starts_with, strip_prefix,
    texts, trim, trimmed, words,
};
use crate::transfer::{Outcome, Transfers, TransfersView, new_get, new_put, settled};
use vstd::prelude::*;
use vstd::string::*;
use vstd::utf8::*;

verus! {

/// How long the host may be silent, in nanoseconds: 20 seconds.
pub const HB_STALE: u64 = 20_000_000_000;

// ---------------------------------------------------------------- commands for the data link

/// A key or a movement of the mouse.
#[derive(Clone, Copy, Debug, PartialEq, Eq, Structural)]
pub enum InputEvent {
    KeyDown { vk: u16, scan: u16, flags: u32 },
    KeyUp { vk: u16, scan: u16, flags: u32 },
    MouseMove { x: i32, y: i32, flags: u32 },
    MouseDown { button: u16, x: i32, y: i32, flags: u32 },
    MouseUp { button: u16, x: i32, y: i32, flags: u32 },
    MouseWheel { delta: i32, x: i32, y: i32, flags: u32 },
}

/// What the data link is asked to do.
pub enum DlCommand {
    Get { remote: String, local: String },
    Put { local: String, remote: String },
    Input { events: Vec<InputEvent> },
    InputStart,
    InputStop,
    VideoPause,
    VideoResume,
}

/// The message of a command that is a message and nothing else.
pub open spec fn plain_message(cmd: DlCommand) -> Option<(u8, Seq<char>)> {
    match cmd {
        DlCommand::InputStart => Some((DL_CH_INPUT, INPUT_START_MESSAGE@)),
        DlCommand::InputStop => Some((DL_CH_INPUT, INPUT_STOP_MESSAGE@)),
        DlCommand::VideoPause => Some((DL_CH_VIDEO, VIDEO_PAUSE_MESSAGE@)),
        DlCommand::VideoResume => Some((DL_CH_VIDEO, VIDEO_RESUME_MESSAGE@)),
        _ => None,
    }
}

/// The channel and the message of a command that is a message and nothing else.
pub fn command_message(cmd: &DlCommand) -> (r: Option<(u8, &'static str)>)
    ensures
        r is Some == plain_message(*cmd) is Some,
        r matches Some(m) ==> plain_message(*cmd) == Some((m.0, m.1@)),
{
    match cmd {
        DlCommand::InputStart => Some((DL_CH_INPUT, INPUT_START_MESSAGE)),
        DlCommand::InputStop => Some((DL_CH_INPUT, INPUT_STOP_MESSAGE)),
        DlCommand::VideoPause => Some((DL_CH_VIDEO, VIDEO_PAUSE_MESSAGE)),
        DlCommand::VideoResume => Some((DL_CH_VIDEO, VIDEO_RESUME_MESSAGE)),
        _ => None,
    }
}

/// What a session is for.
pub enum RunMode {
    Shell,
    OneShotGet { remote: String, local: String },
    OneShotPut { local: String, remote: String },
}

impl RunMode {
    /// The session is interactive or watches.
    pub open spec fn shell(self) -> bool {
        self is Shell
    }
}

/// A download as a session of its own; without a local name it takes the last
/// name of the remote one.
pub fn run_get(remote: &str, local: Option<&str>) -> (m: RunMode)
    ensures
        m matches RunMode::OneShotGet { remote: r, local: l } && r@ == remote@ && l@ == (
        if local is Some { local->0@ } else { last_name(remote@) }),
{
    let l = match local {
        Some(p) => String::from_str(p),
        None => basename_of(remote),
    };
    RunMode::OneShotGet { remote: String::from_str(remote), local: l }
}

/// An upload as a session of its own; without a remote name it takes the last
/// name of the local one. A name that is no file is refused.
pub fn run_put(local: &str, remote: Option<&str>, is_file: bool) -> (r: Result<RunMode, String>)
    ensures
        r is Ok == (local@.len() == 0 || is_file),
        r matches Ok(m) ==> (m matches RunMode::OneShotPut { local: l, remote: q } && l@ == local@
            && q@ == (if remote is Some { remote->0@ } else { last_name(local@) })),
        r matches Err(e) ==> e@ == "no such file: "@ + local@,
{
    if !local.is_empty() && !is_file {
        return Err(cat2("no such file: ", local));
    }
    let q = match remote {
        Some(p) => String::from_str(p),
        None => basename_of(local),
    };
    Ok(RunMode::OneShotPut { local: String::from_str(local), remote: q })
}

/// The result of a session whose loop ended well: a single transfer must have
/// succeeded.
pub fn session_result(mode: &RunMode, outcome: Outcome) -> (r: Result<(), String>)
    ensures
        r is Ok == (mode.shell() || outcome == Outcome::Done),
        r matches Err(e) ==> e@ == "file transfer failed"@,
{
    let done = match outcome {
        Outcome::Done => true,
        _ => false,
    };
    let shell = match mode {
        RunMode::Shell => true,
        _ => false,
    };
    if shell || done {
        Ok(())
    } else {
        Err(String::from_str("file transfer failed"))
    }
}

// ---------------------------------------------------------------- typed lines

/// What a line about a transfer asks for.
pub enum XferVerbView {
    Get { remote: Seq<char>, local: Seq<char> },
    Put { local: Seq<char>, remote: Seq<char> },
    /// The verb is known, its words are not right.
    Usage { verb: Seq<char> },
    /// Neither `get` nor `put`.
    UsageAll,
}

/// What a line about a transfer asks for: `get <remote> [local]` or
/// `put <local> [remote]`.
pub open spec fn xfer_verb(line: Seq<char>) -> XferVerbView {
    let w = words(line);
    if w.len() == 0 {
        XferVerbView::UsageAll
    } else if w[0] == "get"@ {
        if w.len() == 2 {
            XferVerbView::Get { remote: w[1], local: last_name(w[1]) }
        } else if w.len() == 3 {
            XferVerbView::Get { remote: w[1], local: w[2] }
        } else {
            XferVerbView::Usage { verb: w[0] }
        }
    } else if w[0] == "put"@ {
        if w.len() == 2 {
            XferVerbView::Put { local: w[1], remote: last_name(w[1]) }
        } else if w.len() == 3 {
            XferVerbView::Put { local: w[1], remote: w[2] }
        } else {
            XferVerbView::Usage { verb: w[0] }
        }
    } else {
        XferVerbView::UsageAll
    }
}

/// What a line about a transfer asks for.
pub enum XferVerb {
    Get { remote: String, local: String },
    Put { local: String, remote: String },
    Usage { verb: String },
    UsageAll,
}

impl View for XferVerb {
    type V = XferVerbView;

    open spec fn view(&self) -> XferVerbView {
        match self {
            XferVerb::Get { remote, local } => XferVerbView::Get {
                remote: remote@,
                local: local@,
            },
            XferVerb::Put { local, remote } => XferVerbView::Put {
                local: local@,
                remote: remote@,
            },
            XferVerb::Usage { verb } => XferVerbView::Usage { verb: verb@ },
            XferVerb::UsageAll => XferVerbView::UsageAll,
        }
    }
}

/// What a line about a transfer asks for.
pub fn handle_xfer_verb(line: &str) -> (r: XferVerb)
    ensures
        r@ == xfer_verb(line@),
{
    let w = split_words(line);
    let ghost ws = words(line@);
    if w.len() == 0 {
        assert(ws.len() == 0);
        return XferVerb::UsageAll;
    }
    assert(ws.len() == w@.len());
    assert forall|i: int| 0 <= i < w@.len() implies ws[i] == (#[trigger] w@[i])@ by {
        assert(texts(w@)[i] == w@[i]@);
    }
    let get = same(&w[0], "get");
    let put = same(&w[0], "put");
    proof {
        reveal_strlit("get");
        reveal_strlit("put");
        assert("get"@[0] != "put"@[0]);
    }
    if get {
        if w.len() == 2 {
            XferVerb::Get { remote: w[1].clone(), local: basename_of(&w[1]) }
        } else if w.len() == 3 {
            XferVerb::Get { remote: w[1].clone(), local: w[2].clone() }
        } else {
            XferVerb::Usage { verb: w[0].clone() }
        }
    } else if put {
        if w.len() == 2 {
            XferVerb::Put { local: w[1].clone(), remote: basename_of(&w[1]) }
        } else if w.len() == 3 {
            XferVerb::Put { local: w[1].clone(), remote: w[2].clone() }
        } else {
            XferVerb::Usage { verb: w[0].clone() }
        }
    } else {
        XferVerb::UsageAll
    }
}

/// What happens to input capture.
#[derive(Clone, Copy, Debug, PartialEq, Eq, Structural)]
pub enum InputVerb {
    Start,
    AlreadyRunning,
    Stop,
    NotRunning,
    Usage,
}

/// What a line about input capture does while capture runs or not.
pub open spec fn input_verb(line: Seq<char>, running: bool) -> InputVerb {
    let w = words(line);
    if w.len() >= 2 && w[0] == "input"@ && w[1] == "start"@ {
        if running { InputVerb::AlreadyRunning } else { InputVerb::Start }
    } else if w.len() >= 2 && w[0] == "input"@ && w[1] == "stop"@ {
        if running { InputVerb::Stop } else { InputVerb::NotRunning }
    } else {
        InputVerb::Usage
    }
}

/// What a line about input capture does; notes whether capture runs then.
pub fn handle_input_verb(line: &str, running: &mut bool) -> (r: InputVerb)
    ensures
        r == input_verb(line@, *old(running)),
        *final(running) == (if r == InputVerb::Start {
            true
        } else if r == InputVerb::Stop {
            false
        } else {
            *old(running)
        }),
{
    let w = split_words(line);
    assert(words(line@).len() == w@.len());
    assert forall|i: int| 0 <= i < w@.len() implies words(line@)[i] == (#[trigger] w@[i])@ by {
        assert(texts(w@)[i] == w@[i]@);
    }
    if w.len() >= 2 && same(&w[0], "input") && same(&w[1], "start") {
        if *running {
            InputVerb::AlreadyRunning
        } else {
            *running = true;
            InputVerb::Start
        }
    } else if w.len() >= 2 && same(&w[0], "input") && same(&w[1], "stop") {
        if !*running {
            InputVerb::NotRunning
        } else {
            *running = false;
            InputVerb::Stop
        }
    } else {
        InputVerb::Usage
    }
}

/// What a typed line does.
pub enum LineActionView {
    Nothing,
    /// Say goodbye and end the session.
    Quit,
    Transfer { line: Seq<char> },
    Input { line: Seq<char> },
    /// A command is still running: the line is not sent.
    StillRunning,
    SudoUsage,
    /// Send a request to run a command.
    Exec { payload: Seq<u8> },
}

/// The payload of a request to run a command.
pub open spec fn exec_payload(elevated: bool, command: Seq<char>) -> Seq<u8> {
    seq![if elevated { 0x31u8 } else { 0x30u8 }] + encode_utf8(command)
}

/// What a typed line does while a command runs or not.
pub open spec fn line_action(line: Seq<char>, awaiting: bool) -> LineActionView {
    let l = trimmed(line);
    if l.len() == 0 {
        LineActionView::Nothing
    } else if l == "exit"@ || l == "quit"@ {
        LineActionView::Quit
    } else if l == "get"@ || begins(l, "get "@) || l == "put"@ || begins(l, "put "@) {
        LineActionView::Transfer { line: l }
    } else if l == "input start"@ || l == "input stop"@ {
        LineActionView::Input { line: l }
    } else if awaiting {
        LineActionView::StillRunning
    } else if begins(l, "sudo "@) {
        let command = trimmed(l.skip(5));
        if command.len() > 0 {
            LineActionView::Exec { payload: exec_payload(true, command) }
        } else {
            LineActionView::SudoUsage
        }
    } else {
        LineActionView::Exec { payload: exec_payload(false, l) }
    }
}

/// What a typed line does.
pub enum LineAction {
    Nothing,
    Quit,
    Transfer { line: String },
    Input { line: String },
    StillRunning,
    SudoUsage,
    Exec { payload: Vec<u8> },
}

impl View for LineAction {
    type V = LineActionView;

    open spec fn view(&self) -> LineActionView {
        match self {
            LineAction::Nothing => LineActionView::Nothing,
            LineAction::Quit => LineActionView::Quit,
            LineAction::Transfer { line } => LineActionView::Transfer { line: line@ },
            LineAction::Input { line } => LineActionView::Input { line: line@ },
            LineAction::StillRunning => LineActionView::StillRunning,
            LineAction::SudoUsage => LineActionView::SudoUsage,
            LineAction::Exec { payload } => LineActionView::Exec { payload: payload@ },
        }
    }
}

fn exec_request(elevated: bool, command: &str) -> (p: Vec<u8>)
    ensures
        p@ == exec_payload(elevated, command@),
{
    let mut p: Vec<u8> = Vec::new();
    p.push(if elevated { 0x31 } else { 0x30 });
    p.extend_from_slice(command.as_bytes());
    assert(p@ =~= exec_payload(elevated, command@));
    p
}

// ---------------------------------------------------------------- the loop

/// A session in its loop. Moments are nanoseconds of a clock that never goes
/// back.
#[derive(Clone, Copy, Debug, PartialEq, Eq, Structural)]
pub struct ClientLoop {
    pub channel: Channel,
    /// Input comes from a console, whose end ends the session.
    pub tty: bool,
    /// The session is no single transfer.
    pub shell: bool,
    /// A command is running on the host.
    pub awaiting: bool,
    pub last_ping: u64,
    /// More lines may come in.
    pub stdin_open: bool,
}

/// What a frame says.
pub enum FrameActionView {
    Nothing,
    /// Answer a heartbeat with its own payload; it may carry the moment at
    /// which it was sent.
    Answer { payload: Seq<u8>, sent: Option<u128> },
    /// The host has closed the session.
    Closed,
    /// Output of the command.
    Output { bytes: Seq<u8> },
    /// The command has ended, with this code.
    Exit { code: Seq<char> },
    /// The command was not run, for this reason.
    Denied { reason: Seq<char> },
    /// The session is broken off.
    Fail { reason: Seq<char> },
}

/// The step of a session on a frame.
pub open spec fn client_frame_step(s: ClientLoop, msg: u8, payload: Seq<u8>, now: u64) -> (
    ClientLoop,
    FrameActionView,
) {
    if msg == PING {
        (
            ClientLoop { last_ping: now, ..s },
            FrameActionView::Answer { payload, sent: moment_in(lossy_text(payload)) },
        )
    } else if msg == BYE {
        (s, FrameActionView::Closed)
    } else if s.channel == Channel::Heartbeat {
        (
            s,
            FrameActionView::Fail {
                reason: "unexpected frame 0x"@ + upper_hex(msg) + " on control channel"@,
            },
        )
    } else if msg == EXEC_OUT {
        (s, FrameActionView::Output { bytes: payload })
    } else if msg == EXEC_END {
        (
            ClientLoop { awaiting: false, ..s },
            FrameActionView::Exit { code: trimmed(lossy_text(payload)) },
        )
    } else if msg == EXEC_DENY {
        (
            ClientLoop { awaiting: false, ..s },
            FrameActionView::Denied { reason: trimmed(lossy_text(payload)) },
        )
    } else if msg == PONG {
        (ClientLoop { last_ping: now, ..s }, FrameActionView::Nothing)
    } else {
        (s, FrameActionView::Nothing)
    }
}

/// What a frame says.
pub enum FrameAction {
    Nothing,
    Answer { payload: Vec<u8>, sent: Option<u128> },
    Closed,
    Output { bytes: Vec<u8> },
    Exit { code: String },
    Denied { reason: String },
    Fail { reason: String },
}

impl View for FrameAction {
    type V = FrameActionView;

    open spec fn view(&self) -> FrameActionView {
        match self {
            FrameAction::Nothing => FrameActionView::Nothing,
            FrameAction::Answer { payload, sent } => FrameActionView::Answer {
                payload: payload@,
                sent: *sent,
            },
            FrameAction::Closed => FrameActionView::Closed,
            FrameAction::Output { bytes } => FrameActionView::Output { bytes: bytes@ },
            FrameAction::Exit { code } => FrameActionView::Exit { code: code@ },
            FrameAction::Denied { reason } => FrameActionView::Denied { reason: reason@ },
            FrameAction::Fail { reason } => FrameActionView::Fail { reason: reason@ },
        }
    }
}

/// Why a session ends while nothing comes in.
#[derive(Clone, Copy, Debug, PartialEq, Eq, Structural)]
pub enum ClientEnd {
    DataLinkDied,
    TransferDone,
    Stalled,
}

impl ClientEnd {
    pub open spec fn goodbye(self) -> Seq<char> {
        match self {
            ClientEnd::DataLinkDied => "data-link lost"@,
            ClientEnd::TransferDone => "transfer done"@,
            ClientEnd::Stalled => "stall"@,
        }
    }

    /// What the host is told.
    pub fn bye(self) -> (s: &'static str)
        ensures
            s@ == self.goodbye(),
    {
        match self {
            ClientEnd::DataLinkDied => "data-link lost",
            ClientEnd::TransferDone => "transfer done",
            ClientEnd::Stalled => "stall",
        }
    }

    /// What the user is told, if the session did not end well.
    pub fn fault(self) -> (r: Option<&'static str>)
        ensures
            match self {
                ClientEnd::DataLinkDied => r is Some && r->0@ == "data link died — session ended"@,
                ClientEnd::TransferDone => r is None,
                ClientEnd::Stalled => r is Some && r->0@
                    == "host stopped responding to heartbeats"@,
            },
    {
        match self {
            ClientEnd::DataLinkDied => Some("data link died — session ended"),
            ClientEnd::TransferDone => None,
            ClientEnd::Stalled => Some("host stopped responding to heartbeats"),
        }
    }
}

/// Why a session ends while nothing comes in, if it does: a dead data link, a
/// single transfer that is over, or a silent host.
pub open spec fn idle_end(s: ClientLoop, link_dead: bool, transfer_over: bool, now: u64) -> Option<
    ClientEnd,
> {
    if s.channel == Channel::Terminal && link_dead {
        Some(ClientEnd::DataLinkDied)
    } else if s.channel == Channel::Terminal && !s.shell && transfer_over {
        Some(ClientEnd::TransferDone)
    } else if elapsed(s.last_ping, now) >= HB_STALE {
        Some(ClientEnd::Stalled)
    } else {
        None
    }
}

impl ClientLoop {
    /// A session at its start.
    pub fn start(channel: Channel, tty: bool, shell: bool, interactive: bool, now: u64) -> (s: Self)
        ensures
            s == (ClientLoop {
                channel,
                tty,
                shell,
                awaiting: false,
                last_ping: now,
                stdin_open: interactive,
            }),
    {
        ClientLoop { channel, tty, shell, awaiting: false, last_ping: now, stdin_open: interactive }
    }

    /// Takes a typed line.
    pub fn on_line(&mut self, line: &str) -> (a: LineAction)
        ensures
            a@ == line_action(line@, old(self).awaiting),
            *final(self) == (ClientLoop {
                awaiting: old(self).awaiting || a@ is Exec,
                ..*old(self)
            }),
    {
        let l = trim(line);
        if l.as_str().is_empty() {
            return LineAction::Nothing;
        }
        if same(&l, "exit") || same(&l, "quit") {
            return LineAction::Quit;
        }
        if same(&l, "get") || starts_with(&l, "get ") || same(&l, "put") || starts_with(
            &l,
            "put ",
        ) {
            return LineAction::Transfer { line: l };
        }
        if same(&l, "input start") || same(&l, "input stop") {
            return LineAction::Input { line: l };
        }
        if self.awaiting {
            return LineAction::StillRunning;
        }
        proof {
            reveal_strlit("sudo ");
        }
        match strip_prefix(&l, "sudo ") {
            Some(rest) => {
                let command = trim(&rest);
                if command.as_str().is_empty() {
                    LineAction::SudoUsage
                } else {
                    self.awaiting = true;
                    LineAction::Exec { payload: exec_request(true, &command) }
                }
            },
            None => {
                self.awaiting = true;
                LineAction::Exec { payload: exec_request(false, &l) }
            },
        }
    }

    /// Notes that no more lines come in. Gives whether that ends the session:
    /// at a console it does; a pipe that closes leaves the session alive.
    pub fn on_eof(&mut self) -> (end: bool)
        ensures
            end == old(self).tty,
            *final(self) == (ClientLoop { stdin_open: end && old(self).stdin_open, ..*old(self) }),
    {
        if self.tty {
            true
        } else {
            self.stdin_open = false;
            false
        }
    }

    /// Takes a frame.
    pub fn on_frame(&mut self, msg: u8, payload: Vec<u8>, now: u64) -> (a: FrameAction)
        ensures
            (*final(self), a@) == client_frame_step(*old(self), msg, payload@, now),
    {
        if msg == PING {
            self.last_ping = now;
            let t = payload_text(&payload);
            let t = trim(&t);
            let sent = parse_unsigned(&t, u128::MAX);
            return FrameAction::Answer { payload, sent };
        }
        if msg == BYE {
            return FrameAction::Closed;
        }
        let heartbeat = match self.channel {
            Channel::Heartbeat => true,
            Channel::Terminal => false,
        };
        if heartbeat {
            let h = upper_hex_text(msg);
            return FrameAction::Fail {
                reason: cat3("unexpected frame 0x", &h, " on control channel"),
            };
        }
        if msg == EXEC_OUT {
            FrameAction::Output { bytes: payload }
        } else if msg == EXEC_END {
            self.awaiting = false;
            let t = payload_text(&payload);
            FrameAction::Exit { code: trim(&t) }
        } else if msg == EXEC_DENY {
            self.awaiting = false;
            let t = payload_text(&payload);
            FrameAction::Denied { reason: trim(&t) }
        } else if msg == PONG {
            self.last_ping = now;
            FrameAction::Nothing
        } else {
            FrameAction::Nothing
        }
    }

    /// Looks after the session when nothing came in for a while.
    pub fn on_idle(&self, link_dead: bool, transfer_over: bool, now: u64) -> (r: Option<ClientEnd>)
        ensures
            r == idle_end(*self, link_dead, transfer_over, now),
    {
        let terminal = match self.channel {
            Channel::Heartbeat => false,
            Channel::Terminal => true,
        };
        if terminal && link_dead {
            Some(ClientEnd::DataLinkDied)
        } else if terminal && !self.shell && transfer_over {
            Some(ClientEnd::TransferDone)
        } else if elapsed_since(self.last_ping, now) >= HB_STALE {
            Some(ClientEnd::Stalled)
        } else {
            None
        }
    }
}

/// While a command runs, no other is sent; its end, or its denial, frees the
/// session.
pub proof fn one_command_at_a_time(s: ClientLoop, line: Seq<char>, payload: Seq<u8>, now: u64)
    ensures
        s.awaiting ==> !(line_action(line, s.awaiting) is Exec),
        s.channel == Channel::Terminal ==> !client_frame_step(s, EXEC_END, payload, now).0.awaiting,
        s.channel == Channel::Terminal ==> !client_frame_step(s, EXEC_DENY, payload, now).0.awaiting,
{
}

/// Only `sudo` asks for elevation: any other line that is sent asks for none.
pub proof fn elevation_is_asked_for(line: Seq<char>)
    ensures
        line_action(line, false) matches LineActionView::Exec { payload } ==> (payload[0] == 0x31)
            == begins(trimmed(line), "sudo "@),
{
}

// ---------------------------------------------------------------- starting commands

/// What is known of a local file that is to be sent: its size and its digest, or
/// why it cannot be read.
pub enum FileFacts {
    Known { size: u64, sha256: String },
    Unreadable { reason: String },
}

/// What is started by a command: the transfers after it, and the channel and
/// the text to send, or why it cannot be started. `have` is how many bytes of a
/// download are there.
pub open spec fn command_started(
    t: TransfersView,
    cmd: DlCommand,
    have: u64,
    file: FileFacts,
) -> (TransfersView, Result<(u8, Seq<char>), Seq<char>>) {
    match cmd {
        DlCommand::Get { remote, local } => (
            TransfersView {
                map: t.map.insert(t.next_id, new_get(remote@, local@, have)),
                next_id: (t.next_id + 1) as u32,
                ..t
            },
            Ok((DL_CH_META, pull_message(t.next_id, remote@, have))),
        ),
        DlCommand::Put { local, remote } => match file {
            FileFacts::Known { size, sha256 } => (
                TransfersView {
                    map: t.map.insert(t.next_id, new_put(local@, remote@, size)),
                    next_id: (t.next_id + 1) as u32,
                    ..t
                },
                Ok((DL_CH_META, push_message(t.next_id, remote@, size, sha256@))),
            ),
            FileFacts::Unreadable { reason } => (t, Err(reason@)),
        },
        DlCommand::Input { events } => (t, Ok((DL_CH_INPUT, input_text(events@)))),
        _ => (t, Ok(plain_message(cmd)->0)),
    }
}

/// Starts a command: notes the transfer that it begins, and gives the channel
/// and the text to send. A command that cannot be started fails a single
/// transfer.
pub fn start_cmd(
    t: &mut Transfers,
    cmd: &DlCommand,
    have: u64,
    file: FileFacts,
) -> (r: Result<(u8, String), String>)
    requires
        old(t)@.next_id < u32::MAX,
    ensures
        ({
            let (after, sent) = command_started(old(t)@, *cmd, have, file);
            match sent {
                Ok(m) => final(t)@ == after && r is Ok && r->Ok_0.0 == m.0 && r->Ok_0.1@ == m.1,
                Err(e) => r is Err && r->Err_0@ == e && final(t)@ == (TransfersView {
                    outcome: settled(after.outcome, false),
                    ..after
                }),
            }
        }),
{
    match cmd {
        DlCommand::Get { remote, local } => {
            let m = t.start_get(remote, local, have);
            Ok((DL_CH_META, m))
        },
        DlCommand::Put { local, remote } => match file {
            FileFacts::Known { size, sha256 } => {
                let m = t.start_put(local, remote, size, &sha256);
                Ok((DL_CH_META, m))
            },
            FileFacts::Unreadable { reason } => {
                t.not_started();
                Err(reason)
            },
        },
        DlCommand::Input { events } => Ok((DL_CH_INPUT, input_message(events))),
        DlCommand::InputStart => Ok((DL_CH_INPUT, String::from_str(INPUT_START_MESSAGE))),
        DlCommand::InputStop => Ok((DL_CH_INPUT, String::from_str(INPUT_STOP_MESSAGE))),
        DlCommand::VideoPause => Ok((DL_CH_VIDEO, String::from_str(VIDEO_PAUSE_MESSAGE))),
        DlCommand::VideoResume => Ok((DL_CH_VIDEO, String::from_str(VIDEO_RESUME_MESSAGE))),
    }
}

/// The command with which a session of that mode begins, if it begins with one.
pub fn first_command(mode: &RunMode) -> (c: Option<DlCommand>)
    ensures
        match *mode {
            RunMode::Shell => c is None,
            RunMode::OneShotGet { remote, local } => c == Some(DlCommand::Get { remote, local }),
            RunMode::OneShotPut { local, remote } => c == Some(DlCommand::Put { local, remote }),
        },
{
    match mode {
        RunMode::Shell => None,
        RunMode::OneShotGet { remote, local } => Some(
            DlCommand::Get { remote: remote.clone(), local: local.clone() },
        ),
        RunMode::OneShotPut { local, remote } => Some(
            DlCommand::Put { local: local.clone(), remote: remote.clone() },
        ),
    }
}

} // verus!
