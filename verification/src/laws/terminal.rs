//! The remote terminal: typed lines, frames and the lives of both sides.

use crate::client::{last_name, upper_hex};
use crate::client_session::{
    ClientEnd, ClientLoop, DlCommand, FrameAction, FrameActionView, InputVerb, LineAction,
    LineActionView, RunMode, XferVerb, XferVerbView, first_command, handle_input_verb,
    handle_xfer_verb, input_verb, run_get, run_put, session_result, xfer_verb,
};
use crate::host_session::{
    Channel, DenyReason, EndReason, OutputBudget, SessionAction, SessionActionView, SessionLoop,
    round_trip,
};
use crate::laws::text::{
    all_white, is_tight, is_word, last_name_is_last, signs_are_written, spaced,
    trimming_takes_off_blanks, words_read_back,
};
use crate::text::{
    begins, decimal, decimal_reads_back, encoded_text_reads_back, is_digit, lemma_decimal,
    lemma_trimmed_same,
};
use crate::transfer::Outcome;
use vstd::prelude::*;
use vstd::string::*;
use vstd::utf8::*;

verus! {

// ---------------------------------------------------------------- typed lines

/// A verb of file transfer, alone or with something behind it.
pub open spec fn is_transfer_line(l: Seq<char>) -> bool {
    l == seq!['g', 'e', 't'] || l == seq!['p', 'u', 't'] || l.len() > 4 && (l.take(4) == seq![
        'g',
        'e',
        't',
        ' ',
    ] || l.take(4) == seq!['p', 'u', 't', ' '])
}

/// A line that ends the session.
pub open spec fn is_farewell(l: Seq<char>) -> bool {
    l == seq!['e', 'x', 'i', 't'] || l == seq!['q', 'u', 'i', 't']
}

/// A line about input capture.
pub open spec fn is_capture_line(l: Seq<char>) -> bool {
    l == spaced(seq!["input"@, "start"@]) || l == spaced(seq!["input"@, "stop"@])
}

/// A line that asks for elevation.
pub open spec fn asks_elevation(l: Seq<char>) -> bool {
    l.len() > 5 && l.take(5) == seq!['s', 'u', 'd', 'o', ' ']
}

proof fn lemma_verbs()
    ensures
        "get"@ == seq!['g', 'e', 't'],
        "put"@ == seq!['p', 'u', 't'],
        "get "@ == seq!['g', 'e', 't', ' '],
        "put "@ == seq!['p', 'u', 't', ' '],
        "exit"@ == seq!['e', 'x', 'i', 't'],
        "quit"@ == seq!['q', 'u', 'i', 't'],
        "sudo "@ == seq!['s', 'u', 'd', 'o', ' '],
        "input start"@ == spaced(seq!["input"@, "start"@]),
        "input stop"@ == spaced(seq!["input"@, "stop"@]),
        is_word("get"@),
        is_word("put"@),
        is_word("input"@),
        is_word("start"@),
        is_word("stop"@),
        "start"@.len() == 5,
        "stop"@.len() == 4,
        "input start"@.len() == 11 && "input start"@[0] == 'i',
        "input stop"@.len() == 10 && "input stop"@[0] == 'i',
{
    reveal_strlit("get");
    reveal_strlit("put");
    reveal_strlit("get ");
    reveal_strlit("put ");
    reveal_strlit("exit");
    reveal_strlit("quit");
    reveal_strlit("sudo ");
    reveal_strlit("input start");
    reveal_strlit("input stop");
    reveal_strlit("input");
    reveal_strlit("start");
    reveal_strlit("stop");
    assert("get"@ =~= seq!['g', 'e', 't']);
    assert("put"@ =~= seq!['p', 'u', 't']);
    assert("get "@ =~= seq!['g', 'e', 't', ' ']);
    assert("put "@ =~= seq!['p', 'u', 't', ' ']);
    assert("exit"@ =~= seq!['e', 'x', 'i', 't']);
    assert("quit"@ =~= seq!['q', 'u', 'i', 't']);
    assert("sudo "@ =~= seq!['s', 'u', 'd', 'o', ' ']);
    let a = seq!["input"@, "start"@];
    let b = seq!["input"@, "stop"@];
    assert(a.drop_first() =~= seq!["start"@]);
    assert(b.drop_first() =~= seq!["stop"@]);
    reveal_with_fuel(spaced, 3);
    assert("input start"@ =~= spaced(a));
    assert("input stop"@ =~= spaced(b));
}

/// A typed line as it stands between white space.
pub open spec fn is_typed(line: Seq<char>, a: Seq<char>, l: Seq<char>, b: Seq<char>) -> bool {
    line == a + l + b && all_white(a) && all_white(b) && is_tight(l)
}

/// A line with a verb of file transfer goes to the data link as it was typed, while
/// a command runs too, and nothing is sent to the host as a command.
pub proof fn transfer_lines_are_transfers(
    s: &mut ClientLoop,
    line: &str,
    action: LineAction,
    a: Seq<char>,
    l: Seq<char>,
    b: Seq<char>,
)
    requires
        call_ensures(ClientLoop::on_line, (s, line), action),
        is_typed(line@, a, l, b),
    ensures
        is_transfer_line(l) ==> action@ == (LineActionView::Transfer { line: l }),
        is_transfer_line(l) ==> *final(s) == *old(s),
        !is_transfer_line(l) ==> !(action@ is Transfer),
{
    lemma_verbs();
    trimming_takes_off_blanks(a, l, b);
    if l.len() == 4 {
        assert(l.take(4) =~= l);
    }
}

/// A line that ends the session does so, one about input capture goes there, and a
/// blank one does nothing. None of them touches the host.
pub proof fn local_lines_stay_here(
    s: &mut ClientLoop,
    line: &str,
    action: LineAction,
    a: Seq<char>,
    l: Seq<char>,
    b: Seq<char>,
)
    requires
        call_ensures(ClientLoop::on_line, (s, line), action),
        is_typed(line@, a, l, b),
    ensures
        (action@ is Nothing) == (l.len() == 0),
        (action@ is Quit) == is_farewell(l),
        is_capture_line(l) ==> action@ == (LineActionView::Input { line: l }),
        (action@ is Input) == is_capture_line(l),
        !(action@ is Exec) ==> *final(s) == *old(s),
{
    lemma_verbs();
    trimming_takes_off_blanks(a, l, b);
    if l.len() >= 4 {
        assert(l.take(4)[0] == l[0]);
    }
}

/// Any other line is a command. It waits for the one that runs; else it is sent as
/// it was typed, with elevation where it asks for that and names a command.
pub proof fn other_lines_are_commands(
    s: &mut ClientLoop,
    line: &str,
    action: LineAction,
    a: Seq<char>,
    l: Seq<char>,
    b: Seq<char>,
)
    requires
        call_ensures(ClientLoop::on_line, (s, line), action),
        is_typed(line@, a, l, b),
        l.len() > 0,
        !is_farewell(l),
        !is_transfer_line(l),
        !is_capture_line(l),
    ensures
        old(s).awaiting ==> action@ is StillRunning && *final(s) == *old(s),
        !old(s).awaiting && !asks_elevation(l) ==> action@ == (LineActionView::Exec {
            payload: seq![0x30u8] + encode_utf8(l),
        }),
        !old(s).awaiting ==> final(s).awaiting == (action@ is Exec),
{
    lemma_verbs();
    trimming_takes_off_blanks(a, l, b);
    if begins(l, "sudo "@) && l.len() == 5 {
        assert(l.take(5) =~= l);
    }
    if l.len() == 4 {
        assert(l.take(4) =~= l);
    }
}

/// What stands behind `sudo` is sent as the command, with elevation.
pub proof fn elevated_commands_are_sent(
    s: &mut ClientLoop,
    line: &str,
    action: LineAction,
    a: Seq<char>,
    gap: Seq<char>,
    command: Seq<char>,
    b: Seq<char>,
)
    requires
        call_ensures(ClientLoop::on_line, (s, line), action),
        is_typed(line@, a, seq!['s', 'u', 'd', 'o', ' '] + gap + command, b),
        all_white(gap),
        is_tight(command),
        command.len() > 0,
        !old(s).awaiting,
    ensures
        action@ == (LineActionView::Exec { payload: seq![0x31u8] + encode_utf8(command) }),
        final(s).awaiting,
{
    lemma_verbs();
    let l = seq!['s', 'u', 'd', 'o', ' '] + gap + command;
    trimming_takes_off_blanks(a, l, b);
    assert(l.take(5) =~= "sudo "@);
    assert(l.skip(5) =~= gap + command + Seq::<char>::empty());
    trimming_takes_off_blanks(gap, command, Seq::empty());
    assert(l[0] == 's' && l[1] == 'u' && l[4] == ' ' && l[3] == 'o');
    if is_capture_line(l) {
        reveal_with_fuel(spaced, 3);
        reveal_strlit("input");
        assert(spaced(seq!["input"@, "start"@])[0] == 'i');
        assert(spaced(seq!["input"@, "stop"@])[0] == 'i');
    }
    assert("input start"@[0] == 'i' && "input stop"@[0] == 'i') by {
        reveal_strlit("input start");
        reveal_strlit("input stop");
    }
    assert(l.take(4)[0] == 's');
}

/// A download that is asked for with two names fetches the first as the second;
/// with one name it keeps it, and an upload goes the other way.
pub proof fn transfer_lines_read_back(x: Seq<char>, y: Seq<char>)
    requires
        is_word(x),
        is_word(y),
    ensures
        xfer_verb(spaced(seq!["get"@, x, y])) == (XferVerbView::Get { remote: x, local: y }),
        xfer_verb(spaced(seq!["put"@, x, y])) == (XferVerbView::Put { local: x, remote: y }),
        xfer_verb(spaced(seq!["get"@, x])) == (XferVerbView::Get {
            remote: x,
            local: last_name(x),
        }),
        xfer_verb(spaced(seq!["put"@, x])) == (XferVerbView::Put {
            local: x,
            remote: last_name(x),
        }),
{
    lemma_verbs();
    assert(seq!['g', 'e', 't'][0] != seq!['p', 'u', 't'][0]);
    words_read_back(seq!["get"@, x, y]);
    words_read_back(seq!["put"@, x, y]);
    words_read_back(seq!["get"@, x]);
    words_read_back(seq!["put"@, x]);
}

/// A line of the prompt is read as the transfer that it asks for.
pub proof fn typed_verbs_are_read(line: &str, r: XferVerb, x: Seq<char>, y: Seq<char>)
    requires
        call_ensures(handle_xfer_verb, (line,), r),
        is_word(x),
        is_word(y),
    ensures
        line@ == spaced(seq!["get"@, x, y]) ==> r@ == (XferVerbView::Get { remote: x, local: y }),
        line@ == spaced(seq!["put"@, x, y]) ==> r@ == (XferVerbView::Put { local: x, remote: y }),
        line@ == spaced(seq!["get"@, x]) ==> r@ == (XferVerbView::Get {
            remote: x,
            local: last_name(x),
        }),
        line@ == spaced(seq!["put"@, x]) ==> r@ == (XferVerbView::Put {
            local: x,
            remote: last_name(x),
        }),
{
    transfer_lines_read_back(x, y);
}

/// A line with a verb but too few or too many names asks for neither, and so does
/// a line without a verb.
pub proof fn wrong_transfer_lines_are_told(ws: Seq<Seq<char>>)
    requires
        forall|i: int| 0 <= i < ws.len() ==> is_word(#[trigger] ws[i]),
    ensures
        ws.len() == 0 || ws[0] != "get"@ && ws[0] != "put"@ ==> xfer_verb(spaced(ws)) is UsageAll,
        ws.len() > 0 && (ws[0] == "get"@ || ws[0] == "put"@) && ws.len() != 2 && ws.len() != 3
            ==> xfer_verb(spaced(ws)) == (XferVerbView::Usage { verb: ws[0] }),
{
    lemma_verbs();
    words_read_back(ws);
}

/// A transfer that was typed reaches the data link as what it asks for, from the
/// prompt on.
pub proof fn typed_transfers_arrive(
    s: &mut ClientLoop,
    line: &str,
    action: LineAction,
    x: Seq<char>,
    y: Seq<char>,
    put: bool,
)
    requires
        call_ensures(ClientLoop::on_line, (s, line), action),
        is_word(x),
        is_word(y),
        line@ == spaced(seq![if put { "put"@ } else { "get"@ }, x, y]),
    ensures
        action@ matches LineActionView::Transfer { line: l } && xfer_verb(l) == (if put {
            XferVerbView::Put { local: x, remote: y }
        } else {
            XferVerbView::Get { remote: x, local: y }
        }),
{
    lemma_verbs();
    let verb = if put { "put"@ } else { "get"@ };
    let ws = seq![verb, x, y];
    let l = spaced(ws);
    assert(ws.drop_first() =~= seq![x, y]);
    assert(seq![x, y].drop_first() =~= seq![y]);
    reveal_with_fuel(spaced, 4);
    assert(l =~= verb + seq![' '] + (x + seq![' '] + y));
    assert(l.take(4) =~= verb + seq![' ']);
    assert(verb + seq![' '] =~= if put { "put "@ } else { "get "@ });
    assert(l.last() == y.last());
    assert(line@ =~= Seq::<char>::empty() + l + Seq::<char>::empty());
    transfer_lines_are_transfers(s, line, action, Seq::empty(), l, Seq::empty());
    transfer_lines_read_back(x, y);
}

/// Input capture starts where it does not run and stops where it runs, and the
/// user hears of a line that changes nothing.
pub proof fn capture_lines_switch(line: &str, running: &mut bool, r: InputVerb)
    requires
        call_ensures(handle_input_verb, (line, running), r),
    ensures
        line@ == spaced(seq!["input"@, "start"@]) ==> *final(running) && (r
            == InputVerb::AlreadyRunning) == *old(running) && (r == InputVerb::Start) == !*old(running),
        line@ == spaced(seq!["input"@, "stop"@]) ==> !*final(running) && (r == InputVerb::Stop)
            == *old(running) && (r == InputVerb::NotRunning) == !*old(running),
{
    lemma_verbs();
    words_read_back(seq!["input"@, "start"@]);
    words_read_back(seq!["input"@, "stop"@]);
}

/// Other words about input capture change nothing.
pub proof fn other_capture_lines_change_nothing(ws: Seq<Seq<char>>, running: bool)
    requires
        forall|i: int| 0 <= i < ws.len() ==> is_word(#[trigger] ws[i]),
        ws.len() < 2 || ws[0] != "input"@ || ws[1] != "start"@ && ws[1] != "stop"@,
    ensures
        input_verb(spaced(ws), running) == InputVerb::Usage,
{
    words_read_back(ws);
}

// ---------------------------------------------------------------- sessions of one transfer

/// A session for a download begins with that download, and one for an upload with
/// that upload; a shell begins with nothing.
pub proof fn one_shot_sessions_begin_with_their_transfer(
    remote: &str,
    local: &str,
    get: RunMode,
    put: Result<RunMode, String>,
    c: Option<DlCommand>,
    d: Option<DlCommand>,
    e: Option<DlCommand>,
)
    requires
        call_ensures(run_get, (remote, Some(local)), get),
        call_ensures(run_put, (local, Some(remote), true), put),
        call_ensures(first_command, (&get,), c),
        put is Ok ==> call_ensures(first_command, (&put->Ok_0,), d),
        call_ensures(first_command, (&RunMode::Shell,), e),
    ensures
        c matches Some(DlCommand::Get { remote: r, local: l }) && r@ == remote@ && l@ == local@,
        put is Ok,
        d matches Some(DlCommand::Put { local: l, remote: r }) && r@ == remote@ && l@ == local@,
        e is None,
{
}

/// Without a second name a single transfer keeps the last name of the first.
pub proof fn one_shot_transfers_keep_names(
    dir: Seq<char>,
    name: Seq<char>,
    path: &str,
    get: RunMode,
    put: Result<RunMode, String>,
)
    requires
        call_ensures(run_get, (path, None::<&str>), get),
        call_ensures(run_put, (path, None::<&str>, true), put),
        path@ == dir + seq!['/'] + name,
        name.len() > 0,
        forall|i: int| 0 <= i < name.len() ==> (#[trigger] name[i]) != '/' && name[i] != '\\',
    ensures
        get matches RunMode::OneShotGet { remote, local } && remote@ == path@ && local@ == name,
        put matches Ok(RunMode::OneShotPut { local, remote }) && local@ == path@ && remote@ == name,
{
    let d = dir + seq!['/'];
    assert(path@ =~= d + name + Seq::<char>::empty());
    last_name_is_last(d, name, Seq::empty());
}

/// What is no file is not uploaded, and a single transfer that did not succeed
/// makes the session fail; a shell never does for that.
pub proof fn failed_transfers_are_reported(
    local: &str,
    remote: Option<&str>,
    put: Result<RunMode, String>,
    mode: RunMode,
    outcome: Outcome,
    r: Result<(), String>,
)
    requires
        call_ensures(run_put, (local, remote, false), put),
        call_ensures(session_result, (&mode, outcome), r),
    ensures
        local@.len() > 0 ==> put is Err,
        mode is Shell ==> r is Ok,
        !(mode is Shell) ==> (r is Ok) == (outcome == Outcome::Done),
{
}

// ---------------------------------------------------------------- frames at the client

/// What the host sends of a command's output is shown byte for byte; its end and
/// its denial are told with their text, and free the terminal.
pub proof fn answers_are_shown(
    s: &mut ClientLoop,
    msg: u8,
    payload: Vec<u8>,
    now: u64,
    action: FrameAction,
    text: Seq<char>,
)
    requires
        call_ensures(ClientLoop::on_frame, (s, msg, payload, now), action),
        old(s).channel == Channel::Terminal,
    ensures
        msg == 0x11 ==> action@ == (FrameActionView::Output { bytes: payload@ }) && *final(s)
            == *old(s),
        msg == 0x12 && payload@ == encode_utf8(text) && is_tight(text) ==> action@ == (
        FrameActionView::Exit { code: text }) && !final(s).awaiting,
        msg == 0x13 && payload@ == encode_utf8(text) && is_tight(text) ==> action@ == (
        FrameActionView::Denied { reason: text }) && !final(s).awaiting,
        (action@ is Exit) == (msg == 0x12),
        (action@ is Denied) == (msg == 0x13),
        (action@ is Output) == (msg == 0x11),
        (action@ is Closed) == (msg == 0x0F),
        msg != 0x12 && msg != 0x13 ==> final(s).awaiting == old(s).awaiting,
        msg != 0x0D && msg != 0x0E ==> final(s).last_ping == old(s).last_ping,
        !(action@ is Fail),
{
    if payload@ == encode_utf8(text) && is_tight(text) {
        encoded_text_reads_back(text);
        assert(Seq::<char>::empty() + text + Seq::<char>::empty() =~= text);
        trimming_takes_off_blanks(Seq::empty(), text, Seq::empty());
    }
}

/// A heartbeat is answered with what it carried, and shows that the host lives;
/// so does an answer to one.
pub proof fn heartbeats_show_life(
    s: &mut ClientLoop,
    msg: u8,
    payload: Vec<u8>,
    now: u64,
    action: FrameAction,
)
    requires
        call_ensures(ClientLoop::on_frame, (s, msg, payload, now), action),
    ensures
        msg == 0x0D ==> (action@ matches FrameActionView::Answer { payload: p, sent: _ } && p
            == payload@) && final(s).last_ping == now,
        msg == 0x0E && old(s).channel == Channel::Terminal ==> final(s).last_ping == now,
        (action@ is Answer) == (msg == 0x0D),
        old(s).channel == Channel::Heartbeat && msg != 0x0D && msg != 0x0F ==> action@ is Fail,
        final(s).channel == old(s).channel && final(s).shell == old(s).shell && final(s).tty
            == old(s).tty && final(s).stdin_open == old(s).stdin_open,
{
}

/// A session of a terminal ends with its data link. A session for one transfer
/// ends with the transfer. Else a session goes on while the host shows life every
/// twenty seconds.
pub proof fn silent_hosts_are_left(
    s: &ClientLoop,
    dead: bool,
    over: bool,
    now: u64,
    r: Option<ClientEnd>,
)
    requires
        call_ensures(ClientLoop::on_idle, (s, dead, over, now), r),
    ensures
        s.channel == Channel::Terminal && dead ==> r == Some(ClientEnd::DataLinkDied),
        s.channel == Channel::Terminal && !dead && !s.shell && over ==> r == Some(
            ClientEnd::TransferDone,
        ),
        !dead && (s.shell || !over) && now < s.last_ping + 20_000_000_000 ==> r is None,
        !dead && (s.shell || !over) && now >= s.last_ping + 20_000_000_000 ==> r == Some(
            ClientEnd::Stalled,
        ),
        s.channel == Channel::Heartbeat && now < s.last_ping + 20_000_000_000 ==> r is None,
{
}

/// Only an end that was not meant is a fault.
pub proof fn faults_are_told(end: ClientEnd, r: Option<&'static str>)
    requires
        call_ensures(ClientEnd::fault, (end,), r),
    ensures
        (r is None) == (end == ClientEnd::TransferDone),
{
}

/// The end of input ends a session at a console; elsewhere the session goes on
/// without more lines. A new session has no command running.
pub proof fn end_of_input(
    s: &mut ClientLoop,
    end: bool,
    channel: Channel,
    tty: bool,
    shell: bool,
    interactive: bool,
    now: u64,
    fresh: ClientLoop,
)
    requires
        call_ensures(ClientLoop::on_eof, (s,), end),
        call_ensures(ClientLoop::start, (channel, tty, shell, interactive, now), fresh),
    ensures
        end == old(s).tty,
        !end ==> !final(s).stdin_open,
        final(s).awaiting == old(s).awaiting && final(s).last_ping == old(s).last_ping,
        !fresh.awaiting && fresh.last_ping == now && fresh.tty == tty && fresh.shell == shell
            && fresh.stdin_open == interactive && fresh.channel == channel,
{
}

// ---------------------------------------------------------------- the host's side

/// A request to run a command runs what stands behind its first byte, elevated
/// where that byte is `1`, unless the account may not or a command runs.
pub proof fn requests_run_commands(
    s: &mut SessionLoop,
    payload: Vec<u8>,
    now: u64,
    action: SessionAction,
    first: u8,
    command: Seq<char>,
)
    requires
        call_ensures(SessionLoop::on_frame, (s, 0x10u8, payload, now), action),
        old(s).channel == Channel::Terminal,
        payload@ == seq![first] + encode_utf8(command),
        is_tight(command),
        command.len() > 0,
    ensures
        first == 0x31 && !old(s).admin ==> action@ == SessionActionView::Deny(DenyReason::NotAdmin),
        (first != 0x31 || old(s).admin) && old(s).busy ==> action@ == SessionActionView::Deny(
            DenyReason::Busy,
        ),
        (first != 0x31 || old(s).admin) && !old(s).busy ==> action@ == (SessionActionView::Run {
            command,
            elevated: first == 0x31,
        }) && final(s).busy,
        action@ is Deny ==> *final(s) == *old(s),
{
    assert(payload@.skip(1) =~= encode_utf8(command));
    encoded_text_reads_back(command);
    assert(Seq::<char>::empty() + command + Seq::<char>::empty() =~= command);
    trimming_takes_off_blanks(Seq::empty(), command, Seq::empty());
}

/// The host answers a heartbeat with what it carried, takes an answer to one as a
/// sign of life, ends with a goodbye, and ends on a strange frame only where
/// nothing but heartbeats belongs.
pub proof fn host_hears_the_client(
    s: &mut SessionLoop,
    msg: u8,
    payload: Vec<u8>,
    now: u64,
    action: SessionAction,
)
    requires
        call_ensures(SessionLoop::on_frame, (s, msg, payload, now), action),
    ensures
        msg == 0x0D ==> action@ == (SessionActionView::Answer { payload: payload@ }),
        msg == 0x0E ==> action@ is Touch,
        msg == 0x0D || msg == 0x0E ==> final(s).last_pong == now,
        msg == 0x0F ==> action@ == SessionActionView::End(EndReason::Bye),
        msg != 0x0D && msg != 0x0E ==> final(s).last_pong == old(s).last_pong,
        old(s).channel == Channel::Heartbeat && msg != 0x0D && msg != 0x0E && msg != 0x0F
            ==> action@ == SessionActionView::End(EndReason::Unexpected(msg)),
        old(s).channel == Channel::Terminal && msg != 0x0F ==> !(action@ is End),
        (action@ is Run || action@ is Deny) ==> msg == 0x10,
        final(s).channel == old(s).channel && final(s).admin == old(s).admin && final(s).last_ping
            == old(s).last_ping,
{
}

/// A client that gave no sign of life for fifteen seconds is lost; heartbeats go
/// out every five seconds, the first at once.
pub proof fn silent_clients_are_lost(
    s: &SessionLoop,
    now: u64,
    r: Option<EndReason>,
    due: bool,
    p: &mut SessionLoop,
    later: u64,
    q: &SessionLoop,
    again: bool,
    fresh: SessionLoop,
    at_once: bool,
)
    requires
        call_ensures(SessionLoop::on_idle, (s, now), r),
        call_ensures(SessionLoop::ping_due, (s, now), due),
        call_ensures(SessionLoop::pinged, (p, now), ()),
        *q == *final(p),
        call_ensures(SessionLoop::ping_due, (q, later), again),
        call_ensures(SessionLoop::start, (Channel::Terminal, false, now), fresh),
        call_ensures(SessionLoop::ping_due, (&fresh, later), at_once),
    ensures
        (r is Some) == (now >= s.last_pong + 15_000_000_000),
        r is Some ==> r == Some(EndReason::Lost),
        again == (later >= now + 5_000_000_000),
        at_once,
        !fresh.busy && fresh.last_pong == now && !fresh.admin,
        final(p).last_pong == old(p).last_pong && final(p).busy == old(p).busy,
{
}

/// The end of a command frees the session, and its exit code is told as it is; one
/// that has none is told as -1.
pub proof fn ends_of_commands_are_told(s: &mut SessionLoop, code: Option<i32>, text: String)
    requires
        call_ensures(SessionLoop::on_command_end, (s, code), text),
    ensures
        !final(s).busy,
        final(s).admin == old(s).admin && final(s).last_pong == old(s).last_pong,
        code matches Some(c) ==> (c >= 0 ==> text@ == decimal(c as nat)),
        code matches Some(c) ==> (c < 0 ==> text@ == seq!['-'] + decimal((-(c as int)) as nat)),
        code is None ==> text@ == seq!['-'] + decimal(1),
{
    if let Some(c) = code {
        if c < 0 {
            signs_are_written((-(c as int)) as nat);
        }
    }
    signs_are_written(1);
}

/// The round trip of a heartbeat is the time from its sending to its return.
pub proof fn round_trips_add_up(sent: u128, took: u128, now: u128, r: u128, early: u128, z: u128)
    requires
        sent + took <= u128::MAX,
        call_ensures(round_trip, ((sent + took) as u128, sent), r),
        early < sent,
        call_ensures(round_trip, (early, sent), z),
    ensures
        r == took,
        z == 0,
{
}

/// A command sends no more than 512 KiB: what is drawn is what was asked for as
/// long as there is room, and then what is left.
pub proof fn output_is_capped(b: &mut OutputBudget, n: usize, m: usize, g: usize)
    requires
        call_ensures(OutputBudget::grant, (&*old(b), n), g),
        call_ensures(OutputBudget::draw, (b, n), m),
    ensures
        m == g,
        m <= n,
        final(b).used() == old(b).used() + m,
        final(b).used() <= 512 * 1024,
        old(b).used() + n <= 512 * 1024 ==> m == n,
        old(b).used() + n >= 512 * 1024 ==> final(b).used() == 512 * 1024,
{
}

/// The user hears once that output was cut off, when nothing more may be sent.
pub proof fn cut_output_is_told_once(
    b: &mut OutputBudget,
    first: bool,
    c: &mut OutputBudget,
    again: bool,
)
    requires
        call_ensures(OutputBudget::tell, (b,), first),
        *old(c) == *final(b),
        call_ensures(OutputBudget::tell, (c,), again),
    ensures
        first ==> old(b).used() == 512 * 1024,
        old(b).used() == 512 * 1024 && !old(b).has_told() ==> first,
        !again,
        final(b).used() == old(b).used(),
{
}

// ---------------------------------------------------------------- moments and empty requests

/// A heartbeat that carries the moment at which it was sent gives that moment,
/// to the client as to the host.
pub proof fn heartbeats_carry_their_moment(
    c: &mut ClientLoop,
    payload: Vec<u8>,
    now: u64,
    a: FrameAction,
    s: &mut SessionLoop,
    b: SessionAction,
    ms: u128,
)
    requires
        call_ensures(ClientLoop::on_frame, (c, 0x0Du8, payload, now), a),
        call_ensures(SessionLoop::on_frame, (s, 0x0Eu8, payload, now), b),
        payload@ == encode_utf8(decimal(ms as nat)),
    ensures
        a@ == (FrameActionView::Answer { payload: payload@, sent: Some(ms) }),
        old(s).channel == Channel::Heartbeat ==> b@ == (SessionActionView::Touch {
            sent: Some(ms),
        }),
        old(s).channel == Channel::Terminal ==> b@ == (SessionActionView::Touch { sent: None }),
{
    let d = decimal(ms as nat);
    encoded_text_reads_back(d);
    lemma_decimal(ms as nat);
    assert(is_digit(d[0]) && is_digit(d.last()));
    lemma_trimmed_same(d);
    decimal_reads_back(ms as nat, u128::MAX as nat);
}

/// A request without a command runs nothing.
pub proof fn empty_requests_run_nothing(
    s: &mut SessionLoop,
    payload: Vec<u8>,
    now: u64,
    a: SessionAction,
    blanks: Seq<char>,
)
    requires
        call_ensures(SessionLoop::on_frame, (s, 0x10u8, payload, now), a),
        old(s).channel == Channel::Terminal,
        payload@.len() == 0 || payload@.skip(1) == encode_utf8(blanks) && all_white(blanks),
    ensures
        a@ is Nothing,
        *final(s) == *old(s),
{
    if payload@.len() > 0 {
        encoded_text_reads_back(blanks);
        let e = Seq::<char>::empty();
        trimming_takes_off_blanks(blanks, e, e);
        assert(blanks + e + e =~= blanks);
    }
}

/// The user hears why a session ended that was not meant to.
pub proof fn faults_are_told_in_words(
    end: ClientEnd,
    r: Option<&'static str>,
    c: &mut ClientLoop,
    msg: u8,
    payload: Vec<u8>,
    now: u64,
    a: FrameAction,
)
    requires
        call_ensures(ClientEnd::fault, (end,), r),
        call_ensures(ClientLoop::on_frame, (c, msg, payload, now), a),
        old(c).channel == Channel::Heartbeat,
        msg != 0x0D && msg != 0x0F,
    ensures
        end == ClientEnd::DataLinkDied ==> (r matches Some(s) && s@
            == "data link died — session ended"@),
        end == ClientEnd::Stalled ==> (r matches Some(s) && s@
            == "host stopped responding to heartbeats"@),
        a@ == (FrameActionView::Fail {
            reason: "unexpected frame 0x"@ + seq![
                "0123456789ABCDEF"@[msg as int / 16],
                "0123456789ABCDEF"@[msg as int % 16],
            ] + " on control channel"@,
        }),
        *final(c) == *old(c),
{
    reveal_strlit("0123456789ABCDEF");
    assert(upper_hex(msg) =~= seq![
        "0123456789ABCDEF"@[msg as int / 16],
        "0123456789ABCDEF"@[msg as int % 16],
    ]);
}

/// A session of the host begins idle, with the rights of its account.
pub proof fn host_sessions_begin_idle(
    channel: Channel,
    admin: bool,
    now: u64,
    s: SessionLoop,
    b: OutputBudget,
)
    requires
        call_ensures(SessionLoop::start, (channel, admin, now), s),
        call_ensures(OutputBudget::new, (), b),
    ensures
        s.channel == channel && s.admin == admin && !s.busy && s.last_pong == now && s.last_ping
            is None,
        b.used() == 0 && !b.has_told(),
{
}

} // verus!
