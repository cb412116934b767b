//! What host and client promise each other: the answers that a client computes
//! are those that the host accepts, and both keep the same secrets.

use crate::client::{
    ClientActionView, ClientEventView, ClientLoginView, ClientStage, MAX_PASSWORD_ANSWERS,
    client_step,
};
use crate::client_session::{
    ClientLoop, FrameActionView, LineActionView, client_frame_step, exec_payload, line_action,
};
use crate::creds::{lemma_hex_is_ascii, new_account, password_hash, proof_fits, proof_of};
use crate::host::{HostStage, LoginView, Scheme, challenge_of, proved, ticket_of};
use crate::host_session::{Channel, DenyReason, SessionActionView, SessionLoop, session_step};
use crate::proto::{AUTH_OK, CHALLENGE, EXEC_END, EXEC_REQ, PING, PONG, PROOF, TOKEN_ISSUED};
use crate::text::{
    begins, cut_first, decimal, decimal_reads_back, encoded_text_reads_back, is_digit,
    lemma_decimal, lemma_span_is, lemma_trimmed_again, lemma_trimmed_same, other_than,
    signed_decimal, trimmed,
};
use crate::token::{all_hex, is_hex, token_digest};
use vstd::prelude::*;
use vstd::string::*;
use vstd::utf8::*;

verus! {

/// A text without line ends.
pub open spec fn one_line(s: Seq<char>) -> bool {
    forall|i: int| 0 <= i < s.len() ==> #[trigger] s[i] != '\n'
}

/// The first line of a text and the rest.
proof fn lemma_cut_line(a: Seq<char>, b: Seq<char>)
    requires
        one_line(a),
    ensures
        cut_first(a + "\n"@ + b, '\n') == Some((a, b)),
{
    reveal_strlit("\n");
    let s = a + "\n"@ + b;
    let n = a.len() as int;
    assert forall|i: int| 0 <= i < n implies other_than('\n')(#[trigger] s[i]) by {
        assert(s[i] == a[i]);
    }
    assert(s[n] == '\n');
    lemma_span_is(s, other_than('\n'), n);
    assert(s.take(n) =~= a);
    assert(s.skip(n + 1) =~= b);
}

/// The mode of an answer and the answer.
proof fn lemma_cut_mode(mode: Seq<char>, lead: Seq<char>, c: char, answer: Seq<char>)
    requires
        mode == seq![c],
        c != ':',
        lead == seq![c, ':'],
    ensures
        cut_first(lead + answer, ':') == Some((mode, answer)),
{
    let s = lead + answer;
    assert(s[0] == c && s[1] == ':');
    lemma_span_is(s, other_than(':'), 1);
    assert(s.take(1) =~= mode);
    assert(s.skip(2) =~= answer);
}

/// A nonce as the host makes them.
pub open spec fn good_nonce(nonce: Seq<char>) -> bool {
    nonce.len() > 0 && all_hex(nonce)
}

proof fn lemma_nonce_is_trimmed(nonce: Seq<char>)
    requires
        good_nonce(nonce),
    ensures
        trimmed(nonce) == nonce,
{
    assert(is_hex(nonce[0]) && is_hex(nonce[nonce.len() - 1]));
    lemma_trimmed_same(nonce);
}

/// A client that types the password of its account is let in: what it computes
/// from the host's challenge is what the host accepts.
pub proof fn right_password_logs_in(c: ClientLoginView, l: LoginView, password: Seq<char>)
    requires
        c.challenges,
        c.stage == ClientStage::AwaitFrame,
        c.tried_token,
        c.attempts < MAX_PASSWORD_ANSWERS,
        l.scheme != Scheme::Passwords,
        l.stage == HostStage::AwaitProof,
        good_nonce(l.nonce),
        one_line(l.record.pw_salt),
        l.record.pw_hash.len() > 0,
        l.record.pw_hash == password_hash(l.record.pw_salt, password),
        proof_fits(l.record.pw_hash, l.nonce),
    ensures
        ({
            let asked = client_step(
                c,
                ClientEventView::Frame {
                    msg: CHALLENGE,
                    text: challenge_of(l.record.pw_salt, l.nonce),
                },
            );
            let answered = client_step(asked.0, ClientEventView::Password(password));
            &&& asked.1 is AskPassword
            &&& answered.1 matches ClientActionView::Send { msg, text } && msg == PROOF && proved(
                l,
                msg,
                text,
            ) is ByPassword
        }),
{
    lemma_cut_line(l.record.pw_salt, l.nonce);
    lemma_nonce_is_trimmed(l.nonce);
    reveal_strlit("p:");
    reveal_strlit("p");
    reveal_strlit("t");
    assert("p:"@ =~= seq!['p', ':']);
    assert("p"@ =~= seq!['p']);
    assert("p"@[0] != "t"@[0]);
    lemma_cut_mode("p"@, "p:"@, 'p', proof_of(l.record.pw_hash, l.nonce));
}

/// A client that has stored the hash of the account's token is let in with it,
/// without a password.
pub proof fn stored_token_logs_in(c: ClientLoginView, l: LoginView)
    requires
        c.challenges,
        c.stage == ClientStage::AwaitFrame,
        !c.tried_token,
        l.scheme != Scheme::Passwords,
        l.stage == HostStage::AwaitProof,
        good_nonce(l.nonce),
        one_line(l.record.pw_salt),
        l.record.token_hash.len() > 0,
        encode_utf8(l.record.token_hash).len() == 64,
        proof_fits(l.record.token_hash, l.nonce),
    ensures
        ({
            let asked = client_step(
                c,
                ClientEventView::Frame {
                    msg: CHALLENGE,
                    text: challenge_of(l.record.pw_salt, l.nonce),
                },
            );
            let answered = client_step(
                asked.0,
                ClientEventView::Token(Some(l.record.token_hash)),
            );
            &&& asked.1 is LoadToken
            &&& answered.1 matches ClientActionView::Send { msg, text } && msg == PROOF && proved(
                l,
                msg,
                text,
            ) is ByToken
        }),
{
    lemma_cut_line(l.record.pw_salt, l.nonce);
    lemma_nonce_is_trimmed(l.nonce);
    reveal_strlit("t:");
    reveal_strlit("t");
    assert("t:"@ =~= seq!['t', ':']);
    assert("t"@ =~= seq!['t']);
    lemma_cut_mode("t"@, "t:"@, 't', proof_of(l.record.token_hash, l.nonce));
}

/// Of a token that the host issues, host and client keep the same hash; the
/// token itself is kept by neither.
pub proof fn both_keep_the_same_hash(c: ClientLoginView, token: Seq<char>)
    requires
        c.challenges,
        c.stage == ClientStage::AwaitFrame,
        token.len() > 0,
        all_hex(token),
    ensures
        client_step(c, ClientEventView::Frame { msg: TOKEN_ISSUED, text: token }).1
            == (ClientActionView::StoreToken { token: token_digest(token) }),
{
    lemma_nonce_is_trimmed(token);
}

/// The ticket that the host sends gives the client the data port and the
/// session key.
pub proof fn ticket_reaches_client(c: ClientLoginView, port: u16, key: Seq<char>)
    requires
        c.challenges,
        c.stage == ClientStage::AwaitFrame,
        key.len() == 64,
        all_hex(key),
    ensures
        client_step(
            c,
            ClientEventView::Frame {
                msg: AUTH_OK,
                text: ticket_of(Scheme::DataLayer, port, key),
            },
        ).1 == (ClientActionView::Promoted { port: decimal(port as nat), key }),
{
    let d = decimal(port as nat);
    let t = ticket_of(Scheme::DataLayer, port, key);
    lemma_decimal(port as nat);
    reveal_strlit("\n");
    assert(is_digit(d[0]));
    assert(is_hex(key[63]));
    assert(t[0] == d[0]);
    assert(t.last() == key[63]);
    lemma_trimmed_same(t);
    assert forall|i: int| 0 <= i < d.len() implies #[trigger] d[i] != '\n' by {
        assert(is_digit(d[i]));
    }
    lemma_cut_line(d, key);
    lemma_hex_is_ascii(key);
}

/// The user that a client names is the user that the host looks up.
pub proof fn hello_names_the_user(user: Seq<char>, version: Seq<char>)
    requires
        one_line(user),
    ensures
        cut_first(user + "\n"@ + version + "\n"@, '\n') matches Some(p) && p.0 == user,
{
    assert(user + "\n"@ + version + "\n"@ =~= user + "\n"@ + (version + "\n"@));
    lemma_cut_line(user, version + "\n"@);
}

/// Of a password, only what its hash tells goes over the wire: passwords with
/// the same hash are answered with the same frame.
pub proof fn passwords_stay_with_the_client(
    c: ClientLoginView,
    password: Seq<char>,
    other: Seq<char>,
)
    requires
        c.challenges,
        password_hash(c.salt, password) == password_hash(c.salt, other),
    ensures
        client_step(c, ClientEventView::Password(password)) == client_step(
            c,
            ClientEventView::Password(other),
        ),
{
}

/// Of a password, an account keeps only the hash.
pub proof fn accounts_keep_only_hashes(
    salt: Seq<char>,
    password: Seq<char>,
    other: Seq<char>,
    role: Seq<char>,
)
    requires
        password_hash(salt, password) == password_hash(salt, other),
    ensures
        new_account(salt, password, role) == new_account(salt, other, role),
{
}

/// A heartbeat of the host comes back from the client as it was sent, and tells
/// the moment at which that was.
pub proof fn heartbeat_is_answered(
    host: SessionLoop,
    client: ClientLoop,
    ms: u128,
    now: u64,
    later: u64,
)
    requires
        host.channel == Channel::Heartbeat,
    ensures
        ({
            let payload = encode_utf8(decimal(ms as nat));
            &&& client_frame_step(client, PING, payload, now) == (
                ClientLoop { last_ping: now, ..client },
                FrameActionView::Answer { payload, sent: Some(ms) },
            )
            &&& session_step(host, PONG, payload, later) == (
                SessionLoop { last_pong: later, ..host },
                SessionActionView::Touch { sent: Some(ms) },
            )
        }),
{
    let d = decimal(ms as nat);
    lemma_decimal(ms as nat);
    assert(is_digit(d[0]) && is_digit(d[d.len() - 1]));
    lemma_trimmed_same(d);
    encoded_text_reads_back(d);
    decimal_reads_back(ms as nat, u128::MAX as nat);
}

/// A command that is typed runs on the host as it was typed, elevated where
/// that was asked for and the account may; else it is denied.
pub proof fn typed_command_runs(host: SessionLoop, line: Seq<char>, now: u64)
    requires
        host.channel == Channel::Terminal,
        !host.busy,
    ensures
        line_action(line, false) matches LineActionView::Exec { payload } ==> ({
            let l = trimmed(line);
            let elevated = begins(l, "sudo "@);
            let command = if elevated { trimmed(l.skip(5)) } else { l };
            session_step(host, EXEC_REQ, payload, now) == (if elevated && !host.admin {
                (host, SessionActionView::Deny(DenyReason::NotAdmin))
            } else {
                (
                    SessionLoop { busy: true, ..host },
                    SessionActionView::Run { command, elevated },
                )
            })
        }),
{
    let l = trimmed(line);
    let elevated = begins(l, "sudo "@);
    let command = if elevated { trimmed(l.skip(5)) } else { l };
    let payload = exec_payload(elevated, command);
    assert(payload.skip(1) =~= encode_utf8(command));
    encoded_text_reads_back(command);
    lemma_trimmed_again(line);
    lemma_trimmed_again(l.skip(5));
}

/// The exit code that the host reports is the one that the client shows.
pub proof fn exit_code_is_shown(client: ClientLoop, code: i32, now: u64)
    requires
        client.channel == Channel::Terminal,
    ensures
        client_frame_step(client, EXEC_END, encode_utf8(signed_decimal(code as int)), now) == (
            ClientLoop { awaiting: false, ..client },
            FrameActionView::Exit { code: signed_decimal(code as int) },
        ),
{
    let n = (if code < 0 { -(code as int) } else { code as int }) as nat;
    let d = decimal(n);
    let s = signed_decimal(code as int);
    lemma_decimal(n);
    reveal_strlit("-");
    assert(is_digit(d[0]) && is_digit(d[d.len() - 1]));
    assert(s.last() == d.last());
    assert(s[0] == d[0] || s[0] == '-');
    lemma_trimmed_same(s);
    encoded_text_reads_back(s);
}

} // verus!
