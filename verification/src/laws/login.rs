//! Logging in: what the client and the host say to each other, and who gets in.

use crate::accounts::{
    HostState, StateView, UserRecord, UserView, inserted_user_is_found, lookup, names_rise,
};
use crate::client::{
    ClientAction, ClientActionView, ClientEvent, ClientEventView, ClientLogin, ClientLoginView,
    ClientStage, bootstrap_port, confirm_license, hello_text, license_preaccepted, parse_target,
    password_proof, split_ticket, upper_hex,
};
use crate::client_session::ClientEnd;
use crate::creds::{
    compute_proof, hash_password, lemma_hex_is_ascii, new_nonce, new_salt, password_digest,
    password_fits, password_hash, proof_fits, proof_of, salt_bytes, verify_proof,
};
use crate::digest::{MESSAGE_LIMIT, sha256};
use crate::host::{
    DEFAULT_LICENSE, HostAction, HostActionView, HostEvent, HostEventView, HostStage, Login,
    LoginView, Refusal, Scheme, admits, check_answer, check_token, is_proved_stage, license_text,
    mark_licensed, store_token, verify_password,
};
use crate::host_session::DenyReason;
use crate::laws::text::{
    all_white, cutting_splits_at_the_first, is_tight, trimming_takes_off_blanks,
};
use crate::text::{
    all_digits, cut_first, decimal, encoded_text_reads_back, is_digit, lemma_decimal,
    lemma_trimmed_same, lowered, trimmed,
};
use crate::throttle::{PeerIp, Throttle, after_fail};
use crate::token::{
    all_hex, from_hex, generate, hash_token, hex_bytes, hex_case_does_not_matter, hex_char,
    hex_reads_back, hex_text, is_hex, is_hex_of_len, lemma_hex_is_lower, to_hex,
};
use vstd::prelude::*;
use vstd::string::*;
use vstd::utf8::*;

verus! {

// ---------------------------------------------------------------- what the user names

/// A target is a user and an address, cut at the first `@`; neither may be
/// empty.
pub proof fn targets_are_users_at_addresses(
    arg: &str,
    r: Result<(String, String), String>,
    user: Seq<char>,
    ip: Seq<char>,
)
    requires
        call_ensures(parse_target, (arg,), r),
        forall|i: int| 0 <= i < user.len() ==> (#[trigger] user[i]) != '@',
    ensures
        arg@ == user + seq!['@'] + ip && user.len() > 0 && ip.len() > 0 ==> (r matches Ok(p) && p.0@
            == user && p.1@ == ip),
        arg@ == user || arg@ == user + seq!['@'] + ip && (user.len() == 0 || ip.len() == 0)
            ==> r is Err,
        r matches Err(e) ==> e@ == "invalid target '"@ + arg@ + "': expected user@ip"@,
{
    cutting_splits_at_the_first(user, '@', ip);
}

/// The host is reached at the port that is named, and else at 4242.
pub proof fn hosts_listen_at_their_port(named: Option<&str>, p: u16, n: nat)
    requires
        call_ensures(bootstrap_port, (named,), p),
    ensures
        named is None ==> p == 4242,
        named matches Some(s) ==> (s@ == decimal(n) && n < 65536 ==> p == n),
        named matches Some(s) ==> (s@ == decimal(n) && n >= 65536 || s@.len() == 0 ==> p == 4242),
{
    lemma_decimal(n);
    assert(is_digit(decimal(n)[0]));
}

/// A license is accepted beforehand by `1`, `true` and `TRUE`, and by nothing
/// else.
pub proof fn licenses_are_accepted_beforehand(value: Option<&str>, r: bool)
    requires
        call_ensures(license_preaccepted, (value,), r),
    ensures
        value is None ==> !r,
        value matches Some(s) ==> (r <==> s@ == seq!['1'] || s@ == seq!['t', 'r', 'u', 'e'] || s@
            == seq!['T', 'R', 'U', 'E']),
{
    reveal_strlit("1");
    reveal_strlit("true");
    reveal_strlit("TRUE");
    assert("1"@ =~= seq!['1']);
    assert("true"@ =~= seq!['t', 'r', 'u', 'e']);
    assert("TRUE"@ =~= seq!['T', 'R', 'U', 'E']);
}

/// The question whether to accept is answered by a word in either case, with
/// blanks round it or not; any other answer is none.
pub proof fn licenses_are_confirmed(
    line: &str,
    r: Option<bool>,
    a: Seq<char>,
    w: Seq<char>,
    b: Seq<char>,
)
    requires
        call_ensures(confirm_license, (line,), r),
        line@ == a + w + b,
        all_white(a),
        all_white(b),
        is_tight(w),
    ensures
        lowered(w) == seq!['y'] || lowered(w) == seq!['y', 'e', 's'] ==> r == Some(true),
        lowered(w) == seq!['n'] || lowered(w) == seq!['n', 'o'] ==> r == Some(false),
        lowered(w) != seq!['y'] && lowered(w) != seq!['y', 'e', 's'] && lowered(w) != seq!['n']
            && lowered(w) != seq!['n', 'o'] ==> r is None,
{
    trimming_takes_off_blanks(a, w, b);
    reveal_strlit("y");
    reveal_strlit("yes");
    reveal_strlit("n");
    reveal_strlit("no");
    assert("y"@ =~= seq!['y']);
    assert("yes"@ =~= seq!['y', 'e', 's']);
    assert("n"@ =~= seq!['n']);
    assert("no"@ =~= seq!['n', 'o']);
    assert(seq!['y'][0] == 'y' && seq!['n'][0] == 'n');
    assert(seq!['y'].len() == 1 && seq!['y', 'e', 's'].len() == 3 && seq!['n', 'o'].len() == 2);
}

/// A ticket is the port of the data link and the key of the session, 64 bytes
/// of it, on two lines; anything else is refused.
pub proof fn tickets_are_read(
    ticket: &str,
    r: Result<(String, String), String>,
    port: Seq<char>,
    key: Seq<char>,
)
    requires
        call_ensures(split_ticket, (ticket,), r),
        forall|i: int| 0 <= i < port.len() ==> (#[trigger] port[i]) != '\n',
    ensures
        ticket@ == port + seq!['\n'] + key && port.len() > 0 && encode_utf8(key).len() == 64 ==> (
        r matches Ok(p) && p.0@ == port && p.1@ == key),
        ticket@ == port + seq!['\n'] + key && (port.len() == 0 || encode_utf8(key).len() != 64)
            ==> r is Err,
        ticket@ == port ==> r is Err,
        r matches Err(e) ==> e@ == "host sent malformed promotion ticket"@,
{
    cutting_splits_at_the_first(port, '\n', key);
}

// ---------------------------------------------------------------- secrets

/// A password is hashed with its salt 4096 times, the salt behind the hash from
/// the second time on.
pub proof fn passwords_are_hashed_4096_times(salt: &str, password: &str, s: String, n: nat)
    requires
        call_ensures(hash_password, (salt, password), s),
    ensures
        s@ == hex_text(password_digest(salt_bytes(salt@), encode_utf8(password@), 4095)),
        password_digest(salt_bytes(salt@), encode_utf8(password@), 0) == sha256(
            salt_bytes(salt@) + encode_utf8(password@),
        ),
        password_digest(salt_bytes(salt@), encode_utf8(password@), n + 1) == sha256(
            password_digest(salt_bytes(salt@), encode_utf8(password@), n) + salt_bytes(salt@),
        ),
        hex_bytes(salt@) matches Some(b) ==> salt_bytes(salt@) == b,
{
}

/// The proof that one knows a secret is the digest of the secret and the nonce;
/// it is accepted by who knows both, and no other text is.
pub proof fn proofs_convince_who_knows(secret: &str, nonce: &str, answer: &str, s: String, r: bool)
    requires
        call_ensures(compute_proof, (secret, nonce), s),
        call_ensures(verify_proof, (secret, nonce, answer), r),
        secret@.len() > 0,
        nonce@.len() > 0,
    ensures
        s@ == hex_text(sha256(encode_utf8(secret@) + encode_utf8(nonce@))),
        r <==> answer@ == s@,
{
}

/// Without a secret or a nonce nothing is proved.
pub proof fn nothing_proves_nothing(secret: &str, nonce: &str, answer: &str, r: bool)
    requires
        call_ensures(verify_proof, (secret, nonce, answer), r),
        secret@.len() == 0 || nonce@.len() == 0,
    ensures
        !r,
{
}

/// Bytes are written with two digits each, the higher first, of which there are
/// sixteen.
pub proof fn bytes_are_written_as_digits(b: &[u8], s: String, i: int)
    requires
        call_ensures(to_hex, (b,), s),
        0 <= i < b@.len(),
    ensures
        s@.len() == 2 * b@.len(),
        s@[2 * i] == "0123456789abcdef"@[b@[i] as int / 16],
        s@[2 * i + 1] == "0123456789abcdef"@[b@[i] as int % 16],
{
    lemma_hex_chars(b@[i] as int / 16);
    lemma_hex_chars(b@[i] as int % 16);
    assert((2 * i) / 2 == i && (2 * i) % 2 == 0 && (2 * i + 1) / 2 == i && (2 * i + 1) % 2 == 1);
}

/// Digits are read back as the bytes that they were written for, in either case
/// of letters; an odd number of them is refused.
pub proof fn digits_are_read_as_bytes(b: &[u8], s: String, t: &str, r: Option<Vec<u8>>)
    requires
        call_ensures(to_hex, (b,), s),
        call_ensures(from_hex, (t,), r),
    ensures
        lowered(t@) == s@ ==> (r matches Some(v) && v@ == b@),
        t@.len() % 2 == 1 ==> r is None,
{
    let d = hex_bytes(t@);
    if lowered(t@) == s@ {
        hex_reads_back(b@);
        hex_case_does_not_matter(t@);
        assert(hex_bytes(lowered(t@)) == Some(b@));
        assert(d == Some(b@));
    }
    if t@.len() % 2 == 1 {
        assert(d is None);
    }
}

proof fn lemma_hex_chars(d: int)
    requires
        0 <= d < 16,
    ensures
        hex_char(d as nat) == "0123456789abcdef"@[d],
{
    reveal_strlit("0123456789abcdef");
}

/// A token that was drawn is 64 digits; its digest is that of its digits.
pub proof fn tokens_are_digits(s: String, t: &str, h: String)
    requires
        call_ensures(generate, (), s),
        call_ensures(hash_token, (t,), h),
    ensures
        s@.len() == 64,
        forall|i: int|
            0 <= i < 64 ==> '0' <= #[trigger] s@[i] <= '9' || 'a' <= s@[i] <= 'f',
        h@ == hex_text(sha256(encode_utf8(t@))),
{
    let b = choose|b: Seq<u8>| b.len() == 32 && s@ == hex_text(b);
    lemma_hex_is_lower(b);
}

// ---------------------------------------------------------------- the client

/// Nothing of a login changes but its stage and what is counted.
pub open spec fn same_login(l: ClientLoginView, m: ClientLoginView) -> bool {
    m == (ClientLoginView {
        stage: m.stage,
        tried_token: m.tried_token,
        attempts: m.attempts,
        ..l
    })
}

/// A challenge is a salt and a nonce on two lines. The client tries its stored
/// token first, and then asks for a password, three times at most.
pub proof fn challenges_are_taken(
    c: &mut ClientLogin,
    ev: ClientEvent,
    a: ClientAction,
    salt: Seq<char>,
    nonce: Seq<char>,
)
    requires
        call_ensures(ClientLogin::step, (c, ev), a),
        old(c)@.challenges,
        old(c)@.stage == ClientStage::AwaitFrame,
        ev@ == (ClientEventView::Frame { msg: 11, text: salt + seq!['\n'] + nonce }),
        forall|i: int| 0 <= i < salt.len() ==> (#[trigger] salt[i]) != '\n',
        is_tight(nonce),
    ensures
        final(c)@.salt == salt,
        final(c)@.nonce == nonce,
        same_login((ClientLoginView { salt, nonce, ..old(c)@ }), final(c)@),
        !old(c)@.tried_token ==> a is LoadToken && final(c)@.tried_token && final(c)@.stage
            == ClientStage::NeedToken && final(c)@.attempts == old(c)@.attempts,
        old(c)@.tried_token && old(c)@.attempts < 3 ==> a is AskPassword && final(c)@.attempts
            == old(c)@.attempts + 1 && final(c)@.stage == ClientStage::NeedPassword,
        old(c)@.tried_token && old(c)@.attempts >= 3 ==> a@ == (ClientActionView::Fail {
            reason: "too many failed authentication attempts"@,
        }) && final(c)@.stage == ClientStage::Ended,
{
    cutting_splits_at_the_first(salt, '\n', nonce);
    let e = Seq::<char>::empty();
    trimming_takes_off_blanks(e, nonce, e);
    assert(e + nonce + e =~= nonce);
}

/// A challenge without a second line is refused.
pub proof fn broken_challenges_are_refused(
    c: &mut ClientLogin,
    ev: ClientEvent,
    a: ClientAction,
    text: Seq<char>,
)
    requires
        call_ensures(ClientLogin::step, (c, ev), a),
        old(c)@.challenges,
        old(c)@.stage == ClientStage::AwaitFrame,
        ev@ == (ClientEventView::Frame { msg: 11, text }),
        forall|i: int| 0 <= i < text.len() ==> (#[trigger] text[i]) != '\n',
    ensures
        a@ == (ClientActionView::Fail { reason: "malformed challenge from host"@ }),
        final(c)@.stage == ClientStage::Ended,
{
    cutting_splits_at_the_first(text, '\n', Seq::empty());
}

/// Without challenges the host asks for the token or password itself: the
/// stored token is sent first, then passwords, three times at most.
pub proof fn plain_requests_are_answered(c: &mut ClientLogin, ev: ClientEvent, a: ClientAction)
    requires
        call_ensures(ClientLogin::step, (c, ev), a),
        !old(c)@.challenges,
        old(c)@.stage == ClientStage::AwaitFrame,
        ev@ is Frame && ev@->msg == 2,
    ensures
        !old(c)@.tried_token ==> a is LoadToken && final(c)@.stage == ClientStage::NeedToken,
        old(c)@.tried_token && old(c)@.attempts < 3 ==> a is AskPassword && final(c)@.attempts
            == old(c)@.attempts + 1 && final(c)@.stage == ClientStage::NeedPassword,
        old(c)@.tried_token && old(c)@.attempts >= 3 ==> a@ == (ClientActionView::Fail {
            reason: "too many failed password attempts"@,
        }) && final(c)@.stage == ClientStage::Ended,
{
}

/// A stored token is answered with where it can be used; without one the user
/// is asked, or the login fails where nobody can be.
pub proof fn stored_tokens_are_tried(c: &mut ClientLogin, ev: ClientEvent, a: ClientAction)
    requires
        call_ensures(ClientLogin::step, (c, ev), a),
        old(c)@.stage == ClientStage::NeedToken,
        ev@ is Token,
    ensures
        same_login(old(c)@, final(c)@),
        ev@->Token_0 matches Some(t) ==> (old(c)@.challenges && (!old(c)@.strict || encode_utf8(
            t,
        ).len() == 64) ==> a@ == (ClientActionView::Send {
            msg: 12,
            text: seq!['t', ':'] + hex_text(sha256(encode_utf8(t) + encode_utf8(old(c)@.nonce))),
        }) && final(c)@.stage == ClientStage::AwaitFrame),
        ev@->Token_0 matches Some(t) ==> (!old(c)@.challenges && t.len() > 0 ==> a@ == (
        ClientActionView::Send { msg: 8, text: t }) && final(c)@.stage == ClientStage::AwaitFrame
            && final(c)@.tried_token),
        old(c)@.challenges && (ev@->Token_0 is None || old(c)@.strict && encode_utf8(
            ev@->Token_0->0,
        ).len() != 64) ==> {
            &&& old(c)@.may_prompt ==> a is AskPassword && final(c)@.stage
                == ClientStage::NeedPassword
            &&& !old(c)@.may_prompt ==> a@ == (ClientActionView::Fail {
                reason: "no stored credential for "@ + old(c)@.user + "@"@ + old(c)@.ip
                    + " - run an interactive session once to store a token"@,
            }) && final(c)@.stage == ClientStage::Ended
        },
        !old(c)@.challenges && (ev@->Token_0 is None || ev@->Token_0->0.len() == 0) && old(
            c,
        )@.attempts < 3 ==> a is AskPassword,
{
    reveal_strlit("t:");
    assert("t:"@ =~= seq!['t', ':']);
}

/// A password is answered with as it was typed where the host asks for it, and
/// as the proof that one knows it where the host has sent a challenge.
pub proof fn typed_passwords_are_answered_with(
    c: &mut ClientLogin,
    ev: ClientEvent,
    a: ClientAction,
)
    requires
        call_ensures(ClientLogin::step, (c, ev), a),
        old(c)@.stage == ClientStage::NeedPassword,
        ev@ is Password,
    ensures
        final(c)@ == (ClientLoginView { stage: ClientStage::AwaitFrame, ..old(c)@ }),
        !old(c)@.challenges ==> a@ == (ClientActionView::Send { msg: 3, text: ev@->Password_0 }),
        old(c)@.challenges ==> a@ == (ClientActionView::Send {
            msg: 12,
            text: seq!['p', ':'] + hex_text(
                sha256(
                    encode_utf8(password_hash(old(c)@.salt, ev@->Password_0)) + encode_utf8(
                        old(c)@.nonce,
                    ),
                ),
            ),
        }),
{
    reveal_strlit("p:");
    assert("p:"@ =~= seq!['p', ':']);
}

/// The license is shown as it came, and the answer is the user's: accepted, the
/// login goes on; rejected, it ends.
pub proof fn licenses_are_shown_and_answered(
    c: &mut ClientLogin,
    ev: ClientEvent,
    a: ClientAction,
    d: &mut ClientLogin,
    ok: bool,
    b: ClientAction,
    text: Seq<char>,
)
    requires
        call_ensures(ClientLogin::step, (c, ev), a),
        old(c)@.stage == ClientStage::AwaitFrame,
        ev@ == (ClientEventView::Frame { msg: 4, text }),
        *old(d) == *final(c),
        call_ensures(ClientLogin::step, (d, ClientEvent::License(ok)), b),
    ensures
        a@ == (ClientActionView::ShowLicense { text }),
        ok ==> b@ == (ClientActionView::Send { msg: 5, text: seq!['y'] }) && final(d)@ == old(c)@,
        !ok ==> b@ == (ClientActionView::SendAndFail {
            msg: 6,
            text: seq!['n'],
            reason: "license rejected — session aborted"@,
        }) && final(d)@.stage == ClientStage::Ended,
{
    reveal_strlit("y");
    reveal_strlit("n");
    assert("y"@ =~= seq!['y']);
    assert("n"@ =~= seq!['n']);
}

/// A token that was issued is stored, as its digest where challenges are
/// answered; once it is stored the login goes on, and else it ends.
pub proof fn issued_tokens_are_stored(
    c: &mut ClientLogin,
    ev: ClientEvent,
    a: ClientAction,
    d: &mut ClientLogin,
    fault: Option<String>,
    b: ClientAction,
    token: Seq<char>,
)
    requires
        call_ensures(ClientLogin::step, (c, ev), a),
        old(c)@.stage == ClientStage::AwaitFrame,
        ev@ == (ClientEventView::Frame { msg: 7, text: token }),
        is_tight(token),
        *old(d) == *final(c),
        call_ensures(ClientLogin::step, (d, ClientEvent::Stored(fault)), b),
    ensures
        old(c)@.challenges ==> a@ == (ClientActionView::StoreToken {
            token: hex_text(sha256(encode_utf8(token))),
        }),
        !old(c)@.challenges ==> a@ == (ClientActionView::StoreToken { token }),
        fault is None ==> b is Read && final(d)@ == old(c)@,
        fault matches Some(e) ==> b@ == (ClientActionView::Fail {
            reason: "could not store token: "@ + e@,
        }) && final(d)@.stage == ClientStage::Ended,
{
    let e = Seq::<char>::empty();
    trimming_takes_off_blanks(e, token, e);
    assert(e + token + e =~= token);
}

/// The host's welcome gives the port of the data link, and with challenges the
/// key of the session; a refusal ends the login with its reason, and so does
/// any frame that does not belong there.
pub proof fn welcomes_and_refusals_are_taken(
    c: &mut ClientLogin,
    ev: ClientEvent,
    a: ClientAction,
    msg: u8,
    text: Seq<char>,
    port: Seq<char>,
    key: Seq<char>,
)
    requires
        call_ensures(ClientLogin::step, (c, ev), a),
        old(c)@.stage == ClientStage::AwaitFrame,
        ev@ == (ClientEventView::Frame { msg, text }),
        is_tight(text),
        msg != 4 && msg != 7,
        old(c)@.challenges ==> msg != 11,
        !old(c)@.challenges ==> msg != 2,
        forall|i: int| 0 <= i < port.len() ==> (#[trigger] port[i]) != '\n',
        text == port + seq!['\n'] + key,
    ensures
        final(c)@ == (ClientLoginView { stage: ClientStage::Ended, ..old(c)@ }),
        msg == 9 && old(c)@.challenges && port.len() > 0 && encode_utf8(key).len() == 64 ==> a@ == (
        ClientActionView::Promoted { port, key }),
        msg == 9 && old(c)@.challenges && (port.len() == 0 || encode_utf8(key).len() != 64) ==> a@
            == (ClientActionView::Fail { reason: "host sent malformed promotion ticket"@ }),
        msg == 9 && !old(c)@.challenges ==> a@ == (ClientActionView::Promoted {
            port: text,
            key: Seq::empty(),
        }),
        msg == 10 ==> a@ == (ClientActionView::Fail { reason: "host refused: "@ + text }),
        msg != 9 && msg != 10 ==> a is Fail,
{
    let e = Seq::<char>::empty();
    trimming_takes_off_blanks(e, text, e);
    assert(e + text + e =~= text);
    cutting_splits_at_the_first(port, '\n', key);
}

/// A frame that does not belong there is told by its type, in two digits.
pub proof fn strange_frames_are_told(c: &mut ClientLogin, ev: ClientEvent, a: ClientAction)
    requires
        call_ensures(ClientLogin::step, (c, ev), a),
        old(c)@.stage == ClientStage::AwaitFrame,
        ev@ is Frame,
        ev@->msg > 11 || ev@->msg == 0,
    ensures
        a@ == (ClientActionView::Fail {
            reason: "unexpected frame 0x"@ + seq![
                "0123456789ABCDEF"@[ev@->msg as int / 16],
                "0123456789ABCDEF"@[ev@->msg as int % 16],
            ] + " during handshake"@,
        }),
{
    reveal_strlit("0123456789ABCDEF");
    assert(upper_hex(ev@->msg) =~= seq![
        "0123456789ABCDEF"@[ev@->msg as int / 16],
        "0123456789ABCDEF"@[ev@->msg as int % 16],
    ]);
}

/// A login begins by waiting for a frame, with nothing tried; frames that come
/// as bytes do what their text does.
pub proof fn logins_begin(
    challenges: bool,
    strict: bool,
    may_prompt: bool,
    user: String,
    ip: String,
    c: ClientLogin,
    d: &mut ClientLogin,
    msg: u8,
    payload: &[u8],
    r: Option<ClientAction>,
    f: &mut ClientLogin,
    text: String,
    a: ClientAction,
)
    requires
        call_ensures(ClientLogin::start, (challenges, strict, may_prompt, user, ip), c),
        payload@ == encode_utf8(text@),
        payload@.len() < 0x0800_0000_0000_0000,
        call_ensures(ClientLogin::step_frame, (d, msg, payload), r),
        call_ensures(ClientLogin::step, (f, ClientEvent::Frame { msg, text }), a),
        old(f)@ == old(d)@,
    ensures
        c@.stage == ClientStage::AwaitFrame && !c@.tried_token && c@.attempts == 0,
        c@.challenges == challenges && c@.strict == strict && c@.may_prompt == may_prompt,
        c@.user == user@ && c@.ip == ip@,
        r matches Some(b) && b@ == a@ && final(d)@ == final(f)@,
{
    encoded_text_reads_back(text@);
}

/// The greeting says the user's name and the version, on two lines.
pub proof fn greetings_name_the_user(user: &str, version: &str, s: String)
    requires
        call_ensures(hello_text, (user, version), s),
    ensures
        s@ == user@ + seq!['\n'] + version@ + seq!['\n'],
{
    reveal_strlit("\n");
    assert("\n"@ =~= seq!['\n']);
}

// ---------------------------------------------------------------- the host

/// A greeting is heard by the name on its first line: a host that is enabled and
/// knows the user asks for a proof, by a challenge with the user's salt or by a
/// request for the password; any other refuses and says why.
pub proof fn greetings_are_answered(
    l: &mut Login,
    t: &mut Throttle,
    host: &HostState,
    now: u64,
    ev: HostEvent,
    nonce: &str,
    token: &str,
    license: &str,
    a: HostAction,
    msg: u8,
    user: Seq<char>,
    rest: Seq<char>,
)
    requires
        call_ensures(Login::step, (l, t, host, now, ev, nonce, token, license), a),
        old(l)@.stage == HostStage::AwaitHello,
        ev@ == (HostEventView::Frame { msg, text: user + seq!['\n'] + rest }),
        forall|i: int| 0 <= i < user.len() ==> (#[trigger] user[i]) != '\n',
    ensures
        final(t)@ == old(t)@,
        msg != 1 ==> a@ == HostActionView::Refuse(Refusal::ExpectedHello),
        msg == 1 && !host@.enabled ==> a@ == HostActionView::Refuse(Refusal::HostDisabled),
        msg == 1 && host@.enabled && lookup(host@.users, user) is None ==> a@
            == HostActionView::Refuse(Refusal::UnknownUser),
        msg == 1 && host@.enabled ==> (lookup(host@.users, user) matches Some(u) ==> {
            &&& final(l)@ == (LoginView {
                stage: HostStage::AwaitProof,
                user,
                record: u,
                nonce: nonce@,
                attempt: 1,
                ..old(l)@
            })
            &&& old(l)@.scheme == Scheme::Passwords ==> a@ == (HostActionView::Ask {
                msg: 2,
                text: Seq::empty(),
            })
            &&& old(l)@.scheme != Scheme::Passwords ==> a@ == (HostActionView::Ask {
                msg: 11,
                text: u.pw_salt + seq!['\n'] + nonce@,
            })
        }),
        a is Refuse ==> final(l)@.stage == HostStage::Closed,
{
    cutting_splits_at_the_first(user, '\n', rest);
    reveal_strlit("\n");
    assert("\n"@ =~= seq!['\n']);
}

/// A greeting without a second line is refused.
pub proof fn broken_greetings_are_refused(
    l: &mut Login,
    t: &mut Throttle,
    host: &HostState,
    now: u64,
    ev: HostEvent,
    nonce: &str,
    token: &str,
    license: &str,
    a: HostAction,
    text: Seq<char>,
)
    requires
        call_ensures(Login::step, (l, t, host, now, ev, nonce, token, license), a),
        old(l)@.stage == HostStage::AwaitHello,
        ev@ == (HostEventView::Frame { msg: 1, text }),
        forall|i: int| 0 <= i < text.len() ==> (#[trigger] text[i]) != '\n',
    ensures
        a@ == HostActionView::Refuse(Refusal::MalformedHello),
        final(l)@.stage == HostStage::Closed,
{
    cutting_splits_at_the_first(text, '\n', Seq::empty());
}

/// The user is in: next comes the license, or a token, or the session.
pub open spec fn let_in(
    l: LoginView,
    m: LoginView,
    a: HostActionView,
    license: Seq<char>,
    token: Seq<char>,
) -> bool {
    &&& m.user == l.user && m.record == l.record && m.scheme == l.scheme && m.peer == l.peer
    &&& !l.record.licensed ==> m.stage == HostStage::AwaitLicense && a == (HostActionView::Ask {
        msg: 4,
        text: license,
    })
    &&& l.record.licensed && m.via_token ==> m.stage == HostStage::Promoting && a == (
    HostActionView::Promote { admin: l.record.role == seq!['a', 'd', 'm', 'i', 'n'] })
    &&& l.record.licensed && !m.via_token ==> m.stage == HostStage::SavingToken && m.token == token
        && a == (HostActionView::SaveToken { token })
}

/// What the client answers to a challenge with the right password lets the user
/// in, and forgets the failures of the address. With another password the answer
/// is the right one only where the digests meet.
pub proof fn right_passwords_let_in(
    c: &mut ClientLogin,
    password: String,
    b: ClientAction,
    l: &mut Login,
    t: &mut Throttle,
    host: &HostState,
    now: u64,
    ev: HostEvent,
    nonce: &str,
    token: &str,
    license: &str,
    a: HostAction,
)
    requires
        call_ensures(ClientLogin::step, (c, ClientEvent::Password(password)), b),
        old(c)@.challenges,
        old(c)@.stage == ClientStage::NeedPassword,
        call_ensures(Login::step, (l, t, host, now, ev, nonce, token, license), a),
        b is Send,
        ev@ == (HostEventView::Frame { msg: b->Send_msg, text: b->Send_text@ }),
        old(l)@.stage == HostStage::AwaitProof,
        old(l)@.scheme != Scheme::Passwords,
        old(c)@.salt == old(l)@.record.pw_salt,
        old(c)@.nonce == old(l)@.nonce,
        old(l)@.nonce.len() > 0,
        old(l)@.record.pw_hash.len() > 0,
        proof_fits(old(l)@.record.pw_hash, old(l)@.nonce),
    ensures
        password_hash(old(l)@.record.pw_salt, password@) == old(l)@.record.pw_hash ==> let_in(
            old(l)@,
            final(l)@,
            a@,
            license@,
            token@,
        ) && !final(l)@.via_token && final(t)@ == old(t)@.remove(old(l)@.peer),
        proof_of(password_hash(old(l)@.record.pw_salt, password@), old(l)@.nonce) != proof_of(
            old(l)@.record.pw_hash,
            old(l)@.nonce,
        ) ==> !is_proved_stage(final(l)@.stage) && final(t)@ == after_fail(
            old(t)@,
            old(l)@.peer,
            now,
        ),
{
    lemma_answer('p', "p:"@, "p"@, proof_of(password_hash(old(c)@.salt, password@), old(c)@.nonce));
    reveal_strlit("t");
    assert("t"@[0] == 't');
    reveal_strlit("admin");
    assert("admin"@ =~= seq!['a', 'd', 'm', 'i', 'n']);
}

proof fn lemma_answer(c: char, head: Seq<char>, mode: Seq<char>, answer: Seq<char>)
    requires
        c == 'p' && head == "p:"@ && mode == "p"@ || c == 't' && head == "t:"@ && mode == "t"@,
    ensures
        cut_first(head + answer, ':') == Some((mode, answer)),
        mode == seq![c],
{
    reveal_strlit("p:");
    reveal_strlit("t:");
    reveal_strlit("p");
    reveal_strlit("t");
    assert(mode =~= seq![c]);
    assert(head =~= mode + seq![':']);
    assert forall|i: int| 0 <= i < mode.len() implies (#[trigger] mode[i]) != ':' by {
    }
    cutting_splits_at_the_first(mode, ':', answer);
    assert(head + answer =~= mode + seq![':'] + answer);
}

/// What the client answers to a challenge with the token that the host has the
/// digest of lets the user in by the token.
pub proof fn right_tokens_let_in(
    c: &mut ClientLogin,
    stored: String,
    b: ClientAction,
    l: &mut Login,
    t: &mut Throttle,
    host: &HostState,
    now: u64,
    ev: HostEvent,
    nonce: &str,
    token: &str,
    license: &str,
    a: HostAction,
)
    requires
        call_ensures(ClientLogin::step, (c, ClientEvent::Token(Some(stored))), b),
        old(c)@.challenges,
        !old(c)@.strict,
        old(c)@.stage == ClientStage::NeedToken,
        call_ensures(Login::step, (l, t, host, now, ev, nonce, token, license), a),
        b is Send,
        ev@ == (HostEventView::Frame { msg: b->Send_msg, text: b->Send_text@ }),
        old(l)@.stage == HostStage::AwaitProof,
        old(l)@.scheme != Scheme::Passwords,
        old(c)@.nonce == old(l)@.nonce,
        old(l)@.nonce.len() > 0,
        proof_fits(old(l)@.record.token_hash, old(l)@.nonce),
    ensures
        stored@ == old(l)@.record.token_hash && stored@.len() > 0 ==> let_in(
            old(l)@,
            final(l)@,
            a@,
            license@,
            token@,
        ) && final(l)@.via_token && final(t)@ == old(t)@.remove(old(l)@.peer),
        old(l)@.record.token_hash.len() == 0 ==> !is_proved_stage(final(l)@.stage),
{
    lemma_answer('t', "t:"@, "t"@, proof_of(stored@, old(c)@.nonce));
    reveal_strlit("admin");
    assert("admin"@ =~= seq!['a', 'd', 'm', 'i', 'n']);
}

/// Where passwords and tokens are sent as they are, the right one lets the user
/// in, and no other does.
pub proof fn plain_secrets_let_in(
    l: &mut Login,
    t: &mut Throttle,
    host: &HostState,
    now: u64,
    ev: HostEvent,
    nonce: &str,
    token: &str,
    license: &str,
    a: HostAction,
    msg: u8,
    text: Seq<char>,
)
    requires
        call_ensures(Login::step, (l, t, host, now, ev, nonce, token, license), a),
        old(l)@.stage == HostStage::AwaitProof,
        old(l)@.scheme == Scheme::Passwords,
        ev@ == (HostEventView::Frame { msg, text }),
        is_tight(text),
    ensures
        final(t)@ == old(t)@,
        msg == 3 && password_fits(old(l)@.record.pw_salt, text) ==> (is_proved_stage(
            final(l)@.stage,
        ) <==> password_hash(old(l)@.record.pw_salt, text) == old(l)@.record.pw_hash),
        msg == 8 && old(l)@.record.token_hash.len() > 0 && encode_utf8(text).len() < MESSAGE_LIMIT
            ==> (is_proved_stage(final(l)@.stage) <==> hex_text(sha256(encode_utf8(text))) == old(
            l,
        )@.record.token_hash),
        msg == 8 && old(l)@.record.token_hash.len() == 0 ==> !is_proved_stage(final(l)@.stage),
        is_proved_stage(final(l)@.stage) ==> let_in(old(l)@, final(l)@, a@, license@, token@)
            && final(l)@.via_token == (msg == 8) && (msg == 3 || msg == 8),
        msg != 3 && msg != 8 ==> a@ == HostActionView::Refuse(Refusal::UnexpectedMessage),
{
    let e = Seq::<char>::empty();
    trimming_takes_off_blanks(e, text, e);
    assert(e + text + e =~= text);
    reveal_strlit("admin");
    assert("admin"@ =~= seq!['a', 'd', 'm', 'i', 'n']);
}

/// A wrong answer is counted against its address; it is asked for again, with a
/// new nonce, until it was given three times or the address is locked out.
pub proof fn wrong_answers_are_asked_again(
    l: &mut Login,
    t: &mut Throttle,
    host: &HostState,
    now: u64,
    ev: HostEvent,
    nonce: &str,
    token: &str,
    license: &str,
    a: HostAction,
    mode: Seq<char>,
    answer: Seq<char>,
    after: bool,
)
    requires
        call_ensures(Login::step, (l, t, host, now, ev, nonce, token, license), a),
        call_ensures(Throttle::is_locked, (&*final(t), old(l)@.peer, now), after),
        old(l)@.stage == HostStage::AwaitProof,
        old(l)@.scheme != Scheme::Passwords,
        ev@ == (HostEventView::Frame { msg: 12, text: mode + seq![':'] + answer }),
        forall|i: int| 0 <= i < mode.len() ==> (#[trigger] mode[i]) != ':',
        !(mode == seq!['t'] && answer == proof_of(old(l)@.record.token_hash, old(l)@.nonce)),
        !(mode == seq!['p'] && answer == proof_of(old(l)@.record.pw_hash, old(l)@.nonce)),
    ensures
        final(t)@ == after_fail(old(t)@, old(l)@.peer, now),
        after ==> a@ == HostActionView::Refuse(Refusal::LockedOut) && final(l)@.stage
            == HostStage::Closed,
        !after && old(l)@.attempt >= 3 ==> a@ == HostActionView::Refuse(Refusal::AuthFailed)
            && final(l)@.stage == HostStage::Closed,
        !after && old(l)@.attempt < 3 ==> a@ == (HostActionView::Ask {
            msg: 11,
            text: old(l)@.record.pw_salt + seq!['\n'] + nonce@,
        }) && final(l)@ == (LoginView {
            attempt: (old(l)@.attempt + 1) as u32,
            nonce: nonce@,
            ..old(l)@
        }),
{
    cutting_splits_at_the_first(mode, ':', answer);
    reveal_strlit("t");
    reveal_strlit("p");
    reveal_strlit("\n");
    assert("t"@ =~= seq!['t']);
    assert("p"@ =~= seq!['p']);
    assert("\n"@ =~= seq!['\n']);
}

/// An answer of another type, or without a mode, ends the login and is not
/// counted.
pub proof fn broken_answers_end_the_login(
    l: &mut Login,
    t: &mut Throttle,
    host: &HostState,
    now: u64,
    ev: HostEvent,
    nonce: &str,
    token: &str,
    license: &str,
    a: HostAction,
    msg: u8,
    text: Seq<char>,
)
    requires
        call_ensures(Login::step, (l, t, host, now, ev, nonce, token, license), a),
        old(l)@.stage == HostStage::AwaitProof,
        old(l)@.scheme != Scheme::Passwords,
        ev@ == (HostEventView::Frame { msg, text }),
        msg != 12 || forall|i: int| 0 <= i < text.len() ==> (#[trigger] text[i]) != ':',
    ensures
        final(t)@ == old(t)@,
        final(l)@.stage == HostStage::Closed,
        msg != 12 ==> a@ == HostActionView::Refuse(Refusal::ExpectedProof),
        msg == 12 ==> a@ == HostActionView::Refuse(Refusal::MalformedProof),
{
    if msg == 12 {
        cutting_splits_at_the_first(text, ':', Seq::empty());
    }
}

/// What follows a proof: the license is accepted and noted; one who came by
/// password gets a token, stored before it is sent; then the session begins,
/// with the rights of the role. A step that fails closes the login.
pub proof fn logins_go_on(
    l: &mut Login,
    t: &mut Throttle,
    host: &HostState,
    now: u64,
    ev: HostEvent,
    nonce: &str,
    token: &str,
    license: &str,
    a: HostAction,
)
    requires
        call_ensures(Login::step, (l, t, host, now, ev, nonce, token, license), a),
        is_proved_stage(old(l)@.stage),
    ensures
        final(t)@ == old(t)@,
        final(l)@.user == old(l)@.user && final(l)@.record == old(l)@.record && final(l)@.via_token
            == old(l)@.via_token,
        ({
            let admin = old(l)@.record.role == seq!['a', 'd', 'm', 'i', 'n'];
            &&& old(l)@.stage == HostStage::AwaitLicense ==> if ev@ is Frame && ev@->msg == 5 {
                final(l)@.stage == HostStage::SavingLicense && a is SaveLicensed
            } else {
                final(l)@.stage == HostStage::Closed && a is Close
            }
            &&& old(l)@.stage == HostStage::SavingLicense && ev@ == HostEventView::Saved(true) ==> if
            old(l)@.via_token {
                final(l)@.stage == HostStage::Promoting && a@ == (HostActionView::Promote { admin })
            } else {
                final(l)@.stage == HostStage::SavingToken && final(l)@.token == token@ && a@ == (
                HostActionView::SaveToken { token: token@ })
            }
            &&& old(l)@.stage == HostStage::SavingLicense && ev@ == HostEventView::Saved(false)
                ==> final(l)@.stage == HostStage::Closed && a@ == HostActionView::Refuse(
                Refusal::HostStateError,
            )
            &&& old(l)@.stage == HostStage::SavingToken && ev@ == HostEventView::Saved(true)
                ==> final(l)@.stage == HostStage::SendingToken && a@ == (HostActionView::SendToken {
                token: old(l)@.token,
            })
            &&& old(l)@.stage == HostStage::SavingToken && ev@ == HostEventView::Saved(false)
                ==> final(l)@.stage == HostStage::Closed && a is Close
            &&& old(l)@.stage == HostStage::SendingToken && ev@ == HostEventView::Sent(true)
                ==> final(l)@.stage == HostStage::Promoting && a@ == (HostActionView::Promote {
                admin,
            })
            &&& old(l)@.stage == HostStage::SendingToken && ev@ == HostEventView::Sent(false)
                ==> final(l)@.stage == HostStage::Closed && a is Close
            &&& old(l)@.stage == HostStage::Promoting && ev@ is NotSpawned ==> final(l)@.stage
                == HostStage::Closed && a@ == (HostActionView::RefusePromotion {
                reason: ev@->reason,
            })
            &&& ev@ is Broken ==> final(l)@.stage == HostStage::Closed && a is Close
        }),
{
    reveal_strlit("admin");
    assert("admin"@ =~= seq!['a', 'd', 'm', 'i', 'n']);
}

/// The ticket of a session is read by the client as the port and the key that
/// the host gave: port 4243, or the one of the session's own data layer.
pub proof fn tickets_arrive(
    l: &mut Login,
    t: &mut Throttle,
    host: &HostState,
    now: u64,
    ev: HostEvent,
    nonce: &str,
    token: &str,
    license: &str,
    a: HostAction,
    port: u16,
    key: Seq<char>,
    c: &mut ClientLogin,
    e2: ClientEvent,
    b: ClientAction,
)
    requires
        call_ensures(Login::step, (l, t, host, now, ev, nonce, token, license), a),
        old(l)@.stage == HostStage::Promoting,
        ev@ == (HostEventView::Spawned { port, key }),
        key.len() == 64,
        all_hex(key),
        a is Welcome,
        e2@ == (ClientEventView::Frame { msg: 9, text: a->ticket@ }),
        call_ensures(ClientLogin::step, (c, e2), b),
        old(c)@.stage == ClientStage::AwaitFrame,
        old(c)@.challenges == (old(l)@.scheme != Scheme::Passwords),
    ensures
        final(l)@.stage == HostStage::Promoted,
        old(l)@.scheme == Scheme::Passwords ==> b@ == (ClientActionView::Promoted {
            port: seq!['4', '2', '4', '3'],
            key: Seq::empty(),
        }),
        old(l)@.scheme == Scheme::Challenges ==> b@ == (ClientActionView::Promoted {
            port: seq!['4', '2', '4', '3'],
            key,
        }),
        old(l)@.scheme == Scheme::DataLayer ==> b@ == (ClientActionView::Promoted {
            port: decimal(port as nat),
            key,
        }),
{
    reveal_strlit("4243");
    reveal_strlit("\n");
    let fixed = seq!['4', '2', '4', '3'];
    assert("4243"@ =~= fixed);
    assert("\n"@ =~= seq!['\n']);
    let e = Seq::<char>::empty();
    lemma_decimal(port as nat);
    lemma_hex_is_ascii(key);
    lemma_ticket(fixed, key);
    lemma_ticket(decimal(port as nat), key);
    lemma_trimmed_same(fixed);
}

proof fn lemma_ticket(port: Seq<char>, key: Seq<char>)
    requires
        port.len() > 0,
        all_digits(port),
        key.len() == 64,
        all_hex(key),
    ensures
        trimmed(port + seq!['\n'] + key) == port + seq!['\n'] + key,
        cut_first(port + seq!['\n'] + key, '\n') == Some((port, key)),
{
    let s = port + seq!['\n'] + key;
    assert(s[0] == port[0] && s.last() == key[63]);
    assert(is_digit(port[0]));
    assert(is_hex(key[63]));
    lemma_trimmed_same(s);
    assert forall|i: int| 0 <= i < port.len() implies (#[trigger] port[i]) != '\n' by {
        assert(is_digit(port[i]));
    }
    cutting_splits_at_the_first(port, '\n', key);
}

/// A connection is taken up where its address may come in and is not locked
/// out; else it is told why and closed.
pub proof fn connections_are_taken_up(
    scheme: Scheme,
    peer: PeerIp,
    address: &str,
    host: &HostState,
    throttle: &Throttle,
    now: u64,
    r: (Login, HostAction),
    locked_out: bool,
    may: bool,
)
    requires
        call_ensures(Login::accept, (scheme, peer, address, host, throttle, now), r),
        call_ensures(Throttle::is_locked, (throttle, peer, now), locked_out),
        call_ensures(admits, (host, address), may),
    ensures
        may <==> host@.allow_all_ips || host@.ip_whitelist.len() == 0 || exists|i: int|
            0 <= i < host@.ip_whitelist.len() && (#[trigger] host@.ip_whitelist[i]) == address@,
        !may ==> r.1@ == HostActionView::DrainAndRefuse(Refusal::NotAdmitted) && r.0@.stage
            == HostStage::Closed,
        may && locked_out && scheme != Scheme::Passwords ==> r.1@
            == HostActionView::DrainAndRefuse(Refusal::LockedOut) && r.0@.stage
            == HostStage::Closed,
        may && (!locked_out || scheme == Scheme::Passwords) ==> r.1@ is Read && r.0@.stage
            == HostStage::AwaitHello && r.0@.scheme == scheme && r.0@.peer == peer
            && !r.0@.via_token,
{
}

/// What the host draws for a login is fresh: the challenge that answers a
/// greeting holds 32 digits that were drawn for it.
pub proof fn challenges_are_drawn(
    l: &mut Login,
    t: &mut Throttle,
    host: &HostState,
    now: u64,
    payload: &[u8],
    license: &str,
    a: HostAction,
    user: Seq<char>,
    rest: Seq<char>,
    u: UserView,
)
    requires
        call_ensures(Login::handle_frame, (l, t, host, now, 1u8, payload, license), a),
        payload@ == encode_utf8(user + seq!['\n'] + rest),
        forall|i: int| 0 <= i < user.len() ==> (#[trigger] user[i]) != '\n',
        old(l)@.stage == HostStage::AwaitHello,
        old(l)@.scheme != Scheme::Passwords,
        host@.enabled,
        lookup(host@.users, user) == Some(u),
    ensures
        final(l)@.nonce.len() == 32,
        all_hex(final(l)@.nonce),
        final(l)@.user == user,
        final(l)@.record == u,
        a@ == (HostActionView::Ask { msg: 11, text: u.pw_salt + seq!['\n'] + final(l)@.nonce }),
{
    cutting_splits_at_the_first(user, '\n', rest);
    encoded_text_reads_back(user + seq!['\n'] + rest);
    reveal_strlit("\n");
    assert("\n"@ =~= seq!['\n']);
}

/// The license is that of the file, where there is one.
pub proof fn licenses_come_from_the_file(file: Option<String>, s: String)
    requires
        call_ensures(license_text, (file,), s),
    ensures
        file matches Some(f) ==> s@ == f@,
        file is None ==> s@ == DEFAULT_LICENSE@,
{
}

/// Noting that the license was accepted, or the token that was issued, changes
/// that in the user's account, and nothing else anywhere.
pub proof fn accounts_are_noted(
    s: &mut HostState,
    t: &mut HostState,
    user: &str,
    token: &str,
    name: Seq<char>,
    u: UserView,
)
    requires
        call_ensures(mark_licensed, (s, user), ()),
        call_ensures(store_token, (t, user, token), ()),
        *old(s) == *old(t),
        names_rise(old(s)@.users),
        lookup(old(s)@.users, user@) == Some(u),
    ensures
        lookup(final(s)@.users, user@) == Some(UserView { licensed: true, ..u }),
        lookup(final(t)@.users, user@) == Some(
            UserView { token_hash: hex_text(sha256(encode_utf8(token@))), ..u },
        ),
        name != user@ ==> lookup(final(s)@.users, name) == lookup(old(s)@.users, name) && lookup(
            final(t)@.users,
            name,
        ) == lookup(old(s)@.users, name),
        final(s)@ == (StateView { users: final(s)@.users, ..old(s)@ }),
        final(t)@ == (StateView { users: final(t)@.users, ..old(s)@ }),
{
    let h = hex_text(sha256(encode_utf8(token@)));
    inserted_user_is_found(old(s)@.users, user@, UserView { licensed: true, ..u }, name);
    inserted_user_is_found(old(s)@.users, user@, UserView { token_hash: h, ..u }, name);
}

// ---------------------------------------------------------------- reasons

/// Each refusal is told in words of its own.
pub proof fn refusals_are_told(
    r: Refusal,
    s: &'static str,
    d: DenyReason,
    t: &'static str,
    e: ClientEnd,
    u: &'static str,
)
    requires
        call_ensures(Refusal::text, (r,), s),
        call_ensures(DenyReason::text, (d,), t),
        call_ensures(ClientEnd::bye, (e,), u),
    ensures
        r == Refusal::NotAdmitted ==> s@ == "address not allowed"@,
        r == Refusal::LockedOut ==> s@ == "too many failures, try later"@,
        r == Refusal::ExpectedHello ==> s@ == "expected HELLO"@,
        r == Refusal::MalformedHello ==> s@ == "malformed HELLO"@,
        r == Refusal::HostDisabled ==> s@ == "host disabled"@,
        r == Refusal::UnknownUser ==> s@ == "unknown user"@,
        r == Refusal::ExpectedProof ==> s@ == "expected PROOF"@,
        r == Refusal::MalformedProof ==> s@ == "malformed PROOF"@,
        r == Refusal::UnexpectedMessage ==> s@ == "unexpected message during auth"@,
        r == Refusal::AuthFailed ==> s@ == "authentication failed"@,
        r == Refusal::HostStateError ==> s@ == "host state error"@,
        d == DenyReason::NotAdmin ==> t@ == "'sudo' requires an admin account on this host"@,
        d == DenyReason::Busy ==> t@ == "a command is still running on this session"@,
        e == ClientEnd::DataLinkDied ==> u@ == "data-link lost"@,
        e == ClientEnd::TransferDone ==> u@ == "transfer done"@,
        e == ClientEnd::Stalled ==> u@ == "stall"@,
{
}

/// What an account accepts: the password that its hash was made of, the token
/// whose digest it has, and the proof of either.
pub proof fn accounts_accept_their_secrets(
    u: &UserRecord,
    nonce: &str,
    mode: &str,
    answer: &str,
    a: bool,
    password: &str,
    b: bool,
    token: &str,
    c: bool,
    p: String,
    salt: &str,
)
    requires
        call_ensures(check_answer, (u, nonce, mode, answer), a),
        call_ensures(verify_password, (u, password), b),
        call_ensures(check_token, (u, token), c),
        salt@ == u.pw_salt@,
        call_ensures(hash_password, (salt, password), p),
        password_fits(u.pw_salt@, password@),
        encode_utf8(token@).len() < MESSAGE_LIMIT,
        proof_fits(u.pw_hash@, nonce@) && proof_fits(u.token_hash@, nonce@),
        nonce@.len() > 0,
    ensures
        b <==> p@ == u.pw_hash@,
        c <==> u.token_hash@.len() > 0 && hex_text(sha256(encode_utf8(token@))) == u.token_hash@,
        mode@ == seq!['p'] ==> (a <==> u.pw_hash@.len() > 0 && answer@ == hex_text(
            sha256(encode_utf8(u.pw_hash@) + encode_utf8(nonce@)),
        )),
        mode@ == seq!['t'] ==> (a <==> u.token_hash@.len() > 0 && answer@ == hex_text(
            sha256(encode_utf8(u.token_hash@) + encode_utf8(nonce@)),
        )),
        mode@ != seq!['p'] && mode@ != seq!['t'] ==> !a,
{
    reveal_strlit("p");
    reveal_strlit("t");
    assert("p"@ =~= seq!['p']);
    assert("t"@ =~= seq!['t']);
    assert("p"@[0] == 'p' && "t"@[0] == 't');
}

/// The proof of a password is that of its hash with the salt.
pub proof fn passwords_are_proved_by_their_hash(
    salt: &str,
    password: &str,
    nonce: &str,
    s: String,
    h: String,
    k: &str,
    p: String,
)
    requires
        call_ensures(password_proof, (salt, password, nonce), s),
        call_ensures(hash_password, (salt, password), h),
        k@ == h@,
        call_ensures(compute_proof, (k, nonce), p),
    ensures
        s@ == p@,
{
}

/// Salts and nonces are 32 digits, a salt so 16 bytes.
pub proof fn salts_and_nonces_are_digits(s: String, n: String, k: &str, r: bool, len: usize)
    requires
        call_ensures(new_salt, (), s),
        call_ensures(new_nonce, (), n),
        call_ensures(is_hex_of_len, (k, len), r),
    ensures
        s@.len() == 32 && all_hex(s@),
        hex_bytes(s@) matches Some(b) && b.len() == 16,
        n@.len() == 32 && all_hex(n@),
        r <==> k@.len() == len && forall|i: int|
            0 <= i < k@.len() ==> ('0' <= #[trigger] k@[i] <= '9') || ('a' <= k@[i] <= 'f') || ('A'
                <= k@[i] <= 'F'),
{
    if r {
        assert forall|i: int| 0 <= i < k@.len() implies ('0' <= #[trigger] k@[i] <= '9') || ('a'
            <= k@[i] <= 'f') || ('A' <= k@[i] <= 'F') by {
            assert(is_hex(k@[i]));
        }
    }
}

/// A login that is opened waits for a greeting, unless its address is locked
/// out.
pub proof fn opened_logins_wait(
    scheme: Scheme,
    peer: PeerIp,
    t: &Throttle,
    now: u64,
    r: (Login, HostAction),
    out: bool,
)
    requires
        call_ensures(Login::open, (scheme, peer, t, now), r),
        call_ensures(Throttle::is_locked, (t, peer, now), out),
    ensures
        out && scheme != Scheme::Passwords ==> r.0@.stage == HostStage::Closed && r.1@
            == HostActionView::DrainAndRefuse(Refusal::LockedOut),
        !out || scheme == Scheme::Passwords ==> r.0@.stage == HostStage::AwaitHello && r.1@ is Read
            && r.0@.peer == peer && r.0@.scheme == scheme,
{
}

/// What is drawn for a login is what is used: the token that is saved and then
/// sent has 64 digits, and the nonce of a challenge 32.
pub proof fn drawn_texts_are_fresh(
    l: &mut Login,
    t: &mut Throttle,
    host: &HostState,
    now: u64,
    ev: HostEvent,
    license: &str,
    a: HostAction,
)
    requires
        call_ensures(Login::handle, (l, t, host, now, ev, license), a),
    ensures
        a@ matches HostActionView::SaveToken { token } ==> token.len() == 64 && all_hex(token)
            && final(l)@.token == token,
        a@ matches HostActionView::Ask { msg, text } ==> (msg == 11 ==> final(l)@.nonce.len() == 32
            && all_hex(final(l)@.nonce) && text == final(l)@.record.pw_salt + seq!['\n']
            + final(l)@.nonce),
        a@ matches HostActionView::SendToken { token } ==> token == old(l)@.token,
{
    reveal_strlit("\n");
    assert("\n"@ =~= seq!['\n']);
}

/// Where secrets are sent as they are, a wrong one is asked for again until it
/// was given three times, and then refused.
pub proof fn wrong_plain_secrets_are_asked_again(
    l: &mut Login,
    t: &mut Throttle,
    host: &HostState,
    now: u64,
    ev: HostEvent,
    nonce: &str,
    token: &str,
    license: &str,
    a: HostAction,
    msg: u8,
    text: Seq<char>,
)
    requires
        call_ensures(Login::step, (l, t, host, now, ev, nonce, token, license), a),
        old(l)@.stage == HostStage::AwaitProof,
        old(l)@.scheme == Scheme::Passwords,
        ev@ == (HostEventView::Frame { msg, text }),
        msg == 3 && password_hash(old(l)@.record.pw_salt, text) != old(l)@.record.pw_hash || msg == 8
            && hex_text(sha256(encode_utf8(trimmed(text)))) != old(l)@.record.token_hash,
    ensures
        final(t)@ == old(t)@,
        old(l)@.attempt < 3 ==> a@ == (HostActionView::Ask { msg: 2, text: Seq::empty() })
            && final(l)@.stage == HostStage::AwaitProof && final(l)@.attempt == old(l)@.attempt + 1
            && final(l)@.user == old(l)@.user && final(l)@.record == old(l)@.record,
        old(l)@.attempt >= 3 ==> a@ == HostActionView::AskAndRefuse(Refusal::AuthFailed)
            && final(l)@.stage == HostStage::Closed,
{
}

/// A connection that breaks, or anything that does not belong to a stage, closes
/// the login.
pub proof fn other_events_close_the_login(
    l: &mut Login,
    t: &mut Throttle,
    host: &HostState,
    now: u64,
    ev: HostEvent,
    nonce: &str,
    token: &str,
    license: &str,
    a: HostAction,
)
    requires
        call_ensures(Login::step, (l, t, host, now, ev, nonce, token, license), a),
        ({
            let s = old(l)@.stage;
            &&& s == HostStage::AwaitHello || s == HostStage::AwaitProof || s
                == HostStage::AwaitLicense ==> !(ev@ is Frame)
            &&& s == HostStage::SavingLicense || s == HostStage::SavingToken ==> !(ev@ is Saved)
            &&& s == HostStage::SendingToken ==> !(ev@ is Sent)
            &&& s == HostStage::Promoting ==> !(ev@ is Spawned) && !(ev@ is NotSpawned)
        }),
    ensures
        a is Close,
        final(l)@.stage == HostStage::Closed,
        final(t)@ == old(t)@,
{
}

/// The client gives up on anything that does not belong to its stage.
pub proof fn other_events_end_the_login(c: &mut ClientLogin, ev: ClientEvent, a: ClientAction)
    requires
        call_ensures(ClientLogin::step, (c, ev), a),
        ({
            let s = old(c)@.stage;
            &&& s == ClientStage::AwaitFrame ==> !(ev@ is Frame)
            &&& s == ClientStage::NeedToken ==> !(ev@ is Token)
            &&& s == ClientStage::NeedPassword ==> !(ev@ is Password)
            &&& s == ClientStage::NeedLicense ==> !(ev@ is License)
            &&& s == ClientStage::Storing ==> !(ev@ is Stored)
        }),
    ensures
        a@ == (ClientActionView::Fail { reason: "connection lost"@ }),
        final(c)@.stage == ClientStage::Ended,
{
}

} // verus!
