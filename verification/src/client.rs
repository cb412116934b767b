//! The client's side of a connection: the target, the login, as steps from what
//! arrives to what is answered.

use crate::creds::{
    HASH_ROUNDS, compute_proof, hash_password, lemma_hex_is_ascii, password_digest, password_hash,
    proof_of, salt_bytes,
};
use crate::proto::{
    AUTH_FAIL, AUTH_OK, AUTH_TOKEN, CHALLENGE, LICENSE_ACCEPT, LICENSE_REJECT, LICENSE_TEXT,
    PASSWD_AUTH, PASSWD_REQ, PROOF, TOKEN_ISSUED, payload_text,
};
use crate::text::{
    cat2, cat3, cat4, cat5, chars_of, cut_first, digit_char, lemma_encode_cut, lemma_encode_len,
    lemma_encode_trimmed, lemma_span_back_is, lossy_text, lowered, owned_opt, parse_unsigned,
    same, span_back, split_once, text_of, text_opt, to_lower, trim, trimmed, trimmed_end_by,
    unsigned_value,
};
use crate::token::{hash_token, hex_reads_back, hex_text, token_digest};
use vstd::prelude::*;
use vstd::string::*;
use vstd::utf8::*;

verus! {

/// The port of the control channel.
pub const BOOTSTRAP_PORT: u16 = 4242;

/// How long the client waits for a frame of the login, in nanoseconds: 10
/// seconds.
pub const CONNECT_TIMEOUT: u64 = 10_000_000_000;

/// How often the client answers with a password after its first answer.
pub const MAX_PASSWORD_ANSWERS: u32 = 3;

/// Texts that are hashed stay well below this number of bytes.
pub const TEXT_LIMIT: u64 = 0x0800_0000_0000_0000;

// ---------------------------------------------------------------- the target

/// The user and the address in a target.
pub open spec fn target_of(arg: Seq<char>) -> Option<(Seq<char>, Seq<char>)> {
    match cut_first(arg, '@') {
        Some((user, ip)) => if user.len() > 0 && ip.len() > 0 { Some((user, ip)) } else { None },
        None => None,
    }
}

/// The user and the address in a target of the form `user@ip`.
pub fn parse_target(arg: &str) -> (r: Result<(String, String), String>)
    ensures
        r is Ok == target_of(arg@) is Some,
        r matches Ok(p) ==> target_of(arg@) == Some((p.0@, p.1@)),
        r matches Err(e) ==> e@ == "invalid target '"@ + arg@ + "': expected user@ip"@,
{
    match split_once(arg, '@') {
        Some((user, ip)) => if user.as_str().is_empty() || ip.as_str().is_empty() {
            Err(cat3("invalid target '", arg, "': expected user@ip"))
        } else {
            Ok((user, ip))
        },
        None => Err(cat3("invalid target '", arg, "': expected user@ip")),
    }
}

/// The port that the environment names, or the default.
pub fn bootstrap_port(named: Option<&str>) -> (p: u16)
    ensures
        p == (match text_opt(named) {
            Some(s) => match unsigned_value(s, u16::MAX as nat) {
                Some(n) => n as u16,
                None => BOOTSTRAP_PORT,
            },
            None => BOOTSTRAP_PORT,
        }),
{
    match named {
        Some(s) => match parse_unsigned(s, u16::MAX as u128) {
            Some(n) => n as u16,
            None => BOOTSTRAP_PORT,
        },
        None => BOOTSTRAP_PORT,
    }
}

/// The first frame of a login: the user and the version of the client.
pub fn hello_text(user: &str, version: &str) -> (s: String)
    ensures
        s@ == user@ + "\n"@ + version@ + "\n"@,
{
    cat4(user, "\n", version, "\n")
}

/// A separator of names in a path, of either kind.
pub open spec fn is_separator() -> spec_fn(char) -> bool {
    |c: char| c == '\\' || c == '/'
}

/// The last name in a path.
pub open spec fn last_name(p: Seq<char>) -> Seq<char> {
    let t = trimmed_end_by(p, is_separator());
    t.skip(t.len() - span_back(t, |c: char| !is_separator()(c)))
}

/// The last name in a path; separators at its end do not count.
pub fn basename_of(p: &str) -> (s: String)
    ensures
        s@ == last_name(p@),
{
    let v = chars_of(p);
    let mut j: usize = v.len();
    while j > 0 && (v[j - 1] == '\\' || v[j - 1] == '/')
        invariant
            j <= v@.len(),
            forall|k: int| j <= k < v@.len() ==> is_separator()(#[trigger] v@[k]),
        decreases j,
    {
        j -= 1;
    }
    proof {
        lemma_span_back_is(v@, is_separator(), v@.len() - j);
    }
    let ghost t = v@.take(j as int);
    let mut i: usize = j;
    while i > 0 && v[i - 1] != '\\' && v[i - 1] != '/'
        invariant
            i <= j <= v@.len(),
            t == v@.take(j as int),
            forall|k: int| i <= k < j ==> !is_separator()(#[trigger] t[k]),
        decreases i,
    {
        i -= 1;
        assert(t[i as int] == v@[i as int]);
    }
    proof {
        if i > 0 {
            assert(t[i - 1] == v@[i - 1]);
        }
        lemma_span_back_is(t, |c: char| !is_separator()(c), j - i);
        assert(t.skip(i as int) =~= v@.subrange(i as int, j as int));
    }
    text_of(&v, i, j)
}

// ---------------------------------------------------------------- the ticket

/// The data port and the session key in a ticket.
pub open spec fn ticket_parts(ticket: Seq<char>) -> Option<(Seq<char>, Seq<char>)> {
    match cut_first(ticket, '\n') {
        Some((port, key)) => if port.len() > 0 && encode_utf8(key).len() == 64 {
            Some((port, key))
        } else {
            None
        },
        None => None,
    }
}

/// The data port and the session key in a ticket.
pub fn split_ticket(ticket: &str) -> (r: Result<(String, String), String>)
    ensures
        r is Ok == ticket_parts(ticket@) is Some,
        r matches Ok(p) ==> ticket_parts(ticket@) == Some((p.0@, p.1@)),
        r matches Err(e) ==> e@ == "host sent malformed promotion ticket"@,
{
    match split_once(ticket, '\n') {
        Some((port, key)) => if !port.as_str().is_empty() && key.as_str().as_bytes().len() == 64 {
            Ok((port, key))
        } else {
            Err(String::from_str("host sent malformed promotion ticket"))
        },
        None => Err(String::from_str("host sent malformed promotion ticket")),
    }
}

/// Whether the environment accepts the license beforehand.
pub fn license_preaccepted(value: Option<&str>) -> (r: bool)
    ensures
        r == (text_opt(value) matches Some(s) && (s == "1"@ || s == "true"@ || s == "TRUE"@)),
{
    match value {
        Some(s) => same(s, "1") || same(s, "true") || same(s, "TRUE"),
        None => false,
    }
}

/// What a line answers to the question whether the license is accepted.
pub fn confirm_license(line: &str) -> (r: Option<bool>)
    ensures
        r == ({
            let w = lowered(trimmed(line@));
            if w == "y"@ || w == "yes"@ {
                Some(true)
            } else if w == "n"@ || w == "no"@ {
                Some(false)
            } else {
                None
            }
        }),
{
    let t = trim(line);
    let w = to_lower(&t);
    if same(&w, "y") || same(&w, "yes") {
        Some(true)
    } else if same(&w, "n") || same(&w, "no") {
        Some(false)
    } else {
        None
    }
}

// ---------------------------------------------------------------- the login: model

/// How far a login has come.
#[derive(Clone, Copy, Debug, PartialEq, Eq, Structural)]
pub enum ClientStage {
    AwaitFrame,
    NeedToken,
    NeedPassword,
    NeedLicense,
    Storing,
    Ended,
}

/// A login.
pub struct ClientLoginView {
    /// Challenges are answered, and tickets hold a key.
    pub challenges: bool,
    /// A stored token counts only if it has 64 bytes.
    pub strict: bool,
    /// A password can be asked for where there is no token.
    pub may_prompt: bool,
    pub user: Seq<char>,
    pub ip: Seq<char>,
    pub stage: ClientStage,
    pub tried_token: bool,
    pub attempts: u32,
    pub salt: Seq<char>,
    pub nonce: Seq<char>,
}

/// What happens during a login.
pub enum ClientEventView {
    Frame { msg: u8, text: Seq<char> },
    /// The stored token, if there is one.
    Token(Option<Seq<char>>),
    /// The password that was typed.
    Password(Seq<char>),
    /// Whether the license is accepted.
    License(bool),
    /// The token was stored, or why it was not.
    Stored(Option<Seq<char>>),
}

/// What the client does next.
pub enum ClientActionView {
    Read,
    LoadToken,
    AskPassword,
    Send { msg: u8, text: Seq<char> },
    ShowLicense { text: Seq<char> },
    StoreToken { token: Seq<char> },
    Fail { reason: Seq<char> },
    SendAndFail { msg: u8, text: Seq<char>, reason: Seq<char> },
    Promoted { port: Seq<char>, key: Seq<char> },
}

/// A text short enough to be hashed with others.
pub open spec fn fits(s: Seq<char>) -> bool {
    encode_utf8(s).len() < TEXT_LIMIT
}

/// A byte in hexadecimal, with two upper-case digits.
pub open spec fn upper_hex(b: u8) -> Seq<char> {
    seq![upper_digit((b / 16) as nat), upper_digit((b % 16) as nat)]
}

pub open spec fn upper_digit(d: nat) -> char {
    if d < 10 { digit_char(d) } else if d == 10 { 'A' } else if d == 11 { 'B' }
    else if d == 12 { 'C' } else if d == 13 { 'D' } else if d == 14 { 'E' } else { 'F' }
}

pub open spec fn failed(l: ClientLoginView, reason: Seq<char>) -> (
    ClientLoginView,
    ClientActionView,
) {
    (
        ClientLoginView { stage: ClientStage::Ended, ..l },
        ClientActionView::Fail { reason },
    )
}

/// The client asks for a password, unless it has done so too often.
pub open spec fn ask_password(l: ClientLoginView) -> (ClientLoginView, ClientActionView) {
    if l.attempts >= MAX_PASSWORD_ANSWERS {
        failed(
            l,
            if l.challenges {
                "too many failed authentication attempts"@
            } else {
                "too many failed password attempts"@
            },
        )
    } else {
        (
            ClientLoginView {
                stage: ClientStage::NeedPassword,
                attempts: (l.attempts + 1) as u32,
                ..l
            },
            ClientActionView::AskPassword,
        )
    }
}

/// The step of a login on a challenge: the stored token answers the first one,
/// the password every other.
pub open spec fn on_challenge(l: ClientLoginView, text: Seq<char>) -> (
    ClientLoginView,
    ClientActionView,
) {
    match cut_first(text, '\n') {
        None => failed(l, "malformed challenge from host"@),
        Some((salt, nonce)) => {
            let m = ClientLoginView { salt, nonce: trimmed(nonce), ..l };
            if !l.tried_token {
                (
                    ClientLoginView { stage: ClientStage::NeedToken, tried_token: true, ..m },
                    ClientActionView::LoadToken,
                )
            } else {
                ask_password(m)
            }
        },
    }
}

/// The step of a login on a frame.
pub open spec fn on_login_frame(l: ClientLoginView, msg: u8, text: Seq<char>) -> (
    ClientLoginView,
    ClientActionView,
) {
    if l.challenges && msg == CHALLENGE {
        on_challenge(l, text)
    } else if !l.challenges && msg == PASSWD_REQ {
        if l.tried_token {
            ask_password(l)
        } else {
            (ClientLoginView { stage: ClientStage::NeedToken, ..l }, ClientActionView::LoadToken)
        }
    } else if msg == LICENSE_TEXT {
        (
            ClientLoginView { stage: ClientStage::NeedLicense, ..l },
            ClientActionView::ShowLicense { text },
        )
    } else if msg == TOKEN_ISSUED {
        let token = trimmed(text);
        (
            ClientLoginView { stage: ClientStage::Storing, ..l },
            ClientActionView::StoreToken {
                token: if l.challenges { token_digest(token) } else { token },
            },
        )
    } else if msg == AUTH_OK {
        if l.challenges {
            match ticket_parts(trimmed(text)) {
                Some((port, key)) => (
                    ClientLoginView { stage: ClientStage::Ended, ..l },
                    ClientActionView::Promoted { port, key },
                ),
                None => failed(l, "host sent malformed promotion ticket"@),
            }
        } else {
            (
                ClientLoginView { stage: ClientStage::Ended, ..l },
                ClientActionView::Promoted { port: trimmed(text), key: Seq::empty() },
            )
        }
    } else if msg == AUTH_FAIL {
        failed(l, "host refused: "@ + trimmed(text))
    } else {
        failed(l, "unexpected frame 0x"@ + upper_hex(msg) + " during handshake"@)
    }
}

/// The answer to a challenge with a token's hash.
pub open spec fn token_answer(token_hash: Seq<char>, nonce: Seq<char>) -> Seq<char> {
    "t:"@ + proof_of(token_hash, nonce)
}

/// The answer to a challenge with a password.
pub open spec fn password_answer(salt: Seq<char>, password: Seq<char>, nonce: Seq<char>) -> Seq<
    char,
> {
    "p:"@ + proof_of(password_hash(salt, password), nonce)
}

/// A stored token can be used.
pub open spec fn usable(l: ClientLoginView, token: Option<Seq<char>>) -> bool {
    token matches Some(t) && (if l.challenges {
        !l.strict || encode_utf8(t).len() == 64
    } else {
        t.len() > 0
    })
}

/// The step of a login once the stored token was looked for.
pub open spec fn on_token(l: ClientLoginView, token: Option<Seq<char>>) -> (
    ClientLoginView,
    ClientActionView,
) {
    if usable(l, token) {
        let t = token->0;
        (
            ClientLoginView { stage: ClientStage::AwaitFrame, tried_token: true, ..l },
            if l.challenges {
                ClientActionView::Send { msg: PROOF, text: token_answer(t, l.nonce) }
            } else {
                ClientActionView::Send { msg: AUTH_TOKEN, text: t }
            },
        )
    } else if !l.challenges {
        ask_password(l)
    } else if !l.may_prompt {
        failed(
            l,
            "no stored credential for "@ + l.user + "@"@ + l.ip
                + " - run an interactive session once to store a token"@,
        )
    } else {
        (ClientLoginView { stage: ClientStage::NeedPassword, ..l }, ClientActionView::AskPassword)
    }
}

/// The step of a login on an event.
pub open spec fn client_step(l: ClientLoginView, ev: ClientEventView) -> (
    ClientLoginView,
    ClientActionView,
) {
    match (l.stage, ev) {
        (ClientStage::AwaitFrame, ClientEventView::Frame { msg, text }) => on_login_frame(
            l,
            msg,
            text,
        ),
        (ClientStage::NeedToken, ClientEventView::Token(token)) => on_token(l, token),
        (ClientStage::NeedPassword, ClientEventView::Password(password)) => (
            ClientLoginView { stage: ClientStage::AwaitFrame, ..l },
            if l.challenges {
                ClientActionView::Send {
                    msg: PROOF,
                    text: password_answer(l.salt, password, l.nonce),
                }
            } else {
                ClientActionView::Send { msg: PASSWD_AUTH, text: password }
            },
        ),
        (ClientStage::NeedLicense, ClientEventView::License(ok)) => if ok {
            (
                ClientLoginView { stage: ClientStage::AwaitFrame, ..l },
                ClientActionView::Send { msg: LICENSE_ACCEPT, text: "y"@ },
            )
        } else {
            (
                ClientLoginView { stage: ClientStage::Ended, ..l },
                ClientActionView::SendAndFail {
                    msg: LICENSE_REJECT,
                    text: "n"@,
                    reason: "license rejected — session aborted"@,
                },
            )
        },
        (ClientStage::Storing, ClientEventView::Stored(fault)) => match fault {
            None => (
                ClientLoginView { stage: ClientStage::AwaitFrame, ..l },
                ClientActionView::Read,
            ),
            Some(e) => failed(l, "could not store token: "@ + e),
        },
        _ => failed(l, "connection lost"@),
    }
}

/// All texts of an event are short enough to be hashed.
pub open spec fn event_fits(ev: ClientEventView) -> bool {
    match ev {
        ClientEventView::Frame { msg, text } => fits(text),
        ClientEventView::Token(Some(t)) => fits(t),
        ClientEventView::Password(p) => fits(p),
        _ => true,
    }
}

// ---------------------------------------------------------------- the login: execution

/// A login.
pub struct ClientLogin {
    pub challenges: bool,
    pub strict: bool,
    pub may_prompt: bool,
    pub user: String,
    pub ip: String,
    pub stage: ClientStage,
    pub tried_token: bool,
    pub attempts: u32,
    pub salt: String,
    pub nonce: String,
}

impl View for ClientLogin {
    type V = ClientLoginView;

    open spec fn view(&self) -> ClientLoginView {
        ClientLoginView {
            challenges: self.challenges,
            strict: self.strict,
            may_prompt: self.may_prompt,
            user: self.user@,
            ip: self.ip@,
            stage: self.stage,
            tried_token: self.tried_token,
            attempts: self.attempts,
            salt: self.salt@,
            nonce: self.nonce@,
        }
    }
}

/// What happens during a login.
pub enum ClientEvent {
    Frame { msg: u8, text: String },
    Token(Option<String>),
    Password(String),
    License(bool),
    Stored(Option<String>),
}

impl View for ClientEvent {
    type V = ClientEventView;

    open spec fn view(&self) -> ClientEventView {
        match self {
            ClientEvent::Frame { msg, text } => ClientEventView::Frame { msg: *msg, text: text@ },
            ClientEvent::Token(t) => ClientEventView::Token(owned_opt(*t)),
            ClientEvent::Password(p) => ClientEventView::Password(p@),
            ClientEvent::License(ok) => ClientEventView::License(*ok),
            ClientEvent::Stored(e) => ClientEventView::Stored(owned_opt(*e)),
        }
    }
}

/// What the client does next.
pub enum ClientAction {
    Read,
    LoadToken,
    AskPassword,
    Send { msg: u8, text: String },
    ShowLicense { text: String },
    StoreToken { token: String },
    Fail { reason: String },
    SendAndFail { msg: u8, text: String, reason: String },
    Promoted { port: String, key: String },
}

impl View for ClientAction {
    type V = ClientActionView;

    open spec fn view(&self) -> ClientActionView {
        match self {
            ClientAction::Read => ClientActionView::Read,
            ClientAction::LoadToken => ClientActionView::LoadToken,
            ClientAction::AskPassword => ClientActionView::AskPassword,
            ClientAction::Send { msg, text } => ClientActionView::Send { msg: *msg, text: text@ },
            ClientAction::ShowLicense { text } => ClientActionView::ShowLicense { text: text@ },
            ClientAction::StoreToken { token } => ClientActionView::StoreToken { token: token@ },
            ClientAction::Fail { reason } => ClientActionView::Fail { reason: reason@ },
            ClientAction::SendAndFail { msg, text, reason } => ClientActionView::SendAndFail {
                msg: *msg,
                text: text@,
                reason: reason@,
            },
            ClientAction::Promoted { port, key } => ClientActionView::Promoted {
                port: port@,
                key: key@,
            },
        }
    }
}

/// A byte in hexadecimal, with two upper-case digits.
pub fn upper_hex_text(b: u8) -> (s: String)
    ensures
        s@ == upper_hex(b),
{
    let mut s = String::new();
    s.push(upper(b / 16));
    s.push(upper(b % 16));
    assert(s@ =~= upper_hex(b));
    s
}

fn upper(d: u8) -> (c: char)
    requires
        d < 16,
    ensures
        c == upper_digit(d as nat),
{
    match d {
        0 => '0', 1 => '1', 2 => '2', 3 => '3', 4 => '4', 5 => '5', 6 => '6', 7 => '7',
        8 => '8', 9 => '9', 10 => 'A', 11 => 'B', 12 => 'C', 13 => 'D', 14 => 'E', _ => 'F',
    }
}

/// The answer to a challenge with a password.
pub fn password_proof(salt: &str, password: &str, nonce: &str) -> (s: String)
    requires
        fits(salt@),
        fits(password@),
        fits(nonce@),
    ensures
        s@ == proof_of(password_hash(salt@, password@), nonce@),
{
    proof {
        lemma_encode_len(salt@);
    }
    let h = hash_password(salt, password);
    proof {
        lemma_hash_is_short(salt@, password@);
    }
    compute_proof(&h, nonce)
}

/// A password hash has 64 bytes, where the digest has 32.
proof fn lemma_hash_is_short(salt: Seq<char>, password: Seq<char>)
    requires
        password_hash(salt, password).len() == 64,
    ensures
        encode_utf8(password_hash(salt, password)).len() == 64,
{
    let d = password_digest(
        salt_bytes(salt),
        encode_utf8(password),
        (HASH_ROUNDS - 1) as nat,
    );
    hex_reads_back(d);
    lemma_hex_is_ascii(hex_text(d));
}

impl ClientLogin {
    /// The challenge that is being answered is short enough to be hashed.
    pub open spec fn challenge_fits(self) -> bool {
        fits(self.salt@) && fits(self.nonce@)
    }

    /// A login at its start, once the first frame was sent.
    pub fn start(
        challenges: bool,
        strict: bool,
        may_prompt: bool,
        user: String,
        ip: String,
    ) -> (l: Self)
        ensures
            l@ == (ClientLoginView {
                challenges,
                strict,
                may_prompt,
                user: user@,
                ip: ip@,
                stage: ClientStage::AwaitFrame,
                tried_token: false,
                attempts: 0,
                salt: Seq::empty(),
                nonce: Seq::empty(),
            }),
            l.challenge_fits(),
    {
        let l = ClientLogin {
            challenges,
            strict,
            may_prompt,
            user,
            ip,
            stage: ClientStage::AwaitFrame,
            tried_token: false,
            attempts: 0,
            salt: String::new(),
            nonce: String::new(),
        };
        assert(l@.salt =~= Seq::empty());
        assert(l@.nonce =~= Seq::empty());
        l
    }

    fn fail(&mut self, reason: String) -> (a: ClientAction)
        ensures
            (final(self)@, a@) == failed(old(self)@, reason@),
    {
        self.stage = ClientStage::Ended;
        ClientAction::Fail { reason }
    }

    fn want_password(&mut self) -> (a: ClientAction)
        ensures
            (final(self)@, a@) == ask_password(old(self)@),
    {
        if self.attempts >= MAX_PASSWORD_ANSWERS {
            let reason = if self.challenges {
                String::from_str("too many failed authentication attempts")
            } else {
                String::from_str("too many failed password attempts")
            };
            return self.fail(reason);
        }
        self.stage = ClientStage::NeedPassword;
        self.attempts = self.attempts + 1;
        ClientAction::AskPassword
    }

    fn challenged(&mut self, text: &str) -> (a: ClientAction)
        requires
            fits(text@),
            old(self).challenge_fits(),
        ensures
            (final(self)@, a@) == on_challenge(old(self)@, text@),
            final(self).challenge_fits(),
    {
        proof {
            lemma_encode_cut(text@, '\n');
        }
        match split_once(text, '\n') {
            None => self.fail(String::from_str("malformed challenge from host")),
            Some((salt, nonce)) => {
                proof {
                    lemma_encode_trimmed(nonce@);
                }
                self.salt = salt;
                self.nonce = trim(&nonce);
                if !self.tried_token {
                    self.stage = ClientStage::NeedToken;
                    self.tried_token = true;
                    ClientAction::LoadToken
                } else {
                    self.want_password()
                }
            },
        }
    }

    fn on_frame(&mut self, msg: u8, text: &str) -> (a: ClientAction)
        requires
            fits(text@),
            old(self).challenge_fits(),
        ensures
            (final(self)@, a@) == on_login_frame(old(self)@, msg, text@),
            final(self).challenge_fits(),
    {
        proof {
            lemma_encode_trimmed(text@);
        }
        if self.challenges && msg == CHALLENGE {
            self.challenged(text)
        } else if !self.challenges && msg == PASSWD_REQ {
            if self.tried_token {
                self.want_password()
            } else {
                self.stage = ClientStage::NeedToken;
                ClientAction::LoadToken
            }
        } else if msg == LICENSE_TEXT {
            self.stage = ClientStage::NeedLicense;
            ClientAction::ShowLicense { text: String::from_str(text) }
        } else if msg == TOKEN_ISSUED {
            let token = trim(text);
            self.stage = ClientStage::Storing;
            if self.challenges {
                ClientAction::StoreToken { token: hash_token(&token) }
            } else {
                ClientAction::StoreToken { token }
            }
        } else if msg == AUTH_OK {
            let t = trim(text);
            if self.challenges {
                match split_ticket(&t) {
                    Ok((port, key)) => {
                        self.stage = ClientStage::Ended;
                        ClientAction::Promoted { port, key }
                    },
                    Err(e) => self.fail(e),
                }
            } else {
                self.stage = ClientStage::Ended;
                let key = String::new();
                assert(key@ =~= Seq::empty());
                ClientAction::Promoted { port: t, key }
            }
        } else if msg == AUTH_FAIL {
            let t = trim(text);
            self.fail(cat2("host refused: ", &t))
        } else {
            let h = upper_hex_text(msg);
            self.fail(cat3("unexpected frame 0x", &h, " during handshake"))
        }
    }

    fn on_stored_token(&mut self, token: Option<String>) -> (a: ClientAction)
        requires
            token is Some ==> fits(token->0@),
            old(self).challenge_fits(),
        ensures
            (final(self)@, a@) == on_token(old(self)@, owned_opt(token)),
            final(self).challenge_fits(),
    {
        if let Some(t) = token {
            let good = if self.challenges {
                !self.strict || t.as_str().as_bytes().len() == 64
            } else {
                !t.as_str().is_empty()
            };
            if good {
                self.stage = ClientStage::AwaitFrame;
                self.tried_token = true;
                if self.challenges {
                    let p = compute_proof(&t, &self.nonce);
                    return ClientAction::Send { msg: PROOF, text: cat2("t:", &p) };
                } else {
                    return ClientAction::Send { msg: AUTH_TOKEN, text: t };
                }
            }
        }
        if !self.challenges {
            self.want_password()
        } else if !self.may_prompt {
            let reason = cat5(
                "no stored credential for ",
                &self.user,
                "@",
                &self.ip,
                " - run an interactive session once to store a token",
            );
            self.fail(reason)
        } else {
            self.stage = ClientStage::NeedPassword;
            ClientAction::AskPassword
        }
    }

    /// Takes a frame as it came in. One whose text is too long to be hashed with
    /// others is not taken.
    pub fn step_frame(&mut self, msg: u8, payload: &[u8]) -> (r: Option<ClientAction>)
        requires
            old(self).challenge_fits(),
        ensures
            r is Some == fits(lossy_text(payload@)),
            r matches Some(a) ==> (final(self)@, a@) == client_step(
                old(self)@,
                ClientEventView::Frame { msg, text: lossy_text(payload@) },
            ),
            r is None ==> *final(self) == *old(self),
            final(self).challenge_fits(),
    {
        let text = payload_text(payload);
        let n: usize = text.as_str().as_bytes().len();
        if (n as u64) < TEXT_LIMIT {
            Some(self.step(ClientEvent::Frame { msg, text }))
        } else {
            None
        }
    }

    /// Takes an event.
    pub fn step(&mut self, ev: ClientEvent) -> (a: ClientAction)
        requires
            event_fits(ev@),
            old(self).challenge_fits(),
        ensures
            (final(self)@, a@) == client_step(old(self)@, ev@),
            final(self).challenge_fits(),
    {
        match (self.stage, ev) {
            (ClientStage::AwaitFrame, ClientEvent::Frame { msg, text }) => self.on_frame(
                msg,
                &text,
            ),
            (ClientStage::NeedToken, ClientEvent::Token(token)) => self.on_stored_token(token),
            (ClientStage::NeedPassword, ClientEvent::Password(password)) => {
                self.stage = ClientStage::AwaitFrame;
                if self.challenges {
                    let p = password_proof(&self.salt, &password, &self.nonce);
                    ClientAction::Send { msg: PROOF, text: cat2("p:", &p) }
                } else {
                    ClientAction::Send { msg: PASSWD_AUTH, text: password }
                }
            },
            (ClientStage::NeedLicense, ClientEvent::License(ok)) => if ok {
                self.stage = ClientStage::AwaitFrame;
                ClientAction::Send { msg: LICENSE_ACCEPT, text: String::from_str("y") }
            } else {
                self.stage = ClientStage::Ended;
                ClientAction::SendAndFail {
                    msg: LICENSE_REJECT,
                    text: String::from_str("n"),
                    reason: String::from_str("license rejected — session aborted"),
                }
            },
            (ClientStage::Storing, ClientEvent::Stored(fault)) => match fault {
                None => {
                    self.stage = ClientStage::AwaitFrame;
                    ClientAction::Read
                },
                Some(e) => self.fail(cat2("could not store token: ", &e)),
            },
            _ => self.fail(String::from_str("connection lost")),
        }
    }
}

} // verus!
