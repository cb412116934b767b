//! The host's side of a connection: the login, as steps from what arrives to
//! what is answered.

use crate::accounts::{HostState, StateView, UserRecord, UserView, lookup, with_user};
use crate::creds::{
    has_text, hash_password, new_nonce, password_fits, password_hash, proof_accepted, proof_fits,
    proof_of, salt_bytes, verify_proof,
};
use crate::digest::MESSAGE_LIMIT;
use crate::proto::{
    AUTH_TOKEN, CHALLENGE, HELLO, LICENSE_ACCEPT, LICENSE_TEXT, PASSWD_AUTH, PASSWD_REQ, PROOF,
    payload_text,
};
use crate::text::{
    cat3, cut_first, dec, decimal, lemma_span_is, lossy_text, other_than, same, split_once, trim,
    trimmed,
};
use crate::throttle::{
    Fails, LOCKOUT, MAX_FAILS_PER_IP, PeerIp, Throttle, after_fail, fails_of, locked,
};
use crate::token::{all_hex, from_hex, generate, hash_token, token_digest};
use vstd::prelude::*;
use vstd::string::*;
use vstd::utf8::*;

verus! {

/// The data port that is announced where there is no data layer.
pub const DATA_PORT: &'static str = "4243";

/// How often a client may try to prove who it is.
pub const MAX_AUTH_ATTEMPTS: u32 = 3;

/// How long the host waits for a frame of the login, in nanoseconds: 30
/// seconds.
pub const HANDSHAKE_TIMEOUT: u64 = 30_000_000_000;

/// The agreement that is shown where no license file lies beside the program.
pub const DEFAULT_LICENSE: &'static str = "\
PYIELINK ETHICS & LICENSE AGREEMENT
===================================

pyielink grants remote access to THIS device. By accepting you agree:

 1. You are the owner of this device, or hold explicit written
    authorization from its owner to control it remotely.
 2. You will NOT use pyielink for unauthorized access, surveillance,
    or any action violating applicable law.
 3. The operator of this device may revoke access at any time by
    disabling remote access or removing your account.
 4. Connection tokens identify this client machine; keep them secret.

Type 'y' to accept and receive a connection token, or 'n' to abort.";

/// The agreement that is shown: the text of the license file, if there is one.
pub fn license_text(file: Option<String>) -> (s: String)
    ensures
        s@ == (if file is Some { file->0@ } else { DEFAULT_LICENSE@ }),
{
    match file {
        Some(body) => body,
        None => String::from_str(DEFAULT_LICENSE),
    }
}

// ---------------------------------------------------------------- refusals

/// Why a login is refused.
#[derive(Clone, Copy, Debug, PartialEq, Eq, Structural)]
pub enum Refusal {
    NotAdmitted,
    LockedOut,
    ExpectedHello,
    MalformedHello,
    HostDisabled,
    UnknownUser,
    ExpectedProof,
    MalformedProof,
    UnexpectedMessage,
    AuthFailed,
    HostStateError,
}

impl Refusal {
    /// The reason that is sent to the client.
    pub open spec fn reason(self) -> Seq<char> {
        match self {
            Refusal::NotAdmitted => "address not allowed"@,
            Refusal::LockedOut => "too many failures, try later"@,
            Refusal::ExpectedHello => "expected HELLO"@,
            Refusal::MalformedHello => "malformed HELLO"@,
            Refusal::HostDisabled => "host disabled"@,
            Refusal::UnknownUser => "unknown user"@,
            Refusal::ExpectedProof => "expected PROOF"@,
            Refusal::MalformedProof => "malformed PROOF"@,
            Refusal::UnexpectedMessage => "unexpected message during auth"@,
            Refusal::AuthFailed => "authentication failed"@,
            Refusal::HostStateError => "host state error"@,
        }
    }

    /// The reason that is sent to the client.
    pub fn text(self) -> (s: &'static str)
        ensures
            s@ == self.reason(),
    {
        match self {
            Refusal::NotAdmitted => "address not allowed",
            Refusal::LockedOut => "too many failures, try later",
            Refusal::ExpectedHello => "expected HELLO",
            Refusal::MalformedHello => "malformed HELLO",
            Refusal::HostDisabled => "host disabled",
            Refusal::UnknownUser => "unknown user",
            Refusal::ExpectedProof => "expected PROOF",
            Refusal::MalformedProof => "malformed PROOF",
            Refusal::UnexpectedMessage => "unexpected message during auth",
            Refusal::AuthFailed => "authentication failed",
            Refusal::HostStateError => "host state error",
        }
    }
}

// ---------------------------------------------------------------- model

/// How clients prove who they are, and what they get.
#[derive(Clone, Copy, Debug, PartialEq, Eq, Structural)]
pub enum Scheme {
    /// Tokens and passwords as they are; the ticket is the data port.
    Passwords,
    /// Challenge and response; the ticket is the data port and a session key.
    Challenges,
    /// Challenge and response, with a data layer started for each session.
    DataLayer,
}

/// How far a login has come.
#[derive(Clone, Copy, Debug, PartialEq, Eq, Structural)]
pub enum HostStage {
    AwaitHello,
    AwaitProof,
    AwaitLicense,
    SavingLicense,
    SavingToken,
    SendingToken,
    Promoting,
    Promoted,
    Closed,
}

/// A login.
pub struct LoginView {
    pub scheme: Scheme,
    pub peer: PeerIp,
    pub stage: HostStage,
    pub user: Seq<char>,
    pub record: UserView,
    pub nonce: Seq<char>,
    pub attempt: u32,
    pub via_token: bool,
    pub token: Seq<char>,
}

/// What happens during a login.
pub enum HostEventView {
    /// A frame came in.
    Frame { msg: u8, text: Seq<char> },
    /// The connection is broken.
    Broken,
    /// The state was saved, or not.
    Saved(bool),
    /// The token was sent, or not.
    Sent(bool),
    /// The session is open and its data layer runs.
    Spawned { port: u16, key: Seq<char> },
    /// The session could not be promoted.
    NotSpawned { reason: Seq<char> },
}

/// What the host does next.
pub enum HostActionView {
    /// Read what has come in, send the refusal, wait for the client to see it,
    /// and close.
    DrainAndRefuse(Refusal),
    /// Send the refusal and close.
    Refuse(Refusal),
    /// Send a failure with this reason, forget the session and close.
    RefusePromotion { reason: Seq<char> },
    /// Close.
    Close,
    /// Wait for a frame.
    Read,
    /// Send a frame and wait for one.
    Ask { msg: u8, text: Seq<char> },
    /// Send a request for a password, then the refusal, and close.
    AskAndRefuse(Refusal),
    /// Note in the state that the user has accepted the license, and save it.
    SaveLicensed,
    /// Store the hash of this token in the state, and save it.
    SaveToken { token: Seq<char> },
    /// Send the token.
    SendToken { token: Seq<char> },
    /// Open a session and start what belongs to it.
    Promote { admin: bool },
    /// Send the ticket; the session begins.
    Welcome { ticket: Seq<char> },
}

/// What is sent to challenge a client: the salt of its password and a nonce.
pub open spec fn challenge_of(salt: Seq<char>, nonce: Seq<char>) -> Seq<char> {
    salt + "\n"@ + nonce
}

/// An answer to a challenge is right. `t` answers with the token, `p` with the
/// password. Secrets too long to be hashed answer nothing.
pub open spec fn answer_accepted(
    u: UserView,
    nonce: Seq<char>,
    mode: Seq<char>,
    answer: Seq<char>,
) -> bool {
    if mode == "t"@ {
        proof_fits(u.token_hash, nonce) && proof_accepted(u.token_hash, nonce, answer)
    } else if mode == "p"@ {
        proof_fits(u.pw_hash, nonce) && proof_accepted(u.pw_hash, nonce, answer)
    } else {
        false
    }
}

/// A password is that of the account.
pub open spec fn password_is(u: UserView, password: Seq<char>) -> bool {
    password_fits(u.pw_salt, password) && password_hash(u.pw_salt, password) == u.pw_hash
}

/// A token is that of the account.
pub open spec fn token_is(u: UserView, token: Seq<char>) -> bool {
    u.token_hash.len() > 0 && encode_utf8(token).len() < MESSAGE_LIMIT && token_digest(token)
        == u.token_hash
}

/// The login once the client has proved who it is and accepted the license:
/// a client that came with its password gets a new token first.
pub open spec fn after_license(l: LoginView, token: Seq<char>) -> (LoginView, HostActionView) {
    if l.via_token {
        (
            LoginView { stage: HostStage::Promoting, ..l },
            HostActionView::Promote { admin: l.record.admin() },
        )
    } else {
        (
            LoginView { stage: HostStage::SavingToken, token, ..l },
            HostActionView::SaveToken { token },
        )
    }
}

/// The login once the client has proved who it is: a client that has not
/// accepted the license is asked to.
pub open spec fn after_proof(l: LoginView, license: Seq<char>, token: Seq<char>) -> (
    LoginView,
    HostActionView,
) {
    if !l.record.licensed {
        (
            LoginView { stage: HostStage::AwaitLicense, ..l },
            HostActionView::Ask { msg: LICENSE_TEXT, text: license },
        )
    } else {
        after_license(l, token)
    }
}

/// The login is over.
pub open spec fn closed(l: LoginView) -> LoginView {
    LoginView { stage: HostStage::Closed, ..l }
}

/// What a login does with the first frame.
pub open spec fn hello_step(
    l: LoginView,
    host: StateView,
    msg: u8,
    text: Seq<char>,
    nonce: Seq<char>,
) -> (LoginView, HostActionView) {
    if msg != HELLO {
        (closed(l), HostActionView::Refuse(Refusal::ExpectedHello))
    } else {
        match cut_first(text, '\n') {
            None => (closed(l), HostActionView::Refuse(Refusal::MalformedHello)),
            Some((user, _)) => if !host.enabled {
                (closed(l), HostActionView::Refuse(Refusal::HostDisabled))
            } else {
                match lookup(host.users, user) {
                    None => (closed(l), HostActionView::Refuse(Refusal::UnknownUser)),
                    Some(record) => {
                        let next = LoginView {
                            stage: HostStage::AwaitProof,
                            user,
                            record,
                            nonce,
                            attempt: 1,
                            ..l
                        };
                        if l.scheme == Scheme::Passwords {
                            (next, HostActionView::Ask { msg: PASSWD_REQ, text: Seq::empty() })
                        } else {
                            (
                                next,
                                HostActionView::Ask {
                                    msg: CHALLENGE,
                                    text: challenge_of(record.pw_salt, nonce),
                                },
                            )
                        }
                    },
                }
            },
        }
    }
}

/// What a frame proves: that the client is the user, with its token or with
/// its password; nothing; or it is no proof at all.
pub enum Proved {
    ByToken,
    ByPassword,
    Nothing,
    Refused(Refusal),
}

/// What a frame proves.
pub open spec fn proved(l: LoginView, msg: u8, text: Seq<char>) -> Proved {
    if l.scheme == Scheme::Passwords {
        if msg == AUTH_TOKEN {
            if token_is(l.record, trimmed(text)) { Proved::ByToken } else { Proved::Nothing }
        } else if msg == PASSWD_AUTH {
            if password_is(l.record, text) { Proved::ByPassword } else { Proved::Nothing }
        } else {
            Proved::Refused(Refusal::UnexpectedMessage)
        }
    } else if msg != PROOF {
        Proved::Refused(Refusal::ExpectedProof)
    } else {
        match cut_first(text, ':') {
            None => Proved::Refused(Refusal::MalformedProof),
            Some((mode, answer)) => if answer_accepted(l.record, l.nonce, mode, answer) {
                if mode == "t"@ { Proved::ByToken } else { Proved::ByPassword }
            } else {
                Proved::Nothing
            },
        }
    }
}

/// The failures after a frame that proves nothing. Without challenges they are
/// not counted.
pub open spec fn counted(l: LoginView, fails: Fails, now: u64) -> Fails {
    if l.scheme == Scheme::Passwords { fails } else { after_fail(fails, l.peer, now) }
}

/// What a login does with a frame that should prove who the client is.
pub open spec fn proof_step(
    l: LoginView,
    fails: Fails,
    now: u64,
    msg: u8,
    text: Seq<char>,
    nonce: Seq<char>,
    license: Seq<char>,
    token: Seq<char>,
) -> (LoginView, Fails, HostActionView) {
    match proved(l, msg, text) {
        Proved::Refused(r) => (closed(l), fails, HostActionView::Refuse(r)),
        Proved::ByToken => {
            let (next, action) = after_proof(LoginView { via_token: true, ..l }, license, token);
            (next, if l.scheme == Scheme::Passwords { fails } else { fails.remove(l.peer) }, action)
        },
        Proved::ByPassword => {
            let (next, action) = after_proof(LoginView { via_token: false, ..l }, license, token);
            (next, if l.scheme == Scheme::Passwords { fails } else { fails.remove(l.peer) }, action)
        },
        Proved::Nothing => {
            let more = counted(l, fails, now);
            if l.scheme != Scheme::Passwords && locked(more, l.peer, now) {
                (closed(l), more, HostActionView::Refuse(Refusal::LockedOut))
            } else if l.attempt >= MAX_AUTH_ATTEMPTS {
                (
                    closed(l),
                    more,
                    if l.scheme == Scheme::Passwords {
                        HostActionView::AskAndRefuse(Refusal::AuthFailed)
                    } else {
                        HostActionView::Refuse(Refusal::AuthFailed)
                    },
                )
            } else {
                (
                    LoginView { attempt: (l.attempt + 1) as u32, nonce, ..l },
                    more,
                    if l.scheme == Scheme::Passwords {
                        HostActionView::Ask { msg: PASSWD_REQ, text: Seq::empty() }
                    } else {
                        HostActionView::Ask {
                            msg: CHALLENGE,
                            text: challenge_of(l.record.pw_salt, nonce),
                        }
                    },
                )
            }
        },
    }
}

/// The ticket that a promoted client gets.
pub open spec fn ticket_of(scheme: Scheme, port: u16, key: Seq<char>) -> Seq<char> {
    match scheme {
        Scheme::Passwords => DATA_PORT@,
        Scheme::Challenges => DATA_PORT@ + "\n"@ + key,
        Scheme::DataLayer => decimal(port as nat) + "\n"@ + key,
    }
}

/// The step of a login on an event: the login and the counted failures after
/// it, and what the host does. `nonce` and `token` are fresh; they are used
/// where a challenge is sent or a token issued.
pub open spec fn host_step(
    l: LoginView,
    fails: Fails,
    host: StateView,
    now: u64,
    ev: HostEventView,
    nonce: Seq<char>,
    token: Seq<char>,
    license: Seq<char>,
) -> (LoginView, Fails, HostActionView) {
    match (l.stage, ev) {
        (HostStage::AwaitHello, HostEventView::Frame { msg, text }) => {
            let (next, action) = hello_step(l, host, msg, text, nonce);
            (next, fails, action)
        },
        (HostStage::AwaitProof, HostEventView::Frame { msg, text }) => proof_step(
            l,
            fails,
            now,
            msg,
            text,
            nonce,
            license,
            token,
        ),
        (HostStage::AwaitLicense, HostEventView::Frame { msg, text }) => if msg == LICENSE_ACCEPT {
            (
                LoginView { stage: HostStage::SavingLicense, ..l },
                fails,
                HostActionView::SaveLicensed,
            )
        } else {
            (closed(l), fails, HostActionView::Close)
        },
        (HostStage::SavingLicense, HostEventView::Saved(ok)) => if ok {
            let (next, action) = after_license(l, token);
            (next, fails, action)
        } else {
            (closed(l), fails, HostActionView::Refuse(Refusal::HostStateError))
        },
        (HostStage::SavingToken, HostEventView::Saved(ok)) => if ok {
            (
                LoginView { stage: HostStage::SendingToken, ..l },
                fails,
                HostActionView::SendToken { token: l.token },
            )
        } else {
            (closed(l), fails, HostActionView::Close)
        },
        (HostStage::SendingToken, HostEventView::Sent(ok)) => if ok {
            (
                LoginView { stage: HostStage::Promoting, ..l },
                fails,
                HostActionView::Promote { admin: l.record.admin() },
            )
        } else {
            (closed(l), fails, HostActionView::Close)
        },
        (HostStage::Promoting, HostEventView::Spawned { port, key }) => (
            LoginView { stage: HostStage::Promoted, ..l },
            fails,
            HostActionView::Welcome { ticket: ticket_of(l.scheme, port, key) },
        ),
        (HostStage::Promoting, HostEventView::NotSpawned { reason }) => (
            closed(l),
            fails,
            HostActionView::RefusePromotion { reason },
        ),
        _ => (closed(l), fails, HostActionView::Close),
    }
}

// ---------------------------------------------------------------- execution

/// A login.
pub struct Login {
    pub scheme: Scheme,
    pub peer: PeerIp,
    pub stage: HostStage,
    pub user: String,
    pub record: UserRecord,
    pub nonce: String,
    pub attempt: u32,
    pub via_token: bool,
    pub token: String,
}

impl View for Login {
    type V = LoginView;

    open spec fn view(&self) -> LoginView {
        LoginView {
            scheme: self.scheme,
            peer: self.peer,
            stage: self.stage,
            user: self.user@,
            record: self.record@,
            nonce: self.nonce@,
            attempt: self.attempt,
            via_token: self.via_token,
            token: self.token@,
        }
    }
}

/// What happens during a login.
pub enum HostEvent<'a> {
    Frame { msg: u8, text: &'a str },
    Broken,
    Saved(bool),
    Sent(bool),
    Spawned { port: u16, key: &'a str },
    NotSpawned { reason: &'a str },
}

impl<'a> View for HostEvent<'a> {
    type V = HostEventView;

    open spec fn view(&self) -> HostEventView {
        match self {
            HostEvent::Frame { msg, text } => HostEventView::Frame { msg: *msg, text: text@ },
            HostEvent::Broken => HostEventView::Broken,
            HostEvent::Saved(ok) => HostEventView::Saved(*ok),
            HostEvent::Sent(ok) => HostEventView::Sent(*ok),
            HostEvent::Spawned { port, key } => HostEventView::Spawned { port: *port, key: key@ },
            HostEvent::NotSpawned { reason } => HostEventView::NotSpawned { reason: reason@ },
        }
    }
}

/// What the host does next.
pub enum HostAction {
    DrainAndRefuse(Refusal),
    Refuse(Refusal),
    RefusePromotion { reason: String },
    Close,
    Read,
    Ask { msg: u8, text: String },
    AskAndRefuse(Refusal),
    SaveLicensed,
    SaveToken { token: String },
    SendToken { token: String },
    Promote { admin: bool },
    Welcome { ticket: String },
}

impl View for HostAction {
    type V = HostActionView;

    open spec fn view(&self) -> HostActionView {
        match self {
            HostAction::DrainAndRefuse(r) => HostActionView::DrainAndRefuse(*r),
            HostAction::Refuse(r) => HostActionView::Refuse(*r),
            HostAction::RefusePromotion { reason } => HostActionView::RefusePromotion {
                reason: reason@,
            },
            HostAction::Close => HostActionView::Close,
            HostAction::Read => HostActionView::Read,
            HostAction::Ask { msg, text } => HostActionView::Ask { msg: *msg, text: text@ },
            HostAction::AskAndRefuse(r) => HostActionView::AskAndRefuse(*r),
            HostAction::SaveLicensed => HostActionView::SaveLicensed,
            HostAction::SaveToken { token } => HostActionView::SaveToken { token: token@ },
            HostAction::SendToken { token } => HostActionView::SendToken { token: token@ },
            HostAction::Promote { admin } => HostActionView::Promote { admin: *admin },
            HostAction::Welcome { ticket } => HostActionView::Welcome { ticket: ticket@ },
        }
    }
}

/// Whether an answer to a challenge is right.
pub fn check_answer(u: &UserRecord, nonce: &str, mode: &str, answer: &str) -> (r: bool)
    ensures
        r == answer_accepted(u@, nonce@, mode@, answer@),
{
    let secret = if same(mode, "t") {
        &u.token_hash
    } else if same(mode, "p") {
        &u.pw_hash
    } else {
        return false;
    };
    let a: usize = secret.as_str().as_bytes().len();
    let b: usize = nonce.as_bytes().len();
    proof {
        reveal_strlit("t");
        reveal_strlit("p");
        assert("t"@[0] != "p"@[0]);
    }
    if a as u64 >= MESSAGE_LIMIT || b as u64 >= MESSAGE_LIMIT - a as u64 {
        return false;
    }
    verify_proof(secret, nonce, answer)
}

/// Whether a password is that of the account.
pub fn verify_password(u: &UserRecord, password: &str) -> (r: bool)
    ensures
        r == password_is(u@, password@),
{
    let salt: usize = match from_hex(&u.pw_salt) {
        Some(b) => b.len(),
        None => 0,
    };
    assert(salt == salt_bytes(u.pw_salt@).len());
    let n: usize = password.as_bytes().len();
    if salt as u64 >= MESSAGE_LIMIT - 32 || n as u64 >= MESSAGE_LIMIT - salt as u64 {
        return false;
    }
    let h = hash_password(&u.pw_salt, password);
    same(&h, &u.pw_hash)
}

/// Whether a token is that of the account.
pub fn check_token(u: &UserRecord, token: &str) -> (r: bool)
    ensures
        r == token_is(u@, token@),
{
    if u.token_hash.as_str().is_empty() || token.as_bytes().len() as u64 >= MESSAGE_LIMIT {
        return false;
    }
    let h = hash_token(token);
    same(&h, &u.token_hash)
}

/// The first step of a connection: an address that is locked out is refused
/// before anything is read.
pub open spec fn opened(scheme: Scheme, peer: PeerIp, fails: Fails, now: u64) -> (
    LoginView,
    HostActionView,
) {
    let l = LoginView {
        scheme,
        peer,
        stage: HostStage::AwaitHello,
        user: Seq::empty(),
        record: UserView::blank(),
        nonce: Seq::empty(),
        attempt: 0,
        via_token: false,
        token: Seq::empty(),
    };
    if scheme != Scheme::Passwords && locked(fails, peer, now) {
        (closed(l), HostActionView::DrainAndRefuse(Refusal::LockedOut))
    } else {
        (l, HostActionView::Read)
    }
}

/// A host takes connections from an address: where addresses are listed and not
/// all are allowed, from those that are listed.
pub open spec fn admitted(host: StateView, address: Seq<char>) -> bool {
    host.allow_all_ips || host.ip_whitelist.len() == 0 || host.ip_whitelist.contains(address)
}

/// Whether a host takes connections from an address.
pub fn admits(host: &HostState, address: &str) -> (r: bool)
    ensures
        r == admitted(host@, address@),
{
    host.allow_all_ips || host.ip_whitelist.len() == 0 || has_text(&host.ip_whitelist, address)
}

/// The first step of a connection from an address, which is written out as
/// `address`: one from which the host takes none is refused before anything is
/// read.
pub open spec fn accepted(
    scheme: Scheme,
    peer: PeerIp,
    address: Seq<char>,
    host: StateView,
    fails: Fails,
    now: u64,
) -> (LoginView, HostActionView) {
    let (l, a) = opened(scheme, peer, fails, now);
    if admitted(host, address) {
        (l, a)
    } else {
        (closed(l), HostActionView::DrainAndRefuse(Refusal::NotAdmitted))
    }
}

/// A nonce and a token as the host makes them: hexadecimal, of 16 and of 32
/// random bytes.
pub open spec fn fresh_texts(nonce: Seq<char>, token: Seq<char>) -> bool {
    nonce.len() == 32 && all_hex(nonce) && token.len() == 64 && all_hex(token)
}

impl Login {
    /// A login at its start, refused where the host takes no connections from
    /// the address.
    pub fn accept(
        scheme: Scheme,
        peer: PeerIp,
        address: &str,
        host: &HostState,
        throttle: &Throttle,
        now: u64,
    ) -> (r: (Self, HostAction))
        ensures
            (r.0@, r.1@) == accepted(scheme, peer, address@, host@, throttle@, now),
    {
        let (l, a) = Login::open(scheme, peer, throttle, now);
        if admits(host, address) {
            (l, a)
        } else {
            let mut l = l;
            l.stage = HostStage::Closed;
            (l, HostAction::DrainAndRefuse(Refusal::NotAdmitted))
        }
    }

    /// A login at its start.
    pub fn open(scheme: Scheme, peer: PeerIp, throttle: &Throttle, now: u64) -> (r: (
        Self,
        HostAction,
    ))
        ensures
            (r.0@, r.1@) == opened(scheme, peer, throttle@, now),
    {
        let refused = match scheme {
            Scheme::Passwords => false,
            _ => throttle.is_locked(peer, now),
        };
        let l = Login {
            scheme,
            peer,
            stage: if refused { HostStage::Closed } else { HostStage::AwaitHello },
            user: String::new(),
            record: UserRecord::default(),
            nonce: String::new(),
            attempt: 0,
            via_token: false,
            token: String::new(),
        };
        proof {
            assert(l@.user =~= Seq::empty());
            assert(l@.nonce =~= Seq::empty());
            assert(l@.token =~= Seq::empty());
        }
        if refused {
            (l, HostAction::DrainAndRefuse(Refusal::LockedOut))
        } else {
            (l, HostAction::Read)
        }
    }

    fn refuse(&mut self, r: Refusal) -> (a: HostAction)
        ensures
            final(self)@ == closed(old(self)@),
            a@ == HostActionView::Refuse(r),
    {
        self.stage = HostStage::Closed;
        HostAction::Refuse(r)
    }

    fn close(&mut self) -> (a: HostAction)
        ensures
            final(self)@ == closed(old(self)@),
            a@ == HostActionView::Close,
    {
        self.stage = HostStage::Closed;
        HostAction::Close
    }

    fn ask_for_proof(&mut self) -> (a: HostAction)
        ensures
            *final(self) == *old(self),
            a@ == (if old(self).scheme == Scheme::Passwords {
                HostActionView::Ask { msg: PASSWD_REQ, text: Seq::empty() }
            } else {
                HostActionView::Ask {
                    msg: CHALLENGE,
                    text: challenge_of(old(self).record.pw_salt@, old(self).nonce@),
                }
            }),
    {
        match self.scheme {
            Scheme::Passwords => {
                let text = String::new();
                assert(text@ =~= Seq::empty());
                HostAction::Ask { msg: PASSWD_REQ, text }
            },
            _ => HostAction::Ask {
                msg: CHALLENGE,
                text: cat3(&self.record.pw_salt, "\n", &self.nonce),
            },
        }
    }

    fn go_on(&mut self, token: &str) -> (a: HostAction)
        ensures
            (final(self)@, a@) == after_license(old(self)@, token@),
    {
        if self.via_token {
            self.stage = HostStage::Promoting;
            HostAction::Promote { admin: self.record.is_admin() }
        } else {
            self.stage = HostStage::SavingToken;
            self.token = String::from_str(token);
            HostAction::SaveToken { token: String::from_str(token) }
        }
    }

    fn on_hello(&mut self, host: &HostState, msg: u8, text: &str, nonce: &str) -> (a: HostAction)
        ensures
            (final(self)@, a@) == hello_step(old(self)@, host@, msg, text@, nonce@),
    {
        if msg != HELLO {
            return self.refuse(Refusal::ExpectedHello);
        }
        let user = match split_once(text, '\n') {
            None => {
                return self.refuse(Refusal::MalformedHello);
            },
            Some((user, _)) => user,
        };
        if !host.enabled {
            return self.refuse(Refusal::HostDisabled);
        }
        match host.users.get(&user) {
            None => self.refuse(Refusal::UnknownUser),
            Some(record) => {
                self.stage = HostStage::AwaitProof;
                self.user = user;
                self.record = record.clone();
                self.nonce = String::from_str(nonce);
                self.attempt = 1;
                self.ask_for_proof()
            },
        }
    }

    fn what_is_proved(&self, msg: u8, text: &str) -> (r: Proved)
        ensures
            r == proved(self@, msg, text@),
    {
        match self.scheme {
            Scheme::Passwords => if msg == AUTH_TOKEN {
                let token = trim(text);
                if check_token(&self.record, &token) {
                    Proved::ByToken
                } else {
                    Proved::Nothing
                }
            } else if msg == PASSWD_AUTH {
                if verify_password(&self.record, text) {
                    Proved::ByPassword
                } else {
                    Proved::Nothing
                }
            } else {
                Proved::Refused(Refusal::UnexpectedMessage)
            },
            _ => if msg != PROOF {
                Proved::Refused(Refusal::ExpectedProof)
            } else {
                match split_once(text, ':') {
                    None => Proved::Refused(Refusal::MalformedProof),
                    Some((mode, answer)) => if check_answer(
                        &self.record,
                        &self.nonce,
                        &mode,
                        &answer,
                    ) {
                        if same(&mode, "t") {
                            Proved::ByToken
                        } else {
                            Proved::ByPassword
                        }
                    } else {
                        Proved::Nothing
                    },
                }
            },
        }
    }

    fn on_proof(
        &mut self,
        throttle: &mut Throttle,
        now: u64,
        msg: u8,
        text: &str,
        nonce: &str,
        license: &str,
        token: &str,
    ) -> (a: HostAction)
        requires
            now <= u64::MAX - LOCKOUT,
        ensures
            (final(self)@, final(throttle)@, a@) == proof_step(
                old(self)@,
                old(throttle)@,
                now,
                msg,
                text@,
                nonce@,
                license@,
                token@,
            ),
    {
        let counts = match self.scheme {
            Scheme::Passwords => false,
            _ => true,
        };
        let by_token = match self.what_is_proved(msg, text) {
            Proved::Refused(r) => {
                return self.refuse(r);
            },
            Proved::ByToken => true,
            Proved::ByPassword => false,
            Proved::Nothing => {
                if counts {
                    throttle.record_fail(self.peer, now);
                    if throttle.is_locked(self.peer, now) {
                        return self.refuse(Refusal::LockedOut);
                    }
                }
                if self.attempt >= MAX_AUTH_ATTEMPTS {
                    self.stage = HostStage::Closed;
                    if counts {
                        return HostAction::Refuse(Refusal::AuthFailed);
                    } else {
                        return HostAction::AskAndRefuse(Refusal::AuthFailed);
                    }
                }
                self.attempt = self.attempt + 1;
                self.nonce = String::from_str(nonce);
                return self.ask_for_proof();
            },
        };
        if counts {
            throttle.record_success(self.peer);
        }
        self.via_token = by_token;
        if !self.record.licensed {
            self.stage = HostStage::AwaitLicense;
            HostAction::Ask { msg: LICENSE_TEXT, text: String::from_str(license) }
        } else {
            self.go_on(token)
        }
    }

    /// Takes an event. `nonce` and `token` are fresh random texts.
    pub fn step(
        &mut self,
        throttle: &mut Throttle,
        host: &HostState,
        now: u64,
        ev: HostEvent,
        nonce: &str,
        token: &str,
        license: &str,
    ) -> (a: HostAction)
        requires
            now <= u64::MAX - LOCKOUT,
        ensures
            (final(self)@, final(throttle)@, a@) == host_step(
                old(self)@,
                old(throttle)@,
                host@,
                now,
                ev@,
                nonce@,
                token@,
                license@,
            ),
    {
        match (self.stage, ev) {
            (HostStage::AwaitHello, HostEvent::Frame { msg, text }) => self.on_hello(
                host,
                msg,
                text,
                nonce,
            ),
            (HostStage::AwaitProof, HostEvent::Frame { msg, text }) => self.on_proof(
                throttle,
                now,
                msg,
                text,
                nonce,
                license,
                token,
            ),
            (HostStage::AwaitLicense, HostEvent::Frame { msg, text: _ }) => if msg
                == LICENSE_ACCEPT {
                self.stage = HostStage::SavingLicense;
                HostAction::SaveLicensed
            } else {
                self.close()
            },
            (HostStage::SavingLicense, HostEvent::Saved(ok)) => if ok {
                self.go_on(token)
            } else {
                self.refuse(Refusal::HostStateError)
            },
            (HostStage::SavingToken, HostEvent::Saved(ok)) => if ok {
                self.stage = HostStage::SendingToken;
                HostAction::SendToken { token: self.token.clone() }
            } else {
                self.close()
            },
            (HostStage::SendingToken, HostEvent::Sent(ok)) => if ok {
                self.stage = HostStage::Promoting;
                HostAction::Promote { admin: self.record.is_admin() }
            } else {
                self.close()
            },
            (HostStage::Promoting, HostEvent::Spawned { port, key }) => {
                self.stage = HostStage::Promoted;
                let ticket = match self.scheme {
                    Scheme::Passwords => String::from_str(DATA_PORT),
                    Scheme::Challenges => cat3(DATA_PORT, "\n", key),
                    Scheme::DataLayer => {
                        let p = dec(port as u128);
                        cat3(&p, "\n", key)
                    },
                };
                HostAction::Welcome { ticket }
            },
            (HostStage::Promoting, HostEvent::NotSpawned { reason }) => {
                self.stage = HostStage::Closed;
                HostAction::RefusePromotion { reason: String::from_str(reason) }
            },
            _ => self.close(),
        }
    }

    /// Takes an event, with fresh random texts for the nonce and the token.
    pub fn handle(
        &mut self,
        throttle: &mut Throttle,
        host: &HostState,
        now: u64,
        ev: HostEvent,
        license: &str,
    ) -> (a: HostAction)
        requires
            now <= u64::MAX - LOCKOUT,
        ensures
            exists|nonce: Seq<char>, token: Seq<char>|
                fresh_texts(nonce, token) && (final(self)@, final(throttle)@, a@)
                    == #[trigger] host_step(
                    old(self)@,
                    old(throttle)@,
                    host@,
                    now,
                    ev@,
                    nonce,
                    token,
                    license@,
                ),
    {
        let nonce = new_nonce();
        let token = generate();
        self.step(throttle, host, now, ev, &nonce, &token, license)
    }

    /// Takes a frame as it came in, with fresh random texts for the nonce and
    /// the token.
    pub fn handle_frame(
        &mut self,
        throttle: &mut Throttle,
        host: &HostState,
        now: u64,
        msg: u8,
        payload: &[u8],
        license: &str,
    ) -> (a: HostAction)
        requires
            now <= u64::MAX - LOCKOUT,
        ensures
            exists|nonce: Seq<char>, token: Seq<char>|
                fresh_texts(nonce, token) && (final(self)@, final(throttle)@, a@)
                    == #[trigger] host_step(
                    old(self)@,
                    old(throttle)@,
                    host@,
                    now,
                    HostEventView::Frame { msg, text: lossy_text(payload@) },
                    nonce,
                    token,
                    license@,
                ),
    {
        let text = payload_text(payload);
        self.handle(throttle, host, now, HostEvent::Frame { msg, text: &text }, license)
    }
}

/// Notes that the user has accepted the license.
pub fn mark_licensed(state: &mut HostState, user: &str)
    ensures
        final(state)@ == (match lookup(old(state)@.users, user@) {
            Some(u) => StateView {
                users: with_user(old(state)@.users, user@, UserView { licensed: true, ..u }),
                ..old(state)@
            },
            None => old(state)@,
        }),
{
    let found = match state.users.get(user) {
        Some(u) => Some(u.clone()),
        None => None,
    };
    if let Some(mut u) = found {
        u.licensed = true;
        state.users.insert(String::from_str(user), u);
    }
}

/// Stores the hash of a newly issued token.
pub fn store_token(state: &mut HostState, user: &str, token: &str)
    requires
        token.spec_bytes().len() < MESSAGE_LIMIT,
    ensures
        final(state)@ == (match lookup(old(state)@.users, user@) {
            Some(u) => StateView {
                users: with_user(
                    old(state)@.users,
                    user@,
                    UserView { token_hash: token_digest(token@), ..u },
                ),
                ..old(state)@
            },
            None => old(state)@,
        }),
{
    let found = match state.users.get(user) {
        Some(u) => Some(u.clone()),
        None => None,
    };
    if let Some(mut u) = found {
        u.token_hash = hash_token(token);
        state.users.insert(String::from_str(user), u);
    }
}

// ---------------------------------------------------------------- laws

/// What a step of a login takes in.
pub struct HostInput {
    pub host: StateView,
    pub now: u64,
    pub ev: HostEventView,
    pub nonce: Seq<char>,
    pub token: Seq<char>,
    pub license: Seq<char>,
}

/// One step on an input.
pub open spec fn host_step_on(l: LoginView, fails: Fails, i: HostInput) -> (
    LoginView,
    Fails,
    HostActionView,
) {
    host_step(l, fails, i.host, i.now, i.ev, i.nonce, i.token, i.license)
}

/// A login after a number of steps.
pub open spec fn login_after(l: LoginView, fails: Fails, inputs: Seq<HostInput>) -> (
    LoginView,
    Fails,
)
    decreases inputs.len(),
{
    if inputs.len() == 0 {
        (l, fails)
    } else {
        let (m, f) = login_after(l, fails, inputs.drop_last());
        let (n, g, _) = host_step_on(m, f, inputs.last());
        (n, g)
    }
}

/// The login as it was before step `i`.
pub open spec fn login_before(l: LoginView, fails: Fails, inputs: Seq<HostInput>, i: int) -> LoginView {
    login_after(l, fails, inputs.take(i)).0
}

/// In step `i` the client proved who it is.
pub open spec fn proves_at(l: LoginView, fails: Fails, inputs: Seq<HostInput>, i: int) -> bool {
    let m = login_before(l, fails, inputs, i);
    &&& 0 <= i < inputs.len()
    &&& m.stage == HostStage::AwaitProof
    &&& inputs[i].ev matches HostEventView::Frame { msg, text } && (proved(m, msg, text) is ByToken
        || proved(m, msg, text) is ByPassword)
}

/// In step `i` the client accepted the license.
pub open spec fn accepts_at(l: LoginView, fails: Fails, inputs: Seq<HostInput>, i: int) -> bool {
    let m = login_before(l, fails, inputs, i);
    &&& 0 <= i < inputs.len()
    &&& m.stage == HostStage::AwaitLicense
    &&& inputs[i].ev matches HostEventView::Frame { msg, text } && msg == LICENSE_ACCEPT
}

/// The stages that a client reaches only with a proof.
pub open spec fn is_proved_stage(s: HostStage) -> bool {
    s != HostStage::AwaitHello && s != HostStage::AwaitProof && s != HostStage::Closed
}

/// The stages that a client reaches only with an accepted license.
pub open spec fn is_licensed_stage(s: HostStage) -> bool {
    is_proved_stage(s) && s != HostStage::AwaitLicense && s != HostStage::SavingLicense
}

proof fn lemma_prefix(l: LoginView, fails: Fails, inputs: Seq<HostInput>, i: int)
    requires
        0 <= i < inputs.len(),
    ensures
        login_before(l, fails, inputs.drop_last(), i) == login_before(l, fails, inputs, i) || i
            == inputs.len() - 1,
        i < inputs.len() - 1 ==> inputs.drop_last()[i] == inputs[i],
{
    if i < inputs.len() - 1 {
        assert(inputs.drop_last().take(i) =~= inputs.take(i));
    }
}

/// Whatever arrives, no client gets past the proof without one: a login that
/// is beyond it has, in some step, received an accepted proof for the very
/// account that it is a login to.
pub proof fn no_login_without_proof(
    scheme: Scheme,
    peer: PeerIp,
    fails: Fails,
    now: u64,
    inputs: Seq<HostInput>,
)
    ensures
        ({
            let l = opened(scheme, peer, fails, now).0;
            let end = login_after(l, fails, inputs).0;
            is_proved_stage(end.stage) ==> exists|i: int| #[trigger]
                proves_at(l, fails, inputs, i) && login_before(l, fails, inputs, i).user == end.user
                    && login_before(l, fails, inputs, i).record == end.record
        }),
    decreases inputs.len(),
{
    let l = opened(scheme, peer, fails, now).0;
    let end = login_after(l, fails, inputs).0;
    if inputs.len() > 0 && is_proved_stage(end.stage) {
        let before = inputs.drop_last();
        let n = inputs.len() - 1;
        let (m, f) = login_after(l, fails, before);
        assert(before =~= inputs.take(n));
        no_login_without_proof(scheme, peer, fails, now, before);
        if is_proved_stage(m.stage) {
            let i = choose|i: int| #[trigger]
                proves_at(l, fails, before, i) && login_before(l, fails, before, i).user == m.user
                    && login_before(l, fails, before, i).record == m.record;
            lemma_prefix(l, fails, inputs, i);
            assert(proves_at(l, fails, inputs, i));
        } else {
            assert(proves_at(l, fails, inputs, n));
        }
    }
}

/// No client is promoted, or given a token, before the license is accepted: at
/// this login, or at an earlier one as its account notes.
pub proof fn no_login_without_license(
    scheme: Scheme,
    peer: PeerIp,
    fails: Fails,
    now: u64,
    inputs: Seq<HostInput>,
)
    ensures
        ({
            let l = opened(scheme, peer, fails, now).0;
            let end = login_after(l, fails, inputs).0;
            is_licensed_stage(end.stage) && !end.record.licensed ==> exists|i: int| #[trigger]
                accepts_at(l, fails, inputs, i)
        }),
        ({
            let l = opened(scheme, peer, fails, now).0;
            let end = login_after(l, fails, inputs).0;
            end.stage == HostStage::SavingLicense ==> exists|i: int| #[trigger]
                accepts_at(l, fails, inputs, i)
        }),
    decreases inputs.len(),
{
    let l = opened(scheme, peer, fails, now).0;
    let end = login_after(l, fails, inputs).0;
    if inputs.len() > 0 {
        let before = inputs.drop_last();
        let n = inputs.len() - 1;
        let (m, f) = login_after(l, fails, before);
        assert(before =~= inputs.take(n));
        no_login_without_license(scheme, peer, fails, now, before);
        if (is_licensed_stage(end.stage) && !end.record.licensed) || end.stage
            == HostStage::SavingLicense {
            if (is_licensed_stage(m.stage) && !m.record.licensed) || m.stage
                == HostStage::SavingLicense {
                let i = choose|i: int| #[trigger] accepts_at(l, fails, before, i);
                lemma_prefix(l, fails, inputs, i);
                assert(accepts_at(l, fails, inputs, i));
            } else {
                assert(accepts_at(l, fails, inputs, n));
            }
        }
    }
}

/// A client that came with its token keeps it: the host issues a token only to
/// a client that came with its password, and to each of those, before it is
/// promoted.
pub proof fn tokens_rotate_with_passwords(l: LoginView, fails: Fails, i: HostInput)
    ensures
        ({
            let (next, _, action) = host_step_on(l, fails, i);
            &&& action is SaveToken ==> !next.via_token && next.stage == HostStage::SavingToken
            &&& action is SendToken ==> l.stage == HostStage::SavingToken && i.ev
                == HostEventView::Saved(true)
            &&& action is Promote && !next.via_token ==> l.stage == HostStage::SendingToken && i.ev
                == HostEventView::Sent(true)
            &&& next.stage != HostStage::AwaitProof && l.stage != HostStage::AwaitProof
                ==> next.via_token == l.via_token
        }),
{
}

/// A client has at most three tries: while it is asked for a proof it is on its
/// first, second or third, and the third failure ends the login.
pub proof fn attempts_are_bounded(
    scheme: Scheme,
    peer: PeerIp,
    fails: Fails,
    now: u64,
    inputs: Seq<HostInput>,
)
    ensures
        ({
            let l = opened(scheme, peer, fails, now).0;
            let end = login_after(l, fails, inputs).0;
            end.stage == HostStage::AwaitProof ==> 1 <= end.attempt <= MAX_AUTH_ATTEMPTS
        }),
    decreases inputs.len(),
{
    if inputs.len() > 0 {
        attempts_are_bounded(scheme, peer, fails, now, inputs.drop_last());
    }
}

/// A third frame that proves nothing ends the login.
pub proof fn third_failure_ends(l: LoginView, fails: Fails, i: HostInput)
    requires
        l.stage == HostStage::AwaitProof,
        l.attempt == MAX_AUTH_ATTEMPTS,
        i.ev matches HostEventView::Frame { msg, text } && proved(l, msg, text) is Nothing,
    ensures
        host_step_on(l, fails, i).0.stage == HostStage::Closed,
{
}

/// The fifth frame in a row from an address that proves nothing locks it out:
/// the login ends, and for a minute every connection from the address is
/// refused before anything is read from it.
pub proof fn fifth_bad_proof_locks_out(l: LoginView, fails: Fails, i: HostInput, later: u64)
    requires
        l.stage == HostStage::AwaitProof,
        l.scheme != Scheme::Passwords,
        i.ev matches HostEventView::Frame { msg, text } && proved(l, msg, text) is Nothing,
        fails_of(fails, l.peer).count + 1 == MAX_FAILS_PER_IP,
        i.now <= u64::MAX - LOCKOUT,
        later < i.now + LOCKOUT,
    ensures
        ({
            let (next, after, action) = host_step_on(l, fails, i);
            &&& action == HostActionView::Refuse(Refusal::LockedOut)
            &&& next.stage == HostStage::Closed
            &&& opened(l.scheme, l.peer, after, later).1 == HostActionView::DrainAndRefuse(
                Refusal::LockedOut,
            )
        }),
{
}

/// A host that is not enabled lets nobody in, and challenges nobody.
pub proof fn disabled_host_refuses(
    scheme: Scheme,
    peer: PeerIp,
    fails: Fails,
    now: u64,
    i: HostInput,
)
    requires
        !i.host.enabled,
    ensures
        ({
            let l = opened(scheme, peer, fails, now).0;
            host_step_on(l, fails, i).0.stage == HostStage::Closed
        }),
{
}

/// Where some addresses are listed and not all are allowed, a connection from
/// any other is refused before anything is read from it, and nothing that
/// happens afterwards opens it again.
pub proof fn others_are_refused(
    scheme: Scheme,
    peer: PeerIp,
    address: Seq<char>,
    fails: Fails,
    now: u64,
    i: HostInput,
)
    requires
        !i.host.allow_all_ips,
        i.host.ip_whitelist.len() > 0,
        !i.host.ip_whitelist.contains(address),
    ensures
        ({
            let (l, a) = accepted(scheme, peer, address, i.host, fails, now);
            &&& a == HostActionView::DrainAndRefuse(Refusal::NotAdmitted)
            &&& l.stage == HostStage::Closed
            &&& host_step_on(l, fails, i).0.stage == HostStage::Closed
            &&& host_step_on(l, fails, i).2 is Close
        }),
{
}

/// A host that is opened for one address takes connections from that address
/// alone.
pub proof fn one_address_is_admitted(host: StateView, ip: Seq<char>, address: Seq<char>)
    requires
        !host.allow_all_ips,
        host.ip_whitelist == seq![ip],
    ensures
        admitted(host, address) == (address == ip),
{
    assert(host.ip_whitelist[0] == ip);
}

/// Every challenge asks with a fresh nonce, and the answer is held to that
/// nonce.
pub proof fn every_challenge_is_fresh(l: LoginView, fails: Fails, i: HostInput)
    ensures
        ({
            let (next, _, action) = host_step_on(l, fails, i);
            action matches HostActionView::Ask { msg, text } ==> (msg == CHALLENGE ==> next.nonce
                == i.nonce && text == challenge_of(next.record.pw_salt, i.nonce) && next.stage
                == HostStage::AwaitProof)
        }),
{
}

/// An address that is locked out is refused before anything is read from it.
pub proof fn locked_out_is_refused(scheme: Scheme, peer: PeerIp, fails: Fails, now: u64)
    requires
        scheme != Scheme::Passwords,
        locked(fails, peer, now),
    ensures
        opened(scheme, peer, fails, now).0.stage == HostStage::Closed,
        opened(scheme, peer, fails, now).1 == HostActionView::DrainAndRefuse(Refusal::LockedOut),
{
}

/// A client that knows the password of its account is let through to the
/// license, or past it, with the answer that it computes from the challenge.
pub proof fn right_password_is_accepted(
    l: LoginView,
    fails: Fails,
    i: HostInput,
)
    requires
        l.stage == HostStage::AwaitProof,
        l.scheme != Scheme::Passwords,
        l.nonce.len() > 0,
        l.record.pw_hash.len() > 0,
        proof_fits(l.record.pw_hash, l.nonce),
        i.ev == (HostEventView::Frame {
            msg: PROOF,
            text: "p:"@ + proof_of(l.record.pw_hash, l.nonce),
        }),
    ensures
        is_proved_stage(host_step_on(l, fails, i).0.stage),
        !host_step_on(l, fails, i).1.dom().contains(l.peer),
{
    reveal_strlit("p:");
    reveal_strlit("p");
    reveal_strlit("t");
    let answer = proof_of(l.record.pw_hash, l.nonce);
    let text = "p:"@ + answer;
    assert(text[0] == 'p' && text[1] == ':');
    lemma_span_is(text, other_than(':'), 1);
    assert(text.take(1) =~= "p"@);
    assert(text.skip(2) =~= answer);
    assert("p"@[0] != "t"@[0]);
    assert(cut_first(text, ':') == Some(("p"@, answer)));
}

} // verus!
