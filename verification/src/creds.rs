//! Credentials: names, passwords, challenge and response, the sealed state
//! file, and the administration of accounts.

use crate::accounts::{
    HostState, ROLE_ADMIN, ROLE_USER, StateView, UserList, UserRecord, UserView, lookup,
    with_user,
};
use crate::cipher::{PLAIN_LIMIT, aes_nonce, aes_open, aes_opened, aes_seal, aes_sealed};
use crate::digest::{MESSAGE_LIMIT, sha256, sha256_pair};
use crate::proto::payload_text;
use crate::random::random_bytes;
use crate::state_file::{
    parse_state, render_state, state_is_plain, state_of, state_reads_back, state_text, with_roles,
};
use crate::text::{
    begins, cat3, chars_of, is_white, lemma_encode_concat, lemma_same_bytes, lemma_span_is,
    lemma_trimmed_same, lossy_text, lowered, same, stands, strip_prefix, text_from_utf8, text_of,
    text_opt, texts, to_lower, trim, trim_line_end, trimmed, trimmed_end_by, trimmed_start, white,
};
use crate::token::{
    StatePath, all_hex, from_hex, hex_bytes, hex_case_does_not_matter, hex_reads_back, hex_text,
    is_hex, is_hex_of_len, lemma_hex_is_lower, lower_hex, place1, to_hex, token_digest,
};
use vstd::prelude::*;
use vstd::string::*;
use vstd::utf8::*;

verus! {

/// Rounds of the password hash.
pub const HASH_ROUNDS: u32 = 4096;

// ---------------------------------------------------------------- names

pub open spec fn is_name_char(c: char) -> bool {
    ('0' <= c <= '9') || ('a' <= c <= 'z') || ('A' <= c <= 'Z') || c == '_' || c == '.' || c == '-'
}

/// A name of one to 32 bytes.
pub open spec fn name_length_ok(name: Seq<char>) -> bool {
    name.len() > 0 && encode_utf8(name).len() <= 32
}

/// A name of letters, digits, `_`, `.` and `-`.
pub open spec fn name_chars_ok(name: Seq<char>) -> bool {
    forall|i: int| 0 <= i < name.len() ==> is_name_char(#[trigger] name[i])
}

/// Why a name is refused, if it is.
pub open spec fn name_refusal(name: Seq<char>) -> Option<Seq<char>> {
    if !name_length_ok(name) {
        Some("username must be 1-32 characters"@)
    } else if !name_chars_ok(name) {
        Some("username may only contain letters, digits, '_', '.', '-'"@)
    } else {
        None
    }
}

/// Whether the name may be the name of an account.
pub fn validate_username(name: &str) -> (r: Result<(), String>)
    ensures
        r is Ok == name_refusal(name@) is None,
        r matches Err(e) ==> name_refusal(name@) == Some(e@),
{
    if name.is_empty() || name.as_bytes().len() > 32 {
        return Err(String::from_str("username must be 1-32 characters"));
    }
    let v = chars_of(name);
    let mut i: usize = 0;
    while i < v.len()
        invariant
            v@ == name@,
            name_length_ok(name@),
            i <= v@.len(),
            forall|k: int| 0 <= k < i ==> is_name_char(#[trigger] v@[k]),
        decreases v@.len() - i,
    {
        let c = v[i];
        if !(('0' <= c && c <= '9') || ('a' <= c && c <= 'z') || ('A' <= c && c <= 'Z') || c == '_'
            || c == '.' || c == '-') {
            assert(!is_name_char(v@[i as int]));
            return Err(
                String::from_str("username may only contain letters, digits, '_', '.', '-'"),
            );
        }
        i += 1;
    }
    Ok(())
}

/// The role that a word names, if it names one.
pub open spec fn role_named(word: Seq<char>) -> Option<Seq<char>> {
    let w = lowered(trimmed(word));
    if w == "user"@ || w == "standard"@ || w == ""@ {
        Some("user"@)
    } else if w == "admin"@ || w == "sudo"@ {
        Some("admin"@)
    } else {
        None
    }
}

/// The role that a word names: `user`, `standard` or nothing for users, `admin`
/// or `sudo` for admins, in any case and with blanks around it.
pub fn normalize_role(role: &str) -> (r: Result<String, String>)
    ensures
        r is Ok == role_named(role@) is Some,
        r matches Ok(s) ==> role_named(role@) == Some(s@),
        r matches Err(e) ==> e@ == "unknown role '"@ + lowered(trimmed(role@))
            + "' (use 'user' or 'admin')"@,
{
    let t = trim(role);
    let w = to_lower(&t);
    if same(&w, "user") || same(&w, "standard") || same(&w, "") {
        Ok(String::from_str(ROLE_USER))
    } else if same(&w, "admin") || same(&w, "sudo") {
        Ok(String::from_str(ROLE_ADMIN))
    } else {
        Err(cat3("unknown role '", &w, "' (use 'user' or 'admin')"))
    }
}

// ---------------------------------------------------------------- passwords

/// The bytes of a salt; a salt that is no hexadecimal text has none.
pub open spec fn salt_bytes(salt_hex: Seq<char>) -> Seq<u8> {
    match hex_bytes(salt_hex) {
        Some(b) => b,
        None => Seq::empty(),
    }
}

/// The digest after the first round and `n` more: each round hashes the last
/// digest and the salt.
pub open spec fn password_digest(salt: Seq<u8>, password: Seq<u8>, n: nat) -> Seq<u8>
    decreases n,
{
    if n == 0 {
        sha256(salt + password)
    } else {
        sha256(password_digest(salt, password, (n - 1) as nat) + salt)
    }
}

/// What an account keeps in place of its password.
pub open spec fn password_hash(salt_hex: Seq<char>, password: Seq<char>) -> Seq<char> {
    hex_text(
        password_digest(
            salt_bytes(salt_hex),
            encode_utf8(password),
            (HASH_ROUNDS - 1) as nat,
        ),
    )
}

/// The inputs of the password hash stay within the limit of the digest.
pub open spec fn password_fits(salt_hex: Seq<char>, password: Seq<char>) -> bool {
    salt_bytes(salt_hex).len() + encode_utf8(password).len() < MESSAGE_LIMIT && salt_bytes(
        salt_hex,
    ).len() + 32 < MESSAGE_LIMIT
}

/// The salted hash of a password, in hexadecimal.
pub fn hash_password(salt_hex: &str, password: &str) -> (s: String)
    requires
        password_fits(salt_hex@, password@),
    ensures
        s@ == password_hash(salt_hex@, password@),
        s@.len() == 64,
{
    let salt = match from_hex(salt_hex) {
        Some(b) => b,
        None => Vec::new(),
    };
    assert(salt@ =~= salt_bytes(salt_hex@));
    let mut acc = sha256_pair(&salt, password.as_bytes());
    let mut i: u32 = 1;
    while i < HASH_ROUNDS
        invariant
            1 <= i <= HASH_ROUNDS,
            salt@ == salt_bytes(salt_hex@),
            salt@.len() + 32 < MESSAGE_LIMIT,
            acc@.len() == 32,
            acc@ == password_digest(salt@, encode_utf8(password@), (i - 1) as nat),
        decreases HASH_ROUNDS - i,
    {
        acc = sha256_pair(&acc, &salt);
        i += 1;
    }
    to_hex(&acc)
}

/// A fresh salt: 16 random bytes in hexadecimal.
pub fn new_salt() -> (s: String)
    ensures
        s@.len() == 32,
        all_hex(s@),
        salt_bytes(s@).len() == 16,
{
    let bytes = random_bytes(16);
    proof {
        hex_reads_back(bytes@);
    }
    to_hex(&bytes)
}

/// The two entries of a new password: the password, if there is one and both
/// agree.
pub fn prompt_new_password(first: &str, second: &str) -> (r: Result<String, String>)
    ensures
        r is Ok == (first@.len() > 0 && first@ == second@),
        r matches Ok(p) ==> p@ == first@,
        r matches Err(e) ==> e@ == (if first@.len() == 0 {
            "password cannot be empty"@
        } else {
            "passwords do not match. user not created."@
        }),
{
    if first.is_empty() {
        return Err(String::from_str("password cannot be empty"));
    }
    if !same(first, second) {
        return Err(String::from_str("passwords do not match. user not created."));
    }
    Ok(String::from_str(first))
}

/// A line of masked input without its line end.
pub fn read_masked(line: &str) -> (r: String)
    ensures
        r@ == trimmed_end_by(line@, |c: char| c == '\r' || c == '\n'),
{
    trim_line_end(line)
}

/// A line of input without white space around it.
pub fn read_line_prompt(line: &str) -> (r: String)
    ensures
        r@ == trimmed(line@),
{
    trim(line)
}

/// What a key does to masked input on a console.
#[derive(Clone, Copy, Debug, PartialEq, Eq, Structural)]
pub enum MaskedKey {
    /// The line is complete.
    Done,
    /// The last character goes, on the screen too.
    Erase,
    /// The program is to stop.
    Interrupt,
    /// An extended key: the next code belongs to it and is dropped.
    DropNext,
    /// A character was taken; a star stands for it.
    Echo,
    /// Nothing happens.
    Ignore,
}

/// What the key with this code does while `typed` bytes stand in the line.
pub open spec fn masked_key(code: i32, typed: nat) -> MaskedKey {
    if code == 13 || code == 10 {
        MaskedKey::Done
    } else if code == 8 {
        if typed > 0 { MaskedKey::Erase } else { MaskedKey::Ignore }
    } else if code == 3 {
        MaskedKey::Interrupt
    } else if code == 0 || code == 0xE0 {
        MaskedKey::DropNext
    } else if 32 <= code <= 255 {
        MaskedKey::Echo
    } else {
        MaskedKey::Ignore
    }
}

/// Takes a key of masked console input into the bytes typed so far.
pub fn read_masked_tty(typed: &mut Vec<u8>, code: i32) -> (r: MaskedKey)
    ensures
        r == masked_key(code, old(typed)@.len()),
        final(typed)@ == (if r == MaskedKey::Erase {
            old(typed)@.drop_last()
        } else if r == MaskedKey::Echo {
            old(typed)@.push(code as u8)
        } else {
            old(typed)@
        }),
{
    if code == 13 || code == 10 {
        MaskedKey::Done
    } else if code == 8 {
        if typed.pop().is_some() { MaskedKey::Erase } else { MaskedKey::Ignore }
    } else if code == 3 {
        MaskedKey::Interrupt
    } else if code == 0 || code == 0xE0 {
        MaskedKey::DropNext
    } else if 32 <= code && code <= 255 {
        typed.push(code as u8);
        MaskedKey::Echo
    } else {
        MaskedKey::Ignore
    }
}

/// The text that was typed, once the line is done.
pub fn masked_text(typed: &Vec<u8>) -> (s: String)
    ensures
        s@ == lossy_text(typed@),
{
    payload_text(typed.as_slice())
}

/// Whether standard input is a console. It is not probed: it counts as none.
pub fn stdin_is_tty() -> (r: bool)
    ensures
        !r,
{
    false
}

/// Whether prompts may be shown: at a console, or where `shell`, the value that
/// the environment gives, is `1`.
pub fn is_interactive(tty: bool, shell: Option<&str>) -> (r: bool)
    ensures
        r == (tty || text_opt(shell) == Some("1"@)),
{
    match shell {
        Some(v) => tty || same(v, "1"),
        None => tty,
    }
}

// ---------------------------------------------------------------- challenge and response

/// A fresh nonce for a challenge: 16 random bytes in hexadecimal.
pub fn new_nonce() -> (s: String)
    ensures
        s@.len() == 32,
        all_hex(s@),
{
    let bytes = random_bytes(16);
    proof {
        hex_reads_back(bytes@);
    }
    to_hex(&bytes)
}

/// The proof that one knows a secret: the digest of the secret and the nonce.
pub open spec fn proof_of(secret_hex: Seq<char>, nonce_hex: Seq<char>) -> Seq<char> {
    hex_text(sha256(encode_utf8(secret_hex) + encode_utf8(nonce_hex)))
}

/// The inputs of a proof stay within the limit of the digest.
pub open spec fn proof_fits(secret_hex: Seq<char>, nonce_hex: Seq<char>) -> bool {
    encode_utf8(secret_hex).len() + encode_utf8(nonce_hex).len() < MESSAGE_LIMIT
}

/// The answer to a challenge. The secret is the stored password hash or the
/// hash of the connection token; neither crosses the wire.
pub fn compute_proof(secret_hex: &str, nonce_hex: &str) -> (s: String)
    requires
        proof_fits(secret_hex@, nonce_hex@),
    ensures
        s@ == proof_of(secret_hex@, nonce_hex@),
        s@.len() == 64,
{
    let d = sha256_pair(secret_hex.as_bytes(), nonce_hex.as_bytes());
    to_hex(&d)
}

/// An answer is accepted: there is a secret and a nonce, and the answer is the
/// proof for them.
pub open spec fn proof_accepted(
    secret_hex: Seq<char>,
    nonce_hex: Seq<char>,
    answer: Seq<char>,
) -> bool {
    secret_hex.len() > 0 && nonce_hex.len() > 0 && answer == proof_of(secret_hex, nonce_hex)
}

/// Bytes of text that is all hexadecimal digits are the digits.
pub proof fn lemma_hex_is_ascii(s: Seq<char>)
    requires
        all_hex(s),
    ensures
        encode_utf8(s).len() == s.len(),
        is_ascii_chars(s),
{
    assert(is_ascii_chars(s)) by {
        assert forall|i: int| 0 <= i < s.len() implies '\0' <= #[trigger] s[i] <= '\u{7f}' by {
            assert(is_hex(s[i]));
        }
    }
    is_ascii_chars_encode_utf8(s);
}

/// The difference of two bytes is kept by `|` until it shows.
proof fn lemma_diff(acc: u8, x: u8, y: u8)
    ensures
        ((acc | (x ^ y)) == 0u8) == (acc == 0u8 && x == y),
{
    assert(((acc | (x ^ y)) == 0u8) == (acc == 0u8 && x == y)) by (bit_vector);
}

/// Whether an answer to a challenge is right. All bytes of the answer are
/// looked at, wherever the first difference is.
pub fn verify_proof(expected_secret_hex: &str, nonce_hex: &str, proof_hex: &str) -> (r: bool)
    requires
        proof_fits(expected_secret_hex@, nonce_hex@),
    ensures
        r == proof_accepted(expected_secret_hex@, nonce_hex@, proof_hex@),
        r ==> proof_hex@.len() == 64 && lower_hex(proof_hex@),
{
    let ghost want = proof_of(expected_secret_hex@, nonce_hex@);
    let ghost digest = sha256(encode_utf8(expected_secret_hex@) + encode_utf8(nonce_hex@));
    let a = compute_proof(expected_secret_hex, nonce_hex);
    proof {
        hex_reads_back(digest);
        lemma_hex_is_lower(digest);
        lemma_hex_is_ascii(want);
    }
    if expected_secret_hex.is_empty() || nonce_hex.is_empty() || !is_hex_of_len(proof_hex, 64) {
        return false;
    }
    proof {
        lemma_hex_is_ascii(proof_hex@);
    }
    let x = a.as_str().as_bytes();
    let y = proof_hex.as_bytes();
    let mut diff: u8 = 0;
    let mut i: usize = 0;
    assert(x@.take(0) =~= y@.take(0));
    while i < x.len()
        invariant
            x@.len() == y@.len(),
            i <= x@.len(),
            (diff == 0) == (x@.take(i as int) == y@.take(i as int)),
        decreases x@.len() - i,
    {
        proof {
            lemma_diff(diff, x@[i as int], y@[i as int]);
            let xi = x@.take(i + 1);
            let yi = y@.take(i + 1);
            assert(xi.drop_last() =~= x@.take(i as int));
            assert(yi.drop_last() =~= y@.take(i as int));
            assert(xi.last() == x@[i as int] && yi.last() == y@[i as int]);
            assert(xi =~= xi.drop_last().push(xi.last()));
            assert(yi =~= yi.drop_last().push(yi.last()));
        }
        diff = diff | (x[i] ^ y[i]);
        i += 1;
    }
    proof {
        assert(x@.take(i as int) =~= x@);
        assert(y@.take(i as int) =~= y@);
        if diff == 0 {
            lemma_same_bytes(a@, proof_hex@);
        }
    }
    diff == 0
}

/// The answer that a client computes is accepted wherever there are a secret
/// and a nonce.
pub proof fn computed_proof_is_accepted(secret_hex: Seq<char>, nonce_hex: Seq<char>)
    ensures
        secret_hex.len() > 0 && nonce_hex.len() > 0 ==> proof_accepted(
            secret_hex,
            nonce_hex,
            proof_of(secret_hex, nonce_hex),
        ),
{
}

/// An answer is accepted exactly where it is the proof of the secret and the
/// nonce, and neither is empty; one with a character other than a lower-case
/// hexadecimal digit never is.
pub proof fn only_the_proof_is_accepted(
    secret_hex: Seq<char>,
    nonce_hex: Seq<char>,
    answer: Seq<char>,
)
    ensures
        proof_accepted(secret_hex, nonce_hex, answer) == (secret_hex.len() > 0 && nonce_hex.len()
            > 0 && answer == proof_of(secret_hex, nonce_hex)),
        !lower_hex(answer) ==> !proof_accepted(secret_hex, nonce_hex, answer),
{
    lemma_hex_is_lower(sha256(encode_utf8(secret_hex) + encode_utf8(nonce_hex)));
}

/// The proof of a secret and a nonce is the hash of the two texts as one token.
pub proof fn proof_is_a_token_hash(secret_hex: Seq<char>, nonce_hex: Seq<char>)
    ensures
        proof_of(secret_hex, nonce_hex) == token_digest(secret_hex + nonce_hex),
{
    lemma_encode_concat(secret_hex, nonce_hex);
}

/// A password's hash depends on the bytes of the salt alone, not on how they are
/// written: not on the case of the digits, and a text that is not hexadecimal
/// stands for no bytes.
pub proof fn salts_count_by_their_bytes(
    salt_hex: Seq<char>,
    other_hex: Seq<char>,
    password: Seq<char>,
)
    ensures
        salt_bytes(salt_hex) == salt_bytes(other_hex) ==> password_hash(salt_hex, password)
            == password_hash(other_hex, password),
        password_hash(lowered(salt_hex), password) == password_hash(salt_hex, password),
        hex_bytes(salt_hex) is None ==> password_hash(salt_hex, password) == password_hash(
            Seq::empty(),
            password,
        ),
{
    hex_case_does_not_matter(salt_hex);
    assert(salt_bytes(Seq::empty()) =~= Seq::empty());
}

/// Without a nonce, and without a secret, no answer is ever accepted.
pub proof fn no_proof_without_secret_and_nonce(
    secret_hex: Seq<char>,
    nonce_hex: Seq<char>,
    answer: Seq<char>,
)
    requires
        secret_hex.len() == 0 || nonce_hex.len() == 0,
    ensures
        !proof_accepted(secret_hex, nonce_hex, answer),
{
}

// ---------------------------------------------------------------- the sealed state file

/// What a sealed state file begins with. The file is
/// `PYLENC1:<hex(12-byte nonce)><hex(ciphertext and 16-byte tag)>`.
pub const ENC_MAGIC: &'static str = "PYLENC1:";

/// Where the state is kept, below the root of local state.
pub fn state_path() -> (p: StatePath)
    ensures
        p@ == seq!["host_state.json"@],
{
    place1("host_state.json")
}

/// Where the master key is kept, below the root of local state.
pub fn key_path() -> (p: StatePath)
    ensures
        p@ == seq!["host.key"@],
{
    place1("host.key")
}

/// The key that seals the state.
pub enum MasterKey {
    /// The key in the key file.
    Stored(Vec<u8>),
    /// There was no key file: a new key, to be written to it.
    Fresh(Vec<u8>),
    /// The key file holds no key.
    Corrupt,
}

/// The key in the text of a key file: 32 bytes in hexadecimal.
pub open spec fn key_in(body: Seq<char>) -> Option<Seq<u8>> {
    match hex_bytes(trimmed(body)) {
        Some(k) => if k.len() == 32 { Some(k) } else { None },
        None => None,
    }
}

/// The master key, from the text of the key file or, where there is none, made
/// at random.
pub fn master_key(stored: Option<&str>) -> (r: MasterKey)
    ensures
        match stored {
            None => r is Fresh && r->Fresh_0@.len() == 32,
            Some(body) => match key_in(body@) {
                Some(k) => r is Stored && r->Stored_0@ == k,
                None => r is Corrupt,
            },
        },
{
    match stored {
        None => MasterKey::Fresh(random_bytes(32)),
        Some(body) => {
            let t = trim(body);
            match from_hex(&t) {
                Some(k) => if k.len() == 32 { MasterKey::Stored(k) } else { MasterKey::Corrupt },
                None => MasterKey::Corrupt,
            }
        },
    }
}

/// A key that was written to the key file is the key that is read from it.
pub proof fn written_key_reads_back(key: Seq<u8>)
    requires
        key.len() == 32,
    ensures
        key_in(hex_text(key)) == Some(key),
{
    hex_reads_back(key);
    lemma_trimmed_hex(hex_text(key));
}

proof fn lemma_trimmed_hex(s: Seq<char>)
    requires
        s.len() > 0,
        all_hex(s),
    ensures
        trimmed(s) == s,
{
    assert(is_hex(s[0]) && is_hex(s[s.len() - 1]));
    lemma_trimmed_same(s);
}

/// The text of a sealed state.
pub open spec fn sealed_text(key: Seq<u8>, nonce: Seq<u8>, json: Seq<char>) -> Seq<char> {
    "PYLENC1:"@ + hex_text(nonce) + hex_text(aes_sealed(key, nonce, encode_utf8(json)))
}

/// The nonce and the ciphertext in the text of a sealed state.
pub open spec fn sealed_parts_of(body: Seq<char>) -> Option<(Seq<u8>, Seq<u8>)> {
    let t = trimmed(body);
    if !begins(t, "PYLENC1:"@) {
        None
    } else {
        let rest = t.skip("PYLENC1:"@.len() as int);
        if rest.len() < 24 + 32 || rest.len() % 2 != 0 || !all_hex(rest) {
            None
        } else {
            Some((hex_bytes(rest.take(24))->0, hex_bytes(rest.skip(24))->0))
        }
    }
}

/// The state text in a sealed state, with this key.
pub open spec fn unsealed(body: Seq<char>, key: Seq<u8>) -> Option<Seq<char>> {
    match sealed_parts_of(body) {
        None => None,
        Some((nonce, sealed)) => match aes_opened(key, nonce, sealed) {
            None => None,
            Some(plain) => if valid_utf8(plain) { Some(decode_utf8(plain)) } else { None },
        },
    }
}

/// The parts of a sealed state are found in its text.
proof fn lemma_sealed_digits(n: Seq<char>, c: Seq<char>)
    requires
        all_hex(n),
        n.len() == 24,
        all_hex(c),
        c.len() >= 32,
        c.len() % 2 == 0,
    ensures
        begins(trimmed_start("PYLENC1:"@ + n + c), "PYLENC1:"@),
        sealed_parts_of("PYLENC1:"@ + n + c) == Some((hex_bytes(n)->0, hex_bytes(c)->0)),
{
    reveal_strlit("PYLENC1:");
    let rest = n + c;
    let s = "PYLENC1:"@ + n + c;
    assert(s =~= "PYLENC1:"@ + rest);
    assert forall|i: int| 0 <= i < rest.len() implies is_hex(#[trigger] rest[i]) by {
        if i < n.len() {
            assert(is_hex(n[i]));
        } else {
            assert(is_hex(c[i - n.len()]));
        }
    }
    assert(is_hex(rest[rest.len() - 1]));
    assert(s.last() == rest[rest.len() - 1]);
    assert(s[0] == 'P');
    lemma_trimmed_same(s);
    assert(s.take(8) =~= "PYLENC1:"@);
    assert(s.skip(8) =~= rest);
    assert(rest.take(24) =~= n);
    assert(rest.skip(24) =~= c);
}

/// Seals the text of a state with a key and a nonce. Too long a text cannot be
/// sealed; a sealed text opens again with the same key.
pub fn seal_with(json: &str, key: &[u8], nonce: &[u8]) -> (r: Option<String>)
    requires
        key@.len() == 32,
        nonce@.len() == 12,
    ensures
        r is Some == (json.spec_bytes().len() <= PLAIN_LIMIT),
        r matches Some(s) ==> s@ == sealed_text(key@, nonce@, json@),
        r matches Some(s) ==> s@.len() == 8 + 24 + 2 * (json.spec_bytes().len() + 16),
        r matches Some(s) ==> s@.take(8) == "PYLENC1:"@ && lower_hex(s@.skip(8)),
        r matches Some(s) ==> unsealed(s@, key@) == Some(json@),
        r matches Some(s) ==> begins(trimmed_start(s@), "PYLENC1:"@),
{
    match aes_seal(key, nonce, json.as_bytes()) {
        None => None,
        Some(ct) => {
            let n = to_hex(nonce);
            let c = to_hex(&ct);
            let s = cat3(ENC_MAGIC, &n, &c);
            proof {
                hex_reads_back(nonce@);
                hex_reads_back(ct@);
                lemma_hex_is_lower(nonce@);
                lemma_hex_is_lower(ct@);
                lemma_sealed_digits(n@, c@);
                reveal_strlit("PYLENC1:");
                assert(s@.take(8) =~= "PYLENC1:"@);
                assert(s@.skip(8) =~= n@ + c@);
                encode_utf8_valid_utf8(json@);
                encode_utf8_decode_utf8(json@);
            }
            Some(s)
        },
    }
}

/// Seals the text of a state with a key, under a random nonce.
pub fn seal_state(json: &str, key: &[u8]) -> (r: Option<String>)
    requires
        key@.len() == 32,
    ensures
        r is Some == (json.spec_bytes().len() <= PLAIN_LIMIT),
        r matches Some(s) ==> exists|nonce: Seq<u8>|
            nonce.len() == 12 && s@ == #[trigger] sealed_text(key@, nonce, json@),
        r matches Some(s) ==> s@.len() == 8 + 24 + 2 * (json.spec_bytes().len() + 16),
        r matches Some(s) ==> s@.take(8) == "PYLENC1:"@ && lower_hex(s@.skip(8)),
        r matches Some(s) ==> unsealed(s@, key@) == Some(json@),
        r matches Some(s) ==> begins(trimmed_start(s@), "PYLENC1:"@),
{
    let nonce = aes_nonce();
    seal_with(json, key, &nonce)
}

/// A sealed state with a character that is no hexadecimal digit in place of one
/// behind the mark does not open, with any key.
pub proof fn spoiled_state_is_refused(
    key: Seq<u8>,
    nonce: Seq<u8>,
    json: Seq<char>,
    at: int,
    c: char,
    with_key: Seq<u8>,
)
    requires
        8 <= at < sealed_text(key, nonce, json).len(),
        !is_hex(c),
        !white(c),
    ensures
        unsealed(sealed_text(key, nonce, json).update(at, c), with_key) is None,
{
    reveal_strlit("PYLENC1:");
    let s = sealed_text(key, nonce, json);
    let bad = s.update(at, c);
    let sealed = aes_sealed(key, nonce, encode_utf8(json));
    hex_reads_back(nonce);
    hex_reads_back(sealed);
    let digits = hex_text(nonce) + hex_text(sealed);
    assert(s =~= "PYLENC1:"@ + digits);
    assert(s.last() == digits[digits.len() - 1]);
    assert(is_hex(s.last())) by {
        if hex_text(sealed).len() > 0 {
            assert(is_hex(hex_text(sealed)[hex_text(sealed).len() - 1]));
        } else {
            assert(is_hex(hex_text(nonce)[hex_text(nonce).len() - 1]));
        }
    }
    assert(bad[0] == 'P');
    lemma_trimmed_same(bad);
    assert(bad.skip(8)[at - 8] == c);
}

/// The nonce and the ciphertext in the text of a sealed state.
pub fn sealed_parts(body: &str) -> (r: Option<(Vec<u8>, Vec<u8>)>)
    ensures
        r is Some == sealed_parts_of(body@) is Some,
        r matches Some(p) ==> sealed_parts_of(body@) == Some((p.0@, p.1@)) && p.0@.len() == 12,
{
    let t = trim(body);
    let rest = match strip_prefix(&t, ENC_MAGIC) {
        Some(rest) => rest,
        None => {
            return None;
        },
    };
    let v = chars_of(&rest);
    if v.len() < 24 + 32 || v.len() % 2 != 0 || !is_hex_of_len(&rest, v.len()) {
        return None;
    }
    let n = text_of(&v, 0, 24);
    let c = text_of(&v, 24, v.len());
    proof {
        assert(n@ =~= rest@.take(24));
        assert(c@ =~= rest@.skip(24));
        assert forall|i: int| 0 <= i < n@.len() implies is_hex(#[trigger] n@[i]) by {
            assert(is_hex(rest@[i]));
        }
        assert forall|i: int| 0 <= i < c@.len() implies is_hex(#[trigger] c@[i]) by {
            assert(is_hex(rest@[i + 24]));
        }
    }
    match (from_hex(&n), from_hex(&c)) {
        (Some(nonce), Some(ct)) => Some((nonce, ct)),
        _ => None,
    }
}

/// The text in a sealed state, if the key opens it.
pub fn unseal_state(body: &str, key: &[u8]) -> (r: Option<String>)
    requires
        key@.len() == 32,
    ensures
        r is Some == unsealed(body@, key@) is Some,
        r matches Some(s) ==> unsealed(body@, key@) == Some(s@),
{
    match sealed_parts(body) {
        None => None,
        Some((nonce, ct)) => match aes_open(key, &nonce, &ct) {
            None => None,
            Some(plain) => text_from_utf8(plain),
        },
    }
}

/// The state in a text, or an empty state.
pub open spec fn state_or_blank(text: Seq<char>) -> StateView {
    match state_of(text) {
        Some(st) => st,
        None => StateView::blank(),
    }
}

/// The state that a state file gives, and whether the file was sealed and could
/// not be opened.
pub open spec fn loaded(file: Option<Seq<char>>, key: Option<Seq<u8>>) -> (StateView, bool) {
    match file {
        None => (StateView::blank(), false),
        Some(body) => if begins(trimmed_start(body), "PYLENC1:"@) {
            match key {
                None => (StateView::blank(), true),
                Some(k) => match unsealed(body, k) {
                    Some(json) => (state_or_blank(json), false),
                    None => (StateView::blank(), true),
                },
            }
        } else {
            (state_or_blank(body), false)
        },
    }
}

/// Bytes as their view, where there are any.
pub open spec fn bytes_opt(s: Option<&[u8]>) -> Option<Seq<u8>> {
    match s {
        Some(t) => Some(t@),
        None => None,
    }
}

fn parse_or_blank(text: &str) -> (st: HostState)
    ensures
        st@ == state_or_blank(text@),
{
    match parse_state(text) {
        Some(st) => st,
        None => HostState::default(),
    }
}

/// Whether a text begins, after white space, as a sealed state does.
pub fn is_sealed(body: &str) -> (r: bool)
    ensures
        r == begins(trimmed_start(body@), "PYLENC1:"@),
{
    let v = chars_of(body);
    let m = chars_of(ENC_MAGIC);
    let mut i: usize = 0;
    while i < v.len() && is_white(v[i])
        invariant
            i <= v@.len(),
            forall|k: int| 0 <= k < i ==> white(#[trigger] v@[k]),
        decreases v@.len() - i,
    {
        i += 1;
    }
    proof {
        lemma_span_is(v@, |c: char| white(c), i as int);
        let t = v@.skip(i as int);
        if m@.len() <= t.len() {
            assert(t.take(m@.len() as int) =~= v@.subrange(i as int, i + m@.len()));
        }
    }
    stands(&v, &m, i)
}

/// The state in a state file: sealed, or as plain text from before files were
/// sealed. What cannot be read counts as empty; the flag says that the file is
/// sealed and does not open with the key.
pub fn load_state(file: Option<&str>, key: Option<&[u8]>) -> (r: (HostState, bool))
    requires
        key is Some ==> key->0@.len() == 32,
    ensures
        (r.0@, r.1) == loaded(text_opt(file), bytes_opt(key)),
{
    match file {
        None => (HostState::default(), false),
        Some(body) => if is_sealed(body) {
            match key {
                None => (HostState::default(), true),
                Some(k) => match unseal_state(body, k) {
                    Some(json) => (parse_or_blank(&json), false),
                    None => (HostState::default(), true),
                },
            }
        } else {
            (parse_or_blank(body), false)
        },
    }
}

/// The accounts with their written roles are what a reader of the file sees.
pub open spec fn as_read(st: StateView) -> StateView {
    StateView { users: with_roles(st.users), ..st }
}

/// The text of the state file for a state: sealed with the key, or plain where
/// that was asked for (for tools that look into the file; never on a real
/// deployment). Without a key there is nothing to seal it with. Loading the
/// text with the same key gives the state back.
pub fn save_state(state: &HostState, plaintext: bool, key: Option<&[u8]>) -> (r: Option<String>)
    requires
        key is Some ==> key->0@.len() == 32,
    ensures
        plaintext ==> r is Some && r->0@ == state_text(state@),
        !plaintext ==> (r is Some == (key is Some && encode_utf8(state_text(state@)).len()
            <= PLAIN_LIMIT)),
        !plaintext && r is Some ==> exists|nonce: Seq<u8>|
            nonce.len() == 12 && r->0@ == #[trigger] sealed_text(
                key->0@,
                nonce,
                state_text(state@),
            ),
        r is Some && state_is_plain(state@) ==> loaded(Some(r->0@), bytes_opt(key)) == (
            as_read(state@),
            false,
        ),
{
    let json = render_state(state);
    let n: usize = state.users.len();
    proof {
        if state_is_plain(state@) {
            state_reads_back(state@);
        }
        reveal_strlit("{\n  \"enabled\": ");
        reveal_strlit("PYLENC1:");
        let t = state_text(state@);
        assert(t[0] == '{');
        lemma_span_is(t, |c: char| white(c), 0);
        assert(t.skip(0) =~= t);
        assert(!begins(t, "PYLENC1:"@)) by {
            if begins(t, "PYLENC1:"@) {
                assert(t.take(8)[0] == 'P');
            }
        }
    }
    if plaintext {
        Some(json)
    } else {
        match key {
            Some(k) => seal_state(&json, k),
            None => None,
        }
    }
}

// ---------------------------------------------------------------- administration

/// Why an account cannot be added, if it cannot, before a password is asked for.
pub open spec fn new_user_refusal(users: UserList, name: Seq<char>, role: Seq<char>) -> Option<
    Seq<char>,
> {
    match name_refusal(name) {
        Some(e) => Some(e),
        None => match role_named(role) {
            None => Some(
                "unknown role '"@ + lowered(trimmed(role)) + "' (use 'user' or 'admin')"@,
            ),
            Some(_) => if lookup(users, name) is Some {
                Some("user '"@ + name + "' already exists"@)
            } else {
                None
            },
        },
    }
}

/// Whether an account of that name and role can be added; gives the role in its
/// normal form.
pub fn check_new_user(state: &HostState, name: &str, role: &str) -> (r: Result<String, String>)
    ensures
        r is Ok == new_user_refusal(state@.users, name@, role@) is None,
        r matches Ok(s) ==> role_named(role@) == Some(s@),
        r matches Err(e) ==> new_user_refusal(state@.users, name@, role@) == Some(e@),
{
    match validate_username(name) {
        Err(e) => Err(e),
        Ok(()) => match normalize_role(role) {
            Err(e) => Err(e),
            Ok(role) => if state.users.contains_key(name) {
                Err(cat3("user '", name, "' already exists"))
            } else {
                Ok(role)
            },
        },
    }
}

/// A new account, with its password hashed under a salt and no token yet.
pub open spec fn new_account(salt: Seq<char>, password: Seq<char>, role: Seq<char>) -> UserView {
    UserView {
        pw_salt: salt,
        pw_hash: password_hash(salt, password),
        licensed: false,
        token_hash: Seq::empty(),
        role,
    }
}

/// Adds an account whose password is hashed under the given salt.
pub fn add_user_with_salt(
    state: &mut HostState,
    name: &str,
    role: &str,
    password: &str,
    salt: String,
) -> (r: Result<(), String>)
    requires
        password_fits(salt@, password@),
    ensures
        r is Ok == new_user_refusal(old(state)@.users, name@, role@) is None,
        r matches Err(e) ==> new_user_refusal(old(state)@.users, name@, role@) == Some(e@),
        r is Err ==> *final(state) == *old(state),
        r is Ok ==> final(state)@ == (StateView {
            users: with_user(
                old(state)@.users,
                name@,
                new_account(salt@, password@, role_named(role@)->0),
            ),
            ..old(state)@
        }),
{
    match check_new_user(state, name, role) {
        Err(e) => Err(e),
        Ok(role) => {
            let pw_hash = hash_password(&salt, password);
            let rec = UserRecord {
                pw_salt: salt,
                pw_hash,
                licensed: false,
                token_hash: String::new(),
                role,
            };
            assert(rec@.token_hash =~= Seq::empty());
            state.users.insert(String::from_str(name), rec);
            Ok(())
        },
    }
}

/// Adds an account with a password, under a fresh salt.
pub fn add_user(state: &mut HostState, name: &str, role: &str, password: &str) -> (r: Result<
    (),
    String,
>)
    requires
        16 + password.spec_bytes().len() < MESSAGE_LIMIT,
    ensures
        r is Ok == new_user_refusal(old(state)@.users, name@, role@) is None,
        r matches Err(e) ==> new_user_refusal(old(state)@.users, name@, role@) == Some(e@),
        r is Err ==> *final(state) == *old(state),
        r is Ok ==> exists|salt: Seq<char>|
            salt.len() == 32 && all_hex(salt) && final(state)@ == (StateView {
                users: with_user(
                    old(state)@.users,
                    name@,
                    #[trigger] new_account(salt, password@, role_named(role@)->0),
                ),
                ..old(state)@
            }),
{
    let salt = new_salt();
    add_user_with_salt(state, name, role, password, salt)
}

/// Opens the host for connections. Gives whether the state has changed.
pub fn cmd_enable(state: &mut HostState) -> (r: Result<bool, String>)
    ensures
        r is Ok == (old(state)@.users.len() > 0),
        r matches Err(e) ==> e@
            == "no user accounts exist yet. run '/adduser -m <name>' first."@ && *final(state)
            == *old(state),
        r matches Ok(changed) ==> changed == !old(state)@.enabled && final(state)@ == (StateView {
            enabled: true,
            ..old(state)@
        }),
{
    if state.users.is_empty() {
        return Err(
            String::from_str("no user accounts exist yet. run '/adduser -m <name>' first."),
        );
    }
    if !state.enabled {
        state.enabled = true;
        Ok(true)
    } else {
        Ok(false)
    }
}

/// Opens the host for connections, with new rules on addresses.
pub fn cmd_enable_with_flags(state: &mut HostState, allow_all: bool, whitelist: Vec<String>) -> (r:
    Result<(), String>)
    ensures
        r is Ok == (old(state)@.users.len() > 0),
        r matches Err(e) ==> e@
            == "no user accounts exist yet. run '/adduser -m <name>' first."@ && *final(state)
            == *old(state),
        r is Ok ==> final(state)@ == (StateView {
            enabled: true,
            allow_all_ips: allow_all,
            ip_whitelist: texts(whitelist@),
            users: old(state)@.users,
        }),
{
    if state.users.is_empty() {
        return Err(
            String::from_str("no user accounts exist yet. run '/adduser -m <name>' first."),
        );
    }
    state.enabled = true;
    state.allow_all_ips = allow_all;
    state.ip_whitelist = whitelist;
    Ok(())
}

/// Whether a list holds a text.
pub fn has_text(v: &Vec<String>, s: &str) -> (r: bool)
    ensures
        r == texts(v@).contains(s@),
{
    let mut i: usize = 0;
    while i < v.len()
        invariant
            i <= v@.len(),
            forall|k: int| 0 <= k < i ==> #[trigger] texts(v@)[k] != s@,
        decreases v@.len() - i,
    {
        if same(&v[i], s) {
            assert(texts(v@)[i as int] == s@);
            return true;
        }
        i += 1;
    }
    false
}

/// Puts an address on the whitelist. Gives whether the state has changed.
pub fn add_to_whitelist(state: &mut HostState, ip: String) -> (r: Result<bool, String>)
    ensures
        r is Ok == (old(state)@.users.len() > 0),
        r matches Err(e) ==> e@ == "no user accounts exist. run '/adduser -m <name>' first."@
            && *final(state) == *old(state),
        r matches Ok(changed) ==> changed == !old(state)@.ip_whitelist.contains(ip@),
        r is Ok ==> final(state)@ == (StateView {
            ip_whitelist: if old(state)@.ip_whitelist.contains(ip@) {
                old(state)@.ip_whitelist
            } else {
                old(state)@.ip_whitelist.push(ip@)
            },
            ..old(state)@
        }),
        r is Ok ==> final(state)@.ip_whitelist.contains(ip@),
{
    if state.users.is_empty() {
        return Err(String::from_str("no user accounts exist. run '/adduser -m <name>' first."));
    }
    if !has_text(&state.ip_whitelist, &ip) {
        let ghost before = texts(state.ip_whitelist@);
        let ghost added = ip@;
        state.ip_whitelist.push(ip);
        proof {
            let now = texts(state.ip_whitelist@);
            assert(now =~= before.push(added));
            assert(now[before.len() as int] == added);
        }
        Ok(true)
    } else {
        Ok(false)
    }
}

/// The texts other than `s`, in their order.
pub open spec fn without_text(v: Seq<Seq<char>>, s: Seq<char>) -> Seq<Seq<char>>
    decreases v.len(),
{
    if v.len() == 0 {
        Seq::empty()
    } else if v.last() == s {
        without_text(v.drop_last(), s)
    } else {
        without_text(v.drop_last(), s).push(v.last())
    }
}

/// What was taken out is gone, and everything else is still there.
pub proof fn removed_text_is_gone(v: Seq<Seq<char>>, s: Seq<char>)
    ensures
        !without_text(v, s).contains(s),
        forall|t: Seq<char>|
            t != s ==> (#[trigger] without_text(v, s).contains(t) == v.contains(t)),
    decreases v.len(),
{
    if v.len() > 0 {
        removed_text_is_gone(v.drop_last(), s);
        let w = without_text(v.drop_last(), s);
        assert forall|t: Seq<char>| t != s implies (#[trigger] without_text(v, s).contains(t)
            == v.contains(t)) by {
            assert(v =~= v.drop_last().push(v.last()));
            if v.contains(t) {
                let i = v.index_of(t);
                if i < v.len() - 1 {
                    assert(v.drop_last()[i] == t);
                    assert(v.drop_last().contains(t));
                    assert(w.contains(t));
                    let j = w.index_of(t);
                    assert(w[j] == t);
                    assert(without_text(v, s)[j] == t);
                } else {
                    assert(without_text(v, s)[w.len() as int] == t);
                }
            }
            if without_text(v, s).contains(t) {
                let i = without_text(v, s).index_of(t);
                if i < w.len() {
                    assert(w[i] == t);
                    assert(w.contains(t));
                    let j = v.drop_last().index_of(t);
                    assert(v[j] == t);
                } else {
                    assert(v[v.len() - 1] == t);
                }
            }
        }
        if without_text(v, s).contains(s) {
            let i = without_text(v, s).index_of(s);
            if i < w.len() {
                assert(w[i] == s);
            }
        }
    }
}

/// The texts of a list other than `s`, in their order.
pub fn remove_text(v: &Vec<String>, s: &str) -> (kept: Vec<String>)
    ensures
        texts(kept@) == without_text(texts(v@), s@),
{
    let ghost all = texts(v@);
    let mut kept: Vec<String> = Vec::new();
    let mut i: usize = 0;
    assert(texts(kept@) =~= without_text(all.take(0), s@));
    while i < v.len()
        invariant
            i <= v@.len(),
            all == texts(v@),
            texts(kept@) == without_text(all.take(i as int), s@),
        decreases v@.len() - i,
    {
        let ghost before = texts(kept@);
        let this = v[i].clone();
        let ghost t = this@;
        if !same(&this, s) {
            kept.push(this);
            assert(texts(kept@) =~= before.push(t));
        }
        proof {
            assert(all.take(i + 1).drop_last() =~= all.take(i as int));
            assert(all.take(i + 1).last() == t);
        }
        i += 1;
    }
    assert(all.take(i as int) =~= all);
    kept
}

/// Takes an address off the whitelist, wherever it stands on it.
pub fn remove_from_whitelist(state: &mut HostState, ip: &str) -> (r: Result<(), String>)
    ensures
        r is Ok == (old(state)@.users.len() > 0),
        r matches Err(e) ==> e@ == "no user accounts exist. run '/adduser -m <name>' first."@
            && *final(state) == *old(state),
        r is Ok ==> final(state)@ == (StateView {
            ip_whitelist: without_text(old(state)@.ip_whitelist, ip@),
            ..old(state)@
        }),
{
    if state.users.is_empty() {
        return Err(String::from_str("no user accounts exist. run '/adduser -m <name>' first."));
    }
    state.ip_whitelist = remove_text(&state.ip_whitelist, ip);
    Ok(())
}

} // verus!
