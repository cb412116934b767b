//! Connection tokens: hexadecimal text, hashing, and where a client keeps the
//! token of a device.

use crate::clock::now_secs;
use crate::digest::{MESSAGE_LIMIT, hasher_finalize, hasher_new, hasher_update, sha256};
use crate::random::random_bytes;
use crate::text::{
    cat2, cat3, chars_of, cut_last, digit_char, lowered, rsplit_once, same, text_opt, texts, trim,
    trimmed,
};
use vstd::prelude::*;
use vstd::string::*;
use vstd::utf8::*;

verus! {

broadcast use vstd::utf8::group_utf8_lib;

/// Random bytes in a token.
pub const TOKEN_LEN_BYTES: usize = 32;

// ---------------------------------------------------------------- hexadecimal

pub open spec fn is_hex(c: char) -> bool {
    ('0' <= c <= '9') || ('a' <= c <= 'f') || ('A' <= c <= 'F')
}

pub open spec fn all_hex(s: Seq<char>) -> bool {
    forall|i: int| 0 <= i < s.len() ==> is_hex(#[trigger] s[i])
}

/// The lower-case hexadecimal digit of a value below sixteen.
pub open spec fn hex_char(d: nat) -> char {
    if d < 10 { digit_char(d) } else if d == 10 { 'a' } else if d == 11 { 'b' }
    else if d == 12 { 'c' } else if d == 13 { 'd' } else if d == 14 { 'e' } else { 'f' }
}

/// The value of a hexadecimal digit of either case.
pub open spec fn hex_digit_value(c: char) -> nat {
    if 'a' <= c <= 'f' {
        (c as u32 - 'a' as u32 + 10) as nat
    } else if 'A' <= c <= 'F' {
        (c as u32 - 'A' as u32 + 10) as nat
    } else {
        (c as u32 - '0' as u32) as nat
    }
}

/// Bytes written in hexadecimal: two lower-case digits each, high digit first.
pub open spec fn hex_text(bytes: Seq<u8>) -> Seq<char> {
    Seq::new(
        2 * bytes.len(),
        |i: int|
            if i % 2 == 0 {
                hex_char((bytes[i / 2] / 16) as nat)
            } else {
                hex_char((bytes[i / 2] % 16) as nat)
            },
    )
}

/// The bytes that a hexadecimal text writes, two digits of either case each.
pub open spec fn hex_bytes(s: Seq<char>) -> Option<Seq<u8>> {
    if s.len() % 2 == 0 && all_hex(s) {
        Some(
            Seq::new(
                s.len() / 2,
                |i: int| (16 * hex_digit_value(s[2 * i]) + hex_digit_value(s[2 * i + 1])) as u8,
            ),
        )
    } else {
        None
    }
}

/// Text of lower-case hexadecimal digits alone.
pub open spec fn lower_hex(s: Seq<char>) -> bool {
    forall|i: int|
        0 <= i < s.len() ==> ('0' <= #[trigger] s[i] <= '9') || ('a' <= s[i] <= 'f')
}

proof fn lemma_hex_char(d: nat)
    requires
        d < 16,
    ensures
        ('0' <= hex_char(d) <= '9') || ('a' <= hex_char(d) <= 'f'),
        is_hex(hex_char(d)),
        hex_digit_value(hex_char(d)) == d,
{
}

/// Bytes are written in lower-case digits.
#[verifier::spinoff_prover]
pub proof fn lemma_hex_is_lower(bytes: Seq<u8>)
    ensures
        lower_hex(hex_text(bytes)),
{
    let s = hex_text(bytes);
    assert forall|i: int| 0 <= i < s.len() implies ('0' <= #[trigger] s[i] <= '9') || ('a' <= s[i]
        <= 'f') by {
        lemma_hex_char((bytes[i / 2] / 16) as nat);
        lemma_hex_char((bytes[i / 2] % 16) as nat);
    }
}

/// The case of the digits does not matter to the bytes that they give.
#[verifier::spinoff_prover]
pub proof fn hex_case_does_not_matter(s: Seq<char>)
    ensures
        hex_bytes(lowered(s)) == hex_bytes(s),
{
    let t = lowered(s);
    assert forall|i: int| 0 <= i < s.len() implies is_hex(#[trigger] t[i]) == is_hex(s[i]) by {
    }
    assert(all_hex(t) == all_hex(s)) by {
        if all_hex(t) {
            assert forall|i: int| 0 <= i < s.len() implies is_hex(#[trigger] s[i]) by {
                assert(is_hex(t[i]));
            }
        }
    }
    if hex_bytes(s) is Some {
        let (a, b) = (hex_bytes(s)->0, hex_bytes(t)->0);
        assert forall|i: int| 0 <= i < a.len() implies a[i] == b[i] by {
            assert(is_hex(s[2 * i]) && is_hex(s[2 * i + 1]));
        }
        assert(a =~= b);
    }
}

/// Reading hexadecimal text gives back the bytes that were written.
#[verifier::spinoff_prover]
pub proof fn hex_reads_back(bytes: Seq<u8>)
    ensures
        all_hex(hex_text(bytes)),
        hex_bytes(hex_text(bytes)) == Some(bytes),
{
    let s = hex_text(bytes);
    assert forall|i: int| 0 <= i < s.len() implies is_hex(#[trigger] s[i]) by {
        lemma_hex_char((bytes[i / 2] / 16) as nat);
        lemma_hex_char((bytes[i / 2] % 16) as nat);
    }
    let back = hex_bytes(s).unwrap();
    assert forall|i: int| 0 <= i < bytes.len() implies back[i] == bytes[i] by {
        assert(s[2 * i] == hex_char((bytes[i] / 16) as nat));
        assert(s[2 * i + 1] == hex_char((bytes[i] % 16) as nat));
        lemma_hex_char((bytes[i] / 16) as nat);
        lemma_hex_char((bytes[i] % 16) as nat);
    }
    assert(back =~= bytes);
}

/// Texts of different bytes differ.
pub proof fn hex_is_injective(a: Seq<u8>, b: Seq<u8>)
    requires
        hex_text(a) == hex_text(b),
    ensures
        a == b,
{
    hex_reads_back(a);
    hex_reads_back(b);
}

pub(crate) fn hex_digit(d: u8) -> (c: char)
    requires
        d < 16,
    ensures
        c == hex_char(d as nat),
{
    match d {
        0 => '0', 1 => '1', 2 => '2', 3 => '3', 4 => '4', 5 => '5', 6 => '6', 7 => '7',
        8 => '8', 9 => '9', 10 => 'a', 11 => 'b', 12 => 'c', 13 => 'd', 14 => 'e', _ => 'f',
    }
}

/// The value of a hexadecimal digit, if the character is one.
pub fn hex_value(c: char) -> (v: Option<u8>)
    ensures
        v is Some == is_hex(c),
        v matches Some(d) ==> d == hex_digit_value(c) && d < 16,
{
    if '0' <= c && c <= '9' {
        Some((c as u32 - '0' as u32) as u8)
    } else if 'a' <= c && c <= 'f' {
        Some((c as u32 - 'a' as u32 + 10) as u8)
    } else if 'A' <= c && c <= 'F' {
        Some((c as u32 - 'A' as u32 + 10) as u8)
    } else {
        None
    }
}

/// The bytes in hexadecimal.
pub fn to_hex(bytes: &[u8]) -> (s: String)
    ensures
        s@ == hex_text(bytes@),
{
    let mut s = String::new();
    let mut i: usize = 0;
    while i < bytes.len()
        invariant
            i <= bytes@.len(),
            s@ == hex_text(bytes@.take(i as int)),
        decreases bytes@.len() - i,
    {
        s.push(hex_digit(bytes[i] / 16));
        s.push(hex_digit(bytes[i] % 16));
        i += 1;
        assert(s@ =~= hex_text(bytes@.take(i as int)));
    }
    assert(bytes@.take(i as int) =~= bytes@);
    s
}

/// The bytes that a hexadecimal text writes.
pub fn from_hex(s: &str) -> (r: Option<Vec<u8>>)
    ensures
        r is Some == hex_bytes(s@) is Some,
        r matches Some(v) ==> hex_bytes(s@) == Some(v@),
{
    let v = chars_of(s);
    if v.len() % 2 != 0 {
        return None;
    }
    let mut out: Vec<u8> = Vec::new();
    let mut i: usize = 0;
    while i < v.len()
        invariant
            v@ == s@,
            v@.len() % 2 == 0,
            i % 2 == 0,
            i <= v@.len(),
            out@.len() == i / 2,
            forall|k: int| 0 <= k < i ==> is_hex(#[trigger] v@[k]),
            forall|k: int|
                0 <= k < i / 2 ==> #[trigger] out@[k] == (16 * hex_digit_value(v@[2 * k])
                    + hex_digit_value(v@[2 * k + 1])) as u8,
        decreases v@.len() - i,
    {
        match (hex_value(v[i]), hex_value(v[i + 1])) {
            (Some(hi), Some(lo)) => {
                out.push(16 * hi + lo);
            },
            _ => {
                return None;
            },
        }
        i += 2;
    }
    assert(out@ =~= hex_bytes(s@).unwrap());
    Some(out)
}

/// A fresh token: 32 random bytes in hexadecimal.
pub fn generate() -> (s: String)
    ensures
        s@.len() == 2 * TOKEN_LEN_BYTES,
        all_hex(s@),
        exists|bytes: Seq<u8>| bytes.len() == TOKEN_LEN_BYTES && s@ == hex_text(bytes),
{
    let bytes = random_bytes(TOKEN_LEN_BYTES);
    proof {
        hex_reads_back(bytes@);
    }
    to_hex(&bytes)
}

/// What the host stores in place of a token: the hexadecimal SHA-256 digest of
/// the token's text.
pub open spec fn token_digest(token_hex: Seq<char>) -> Seq<char> {
    hex_text(sha256(encode_utf8(token_hex)))
}

/// The digest of a token, in hexadecimal.
pub fn hash_token(token_hex: &str) -> (s: String)
    requires
        token_hex.spec_bytes().len() < MESSAGE_LIMIT,
    ensures
        s@ == token_digest(token_hex@),
        s@.len() == 64,
{
    let mut h = hasher_new();
    hasher_update(&mut h, token_hex.as_bytes());
    assert(Seq::<u8>::empty() + token_hex.spec_bytes() =~= token_hex.spec_bytes());
    let d = hasher_finalize(h);
    to_hex(&d)
}

// ---------------------------------------------------------------- places

/// A place below a directory: the names on the way to it.
pub struct StatePath {
    pub parts: Vec<String>,
}

impl View for StatePath {
    type V = Seq<Seq<char>>;

    open spec fn view(&self) -> Seq<Seq<char>> {
        texts(self.parts@)
    }
}

impl StatePath {
    /// The last name on the way.
    pub fn file_name(&self) -> (r: Option<&str>)
        ensures
            r is Some == (self@.len() > 0),
            r matches Some(s) ==> s@ == self@.last(),
    {
        if self.parts.len() == 0 {
            None
        } else {
            Some(self.parts[self.parts.len() - 1].as_str())
        }
    }
}

/// A place one name away.
pub(crate) fn place1(a: &str) -> (p: StatePath)
    ensures
        p@ == seq![a@],
{
    let mut parts: Vec<String> = Vec::new();
    parts.push(String::from_str(a));
    let p = StatePath { parts };
    assert(p@ =~= seq![a@]);
    p
}

/// A place two names away.
pub(crate) fn place2(a: &str, b: &str) -> (p: StatePath)
    ensures
        p@ == seq![a@, b@],
{
    let mut parts: Vec<String> = Vec::new();
    parts.push(String::from_str(a));
    parts.push(String::from_str(b));
    let p = StatePath { parts };
    assert(p@ =~= seq![a@, b@]);
    p
}

/// The root of all local state. `PYIELINK_HOME` names it where it is set and
/// not empty; else it is `.pyielink` in the user's home, which is
/// `USERPROFILE`, or `HOME`, or the current directory.
pub fn pyielink_dir(
    pyielink_home: Option<String>,
    userprofile: Option<String>,
    home: Option<String>,
) -> (p: StatePath)
    ensures
        p@ == (if pyielink_home is Some && pyielink_home->0@.len() > 0 {
            seq![pyielink_home->0@]
        } else if userprofile is Some {
            seq![userprofile->0@, ".pyielink"@]
        } else if home is Some {
            seq![home->0@, ".pyielink"@]
        } else {
            seq!["."@, ".pyielink"@]
        }),
{
    if let Some(p) = pyielink_home {
        if !p.as_str().is_empty() {
            return place1(&p);
        }
    }
    if let Some(p) = userprofile {
        return place2(&p, ".pyielink");
    }
    if let Some(p) = home {
        return place2(&p, ".pyielink");
    }
    place2(".", ".pyielink")
}

/// Where client tokens are kept, below the root of local state.
pub fn tokens_dir() -> (p: StatePath)
    ensures
        p@ == seq!["tokens"@],
{
    place1("tokens")
}

/// The characters that stay as they are in the name of a token file.
pub open spec fn is_plain(c: char) -> bool {
    ('0' <= c <= '9') || ('a' <= c <= 'z') || ('A' <= c <= 'Z') || c == '@' || c == '.' || c == '-'
        || c == '_'
}

/// A text with every character that is not plain replaced by `_`.
pub open spec fn sanitized(s: Seq<char>) -> Seq<char> {
    s.map_values(|c: char| if is_plain(c) { c } else { '_' })
}

/// The text with every character that may not stand in a file name replaced.
pub fn sanitize(s: &str) -> (r: String)
    ensures
        r@ == sanitized(s@),
{
    let v = chars_of(s);
    let mut r = String::new();
    let mut i: usize = 0;
    while i < v.len()
        invariant
            v@ == s@,
            i <= v@.len(),
            r@ == sanitized(v@.take(i as int)),
        decreases v@.len() - i,
    {
        let c = v[i];
        if ('0' <= c && c <= '9') || ('a' <= c && c <= 'z') || ('A' <= c && c <= 'Z') || c == '@'
            || c == '.' || c == '-' || c == '_' {
            r.push(c);
        } else {
            r.push('_');
        }
        i += 1;
        assert(r@ =~= sanitized(v@.take(i as int)));
    }
    assert(v@.take(i as int) =~= v@);
    r
}

/// The name of the file with the token for `user` on the device at `ip`.
pub open spec fn token_file(user: Seq<char>, ip: Seq<char>) -> Seq<char> {
    sanitized(user) + "@"@ + sanitized(ip)
}

/// Where the token for `user` on the device at `ip` is kept, below the root of
/// local state.
pub fn client_token_path(user: &str, ip: &str) -> (p: StatePath)
    ensures
        p@ == seq!["tokens"@, token_file(user@, ip@)],
{
    let u = sanitize(user);
    let i = sanitize(ip);
    let name = cat3(&u, "@", &i);
    place2("tokens", &name)
}

/// Whatever the user name and the address hold, the name of a token file has
/// plain characters alone: no separator of directories stands in it.
pub proof fn token_file_is_plain(user: Seq<char>, ip: Seq<char>)
    ensures
        forall|i: int|
            0 <= i < token_file(user, ip).len() ==> is_plain(#[trigger] token_file(user, ip)[i]),
        token_file(user, ip).contains('@'),
        !token_file(user, ip).contains('/'),
        !token_file(user, ip).contains('\\'),
{
    reveal_strlit("@");
    let f = token_file(user, ip);
    assert(f[user.len() as int] == '@');
    assert forall|i: int| 0 <= i < f.len() implies is_plain(#[trigger] f[i]) by {
    }
}

/// The name under which a file is written before it takes its own name: its
/// extension, if it has one, gives way to `tmp`.
pub open spec fn temp_name_of(name: Seq<char>) -> Seq<char> {
    match cut_last(name, '.') {
        Some((stem, ext)) => if stem.len() > 0 { stem + ".tmp"@ } else { name + ".tmp"@ },
        None => name + ".tmp"@,
    }
}

/// The name under which the file `name` is written before it is renamed.
pub fn temp_name(name: &str) -> (r: String)
    ensures
        r@ == temp_name_of(name@),
{
    match rsplit_once(name, '.') {
        Some((stem, _)) => if stem.as_str().is_empty() { cat2(name, ".tmp") } else { cat2(&stem, ".tmp") },
        None => cat2(name, ".tmp"),
    }
}

// ---------------------------------------------------------------- records

/// What a client keeps of a token.
#[derive(Debug)]
pub struct TokenRecord {
    pub token_hash: String,
    pub created_at: u64,
    pub last_used_at: u64,
    pub user: String,
    pub ip: String,
}

impl Clone for TokenRecord {
    fn clone(&self) -> (r: Self)
        ensures
            r == *self,
    {
        TokenRecord {
            token_hash: self.token_hash.clone(),
            created_at: self.created_at,
            last_used_at: self.last_used_at,
            user: self.user.clone(),
            ip: self.ip.clone(),
        }
    }
}

impl TokenRecord {
    /// A record of a token, created and last used at the given second.
    pub fn issued(user: String, ip: String, token_hash: String, now: u64) -> (r: Self)
        ensures
            r == (TokenRecord { token_hash, created_at: now, last_used_at: now, user, ip }),
    {
        TokenRecord { token_hash, created_at: now, last_used_at: now, user, ip }
    }

    /// A record of a token, created and last used now.
    pub fn new(user: String, ip: String, token_hash: String) -> (r: Self)
        ensures
            r.user == user,
            r.ip == ip,
            r.token_hash == token_hash,
            r.created_at == r.last_used_at,
    {
        let now: u64 = now_secs();
        TokenRecord::issued(user, ip, token_hash, now)
    }
}

/// What a client keeps of a token.
pub struct TokenView {
    pub token_hash: Seq<char>,
    pub created_at: u64,
    pub last_used_at: u64,
    pub user: Seq<char>,
    pub ip: Seq<char>,
}

impl View for TokenRecord {
    type V = TokenView;

    open spec fn view(&self) -> TokenView {
        TokenView {
            token_hash: self.token_hash@,
            created_at: self.created_at,
            last_used_at: self.last_used_at,
            user: self.user@,
            ip: self.ip@,
        }
    }
}

/// The record of a token that is saved at a second.
pub open spec fn saved_token(
    user: Seq<char>,
    ip: Seq<char>,
    token_hash: Seq<char>,
    now: u64,
) -> TokenView {
    TokenView { token_hash, created_at: now, last_used_at: now, user, ip }
}

/// The place and the record that are written when a token is saved.
pub fn save_client_token(user: &str, ip: &str, token_hash: &str, now: u64) -> (r: (
    StatePath,
    TokenRecord,
))
    ensures
        r.0@ == seq!["tokens"@, token_file(user@, ip@)],
        r.1@ == saved_token(user@, ip@, token_hash@, now),
{
    let record = TokenRecord::issued(
        String::from_str(user),
        String::from_str(ip),
        String::from_str(token_hash),
        now,
    );
    (client_token_path(user, ip), record)
}

/// A token found in a token file: the record that is written back, and where.
pub struct FoundToken {
    pub path: StatePath,
    pub record: TokenRecord,
}

/// What a token file without a record holds, if it is a bare hash.
pub open spec fn bare_hash(content: Seq<char>) -> Option<Seq<char>> {
    let t = trimmed(content);
    if t.len() == 64 && all_hex(t) { Some(t) } else { None }
}

/// The record that a token file holds after it was read at a second: a record
/// is last used then, and stays as it is otherwise; a bare hash becomes a
/// record.
pub open spec fn loaded_token(
    user: Seq<char>,
    ip: Seq<char>,
    content: Seq<char>,
    record: Option<TokenView>,
    now: u64,
) -> Option<TokenView> {
    match record {
        Some(rec) => Some(TokenView { last_used_at: now, ..rec }),
        None => match bare_hash(content) {
            Some(h) => Some(saved_token(user, ip, h, now)),
            None => None,
        },
    }
}

/// A record as its view, where there is one.
pub open spec fn record_opt(r: Option<TokenRecord>) -> Option<TokenView> {
    match r {
        Some(rec) => Some(rec@),
        None => None,
    }
}

/// The token in a file's content, read at the second `now`. A file that parsed
/// as a record gives the record, last used now, to be written back where it
/// belongs. A file with 64 hexadecimal digits alone gives a new record of these,
/// for the user and address asked for.
pub fn load_client_token(
    user: &str,
    ip: &str,
    content: &str,
    record: Option<TokenRecord>,
    now: u64,
) -> (r: Option<FoundToken>)
    ensures
        r is Some == loaded_token(user@, ip@, content@, record_opt(record), now) is Some,
        r matches Some(f) ==> loaded_token(user@, ip@, content@, record_opt(record), now) == Some(
            f.record@,
        ),
        r matches Some(f) ==> f.path@ == seq![
            "tokens"@,
            token_file(f.record@.user, f.record@.ip),
        ],
        record matches Some(rec) ==> r is Some && r->0.record == (TokenRecord {
            last_used_at: now,
            ..rec
        }),
{
    if let Some(rec) = record {
        let path = client_token_path(&rec.user, &rec.ip);
        return Some(FoundToken { path, record: TokenRecord { last_used_at: now, ..rec } });
    }
    let t = trim(content);
    if is_hex_of_len(&t, 64) {
        let (path, record) = save_client_token(user, ip, &t, now);
        Some(FoundToken { path, record })
    } else {
        None
    }
}

/// A token that was saved is found again however often it is looked for: its
/// hash and the second at which it was saved stay, and the second of its last
/// use is that of the last look.
pub proof fn saved_token_is_found(
    user: Seq<char>,
    ip: Seq<char>,
    token_hash: Seq<char>,
    saved: u64,
    once: u64,
    again: u64,
    content: Seq<char>,
)
    ensures
        ({
            let first = loaded_token(
                user,
                ip,
                content,
                Some(saved_token(user, ip, token_hash, saved)),
                once,
            );
            let second = loaded_token(user, ip, content, first, again);
            &&& second == Some(
                TokenView { last_used_at: again, ..saved_token(user, ip, token_hash, saved) },
            )
        }),
{
}

/// Whether the text is made of exactly `n` hexadecimal digits.
pub fn is_hex_of_len(s: &str, n: usize) -> (r: bool)
    ensures
        r == (s@.len() == n && all_hex(s@)),
{
    let v = chars_of(s);
    if v.len() != n {
        return false;
    }
    let mut i: usize = 0;
    while i < v.len()
        invariant
            v@ == s@,
            i <= v@.len(),
            forall|k: int| 0 <= k < i ==> is_hex(#[trigger] v@[k]),
        decreases v@.len() - i,
    {
        if hex_value(v[i]).is_none() {
            return false;
        }
        i += 1;
    }
    true
}

/// A token is the one whose hash is stored.
pub open spec fn is_verified(stored_hash: Option<Seq<char>>, token: Seq<char>) -> bool {
    stored_hash == Some(token_digest(token))
}

/// Of what was saved of a token, exactly the texts with its hash verify, the
/// token among them; where nothing is stored, none does.
pub proof fn saved_token_verifies(
    user: Seq<char>,
    ip: Seq<char>,
    token: Seq<char>,
    given: Seq<char>,
    saved: u64,
    now: u64,
    content: Seq<char>,
)
    ensures
        ({
            let kept = saved_token(user, ip, token_digest(token), saved);
            let found = loaded_token(user, ip, content, Some(kept), now);
            &&& found is Some
            &&& is_verified(Some(found->0.token_hash), given) == (token_digest(given)
                == token_digest(token))
            &&& is_verified(Some(found->0.token_hash), token)
        }),
        !is_verified(None, given),
{
}

/// Whether a token is the one whose hash is stored.
pub fn verify_token(stored_hash: Option<&str>, token: &str) -> (r: bool)
    requires
        token.spec_bytes().len() < MESSAGE_LIMIT,
    ensures
        r == is_verified(text_opt(stored_hash), token@),
{
    match stored_hash {
        Some(h) => {
            let provided = hash_token(token);
            same(h, &provided)
        },
        None => false,
    }
}

/// The records among what the token files parsed as, in the order of the files.
pub open spec fn kept_records(parsed: Seq<Option<TokenRecord>>) -> Seq<TokenRecord>
    decreases parsed.len(),
{
    if parsed.len() == 0 {
        Seq::empty()
    } else {
        match parsed.last() {
            Some(r) => kept_records(parsed.drop_last()).push(r),
            None => kept_records(parsed.drop_last()),
        }
    }
}

/// The records among what the token files parsed as: files without a record
/// are passed over.
pub fn list_client_tokens(parsed: Vec<Option<TokenRecord>>) -> (r: Vec<TokenRecord>)
    ensures
        r@ == kept_records(parsed@),
{
    let ghost all = parsed@;
    let mut out: Vec<TokenRecord> = Vec::new();
    for p in it: parsed
        invariant
            it.seq() == all,
            out@ == kept_records(all.take(it.index())),
    {
        let ghost i = it.index();
        assert(all.take(i + 1).drop_last() =~= all.take(i));
        if let Some(r) = p {
            out.push(r);
        }
    }
    assert(all.take(all.len() as int) =~= all);
    out
}

} // verus!
