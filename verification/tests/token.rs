use pyielink::clock::{ms_of, now_ms, now_secs, secs_of};
use pyielink::token::{
    client_token_path, from_hex, generate, hash_token, list_client_tokens, load_client_token,
    pyielink_dir, sanitize, save_client_token, temp_name, to_hex, tokens_dir, verify_token,
    TokenRecord,
};
use std::time::{Duration, SystemTime, UNIX_EPOCH};

fn check_hex_round_trip() {
    let bytes: Vec<u8> = (0u8..=255).cycle().take(64).collect();
    assert_eq!(from_hex(&to_hex(&bytes)).unwrap(), bytes);
}

fn check_rejects_bad_hex() {
    assert!(from_hex("abc").is_none());
    assert!(from_hex("zz").is_none());
    assert!(from_hex("").is_some());
}

fn check_token_is_64_hex_chars() {
    let t = generate();
    assert_eq!(t.len(), 64);
    assert!(from_hex(&t).is_some());
}

fn check_token_hash() {
    assert_eq!(hash_token("ab"), hash_token("ab"));
    assert_ne!(hash_token("ab"), hash_token("cd"));
    assert_eq!(hash_token("ab").len(), 64);
}

fn check_sanitizes() {
    assert_eq!(
        client_token_path("../x", "::1").file_name().unwrap(),
        ".._x@__1"
    );
}

#[test]
fn hex_round_trip() {
    let bytes: Vec<u8> = (0u8..=255).cycle().take(64).collect();
    assert_eq!(from_hex(&to_hex(&bytes)).unwrap(), bytes);
}

#[test]
fn token_hex_round_trip() {
    check_hex_round_trip();
}

#[test]
fn rejects_bad_hex() {
    assert!(from_hex("abc").is_none());
    assert!(from_hex("zz").is_none());
    assert!(from_hex("").is_some());
}

#[test]
fn token_rejects_bad_hex() {
    check_rejects_bad_hex();
}

#[test]
fn token_is_64_hex_chars() {
    let t = generate();
    assert_eq!(t.len(), 64);
    assert!(from_hex(&t).is_some());
}

#[test]
fn token_token_is_64_hex_chars() {
    check_token_is_64_hex_chars();
}

#[test]
fn token_hash_is_deterministic_32_bytes() {
    assert_eq!(hash_token("ab"), hash_token("ab"));
    assert_ne!(hash_token("ab"), hash_token("cd"));
    assert_eq!(hash_token("ab").len(), 64);
}

#[test]
fn token_token_hash_is_deterministic_32_bytes() {
    check_token_hash();
}

#[test]
fn sanitizes_hostile_names() {
    assert_eq!(
        client_token_path("../x", "::1").file_name().unwrap(),
        ".._x@__1"
    );
}

#[test]
fn token_sanitizes_hostile_names() {
    check_sanitizes();
}

#[test]
fn hex_text_is_exact() {
    assert_eq!(to_hex(&[0, 15, 16, 171, 255]), "000f10abff");
    assert_eq!(from_hex("000F10aBfF").unwrap(), [0, 15, 16, 171, 255]);
    assert!(from_hex("é0").is_none());
    assert!(from_hex("+1").is_none());
}

#[test]
fn token_hash_is_sha256() {
    assert_eq!(
        hash_token("abc"),
        "ba7816bf8f01cfea414140de5dae2223b00361a396177a9cb410ff61f20015ad"
    );
    assert_ne!(generate(), generate());
}

#[test]
fn state_root_follows_the_environment() {
    let s = |t: &str| Some(t.to_string());
    assert_eq!(pyielink_dir(s("/data"), s("/u"), s("/h")).parts, ["/data"]);
    assert_eq!(pyielink_dir(s(""), s("/u"), s("/h")).parts, ["/u", ".pyielink"]);
    assert_eq!(pyielink_dir(None, None, s("/h")).parts, ["/h", ".pyielink"]);
    assert_eq!(pyielink_dir(None, None, None).parts, [".", ".pyielink"]);
    assert_eq!(tokens_dir().parts, ["tokens"]);
}

#[test]
fn token_files_have_plain_names() {
    assert_eq!(sanitize("a/b\\c d:é"), "a_b_c_d__");
    assert_eq!(client_token_path("bob", "10.0.0.1").parts, ["tokens", "bob@10.0.0.1"]);
    // the extension gives way to `tmp`
    assert_eq!(temp_name("host_state.json"), "host_state.tmp");
    assert_eq!(temp_name("bob@10.0.0.1"), "bob@10.0.0.tmp");
    assert_eq!(temp_name("bob@host"), "bob@host.tmp");
    assert_eq!(temp_name(".hidden"), ".hidden.tmp");
}

#[test]
fn token_records_are_loaded() {
    let (path, rec) = save_client_token("bob", "1.2.3.4", "aa", 77);
    assert_eq!(path.file_name().unwrap(), "bob@1.2.3.4");
    assert_eq!((rec.created_at, rec.last_used_at), (77, 77));
    // a load notes the last use, and nothing else
    let found = load_client_token("x", "y", "{...}", Some(rec.clone()), 99).unwrap();
    assert_eq!(found.path.parts, ["tokens", "bob@1.2.3.4"]);
    let r = &found.record;
    assert_eq!((r.user.as_str(), r.ip.as_str(), r.token_hash.as_str()), ("bob", "1.2.3.4", "aa"));
    assert_eq!((r.created_at, r.last_used_at), (77, 99));
    let again = load_client_token("x", "y", "{...}", Some(found.record), 120).unwrap().record;
    assert_eq!((again.created_at, again.last_used_at), (77, 120));
    // a bare hash, as older clients wrote it
    let hash = "A1".repeat(32);
    let found = load_client_token("eve", "::1", &format!(" {}\n", hash), None, 5).unwrap();
    assert_eq!(found.path.parts, ["tokens", "eve@__1"]);
    let r = found.record;
    assert_eq!((r.user, r.ip, r.token_hash), ("eve".into(), "::1".into(), hash));
    assert_eq!((r.created_at, r.last_used_at), (5, 5));
    assert!(load_client_token("eve", "::1", "a1b2", None, 5).is_none());
    assert!(load_client_token("eve", "::1", &"g1".repeat(32), None, 5).is_none());
    assert!(load_client_token("eve", "::1", "", None, 5).is_none());
    let listed = list_client_tokens(vec![None, Some(rec), None]);
    assert_eq!(listed.len(), 1);
    assert_eq!(listed[0].user, "bob");
}

#[test]
fn token_records_carry_the_time() {
    let before = now_secs();
    let rec = TokenRecord::new("u".into(), "i".into(), "h".into());
    assert!(rec.created_at >= before);
    assert_eq!(rec.created_at, rec.last_used_at);
    assert_eq!((rec.user.as_str(), rec.ip.as_str(), rec.token_hash.as_str()), ("u", "i", "h"));
}

#[test]
fn tokens_are_verified_by_hash() {
    let t = generate();
    assert!(verify_token(Some(&hash_token(&t)), &t));
    assert!(!verify_token(Some(&hash_token(&t)), "other"));
    assert!(!verify_token(None, &t));
    let (_, rec) = save_client_token("u", "i", &hash_token(&t), 1);
    let kept = load_client_token("u", "i", "", Some(rec), 2).unwrap().record.token_hash;
    assert!(verify_token(Some(&kept), &t));
    assert!(!verify_token(Some(&kept), "t"));
}

#[test]
fn moments_are_counted_from_the_epoch() {
    let since = Some(Duration::new(12, 345_999_999));
    assert_eq!((secs_of(since), ms_of(since)), (12, 12_345));
    assert_eq!((secs_of(None), ms_of(None)), (0, 0));
    let before = SystemTime::now().duration_since(UNIX_EPOCH).unwrap();
    let (secs, ms) = (now_secs(), now_ms());
    let after = SystemTime::now().duration_since(UNIX_EPOCH).unwrap();
    assert!(before.as_secs() <= secs && secs <= after.as_secs());
    assert!(before.as_millis() <= ms && ms <= after.as_millis());
}

#[test]
fn hex_is_read_in_either_case() {
    for text in ["00ff", "DEADbeef", "zz", "abc", ""] {
        assert_eq!(from_hex(text), from_hex(&text.to_lowercase()));
    }
}
