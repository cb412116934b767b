use pyielink::accounts::{HostState, UserRecord, Users};
use pyielink::creds::{
    add_to_whitelist, add_user, add_user_with_salt, check_new_user, cmd_enable,
    cmd_enable_with_flags, compute_proof, hash_password, is_sealed, key_path, load_state,
    master_key, new_nonce, new_salt, normalize_role, prompt_new_password, read_line_prompt,
    read_masked, read_masked_tty, remove_from_whitelist, save_state, seal_state, seal_with,
    is_interactive, masked_text, state_path, stdin_is_tty, unseal_state, validate_username, verify_proof, MaskedKey, MasterKey, ENC_MAGIC,
};
use pyielink::state_file::{parse_state, render_state};
use pyielink::token::{from_hex, hash_token, to_hex};
use sha2::{Digest, Sha256};

fn key() -> Vec<u8> {
    (0u8..32).collect()
}

fn with_bob() -> HostState {
    let mut state = HostState::default();
    add_user_with_salt(&mut state, "bob", "admin", "hunter2", "aabb".to_string()).unwrap();
    state
}

#[test]
fn username_rules() {
    assert!(validate_username("bob_01").is_ok());
    assert!(validate_username("a").is_ok());
    assert!(validate_username("").is_err());
    assert!(validate_username("has space").is_err());
    assert!(validate_username("bad@at").is_err());
    assert!(validate_username(&"x".repeat(33)).is_err());
}

#[test]
fn username_refusals_are_told_apart() {
    assert_eq!(validate_username("").unwrap_err(), "username must be 1-32 characters");
    assert_eq!(
        validate_username("a b").unwrap_err(),
        "username may only contain letters, digits, '_', '.', '-'"
    );
    assert!(validate_username(&"x".repeat(32)).is_ok());
    // sixteen characters of two bytes fit, seventeen do not
    assert_eq!(
        validate_username(&"é".repeat(16)).unwrap_err(),
        "username may only contain letters, digits, '_', '.', '-'"
    );
    assert_eq!(
        validate_username(&"é".repeat(17)).unwrap_err(),
        "username must be 1-32 characters"
    );
}

#[test]
fn password_hash_round_trip() {
    let salt = new_salt();
    let h = hash_password(&salt, "hunter2");
    assert_eq!(h.len(), 64);
    // same password + same salt must derive the identical stored secret
    assert_eq!(hash_password(&salt, "hunter2"), h);
    assert_ne!(hash_password(&salt, "hunter3"), h);
}

#[test]
fn unique_salts_change_hash() {
    let h1 = hash_password(&new_salt(), "same");
    let h2 = hash_password(&new_salt(), "same");
    assert_ne!(h1, h2);
}

#[test]
fn password_hash_is_iterated() {
    let salt = from_hex("00ff10").unwrap();
    let mut h = Sha256::new();
    h.update(&salt);
    h.update(b"secret");
    let mut acc = h.finalize();
    for _ in 1..4096 {
        let mut r = Sha256::new();
        r.update(acc);
        r.update(&salt);
        acc = r.finalize();
    }
    assert_eq!(hash_password("00ff10", "secret"), to_hex(&acc));
    // a salt that is no hexadecimal text counts as none
    assert_eq!(hash_password("xyz", "secret"), hash_password("", "secret"));
}

#[test]
fn proof_symmetry() {
    let secret = "aabbccdd";
    let nonce = new_nonce();
    assert_eq!(compute_proof(secret, &nonce), compute_proof(secret, &nonce));
    assert!(verify_proof(secret, &nonce, &compute_proof(secret, &nonce)));
    assert!(!verify_proof(secret, &nonce, &compute_proof(secret, "other")));
    assert!(!verify_proof("0000", &nonce, &compute_proof(secret, &nonce)));
}

#[test]
fn proof_rejects_malformed() {
    let nonce = new_nonce();
    assert!(!verify_proof("", &nonce, &"a".repeat(64)));
    assert!(!verify_proof("aa", &nonce, "short"));
    assert!(!verify_proof("aa", &nonce, &"z".repeat(64)));
    // empty nonce must never verify
    assert!(!verify_proof("aa", "", &compute_proof("aa", "")));
}

#[test]
fn proof_is_the_digest_of_secret_and_nonce() {
    // SHA-256 of "abc"
    assert_eq!(
        compute_proof("ab", "c"),
        "ba7816bf8f01cfea414140de5dae2223b00361a396177a9cb410ff61f20015ad"
    );
    // the same proof in upper case is not accepted
    assert!(!verify_proof("ab", "c", &compute_proof("ab", "c").to_uppercase()));
}

#[test]
fn json_round_trip() {
    let mut state = HostState { enabled: true, users: Users::new(), ..HostState::default() };
    state.users.insert(
        "bob".into(),
        UserRecord {
            pw_salt: "aabb".into(),
            pw_hash: "ccdd".into(),
            licensed: true,
            token_hash: "eeff".into(),
            role: "user".into(),
        },
    );
    state.users.insert("alice".into(), UserRecord::default());
    let rendered = render_state(&state);
    let parsed = parse_state(&rendered).unwrap();
    assert_eq!(parsed.enabled, true);
    assert_eq!(parsed.users.len(), 2);
    assert_eq!(parsed.users.get("bob").unwrap().pw_hash, "ccdd");
    assert_eq!(parsed.users.get("bob").unwrap().licensed, true);
    assert_eq!(parsed.users.get("bob").unwrap().token_hash, "eeff");
    assert_eq!(parsed.users.get("alice").unwrap().licensed, false);
}

#[test]
fn parses_empty_users_and_defaults() {
    let parsed = parse_state("{ \"enabled\": false, \"users\": {} }").unwrap();
    assert!(!parsed.enabled);
    assert!(parsed.users.is_empty());
    assert!(parse_state("garbage").is_none());
}

#[test]
fn role_render_parse_round_trip() {
    let mut state = HostState::default();
    state.users.insert(
        "rooty".into(),
        UserRecord {
            role: "admin".into(),
            pw_salt: "aa".into(),
            pw_hash: "bb".into(),
            ..Default::default()
        },
    );
    state.users.insert("plain".into(), UserRecord::default());
    let parsed = parse_state(&render_state(&state)).unwrap();
    assert!(parsed.users.get("rooty").unwrap().is_admin());
    assert!(!parsed.users.get("plain").unwrap().is_admin());
    // legacy file without role field still parses, defaults to user
    let legacy = "{ \"enabled\": false, \"users\": { \"old\": { \"pw_salt\": \"s\", \"pw_hash\": \"h\", \"licensed\": false, \"token_hash\": \"\" } } }";
    let p2 = parse_state(legacy).unwrap();
    assert!(!p2.users.get("old").unwrap().is_admin());
}

#[test]
fn state_text_is_exact() {
    let mut state = HostState {
        enabled: true,
        allow_all_ips: false,
        ip_whitelist: vec!["10.0.0.1".to_string(), "10.0.0.2".to_string()],
        ..HostState::default()
    };
    state.users.insert("zoe".into(), UserRecord::default());
    state.users.insert("amy".into(), UserRecord { role: "admin".into(), ..Default::default() });
    assert_eq!(
        render_state(&state),
        "{\n  \"enabled\": true,\n  \"allow_all_ips\": false,\n  \"ip_whitelist\": [\"10.0.0.1\", \"10.0.0.2\"],\n  \"users\": {\n    \"amy\": { \"pw_salt\": \"\", \"pw_hash\": \"\", \"licensed\": false, \"token_hash\": \"\", \"role\": \"admin\" },\n    \"zoe\": { \"pw_salt\": \"\", \"pw_hash\": \"\", \"licensed\": false, \"token_hash\": \"\", \"role\": \"user\" }\n  }\n}\n"
    );
    assert_eq!(
        render_state(&HostState::default()),
        "{\n  \"enabled\": false,\n  \"allow_all_ips\": false,\n  \"ip_whitelist\": [],\n  \"users\": {\n  }\n}\n"
    );
}

#[test]
fn state_parser_edges() {
    // unknown fields are passed over, up to the next comma or brace
    let p = parse_state("{ \"later\": 7, \"enabled\": true, \"users\": { \"a\": { \"x\": \"y\", \"licensed\": true } } }")
        .unwrap();
    assert!(p.enabled);
    assert!(p.users.get("a").unwrap().licensed);
    // a missing role reads as none
    let q = parse_state("{ \"users\": { \"a\": { \"role\": , \"pw_salt\": \"s\" } } }").unwrap();
    assert_eq!(q.users.get("a").unwrap().role, "");
    assert_eq!(q.users.get("a").unwrap().pw_salt, "s");
    // a name that comes twice keeps the last record
    let d = parse_state("{\"users\":{\"a\":{\"pw_salt\":\"1\"},\"a\":{\"pw_salt\":\"2\"}}}").unwrap();
    assert_eq!(d.users.len(), 1);
    assert_eq!(d.users.get("a").unwrap().pw_salt, "2");
    // what follows the closing brace is ignored
    assert!(parse_state("{} trailing").is_some());
    assert!(parse_state("{ \"enabled\": maybe }").is_none());
    assert!(parse_state("{ \"enabled\"").is_none());
    assert!(parse_state("{ \"ip_whitelist\": [ 7 ] }").is_none());
    assert!(parse_state("{ \"users\": { \"a\" } }").is_none());
    assert!(parse_state("").is_none());
}

#[test]
fn accounts_are_kept_in_order() {
    let mut users = Users::new();
    for name in ["mid", "zed", "abe", "mid2"] {
        users.insert(name.to_string(), UserRecord::default());
    }
    let names: Vec<&str> = (0..users.len()).map(|i| users.entry(i).0).collect();
    assert_eq!(names, ["abe", "mid", "mid2", "zed"]);
    assert!(users.contains_key("zed"));
    assert!(users.get("zoe").is_none());
    users.insert("zed".to_string(), UserRecord { licensed: true, ..Default::default() });
    assert_eq!(users.len(), 4);
    assert!(users.get("zed").unwrap().licensed);
    assert!(!users.clone().is_empty());
}

#[test]
fn normalize_roles() {
    assert_eq!(normalize_role("admin").unwrap(), "admin");
    assert_eq!(normalize_role("SUDO").unwrap(), "admin");
    assert_eq!(normalize_role("user").unwrap(), "user");
    assert_eq!(normalize_role("").unwrap(), "user");
    assert!(normalize_role("root").is_err());
}

#[test]
fn unknown_role_is_named() {
    assert_eq!(normalize_role("  Standard ").unwrap(), "user");
    assert_eq!(
        normalize_role(" ROOT ").unwrap_err(),
        "unknown role 'root' (use 'user' or 'admin')"
    );
}

#[test]
fn seal_unseal_round_trip() {
    let json = r#"{ "enabled": true, "users": { "x": { "pw_salt": "aa" } } }"#;
    let sealed = seal_state(json, &key()).unwrap();
    assert!(sealed.starts_with(ENC_MAGIC));
    assert!(!sealed.contains("pw_salt"));
    assert_eq!(unseal_state(&sealed, &key()).unwrap(), json);
    // tampered ciphertext must not decrypt
    let mut bad = sealed.clone();
    bad.replace_range(30..32, "zz");
    assert!(unseal_state(&bad, &key()).is_none());
}

#[test]
fn sealed_state_resists_changes() {
    let nonce = [7u8; 12];
    let sealed = seal_with("hello", &key(), &nonce).unwrap();
    assert_eq!(sealed.len(), 8 + 24 + 2 * (5 + 16));
    assert!(sealed.starts_with("PYLENC1:070707070707070707070707"));
    assert_eq!(unseal_state(&format!("  {}\n", sealed), &key()).unwrap(), "hello");
    // another key, another ciphertext, a cut text
    let other: Vec<u8> = vec![1; 32];
    assert!(unseal_state(&sealed, &other).is_none());
    let last = sealed.len() - 1;
    let flipped = format!("{}{}", &sealed[..last], if sealed.ends_with('0') { '1' } else { '0' });
    assert!(unseal_state(&flipped, &key()).is_none());
    assert!(unseal_state(&sealed[..last], &key()).is_none());
    assert!(unseal_state("PYLENC1:00", &key()).is_none());
    assert!(unseal_state("hello", &key()).is_none());
    // upper-case digits open as well
    let upper = format!("PYLENC1:{}", sealed[8..].to_uppercase());
    assert_eq!(unseal_state(&upper, &key()).unwrap(), "hello");
}

#[test]
fn aes_gcm_gives_the_known_ciphertext() {
    // AES-256-GCM, all-zero key and nonce, one block of zeros
    let plain = "\0".repeat(16);
    let sealed = seal_with(&plain, &[0u8; 32], &[0u8; 12]).unwrap();
    assert_eq!(
        sealed,
        "PYLENC1:000000000000000000000000cea7403d4d606b6e074ec5d3baf39d18d0d1c8a799996bf0265b98b5d48ab919"
    );
}

#[test]
fn saved_state_loads_again() {
    let state = with_bob();
    let k = key();
    let sealed = save_state(&state, false, Some(&k)).unwrap();
    assert!(is_sealed(&sealed));
    let (back, locked) = load_state(Some(&sealed), Some(&k));
    assert!(!locked);
    assert!(back.users.get("bob").unwrap().is_admin());
    // plain text, from before states were sealed
    let plain = save_state(&state, true, None).unwrap();
    assert!(!is_sealed(&plain));
    let (back, locked) = load_state(Some(&plain), None);
    assert!(!locked);
    assert_eq!(back.users.len(), 1);
    // without the key the state counts as empty
    let (none, locked) = load_state(Some(&sealed), None);
    assert!(locked && none.users.is_empty());
    let (none, locked) = load_state(Some(&sealed), Some(&[9u8; 32]));
    assert!(locked && none.users.is_empty());
    // no file, and a file that is no state
    let (none, locked) = load_state(None, Some(&k));
    assert!(!locked && none.users.is_empty() && !none.enabled);
    let (none, locked) = load_state(Some("garbage"), None);
    assert!(!locked && none.users.is_empty());
    assert!(save_state(&state, false, None).is_none());
}

#[test]
fn master_key_is_read_or_made() {
    match master_key(None) {
        MasterKey::Fresh(k) => {
            assert_eq!(k.len(), 32);
            match master_key(Some(&format!("{}\n", to_hex(&k)))) {
                MasterKey::Stored(again) => assert_eq!(again, k),
                _ => panic!("a written key must be read"),
            }
        }
        _ => panic!("without a key file a key is made"),
    }
    assert!(matches!(master_key(Some("abcd")), MasterKey::Corrupt));
    assert!(matches!(master_key(Some("not hex")), MasterKey::Corrupt));
    assert_eq!(state_path().file_name().unwrap(), "host_state.json");
    assert_eq!(key_path().file_name().unwrap(), "host.key");
}

#[test]
fn accounts_are_added_once() {
    let mut state = HostState::default();
    assert_eq!(check_new_user(&state, "bob", "sudo").unwrap(), "admin");
    add_user(&mut state, "bob", "sudo", "pw").unwrap();
    let bob = state.users.get("bob").unwrap().clone();
    assert!(bob.is_admin());
    assert!(!bob.licensed);
    assert_eq!(bob.token_hash, "");
    assert_eq!(bob.pw_salt.len(), 32);
    assert_eq!(bob.pw_hash, hash_password(&bob.pw_salt, "pw"));
    assert_eq!(
        add_user(&mut state, "bob", "user", "pw").unwrap_err(),
        "user 'bob' already exists"
    );
    assert_eq!(
        add_user(&mut state, "eve", "king", "pw").unwrap_err(),
        "unknown role 'king' (use 'user' or 'admin')"
    );
    assert_eq!(
        add_user(&mut state, "", "user", "pw").unwrap_err(),
        "username must be 1-32 characters"
    );
    assert_eq!(state.users.len(), 1);
}

#[test]
fn enabling_needs_an_account() {
    let mut state = HostState::default();
    let refusal = "no user accounts exist yet. run '/adduser -m <name>' first.";
    assert_eq!(cmd_enable(&mut state).unwrap_err(), refusal);
    assert_eq!(cmd_enable_with_flags(&mut state, true, vec![]).unwrap_err(), refusal);
    assert!(!state.enabled);
    let mut state = with_bob();
    assert!(cmd_enable(&mut state).unwrap());
    assert!(state.enabled);
    assert!(!cmd_enable(&mut state).unwrap());
    cmd_enable_with_flags(&mut state, true, vec!["1.2.3.4".to_string()]).unwrap();
    assert!(state.allow_all_ips);
    assert_eq!(state.ip_whitelist, ["1.2.3.4"]);
}

#[test]
fn whitelist_grows_and_shrinks() {
    let refusal = "no user accounts exist. run '/adduser -m <name>' first.";
    let mut state = HostState::default();
    assert_eq!(add_to_whitelist(&mut state, "1.1.1.1".into()).unwrap_err(), refusal);
    assert_eq!(remove_from_whitelist(&mut state, "1.1.1.1").unwrap_err(), refusal);
    let mut state = with_bob();
    assert!(add_to_whitelist(&mut state, "1.1.1.1".into()).unwrap());
    assert!(!add_to_whitelist(&mut state, "1.1.1.1".into()).unwrap());
    assert!(add_to_whitelist(&mut state, "2.2.2.2".into()).unwrap());
    assert_eq!(state.ip_whitelist, ["1.1.1.1", "2.2.2.2"]);
    remove_from_whitelist(&mut state, "1.1.1.1").unwrap();
    assert_eq!(state.ip_whitelist, ["2.2.2.2"]);
    remove_from_whitelist(&mut state, "3.3.3.3").unwrap();
    assert_eq!(state.ip_whitelist, ["2.2.2.2"]);
}

#[test]
fn passwords_are_entered_twice() {
    assert_eq!(prompt_new_password("a", "a").unwrap(), "a");
    assert_eq!(prompt_new_password("", "").unwrap_err(), "password cannot be empty");
    assert_eq!(
        prompt_new_password("a", "b").unwrap_err(),
        "passwords do not match. user not created."
    );
    assert_eq!(read_masked(" pw \r\n"), " pw ");
    assert_eq!(read_line_prompt(" bob \r\n"), "bob");
}

#[test]
fn masked_console_input() {
    let mut typed: Vec<u8> = Vec::new();
    assert_eq!(read_masked_tty(&mut typed, 8), MaskedKey::Ignore);
    assert_eq!(read_masked_tty(&mut typed, 'a' as i32), MaskedKey::Echo);
    assert_eq!(read_masked_tty(&mut typed, 'b' as i32), MaskedKey::Echo);
    assert_eq!(read_masked_tty(&mut typed, 8), MaskedKey::Erase);
    assert_eq!(read_masked_tty(&mut typed, 0xE0), MaskedKey::DropNext);
    assert_eq!(read_masked_tty(&mut typed, 0), MaskedKey::DropNext);
    assert_eq!(read_masked_tty(&mut typed, 3), MaskedKey::Interrupt);
    assert_eq!(read_masked_tty(&mut typed, 27), MaskedKey::Ignore);
    assert_eq!(read_masked_tty(&mut typed, 13), MaskedKey::Done);
    assert_eq!(typed, b"a");
}

#[test]
fn prompts_need_a_console_or_a_word() {
    assert!(!stdin_is_tty());
    assert!(is_interactive(true, None));
    assert!(is_interactive(false, Some("1")));
    assert!(!is_interactive(false, Some("0")));
    assert!(!is_interactive(false, None));
    assert_eq!(masked_text(&vec![b'p', 0xff, b'w']), "p\u{fffd}w");
    assert_eq!(masked_text(&"pé".as_bytes().to_vec()), "pé");
}

#[test]
fn cut_states_are_refused() {
    let mut state = with_bob();
    state.ip_whitelist = vec!["10.0.0.1".to_string()];
    let text = render_state(&state);
    let last = text.len() - 1;
    for k in 0..last {
        assert!(parse_state(&text[..k]).is_none(), "{} characters", k);
    }
    // only the last line's end may be missing
    assert!(parse_state(&text[..last]).is_some());
    assert!(parse_state(&format!("{}{}", text, text)).is_some());
}

#[test]
fn spoiled_seals_are_refused() {
    let sealed = seal_with("hello", &key(), &[7u8; 12]).unwrap();
    for k in 8..sealed.len() {
        let spoiled = format!("{}g{}", &sealed[..k], &sealed[k + 1..]);
        assert!(unseal_state(&spoiled, &key()).is_none(), "digit {}", k);
    }
}

#[test]
fn one_answer_is_accepted() {
    let proof = compute_proof("ab", "c");
    assert!(verify_proof("ab", "c", &proof));
    assert!(!verify_proof("ab", "c", &proof[..63]));
    assert!(!verify_proof("ab", "c", &format!("{}0", proof)));
    assert!(!verify_proof("ab", "c", &format!(" {}", &proof[1..])));
    // the bytes that are hashed do not tell where the secret ends
    assert_eq!(compute_proof("a", "bc"), proof);
    assert_eq!(hash_token("abc"), proof);
}

#[test]
fn salts_are_read_as_bytes() {
    assert_eq!(hash_password("AB", "pw"), hash_password("ab", "pw"));
    assert_eq!(hash_password("zz", "pw"), hash_password("", "pw"));
    assert_ne!(hash_password("ab", "pw"), hash_password("ba", "pw"));
}
