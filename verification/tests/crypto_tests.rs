use web_home::security::{b64_decode, b64_encode, generate_salt_raw, hash, url_valid};
use web_home::user_data::{env_decode, env_encode, UserData, UserDataCypher};

#[test]
fn hash_is_a_base64_digest() {
    let h = hash("abc".to_string());
    assert_eq!(h.len(), 44);
    assert_ne!(h, "abc");
    assert_eq!(h, hash("abc".to_string()));
    assert_ne!(h, hash("abd".to_string()));
}

#[test]
fn base64_round_trips() {
    let bytes: Vec<u8> = (0u8..=255).collect();
    let text = b64_encode(&bytes);
    assert_ne!(text.as_bytes(), &bytes[..]);
    assert_eq!(b64_decode(&text).unwrap(), bytes);
    assert!(b64_decode("not base64 !!!").is_none());
}

#[test]
fn salts_are_fresh_and_sized() {
    let a = generate_salt_raw().unwrap();
    let b = generate_salt_raw().unwrap();
    assert_eq!(a.len(), 16);
    assert_eq!(b.len(), 16);
    assert_ne!(a, b);
}

#[test]
fn url_syntax_is_checked() {
    assert!(url_valid("https://example.com/path"));
    assert!(!url_valid("definitely not a url"));
}

#[test]
fn envelope_serialization_round_trips() {
    let env = UserDataCypher {
        salt: "c2FsdA==".to_string(),
        nonce: "bm9uY2U=".to_string(),
        content: "Y29udGVudA==".to_string(),
    };
    let text = env_encode(&env);
    assert_eq!(text, "{\"salt\":\"c2FsdA==\",\"nonce\":\"bm9uY2U=\",\"content\":\"Y29udGVudA==\"}");
    let back = env_decode(&text).unwrap();
    assert_eq!(back.salt, env.salt);
    assert_eq!(back.nonce, env.nonce);
    assert_eq!(back.content, env.content);
    assert!(env_decode("{}").is_none());
    assert!(env_decode("").is_none());
    assert!(env_decode("{\"salt\":\"a\",\"nonce\":\"b\",\"content\":\"c\"").is_none());
}

#[test]
fn encryption_round_trips_under_the_same_secret() {
    let mut user = UserData::default();
    assert!(user.crypt_with_password(&"hi".to_string()).is_none());
    user.login_install("id".to_string(), "secret-key".to_string());
    assert!(user.login_isConnected());
    let env = user.crypt_with_password(&"attack at dawn \u{2603}".to_string()).unwrap();
    let wire = env_encode(&env);
    let back = user.decrypt_with_password(&wire).unwrap();
    assert_eq!(back, "attack at dawn \u{2603}");
}

#[test]
fn decryption_with_a_wrong_secret_yields_nothing() {
    let mut alice = UserData::default();
    alice.login_install("a".to_string(), "alice-secret".to_string());
    let wire = env_encode(&alice.crypt_with_password(&"private".to_string()).unwrap());

    let mut mallory = UserData::default();
    mallory.login_install("m".to_string(), "mallory-secret".to_string());
    assert!(mallory.decrypt_with_password(&wire).is_none());

    let nobody = UserData::default();
    assert!(nobody.decrypt_with_password(&wire).is_none());

    assert!(alice.decrypt_with_password(&"garbage".to_string()).is_none());
}

#[test]
fn language_tags_are_normalized() {
    let mut u = UserData::default();
    assert_eq!(u.lang_get(), "EN");
    u.lang_set("fr-FR".to_string());
    assert_eq!(u.lang_get(), "FR");
    u.lang_set("de".to_string());
    assert_eq!(u.lang_get(), "DE");
    let v = UserData::new(&"en-US".to_string());
    assert_eq!(v.lang_get(), "EN");
}

#[test]
fn password_fingerprint_depends_on_the_salt() {
    let a = UserData::pwdHash("pwd".to_string(), "salt1".to_string());
    let b = UserData::pwdHash("pwd".to_string(), "salt2".to_string());
    assert_ne!(a, b);
    assert_eq!(a, hash("salt1pwd".to_string()));
}
