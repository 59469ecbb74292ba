use rustfm_scrobble::keyorder::{key_less, sort_keys};
use rustfm_scrobble::signature::{sign, signature_base_text};
use rustfm_scrobble::{Credentials, ParamMap};

fn map_of(pairs: &[(&str, &str)]) -> ParamMap {
    let mut m = ParamMap::new();
    for (k, v) in pairs {
        m.insert(k.to_string(), v.to_string());
    }
    m
}

#[test]
fn signature_of_auth_params_is_exact() {
    let params = map_of(&[("api_key", "key"), ("username", "u")]);
    let sig = sign(&params, "auth.getMobileSession", "secret");
    assert_eq!(sig, "000891202ac87e30dd8283c59c6a7cfa");
}

#[test]
fn signature_is_lowercase_hex_and_repeatable() {
    let params = map_of(&[("api_key", "key"), ("username", "u")]);
    let first = sign(&params, "auth.getMobileSession", "secret");
    let second = sign(&params, "auth.getMobileSession", "secret");
    assert_eq!(first.len(), 32);
    assert!(first.chars().all(|c| c.is_ascii_digit() || ('a'..='f').contains(&c)));
    assert_eq!(first, second);
}

#[test]
fn signature_of_empty_params_signs_method_and_secret() {
    let params = ParamMap::new();
    assert_eq!(sign(&params, "track.scrobble", "secret"), "8c2ee45bad1b7c6ff2ecbab8c23c8335");
}

#[test]
fn signature_sorts_keys_bytewise() {
    let params = map_of(&[("b", "2"), ("a", "1"), ("Z", "0"), ("é", "x")]);
    assert_eq!(sign(&params, "m", "s"), "a364e629f6e9c8d325f5d5584428e12f");
}

#[test]
fn signature_ignores_insertion_order() {
    let a = map_of(&[("api_key", "key"), ("username", "u"), ("password", "p")]);
    let b = map_of(&[("password", "p"), ("api_key", "key"), ("username", "u")]);
    assert_eq!(sign(&a, "auth.getMobileSession", "secret"), sign(&b, "auth.getMobileSession", "secret"));
}

#[test]
fn signature_changes_with_one_character() {
    let a = map_of(&[("api_key", "key"), ("username", "u")]);
    let b = map_of(&[("api_key", "key"), ("username", "v")]);
    let sa = sign(&a, "auth.getMobileSession", "secret");
    let sb = sign(&b, "auth.getMobileSession", "secret");
    assert_ne!(sa, sb);
    assert_eq!(sb, "fd5f060c69115fb911bc2763e7076666");
}

#[test]
fn credentials_sign_with_their_secret() {
    let mut creds = Credentials::new_partial("Key", "Secret");
    creds.set_user_token("Token");
    let params = creds.get_auth_request_params().unwrap();
    assert_eq!(
        creds.get_signature("auth.getSession".to_string(), &params),
        "4a9072ceb0e50925ba10e0e29933ead0"
    );
}

#[test]
fn method_parameter_is_overridden_by_operation() {
    let with_method = map_of(&[("method", "other")]);
    assert_eq!(sign(&with_method, "track.scrobble", "secret"), "8c2ee45bad1b7c6ff2ecbab8c23c8335");
}

#[test]
fn keys_compare_bytewise() {
    assert!(key_less("Z", "a"));
    assert!(key_less("a", "ab"));
    assert!(!key_less("ab", "a"));
    assert!(!key_less("a", "a"));
    assert!(key_less("z", "é"));
}

#[test]
fn sorting_keys() {
    let keys = vec!["sk".to_string(), "api_key".to_string(), "method".to_string(), "a".to_string()];
    assert_eq!(
        sort_keys(keys),
        vec!["a".to_string(), "api_key".to_string(), "method".to_string(), "sk".to_string()]
    );
}

#[test]
fn param_map_insert_replaces() {
    let mut m = map_of(&[("a", "1")]);
    m.insert("a".to_string(), "2".to_string());
    assert_eq!(m.get("a").unwrap(), "2");
    assert_eq!(m.to_pairs(), vec![("a".to_string(), "2".to_string())]);
    assert!(m.contains_key("a"));
    assert!(!m.contains_key("b"));
}

#[test]
fn param_map_extend_prefers_other() {
    let mut m = map_of(&[("api_key", "key"), ("sk", "s")]);
    let other = map_of(&[("sk", "mine"), ("artist", "A")]);
    m.extend_from(&other);
    assert_eq!(m.get("sk").unwrap(), "mine");
    assert_eq!(m.get("artist").unwrap(), "A");
    assert_eq!(m.get("api_key").unwrap(), "key");
    assert_eq!(m.sorted_keys().len(), 3);
}

#[test]
fn signature_base_text_is_sorted_concatenation() {
    let params = map_of(&[("username", "u"), ("api_key", "key")]);
    assert_eq!(
        signature_base_text(&params, "auth.getMobileSession", "secret"),
        "api_keykeymethodauth.getMobileSessionusernameusecret"
    );
    assert_eq!(
        signature_base_text(&map_of(&[("b", "2"), ("a", "1"), ("Z", "0"), ("é", "x")]), "m", "s"),
        "Z0a1b2methodméxs"
    );
    assert_eq!(signature_base_text(&ParamMap::new(), "track.scrobble", "secret"), "methodtrack.scrobblesecret");
}
