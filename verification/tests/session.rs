use gauge::models::Session;
use gauge::session::{
    hash_identifier, join, load_session_from, session_path, session_path_in, sessions_dir_in,
    SessionLoadResult,
};

#[test]
fn test_hash_identifier() {
    let hash1 = hash_identifier("commits:5");
    let hash2 = hash_identifier("commits:5");
    let hash3 = hash_identifier("commits:6");

    assert_eq!(hash1, hash2);
    assert_ne!(hash1, hash3);
    assert_eq!(hash1.len(), 16);
}

#[test]
fn test_session_path() {
    let path = session_path("commits:5").unwrap();
    assert!(path.ends_with(".json"));
    assert!(path.contains(".sherpa"));
}

#[test]
fn hash_identifier_is_lowercase_hex() {
    let h = hash_identifier("branch:main");
    assert!(h.chars().all(|c| c.is_ascii_hexdigit() && !c.is_ascii_uppercase()));
}

#[test]
fn paths_under_a_home() {
    assert_eq!(join("/home/u", "x"), "/home/u/x");
    assert_eq!(join("/home/u/", "x"), "/home/u/x");
    assert_eq!(join("", "x"), "x");
    assert_eq!(
        sessions_dir_in(Some("/home/u".to_string())).unwrap(),
        "/home/u/.sherpa/sessions"
    );
    assert!(sessions_dir_in(None).is_err());
    let p = session_path_in(Some("/h".to_string()), "id").unwrap();
    assert_eq!(p, format!("/h/.sherpa/sessions/{}.json", hash_identifier("id")));
}

#[test]
fn loading_checks_identifier() {
    let s = Session::new("id-1".to_string(), String::new());
    match load_session_from("id-1", "p".to_string(), Ok(s)) {
        SessionLoadResult::Loaded(s) => assert_eq!(s.identifier, "id-1"),
        _ => panic!("expected the session"),
    }
    let other = Session::new("id-2".to_string(), String::new());
    match load_session_from("id-1", "p".to_string(), Ok(other)) {
        SessionLoadResult::Corrupted { path, error } => {
            assert_eq!(path, "p");
            assert_eq!(error, "Session identifier mismatch");
        }
        _ => panic!("expected a mismatch"),
    }
    match load_session_from("id-1", "p".to_string(), Err("eof".to_string())) {
        SessionLoadResult::Corrupted { error, .. } => assert_eq!(error, "Invalid JSON: eof"),
        _ => panic!("expected corruption"),
    }
}
