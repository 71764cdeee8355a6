use voiddrop::relay::session::{Session, SessionManager, SESSION_TTL_SECS};

fn s(x: &str) -> String {
    x.to_string()
}

#[test]
fn create_then_join_returns_the_session() {
    let mut sm = SessionManager::new();
    let id = sm.create_at(s("fast"), s("song.mp3"), 42, s("song.mp3"), false, 1000);
    assert_eq!(id, "song.mp3");
    let got: Session = sm.join_at("song.mp3", 1000 + SESSION_TTL_SECS - 1).unwrap();
    assert_eq!(got.id, "song.mp3");
    assert_eq!(got.code, "song.mp3");
    assert_eq!(got.mode, "fast");
    assert_eq!(got.filename, "song.mp3");
    assert_eq!(got.filesize, 42);
    assert_eq!(got.sender_addr, None);
    assert_eq!(got.created_at, 1000);
    assert!(!got.worldwide_qr);
    assert!(!got.upload_ready);
}

#[test]
fn session_expires_after_ttl() {
    let mut sm = SessionManager::new();
    sm.create_at(s("secure"), s("a.txt"), 1, s("4829"), true, 0);
    assert!(sm.join_at("4829", SESSION_TTL_SECS).is_none());
    // Once dropped it stays gone.
    assert!(sm.join_at("4829", 0).is_none());
}

#[test]
fn join_of_unknown_session_is_none() {
    let mut sm = SessionManager::new();
    assert!(sm.join_at("nope", 5).is_none());
}

#[test]
fn create_replaces_a_session_with_the_same_code() {
    let mut sm = SessionManager::new();
    sm.create_at(s("fast"), s("old.bin"), 1, s("key"), false, 10);
    sm.create_at(s("secure"), s("new.bin"), 2, s("key"), true, 20);
    let got = sm.join_at("key", 20).unwrap();
    assert_eq!(got.filename, "new.bin");
    assert_eq!(got.mode, "secure");
    assert!(got.worldwide_qr);
    assert_eq!(got.created_at, 20);
}

#[test]
fn create_drops_expired_sessions_and_their_files() {
    let mut sm = SessionManager::new();
    sm.create_at(s("fast"), s("old.bin"), 1, s("old"), false, 0);
    sm.store_file("old", b"data");
    sm.create_at(s("fast"), s("new.bin"), 1, s("new"), false, 600);
    assert!(sm.get_file("old").is_none());
    assert!(sm.join_at("old", 0).is_none());
    assert!(sm.join_at("new", 600).is_some());
}

#[test]
fn sender_addr_is_recorded() {
    let mut sm = SessionManager::new();
    sm.create_at(s("fast"), s("f"), 1, s("f"), false, 0);
    assert!(sm.set_sender_addr("f", s("1.2.3.4:5000")));
    assert_eq!(sm.join_at("f", 1).unwrap().sender_addr, Some(s("1.2.3.4:5000")));
    assert!(!sm.set_sender_addr("missing", s("x")));
}

#[test]
fn store_then_get_file() {
    let mut sm = SessionManager::new();
    sm.create_at(s("fast"), s("f"), 3, s("f"), true, 0);
    assert!(sm.upload_start("f"));
    assert_eq!(sm.get_file("f"), Some(vec![]));
    assert!(!sm.join_at("f", 0).unwrap().upload_ready);
    sm.store_file("f", &[1, 2, 3]);
    assert_eq!(sm.get_file("f"), Some(vec![1, 2, 3]));
    assert!(sm.join_at("f", 0).unwrap().upload_ready);
}

#[test]
fn upload_start_for_unknown_session_changes_nothing() {
    let mut sm = SessionManager::new();
    assert!(!sm.upload_start("ghost"));
    assert_eq!(sm.get_file("ghost"), None);
}

#[test]
fn store_file_without_session_keeps_the_file() {
    let mut sm = SessionManager::new();
    sm.store_file("orphan", &[9]);
    assert_eq!(sm.get_file("orphan"), Some(vec![9]));
    // The next cleanup drops it, as it has no session.
    sm.create_at(s("fast"), s("x"), 1, s("x"), false, 0);
    assert_eq!(sm.get_file("orphan"), None);
}

#[test]
fn remove_forgets_session_and_file() {
    let mut sm = SessionManager::new();
    sm.create_at(s("fast"), s("f"), 1, s("f"), false, 0);
    sm.store_file("f", &[7]);
    sm.remove("f");
    assert!(sm.join_at("f", 0).is_none());
    assert_eq!(sm.get_file("f"), None);
    // Removing again is harmless.
    sm.remove("f");
}

#[test]
fn other_sessions_are_untouched() {
    let mut sm = SessionManager::new();
    sm.create_at(s("fast"), s("a"), 1, s("a"), false, 0);
    sm.create_at(s("fast"), s("b"), 2, s("b"), false, 0);
    sm.store_file("a", &[1]);
    sm.remove("a");
    let b = sm.join_at("b", 0).unwrap();
    assert_eq!(b.filesize, 2);
}

#[test]
fn clock_based_create_and_join() {
    let mut sm = SessionManager::new();
    let id = sm.create(s("fast"), s("clock.txt"), 5, s("clock.txt"), false);
    assert_eq!(id, "clock.txt");
    let got = sm.join("clock.txt").unwrap();
    assert_eq!(got.filesize, 5);
}

#[test]
fn stored_file_survives_other_calls() {
    let mut sm = SessionManager::new();
    sm.create_at("fast".into(), "a".into(), 1, "a".into(), true, 0);
    sm.store_file("a", &[4, 2]);
    sm.create_at("blast".into(), "b".into(), 1, "Q1W2".into(), false, 10);
    sm.set_sender_addr("a", "1.1.1.1:1".into());
    sm.upload_start("b");
    sm.store_file("b", &[1]);
    sm.remove("b");
    sm.join_at("a", 599);
    assert_eq!(sm.get_file("a"), Some(vec![4, 2]));
    sm.join_at("a", 600);
    assert_eq!(sm.get_file("a"), None);
}

#[test]
fn stored_file_survives_re_creation() {
    let mut sm = SessionManager::new();
    sm.create_at("fast".into(), "a".into(), 1, "a".into(), true, 0);
    sm.store_file("a", &[3]);
    sm.create_at("fast".into(), "a".into(), 9, "a".into(), true, 500);
    sm.join_at("a", 1000);
    assert_eq!(sm.get_file("a"), Some(vec![3]));
}
