use voiddrop::relay::protocol::{
    answer_join, handle_msg, handle_msg_at, invalid_json, ClientMessage, ServerMessage,
};
use voiddrop::relay::session::SessionManager;

fn s(x: &str) -> String {
    x.to_string()
}

fn create(mode: &str, filename: &str, code: &str) -> ClientMessage {
    ClientMessage::Create {
        mode: s(mode),
        filename: s(filename),
        filesize: 100,
        code: s(code),
        worldwide_qr: None,
    }
}

#[test]
fn create_replies_created_with_the_code() {
    let mut sm = SessionManager::new();
    match handle_msg_at(&mut sm, create("fast", "a.txt", "a.txt"), 0) {
        Some(ServerMessage::Created { session_id }) => assert_eq!(session_id, "a.txt"),
        other => panic!("unexpected {:?}", other),
    }
}

#[test]
fn join_fast_session() {
    let mut sm = SessionManager::new();
    handle_msg_at(&mut sm, create("fast", "a.txt", "a.txt"), 0);
    let r = handle_msg_at(&mut sm, ClientMessage::Join { session_id: s("a.txt"), code: None }, 1);
    match r {
        Some(ServerMessage::Joined { mode, filename, filesize, sender_addr }) => {
            assert_eq!(mode, "fast");
            assert_eq!(filename, "a.txt");
            assert_eq!(filesize, 100);
            assert_eq!(sender_addr, None);
        }
        other => panic!("unexpected {:?}", other),
    }
}

#[test]
fn join_missing_session() {
    let mut sm = SessionManager::new();
    let r = handle_msg_at(&mut sm, ClientMessage::Join { session_id: s("x"), code: None }, 0);
    match r {
        Some(ServerMessage::Error { message }) => assert_eq!(message, "session not found or expired"),
        other => panic!("unexpected {:?}", other),
    }
}

#[test]
fn blast_join_without_code_is_refused() {
    let mut sm = SessionManager::new();
    handle_msg_at(&mut sm, create("blast", "plans.zip", "X9P1"), 0);
    let r = handle_msg_at(&mut sm, ClientMessage::Join { session_id: s("plans.zip"), code: None }, 0);
    match r {
        Some(ServerMessage::Error { message }) => assert_eq!(message, "blast mode requires a code"),
        other => panic!("unexpected {:?}", other),
    }
}

#[test]
fn blast_join_with_wrong_code_is_refused() {
    let mut sm = SessionManager::new();
    handle_msg_at(&mut sm, create("blast", "plans.zip", "X9P1"), 0);
    let r = handle_msg_at(
        &mut sm,
        ClientMessage::Join { session_id: s("plans.zip"), code: Some(s("AB12")) },
        0,
    );
    match r {
        Some(ServerMessage::Error { message }) => {
            assert_eq!(message, "invalid blast code");
            assert!(!message.contains("X9P1"));
        }
        other => panic!("unexpected {:?}", other),
    }
}

#[test]
fn blast_session_is_named_after_its_file() {
    let mut sm = SessionManager::new();
    match handle_msg_at(&mut sm, create("blast", "plans.zip", "X9P1"), 0) {
        Some(ServerMessage::Created { session_id }) => assert_eq!(session_id, "plans.zip"),
        other => panic!("unexpected {:?}", other),
    }
    let r = handle_msg_at(&mut sm, ClientMessage::Join { session_id: s("X9P1"), code: Some(s("X9P1")) }, 0);
    match r {
        Some(ServerMessage::Error { message }) => assert_eq!(message, "session not found or expired"),
        other => panic!("unexpected {:?}", other),
    }
}

#[test]
fn blast_join_with_session_code_succeeds() {
    let mut sm = SessionManager::new();
    handle_msg_at(&mut sm, create("blast", "plans.zip", "X9P1"), 0);
    let r = handle_msg_at(
        &mut sm,
        ClientMessage::Join { session_id: s("plans.zip"), code: Some(s("X9P1")) },
        0,
    );
    assert!(matches!(r, Some(ServerMessage::Joined { .. })));
}

#[test]
fn p2p_ready_then_join_shows_address() {
    let mut sm = SessionManager::new();
    handle_msg_at(&mut sm, create("secure", "r.pdf", "4829"), 0);
    let ack = handle_msg_at(
        &mut sm,
        ClientMessage::P2pReady { session_id: s("4829"), addr: s("9.9.9.9:4000") },
        0,
    );
    assert!(matches!(ack, Some(ServerMessage::P2pReadyAck {})));
    match handle_msg_at(&mut sm, ClientMessage::Join { session_id: s("4829"), code: None }, 0) {
        Some(ServerMessage::Joined { sender_addr, .. }) => assert_eq!(sender_addr, Some(s("9.9.9.9:4000"))),
        other => panic!("unexpected {:?}", other),
    }
}

#[test]
fn p2p_ready_for_missing_session() {
    let mut sm = SessionManager::new();
    match handle_msg_at(&mut sm, ClientMessage::P2pReady { session_id: s("z"), addr: s("a") }, 0) {
        Some(ServerMessage::Error { message }) => assert_eq!(message, "session not found"),
        other => panic!("unexpected {:?}", other),
    }
}

#[test]
fn done_closes_the_session() {
    let mut sm = SessionManager::new();
    handle_msg_at(&mut sm, create("fast", "a", "a"), 0);
    match handle_msg_at(&mut sm, ClientMessage::Data { session_id: s("a"), payload: s("done") }, 0) {
        Some(ServerMessage::SessionClosed { reason }) => assert_eq!(reason, "transfer complete"),
        other => panic!("unexpected {:?}", other),
    }
    let r = handle_msg_at(&mut sm, ClientMessage::Join { session_id: s("a"), code: None }, 0);
    assert!(matches!(r, Some(ServerMessage::Error { .. })));
}

#[test]
fn other_data_gets_no_reply() {
    let mut sm = SessionManager::new();
    handle_msg_at(&mut sm, create("fast", "a", "a"), 0);
    let r = handle_msg_at(&mut sm, ClientMessage::Data { session_id: s("a"), payload: s("chunk") }, 0);
    assert!(r.is_none());
    assert!(sm.join_at("a", 0).is_some());
}

#[test]
fn expired_session_cannot_be_joined() {
    let mut sm = SessionManager::new();
    handle_msg_at(&mut sm, create("fast", "a", "a"), 0);
    let r = handle_msg_at(&mut sm, ClientMessage::Join { session_id: s("a"), code: None }, 600);
    assert!(matches!(r, Some(ServerMessage::Error { .. })));
}

#[test]
fn invalid_json_reply() {
    match invalid_json() {
        ServerMessage::Error { message } => assert_eq!(message, "invalid JSON"),
        other => panic!("unexpected {:?}", other),
    }
}

#[test]
fn answer_join_without_session() {
    assert!(matches!(answer_join(None, None), ServerMessage::Error { .. }));
}

#[test]
fn handle_msg_with_clock() {
    let mut sm = SessionManager::new();
    handle_msg(&mut sm, create("fast", "c", "c"));
    let r = handle_msg(&mut sm, ClientMessage::Join { session_id: s("c"), code: None });
    assert!(matches!(r, Some(ServerMessage::Joined { .. })));
}
