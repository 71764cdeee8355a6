use voiddrop::client::commands::{plan_receive, plan_send, receive_target, ReceiveTarget, TransferMode};
use voiddrop::client::protocol::ClientMessage as Outgoing;
use voiddrop::relay::protocol::{handle_msg_at, ClientMessage as Incoming, ServerMessage};
use voiddrop::relay::session::SessionManager;

fn carry(m: Outgoing) -> Incoming {
    match m {
        Outgoing::Create { mode, filename, filesize, code, worldwide_qr } => {
            Incoming::Create { mode, filename, filesize, code, worldwide_qr }
        }
        Outgoing::Join { session_id, code } => Incoming::Join { session_id, code },
        Outgoing::P2pReady { session_id, addr } => Incoming::P2pReady { session_id, addr },
        Outgoing::Data { session_id, payload } => Incoming::Data { session_id, payload },
        other => panic!("not a relay message: {:?}", other),
    }
}

fn handshake(mode: TransferMode, filename: &str, code: &str, id: &str, given: Option<&str>) -> Option<ServerMessage> {
    let mut relay = SessionManager::new();
    let plan = plan_send(mode, filename, 77, code, false, false);
    handle_msg_at(&mut relay, carry(plan.create), 100);
    let (rid, rcode, rmode) = match receive_target(Some(id.to_string()), given.map(|g| g.to_string()), false) {
        Ok(ReceiveTarget::Given { id, code, mode }) => (id, code, mode),
        other => panic!("{:?}", other),
    };
    assert_eq!(rmode, mode);
    let r = plan_receive(rmode, &rid, rcode);
    handle_msg_at(&mut relay, carry(r.join), 150)
}

#[test]
fn fast_and_secure_handshakes_succeed() {
    match handshake(TransferMode::Fast, "song.mp3", "", "song.mp3", None) {
        Some(ServerMessage::Joined { mode, filename, filesize, .. }) => {
            assert_eq!(mode, "fast");
            assert_eq!(filename, "song.mp3");
            assert_eq!(filesize, 77);
        }
        other => panic!("{:?}", other),
    }
    match handshake(TransferMode::Secure, "r.pdf", "4829", "4829", None) {
        Some(ServerMessage::Joined { mode, filename, .. }) => {
            assert_eq!(mode, "secure");
            assert_eq!(filename, "r.pdf");
        }
        other => panic!("{:?}", other),
    }
}

#[test]
fn blast_handshake_succeeds_with_name_and_code() {
    match handshake(TransferMode::Blast, "plans.zip", "X9P1", "plans.zip", Some("X9P1")) {
        Some(ServerMessage::Joined { mode, filename, filesize, .. }) => {
            assert_eq!(mode, "blast");
            assert_eq!(filename, "plans.zip");
            assert_eq!(filesize, 77);
        }
        other => panic!("{:?}", other),
    }
}

#[test]
fn blast_handshake_with_another_code_is_refused() {
    match handshake(TransferMode::Blast, "plans.zip", "X9P1", "plans.zip", Some("Q7Z2")) {
        Some(ServerMessage::Error { message }) => assert_eq!(message, "invalid blast code"),
        other => panic!("{:?}", other),
    }
}
