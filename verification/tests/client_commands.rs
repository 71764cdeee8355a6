use voiddrop::client::commands::{
    blast_qr_notices, digit_code, global_qr_url, mode_name, plan_receive, plan_send,
    receive_target, send_mode, send_source, ReceiveTarget, SendSource, TransferMode,
};
use voiddrop::client::protocol::ClientMessage;

#[test]
fn modes() {
    assert_eq!(send_mode(false, false), TransferMode::Fast);
    assert_eq!(send_mode(true, false), TransferMode::Secure);
    assert_eq!(send_mode(true, true), TransferMode::Blast);
    assert_eq!(send_mode(false, true), TransferMode::Blast);
    assert_eq!(mode_name(TransferMode::Fast), "fast");
    assert_eq!(mode_name(TransferMode::Secure), "secure");
    assert_eq!(mode_name(TransferMode::Blast), "blast");
}

#[test]
fn sources() {
    assert!(matches!(send_source(Some("a".into()), true), Ok(SendSource::Clipboard)));
    match send_source(Some("a.txt".into()), false) {
        Ok(SendSource::Path(p)) => assert_eq!(p, "a.txt"),
        other => panic!("{:?}", other),
    }
    assert_eq!(send_source(None, false).unwrap_err(), "Either provide a file path or use --clip");
}

#[test]
fn notices() {
    assert_eq!(blast_qr_notices(TransferMode::Blast, true, true), (true, true));
    assert_eq!(blast_qr_notices(TransferMode::Secure, true, true), (false, false));
}

#[test]
fn send_plans() {
    let p = plan_send(TransferMode::Fast, "song.mp3", 10, "", true, false);
    assert_eq!(p.session_key, "song.mp3");
    assert_eq!(p.display_code, "song.mp3");
    assert_eq!(p.clipboard_text, None);
    assert!(p.local_qr && !p.global_qr);
    assert_eq!(p.qr_auth_code, None);
    assert_eq!(p.key_source, None);
    match p.create {
        ClientMessage::Create { mode, filename, filesize, code, worldwide_qr } => {
            assert_eq!(mode, "fast");
            assert_eq!(filename, "song.mp3");
            assert_eq!(filesize, 10);
            assert_eq!(code, "song.mp3");
            assert_eq!(worldwide_qr, None);
        }
        other => panic!("{:?}", other),
    }

    let p = plan_send(TransferMode::Secure, "r.pdf", 1, "4829", true, true);
    assert_eq!(p.session_key, "4829");
    assert_eq!(p.display_code, "4829");
    assert_eq!(p.clipboard_text.as_deref(), Some("4829"));
    assert!(p.global_qr && !p.local_qr);
    assert_eq!(p.qr_auth_code.as_deref(), Some("4829"));
    assert_eq!(p.key_source.as_deref(), Some("4829"));
    assert!(matches!(p.create, ClientMessage::Create { worldwide_qr: Some(true), .. }));

    let p = plan_send(TransferMode::Blast, "plans.zip", 1, "X9P1", true, true);
    assert_eq!(p.session_key, "plans.zip");
    assert_eq!(p.display_code, "X9P1");
    assert_eq!(p.clipboard_text.as_deref(), Some("vb receive plans.zip X9P1"));
    assert!(!p.global_qr && !p.local_qr);
    assert_eq!(p.qr_auth_code, None);
    assert_eq!(p.key_source.as_deref(), Some("X9P1"));
    match p.create {
        ClientMessage::Create { mode, code, .. } => {
            assert_eq!(mode, "blast");
            assert_eq!(code, "X9P1");
        }
        other => panic!("{:?}", other),
    }
}

#[test]
fn qr_url() {
    assert_eq!(global_qr_url("relay:1", "abc"), "http://relay:1/dl/abc");
}

#[test]
fn receive_targets() {
    assert_eq!(
        receive_target(Some("x".into()), None, true).unwrap_err(),
        "Cannot use --clip with an identifier argument"
    );
    assert!(matches!(receive_target(None, Some("c".into()), true), Ok(ReceiveTarget::Clipboard)));
    assert_eq!(
        receive_target(None, None, false).unwrap_err(),
        "Provide an identifier (filename or code) or use --clip"
    );
    match receive_target(Some("4829".into()), None, false) {
        Ok(ReceiveTarget::Given { id, code, mode }) => {
            assert_eq!(id, "4829");
            assert_eq!(code, None);
            assert_eq!(mode, TransferMode::Secure);
        }
        other => panic!("{:?}", other),
    }
    match receive_target(Some("photo.jpg".into()), None, false) {
        Ok(ReceiveTarget::Given { mode, .. }) => assert_eq!(mode, TransferMode::Fast),
        other => panic!("{:?}", other),
    }
    match receive_target(Some("plans.zip".into()), Some("X9P1".into()), false) {
        Ok(ReceiveTarget::Given { code, mode, .. }) => {
            assert_eq!(mode, TransferMode::Blast);
            assert_eq!(code.as_deref(), Some("X9P1"));
        }
        other => panic!("{:?}", other),
    }
    assert!(!digit_code("12345"));
    assert!(!digit_code("12a4"));
    assert!(!digit_code("١٢٣٤"));
    assert!(digit_code("0000"));
}

#[test]
fn receive_plans() {
    let p = plan_receive(TransferMode::Blast, "plans.zip", Some("X9P1".into()));
    assert!(matches!(p.join, ClientMessage::Join { ref session_id, code: Some(ref c) } if session_id == "plans.zip" && c == "X9P1"));
    assert_eq!(p.key_source.as_deref(), Some("X9P1"));
    assert_eq!(p.relay_code.as_deref(), Some("X9P1"));
    let p = plan_receive(TransferMode::Secure, "4829", None);
    assert!(matches!(p.join, ClientMessage::Join { code: None, .. }));
    assert_eq!(p.key_source.as_deref(), Some("4829"));
    assert_eq!(p.relay_code.as_deref(), Some("4829"));
    let p = plan_receive(TransferMode::Fast, "a.txt", Some("ignored".into()));
    assert!(matches!(p.join, ClientMessage::Join { code: None, .. }));
    assert_eq!(p.key_source, None);
    assert_eq!(p.relay_code, None);
}

#[test]
fn receiver_finds_sender() {
    // A secure sender's code, typed by the receiver, selects secure mode and the same key.
    let sent = plan_send(TransferMode::Secure, "r.pdf", 1, "4829", false, false);
    match receive_target(Some(sent.display_code.clone()), None, false) {
        Ok(ReceiveTarget::Given { id, code, mode }) => {
            assert_eq!(mode, TransferMode::Secure);
            let r = plan_receive(mode, &id, code);
            assert_eq!(r.key_source, sent.key_source);
            assert!(matches!(r.join, ClientMessage::Join { ref session_id, .. } if *session_id == sent.session_key));
        }
        other => panic!("{:?}", other),
    }
}
