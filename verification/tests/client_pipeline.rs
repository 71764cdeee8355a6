use voiddrop::client::pipeline::{
    download_deadline_passed, download_step, download_url, frame_header, frame_len,
    http_base_from_relay, is_secure_mode, link_after_wait, p2p_addr, received_path, sender_address,
    stream_key, upload_url, DownloadStep, Link,
};
use voiddrop::client::protocol::{classify_reply, done_message, ClientMessage, Expected, ReplyAction, ServerMessage};

#[test]
fn http_bases() {
    assert_eq!(http_base_from_relay("voiddrop.fly.dev:9876"), "https://voiddrop.fly.dev");
    assert_eq!(http_base_from_relay("x.fly.io:1"), "https://x.fly.io");
    assert_eq!(http_base_from_relay("127.0.0.1:9876"), "http://127.0.0.1:9876");
    assert_eq!(http_base_from_relay("localhost"), "http://localhost:");
    assert_eq!(
        http_base_from_relay("zephyr.proxy.rlwy.net:12963"),
        "http://zephyr.proxy.rlwy.net:12963"
    );
    assert_eq!(http_base_from_relay(""), "http://");
}

#[test]
fn urls() {
    assert_eq!(upload_url("127.0.0.1:9876", "abc"), "http://127.0.0.1:9876/upload/abc");
    assert_eq!(
        download_url("relay.example:80", "4829", Some("4829")),
        "http://relay.example:80/dl/4829?code=4829"
    );
    assert_eq!(download_url("a.fly.dev:1", "f", None), "https://a.fly.dev/dl/f");
}

#[test]
fn small_rules() {
    assert_eq!(received_path("song.mp3"), "received_song.mp3");
    assert!(is_secure_mode("secure"));
    assert!(is_secure_mode("blast"));
    assert!(!is_secure_mode("fast"));
    assert_eq!(p2p_addr(Some("5.6.7.8".to_string()), 4000), "5.6.7.8:4000");
    assert_eq!(p2p_addr(None, 80), "127.0.0.1:80");
}

#[test]
fn frame_prefix_roundtrip() {
    for len in [0usize, 1, 255, 256, 65_552, 70_000, 0xFFFF_FFFF] {
        let h = frame_header(len);
        assert_eq!(h, (len as u32).to_le_bytes());
        assert_eq!(frame_len(h), len);
    }
    assert_eq!(frame_header(0x1_0000_0005), [5, 0, 0, 0]);
    assert_eq!(frame_len([1, 2, 3, 4]), 0x0403_0201);
}

#[test]
fn download_steps() {
    assert_eq!(download_step(200), DownloadStep::Save);
    assert_eq!(download_step(204), DownloadStep::Save);
    assert_eq!(download_step(404), DownloadStep::Retry);
    assert_eq!(download_step(403), DownloadStep::Fail);
    assert_eq!(download_step(500), DownloadStep::Fail);
    assert!(!download_deadline_passed(120, 0));
    assert!(download_deadline_passed(120, 1));
    assert!(download_deadline_passed(121, 0));
    assert!(!download_deadline_passed(3, 999));
}

#[test]
fn replies() {
    let err = ServerMessage::Error { message: "nope".to_string() };
    match classify_reply(&err, Expected::Created) {
        ReplyAction::Fail(m) => assert_eq!(m, "Server error: nope"),
        other => panic!("{:?}", other),
    }
    let created = ServerMessage::Created { session_id: "x".to_string() };
    assert!(matches!(classify_reply(&created, Expected::Created), ReplyAction::Accept));
    assert!(matches!(classify_reply(&created, Expected::Joined), ReplyAction::Skip));
    let ack = ServerMessage::P2pReadyAck {};
    assert!(matches!(classify_reply(&ack, Expected::P2pReadyAck), ReplyAction::Accept));
    let closed = ServerMessage::SessionClosed { reason: "r".to_string() };
    assert!(matches!(classify_reply(&closed, Expected::Joined), ReplyAction::Skip));
}

#[test]
fn done() {
    match done_message("abc") {
        ClientMessage::Data { session_id, payload } => {
            assert_eq!(session_id, "abc");
            assert_eq!(payload, "done");
        }
        other => panic!("{:?}", other),
    }
}

#[test]
fn receive_decisions() {
    assert_eq!(link_after_wait(true), Link::Direct);
    assert_eq!(link_after_wait(false), Link::Relay);
    assert_eq!(sender_address(Some("1.2.3.4:5".into())), Ok("1.2.3.4:5".to_string()));
    assert_eq!(sender_address(None), Err("Sender not ready yet".to_string()));
    let k = [7u8; 32];
    assert_eq!(stream_key("secure", Some(k)), Ok(Some(k)));
    assert_eq!(stream_key("blast", Some(k)), Ok(Some(k)));
    assert_eq!(
        stream_key("blast", None),
        Err("encryption key required for secure mode".to_string())
    );
    assert_eq!(stream_key("fast", Some(k)), Ok(None));
    assert_eq!(stream_key("fast", None), Ok(None));
}
