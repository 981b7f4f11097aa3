use nishack::codec::{encode, Frame, ResampleFilter};
use nishack::config::StreamingConfig;
use nishack::json::JsonMember;
use nishack::stream::{
    handshake_fields, handshake_message, CloseReason, SessionState, StreamAction, StreamEvent,
    StreamingSession,
};

fn config() -> StreamingConfig {
    StreamingConfig {
        enabled: true,
        server_url: "ws://viewer.example:8080/ws/screen".to_string(),
        quality: 60,
        max_dimension: 64,
        interval_ms: 700,
        reconnect_secs: 4,
    }
}

fn picture(seed: u32) -> Frame {
    let (width, height) = (96u32, 48u32);
    let mut pixels = Vec::new();
    for y in 0..height {
        for x in 0..width {
            pixels.push((x * 5 + seed) as u8);
            pixels.push((y * 9) as u8);
            pixels.push((x + y) as u8);
            pixels.push(255);
        }
    }
    Frame::from_raw(width, height, pixels).unwrap()
}

/// The picture with one pixel set to white.
fn picture_with_white_pixel(seed: u32, x: u32, y: u32) -> Frame {
    let base = picture(seed);
    let mut pixels = base.pixels().clone();
    let at = ((y * base.width() + x) * 4) as usize;
    pixels[at] = 255;
    pixels[at + 1] = 255;
    pixels[at + 2] = 255;
    Frame::from_raw(base.width(), base.height(), pixels).unwrap()
}

fn streaming() -> StreamingSession {
    let (session, _) = StreamingSession::start(&config(), "pc-7".to_string());
    let (session, _) = session.step(StreamEvent::Connected);
    let (session, action) = session.step(StreamEvent::HandshakeSent);
    assert_eq!(action, StreamAction::CaptureAfter { millis: 700 });
    assert_eq!(session.state(), SessionState::Streaming);
    session
}

#[test]
fn fingerprint_is_the_sha256_digest_in_hex() {
    // The session keeps the digest of what it sent: the same digest, offered
    // with other bytes, is taken for a repetition, and any other is not.
    let abc = "ba7816bf8f01cfea414140de5dae2223b00361a396177a9cb410ff61f20015ad";
    let (session, action) = streaming().offer_encoded(Some(b"abc".to_vec()));
    assert_eq!(action, StreamAction::SendFrame { bytes: b"abc".to_vec() });
    let (session, action) = session.offer_fingerprinted(vec![0], abc.to_string());
    assert_eq!(action, StreamAction::CaptureAfter { millis: 700 });
    let (_, action) = session.offer_fingerprinted(vec![0], abc.to_uppercase());
    assert_eq!(action, StreamAction::SendFrame { bytes: vec![0] });

    let empty = "e3b0c44298fc1c149afbf4c8996fb92427ae41e4649b934ca495991b7852b855";
    let (session, _) = streaming().offer_encoded(Some(Vec::new()));
    let (_, action) = session.offer_fingerprinted(vec![0], empty.to_string());
    assert_eq!(action, StreamAction::CaptureAfter { millis: 700 });
}

#[test]
fn handshake_names_role_and_host() {
    assert_eq!(handshake_message("pc-7"), r#"{"hostname":"pc-7","role":"student"}"#);
    assert_eq!(
        handshake_message("lab \"A\"\\1"),
        r#"{"hostname":"lab \"A\"\\1","role":"student"}"#
    );
}

#[test]
fn session_starts_by_connecting() {
    let (session, action) = StreamingSession::start(&config(), "pc-7".to_string());
    assert_eq!(session.state(), SessionState::Connecting);
    assert_eq!(
        action,
        StreamAction::Connect { url: "ws://viewer.example:8080/ws/screen".to_string() }
    );
}

#[test]
fn three_failed_connections_each_wait_then_connect_again() {
    let (mut session, mut action) = StreamingSession::start(&config(), "pc-7".to_string());
    for _ in 0..3 {
        assert_eq!(
            action,
            StreamAction::Connect { url: "ws://viewer.example:8080/ws/screen".to_string() }
        );
        let (closed, wait) = session.step(StreamEvent::ConnectFailed);
        assert_eq!(closed.state(), SessionState::Closed { reason: CloseReason::Error });
        assert_eq!(wait, StreamAction::ReconnectAfter { secs: 4 });
        let (again, next) = closed.step(StreamEvent::WaitElapsed);
        assert_eq!(again.state(), SessionState::Connecting);
        session = again;
        action = next;
    }
    let (session, action) = session.step(StreamEvent::Connected);
    assert_eq!(session.state(), SessionState::Handshaking);
    assert_eq!(
        action,
        StreamAction::SendHandshake {
            message: r#"{"hostname":"pc-7","role":"student"}"#.to_string()
        }
    );
    let (session, action) = session.step(StreamEvent::HandshakeSent);
    assert_eq!(session.state(), SessionState::Streaming);
    assert_eq!(action, StreamAction::CaptureAfter { millis: 700 });
}

#[test]
fn reconnect_wait_is_the_configured_one() {
    let mut cfg = config();
    cfg.reconnect_secs = 30;
    let (session, _) = StreamingSession::start(&cfg, "pc-7".to_string());
    let (_, action) = session.step(StreamEvent::ConnectFailed);
    assert_eq!(action, StreamAction::ReconnectAfter { secs: 30 });
}

#[test]
fn failed_handshake_closes_the_session() {
    let (session, _) = StreamingSession::start(&config(), "pc-7".to_string());
    let (session, _) = session.step(StreamEvent::Connected);
    let (session, action) = session.step(StreamEvent::HandshakeFailed);
    assert_eq!(session.state(), SessionState::Closed { reason: CloseReason::Error });
    assert_eq!(action, StreamAction::ReconnectAfter { secs: 4 });
}

#[test]
fn first_frame_is_sent_as_its_encoding() {
    let (session, action) = streaming().step(StreamEvent::Captured { frame: picture(0) });
    let expected = encode(picture(0), 60, 64, ResampleFilter::Triangle).unwrap();
    assert_eq!(action, StreamAction::SendFrame { bytes: expected });
    assert_eq!(session.state(), SessionState::Streaming);
    let (session, action) = session.step(StreamEvent::FrameSent);
    assert_eq!(action, StreamAction::CaptureAfter { millis: 700 });
    assert_eq!(session.state(), SessionState::Streaming);
}

#[test]
fn same_frame_is_not_sent_again() {
    let (session, action) = streaming().step(StreamEvent::Captured { frame: picture(3) });
    assert!(matches!(action, StreamAction::SendFrame { .. }));
    let (session, _) = session.step(StreamEvent::FrameSent);
    let (session, action) = session.step(StreamEvent::Captured { frame: picture(3) });
    assert_eq!(action, StreamAction::CaptureAfter { millis: 700 });
    let (_, action) = session.step(StreamEvent::Captured { frame: picture(3) });
    assert_eq!(action, StreamAction::CaptureAfter { millis: 700 });
}

#[test]
fn changed_pixel_changes_the_fingerprint_and_is_sent() {
    let plain = encode(picture(3), 60, 64, ResampleFilter::Triangle).unwrap();
    let marked =
        encode(picture_with_white_pixel(3, 40, 20), 60, 64, ResampleFilter::Triangle).unwrap();
    assert_ne!(plain, marked);

    let (session, _) = streaming().step(StreamEvent::Captured { frame: picture(3) });
    let (session, _) = session.step(StreamEvent::FrameSent);
    let (session, action) =
        session.step(StreamEvent::Captured { frame: picture_with_white_pixel(3, 40, 20) });
    assert_eq!(action, StreamAction::SendFrame { bytes: marked });
    let (session, _) = session.step(StreamEvent::FrameSent);
    let (_, action) = session.step(StreamEvent::Captured { frame: picture(3) });
    assert_eq!(action, StreamAction::SendFrame { bytes: plain });
}

#[test]
fn offered_bytes_are_sent_unless_they_repeat() {
    let (session, action) = streaming().offer_encoded(Some(vec![1, 2, 3]));
    assert_eq!(action, StreamAction::SendFrame { bytes: vec![1, 2, 3] });
    let (session, action) = session.offer_encoded(Some(vec![1, 2, 3]));
    assert_eq!(action, StreamAction::CaptureAfter { millis: 700 });
    let (session, action) = session.offer_encoded(None);
    assert_eq!(action, StreamAction::CaptureAfter { millis: 700 });
    let (session, action) = session.offer_encoded(Some(vec![1, 2, 3]));
    assert_eq!(action, StreamAction::CaptureAfter { millis: 700 });
    let (_, action) = session.offer_encoded(Some(vec![1, 2, 4]));
    assert_eq!(action, StreamAction::SendFrame { bytes: vec![1, 2, 4] });
}

#[test]
fn frame_is_told_by_its_fingerprint() {
    let (session, action) = streaming().offer_fingerprinted(vec![1], "aa".to_string());
    assert_eq!(action, StreamAction::SendFrame { bytes: vec![1] });
    let (session, action) = session.offer_fingerprinted(vec![2], "aa".to_string());
    assert_eq!(action, StreamAction::CaptureAfter { millis: 700 });
    let (_, action) = session.offer_fingerprinted(vec![2], "ab".to_string());
    assert_eq!(action, StreamAction::SendFrame { bytes: vec![2] });
}

#[test]
fn handshake_has_two_members() {
    assert_eq!(
        handshake_fields("pc-7"),
        vec![
            ("role".to_string(), JsonMember::Text("student".to_string())),
            ("hostname".to_string(), JsonMember::Text("pc-7".to_string()))
        ]
    );
}

#[test]
fn failed_capture_is_passed_over() {
    let (session, action) = streaming().step(StreamEvent::CaptureFailed);
    assert_eq!(action, StreamAction::CaptureAfter { millis: 700 });
    assert_eq!(session.state(), SessionState::Streaming);
}

#[test]
fn frame_that_cannot_be_encoded_is_passed_over() {
    let empty = Frame::from_raw(0, 0, vec![]).unwrap();
    let (session, action) = streaming().step(StreamEvent::Captured { frame: empty });
    assert_eq!(action, StreamAction::CaptureAfter { millis: 700 });
    assert_eq!(session.state(), SessionState::Streaming);
    let (_, action) = session.step(StreamEvent::Captured { frame: picture(1) });
    assert!(matches!(action, StreamAction::SendFrame { .. }));
}

#[test]
fn failed_send_closes_and_the_fingerprint_is_forgotten() {
    let (session, _) = streaming().step(StreamEvent::Captured { frame: picture(5) });
    let (session, action) = session.step(StreamEvent::SendFailed);
    assert_eq!(session.state(), SessionState::Closed { reason: CloseReason::Error });
    assert_eq!(action, StreamAction::ReconnectAfter { secs: 4 });
    let (session, action) = session.step(StreamEvent::WaitElapsed);
    assert!(matches!(action, StreamAction::Connect { .. }));
    let (session, _) = session.step(StreamEvent::Connected);
    let (session, _) = session.step(StreamEvent::HandshakeSent);
    let (_, action) = session.step(StreamEvent::Captured { frame: picture(5) });
    assert!(matches!(action, StreamAction::SendFrame { .. }));
}

#[test]
fn abandoned_capture_closes_the_session() {
    let (session, action) = streaming().step(StreamEvent::CaptureAborted);
    assert_eq!(session.state(), SessionState::Closed { reason: CloseReason::Error });
    assert_eq!(action, StreamAction::ReconnectAfter { secs: 4 });
}

#[test]
fn remote_close_is_graceful_and_reconnects() {
    let (session, action) = streaming().step(StreamEvent::Disconnected);
    assert_eq!(session.state(), SessionState::Closed { reason: CloseReason::Graceful });
    assert_eq!(action, StreamAction::ReconnectAfter { secs: 4 });
    let (session, action) = session.step(StreamEvent::WaitElapsed);
    assert_eq!(session.state(), SessionState::Connecting);
    assert_eq!(
        action,
        StreamAction::Connect { url: "ws://viewer.example:8080/ws/screen".to_string() }
    );
}

#[test]
fn closed_session_waits_until_the_wait_is_over() {
    let (session, _) = StreamingSession::start(&config(), "pc-7".to_string());
    let (session, _) = session.step(StreamEvent::ConnectFailed);
    let (session, action) = session.step(StreamEvent::Connected);
    assert_eq!(session.state(), SessionState::Closed { reason: CloseReason::Error });
    assert_eq!(action, StreamAction::ReconnectAfter { secs: 4 });
    let (session, action) = session.step(StreamEvent::FrameSent);
    assert_eq!(session.state(), SessionState::Closed { reason: CloseReason::Error });
    assert_eq!(action, StreamAction::ReconnectAfter { secs: 4 });
}

#[test]
fn what_is_not_awaited_closes_the_connection() {
    let (session, _) = StreamingSession::start(&config(), "pc-7".to_string());
    let (session, action) = session.step(StreamEvent::FrameSent);
    assert_eq!(session.state(), SessionState::Closed { reason: CloseReason::Error });
    assert_eq!(action, StreamAction::ReconnectAfter { secs: 4 });
    let (session, _) = streaming().step(StreamEvent::Connected);
    assert_eq!(session.state(), SessionState::Closed { reason: CloseReason::Error });
}
