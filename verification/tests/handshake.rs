use screenextend::handshake::{
    evaluate_pin_response, format_pin, frame_message, generate_pin, pin_request, read_frame,
    session_continues, typed_pin_is_valid, ChannelError, HandshakeError, PinCheck, ServerAnswer,
};
use screenextend::protocol::{SessionControlPayload, SignalingMessage};

fn reply_of(answer: ServerAnswer) -> SignalingMessage {
    match answer {
        ServerAnswer::Grant(m) => m,
        ServerAnswer::Refuse(m) => m,
        ServerAnswer::Ignore => panic!("Expected a reply"),
    }
}

#[test]
fn test_handshake_pin_success() {
    let server = PinCheck::generate();
    let pin = server.pin().to_string();
    let request = pin_request(&pin, "client-box".to_string());
    let answer = server.answer(&request);
    assert!(matches!(answer, ServerAnswer::Grant(_)));
    assert!(evaluate_pin_response(reply_of(answer)).is_ok());
    // After admission the host sends a Ping on the channel: its line reads
    // back as the text that was sent, and the session carries on.
    let ping_json = r#"{"type":"SessionControl","payload":{"Ping":{"timestamp_ms":42}}}"#;
    let line = frame_message(ping_json.to_string());
    let mut reader = std::io::Cursor::new(line.into_bytes());
    let mut read = String::new();
    let n = std::io::BufRead::read_line(&mut reader, &mut read).unwrap();
    assert_eq!(read_frame(n, &read), Ok(ping_json.to_string()));
    let ping = SignalingMessage::SessionControl(SessionControlPayload::Ping { timestamp_ms: 42 });
    assert!(session_continues(Some(&ping)));
}

#[test]
fn messages_sent_in_a_row_are_read_back_in_order() {
    let texts = [
        r#"{"type":"Announce","payload":{"hostname":"my-desktop"}}"#,
        r#"{"type":"PinRequest","payload":{"pin":"4821"}}"#,
        "",
        r#"{"type":"SessionControl","payload":"Disconnect"}"#,
    ];
    let mut stream = String::new();
    for t in texts {
        stream.push_str(&frame_message(t.to_string()));
    }
    let mut reader = std::io::Cursor::new(stream.into_bytes());
    for t in texts {
        let mut line = String::new();
        let n = std::io::BufRead::read_line(&mut reader, &mut line).unwrap();
        assert_eq!(line, format!("{}\n", t));
        assert_eq!(read_frame(n, &line), Ok(t.to_string()));
    }
    let mut line = String::new();
    let n = std::io::BufRead::read_line(&mut reader, &mut line).unwrap();
    assert_eq!(read_frame(n, &line), Err(ChannelError::Closed));
}

#[test]
fn test_handshake_pin_failure() {
    let server = PinCheck::generate();
    let request = pin_request("99999", "client-box".to_string());
    let answer = server.answer(&request);
    assert!(matches!(answer, ServerAnswer::Refuse(_)));
    let result = evaluate_pin_response(reply_of(answer));
    assert!(result.is_err(), "Expected handshake failure on wrong PIN");
    match result {
        Err(HandshakeError::AuthenticationFailed { reason }) => assert_eq!(reason, "Invalid PIN"),
        _ => panic!("Expected an authentication failure"),
    }
}

#[test]
fn generated_pins_are_four_digits() {
    for _ in 0..200 {
        let pin = generate_pin();
        assert_eq!(pin.len(), 4);
        assert!(pin.chars().all(|c| c.is_ascii_digit()));
    }
}

#[test]
fn pins_are_zero_padded() {
    assert_eq!(format_pin(0), "0000");
    assert_eq!(format_pin(7), "0007");
    assert_eq!(format_pin(42), "0042");
    assert_eq!(format_pin(481), "0481");
    assert_eq!(format_pin(4821), "4821");
    assert_eq!(format_pin(9999), "9999");
}

#[test]
fn pin_check_keeps_given_pin() {
    let check = PinCheck::with_pin("4821".to_string());
    assert_eq!(check.pin(), "4821");
    let ok = check.answer(&pin_request("4821", "laptop".to_string()));
    match reply_of(ok) {
        SignalingMessage::PinResponse(p) => {
            assert!(p.accepted);
            assert!(p.reason.is_none());
        }
        _ => panic!("Expected a PIN response"),
    }
    let bad = check.answer(&pin_request("4822", "laptop".to_string()));
    match reply_of(bad) {
        SignalingMessage::PinResponse(p) => {
            assert!(!p.accepted);
            assert_eq!(p.reason.as_deref(), Some("Invalid PIN"));
        }
        _ => panic!("Expected a PIN response"),
    }
}

#[test]
fn non_pin_messages_are_ignored_by_host() {
    let check = PinCheck::with_pin("1234".to_string());
    let ping = SignalingMessage::SessionControl(SessionControlPayload::Ping { timestamp_ms: 1 });
    assert!(matches!(check.answer(&ping), ServerAnswer::Ignore));
}

#[test]
fn refusal_without_reason_reports_unknown_reason() {
    let reply = SignalingMessage::PinResponse(screenextend::protocol::PinResponsePayload {
        accepted: false,
        reason: None,
    });
    match evaluate_pin_response(reply) {
        Err(HandshakeError::AuthenticationFailed { reason }) => {
            assert_eq!(reason, "Unknown reason");
            assert_eq!(
                HandshakeError::authentication_message(&reason),
                "Authentication failed: Unknown reason"
            );
        }
        _ => panic!("Expected an authentication failure"),
    }
}

#[test]
fn unexpected_reply_is_an_error() {
    let reply = SignalingMessage::SessionControl(SessionControlPayload::Stop);
    assert!(matches!(
        evaluate_pin_response(reply),
        Err(HandshakeError::UnexpectedResponse(SignalingMessage::SessionControl(
            SessionControlPayload::Stop
        )))
    ));
}

#[test]
fn frames_round_trip() {
    let json = r#"{"type":"SessionControl","payload":{"action":"Stop"}}"#.to_string();
    let line = frame_message(json.clone());
    assert_eq!(line, format!("{}\n", json));
    assert_eq!(read_frame(line.len(), &line).unwrap(), json);
}

#[test]
fn read_frame_trims_and_detects_close() {
    assert_eq!(read_frame(9, "  {\"a\":1}\r\n").unwrap(), "{\"a\":1}");
    assert_eq!(read_frame(3, " \t\n").unwrap(), "");
    assert_eq!(read_frame(0, ""), Err(ChannelError::Closed));
}

#[test]
fn session_ends_on_disconnect_or_failure() {
    let disconnect = SignalingMessage::SessionControl(SessionControlPayload::Disconnect);
    assert!(!session_continues(Some(&disconnect)));
    assert!(!session_continues(None));
    let stop = SignalingMessage::SessionControl(SessionControlPayload::Stop);
    assert!(session_continues(Some(&stop)));
}

#[test]
fn typed_pin_must_be_four_digits() {
    assert!(typed_pin_is_valid("1234"));
    assert!(typed_pin_is_valid("0000"));
    assert!(!typed_pin_is_valid("12a4"));
    assert!(!typed_pin_is_valid("123"));
    assert!(!typed_pin_is_valid("12345"));
    assert!(!typed_pin_is_valid(""));
    assert!(!typed_pin_is_valid("１２３４"));
}
