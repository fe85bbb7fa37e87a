use pomodoro::error::CodecError;
use pomodoro::ipc::{Message, MessageRequest, MessageResponse, UdsMessage};

fn request_round_trips(request: MessageRequest) {
    let encoded = request.encode();
    let decoded = MessageRequest::decode(&encoded).expect("a request must decode");
    assert_eq!(decoded, request);

    let envelope = UdsMessage::Public(decoded);
    let encoded = envelope.encode();
    let decoded = UdsMessage::decode(&encoded).expect("an envelope must decode");
    assert_eq!(decoded, envelope);
}

#[test]
fn round_trip_create_full() {
    request_round_trips(MessageRequest::Create {
        work_time: Some(25),
        break_time: Some(5),
        description: Some(String::from("write the report")),
    });
}

#[test]
fn round_trip_create_empty_fields() {
    request_round_trips(MessageRequest::Create {
        work_time: None,
        break_time: None,
        description: None,
    });
}

#[test]
fn round_trip_create_unicode_description() {
    request_round_trips(MessageRequest::Create {
        work_time: Some(1),
        break_time: None,
        description: Some(String::from("caf\u{e9} \u{1f345} timer")),
    });
}

#[test]
fn round_trip_queue() {
    request_round_trips(MessageRequest::Queue {
        work_time: Some(50),
        break_time: Some(10),
        description: Some(String::new()),
    });
}

#[test]
fn round_trip_delete() {
    request_round_trips(MessageRequest::Delete { id: 7, all: false });
    request_round_trips(MessageRequest::Delete { id: 0, all: true });
    request_round_trips(MessageRequest::Delete { id: u16::MAX, all: true });
}

#[test]
fn round_trip_list() {
    request_round_trips(MessageRequest::List { show_percentage: true });
    request_round_trips(MessageRequest::List { show_percentage: false });
}

#[test]
fn round_trip_test_variant() {
    request_round_trips(MessageRequest::Test);
}

#[test]
fn round_trip_history() {
    request_round_trips(MessageRequest::History { should_clear: true });
    request_round_trips(MessageRequest::History { should_clear: false });
}

#[test]
fn round_trip_internal_messages() {
    for message in [Message::Ping, Message::Pong] {
        let encoded = message.encode();
        let decoded = Message::decode(&encoded).expect("a handshake message must decode");
        assert_eq!(decoded, message);

        let envelope = UdsMessage::Internal(message);
        let encoded = envelope.encode();
        let decoded = UdsMessage::decode(&encoded).expect("an envelope must decode");
        assert_eq!(decoded, envelope);
    }
}

#[test]
fn encoding_is_deterministic() {
    let a = MessageRequest::List { show_percentage: true }.encode();
    let b = MessageRequest::List { show_percentage: true }.encode();
    assert_eq!(a, b);
}

#[test]
fn round_trip_response() {
    let response = MessageResponse::new(vec![
        String::from("List succeed"),
        String::new(),
        String::from("line \u{2713}"),
    ]);
    let encoded = response.encode();
    let decoded = MessageResponse::decode(&encoded).expect("a response must decode");
    assert_eq!(decoded.get_body(), response.get_body());
}

#[test]
fn round_trip_response_empty_body() {
    let response = MessageResponse::new(Vec::new());
    let encoded = response.encode();
    let decoded = MessageResponse::decode(&encoded).expect("an empty response must decode");
    assert!(decoded.get_body().is_empty());
}

#[test]
fn decode_rejects_empty_buffer() {
    assert_eq!(UdsMessage::decode(&Vec::new()), Err(CodecError::Malformed));
    assert_eq!(Message::decode(&Vec::new()), Err(CodecError::Malformed));
    assert_eq!(MessageRequest::decode(&Vec::new()), Err(CodecError::Malformed));
    assert_eq!(MessageResponse::decode(&Vec::new()), Err(CodecError::Malformed));
}

#[test]
fn decode_rejects_unknown_tag() {
    assert_eq!(UdsMessage::decode(&vec![9u8]), Err(CodecError::Malformed));
    assert_eq!(Message::decode(&vec![2u8]), Err(CodecError::Malformed));
    assert_eq!(MessageRequest::decode(&vec![6u8]), Err(CodecError::Malformed));
}

#[test]
fn decode_rejects_truncated_bytes() {
    let mut encoded = MessageRequest::Create {
        work_time: Some(25),
        break_time: Some(5),
        description: Some(String::from("half")),
    }
    .encode();
    encoded.pop();
    assert_eq!(MessageRequest::decode(&encoded), Err(CodecError::Malformed));
}

#[test]
fn decode_rejects_trailing_bytes() {
    let mut encoded = Message::Ping.encode();
    encoded.push(0);
    assert_eq!(Message::decode(&encoded), Err(CodecError::Malformed));
}

#[test]
fn decode_rejects_invalid_utf8_description() {
    let mut encoded = MessageRequest::Create {
        work_time: None,
        break_time: None,
        description: Some(String::from("ab")),
    }
    .encode();
    // Clobber one byte inside the two-byte description payload with a
    // lone continuation byte, which is not valid UTF-8.
    let n = encoded.len();
    encoded[n - 1] = 0xbf;
    encoded[n - 2] = 0xbf;
    assert_eq!(MessageRequest::decode(&encoded), Err(CodecError::Malformed));
}
