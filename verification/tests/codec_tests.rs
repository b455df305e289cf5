use std::sync::Arc;

use flo::codec::{
    ClusterMember, ClusterState, ConsumerStart, CursorInfo, ErrorMessage, EventAck, ProduceEvent,
    ProtocolMessage,
};
use flo::event::{FloEventId, OwnedFloEvent, RecvEvent};
use flo::headers;
use flo::parse::{parse_any, parse_auth, parse_str, Decoded};
use flo::ser::Serializer;
use flo::time;
use flo::wire::ErrorKind;

fn test_serialize_then_deserialize(message: &ProtocolMessage) {
    let result = ser_de(message);
    assert_eq!(*message, result);
}

fn ser_de(message: &ProtocolMessage) -> ProtocolMessage {
    serde_with_body(message, false)
}

fn serde_with_body(message: &ProtocolMessage, include_body: bool) -> ProtocolMessage {
    let mut buffer: Vec<u8> = Vec::new();
    assert!(message.is_wire_encodable());
    let mut len = message.serialize(&mut buffer);
    if include_body {
        if let Some(body) = message.get_body() {
            buffer.extend_from_slice(body);
            len += body.len();
        }
    }
    buffer.extend_from_slice(&[4, 3, 2, 1]);
    println!("buffer: {:?}", &buffer[..(len + 4)]);

    match parse_any(&buffer) {
        Decoded::Done(result, consumed) => {
            assert!(buffer[consumed..].starts_with(&[4, 3, 2, 1]));
            result
        }
        Decoded::Error => {
            panic!("Got parse error")
        }
        Decoded::Incomplete(need) => {
            panic!("Got incomplete: {:?}", need)
        }
    }
}

#[test]
fn serde_receive_event() {
    let event = OwnedFloEvent {
        id: FloEventId::new(4, 5),
        timestamp: time::from_millis_since_epoch(99),
        parent_id: Some(FloEventId::new(4, 3)),
        namespace: "/foo/bar".to_owned(),
        data: vec![9; 99],
    };
    let message = ProtocolMessage::ReceiveEvent(RecvEvent::Owned(event.clone()));
    let result = serde_with_body(&message, true);
    assert_eq!(message, result);

    let arc_message = ProtocolMessage::ReceiveEvent(RecvEvent::Ref(Arc::new(event.clone())));
    let result = serde_with_body(&arc_message, true);
    assert_eq!(message, result);
}

#[test]
fn stop_consuming_is_serialized_and_parsed() {
    test_serialize_then_deserialize(&ProtocolMessage::StopConsuming);
}

#[test]
fn cursor_created_is_serialized_and_parsed() {
    test_serialize_then_deserialize(&ProtocolMessage::CursorCreated(CursorInfo {
        op_id: 543,
        batch_size: 78910,
    }));
}

#[test]
fn next_batch_is_serialized_and_parsed() {
    test_serialize_then_deserialize(&ProtocolMessage::NextBatch);
}

#[test]
fn end_of_batch_is_serialized_and_parsed() {
    test_serialize_then_deserialize(&ProtocolMessage::EndOfBatch);
}

#[test]
fn set_batch_size_is_serialized_and_parsed() {
    test_serialize_then_deserialize(&ProtocolMessage::SetBatchSize(1234567));
}

#[test]
fn awaiting_events_message_is_serialized_and_parsed() {
    test_serialize_then_deserialize(&mut ProtocolMessage::AwaitingEvents);
}

#[test]
fn error_message_is_parsed() {
    let error = ErrorMessage {
        op_id: 12345,
        kind: ErrorKind::InvalidNamespaceGlob,
        description: "some shit happened".to_owned(),
    };
    test_serialize_then_deserialize(&mut ProtocolMessage::Error(error));
}

#[test]
fn acknowledge_event_message_is_parsed() {
    test_serialize_then_deserialize(&mut ProtocolMessage::AckEvent(EventAck {
        op_id: 2345667,
        event_id: FloEventId::new(123, 456),
    }));
}

#[test]
fn peer_announce_is_parsed() {
    let state = ClusterState {
        actor_id: 5,
        actor_port: 5555,
        version_vector: vec![
            FloEventId::new(5, 6),
            FloEventId::new(1, 9),
            FloEventId::new(2, 1),
        ],
        other_members: vec![
            ClusterMember {
                addr: "0.0.0.0:4444".to_owned(),
                actor_id: 6,
                connected: true,
            },
            ClusterMember {
                addr: "7.8.9.10:3333".to_owned(),
                actor_id: 3,
                connected: false,
            },
            ClusterMember {
                addr: "0.0.0.0:4444".to_owned(),
                actor_id: 2,
                connected: true,
            },
        ],
    };
    test_serialize_then_deserialize(&mut ProtocolMessage::PeerAnnounce(state));
}

#[test]
fn peer_update_is_parsed() {
    let state = ClusterState {
        actor_id: 5,
        actor_port: 5555,
        version_vector: vec![
            FloEventId::new(5, 6),
            FloEventId::new(1, 9),
            FloEventId::new(2, 1),
        ],
        other_members: vec![
            ClusterMember {
                addr: "0.0.0.0:4444".to_owned(),
                actor_id: 6,
                connected: true,
            },
            ClusterMember {
                addr: "7.8.9.10:3333".to_owned(),
                actor_id: 3,
                connected: false,
            },
            ClusterMember {
                addr: "0.0.0.0:4444".to_owned(),
                actor_id: 2,
                connected: true,
            },
        ],
    };
    test_serialize_then_deserialize(&mut ProtocolMessage::PeerUpdate(state));
}

#[test]
fn event_marker_update_is_parsed() {
    test_serialize_then_deserialize(&mut ProtocolMessage::UpdateMarker(FloEventId::new(2, 255)));
}

#[test]
fn start_consuming_message_is_parsed() {
    test_serialize_then_deserialize(&mut ProtocolMessage::StartConsuming(ConsumerStart {
        op_id: 123,
        namespace: "/test/ns".to_owned(),
        max_events: 8766,
    }));
}

#[test]
fn parse_producer_event_parses_the_header_but_not_the_data() {
    let input = ProduceEvent {
        namespace: "/the/namespace".to_owned(),
        parent_id: Some(FloEventId::new(123, 456)),
        op_id: 9,
        data: vec![9; 5],
    };
    let mut message_input = ProtocolMessage::ProduceEvent(input.clone());
    let message_result = ser_de(&mut message_input);

    if let ProtocolMessage::ProduceEvent(result) = message_result {
        assert_eq!(input.namespace, result.namespace);
        assert_eq!(input.parent_id, result.parent_id);
        assert_eq!(input.op_id, result.op_id);

        // The vector must be allocated with the correct capacity, but we
        // haven't actually read all the data
        assert_eq!(input.data.len(), result.data.capacity());
    } else {
        panic!("got the wrong fucking message. Just quit now");
    }
}

#[test]
fn parse_client_auth_returns_incomplete_result_when_password_is_missing() {
    let mut input = vec![headers::CLIENT_AUTH];
    input.extend_from_slice(b"hello\n");
    input.extend_from_slice(b"world\n");

    let result = parse_auth(&input);
    match result {
        Decoded::Incomplete(_) => {}
        e => panic!("Expected Incomplete, got: {:?}", e),
    }
}

#[test]
fn parse_client_auth_parses_valid_header_with_no_remaining_bytes() {
    test_serialize_then_deserialize(&mut ProtocolMessage::ClientAuth {
        namespace: "hello".to_owned(),
        username: "usr".to_owned(),
        password: "pass".to_owned(),
    });
}

#[test]
fn parse_client_auth_returns_error_result_when_namespace_contains_invalid_utf_characters() {
    let mut input: Vec<u8> = Vec::new();
    input.extend_from_slice(b"FLO_AUT\n");
    input.extend_from_slice(&vec![0, 0xC0, 0, 0, 2, 10]);
    input.extend_from_slice(b"usr\n");
    input.extend_from_slice(b"pass\n");
    let result = parse_auth(&input);
    assert!(matches!(result, Decoded::Error));
}

#[test]
fn parse_string_returns_empty_string_string_length_is_0() {
    let input = vec![0, 0, 110, 4, 5, 6, 7];
    let (result, consumed) = match parse_str(&input) {
        Decoded::Done(s, n) => (s, n),
        other => panic!("expected Done, got: {:?}", other),
    };
    let remaining = &input[consumed..];
    assert_eq!("".to_owned(), result);
    assert_eq!(&vec![110, 4, 5, 6, 7], &remaining.to_vec());
}

#[test]
fn string_is_serialized_and_parsed() {
    let input = "hello\n\tmoar bytes";

    let (buffer, n_bytes) = Serializer::new(Vec::new()).write_string(input).finish();
    assert_eq!(19, n_bytes);

    match parse_str(&buffer[0..19]) {
        Decoded::Done(result, _) => assert_eq!(input.to_owned(), result),
        other => panic!("expected Done, got: {:?}", other),
    }
}

#[test]
fn this_works_how_i_think_it_does() {
    let input = vec![
        3, 0, 0, 0, 0, 0, 0, 1, 34, 0, 1, 0, 0, 0, 0, 0, 0, 0, 0, 0, 0, 0, 0, 1, 93, 77, 45, 214,
        26, 47, 101, 118, 101,
    ];

    let result = parse_any(&input);
    let expected: Decoded<ProtocolMessage> = Decoded::Incomplete(12164);
    assert_eq!(expected, result);
}
