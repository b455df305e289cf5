use flo::codec::{ClusterMember, ClusterState, ConsumerStart, ProduceEvent, ProtocolMessage};
use flo::connection::{ConnectionHandler, CursorPhase, DEFAULT_BATCH_SIZE};
use flo::counter::AtomicCounterWriter;
use flo::engine::{EngineRef, EventStreamRef, SystemStreamRef};
use flo::event::{FloEventId, OwnedFloEvent, RecvEvent, Timestamp};
use flo::glob::{is_valid_glob, matches_glob};
use flo::options::{MemoryLimit, MemoryUnit};
use flo::parse::{parse_any, Decoded};
use flo::peer::{apply_remote_events, ClusterManager};
use flo::store::{EventStore, EventStream};
use flo::time;
use flo::versionvec::VersionVector;
use flo::wire::ErrorKind;

fn event(actor: u16, counter: u64, ns: &str) -> OwnedFloEvent {
    OwnedFloEvent {
        id: FloEventId::new(actor, counter),
        timestamp: time::from_millis_since_epoch(7),
        parent_id: None,
        namespace: ns.to_owned(),
        data: vec![1, 2, 3],
    }
}

#[test]
fn glob_matches_literals_and_wildcards() {
    assert!(matches_glob("/foo/bar", "/foo/bar"));
    assert!(!matches_glob("/foo/bar", "/foo/baz"));
    assert!(matches_glob("/foo/*", "/foo/bar"));
    assert!(!matches_glob("/foo/*", "/foo"));
    assert!(matches_glob("/a/**", "/a/b/c"));
    assert!(matches_glob("/a/**", "/a"));
    assert!(matches_glob("**", "/any/thing"));
    assert!(!matches_glob("/a/*", "/a/"));
}

#[test]
fn glob_validity() {
    assert!(is_valid_glob("/foo/*"));
    assert!(is_valid_glob("/foo/**"));
    assert!(is_valid_glob("/plain/path"));
    assert!(!is_valid_glob("/foo/*bar"));
    assert!(!is_valid_glob("/foo/***"));
}

#[test]
fn error_kind_bytes_round_trip() {
    assert_eq!(ErrorKind::InvalidNamespaceGlob.u8_value(), 15);
    assert_eq!(ErrorKind::InvalidConsumerState.u8_value(), 16);
    assert_eq!(ErrorKind::InvalidVersionVector.u8_value(), 17);
    assert_eq!(ErrorKind::StorageEngineError.u8_value(), 18);
    assert_eq!(ErrorKind::from_u8(15), Ok(ErrorKind::InvalidNamespaceGlob));
    assert_eq!(ErrorKind::from_u8(16), Ok(ErrorKind::InvalidConsumerState));
    assert_eq!(ErrorKind::from_u8(17), Ok(ErrorKind::InvalidVersionVector));
    assert_eq!(ErrorKind::from_u8(18), Ok(ErrorKind::StorageEngineError));
    assert_eq!(ErrorKind::from_u8(99), Err(99));
}

#[test]
fn ack_event_encodes_exact_bytes() {
    let message = ProtocolMessage::AckEvent(flo::codec::EventAck {
        op_id: 1,
        event_id: FloEventId::new(2, 3),
    });
    let mut buffer: Vec<u8> = Vec::new();
    let n = message.serialize(&mut buffer);
    assert_eq!(n, 15);
    assert_eq!(buffer, vec![9, 0, 0, 0, 1, 0, 0, 0, 0, 0, 0, 0, 3, 0, 2]);
}

#[test]
fn receive_event_with_zero_counter_is_a_framing_error() {
    let mut input = vec![3u8];
    input.extend_from_slice(&[0, 0, 0, 0, 0, 0, 0, 0]); // zero counter
    input.extend_from_slice(&[0, 4]); // actor
    input.extend_from_slice(&[0; 10]); // parent id
    input.extend_from_slice(&[0; 8]); // timestamp
    input.extend_from_slice(&[0, 0]); // empty namespace
    input.extend_from_slice(&[0, 0, 0, 0]); // data length
    assert!(matches!(parse_any(&input), Decoded::Error));
}

#[test]
fn invalid_utf8_in_a_string_field_is_an_error() {
    // StartConsuming with a one-byte namespace that is not valid UTF-8
    let input = vec![5u8, 0, 0, 0, 7, 0, 1, 0xC0, 0, 0, 0, 0, 0, 0, 0, 99];
    assert!(matches!(parse_any(&input), Decoded::Error));
}

#[test]
fn unknown_tag_is_an_error() {
    assert!(matches!(parse_any(&[11u8, 0, 0]), Decoded::Error));
    assert!(matches!(parse_any(&[42u8]), Decoded::Error));
}

#[test]
fn empty_input_is_incomplete() {
    let empty: Vec<u8> = Vec::new();
    assert!(matches!(
        parse_any(&empty),
        Decoded::Incomplete(1)
    ));
}

#[test]
fn multibyte_strings_survive_the_wire() {
    let message = ProtocolMessage::ClientAuth {
        namespace: "caf\u{e9}/\u{1f600}".to_owned(),
        username: "\u{3b1}\u{3b2}".to_owned(),
        password: "p".to_owned(),
    };
    let mut buffer: Vec<u8> = Vec::new();
    message.serialize(&mut buffer);
    match parse_any(&buffer) {
        Decoded::Done(result, _) => assert_eq!(message, result),
        other => panic!("expected Done, got: {:?}", other),
    }
}

#[test]
fn duplicate_actor_markers_fail_the_version_vector() {
    let ids = vec![FloEventId::new(7, 1), FloEventId::new(7, 2)];
    assert!(matches!(
        VersionVector::from_vec(&ids),
        Err(ErrorKind::InvalidVersionVector)
    ));
    let distinct = vec![FloEventId::new(7, 1), FloEventId::new(8, 2)];
    let vv = VersionVector::from_vec(&distinct).unwrap();
    assert_eq!(vv.get(7), 1);
    assert_eq!(vv.get(8), 2);
    assert_eq!(vv.get(9), 0);
}

#[test]
fn second_update_marker_for_same_actor_is_rejected() {
    let mut handler = ConnectionHandler::new(1);
    let first = handler.handle_message(ProtocolMessage::UpdateMarker(FloEventId::new(4, 10)));
    assert!(first.replies.is_empty());
    let second = handler.handle_message(ProtocolMessage::UpdateMarker(FloEventId::new(4, 11)));
    assert_eq!(second.replies.len(), 1);
    match &second.replies[0] {
        ProtocolMessage::Error(e) => {
            assert_eq!(e.kind, ErrorKind::InvalidVersionVector);
        }
        other => panic!("expected an error reply, got: {:?}", other),
    }
}

#[test]
fn set_batch_size_while_consuming_is_rejected() {
    let mut handler = ConnectionHandler::new(1);
    let out = handler.handle_message(ProtocolMessage::SetBatchSize(3));
    assert!(out.replies.is_empty());
    let started = handler.handle_message(ProtocolMessage::StartConsuming(ConsumerStart {
        op_id: 8,
        namespace: "/a/**".to_owned(),
        max_events: 100,
    }));
    match &started.replies[0] {
        ProtocolMessage::CursorCreated(info) => {
            assert_eq!(info.op_id, 8);
            assert_eq!(info.batch_size, 3);
        }
        other => panic!("expected CursorCreated, got: {:?}", other),
    }
    let rejected = handler.handle_message(ProtocolMessage::SetBatchSize(5));
    match &rejected.replies[0] {
        ProtocolMessage::Error(e) => {
            assert_eq!(e.kind, ErrorKind::InvalidConsumerState);
        }
        other => panic!("expected an error reply, got: {:?}", other),
    }
}

#[test]
fn invalid_glob_pattern_is_rejected_at_start_consuming() {
    let mut handler = ConnectionHandler::new(1);
    let out = handler.handle_message(ProtocolMessage::StartConsuming(ConsumerStart {
        op_id: 9,
        namespace: "/bad/*glob".to_owned(),
        max_events: 1,
    }));
    match &out.replies[0] {
        ProtocolMessage::Error(e) => {
            assert_eq!(e.op_id, 9);
            assert_eq!(e.kind, ErrorKind::InvalidNamespaceGlob);
        }
        other => panic!("expected an error reply, got: {:?}", other),
    }
}

#[test]
fn cursor_delivers_matching_events_then_signals_end_of_batch() {
    let mut handler = ConnectionHandler::new(1);
    handler.handle_message(ProtocolMessage::StartConsuming(ConsumerStart {
        op_id: 77,
        namespace: "/a/**".to_owned(),
        max_events: 5,
    }));
    let mut received: usize = 0;
    let mut end_of_batch: usize = 0;
    for counter in 1..=6u64 {
        let e = event(1, counter, "/a/b");
        for reply in handler.handle_event(&e) {
            match reply {
                ProtocolMessage::ReceiveEvent(ev) => {
                    assert_eq!(ev.id().event_counter, counter);
                    received += 1;
                }
                ProtocolMessage::EndOfBatch => end_of_batch += 1,
                other => panic!("unexpected reply: {:?}", other),
            }
        }
    }
    // the budget was five: five deliveries in counter order, one
    // EndOfBatch, and the sixth event is not forwarded
    assert_eq!(received, 5);
    assert_eq!(end_of_batch, 1);
    assert!(matches!(handler.cursor.as_ref().unwrap().phase, CursorPhase::Stopped));
}

#[test]
fn cursor_respects_update_markers_and_batches() {
    let mut handler = ConnectionHandler::new(1);
    handler.handle_message(ProtocolMessage::UpdateMarker(FloEventId::new(1, 2)));
    handler.handle_message(ProtocolMessage::SetBatchSize(2));
    handler.handle_message(ProtocolMessage::StartConsuming(ConsumerStart {
        op_id: 5,
        namespace: "/ns".to_owned(),
        max_events: 100,
    }));
    // counters 1 and 2 fall at or below the marker: not delivered
    assert!(handler.handle_event(&event(1, 1, "/ns")).is_empty());
    assert!(handler.handle_event(&event(1, 2, "/ns")).is_empty());
    // a non-matching namespace is not delivered
    assert!(handler.handle_event(&event(1, 3, "/other")).is_empty());
    let third = handler.handle_event(&event(1, 3, "/ns"));
    assert_eq!(third.len(), 1);
    let fourth = handler.handle_event(&event(1, 4, "/ns"));
    assert_eq!(fourth.len(), 2);
    assert!(matches!(fourth[1], ProtocolMessage::EndOfBatch));
    // waiting for NextBatch: nothing more goes out
    assert!(handler.handle_event(&event(1, 5, "/ns")).is_empty());
    let out = handler.handle_message(ProtocolMessage::NextBatch);
    assert!(out.replies.is_empty());
    let fifth = handler.handle_event(&event(1, 5, "/ns"));
    assert_eq!(fifth.len(), 1);
}

#[test]
fn awaiting_events_is_sent_at_most_once() {
    let mut handler = ConnectionHandler::new(1);
    handler.handle_message(ProtocolMessage::StartConsuming(ConsumerStart {
        op_id: 5,
        namespace: "/ns".to_owned(),
        max_events: 100,
    }));
    let first = handler.on_caught_up();
    assert_eq!(first.len(), 1);
    assert!(matches!(first[0], ProtocolMessage::AwaitingEvents));
    assert!(handler.on_caught_up().is_empty());
    assert!(handler.on_caught_up().is_empty());
}

#[test]
fn stop_consuming_drops_the_cursor_and_frees_the_connection() {
    let mut handler = ConnectionHandler::new(1);
    handler.handle_message(ProtocolMessage::StartConsuming(ConsumerStart {
        op_id: 5,
        namespace: "/ns".to_owned(),
        max_events: 100,
    }));
    let out = handler.handle_message(ProtocolMessage::StopConsuming);
    assert!(out.replies.is_empty());
    // in-flight events are drained without emitting further frames
    assert!(handler.handle_event(&event(1, 1, "/ns")).is_empty());
    // the connection can be reused for another query
    let restarted = handler.handle_message(ProtocolMessage::StartConsuming(ConsumerStart {
        op_id: 6,
        namespace: "/ns".to_owned(),
        max_events: 1,
    }));
    assert!(matches!(restarted.replies[0], ProtocolMessage::CursorCreated(_)));
}

#[test]
fn client_messages_on_a_peer_connection_are_rejected() {
    let mut handler = ConnectionHandler::new(1);
    let announce = ClusterState {
        actor_id: 2,
        actor_port: 4000,
        version_vector: Vec::new(),
        other_members: Vec::new(),
    };
    handler.handle_message(ProtocolMessage::PeerAnnounce(announce));
    let out = handler.handle_message(ProtocolMessage::SetBatchSize(4));
    match &out.replies[0] {
        ProtocolMessage::Error(e) => assert_eq!(e.kind, ErrorKind::InvalidConsumerState),
        other => panic!("expected an error reply, got: {:?}", other),
    }
}

#[test]
fn peer_events_are_handed_to_the_store() {
    let mut handler = ConnectionHandler::new(1);
    handler.handle_message(ProtocolMessage::PeerAnnounce(ClusterState {
        actor_id: 2,
        actor_port: 4000,
        version_vector: Vec::new(),
        other_members: Vec::new(),
    }));
    let e = event(2, 1, "/ns");
    let out = handler.handle_message(ProtocolMessage::ReceiveEvent(RecvEvent::Owned(e.clone())));
    assert!(out.replies.is_empty());
    assert_eq!(out.peer_event.unwrap().id, e.id);
}

#[test]
fn produce_is_submitted_and_acknowledged() {
    let mut handler = ConnectionHandler::new(1);
    let out = handler.handle_message(ProtocolMessage::ProduceEvent(ProduceEvent {
        op_id: 9,
        namespace: "/foo/bar".to_owned(),
        parent_id: None,
        data: vec![9; 5],
    }));
    let produce = out.produce.unwrap();
    assert_eq!(produce.op_id, 9);
    let reply = flo::connection::produce_reply(produce.op_id, Ok(FloEventId::new(1, 1)));
    match reply {
        ProtocolMessage::AckEvent(ack) => {
            assert_eq!(ack.op_id, 9);
            assert_eq!(ack.event_id, FloEventId::new(1, 1));
        }
        other => panic!("expected an ack, got: {:?}", other),
    }
    let failure = flo::connection::produce_reply(9, Err(ErrorKind::StorageEngineError));
    match failure {
        ProtocolMessage::Error(e) => assert_eq!(e.kind, ErrorKind::StorageEngineError),
        other => panic!("expected an error, got: {:?}", other),
    }
}

#[test]
fn appends_assign_dense_counters_and_survive_restart() {
    let mut stream = EventStream::new("default".to_owned(), 7, EventStore::new());
    for expected in 1..=3u64 {
        let id = stream
            .append("/foo".to_owned(), None, Timestamp { millis: 1 }, vec![1])
            .unwrap();
        assert_eq!(id, FloEventId::new(7, expected));
    }
    assert_eq!(stream.highest_counter(7), 3);
    // restart: a new stream over the same persisted store continues at
    // highest_counter + 1
    let store = stream.into_store();
    let mut restarted = EventStream::new("default".to_owned(), 7, store);
    let id = restarted
        .append("/foo".to_owned(), None, Timestamp { millis: 2 }, vec![2])
        .unwrap();
    assert_eq!(id, FloEventId::new(7, 4));
    assert_eq!(restarted.highest_counter(7), 4);
}

#[test]
fn store_reads_filter_by_position_and_namespace() {
    let mut store = EventStore::new();
    store.append(event(1, 1, "/a/x"));
    store.append(event(1, 2, "/b/y"));
    store.append(event(1, 3, "/a/z"));
    let from_two = store.read_from(1, 1);
    assert_eq!(from_two.len(), 2);
    assert_eq!(from_two[0].id.event_counter, 2);
    assert_eq!(from_two[1].id.event_counter, 3);
    let vv = VersionVector::new();
    let matching = store.iterate(&vv, "/a/**");
    assert_eq!(matching.len(), 2);
    assert_eq!(matching[0].id.event_counter, 1);
    assert_eq!(matching[1].id.event_counter, 3);
}

#[test]
fn eviction_drops_old_events_only() {
    let mut store = EventStore::new();
    store.append(event(1, 1, "/a"));
    store.append(event(1, 2, "/a"));
    store.append(event(2, 1, "/a"));
    store.evict_before(1, 2);
    assert_eq!(store.read_from(1, 0).len(), 1);
    assert_eq!(store.read_from(1, 0)[0].id.event_counter, 2);
    assert_eq!(store.read_from(2, 0).len(), 1);
    assert_eq!(store.highest_counter(1), 2);
}

#[test]
fn peers_with_disjoint_histories_converge() {
    let mut a = EventStore::new();
    let mut b = EventStore::new();
    a.append(event(1, 1, "/a"));
    a.append(event(1, 2, "/a"));
    b.append(event(2, 1, "/b"));
    b.append(event(2, 2, "/b"));
    b.append(event(2, 3, "/b"));

    // each announces its version vector; the other answers with what the
    // announcer has not seen
    let vv_a = a.version_vector();
    let vv_b = b.version_vector();
    let for_a = b.events_above(&vv_a);
    let for_b = a.events_above(&vv_b);
    apply_remote_events(&mut a, &for_a);
    apply_remote_events(&mut b, &for_b);

    for actor in [1u16, 2u16] {
        assert_eq!(a.highest_counter(actor), b.highest_counter(actor));
    }
    assert_eq!(a.highest_counter(1), 2);
    assert_eq!(a.highest_counter(2), 3);

    // a second delivery of the same events is discarded idempotently
    let replay = b.events_above(&a.version_vector());
    assert!(replay.is_empty());
    apply_remote_events(&mut a, &for_a);
    assert_eq!(a.highest_counter(2), 3);
    assert_eq!(a.read_from(2, 0).len(), 3);
}

#[test]
fn cluster_manager_tracks_members_and_discovers_peers() {
    let mut manager = ClusterManager::new(5, 5555);
    let announce = ClusterState {
        actor_id: 6,
        actor_port: 4444,
        version_vector: Vec::new(),
        other_members: vec![
            ClusterMember {
                addr: "7.8.9.10:3333".to_owned(),
                actor_id: 3,
                connected: false,
            },
            ClusterMember {
                addr: "0.0.0.0:1111".to_owned(),
                actor_id: 5,
                connected: true,
            },
        ],
    };
    let discovered = manager.apply_peer_announce("0.0.0.0:4444".to_owned(), &announce);
    // the transitive member is dialled; this replica itself is not
    assert_eq!(discovered, vec!["7.8.9.10:3333".to_owned()]);
    let snapshot = manager.cluster_state(&VersionVector::new());
    assert_eq!(snapshot.actor_id, 5);
    assert_eq!(snapshot.actor_port, 5555);
    assert_eq!(snapshot.other_members.len(), 2);

    manager.mark_disconnected(6);
    let snapshot = manager.cluster_state(&VersionVector::new());
    let sender = snapshot
        .other_members
        .iter()
        .find(|m| m.actor_id == 6)
        .unwrap();
    assert!(!sender.connected);
    assert_eq!(sender.addr, "0.0.0.0:4444");
}

#[test]
fn engine_hands_out_streams_and_connection_ids() {
    let streams = vec![
        ("default".to_owned(), EventStreamRef::new("default".to_owned())),
        ("metrics".to_owned(), EventStreamRef::new("metrics".to_owned())),
    ];
    let mut engine = EngineRef::new(SystemStreamRef::new(), streams);
    assert_eq!(engine.next_connection_id(), 1);
    assert_eq!(engine.next_connection_id(), 2);
    let found = engine.get_stream("metrics").unwrap();
    assert_eq!(found.name(), "metrics");
    assert!(engine.get_stream("missing").is_err());
    assert_eq!(engine.get_default_stream().name(), "default");
    let empty = EngineRef::new(SystemStreamRef::new(), Vec::new());
    assert_eq!(empty.get_default_stream().name(), "system");
    assert_eq!(flo::engine::system_stream_name(), "system");
}

#[test]
fn counters_only_grow() {
    let mut writer = AtomicCounterWriter::zero();
    let mut early = writer.reader();
    assert_eq!(writer.increment_and_get_relaxed(5), 5);
    assert_eq!(writer.fetch_add(2), 5);
    writer.set_if_greater(3);
    let mut reader = writer.reader();
    assert_eq!(reader.load_relaxed(), 7);
    writer.set_if_greater(100);
    assert_eq!(writer.reader().load(), 100);
    // a reader taken at zero aliases the shared cell: the writer's later
    // mutations are observable through it
    assert_eq!(early.load(), 100);
    assert!(reader.load() >= 7);
    let other = AtomicCounterWriter::with_value(42);
    assert_eq!(other.reader().load(), 42);
}

#[test]
fn memory_limits_convert_to_bytes() {
    assert_eq!(MemoryLimit::new(2, MemoryUnit::Megabyte).as_bytes(), 2097152);
    assert_eq!(MemoryLimit::new(3, MemoryUnit::Kilobyte).as_bytes(), 3072);
    assert_eq!(MemoryLimit::new(9, MemoryUnit::Byte).as_bytes(), 9);
}

#[test]
fn message_to_owned_collapses_shared_events() {
    let e = event(4, 5, "/ns");
    let shared = ProtocolMessage::ReceiveEvent(RecvEvent::Ref(std::sync::Arc::new(e.clone())));
    let owned = flo::codec::message_to_owned(shared);
    match &owned {
        ProtocolMessage::ReceiveEvent(RecvEvent::Owned(inner)) => assert_eq!(inner.id, e.id),
        other => panic!("expected an owned event, got: {:?}", other),
    }
    assert_eq!(owned, ProtocolMessage::ReceiveEvent(RecvEvent::Owned(e)));
}

#[test]
fn op_ids_and_bodies_are_exposed() {
    let produce = ProtocolMessage::ProduceEvent(ProduceEvent {
        op_id: 3,
        namespace: "/n".to_owned(),
        parent_id: None,
        data: vec![8, 8],
    });
    assert_eq!(produce.get_op_id(), 3);
    assert_eq!(produce.get_body(), Some(&vec![8u8, 8u8]));
    assert_eq!(ProtocolMessage::NextBatch.get_op_id(), 0);
    assert!(ProtocolMessage::NextBatch.get_body().is_none());
    let default_batch = DEFAULT_BATCH_SIZE;
    assert_eq!(default_batch, 10000);
}

#[test]
fn invalid_utf8_is_rejected_in_every_string_field() {
    // ProduceEvent namespace
    let produce = vec![2u8, 0, 1, 0xC0, 0, 0, 0, 0, 0, 0, 0, 0, 0, 0, 0, 0, 0, 0, 0, 0, 0, 0];
    assert!(matches!(parse_any(&produce), Decoded::Error));
    // ReceiveEvent namespace (non-zero id, zero parent, zero timestamp)
    let mut receive = vec![3u8];
    receive.extend_from_slice(&[0, 0, 0, 0, 0, 0, 0, 9, 0, 4]); // id
    receive.extend_from_slice(&[0; 10]); // parent
    receive.extend_from_slice(&[0; 8]); // timestamp
    receive.extend_from_slice(&[0, 1, 0xFF]); // bad namespace
    receive.extend_from_slice(&[0, 0, 0, 0]); // data length
    assert!(matches!(parse_any(&receive), Decoded::Error));
    // Error description
    let err_frame = vec![10u8, 0, 0, 0, 5, 16, 0, 1, 0xC0];
    assert!(matches!(parse_any(&err_frame), Decoded::Error));
    // ClientAuth username after a valid namespace
    let auth = vec![1u8, 0, 1, 0x61, 0, 1, 0xC0, 0, 0];
    assert!(matches!(parse_any(&auth), Decoded::Error));
    // ClientAuth password after valid namespace and username
    let auth2 = vec![1u8, 0, 1, 0x61, 0, 1, 0x62, 0, 1, 0xC0];
    assert!(matches!(parse_any(&auth2), Decoded::Error));
    // PeerAnnounce with a member whose address is invalid
    let peer = vec![
        7u8, 0, 5, 0x15, 0xB3, 0, 0, // actor, port, empty version vector
        0, 1, // one member
        0, 6, 0, 1, 0xC0, 1, // actor 6, bad one-byte address, connected
    ];
    assert!(matches!(parse_any(&peer), Decoded::Error));
}

#[test]
fn announce_discovers_each_new_member_once_in_order() {
    let mut manager = ClusterManager::new(5, 5555);
    manager.record_peer(9, "9.9.9.9:9999".to_owned(), true);
    let announce = ClusterState {
        actor_id: 6,
        actor_port: 4444,
        version_vector: Vec::new(),
        other_members: vec![
            ClusterMember {
                addr: "7.7.7.7:7777".to_owned(),
                actor_id: 7,
                connected: true,
            },
            ClusterMember {
                addr: "9.9.9.9:9999".to_owned(),
                actor_id: 9, // already known: not dialled again
                connected: false,
            },
            ClusterMember {
                addr: "6.6.6.6:6666".to_owned(),
                actor_id: 6, // the sender itself: skipped
                connected: false,
            },
            ClusterMember {
                addr: "7.0.0.1:7070".to_owned(),
                actor_id: 7, // duplicate announce: first address wins
                connected: false,
            },
            ClusterMember {
                addr: "8.8.8.8:8888".to_owned(),
                actor_id: 8,
                connected: true,
            },
        ],
    };
    let discovered = manager.apply_peer_announce("0.0.0.0:4444".to_owned(), &announce);
    assert_eq!(
        discovered,
        vec!["7.7.7.7:7777".to_owned(), "8.8.8.8:8888".to_owned()]
    );
    let snapshot = manager.cluster_state(&VersionVector::new());
    assert_eq!(snapshot.other_members.len(), 4); // 9, sender 6, 7, 8
    let seven = snapshot
        .other_members
        .iter()
        .find(|m| m.actor_id == 7)
        .unwrap();
    assert_eq!(seven.addr, "7.7.7.7:7777");
    assert!(!seven.connected);
}
