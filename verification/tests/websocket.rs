use tachyon_server::websocket::crdt_handler::{
    classify_frame, delta_sync_reply, encode_delta_sync_response, encode_sync_step1,
    parse_selection_update, should_forward, FrameAction, RelayEventKind,
};
use tachyon_server::websocket::handler::{
    client_message_action, document_room, expand_edit, room_document, ClientMessageAction,
    ConnectionManager,
};
use tachyon_server::websocket::operational_transform::{
    can_transform, transform, DocumentState, Operation,
};
use tachyon_server::websocket::redis_relay::{room_channel, CHANNEL_PREFIX};
use tachyon_server::websocket::types::{EditOperation, HeartbeatConfig, MessageType, PresenceStatus};

#[test]
fn test_insert_operation() {
    let op = Operation::insert(5, "world ".to_string());
    let result = op.apply("hello!");
    assert_eq!(result, "helloworld !");
}

#[test]
fn test_delete_operation() {
    let op = Operation::delete(5, 6);
    let result = op.apply("hello world!");
    assert_eq!(result, "hello!");
}

#[test]
fn test_transform_insert_insert() {
    let op1 = Operation::insert(5, "A".to_string());
    let op2 = Operation::insert(10, "B".to_string());
    let result = transform(&op1, &op2);

    assert_eq!(result.op1_prime, Operation::insert(5, "A".to_string()));
    assert_eq!(result.op2_prime, Operation::insert(11, "B".to_string()));
}

#[test]
fn test_document_state() {
    let mut state = DocumentState::new("hello".to_string());
    let op = Operation::insert(5, " world".to_string());
    let version = state.apply(op, 0).unwrap();
    assert_eq!(state.content(), "hello world");
    assert_eq!(version, 1);
}

#[test]
fn apply_clamps_positions() {
    assert_eq!(Operation::insert(99, "!".to_string()).apply("hi"), "hi!");
    assert_eq!(Operation::delete(1, 99).apply("hello"), "h");
    assert_eq!(Operation::insert(1, "é".to_string()).apply("ab"), "aéb");
}

#[test]
fn concurrent_edits_converge() {
    let doc = "abcdefgh";
    let cases = vec![
        (Operation::insert(2, "XY".to_string()), Operation::delete(4, 2)),
        (Operation::delete(1, 2), Operation::insert(6, "Z".to_string())),
        (Operation::delete(1, 2), Operation::delete(5, 2)),
        (Operation::delete(1, 5), Operation::delete(2, 2)),
        (Operation::delete(1, 3), Operation::delete(2, 4)),
        (Operation::insert(3, "Q".to_string()), Operation::insert(3, "R".to_string())),
    ];
    for (a, b) in cases {
        let t = transform(&a, &b);
        let left = t.op2_prime.apply(&a.apply(doc));
        let right = t.op1_prime.apply(&b.apply(doc));
        assert_eq!(left, right);
    }
}

#[test]
fn transform_cases() {
    let t = transform(&Operation::insert(5, "ab".to_string()), &Operation::delete(1, 2));
    assert_eq!(t.op1_prime, Operation::insert(3, "ab".to_string()));
    assert_eq!(t.op2_prime, Operation::delete(1, 2));
    let t = transform(&Operation::delete(1, 4), &Operation::delete(3, 4));
    assert_eq!(t.op1_prime, Operation::delete(1, 2));
    assert_eq!(t.op2_prime, Operation::delete(1, 2));
}

#[test]
fn document_state_rebases_and_keeps_history() {
    let mut state = DocumentState::new("abc".to_string());
    assert_eq!(state.version(), 0);
    assert_eq!(state.apply(Operation::insert(0, "X".to_string()), 0).unwrap(), 1);
    assert_eq!(state.apply(Operation::insert(3, "Y".to_string()), 0).unwrap(), 2);
    assert_eq!(state.content(), "XabcY");
    for _ in 0..150 {
        state.apply(Operation::insert(0, "z".to_string()), 1_000_000).unwrap();
    }
    assert_eq!(state.version(), 152);
}

#[test]
fn test_encode_sync_step1() {
    let update = vec![0xAA, 0xBB, 0xCC];
    let msg = encode_sync_step1(&update);
    assert_eq!(msg[0], 0);
    assert_eq!(msg[1], 1);
    assert_eq!(&msg[2..], &[0xAA, 0xBB, 0xCC]);
}

#[test]
fn test_encode_delta_sync_response() {
    let diff = vec![0xDE, 0xAD, 0xBE, 0xEF];
    let msg = encode_delta_sync_response(&diff);
    assert_eq!(msg[0], 0, "message type should be sync (0)");
    assert_eq!(msg[1], 2, "sync step should be 2 (diff response)");
    assert_eq!(&msg[2..], &[0xDE, 0xAD, 0xBE, 0xEF]);
}

#[test]
fn test_encode_delta_sync_response_empty() {
    let msg = encode_delta_sync_response(&[]);
    assert_eq!(msg, vec![0, 2], "empty diff should produce 2-byte header only");
}

#[test]
fn test_encode_delta_sync_response_large_payload() {
    let diff: Vec<u8> = (0..1000).map(|i| (i % 256) as u8).collect();
    let msg = encode_delta_sync_response(&diff);
    assert_eq!(msg.len(), 2 + 1000);
    assert_eq!(msg[0], 0);
    assert_eq!(msg[1], 2);
    assert_eq!(&msg[2..], &diff[..]);
}

#[test]
fn test_parse_selection_update_valid() {
    let mut data = vec![0x02];
    data.extend_from_slice(&10u32.to_le_bytes());
    data.extend_from_slice(&20u32.to_le_bytes());
    let selection = parse_selection_update(&data).unwrap();
    assert_eq!(selection.start, 10);
    assert_eq!(selection.end, 20);
}

#[test]
fn test_parse_selection_update_too_short() {
    let data = vec![0x02, 0x01, 0x00];
    assert!(parse_selection_update(&data).is_none());
}

#[test]
fn test_parse_selection_update_empty() {
    let data: Vec<u8> = vec![];
    assert!(parse_selection_update(&data).is_none());
}

#[test]
fn test_parse_selection_update_minimal() {
    let mut data = vec![0x02];
    data.extend_from_slice(&0u32.to_le_bytes());
    data.extend_from_slice(&0u32.to_le_bytes());
    let selection = parse_selection_update(&data).unwrap();
    assert_eq!(selection.start, 0);
    assert_eq!(selection.end, 0);
}

#[test]
fn test_parse_selection_update_large_offsets() {
    let mut data = vec![0x02];
    data.extend_from_slice(&u32::MAX.to_le_bytes());
    data.extend_from_slice(&u32::MAX.to_le_bytes());
    let selection = parse_selection_update(&data).unwrap();
    assert_eq!(selection.start, u32::MAX);
    assert_eq!(selection.end, u32::MAX);
}

#[test]
fn test_parse_selection_update_wrong_type() {
    let mut data = vec![0x00];
    data.extend_from_slice(&10u32.to_le_bytes());
    data.extend_from_slice(&20u32.to_le_bytes());
    let selection = parse_selection_update(&data);
    assert_eq!(selection.unwrap().start, 10);
}

#[test]
fn frames_are_classified() {
    assert_eq!(classify_frame(&[], 10), FrameAction::Skip);
    assert_eq!(classify_frame(&[1; 11], 10), FrameAction::DropOversized);
    assert_eq!(classify_frame(&[0], 10), FrameAction::Sync { apply_update: false });
    assert_eq!(classify_frame(&[0, 5], 10), FrameAction::Sync { apply_update: true });
    assert_eq!(classify_frame(&[1, 5], 10), FrameAction::Relay);
    assert_eq!(classify_frame(&[2, 5], 10), FrameAction::RejectSelection);
    assert_eq!(classify_frame(&[3], 10), FrameAction::Skip);
    assert_eq!(classify_frame(&[3, 1], 10), FrameAction::DeltaSyncRequest);
    assert_eq!(classify_frame(&[9], 10), FrameAction::Relay);
    assert_eq!(delta_sync_reply(None), vec![0, 2]);
    assert_eq!(delta_sync_reply(Some(&[7, 8])), vec![0, 2, 7, 8]);
}

#[test]
fn forwarding_rules() {
    let r: Vec<char> = "room".chars().collect();
    let other: Vec<char> = "other".chars().collect();
    let me: Vec<char> = "me".chars().collect();
    let you: Vec<char> = "you".chars().collect();
    assert!(should_forward(RelayEventKind::Frame, &r, &you, &r, &me));
    assert!(!should_forward(RelayEventKind::Frame, &r, &me, &r, &me));
    assert!(!should_forward(RelayEventKind::Frame, &other, &you, &r, &me));
    assert!(should_forward(RelayEventKind::Presence, &r, &you, &r, &me));
    assert!(!should_forward(RelayEventKind::Membership, &r, &you, &r, &me));
    assert!(should_forward(RelayEventKind::DeltaSync, &other, &me, &r, &me));
}

#[test]
fn test_channel_prefix() {
    assert_eq!(format!("{}{}", CHANNEL_PREFIX, "doc123"), "tachyon:room:doc123");
    assert_eq!(room_channel("doc123"), "tachyon:room:doc123");
}

#[test]
fn test_heartbeat_config_defaults() {
    let config = HeartbeatConfig::default();
    assert_eq!(config.interval_secs, 30);
    assert_eq!(config.timeout_secs, 10);
    assert!(config.enabled);
}

#[test]
fn test_heartbeat_config_disabled() {
    let config = HeartbeatConfig {
        enabled: false,
        ..Default::default()
    };
    assert!(!config.enabled);
    assert_eq!(config.interval_secs, 30);
    assert_eq!(config.timeout_secs, 10);
}

#[test]
fn presence_from_idle_time() {
    assert_eq!(PresenceStatus::from_idle_secs(0), PresenceStatus::Active);
    assert_eq!(PresenceStatus::from_idle_secs(30), PresenceStatus::Idle);
    assert_eq!(PresenceStatus::from_idle_secs(299), PresenceStatus::Idle);
    assert_eq!(PresenceStatus::from_idle_secs(300), PresenceStatus::Away);
}

#[test]
fn edits_and_rooms() {
    let ops = expand_edit(EditOperation::Replace { position: 2, length: 3, text: "x".to_string() });
    assert_eq!(ops, vec![Operation::delete(2, 3), Operation::insert(2, "x".to_string())]);
    assert_eq!(expand_edit(EditOperation::Delete { position: 1, length: 1 }).len(), 1);
    assert_eq!(document_room("abc"), "doc:abc");
    assert_eq!(room_document("doc:abc"), Some(vec!['a', 'b', 'c']));
    assert_eq!(room_document("lobby"), None);
}

#[test]
fn edits_inside_a_character_are_refused() {
    let doc = DocumentState::new("h\u{e9}llo".to_string());
    assert!(doc.accepts(&Operation::insert(1, "x".to_string()), 0));
    assert!(!doc.accepts(&Operation::insert(2, "x".to_string()), 0));
    assert!(doc.accepts(&Operation::delete(1, 2), 0));
    assert!(!doc.accepts(&Operation::delete(1, 1), 0));
    assert!(!doc.accepts(&Operation::delete(1, usize::MAX), 0));
    assert!(doc.accepts(&Operation::insert(100, "x".to_string()), 0));
    assert!(Operation::insert(3, "!".to_string()).applies_to("h\u{e9}llo"));
    assert!(!Operation::insert(2, "!".to_string()).applies_to("h\u{e9}llo"));
}

#[test]
fn rebasing_checks_for_overflow() {
    let big = Operation::insert(usize::MAX, "ab".to_string());
    let small = Operation::insert(0, "x".to_string());
    assert!(!can_transform(&small, &big));
    assert!(can_transform(&Operation::insert(1, "x".to_string()), &Operation::delete(0, 3)));
    assert!(!can_transform(&Operation::delete(usize::MAX, 1), &Operation::delete(0, 1)));
    let wide = Operation::delete(0, usize::MAX - 1);
    assert!(!can_transform(&Operation::insert(5, "ab".to_string()), &wide));
    assert!(!can_transform(&wide, &Operation::insert(5, "ab".to_string())));
    assert!(can_transform(&Operation::insert(0, "ab".to_string()), &wide));
    assert!(can_transform(&wide, &Operation::insert(usize::MAX - 1, "ab".to_string())));

    let mut doc = DocumentState::new("hello".to_string());
    assert_eq!(doc.apply(Operation::insert(usize::MAX - 1, "!".to_string()), 0), Ok(1));
    // Made against version 0, this one is rebased over the insertion above.
    assert!(!doc.accepts(&Operation::insert(usize::MAX, "x".to_string()), 0));
    assert!(doc.accepts(&Operation::insert(0, "x".to_string()), 0));
}

#[test]
fn the_manager_checks_edits_of_open_documents() {
    let mut m = ConnectionManager::new();
    assert!(m.accepts_edit("closed", &Operation::insert(7, "x".to_string()), 0));
    m.init_document_state("d", "\u{e9}".to_string());
    assert!(!m.accepts_edit("d", &Operation::insert(1, "x".to_string()), 0));
    assert!(m.accepts_edit("d", &Operation::insert(2, "x".to_string()), 0));
}

#[test]
fn concurrent_edits_converge_on_text() {
    let s = "hello world";
    let pairs = vec![
        (Operation::insert(0, "A".to_string()), Operation::insert(6, "B".to_string())),
        (Operation::insert(3, "x".to_string()), Operation::delete(5, 3)),
        (Operation::delete(0, 2), Operation::delete(4, 3)),
        (Operation::delete(1, 6), Operation::delete(2, 2)),
    ];
    for (op1, op2) in pairs {
        let r = transform(&op1, &op2);
        assert_eq!(r.op2_prime.apply(&op1.apply(s)), r.op1_prime.apply(&op2.apply(s)));
    }
}

#[test]
fn deleting_an_insertion_restores_the_text() {
    let s = "h\u{e9}llo";
    let text = "w\u{f6}rld".to_string();
    let inserted = Operation::insert(3, text.clone()).apply(s);
    assert_eq!(Operation::delete(3, text.len()).apply(&inserted), s);
}

#[test]
fn overlapping_deletions_converge() {
    let op1 = Operation::delete(2, 3);
    let op2 = Operation::delete(1, 2);
    let r = transform(&op1, &op2);
    assert_eq!(r.op1_prime, Operation::delete(1, 2));
    assert_eq!(r.op2_prime, Operation::delete(1, 1));
    let s = "abcdef";
    assert_eq!(r.op2_prime.apply(&op1.apply(s)), "af");
    assert_eq!(r.op1_prime.apply(&op2.apply(s)), "af");
}

#[test]
fn insertions_inside_a_deleted_range_go_with_it() {
    let s = "abcdef";
    let ins = Operation::insert(3, "XY".to_string());
    let del = Operation::delete(1, 4);
    let r = transform(&ins, &del);
    assert_eq!(r.op1_prime, Operation::insert(1, String::new()));
    assert_eq!(r.op2_prime, Operation::delete(1, 6));
    assert_eq!(r.op2_prime.apply(&ins.apply(s)), "af");
    assert_eq!(r.op1_prime.apply(&del.apply(s)), "af");
    let r = transform(&del, &ins);
    assert_eq!(r.op1_prime, Operation::delete(1, 6));
    assert_eq!(r.op2_prime, Operation::insert(1, String::new()));
    assert_eq!(r.op2_prime.apply(&del.apply(s)), r.op1_prime.apply(&ins.apply(s)));
}

#[test]
fn client_messages_are_dispatched_by_kind() {
    match client_message_action(MessageType::Join, Some("d1"), Some("u1"), None, false) {
        ClientMessageAction::JoinDocument { document_id, user_id, user_name, room } => {
            assert_eq!(document_id, "d1");
            assert_eq!(user_id, "u1");
            assert_eq!(user_name, "Unknown");
            assert_eq!(room, "doc:d1");
        }
        other => panic!("unexpected {:?}", other),
    }
    match client_message_action(MessageType::Join, Some("d1"), Some("u1"), Some("Ann"), true) {
        ClientMessageAction::JoinDocument { user_name, .. } => assert_eq!(user_name, "Ann"),
        other => panic!("unexpected {:?}", other),
    }
    assert!(matches!(
        client_message_action(MessageType::Join, Some("d1"), None, None, false),
        ClientMessageAction::Ignore
    ));
    match client_message_action(MessageType::Leave, Some("d2"), Some("u2"), None, false) {
        ClientMessageAction::LeaveDocument { document_id, user_id, room } => {
            assert_eq!((document_id.as_str(), user_id.as_str(), room.as_str()), ("d2", "u2", "doc:d2"));
        }
        other => panic!("unexpected {:?}", other),
    }
    match client_message_action(MessageType::Edit, Some("d3"), None, None, true) {
        ClientMessageAction::ApplyEdit { document_id, room } => {
            assert_eq!((document_id.as_str(), room.as_str()), ("d3", "doc:d3"));
        }
        other => panic!("unexpected {:?}", other),
    }
    assert!(matches!(
        client_message_action(MessageType::Edit, Some("d3"), None, None, false),
        ClientMessageAction::Ignore
    ));
    match client_message_action(MessageType::Presence, Some("d4"), None, None, false) {
        ClientMessageAction::Relay { room } => assert_eq!(room, "doc:d4"),
        other => panic!("unexpected {:?}", other),
    }
    assert!(matches!(
        client_message_action(MessageType::Activity, None, None, None, true),
        ClientMessageAction::Ignore
    ));
    assert!(matches!(
        client_message_action(MessageType::Notification, Some("d5"), Some("u5"), None, true),
        ClientMessageAction::Ignore
    ));
}
