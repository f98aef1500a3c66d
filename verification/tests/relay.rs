use tachyon_server::websocket::crdt_handler::{
    admits_connection, encode_selection_update, encode_sync_message, parse_selection_update,
    CrdtConnectionManager,
};
use tachyon_server::websocket::types::PresenceStatus;

#[test]
fn test_manager_new() {
    let manager = CrdtConnectionManager::new();
    assert_eq!(manager.client_count(), 0);
    assert_eq!(manager.max_connections(), 1000);
    assert_eq!(manager.heartbeat_interval_secs(), 30);
    assert_eq!(manager.max_message_size(), 10 * 1024 * 1024);
}

#[test]
fn test_join_and_leave() {
    let mut manager = CrdtConnectionManager::new();
    manager.join_room("client1", "room1");
    manager.join_room("client2", "room1");
    manager.join_room("client3", "room2");

    let info = manager.get_collaboration_info("room1").unwrap();
    assert_eq!(info.connection_count, 2);

    let info = manager.get_collaboration_info("room2").unwrap();
    assert_eq!(info.connection_count, 1);

    let info = manager.get_collaboration_info("nonexistent");
    assert!(info.is_none());
}

#[test]
fn test_init_document_from_persisted() {
    let mut manager = CrdtConnectionManager::new();
    let update_log = vec![1, 2, 3, 4, 5];
    manager.init_document_from_persisted("doc1", update_log.clone());

    let log = manager.get_document_update_log("doc1");
    assert_eq!(log, Some(update_log));
    assert_eq!(manager.get_document_update_log("doc2"), None);
}

#[test]
fn test_client_count() {
    let mut manager = CrdtConnectionManager::new();
    assert_eq!(manager.client_count(), 0);
    manager.connect("c1".to_string(), "room1", 0);
    manager.connect("c2".to_string(), "room1", 0);
    assert_eq!(manager.client_count(), 2);
}

#[test]
fn test_concurrent_room_join() {
    let mut manager = CrdtConnectionManager::new();
    for i in 0..50 {
        manager.join_room(&format!("client-{}", i), "test-room");
    }
    let info = manager.get_collaboration_info("test-room").unwrap();
    assert_eq!(info.connection_count, 50);
}

#[test]
fn leaving_keeps_the_room_even_when_empty() {
    let mut m = CrdtConnectionManager::new();
    m.connect("c1".to_string(), "r", 0);
    assert_eq!(m.leave_room("c1"), Some("r".to_string()));
    assert_eq!(m.client_count(), 0);
    assert_eq!(m.get_collaboration_info("r").unwrap().connection_count, 0);
    assert_eq!(m.leave_room("c1"), None);
}

#[test]
fn relay_cleanup_drops_stale_clients_and_their_empty_rooms() {
    let mut m = CrdtConnectionManager::new();
    m.connect("old".to_string(), "a", 0);
    m.connect("fresh".to_string(), "b", 20_000);
    m.connect("old2".to_string(), "b", 0);
    m.cleanup_stale_clients(30_000, 10);
    assert_eq!(m.client_count(), 1);
    assert!(m.get_collaboration_info("a").is_none());
    assert_eq!(m.get_collaboration_info("b").unwrap().connection_count, 1);
}

#[test]
fn relay_touch_refreshes_clients() {
    let mut m = CrdtConnectionManager::new();
    m.connect("c".to_string(), "r", 0);
    m.touch_client("c", 9_000);
    m.cleanup_stale_clients(10_000, 5);
    assert_eq!(m.client_count(), 1);
}

#[test]
fn active_users_report_idle_status() {
    let mut m = CrdtConnectionManager::new();
    m.connect("a".to_string(), "r", 100_000);
    m.connect("b".to_string(), "r", 0);
    m.join_room("ghost", "r");
    let users = m.get_active_users("r", 120_000, 77);
    assert_eq!(users.len(), 2);
    assert_eq!(users[0].user_id, "a");
    assert_eq!(users[0].username, "a");
    assert_eq!(users[0].status, PresenceStatus::Active);
    assert_eq!(users[1].status, PresenceStatus::Idle);
    assert_eq!(users[1].last_seen, 77);
    assert!(users[1].cursor_pos.is_none());
    let later = m.get_active_users("r", 400_001, 0);
    assert_eq!(later[1].status, PresenceStatus::Away);
    assert!(m.get_active_users("none", 0, 0).is_empty());
}

#[test]
fn relay_sequence_and_limits() {
    let mut m = CrdtConnectionManager::with_config(2, 5);
    assert_eq!(m.next_seq(), 0);
    assert_eq!(m.next_seq(), 1);
    assert!(admits_connection(1, m.max_connections()));
    assert!(!admits_connection(2, m.max_connections()));
}

#[test]
fn client_connection_multiple_clients() {
    let mut manager = CrdtConnectionManager::new();
    assert_eq!(manager.client_count(), 0);

    manager.join_room("client-a", "room-1");
    manager.join_room("client-b", "room-1");
    manager.join_room("client-c", "room-2");

    let info1 = manager.get_collaboration_info("room-1").unwrap();
    assert_eq!(info1.connection_count, 2);

    let info2 = manager.get_collaboration_info("room-2").unwrap();
    assert_eq!(info2.connection_count, 1);
}

#[test]
fn cleanup_stale_clients() {
    let mut manager = CrdtConnectionManager::new();
    let now_ms: u64 = 1_000_000;
    manager.connect("stale-client".to_string(), "cleanup-room", now_ms - 600_000);
    manager.connect("fresh-client".to_string(), "cleanup-room", now_ms);

    assert_eq!(manager.client_count(), 2);

    manager.cleanup_stale_clients(now_ms, 300);

    assert_eq!(manager.client_count(), 1);

    let info = manager.get_collaboration_info("cleanup-room").unwrap();
    assert_eq!(info.connection_count, 1);
}

#[test]
fn client_disconnect_leaves_the_others_connected() {
    let mut manager = CrdtConnectionManager::new();
    manager.connect("client-disconnect-1".to_string(), "room-disconnect", 0);
    manager.connect("client-disconnect-2".to_string(), "room-disconnect", 0);
    assert_eq!(manager.client_count(), 2);

    manager.leave_room("client-disconnect-1");

    assert_eq!(manager.client_count(), 1);
    let info = manager.get_collaboration_info("room-disconnect").unwrap();
    assert_eq!(info.connection_count, 1);
}

#[test]
fn init_and_get_document_update_log() {
    let mut manager = CrdtConnectionManager::new();

    let log_data = vec![0xDE, 0xAD, 0xBE, 0xEF, 0xCA, 0xFE];
    manager.init_document_from_persisted("persisted-doc-1", log_data.clone());

    let retrieved = manager
        .get_document_update_log("persisted-doc-1")
        .expect("should return update log");
    assert_eq!(retrieved, log_data);

    let missing = manager.get_document_update_log("nonexistent-doc");
    assert!(missing.is_none(), "Non-existent doc should return None");
}

#[test]
fn encode_sync_step1_produces_valid_format() {
    let update = vec![0xAA, 0xBB, 0xCC, 0xDD];
    let msg = encode_sync_message(&update);

    assert_eq!(msg.len(), 2 + update.len());
    assert_eq!(msg[0], 0);
    assert_eq!(msg[1], 1);
    assert_eq!(&msg[2..], &update[..]);
}

#[test]
fn selection_update_parsing() {
    let valid = encode_selection_update(100, 200);
    let parsed = parse_selection_update(&valid);
    assert!(parsed.is_some());
    let sel = parsed.unwrap();
    assert_eq!(sel.start, 100);
    assert_eq!(sel.end, 200);

    let too_short = vec![0x02, 0x01];
    assert!(parse_selection_update(&too_short).is_none());

    let empty: Vec<u8> = vec![];
    assert!(parse_selection_update(&empty).is_none());
}

#[test]
fn separate_managers_keep_separate_rooms() {
    let mut manager_a = CrdtConnectionManager::new();
    let mut manager_b = CrdtConnectionManager::new();

    manager_a.join_room("c1", "room-a");
    manager_b.join_room("c2", "room-b");

    assert_eq!(manager_a.get_collaboration_info("room-a").unwrap().connection_count, 1);
    assert_eq!(manager_b.get_collaboration_info("room-b").unwrap().connection_count, 1);
    assert!(manager_a.get_collaboration_info("room-b").is_none());
    assert!(manager_b.get_collaboration_info("room-a").is_none());
}
