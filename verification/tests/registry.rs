use tachyon_server::websocket::handler::{
    heartbeat_step, ClientEditOutcome, ConnectionManager, HeartbeatAction, HeartbeatEvent,
};
use tachyon_server::websocket::operational_transform::Operation;
use tachyon_server::websocket::types::{DocumentEdit, EditOperation, HeartbeatConfig};

#[test]
fn test_connection_manager() {
    let mut manager = ConnectionManager::new();
    let client_id = "test-client".to_string();

    manager.add_client(client_id.clone(), 0);
    assert_eq!(manager.client_count(), 1);

    manager.join_room(&client_id, "doc:test-doc");
    assert_eq!(manager.room_count("doc:test-doc"), 1);

    manager.remove_client(&client_id);
    assert_eq!(manager.client_count(), 0);
}

#[test]
fn test_connection_cleanup_on_timeout() {
    let mut manager = ConnectionManager::new();
    let client_id = "timeout-client".to_string();

    manager.add_client(client_id.clone(), 0);
    manager.join_room(&client_id, "doc:test-doc");
    manager.set_user_info(&client_id, "user-1".to_string(), "Test User".to_string());

    assert_eq!(manager.client_count(), 1);
    assert_eq!(manager.room_count("doc:test-doc"), 1);

    manager.handle_heartbeat_timeout(&client_id);

    assert_eq!(manager.client_count(), 0);
    assert_eq!(manager.room_count("doc:test-doc"), 0);
}

#[test]
fn new_manager_defaults() {
    let manager = ConnectionManager::new();
    assert_eq!(manager.max_connections(), 1000);
    assert_eq!(manager.client_count(), 0);
    assert_eq!(manager.heartbeat_config().interval_secs, 30);
    let configured = ConnectionManager::with_config(5, 7);
    assert_eq!(configured.max_connections(), 5);
    assert_eq!(configured.heartbeat_config().interval_secs, 7);
    assert_eq!(configured.heartbeat_config().timeout_secs, 10);
}

#[test]
fn join_and_leave_a_room() {
    let mut m = ConnectionManager::new();
    m.add_client("a".to_string(), 0);
    m.add_client("b".to_string(), 0);
    m.join_room("a", "r");
    m.join_room("b", "r");
    assert!(m.is_client_in_room("a", "r"));
    assert_eq!(m.room_count("r"), 2);
    m.leave_room("a", "r");
    assert!(!m.is_client_in_room("a", "r"));
    assert!(m.is_client_in_room("b", "r"));
    assert_eq!(m.room_count("r"), 1);
    m.leave_room("b", "r");
    assert_eq!(m.room_count("r"), 0);
}

#[test]
fn joining_twice_lists_the_member_twice() {
    let mut m = ConnectionManager::new();
    m.add_client("a".to_string(), 0);
    m.join_room("a", "r");
    m.join_room("a", "r");
    assert_eq!(m.room_count("r"), 2);
    m.leave_room("a", "r");
    assert_eq!(m.room_count("r"), 0);
}

#[test]
fn unknown_clients_still_count_as_members() {
    let mut m = ConnectionManager::new();
    m.join_room("ghost", "r");
    assert_eq!(m.room_count("r"), 1);
    assert!(!m.is_client_in_room("ghost", "r"));
}

#[test]
fn document_presence_follows_joins_and_leaves() {
    let mut m = ConnectionManager::new();
    m.add_client("c1".to_string(), 0);
    m.add_client("c2".to_string(), 0);
    m.join_document("c1", "d", "u1", "Alice");
    m.join_document("c2", "d", "u2", "Bob");
    let p = m.get_document_presence("d");
    assert_eq!(p.len(), 2);
    assert_eq!(p[0].user_name, "Alice");
    assert_eq!(p[1].cursor_position, 0);
    assert!(m.is_client_in_room("c1", "doc:d"));
    let others = m.presence_except("d", "c1");
    assert_eq!(others.len(), 1);
    assert_eq!(others[0].user_id, "u2");
    m.update_cursor("c2", "d", 42);
    assert_eq!(m.get_document_presence("d")[1].cursor_position, 42);
    m.leave_document("c1", "d");
    let p = m.get_document_presence("d");
    assert_eq!(p.len(), 1);
    assert_eq!(p[0].client_id, "c2");
    assert!(!m.is_client_in_room("c1", "doc:d"));
    m.leave_document("c2", "d");
    assert!(m.get_document_presence("d").is_empty());
}

#[test]
fn removing_a_signed_in_client_owes_leave_notices() {
    let mut m = ConnectionManager::new();
    m.add_client("c1".to_string(), 0);
    m.add_client("c2".to_string(), 0);
    m.set_user_info("c1", "u1".to_string(), "Alice".to_string());
    m.join_document("c1", "d1", "u1", "Alice");
    m.join_room("c1", "lobby");
    m.join_document("c2", "d1", "u2", "Bob");
    let notices = m.remove_client("c1");
    assert_eq!(notices, vec![("d1".to_string(), "u1".to_string())]);
    assert_eq!(m.client_count(), 1);
    assert_eq!(m.room_count("lobby"), 0);
    assert_eq!(m.room_count("doc:d1"), 1);
    assert_eq!(m.get_document_presence("d1").len(), 1);
    assert!(m.broadcast_to_room("doc:d1").is_some());
    assert!(m.broadcast_to_room("lobby").is_none());
}

#[test]
fn removing_an_anonymous_or_unknown_client_owes_nothing() {
    let mut m = ConnectionManager::new();
    m.add_client("c".to_string(), 0);
    m.join_room("c", "doc:x");
    assert!(m.remove_client("c").is_empty());
    assert!(m.remove_client("nobody").is_empty());
    assert_eq!(m.room_count("doc:x"), 0);
}

#[test]
fn room_users_lists_signed_in_members() {
    let mut m = ConnectionManager::new();
    m.add_client("a".to_string(), 0);
    m.add_client("b".to_string(), 0);
    m.set_user_info("a", "u-a".to_string(), "Ann".to_string());
    m.join_room("a", "r");
    m.join_room("b", "r");
    assert_eq!(m.get_room_users("r"), vec![("u-a".to_string(), "Ann".to_string())]);
    assert!(m.get_room_users("nowhere").is_empty());
}

#[test]
fn broadcast_numbers_increase() {
    let mut m = ConnectionManager::new();
    assert_eq!(m.broadcast(), 0);
    assert_eq!(m.broadcast(), 1);
    m.join_room("a", "r");
    assert_eq!(m.broadcast_to_room("r"), Some(2));
    assert_eq!(m.broadcast_to_room("empty"), None);
    assert_eq!(m.broadcast(), 3);
}

#[test]
fn delivery_goes_to_room_members() {
    let mut m = ConnectionManager::new();
    m.add_client("a".to_string(), 0);
    m.join_room("a", "r");
    assert!(m.delivers_to("a", None));
    assert!(m.delivers_to("a", Some("r")));
    assert!(!m.delivers_to("a", Some("s")));
    assert!(!m.delivers_to("b", Some("r")));
}

#[test]
fn cleanup_drops_only_stale_clients() {
    let mut m = ConnectionManager::new();
    m.add_client("old".to_string(), 1_000);
    m.add_client("fresh".to_string(), 9_000);
    m.join_document("old", "d1", "u1", "A");
    m.join_document("fresh", "d2", "u2", "B");
    m.init_document_state("d1", "one".to_string());
    m.init_document_state("d2", "two".to_string());
    m.cleanup_stale_clients(12_000, 5);
    assert_eq!(m.client_count(), 1);
    assert!(m.is_client_in_room("fresh", "doc:d2"));
    assert_eq!(m.room_count("doc:d1"), 0);
    assert!(m.get_document_presence("d1").is_empty());
    assert!(m.get_document_state("d1").is_none());
    assert_eq!(m.get_document_state("d2").unwrap().content(), "two");
}

#[test]
fn cleanup_keeps_documents_that_still_have_members() {
    let mut m = ConnectionManager::new();
    m.add_client("old".to_string(), 0);
    m.add_client("fresh".to_string(), 10_000);
    m.join_document("old", "d", "u1", "A");
    m.join_document("fresh", "d", "u2", "B");
    m.init_document_state("d", "text".to_string());
    m.cleanup_stale_clients(10_500, 1);
    assert_eq!(m.client_count(), 1);
    assert_eq!(m.room_count("doc:d"), 1);
    assert!(m.get_document_state("d").is_some());
}

#[test]
fn touched_clients_are_not_stale() {
    let mut m = ConnectionManager::new();
    m.add_client("c".to_string(), 0);
    m.touch_client("c", 5_000);
    m.cleanup_stale_clients(6_000, 2);
    assert_eq!(m.client_count(), 1);
    m.cleanup_stale_clients(8_000, 2);
    assert_eq!(m.client_count(), 0);
}

#[test]
fn edits_apply_to_open_documents() {
    let mut m = ConnectionManager::new();
    assert_eq!(m.apply_edit("d", Operation::insert(0, "x".to_string()), 0), None);
    m.init_document_state("d", "hello".to_string());
    m.init_document_state("d", "ignored".to_string());
    assert_eq!(m.apply_edit("d", Operation::insert(5, " world".to_string()), 0), Some(1));
    assert_eq!(m.get_document_state("d").unwrap().content(), "hello world");
    assert_eq!(m.apply_edit("d", Operation::delete(0, 6), 1), Some(2));
    assert_eq!(m.get_document_state("d").unwrap().content(), "world");
}

#[test]
fn heartbeat_answers() {
    let config = HeartbeatConfig { interval_secs: 1, timeout_secs: 2, enabled: true };
    assert_eq!(heartbeat_step(&config, HeartbeatEvent::Tick), HeartbeatAction::SendPing { wait_secs: 2 });
    assert_eq!(heartbeat_step(&config, HeartbeatEvent::Pong), HeartbeatAction::AwaitTick);
    assert_eq!(
        heartbeat_step(&config, HeartbeatEvent::NoPong),
        HeartbeatAction::Stop { timed_out: true }
    );
    assert_eq!(
        heartbeat_step(&config, HeartbeatEvent::PingNotSent),
        HeartbeatAction::Stop { timed_out: false }
    );
}

#[test]
fn heartbeat_keeps_running_while_pongs_arrive() {
    let config = HeartbeatConfig { interval_secs: 1, timeout_secs: 2, enabled: true };
    for _ in 0..5 {
        match heartbeat_step(&config, HeartbeatEvent::Tick) {
            HeartbeatAction::SendPing { wait_secs } => assert_eq!(wait_secs, 2),
            other => panic!("unexpected {:?}", other),
        }
        assert_eq!(heartbeat_step(&config, HeartbeatEvent::Pong), HeartbeatAction::AwaitTick);
    }
}

#[test]
fn heartbeat_times_out_without_pong() {
    let config = HeartbeatConfig { interval_secs: 1, timeout_secs: 1, enabled: true };
    assert_eq!(heartbeat_step(&config, HeartbeatEvent::Tick), HeartbeatAction::SendPing { wait_secs: 1 });
    assert_eq!(
        heartbeat_step(&config, HeartbeatEvent::NoPong),
        HeartbeatAction::Stop { timed_out: true }
    );
}

fn client_edit(operation: EditOperation, version: u64) -> DocumentEdit {
    DocumentEdit { operation_id: "op-1".to_string(), operation, version }
}

#[test]
fn client_edits_chain_their_operations() {
    let mut m = ConnectionManager::new();
    let replace = EditOperation::Replace { position: 0, length: 5, text: "howdy".to_string() };
    assert_eq!(m.apply_client_edit("d", client_edit(replace.clone(), 0)), ClientEditOutcome::Applied(None));
    m.init_document_state("d", "hello world".to_string());
    assert_eq!(m.apply_client_edit("d", client_edit(replace, 0)), ClientEditOutcome::Applied(Some(2)));
    assert_eq!(m.get_document_state("d").unwrap().content(), "howdy world");
    let insert = EditOperation::Insert { position: 11, text: "!".to_string() };
    assert_eq!(m.apply_client_edit("d", client_edit(insert, 2)), ClientEditOutcome::Applied(Some(3)));
    assert_eq!(m.get_document_state("d").unwrap().content(), "howdy world!");
}

#[test]
fn client_edits_that_do_not_apply_are_refused() {
    let mut m = ConnectionManager::new();
    m.init_document_state("d", "\u{e9}t\u{e9}".to_string());
    let inside = EditOperation::Insert { position: 1, text: "x".to_string() };
    assert_eq!(m.apply_client_edit("d", client_edit(inside, 0)), ClientEditOutcome::Refused);
    assert_eq!(m.get_document_state("d").unwrap().version(), 0);
    let replace = EditOperation::Replace { position: 0, length: 2, text: "e".to_string() };
    assert_eq!(m.apply_client_edit("d", client_edit(replace, 0)), ClientEditOutcome::Applied(Some(2)));
    assert_eq!(m.get_document_state("d").unwrap().content(), "et\u{e9}");
}
