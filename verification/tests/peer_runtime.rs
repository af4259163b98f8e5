use ice_commander::boot::{p2p_enabled, stored_identity};
use ice_commander::network::{NodeInfo, ResourceType, SharedResource};
use ice_commander::runtime::{message_consumed, message_route, pending_id, shared_terminals, MessageRoute, P2pMessage};

fn resource(id: &str, resource_type: ResourceType, is_active: bool) -> SharedResource {
    SharedResource {
        id: id.to_string(),
        name: id.to_string(),
        resource_type,
        config: None,
        is_active,
        session_token: None,
    }
}

fn node(id: &str, resources: Vec<SharedResource>) -> NodeInfo {
    NodeInfo {
        id: id.to_string(),
        name: id.to_string(),
        os: "linux".to_string(),
        version: "0.0.0".to_string(),
        app_type: "gui".to_string(),
        build_type: "deb".to_string(),
        public_key: String::new(),
        resources,
        is_online: true,
        last_used: 0,
        is_temporary: false,
    }
}

fn on_message(msg: &P2pMessage) -> bool {
    message_consumed(message_route(msg), false)
}

const REQUEST: u128 = 0x1234_5678_9abc_def0_1122_3344_5566_7788;

#[test]
fn an_existing_pair_is_kept_as_it_is() {
    let id = stored_identity("stored-private".to_string(), "stored-public".to_string()).unwrap();
    assert_eq!(id.private_key, "stored-private");
    assert_eq!(id.public_key, "stored-public");
}

#[test]
fn half_a_pair_is_not_trusted() {
    assert!(stored_identity("only-private".to_string(), String::new()).is_none());
    assert!(stored_identity(String::new(), "only-public".to_string()).is_none());
}

#[test]
fn p2p_is_on_unless_it_was_turned_off() {
    assert!(p2p_enabled(None));
    assert!(!p2p_enabled(Some(false)));
    assert!(p2p_enabled(Some(true)));
}

#[test]
fn a_peer_sharing_a_terminal_is_remembered_by_its_resource_id() {
    let nodes = vec![node("peer", vec![resource("term-1", ResourceType::Terminal, true)])];
    assert_eq!(shared_terminals(&nodes).get("peer"), Some("term-1".to_string()));
}

#[test]
fn a_terminal_switched_off_does_not_count() {
    let nodes = vec![node("peer", vec![resource("term-1", ResourceType::Terminal, false)])];
    assert!(shared_terminals(&nodes).is_empty());
}

#[test]
fn a_peer_sharing_only_files_offers_no_terminal() {
    let nodes = vec![node("peer", vec![resource("fs-1", ResourceType::Filesystem, true)])];
    assert!(shared_terminals(&nodes).is_empty());
}

#[test]
fn every_answer_carrying_a_request_id_is_recognised() {
    let answers = [
        P2pMessage::EntriesResponse { request_id: REQUEST },
        P2pMessage::CreateDirectoryResponse { request_id: REQUEST },
        P2pMessage::DeleteEntryResponse { request_id: REQUEST },
        P2pMessage::RenameEntryResponse { request_id: REQUEST },
    ];
    for msg in answers {
        assert_eq!(pending_id(&msg), Some(REQUEST));
    }
}

#[test]
fn a_message_nobody_waits_for_is_left_alone() {
    assert!(!on_message(&P2pMessage::EntriesResponse { request_id: REQUEST }));
}

#[test]
fn terminal_output_is_always_consumed_here() {
    let msg = P2pMessage::TerminalOutput { resource_id: "term-1".to_string(), data: b"hello".to_vec() };
    assert!(on_message(&msg));
}

#[test]
fn an_awaited_answer_is_consumed() {
    let msg = P2pMessage::FileTransferComplete { transfer_id: 9 };
    assert_eq!(message_route(&msg), MessageRoute::Pending(9));
    assert!(message_consumed(message_route(&msg), true));
}

#[test]
fn other_messages_are_unhandled() {
    assert_eq!(message_route(&P2pMessage::Other), MessageRoute::Unhandled);
    assert_eq!(pending_id(&P2pMessage::Other), None);
    assert!(!message_consumed(MessageRoute::Unhandled, true));
}

#[test]
fn the_first_active_terminal_of_a_node_counts() {
    let nodes = vec![node(
        "peer",
        vec![
            resource("term-0", ResourceType::Terminal, false),
            resource("term-1", ResourceType::Terminal, true),
            resource("term-2", ResourceType::Terminal, true),
        ],
    )];
    assert_eq!(shared_terminals(&nodes).get("peer"), Some("term-1".to_string()));
}

#[test]
fn a_later_report_of_the_same_peer_wins() {
    let nodes = vec![
        node("peer", vec![resource("term-1", ResourceType::Terminal, true)]),
        node("peer", vec![resource("term-3", ResourceType::Terminal, true)]),
    ];
    assert_eq!(shared_terminals(&nodes).get("peer"), Some("term-3".to_string()));
}
