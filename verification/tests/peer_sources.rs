use ice_commander::network::{NodeInfo, ResourceType, SharedResource};
use ice_commander::peers::{drive_name, peer_sources, KnownNames, P2pContext, P2pSource, SavedPeerConnection, SourceLabels};

fn share(id: &str) -> SharedResource {
    SharedResource {
        id: id.to_string(),
        name: "Files".to_string(),
        resource_type: ResourceType::Filesystem,
        config: None,
        is_active: true,
        session_token: None,
    }
}

fn node(id: &str, resource: &str) -> NodeInfo {
    NodeInfo {
        id: id.to_string(),
        name: format!("device-{id}"),
        os: "linux".to_string(),
        version: "0.0.0".to_string(),
        app_type: "gui".to_string(),
        build_type: "deb".to_string(),
        public_key: String::new(),
        resources: vec![share(resource)],
        is_online: true,
        last_used: 0,
        is_temporary: false,
    }
}

fn saved(entries: &[(&str, &str)]) -> Vec<SavedPeerConnection> {
    entries.iter().map(|(name, id)| SavedPeerConnection { name: name.to_string(), peer_id: id.to_string() }).collect()
}

fn no_names() -> KnownNames {
    KnownNames { peers: Vec::new(), resources: Vec::new() }
}

fn labels() -> SourceLabels {
    SourceLabels { offline_suffix: "offline".to_string(), unnamed_device: "Unnamed device".to_string() }
}

fn ctx(my_id: &str, peers: &[(&str, &str)], nodes: Vec<NodeInfo>) -> P2pContext {
    P2pContext::new(my_id.to_string(), saved(peers), nodes, no_names(), labels())
}

fn peer_ids(sources: &[P2pSource]) -> Vec<String> {
    sources.iter().map(|s| s.peer_id.clone()).collect()
}

#[test]
fn our_own_share_is_never_offered_as_a_source() {
    let c = ctx("me", &[], vec![node("me", "fs-mine"), node("peer", "fs-theirs")]);
    assert_eq!(peer_ids(&peer_sources(&c, None, &[])), vec!["peer"]);
}

#[test]
fn a_peer_saved_under_our_own_id_is_still_refused() {
    let c = ctx("me2", &[("myself", "me2")], vec![node("me2", "fs-mine")]);
    assert!(peer_sources(&c, None, &[]).is_empty());
}

#[test]
fn an_active_connection_to_ourselves_is_dropped() {
    let c = ctx("me3", &[], vec![node("me3", "fs-mine")]);
    let active = Some(("me3".to_string(), "fs-mine".to_string()));
    assert!(peer_sources(&c, active, &[]).is_empty());
}

#[test]
fn a_real_peer_still_reaches_the_list() {
    let c = ctx("me4", &[], vec![node("other", "fs-theirs")]);
    assert_eq!(peer_ids(&peer_sources(&c, None, &[])), vec!["other"]);
}

#[test]
fn every_share_of_a_saved_peer_becomes_its_own_source() {
    let mut peer = node("friend", "fs-docs");
    peer.resources.push(share("fs-media"));
    let c = ctx("me5", &[("Friend", "friend")], vec![peer]);
    let sources = peer_sources(&c, None, &[]);
    assert_eq!(sources.len(), 2);
    assert!(sources.iter().all(|s| s.is_online));
}

#[test]
fn a_saved_peer_that_is_not_online_is_still_listed_as_offline() {
    let c = ctx("me6", &[("Friend", "friend")], vec![]);
    let sources = peer_sources(&c, None, &[]);
    assert_eq!(sources.len(), 1);
    assert!(!sources[0].is_online);
    assert_eq!(sources[0].key, "p2p://friend");
}

#[test]
fn a_peer_sharing_nothing_is_offered_without_a_resource() {
    let mut peer = node("bare", "unused");
    peer.resources.clear();
    let c = ctx("me7", &[("Bare", "bare")], vec![peer]);
    let sources = peer_sources(&c, None, &[]);
    assert_eq!(sources.len(), 1);
    assert!(sources[0].resource_id.is_empty());
    assert!(sources[0].is_online);
}

#[test]
fn a_favourite_peer_share_is_flagged() {
    let c = ctx("me8", &[], vec![node("friend", "fs-docs")]);
    let key = "p2p://friend@fs-docs".to_string();
    assert!(peer_sources(&c, None, std::slice::from_ref(&key))[0].is_favorite);
}

#[test]
fn the_same_share_is_never_listed_twice() {
    let c = ctx("me9", &[("Friend", "friend")], vec![node("friend", "fs-docs")]);
    let active = Some(("friend".to_string(), "fs-docs".to_string()));
    assert_eq!(peer_sources(&c, active, &[]).len(), 1);
}

#[test]
fn a_saved_peer_lends_its_name_to_the_drive() {
    assert_eq!(drive_name("alice-id", "fs-1", &saved(&[("Alice", "alice-id")]), &no_names()), "fs-1 (Alice)");
}

#[test]
fn an_unknown_peer_is_named_by_a_shortened_id() {
    assert_eq!(drive_name("short", "fs-1", &[], &no_names()), "fs-1 (short)");
    assert_eq!(drive_name("abcdef0123456789", "fs-1", &[], &no_names()), "fs-1 (abcdef...456789)");
}

#[test]
fn a_known_resource_name_replaces_its_id() {
    let known = KnownNames {
        peers: vec![("peer-id".to_string(), "Laptop".to_string())],
        resources: vec![("peer-id".to_string(), "fs-1".to_string(), "Photos".to_string())],
    };
    assert_eq!(drive_name("peer-id", "fs-1", &[], &known), "Photos (Laptop)");
}

#[test]
fn the_sources_never_repeat_a_key_and_never_list_ourselves() {
    let mut friend = node("friend", "fs-docs");
    friend.resources.push(share("fs-docs"));
    let c = ctx("me10", &[("Friend", "friend"), ("Again", "friend"), ("Me", "me10")], vec![friend, node("me10", "fs-mine")]);
    let sources = peer_sources(&c, Some(("friend".to_string(), "fs-docs".to_string())), &[]);
    let mut keys: Vec<&str> = sources.iter().map(|s| s.key.as_str()).collect();
    assert!(sources.iter().all(|s| s.peer_id != "me10"));
    let n = keys.len();
    keys.sort();
    keys.dedup();
    assert_eq!(keys.len(), n);
}
