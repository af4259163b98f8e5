use ice_commander::connections::FtpConnection;
use ice_commander::drives::{AppDrive, DriveItem, MountKind};
use ice_commander::network::{NodeInfo, ResourceType, SharedResource};
use ice_commander::selector::{
    chosen_share_name, connection_mount, peer_row_open, selector_rows_of, share_tooltip, PeerOpen, SelectorRow, ShareTooltip,
};
use ice_commander::shares::{add_share, Shares};

fn conn(name: &str, protocol: &str, remote_path: Option<&str>) -> FtpConnection {
    FtpConnection {
        name: name.to_string(),
        folder: None,
        protocol: protocol.to_string(),
        host: "example.org".to_string(),
        port: 21,
        user: "me".to_string(),
        pass: None,
        auth_type: None,
        key_path: None,
        passphrase: None,
        remote_path: remote_path.map(|s| s.to_string()),
        use_tunnel: None,
        tunnel_host: None,
        tunnel_port: None,
        tunnel_user: None,
        tunnel_auth_type: None,
        tunnel_pass: None,
        tunnel_key_path: None,
        tunnel_passphrase: None,
    }
}

fn drive(item: DriveItem, name: &str, fav: bool, online: bool) -> AppDrive {
    AppDrive {
        item,
        name: name.to_string(),
        subtitle: String::new(),
        icon: String::new(),
        key: format!("key:{name}"),
        is_favorite: fav,
        is_online: online,
    }
}

fn peer(name: &str, fav: bool, online: bool) -> AppDrive {
    drive(
        DriveItem::RemotePeer { peer_id: format!("id-{name}"), resource_id: "fs".to_string(), name: name.to_string() },
        name,
        fav,
        online,
    )
}

fn describe(rows: &[SelectorRow]) -> Vec<String> {
    rows.iter()
        .map(|r| match r {
            SelectorRow::Source { drive, title, icon, star, enabled } => {
                format!("{drive}:{title}:{icon:?}:{star}:{enabled}")
            }
            SelectorRow::ConnectionsHeader => "connections".to_string(),
            SelectorRow::DiscoveredHeader => "discovered".to_string(),
            SelectorRow::MySharesHeader => "mine".to_string(),
            SelectorRow::SignIn => "sign-in".to_string(),
            SelectorRow::NoShares => "no-shares".to_string(),
            SelectorRow::Share { name, path } => format!("share:{name}:{path}"),
        })
        .collect()
}

#[test]
fn the_source_list_groups_drives_in_a_fixed_order() {
    let drives = vec![
        drive(DriveItem::LocalDrive("/mnt/usb".to_string()), "usb", false, true),
        drive(DriveItem::NetConnection(conn("dav", "webdav", None)), "dav", false, false),
        drive(DriveItem::UserHome, "home", false, true),
        peer("bob", false, true),
        drive(DriveItem::RootFs, "root", false, true),
        peer("alice", true, false),
        drive(DriveItem::NetConnection(conn("ftp", "ftp", None)), "ftp", false, false),
    ];
    let rows = selector_rows_of(&drives, &Shares::new(), &None, true);
    assert_eq!(
        describe(&rows),
        vec![
            "2:home:AtHome:true:true",
            "4:root:Home:true:true",
            "0:usb:Ssd:true:true",
            "connections",
            "1:dav:NetDrive:true:true",
            "6:ftp:Ftp:true:true",
            "discovered",
            "5:⭐ alice:Connect:false:false",
            "3:bob:Connect:true:true",
            "mine",
            "sign-in",
        ]
    );
}

#[test]
fn without_peers_the_list_ends_with_the_connections() {
    let drives = vec![drive(DriveItem::RootFs, "root", false, true), peer("bob", false, true)];
    let rows = selector_rows_of(&drives, &Shares::new(), &Some("me".to_string()), false);
    assert_eq!(describe(&rows), vec!["0:root:Home:true:true", "connections"]);
}

#[test]
fn a_signed_in_account_without_shares_is_offered_to_share_one() {
    let rows = selector_rows_of(&Vec::new(), &Shares::new(), &Some("me".to_string()), true);
    assert_eq!(describe(&rows), vec!["connections", "mine", "no-shares"]);
    let rows = selector_rows_of(&Vec::new(), &Shares::new(), &Some(String::new()), true);
    assert_eq!(describe(&rows), vec!["connections", "mine", "sign-in"]);
}

#[test]
fn shares_are_listed_in_name_order() {
    let mut shares = Shares::new();
    add_share(&mut shares, "Music", "/m");
    add_share(&mut shares, "Docs", "/d");
    let rows = selector_rows_of(&Vec::new(), &shares, &None, true);
    assert_eq!(describe(&rows), vec!["connections", "mine", "share:Docs:/d", "share:Music:/m"]);
}

#[test]
fn the_share_tooltip_names_the_only_share_or_counts_them() {
    let mut shares = Shares::new();
    assert!(matches!(share_tooltip(&shares), ShareTooltip::NotShared));
    add_share(&mut shares, "Docs", "/d");
    assert!(matches!(share_tooltip(&shares), ShareTooltip::Path(ref p) if p == "/d"));
    add_share(&mut shares, "Music", "/m");
    assert!(matches!(share_tooltip(&shares), ShareTooltip::Count(2)));
}

#[test]
fn an_empty_share_name_takes_the_suggestion() {
    assert_eq!(chosen_share_name("", "Pictures"), "Pictures");
    assert_eq!(chosen_share_name("Holiday", "Pictures"), "Holiday");
}

#[test]
fn connections_open_by_protocol_in_any_case() {
    let (kind, path) = connection_mount(&conn("a", "ftp", None)).unwrap();
    assert_eq!(kind, MountKind::Ftp);
    assert_eq!(path, "/");
    let (kind, path) = connection_mount(&conn("b", "WebDav", Some("/dav"))).unwrap();
    assert_eq!(kind, MountKind::Webdav);
    assert_eq!(path, "/dav");
    let (kind, _) = connection_mount(&conn("c", "sftp", None)).unwrap();
    assert_eq!(kind, MountKind::Sftp);
    assert!(connection_mount(&conn("d", "smb", None)).is_none());
}

fn node(id: &str, online: bool, resources: Vec<SharedResource>) -> NodeInfo {
    NodeInfo {
        id: id.to_string(),
        name: id.to_string(),
        os: String::new(),
        version: String::new(),
        app_type: String::new(),
        build_type: String::new(),
        public_key: String::new(),
        resources,
        is_online: online,
        last_used: 0,
        is_temporary: false,
    }
}

fn res(id: &str, kind: ResourceType) -> SharedResource {
    SharedResource { id: id.to_string(), name: id.to_string(), resource_type: kind, config: None, is_active: true, session_token: None }
}

#[test]
fn a_peer_row_opens_only_a_file_system_still_shared() {
    let nodes = vec![
        node("gone", false, vec![res("fs", ResourceType::Filesystem)]),
        node("peer", true, vec![res("term", ResourceType::Terminal), res("fs", ResourceType::Filesystem)]),
    ];
    assert!(matches!(peer_row_open(&nodes, "gone", "fs"), PeerOpen::Ignore));
    assert!(matches!(peer_row_open(&nodes, "nobody", "fs"), PeerOpen::Ignore));
    assert!(matches!(peer_row_open(&nodes, "peer", "term"), PeerOpen::Unshared));
    match peer_row_open(&nodes, "peer", "fs") {
        PeerOpen::Open { peer_id, resource_id } => {
            assert_eq!(peer_id, "peer");
            assert_eq!(resource_id, "fs");
        }
        _ => panic!("the shared file system opens"),
    }
}
