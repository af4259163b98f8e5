use ice_commander::connections::FtpConnection;
use ice_commander::drives::{
    active_peer, drive_action, drive_menu, favorites_only, sync_step, AppDrive, SyncStep, ftp_password, get_all_app_drives, is_currently_active, net_key,
    sftp_auth_type, webdav_user, DriveAction, DriveItem, LocalDriveInfo, MountKind, PanelPlace, Platform, SystemDrives,
    VolumeInfo,
};
use ice_commander::transfers::{
    answer, drop_skipped, error_action, find_conflicts, next_question, offers_all_choices, overall_line,
    overwrite_decision, quick_move_applies, retain_failed, scan_totals, top_level, transfer_confirmed,
    transfer_destination, transfer_totals, walk_result, walk_start, CopyMessage, ErrorAction, OverallLine,
    OverwriteDecision, ProgressState, TransferItem,
};

fn conn(protocol: &str) -> FtpConnection {
    FtpConnection {
        name: "c".to_string(),
        folder: None,
        protocol: protocol.to_string(),
        host: "host".to_string(),
        port: 2121,
        user: "u".to_string(),
        pass: None,
        auth_type: None,
        key_path: None,
        passphrase: None,
        remote_path: None,
        use_tunnel: None,
        tunnel_host: None,
        tunnel_port: None,
        tunnel_user: None,
        tunnel_auth_type: None,
        tunnel_pass: None,
        tunnel_key_path: None,
        tunnel_passphrase: None,
    }
}

fn place(path: &str) -> PanelPlace {
    PanelPlace { showing_files: true, resource_id: "local_fs".to_string(), path: path.to_string(), connection_id: None }
}

fn item(p: &str, is_dir: bool, size: u64) -> TransferItem {
    TransferItem { relative_path: p.to_string(), is_dir, size }
}

fn s(v: &[&str]) -> Vec<String> {
    v.iter().map(|x| x.to_string()).collect()
}

#[test]
fn connection_keys_name_the_provider() {
    assert_eq!(net_key(&conn("SFTP")), "sftp://u@host:2121");
    assert_eq!(net_key(&conn("webdav")), "webdav://u@host");
}

#[test]
fn the_root_drive_is_active_outside_home_and_volumes() {
    let roots = s(&["/media/usb"]);
    assert!(is_currently_active(&place("/etc"), &DriveItem::RootFs, Platform::Other, "/home/me", &roots));
    assert!(!is_currently_active(&place("/home/me/x"), &DriveItem::RootFs, Platform::Other, "/home/me", &roots));
    assert!(!is_currently_active(&place("/media/usb/a"), &DriveItem::RootFs, Platform::Other, "/home/me", &roots));
    assert!(is_currently_active(&place("/home/me/x"), &DriveItem::UserHome, Platform::Other, "/home/me", &roots));
    assert!(!is_currently_active(&place("/Volumes/x"), &DriveItem::RootFs, Platform::MacOs, "/Users/me", &roots));
    assert!(is_currently_active(&place("C:\\data"), &DriveItem::LocalDrive("C:/".to_string()), Platform::Windows, "C:/Users/me", &roots));
    assert!(is_currently_active(&place(""), &DriveItem::RootFs, Platform::Windows, "C:/Users/me", &roots));
    let mut away = place("/etc");
    away.showing_files = false;
    assert!(!is_currently_active(&away, &DriveItem::RootFs, Platform::Other, "/home/me", &roots));
}

#[test]
fn remote_drives_match_by_connection_id() {
    let mut p = place("/");
    p.resource_id = "ftp".to_string();
    p.connection_id = Some("sftp://u@host:2121".to_string());
    assert!(is_currently_active(&p, &DriveItem::NetConnection(conn("sftp")), Platform::Other, "/home", &Vec::new()));
    p.connection_id = Some("p2p://peer@fs".to_string());
    let peer = DriveItem::RemotePeer { peer_id: "peer".to_string(), resource_id: "fs".to_string(), name: String::new() };
    assert!(is_currently_active(&p, &peer, Platform::Other, "/home", &Vec::new()));
}

#[test]
fn the_drives_bar_lists_everything_in_order() {
    let sys = SystemDrives {
        system_root_label: "System".to_string(),
        user_home_label: "Home".to_string(),
        not_mounted_label: "not mounted".to_string(),
        home: "/home/me".to_string(),
        locals: vec![
            LocalDriveInfo { name: "USB".to_string(), path: "/media/usb".to_string(), is_mounted: true },
            LocalDriveInfo { name: "Gone".to_string(), path: "/media/gone".to_string(), is_mounted: false },
        ],
        volumes: vec![
            VolumeInfo { name: "Card".to_string(), can_mount: true, is_mounted: false },
            VolumeInfo { name: "Disk".to_string(), can_mount: true, is_mounted: true },
        ],
    };
    let drives = get_all_app_drives(&sys, &vec![conn("ftp")], Vec::new(), &s(&["local_fs:~"]));
    let names: Vec<&str> = drives.iter().map(|d| d.name.as_str()).collect();
    assert_eq!(names, vec!["System", "Home", "USB", "Card", "c"]);
    assert!(!drives[0].is_favorite && drives[1].is_favorite);
    assert_eq!(drives[2].key, "local_fs:/media/usb");
    assert_eq!(drives[3].subtitle, "not mounted");
    assert!(!drives[3].is_online);
    assert_eq!(drives[4].subtitle, "ftp://host");
    assert!(drives[0].is_mounted() && !drives[3].is_mounted() && !drives[4].is_mounted());
}

#[test]
fn opening_a_drive() {
    assert!(matches!(drive_action(&DriveItem::RootFs, "/home/me", true), DriveAction::OpenLocal(ref p) if p == "/"));
    assert!(matches!(drive_action(&DriveItem::UserHome, "/home/me", true), DriveAction::OpenLocal(ref p) if p == "/home/me"));
    assert!(matches!(drive_action(&DriveItem::Volume { name: "v".to_string(), mount_root: None }, "/", true), DriveAction::NeedsAsyncMount));
    match drive_action(&DriveItem::NetConnection(conn("gopher")), "/", true) {
        DriveAction::Mount { kind, remote_path } => {
            assert_eq!(kind, MountKind::Sftp);
            assert_eq!(remote_path, "/");
        }
        _ => panic!("a connection mounts"),
    }
    let peer = DriveItem::RemotePeer { peer_id: "p".to_string(), resource_id: "r".to_string(), name: String::new() };
    assert!(matches!(drive_action(&peer, "/", false), DriveAction::Noop));
    assert!(matches!(drive_action(&peer, "/", true), DriveAction::CallPeer { .. }));
}

#[test]
fn connection_credentials_default_sensibly() {
    let mut c = conn("ftp");
    assert_eq!(ftp_password(&c), "");
    c.pass = Some("pw".to_string());
    assert_eq!(ftp_password(&c), "pw");
    assert_eq!(webdav_user(&c), Some("u".to_string()));
    c.user = String::new();
    assert_eq!(webdav_user(&c), None);
    assert_eq!(sftp_auth_type(&c), "password");
    c.auth_type = Some("key".to_string());
    assert_eq!(sftp_auth_type(&c), "key");
}

#[test]
fn active_peer_ids_need_exactly_one_at() {
    assert_eq!(active_peer(Some("p2p://peer@fs")), Some(("peer".to_string(), "fs".to_string())));
    assert_eq!(active_peer(Some("p2p://peer")), None);
    assert_eq!(active_peer(Some("p2p://a@b@c")), None);
    assert_eq!(active_peer(Some("ftp://a@b")), None);
    assert_eq!(active_peer(None), None);
    assert!(favorites_only(true, false));
    assert!(!favorites_only(true, true));
}

#[test]
fn a_scan_counts_files_folders_and_bytes() {
    let items = vec![item("a", true, 0), item("a/x", false, 5), item("b", false, 7)];
    let t = scan_totals(&items);
    assert_eq!((t.files, t.dirs, t.bytes), (2, 1, 12));
    assert_eq!(transfer_totals(&items), (12, 2));
    assert_eq!(top_level("a/b/c"), "a");
    assert_eq!(top_level("file"), "file");
}

#[test]
fn conflicts_are_top_level_entries_that_exist() {
    let items = || vec![item("a", true, 0), item("a/x", false, 1), item("b", false, 1), item("c", false, 1)];
    assert_eq!(find_conflicts(&items(), &s(&["c", "a", "z"])), s(&["a", "c"]));
    assert_eq!(drop_skipped(items(), &s(&["a"])).len(), 2);
    let kept = retain_failed(items(), &s(&["b"]));
    assert_eq!(kept.len(), 1);
    assert_eq!(kept[0].relative_path, "b");
}

#[test]
fn the_overwrite_questions_walk_the_conflicts() {
    let conflicts = s(&["a", "b", "c"]);
    let mut walk = walk_start();
    assert_eq!(next_question(&walk, &conflicts), Some((0, 3)));
    answer(&mut walk, &conflicts, OverwriteDecision::Skip);
    assert_eq!(next_question(&walk, &conflicts), Some((1, 2)));
    answer(&mut walk, &conflicts, OverwriteDecision::SkipAll);
    assert_eq!(next_question(&walk, &conflicts), None);
    assert_eq!(walk_result(walk, &conflicts), Some(s(&["a", "b", "c"])));

    let mut walk = walk_start();
    answer(&mut walk, &conflicts, OverwriteDecision::Yes);
    answer(&mut walk, &conflicts, OverwriteDecision::YesToAll);
    assert_eq!(walk_result(walk, &conflicts), Some(Vec::new()));

    let mut walk = walk_start();
    answer(&mut walk, &conflicts, OverwriteDecision::Cancel);
    assert_eq!(next_question(&walk, &conflicts), None);
    assert_eq!(walk_result(walk, &conflicts), None);
}

#[test]
fn dialog_answers_map_to_decisions() {
    assert_eq!(overwrite_decision("yes"), OverwriteDecision::Yes);
    assert_eq!(overwrite_decision("yes_all"), OverwriteDecision::YesToAll);
    assert_eq!(overwrite_decision("skip_all"), OverwriteDecision::SkipAll);
    assert_eq!(overwrite_decision("close"), OverwriteDecision::Cancel);
    assert!(offers_all_choices(2));
    assert!(!offers_all_choices(1));
    assert_eq!(error_action("retry"), ErrorAction::Retry);
    assert_eq!(error_action("skip"), ErrorAction::Skip);
    assert_eq!(error_action("whatever"), ErrorAction::Abort);
}

#[test]
fn the_progress_state_follows_the_copy() {
    let mut st = ProgressState::new("Preparing".to_string());
    st.redrawn();
    assert!(!st.should_redraw(false));
    st.apply(CopyMessage::FileStart { name: "a".to_string(), size: 10 });
    st.apply(CopyMessage::Progress { file_bytes: 4, total_bytes_copied: 4 });
    assert!(st.should_redraw(false));
    assert!(!st.should_redraw(true));
    st.apply(CopyMessage::FileDone);
    assert_eq!((st.current_copied, st.files_copied, st.overall_copied), (10, 1, 4));
    st.apply(CopyMessage::FileSkipped);
    assert_eq!(st.files_copied, 2);
    assert_eq!(
        overall_line(&st, 20, 3),
        OverallLine::Stats { copied_bytes: 4, total_bytes: 20, files_copied: 2, total_files: 3 }
    );
    assert_eq!(overall_line(&st, 0, 3), OverallLine::Files { files_copied: 2, total_files: 3 });
}

#[test]
fn where_and_whether_a_transfer_runs() {
    assert_eq!(transfer_destination(None, "/other".to_string()), "/other");
    assert_eq!(transfer_destination(Some("/x".to_string()), "/other".to_string()), "/x");
    assert!(transfer_confirmed(true, "/x", 1));
    assert!(!transfer_confirmed(true, "", 1));
    assert!(!transfer_confirmed(true, "/x", 0));
    assert!(!transfer_confirmed(false, "/x", 1));
    assert!(quick_move_applies(true, true, true, true));
    assert!(!quick_move_applies(false, true, true, true));
    assert!(!quick_move_applies(true, true, false, true));
}

fn drive(item: DriveItem, name: &str, fav: bool) -> AppDrive {
    AppDrive {
        item,
        name: name.to_string(),
        subtitle: String::new(),
        icon: String::new(),
        key: name.to_string(),
        is_favorite: fav,
        is_online: true,
    }
}

#[test]
fn the_drive_menu_lists_favourites_first_and_selects_the_drive_on_show() {
    let drives = || vec![drive(DriveItem::RootFs, "Root", false), drive(DriveItem::UserHome, "Home", true)];
    let menu = drive_menu(drives(), &place("/etc"), Platform::Other, "/home/me", &Vec::new(), false);
    assert_eq!(menu.labels, s(&["⭐ Home", "Root"]));
    assert_eq!(menu.selected, 1);
    let menu = drive_menu(drives(), &place("/home/me/x"), Platform::Other, "/home/me", &Vec::new(), false);
    assert_eq!(menu.selected, 0);
    let favs = drive_menu(drives(), &place("/home/me/x"), Platform::Other, "/home/me", &Vec::new(), true);
    assert_eq!(favs.labels, s(&["⭐ Home"]));
    let favs = drive_menu(drives(), &place("/etc"), Platform::Other, "/home/me", &Vec::new(), true);
    assert_eq!(favs.labels, s(&["Root", "⭐ Home"]));
    assert_eq!(favs.selected, 0);
}

#[test]
fn the_drive_menu_follows_the_panel() {
    let items = vec![drive(DriveItem::UserHome, "Home", true), drive(DriveItem::RootFs, "Root", false)];
    assert_eq!(sync_step(&items, &place("/etc"), Platform::Other, "/home/me", &Vec::new()), SyncStep::Select(1));
    let mut hidden = place("/etc");
    hidden.showing_files = false;
    assert_eq!(sync_step(&items, &hidden, Platform::Other, "/home/me", &Vec::new()), SyncStep::SelectFirst);
    let mut remote = place("/");
    remote.resource_id = "ftp".to_string();
    remote.connection_id = Some("ftp://u@elsewhere:21".to_string());
    assert_eq!(sync_step(&items, &remote, Platform::Other, "/home/me", &Vec::new()), SyncStep::Rebuild);
}
