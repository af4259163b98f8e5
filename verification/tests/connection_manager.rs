use ice_commander::connections::{
    add_switches_to_edit, cancel_action, connection_from_form, connection_subtitle, delete_connection, editing_folder,
    field_visibility, folder_page_rows, form_buttons, import_connections, initial_form, is_webdav, keep_stored_secrets,
    parse_u16, protocol_index, save_at, upsert_by_name, without_secrets, AddLabel, CancelAction, ConnForm, FormTitle,
    FtpConnection,
};
use ice_commander::folders::{
    add_folder, build_children_map, children_of, connection_folder_paths, delete_folder, drop_target, folder_leaf,
    move_connection, normalize_folder_input, parent_folder, prompt_result, rename_folder, same_key, subfolder_path,
    ConnNode,
};

fn conn(name: &str, folder: Option<&str>) -> FtpConnection {
    FtpConnection {
        name: name.to_string(),
        folder: folder.map(|s| s.to_string()),
        protocol: "SFTP".to_string(),
        host: "h".to_string(),
        port: 22,
        user: "u".to_string(),
        pass: None,
        auth_type: None,
        key_path: None,
        passphrase: None,
        remote_path: None,
        use_tunnel: None,
        tunnel_host: None,
        tunnel_port: None,
        tunnel_user: None,
        tunnel_auth_type: None,
        tunnel_pass: None,
        tunnel_key_path: None,
        tunnel_passphrase: None,
    }
}

fn names(v: &[FtpConnection]) -> Vec<String> {
    v.iter().map(|c| c.name.clone()).collect()
}

fn folders_of(v: &[FtpConnection]) -> Vec<Option<String>> {
    v.iter().map(|c| c.folder.clone()).collect()
}

fn s(v: &[&str]) -> Vec<String> {
    v.iter().map(|x| x.to_string()).collect()
}

fn form(name: &str, protocol: u32) -> ConnForm {
    ConnForm {
        name: name.to_string(),
        host: "example.org".to_string(),
        port: String::new(),
        user: "me".to_string(),
        protocol,
        auth: 0,
        pass: "pw".to_string(),
        key_path: "/k".to_string(),
        passphrase: String::new(),
        remote_path: String::new(),
        use_tunnel: true,
        tunnel_host: "jump".to_string(),
        tunnel_port: "2222".to_string(),
        tunnel_user: "j".to_string(),
        tunnel_auth: 1,
        tunnel_pass: "tp".to_string(),
        tunnel_key_path: "/tk".to_string(),
        tunnel_passphrase: String::new(),
    }
}

#[test]
fn ports_parse_like_u16() {
    assert_eq!(parse_u16("21"), Some(21));
    assert_eq!(parse_u16("65535"), Some(65535));
    assert_eq!(parse_u16("65536"), None);
    assert_eq!(parse_u16(""), None);
    assert_eq!(parse_u16("+8"), Some(8));
    assert_eq!(parse_u16("-1"), None);
    assert_eq!(parse_u16("1x"), None);
}

#[test]
fn a_form_needs_a_name_a_host_and_a_user() {
    let mut f = form("", 0);
    assert!(connection_from_form(&f, None).is_none());
    f.name = "a".to_string();
    let c = connection_from_form(&f, Some("work".to_string())).unwrap();
    assert_eq!(c.protocol, "FTP");
    assert_eq!(c.port, 21);
    assert_eq!(c.pass.as_deref(), Some("pw"));
    assert_eq!(c.auth_type, None);
    assert_eq!(c.use_tunnel, None);
    assert_eq!(c.folder.as_deref(), Some("work"));
}

#[test]
fn an_sftp_form_keeps_only_the_fields_it_uses() {
    let c = connection_from_form(&form("s", 1), None).unwrap();
    assert_eq!(c.protocol, "SFTP");
    assert_eq!(c.port, 22);
    assert_eq!(c.auth_type.as_deref(), Some("password"));
    assert_eq!(c.key_path, None);
    assert_eq!(c.use_tunnel, Some(true));
    assert_eq!(c.tunnel_port, Some(2222));
    assert_eq!(c.tunnel_auth_type.as_deref(), Some("key"));
    assert_eq!(c.tunnel_pass, None);
    assert_eq!(c.tunnel_key_path.as_deref(), Some("/tk"));
    let c = connection_from_form(&form("w", 2), None).unwrap();
    assert_eq!(c.protocol, "WEBDAV");
    assert_eq!(c.port, 80);
    assert_eq!(c.pass.as_deref(), Some("pw"));
    assert_eq!(c.auth_type, None);
    let mut keyed = form("k", 2);
    keyed.auth = 1;
    assert_eq!(connection_from_form(&keyed, None).unwrap().pass, None);
}

#[test]
fn saving_replaces_the_edited_connection_or_appends() {
    let mut conns = vec![conn("a", None), conn("b", None)];
    assert_eq!(save_at(&mut conns, Some(1), conn("B", None)), 1);
    assert_eq!(names(&conns), vec!["a", "B"]);
    assert_eq!(save_at(&mut conns, None, conn("c", None)), 2);
    assert_eq!(names(&conns), vec!["a", "B", "c"]);
    assert_eq!(save_at(&mut conns, Some(9), conn("d", None)), 9);
    assert_eq!(names(&conns), vec!["a", "B", "c", "d"]);
    assert_eq!(editing_folder(&vec![conn("a", Some("x"))], Some(0)), Some("x".to_string()));
    assert_eq!(editing_folder(&vec![conn("a", Some("x"))], Some(3)), None);
}

#[test]
fn importing_replaces_by_name_and_counts_new_ones() {
    let mut conns = vec![conn("a", Some("old")), conn("b", None)];
    let (added, replaced) = import_connections(&mut conns, vec![conn("a", Some("new")), conn("c", None)]);
    assert_eq!((added, replaced), (1, 1));
    assert_eq!(names(&conns), vec!["a", "b", "c"]);
    assert_eq!(conns[0].folder.as_deref(), Some("new"));
    assert!(upsert_by_name(&mut conns, conn("b", Some("z"))));
    assert!(!upsert_by_name(&mut conns, conn("d", None)));
    assert_eq!(names(&conns), vec!["a", "b", "c", "d"]);
}

#[test]
fn empty_secrets_are_taken_from_the_stored_connection() {
    let mut stored = conn("a", None);
    stored.pass = Some("secret".to_string());
    stored.tunnel_pass = Some("tsecret".to_string());
    let mut incoming = conn("a", None);
    incoming.pass = Some(String::new());
    incoming.tunnel_pass = Some("fresh".to_string());
    let merged = keep_stored_secrets(&vec![stored.clone()], incoming);
    assert_eq!(merged.pass.as_deref(), Some("secret"));
    assert_eq!(merged.tunnel_pass.as_deref(), Some("fresh"));
    let bare = without_secrets(&stored);
    assert_eq!(bare.pass, None);
    assert_eq!(bare.tunnel_pass, None);
    assert_eq!(bare.name, "a");
}

#[test]
fn deleting_an_unknown_connection_is_an_error() {
    let mut conns = vec![conn("a", None), conn("b", None), conn("a", None)];
    assert!(delete_connection(&mut conns, "a").is_ok());
    assert_eq!(names(&conns), vec!["b"]);
    let err = delete_connection(&mut conns, "zz").unwrap_err();
    assert_eq!(err, "no saved connection named \"zz\"");
    assert_eq!(names(&conns), vec!["b"]);
}

#[test]
fn subtitles_and_protocol_positions() {
    let mut c = conn("a", None);
    assert_eq!(connection_subtitle(&c), "sftp://u@h:22");
    c.protocol = "WebDAV".to_string();
    c.host = "https://dav".to_string();
    assert!(is_webdav(&c));
    assert_eq!(connection_subtitle(&c), "https://dav");
    assert_eq!(protocol_index("ftp"), 0);
    assert_eq!(protocol_index("Sftp"), 1);
    assert_eq!(protocol_index("webdav"), 2);
    assert_eq!(protocol_index("gopher"), 2);
}

#[test]
fn a_folder_page_lists_its_connections_and_those_below() {
    let conns = vec![conn("Alpha", Some("work")), conn("beta", Some("work/sub")), conn("gamma", Some("workshop")), conn("delta", None)];
    assert_eq!(folder_page_rows(&conns, "work", ""), vec![0, 1]);
    assert_eq!(folder_page_rows(&conns, "work", "ALP"), vec![0]);
    assert_eq!(folder_page_rows(&conns, "none", ""), Vec::<usize>::new());
}

#[test]
fn the_form_buttons_follow_the_state() {
    let b = form_buttons(None, false, false);
    assert!(b.editable && !b.connect_visible);
    assert_eq!(b.add_label, AddLabel::Add);
    assert_eq!(b.title, FormTitle::New);
    let b = form_buttons(Some(0), true, true);
    assert!(!b.editable);
    assert_eq!(b.title, FormTitle::View);
    let b = form_buttons(Some(0), false, true);
    assert_eq!(b.title, FormTitle::Edit);
    assert_eq!(b.add_label, AddLabel::Save);
    assert_eq!(initial_form(0), (None, false));
    assert_eq!(initial_form(3), (Some(0), true));
    assert!(add_switches_to_edit(true, Some(1)));
    assert!(!add_switches_to_edit(false, Some(1)));
}

#[test]
fn cancelling_an_edit_goes_back_to_the_stored_connection() {
    assert_eq!(cancel_action(Some(1), false, None, 3, false), CancelAction::BackToView { reload: true });
    assert_eq!(cancel_action(Some(5), false, None, 3, false), CancelAction::BackToView { reload: false });
    assert_eq!(cancel_action(Some(1), true, None, 3, true), CancelAction::CloseWindow);
    assert_eq!(cancel_action(Some(1), true, None, 3, false), CancelAction::Nothing);
    assert_eq!(cancel_action(None, false, Some(2), 3, false), CancelAction::Select { index: 2, remember: false });
    assert_eq!(cancel_action(None, false, Some(7), 3, false), CancelAction::Select { index: 0, remember: true });
    assert_eq!(cancel_action(None, false, None, 0, true), CancelAction::CloseWindow);
    assert_eq!(cancel_action(None, false, None, 0, false), CancelAction::Nothing);
}

#[test]
fn webdav_hides_the_authentication_choice() {
    let v = field_visibility(2, 0, false, 0);
    assert!(!v.auth_row && !v.tunnel_row);
    let v = field_visibility(1, 1, true, 0);
    assert!(v.auth_row && v.key_path && v.passphrase && !v.pass);
    assert!(v.tunnel_box);
    let t = v.tunnel_fields.unwrap();
    assert!(t.pass && !t.key_path);
}

#[test]
fn folder_paths_list_every_ancestor_once_in_order() {
    let conns = vec![conn("a", Some("b/c")), conn("d", Some("a")), conn("e", None)];
    assert_eq!(connection_folder_paths(&conns, &s(&["z", "b"])), s(&["a", "b", "b/c", "z"]));
    assert_eq!(connection_folder_paths(&[], &s(&["x//y/"])), s(&["x", "x/y"]));
}

#[test]
fn folder_paths_split_into_parent_and_leaf() {
    assert_eq!(parent_folder("a/b/c"), Some("a/b".to_string()));
    assert_eq!(parent_folder("a"), None);
    assert_eq!(folder_leaf("a/b/c"), "c");
    assert_eq!(folder_leaf("a"), "a");
    assert_eq!(subfolder_path("a/b", "c"), "a/b/c");
    assert_eq!(normalize_folder_input(" a / /b /"), "a/b");
    assert_eq!(prompt_result("  x "), Some("x".to_string()));
    assert_eq!(prompt_result("   "), None);
    assert!(same_key(&None, &None));
    assert!(!same_key(&Some("a".to_string()), &None));
}

#[test]
fn the_tree_shows_subfolders_before_connections() {
    let conns = vec![conn("x", Some("a")), conn("y", None), conn("z", Some("a/b"))];
    let paths = connection_folder_paths(&conns, &[]);
    let top = children_of(&paths, &conns, &None);
    assert_eq!(top.len(), 2);
    assert!(matches!(&top[0], ConnNode::Folder(p) if p == "a"));
    assert!(matches!(&top[1], ConnNode::Connection { index: 1, .. }));
    let under_a = children_of(&paths, &conns, &Some("a".to_string()));
    assert!(matches!(&under_a[0], ConnNode::Folder(p) if p == "a/b"));
    assert!(matches!(&under_a[1], ConnNode::Connection { index: 0, .. }));
    let map = build_children_map(&conns, &[]);
    assert!(map.iter().any(|(k, v)| k.is_none() && v.len() == 2));
    assert_eq!(drop_target(&top[0]), Some("a".to_string()));
    assert_eq!(drop_target(&top[1]), None);
}

#[test]
fn renaming_a_folder_moves_everything_below_it() {
    let mut conns = vec![conn("x", Some("a/b")), conn("y", Some("a/b/c")), conn("z", Some("a/bc"))];
    let mut folders = s(&["a", "a/b", "a/b/c", "a/bc"]);
    assert!(rename_folder(&mut conns, &mut folders, "a/b", "n/ew"));
    assert_eq!(folders_of(&conns), vec![Some("a/n-ew".to_string()), Some("a/n-ew/c".to_string()), Some("a/bc".to_string())]);
    assert_eq!(folders, s(&["a", "a/n-ew", "a/n-ew/c", "a/bc"]));
    assert!(!rename_folder(&mut conns, &mut folders, "a", "a"));
    assert!(!rename_folder(&mut conns, &mut folders, "a", ""));
}

#[test]
fn deleting_a_folder_unfiles_its_connections() {
    let mut conns = vec![conn("x", Some("a")), conn("y", Some("a/b")), conn("z", Some("ab"))];
    let mut folders = s(&["a", "a/b", "ab"]);
    delete_folder(&mut conns, &mut folders, "a");
    assert_eq!(folders_of(&conns), vec![None, None, Some("ab".to_string())]);
    assert_eq!(folders, s(&["ab"]));
}

#[test]
fn folders_and_connections_move() {
    let mut folders = s(&["a"]);
    assert!(add_folder(&mut folders, "b".to_string()));
    assert!(!add_folder(&mut folders, "a".to_string()));
    assert_eq!(folders, s(&["a", "b"]));
    let mut conns = vec![conn("x", None)];
    assert!(move_connection(&mut conns, 0, Some("b".to_string())));
    assert_eq!(conns[0].folder.as_deref(), Some("b"));
    assert!(!move_connection(&mut conns, 4, None));
}
