use ice_commander::api::{
    activation_reply, api_drive_kind, api_provider, batch_step, check_settings_keys, connect_secret, entry_path,
    export_allowed, file_content, find_drive, given_password, join_into, logged_in, rename_target, stream_allowed,
    api_entries, api_levels, batch_target, list_entries, BatchProgress, EntryInfo, LevelInfo,
};
use ice_commander::console::{
    connect_net, ConsolePane, PaneProvider,
    back_opens_sources, build_sources, click_target, clicked_row, confirms, console_provider, console_start_path,
    cursor_report, edit_input, input_step, is_root_path, panel_command, peer_connect_error, route_key, row_action,
    sources_step, term_key, term_resize_due, term_title, viewer_step, asks_cursor_position, ClickTarget, ConsoleState,
    Focus, InputStep, KeyRoute, ListStep, PanelCommand, Rect, RowAction, TermKey,
};
use ice_commander::drives::{AppDrive, DriveAction, DriveItem, LocalDriveInfo, MountKind};
use ice_commander::terminal::{KeyCode, KeyEvent, KeyModifiers};

fn key(code: KeyCode) -> KeyEvent {
    KeyEvent::new(code, KeyModifiers::none())
}

fn ctrl(c: char) -> KeyEvent {
    KeyEvent::new(KeyCode::Char(c), KeyModifiers::ctrl())
}

fn alt(code: KeyCode) -> KeyEvent {
    KeyEvent::new(code, KeyModifiers { shift: false, control: false, alt: true, super_key: false })
}

fn state() -> ConsoleState {
    ConsoleState { active: 0, focus: Focus::Panel, term_expanded: false, left_term: false, right_term: false, should_quit: false }
}

fn s(v: &[&str]) -> Vec<String> {
    v.iter().map(|x| x.to_string()).collect()
}

#[test]
fn keys_go_to_the_overlay_then_the_terminal_then_the_panel() {
    assert_eq!(route_key(true, Focus::Term, true), KeyRoute::Overlay);
    assert_eq!(route_key(false, Focus::Term, true), KeyRoute::Term);
    assert_eq!(route_key(false, Focus::Term, false), KeyRoute::Panel);
    assert_eq!(term_key(key(KeyCode::F(9))), TermKey::Close);
    assert_eq!(term_key(key(KeyCode::BackTab)), TermKey::Defocus);
    assert_eq!(term_key(ctrl('o')), TermKey::ToggleExpand);
    assert_eq!(term_key(alt(KeyCode::Enter)), TermKey::ToggleExpand);
    assert_eq!(term_key(key(KeyCode::Char('o'))), TermKey::Feed);
}

#[test]
fn panel_keys_map_to_commands() {
    assert_eq!(panel_command(key(KeyCode::Char('q'))), PanelCommand::Quit);
    assert_eq!(panel_command(ctrl('c')), PanelCommand::Quit);
    assert_eq!(panel_command(ctrl('r')), PanelCommand::Refresh);
    assert_eq!(panel_command(key(KeyCode::Char('r'))), PanelCommand::Nothing);
    assert_eq!(panel_command(key(KeyCode::PageDown)), PanelCommand::MoveBy(10));
    assert_eq!(panel_command(key(KeyCode::Char('k'))), PanelCommand::MoveBy(-1));
    assert_eq!(panel_command(key(KeyCode::Left)), PanelCommand::Back);
    assert_eq!(panel_command(key(KeyCode::F(8))), PanelCommand::Delete);
}

#[test]
fn terminals_open_close_and_take_the_focus() {
    let mut st = state();
    assert!(!st.close_terminal());
    st.terminal_started();
    assert!(st.left_term && st.focus == Focus::Term);
    st.term_expanded = true;
    st.defocus_terminal();
    assert_eq!(st.focus, Focus::Panel);
    assert!(!st.term_expanded);
    assert!(st.close_terminal());
    assert!(!st.left_term);
    st.active = 1;
    st.terminal_started();
    st.active = 0;
    st.terminal_ended(1);
    assert!(!st.right_term);
    assert_eq!(st.focus, Focus::Term);
}

#[test]
fn cursor_requests_are_answered() {
    assert!(asks_cursor_position(&b"abc\x1b[6nxyz".to_vec()));
    assert!(!asks_cursor_position(&b"\x1b[6".to_vec()));
    assert_eq!(cursor_report(0, 0), "\x1b[1;1R");
    assert_eq!(cursor_report(9, 41), "\x1b[10;42R");
    assert_eq!(term_title(false, true), " terminal ");
    assert_eq!(term_resize_due(10, 10, 10, 10), (true, false));
    assert_eq!(term_resize_due(10, 10, 11, 10), (true, true));
    assert_eq!(term_resize_due(10, 10, 0, 10), (false, false));
}

#[test]
fn prompts_and_lists_take_keys() {
    assert_eq!(input_step(key(KeyCode::Enter)), InputStep::Submit);
    assert_eq!(input_step(key(KeyCode::Char('x'))), InputStep::Type('x'));
    let mut v = vec!['a'];
    edit_input(&mut v, InputStep::Type('b'));
    edit_input(&mut v, InputStep::DeleteLast);
    edit_input(&mut v, InputStep::DeleteLast);
    edit_input(&mut v, InputStep::DeleteLast);
    assert!(v.is_empty());
    assert!(confirms(key(KeyCode::Char('Y'))));
    assert!(!confirms(key(KeyCode::Char('n'))));
    assert_eq!(sources_step(0, 3, key(KeyCode::Up)), ListStep::To(0));
    assert_eq!(sources_step(2, 3, key(KeyCode::Down)), ListStep::To(2));
    assert_eq!(sources_step(0, 0, key(KeyCode::End)), ListStep::To(0));
    assert_eq!(sources_step(1, 3, key(KeyCode::Enter)), ListStep::Open);
    assert_eq!(viewer_step(5, 100, key(KeyCode::PageDown)), ListStep::To(25));
    assert_eq!(viewer_step(90, 100, key(KeyCode::PageDown)), ListStep::To(99));
    assert_eq!(viewer_step(5, 100, key(KeyCode::PageUp)), ListStep::To(0));
    assert_eq!(viewer_step(5, 100, key(KeyCode::F(3))), ListStep::Close);
}

#[test]
fn clicks_hit_terminals_lists_and_footer_keys() {
    let mut st = state();
    st.left_term = true;
    let term = (Rect { x: 0, y: 10, width: 40, height: 5 }, Rect { x: 40, y: 10, width: 40, height: 5 });
    let lists = (Rect { x: 0, y: 0, width: 40, height: 10 }, Rect { x: 40, y: 0, width: 40, height: 10 });
    let footer = vec![Rect { x: 0, y: 20, width: 10, height: 1 }, Rect { x: 10, y: 20, width: 10, height: 1 }];
    assert_eq!(click_target(true, &st, term, lists, &footer, 1, 1), ClickTarget::Ignored);
    assert_eq!(click_target(false, &st, term, lists, &footer, 1, 11), ClickTarget::Terminal(0));
    assert_eq!(click_target(false, &st, term, lists, &footer, 41, 11), ClickTarget::Nothing);
    assert_eq!(click_target(false, &st, term, lists, &footer, 41, 5), ClickTarget::List { side: 1, row: Some(3) });
    assert_eq!(click_target(false, &st, term, lists, &footer, 41, 1), ClickTarget::List { side: 1, row: None });
    assert_eq!(click_target(false, &st, term, lists, &footer, 12, 20), ClickTarget::Footer(1));
    assert!(Rect { x: 65530, y: 0, width: 100, height: 1 }.contains(65534, 0));
    assert_eq!(clicked_row(5, 3, 10), Some(8));
    assert_eq!(clicked_row(5, 3, 8), None);
}

#[test]
fn rows_and_paths_decide_navigation() {
    assert_eq!(row_action(true, true, false), RowAction::GoUp);
    assert_eq!(row_action(false, false, true), RowAction::Enter);
    assert_eq!(row_action(false, false, false), RowAction::Nothing);
    assert!(back_opens_sources(1));
    assert!(!back_opens_sources(2));
    assert!(is_root_path("/"));
    assert!(is_root_path(""));
    assert!(!is_root_path("/home"));
    assert_eq!(console_start_path(&Some("/srv".to_string())), Some("/srv".to_string()));
    assert_eq!(console_start_path(&Some("/".to_string())), None);
    assert_eq!(console_start_path(&None), None);
    assert_eq!(peer_connect_error(""), Some("this peer shares no filesystem"));
    assert_eq!(peer_connect_error("fs"), None);
}

#[test]
fn the_console_lists_root_home_drives_connections_and_peers() {
    let drives = vec![LocalDriveInfo { name: "USB".to_string(), path: "/media/usb".to_string(), is_mounted: false }];
    let sources = build_sources(Some("/home/me".to_string()), &drives, &Vec::new(), Vec::new());
    let labels: Vec<&str> = sources.iter().map(|s| s.label.as_str()).collect();
    assert_eq!(labels, vec!["/", "~", "USB"]);
    assert_eq!(sources[0].subtitle, "root");
    assert!(!sources[2].online);
    let sources = build_sources(None, &Vec::new(), &Vec::new(), Vec::new());
    assert_eq!(sources.len(), 1);
}

#[test]
fn unknown_protocols_are_refused() {
    assert_eq!(console_provider("ftp"), Ok(MountKind::Ftp));
    assert_eq!(console_provider("Sftp"), Ok(MountKind::Sftp));
    assert_eq!(console_provider("smb"), Err("SMB".to_string()));
    assert_eq!(api_provider("webdav"), Ok(MountKind::Webdav));
    assert_eq!(api_provider("smb"), Err("Unknown protocol: smb".to_string()));
}

#[test]
fn api_paths_are_joined_without_doubled_slashes() {
    assert_eq!(entry_path("/", "a"), "/a");
    assert_eq!(entry_path("/x", "a"), "/x/a");
    assert_eq!(join_into("/dst///", "f"), "/dst/f");
    assert_eq!(join_into("", "f"), "/f");
    assert_eq!(rename_target("/a/b/old.txt", "new.txt"), "/a/b/new.txt");
    assert_eq!(rename_target("old.txt", "new.txt"), "/new.txt");
}

fn drive(key: &str, item: DriveItem) -> AppDrive {
    AppDrive { item, name: key.to_string(), subtitle: String::new(), icon: String::new(), key: key.to_string(), is_favorite: false, is_online: true }
}

#[test]
fn api_drives_and_activation() {
    let (kind, path) = api_drive_kind(&DriveItem::UserHome, "/home/me");
    assert_eq!((kind, path.as_str()), ("home", "/home/me"));
    let (kind, path) = api_drive_kind(&DriveItem::Volume { name: "v".to_string(), mount_root: None }, "/h");
    assert_eq!((kind, path.as_str()), ("volume", ""));
    let drives = vec![drive("a", DriveItem::RootFs), drive("b", DriveItem::UserHome), drive("a", DriveItem::UserHome)];
    assert_eq!(find_drive(&drives, "a"), Some(0));
    assert_eq!(find_drive(&drives, "z"), None);
    assert_eq!(activation_reply(None, "z"), Err("unknown source key: z".to_string()));
    assert_eq!(activation_reply(Some(&DriveAction::NeedsAsyncMount), "a"), Err("Mount this drive in the desktop app first".to_string()));
    assert_eq!(activation_reply(Some(&DriveAction::Noop), "a"), Ok(false));
    assert_eq!(activation_reply(Some(&DriveAction::OpenLocal("/".to_string())), "a"), Ok(true));
}

#[test]
fn file_contents_are_text_or_binary() {
    assert_eq!(file_content(b"hello".to_vec()), ("hello".to_string(), false));
    assert_eq!(file_content(vec![0xff, 0xfe]), (String::new(), true));
    assert_eq!(file_content(vec![b'a'; 2 * 1024 * 1024 + 1]), (String::new(), true));
    assert!(stream_allowed(100 * 1024 * 1024).is_ok());
    assert_eq!(stream_allowed(100 * 1024 * 1024 + 1), Err("file too large to stream (100 MB max)".to_string()));
}

#[test]
fn settings_keys_must_be_public() {
    let allowed = s(&["ui.theme_index", "ui.language"]);
    assert!(check_settings_keys(&s(&["ui.language"]), &allowed).is_ok());
    assert_eq!(check_settings_keys(&s(&["ui.language", "app.secret"]), &allowed), Err("\"app.secret\" is not a settable setting".to_string()));
    assert!(export_allowed(1).is_ok());
    assert_eq!(export_allowed(0), Err("no saved connections to export".to_string()));
}

#[test]
fn secrets_and_passwords() {
    assert_eq!(given_password(Some(String::new())), None);
    assert_eq!(given_password(Some("pw".to_string())), Some("pw".to_string()));
    assert_eq!(connect_secret(Some(String::new()), Some("saved".to_string())), (Some("saved".to_string()), false));
    assert_eq!(connect_secret(Some("new".to_string()), Some("saved".to_string())), (Some("new".to_string()), true));
    assert_eq!(connect_secret(None, None), (None, false));
    assert!(logged_in(&Some("t".to_string())));
    assert!(!logged_in(&Some(String::new())));
    let p = batch_step(BatchProgress { files: 1, bytes: 10 }, 5);
    assert_eq!(p, BatchProgress { files: 2, bytes: 15 });
}

fn level(name: &str, display_name: Option<&str>, icon: &str, is_archive: bool) -> LevelInfo {
    LevelInfo { name: name.to_string(), display_name: display_name.map(str::to_string), icon: icon.to_string(), is_archive }
}

fn entry(name: &str, is_dir: bool, size: u64, modified: u64, skipped: bool) -> EntryInfo {
    EntryInfo { name: name.to_string(), is_dir, size, modified, skipped }
}

#[test]
fn only_the_first_level_carries_a_label_and_icon() {
    let levels = vec![
        level("/", Some("Local Disk"), "/icons/scalable/drive-harddisk.svg", true),
        level("docs", Some("ignored"), "/icons/folder.svg", false),
        level("a.zip", None, "x", true),
    ];
    let shown = api_levels(&levels);
    assert_eq!(shown.len(), 3);
    assert_eq!(shown[0].label.as_deref(), Some("Local Disk"));
    assert_eq!(shown[0].icon.as_deref(), Some("drive-harddisk.svg"));
    assert!(!shown[0].is_archive);
    assert_eq!(shown[1].label, None);
    assert_eq!(shown[1].icon, None);
    assert!(!shown[1].is_archive);
    assert!(shown[2].is_archive);
    assert_eq!(shown[2].name, "a.zip");
    let plain = api_levels(&vec![level("/", Some("Root"), "root-icon", false)]);
    assert_eq!(plain[0].icon.as_deref(), Some("root-icon"));
}

#[test]
fn listed_entries_skip_hidden_ones_and_size_only_files() {
    let entries = vec![
        entry("a.txt", false, 12, 100, false),
        entry(".hidden", false, 1, 100, true),
        entry("dir", true, 4096, 0, false),
    ];
    let times = vec![Some("T1".to_string()), Some("T2".to_string()), Some("T3".to_string())];
    let shown = api_entries("/home", &entries, &times);
    assert_eq!(shown.len(), 2);
    assert_eq!(shown[0].path, "/home/a.txt");
    assert_eq!(shown[0].size, Some(12));
    assert_eq!(shown[0].modified.as_deref(), Some("T1"));
    assert_eq!(shown[1].path, "/home/dir");
    assert_eq!(shown[1].size, None);
    assert_eq!(shown[1].modified, None);
    let at_root = api_entries("/", &vec![entry("etc", true, 0, 0, false)], &vec![None]);
    assert_eq!(at_root[0].path, "/etc");
}

#[test]
fn modification_times_are_read_on_the_local_clock() {
    let shown = list_entries("/tmp", &vec![entry("new", false, 1, 2 * 86400, false), entry("old", false, 1, 0, false)]);
    let t = shown[0].modified.clone().expect("a known time is shown");
    assert_eq!(t.len(), "1970-01-03 00:00:00".len());
    assert!(t.starts_with("1970-01-0"), "{t}");
    assert_eq!(shown[1].modified, None);
}

#[test]
fn an_api_copy_keeps_the_file_name_in_the_target_folder() {
    assert_eq!(batch_target("/home/me/a.txt", "/backup/"), ("a.txt".to_string(), "/backup/a.txt".to_string()));
    assert_eq!(batch_target("plain", "/d"), ("plain".to_string(), "/d/plain".to_string()));
    assert_eq!(batch_target("/dir/", "/d"), (String::new(), "/d/".to_string()));
}

fn local_pane() -> ConsolePane {
    ConsolePane { provider: PaneProvider::Local, path: Some("/home".to_string()), showing_selector: true, selected: Some(3) }
}

#[test]
fn connecting_a_saved_connection_opens_it_in_the_pane() {
    let mut pane = local_pane();
    assert_eq!(connect_net(&mut pane, "sftp", &Some("/srv/data".to_string())), None);
    assert!(matches!(pane.provider, PaneProvider::Net(MountKind::Sftp)));
    assert_eq!(pane.path.as_deref(), Some("/srv/data"));
    assert!(!pane.showing_selector);
    assert_eq!(pane.selected, Some(0));
    let mut pane = local_pane();
    assert_eq!(connect_net(&mut pane, "WebDav", &Some("/".to_string())), None);
    assert!(matches!(pane.provider, PaneProvider::Net(MountKind::Webdav)));
    assert_eq!(pane.path, None);
}

#[test]
fn an_unknown_protocol_leaves_the_pane_and_says_so() {
    let mut pane = local_pane();
    let msg = connect_net(&mut pane, "gopher", &None);
    assert_eq!(msg, Some(("Unknown protocol".to_string(), "GOPHER".to_string())));
    assert!(matches!(pane.provider, PaneProvider::Local));
    assert_eq!(pane.path.as_deref(), Some("/home"));
    assert!(pane.showing_selector);
    assert_eq!(pane.selected, Some(3));
}
