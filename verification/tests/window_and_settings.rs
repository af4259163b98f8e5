use ice_commander::account::{
    account_dialog_size, account_status, api_log_out, device_rename, log_out, session_refreshed, shown_login, signed_in,
    AccountSettings,
};
use ice_commander::help::{help_body, help_shortcut_lines, keys_of};
use ice_commander::hotkeys::{capture_step, get_default_hotkeys, rebind, CaptureStep, HotKey};
use ice_commander::main_window::{
    asks_startup_password, checks_for_updates, color_scheme, connection_target, connections_badge, expanded_notice,
    network_warning_text, saved_panel_path, theme_toggle, web_access_port, web_access_url, window_geometry, ColorScheme,
};
use ice_commander::runtime::{login_label, WsState};
use ice_commander::settings_dialog::{page_name, settings_pages, PageBuilds, SettingsPage};
use ice_commander::terminal_session::{
    console_shell, local_shell_command, next_generation, output_step, panel_shell, session_ended_text,
    start_failure_text, OutputStep, ShellStart,
};
use ice_commander::drives::Platform;
use ice_commander::window_keys::ActivePanelSide;
use ice_commander::wizard::{
    back_target, language_index, languages, next_step, restart_after_finish, row_size_index, row_size_value,
    should_show, target_index, target_value, theme_after_card, theme_after_switch, theme_controls, toolbar_buttons,
    toolbar_shown, wizard_nav, NextStep,
};

fn args(v: &[&str]) -> Vec<String> {
    v.iter().map(|x| x.to_string()).collect()
}

#[test]
fn stored_theme_numbers_pick_the_scheme() {
    assert_eq!(color_scheme(Some(1)), ColorScheme::ForceLight);
    assert_eq!(color_scheme(Some(2)), ColorScheme::ForceDark);
    assert_eq!(color_scheme(Some(7)), ColorScheme::Default);
    assert_eq!(color_scheme(None), ColorScheme::Default);
    assert_eq!(theme_toggle(true), (ColorScheme::ForceLight, 1));
    assert_eq!(theme_toggle(false), (ColorScheme::ForceDark, 2));
    for dark in [true, false] {
        let (scheme, index) = theme_toggle(dark);
        assert_eq!(color_scheme(Some(index)), scheme);
    }
}

#[test]
fn the_window_opens_at_the_stored_or_default_size() {
    let g = window_geometry(None, None, None);
    assert_eq!((g.width, g.height, g.maximized), (1200, 800, false));
    let g = window_geometry(Some(640), Some(480), Some(true));
    assert_eq!((g.width, g.height, g.maximized), (640, 480, true));
}

#[test]
fn connections_open_where_the_setting_says() {
    assert_eq!(connection_target(None, ActivePanelSide::Right), ActivePanelSide::Right);
    assert_eq!(connection_target(None, ActivePanelSide::Neither), ActivePanelSide::Left);
    assert_eq!(connection_target(Some("left"), ActivePanelSide::Right), ActivePanelSide::Left);
    assert_eq!(connection_target(Some("right"), ActivePanelSide::Left), ActivePanelSide::Right);
    assert_eq!(connection_target(Some("opposite"), ActivePanelSide::Left), ActivePanelSide::Right);
    assert_eq!(connection_target(Some("opposite"), ActivePanelSide::Right), ActivePanelSide::Left);
    assert_eq!(connection_target(Some("opposite"), ActivePanelSide::Neither), ActivePanelSide::Left);
}

#[test]
fn expansion_notices_name_the_side() {
    assert_eq!(expanded_notice(Some(ActivePanelSide::Left)), ("left", true));
    assert_eq!(expanded_notice(Some(ActivePanelSide::Right)), ("right", true));
    assert_eq!(expanded_notice(None), ("", false));
    assert_eq!(expanded_notice(Some(ActivePanelSide::Neither)), ("", false));
}

#[test]
fn only_local_folders_are_remembered_on_close() {
    let levels = vec![(true, "/home/me".to_string()), (false, "archive.zip".to_string())];
    assert_eq!(saved_panel_path(false, "local_fs", &levels), "/home/me");
    assert_eq!(saved_panel_path(false, "root_fs", &vec![(false, "x".to_string())]), "");
    assert_eq!(saved_panel_path(true, "local_fs", &levels), "");
    assert_eq!(saved_panel_path(false, "ftp", &levels), "");
}

#[test]
fn start_up_questions() {
    assert!(asks_startup_password(true, Some(true)));
    assert!(!asks_startup_password(true, None));
    assert!(!asks_startup_password(false, Some(true)));
    assert!(checks_for_updates(&args(&["ice"])));
    assert!(!checks_for_updates(&args(&["ice", "--no-check-update"])));
    assert_eq!(
        network_warning_text("Careful", "Address", "0.0.0.0", 7878),
        "Careful\n\nAddress:  0.0.0.0:7878"
    );
}

#[test]
fn the_web_access_button_follows_the_arguments() {
    assert_eq!(web_access_port(&args(&["ice"])), None);
    assert_eq!(web_access_port(&args(&["ice", "--webui"])), Some(7878));
    assert_eq!(web_access_port(&args(&["ice", "--webui", "--port", "9000"])), Some(9000));
    assert_eq!(web_access_port(&args(&["ice", "--webui", "--port", "x"])), Some(7878));
    assert_eq!(web_access_url(9000), "http://localhost:9000/");
    assert_eq!(connections_badge(0), "(0)");
    assert_eq!(connections_badge(12), "(12)");
}

#[test]
fn settings_pages_are_built_once() {
    assert_eq!(settings_pages(false).len(), 8);
    let with = settings_pages(true);
    assert_eq!(with.len(), 10);
    assert_eq!(with[6], SettingsPage::NodeInNet);
    assert_eq!(with[9], SettingsPage::Logging);
    assert_eq!(page_name(3), "page_3");
    let mut builds = PageBuilds::new(3);
    assert!(builds.select(1));
    assert!(!builds.select(1));
    assert!(builds.select(0));
    assert!(!builds.select(5));
}

#[test]
fn the_wizard_walks_its_pages() {
    assert!(should_show(None));
    assert!(should_show(Some(false)));
    assert!(!should_show(Some(true)));
    assert_eq!(wizard_nav(0, 3), (false, false));
    assert_eq!(wizard_nav(2, 3), (true, true));
    assert_eq!(next_step(0, 3), NextStep::Page(1));
    assert_eq!(next_step(2, 3), NextStep::Finish);
    assert_eq!(back_target(0), None);
    assert_eq!(back_target(2), Some(1));
    assert!(restart_after_finish(Some("de"), "en"));
    assert!(!restart_after_finish(Some("en"), "en"));
    assert!(restart_after_finish(None, "en"));
}

#[test]
fn languages_and_choices_map_to_list_positions() {
    assert_eq!(languages().len(), 15);
    assert_eq!(language_index(None), 0);
    assert_eq!(language_index(Some("ru")), 13);
    assert_eq!(language_index(Some("xx")), 0);
    assert_eq!(languages()[language_index(Some("uk"))].1, "uk");
    for i in 0..4 {
        assert_eq!(target_index(Some(target_value(i))), i);
    }
    assert_eq!(target_index(None), 0);
    for i in 0..3 {
        assert_eq!(row_size_index(Some(row_size_value(i))), i);
    }
    assert_eq!(row_size_value(9), "normal");
}

#[test]
fn theme_controls_follow_the_stored_theme() {
    assert_eq!(theme_controls(None), (true, false));
    assert_eq!(theme_controls(Some(2)), (false, true));
    assert_eq!(theme_controls(Some(1)), (false, false));
    assert_eq!(theme_after_switch(true, true), 0);
    assert_eq!(theme_after_switch(false, true), 2);
    assert_eq!(theme_after_switch(false, false), 1);
    assert_eq!(theme_after_card(true, true, false), Some(2));
    assert_eq!(theme_after_card(false, true, false), Some(1));
    assert_eq!(theme_after_card(true, true, true), None);
    assert_eq!(theme_after_card(true, false, false), None);
}

#[test]
fn toolbar_buttons_show_by_default_except_devtools() {
    assert_eq!(toolbar_buttons(false).len(), 4);
    assert_eq!(toolbar_buttons(true).len(), 5);
    assert!(toolbar_shown(false, "ui.toolbar.search", None));
    assert!(!toolbar_shown(false, "ui.toolbar.devtools", None));
    assert!(toolbar_shown(false, "ui.toolbar.devtools", Some(true)));
    assert!(toolbar_shown(false, "ui.toolbar.unknown", None));
    assert!(!toolbar_shown(false, "ui.toolbar.search", Some(false)));
}

fn hk(id: &str, keys: &str) -> HotKey {
    HotKey { id: id.to_string(), description: String::new(), keys: keys.to_string() }
}

#[test]
fn the_help_lists_bound_shortcuts_only() {
    let hotkeys = vec![hk("refresh", "Ctrl+R"), hk("find_files", ""), hk("refresh", "F5")];
    assert_eq!(keys_of(&hotkeys, "refresh"), "Ctrl+R");
    assert_eq!(keys_of(&hotkeys, "missing"), "");
    let entries = vec![
        ("refresh".to_string(), "Refresh".to_string()),
        ("find_files".to_string(), "Find".to_string()),
        ("missing".to_string(), "Missing".to_string()),
    ];
    assert_eq!(help_shortcut_lines(&hotkeys, &entries), vec!["- **Ctrl+R**: Refresh".to_string()]);
    assert_eq!(help_body(&vec!["a".to_string(), String::new(), "b".to_string()]), "a\n\nb");
    assert_eq!(help_body(&Vec::new()), "");
}

#[test]
fn the_capture_dialog_rebinds_free_combinations() {
    assert!(matches!(capture_step(true, Some("Escape"), "", None), CaptureStep::Close));
    assert!(matches!(capture_step(false, Some("Control_L"), "Ctrl", None), CaptureStep::Ignore));
    assert!(matches!(capture_step(false, Some("F13"), "", None), CaptureStep::Ignore));
    assert!(matches!(capture_step(false, Some("r"), "Ctrl+R", Some("refresh".to_string())), CaptureStep::Conflict(ref a) if a == "refresh"));
    assert!(matches!(capture_step(false, Some("r"), "Ctrl+Alt+R", None), CaptureStep::Rebind));
    let mut hotkeys = get_default_hotkeys();
    rebind(&mut hotkeys, "refresh", "Ctrl+Alt+R");
    assert_eq!(hotkeys.iter().find(|h| h.id == "refresh").unwrap().keys, "Ctrl+Alt+R");
    assert_eq!(hotkeys.len(), get_default_hotkeys().len());
    let mut hotkeys = vec![hk("a", "X")];
    rebind(&mut hotkeys, "b", "Y");
    assert_eq!(hotkeys, vec![hk("a", "X")]);
}

#[test]
fn terminal_sessions_start_and_end() {
    assert_eq!(next_generation(1), 2);
    assert_eq!(next_generation(u64::MAX), 0);
    assert_eq!(output_step(&Vec::new()), OutputStep::Ended);
    assert_eq!(output_step(&b"x".to_vec()), OutputStep::Feed);
    assert_eq!(session_ended_text(), b"\r\n[Session Ended]\r\n".to_vec());
    assert_eq!(start_failure_text("no pty"), "Failed to start terminal: no pty\r\n");
    assert_eq!(local_shell_command(None, Platform::Other), vec!["bash".to_string()]);
    assert_eq!(local_shell_command(None, Platform::Windows), vec!["cmd.exe".to_string()]);
    assert_eq!(local_shell_command(Some("/bin/zsh".to_string()), Platform::MacOs), vec!["/bin/zsh".to_string(), "-l".to_string()]);
}

#[test]
fn the_sign_in_label_follows_the_connection() {
    assert_eq!(login_label(WsState::Disconnected, &None), Some("Disconnected".to_string()));
    assert_eq!(login_label(WsState::Connecting, &None), Some("Connecting...".to_string()));
    assert_eq!(login_label(WsState::Connected, &Some("me".to_string())), Some("me".to_string()));
    assert_eq!(login_label(WsState::Connected, &None), Some("Connected".to_string()));
    assert_eq!(login_label(WsState::LocalMesh, &None), None);
}

#[test]
fn signing_in_and_out_updates_the_account() {
    let mut a = AccountSettings { refresh_token: None, account_login: None, is_guest: false, premium: false };
    signed_in(&mut a, "me".to_string(), "tok".to_string(), true, 3);
    assert_eq!(a.refresh_token.as_deref(), Some("tok"));
    assert_eq!(a.account_login.as_deref(), Some("me"));
    assert!(a.is_guest && a.premium);
    session_refreshed(&mut a, 0);
    assert!(!a.premium);
    let st = account_status(&a, "dev");
    assert!(st.logged_in);
    assert_eq!(st.login, "me");
    assert_eq!(st.device_id, "dev");
    api_log_out(&mut a);
    assert!(!account_status(&a, "dev").logged_in);
    assert_eq!(a.account_login.as_deref(), Some("me"));
    log_out(&mut a);
    assert!(a.refresh_token.is_none() && a.account_login.is_none() && !a.is_guest && !a.premium);
    assert_eq!(account_status(&a, "dev").login, "");
    assert_eq!(shown_login(&None), "Unknown");
    assert_eq!(shown_login(&Some("bob".to_string())), "bob");
}

#[test]
fn the_device_is_renamed_only_to_a_new_name() {
    assert_eq!(device_rename("  Laptop  ", "Desk"), Some("Laptop".to_string()));
    assert_eq!(device_rename("Desk ", "Desk"), None);
    assert_eq!(device_rename("   ", "Desk"), None);
    assert_eq!(account_dialog_size(true), (450, 650));
    assert_eq!(account_dialog_size(false), (400, 450));
}

fn strs(v: &[&str]) -> Vec<String> {
    v.iter().map(|x| x.to_string()).collect()
}

#[test]
fn the_panel_terminal_prefers_the_providers_ssh_command() {
    let ssh = strs(&["ssh", "-t", "me@host"]);
    assert!(matches!(panel_shell(Some(ssh.clone()), "/w".to_string()), ShellStart::Command(a) if a == ssh));
    assert!(matches!(panel_shell(Some(Vec::new()), "/w".to_string()), ShellStart::Command(a) if a.is_empty()));
    assert!(matches!(panel_shell(None, "/w".to_string()), ShellStart::Local(d) if d == "/w"));
}

#[test]
fn the_console_terminal_prefers_a_shared_peer_shell() {
    let ssh = strs(&["ssh", "me@host"]);
    assert!(matches!(console_shell(true, Some(ssh.clone()), "/w".to_string()), ShellStart::Peer));
    assert!(matches!(console_shell(false, Some(ssh.clone()), "/w".to_string()), ShellStart::Command(a) if a == ssh));
    assert!(matches!(console_shell(false, Some(Vec::new()), "/w".to_string()), ShellStart::Local(d) if d == "/w"));
    assert!(matches!(console_shell(false, None, "/w".to_string()), ShellStart::Local(d) if d == "/w"));
}
