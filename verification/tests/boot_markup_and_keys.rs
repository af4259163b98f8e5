use ice_commander::boot::{
    configured_device_name, default_device_name, device_id, device_name, device_name_from_host, device_name_to_store,
    session_url, stored_token,
};
use ice_commander::markup::{classify_line, pango_line, parse_inline_markdown, text_lines, MdLine};
use ice_commander::naming::{plan_paste, selected_items, ClipItem, ClipKind, PastePlan};
use ice_commander::settings::{
    connect_timeout, request_timeout, secs_to_duration, set_connect_timeout_secs, set_request_timeout_secs,
    TimeoutSettings, DEFAULT_TIMEOUT_SECS,
};
use ice_commander::startup::{Application, LaunchOptions};
use ice_commander::text::{contains_string, less_text};
use ice_commander::window_keys::{
    click_shift, window_key, window_key_released, ActivePanelSide, ButtonLabel, KeyContext, Propagation, WindowCommand,
    WindowKey,
};

fn args(v: &[&str]) -> Vec<String> {
    v.iter().map(|x| x.to_string()).collect()
}

fn is_uuid(s: &str) -> bool {
    uuid::Uuid::parse_str(s).is_ok() && s.len() == 36
}

#[test]
fn device_names_are_trimmed_and_fall_back() {
    assert_eq!(device_name_from_host(Some("  box ".to_string())), "box");
    assert_eq!(device_name_from_host(Some("   ".to_string())), "IceCommander Client");
    assert_eq!(device_name_from_host(None), "IceCommander Client");
    assert_eq!(configured_device_name(Some(" Mine ".to_string()), Some("Old".to_string())), Some("Mine".to_string()));
    assert_eq!(configured_device_name(None, Some(" Old ".to_string())), Some("Old".to_string()));
    assert_eq!(configured_device_name(Some("  ".to_string()), Some("Old".to_string())), None);
    assert_eq!(device_name(Some("Mine".to_string()), None), "Mine");
    assert_eq!(device_name_to_store("  Laptop "), "Laptop");
    assert!(!default_device_name().is_empty());
    assert_eq!(device_name(None, None), default_device_name());
}

#[test]
fn the_default_name_is_the_trimmed_host_name() {
    let host = hostname::get().ok().and_then(|h| h.into_string().ok());
    assert_eq!(default_device_name(), device_name_from_host(host));
}

#[test]
fn device_ids_are_kept_or_made_fresh() {
    assert_eq!(device_id(Some("abc".to_string())), ("abc".to_string(), false));
    let (fresh, store) = device_id(Some(String::new()));
    assert!(store && is_uuid(&fresh));
    let (a, _) = device_id(None);
    let (b, _) = device_id(None);
    assert!(is_uuid(&a) && is_uuid(&b));
    assert_ne!(a, b);
    assert_eq!(Application::device_id(Some(String::new())), (String::new(), false));
    assert!(Application::device_id(None).1);
}

#[test]
fn signing_in_needs_a_stored_token() {
    assert_eq!(stored_token(Some("t".to_string())), Ok("t".to_string()));
    let err = Err("no stored account: sign in from the desktop app first".to_string());
    assert_eq!(stored_token(Some(String::new())), err);
    assert_eq!(stored_token(None), err);
    assert_eq!(session_url("wss://x", "tok", "id"), "wss://x?token=tok&session_id=id");
}

#[test]
fn inline_markdown_becomes_pango() {
    assert_eq!(parse_inline_markdown("**F1**: help"), "<b>F1</b>: help");
    assert_eq!(parse_inline_markdown("a *b* c"), "a <i>b</i> c");
    assert_eq!(
        parse_inline_markdown("`ls`"),
        "<span font_family=\"monospace\" background=\"alpha(currentColor,0.07)\">ls</span>"
    );
    assert_eq!(parse_inline_markdown("**open"), "<i></i>open");
    assert_eq!(parse_inline_markdown("a *b"), "a *b");
    assert_eq!(parse_inline_markdown("**a** and **b**"), "<b>a</b> and <b>b</b>");
}

#[test]
fn help_lines_are_classified_and_rendered() {
    assert_eq!(text_lines("a\r\nb\n\nc\n"), vec!["a".to_string(), "b".to_string(), String::new(), "c".to_string()]);
    assert_eq!(text_lines(""), Vec::<String>::new());
    assert!(matches!(classify_line("  # Title "), MdLine::Heading1(ref t) if t == "Title"));
    assert!(matches!(classify_line("## Sub"), MdLine::Heading2(ref t) if t == "Sub"));
    assert!(matches!(classify_line("* item"), MdLine::Bullet(ref t) if t == "item"));
    assert!(matches!(classify_line("   "), MdLine::Blank));
    assert!(matches!(classify_line("plain"), MdLine::Text(ref t) if t == "plain"));
    assert_eq!(pango_line(&MdLine::Heading2("x".to_string()), "x"), "<span size=\"x-large\" weight=\"bold\">x</span>\n\n");
    assert_eq!(pango_line(&MdLine::Bullet("x".to_string()), "**x**"), "  • <b>x</b>\n");
    assert_eq!(pango_line(&MdLine::Blank, ""), "\n");
}

fn ctx() -> KeyContext {
    KeyContext {
        active: ActivePanelSide::Left,
        left_term_focused: false,
        right_term_focused: false,
        left_term_visible: true,
        right_term_visible: false,
        expanded: false,
        focus_editable: false,
        focus_text_view: false,
        dialog_visible: false,
        clipboard_items: 0,
        panel_has_window: true,
        focus_in_left: true,
        windows: false,
        shift_held: false,
    }
}

#[test]
fn function_keys_drive_the_active_panel() {
    let c = ctx();
    let o = window_key(WindowKey::F(5), false, false, false, None, &c);
    assert_eq!((o.command, o.propagation), (WindowCommand::Copy, Propagation::Stop));
    let o = window_key(WindowKey::F(4), true, false, false, None, &c);
    assert_eq!(o.command, WindowCommand::NewFile);
    let o = window_key(WindowKey::F(7), false, true, false, None, &c);
    assert_eq!(o.command, WindowCommand::FindFiles);
    let o = window_key(WindowKey::Tab, false, false, false, None, &c);
    assert_eq!(o.command, WindowCommand::FocusRight);
    let mut none = ctx();
    none.active = ActivePanelSide::Neither;
    let o = window_key(WindowKey::F(5), false, false, false, None, &none);
    assert_eq!((o.command, o.propagation), (WindowCommand::Nothing, Propagation::Proceed));
    let o = window_key(WindowKey::F(10), false, false, false, None, &none);
    assert_eq!(o.command, WindowCommand::Quit);
}

#[test]
fn shortcuts_come_before_plain_keys() {
    let c = ctx();
    let o = window_key(WindowKey::Letter('r'), false, false, true, Some("refresh"), &c);
    assert_eq!(o.command, WindowCommand::Refresh);
    let o = window_key(WindowKey::Other, false, false, false, Some("expand_terminal"), &c);
    assert_eq!(o.command, WindowCommand::ExpandTerminal(ActivePanelSide::Left));
    let mut expanded = ctx();
    expanded.expanded = true;
    let o = window_key(WindowKey::Other, false, false, false, Some("expand_terminal"), &expanded);
    assert_eq!(o.command, WindowCommand::CollapseTerminal);
    let o = window_key(WindowKey::Other, false, false, false, Some("clip_paste"), &c);
    assert_eq!((o.command, o.propagation), (WindowCommand::Nothing, Propagation::Proceed));
    let mut full = ctx();
    full.clipboard_items = 2;
    let o = window_key(WindowKey::Other, false, false, false, Some("clip_paste"), &full);
    assert_eq!(o.command, WindowCommand::Paste);
    let o = window_key(WindowKey::Other, false, false, false, Some("clip_cut"), &c);
    assert_eq!((o.command, o.propagation), (WindowCommand::Take(ClipKind::Cut), Propagation::StopIfTaken));
    let mut term = ctx();
    term.left_term_focused = true;
    let o = window_key(WindowKey::F(5), false, false, false, Some("refresh"), &term);
    assert_eq!((o.command, o.propagation), (WindowCommand::Nothing, Propagation::Proceed));
    let o = window_key(WindowKey::F(9), false, false, false, None, &term);
    assert_eq!(o.command, WindowCommand::ToggleTerminal(ActivePanelSide::Left));
}

#[test]
fn shift_changes_the_labels_and_the_selectors() {
    let c = ctx();
    let o = window_key(WindowKey::ShiftL, true, false, false, None, &c);
    assert!(o.shift_held && o.refresh_selectors);
    assert_eq!(o.f4_label, Some(ButtonLabel::Alternate));
    let r = window_key_released(WindowKey::ShiftL, true);
    assert!(!r.shift_held && r.refresh_selectors);
    assert_eq!(r.f4_label, Some(ButtonLabel::Normal));
    let r = window_key_released(WindowKey::AltR, false);
    assert_eq!(r.f7_label, Some(ButtonLabel::Normal));
    assert!(!r.refresh_selectors);
    assert_eq!(click_shift(false, true), (true, true));
    assert_eq!(click_shift(true, true), (true, false));
    let o = window_key(WindowKey::Escape, false, false, false, None, &c);
    assert!(o.cancel_editing);
}

#[test]
fn launch_options_read_flags_and_values() {
    let LaunchOptions { headless, webui, port, host } = Application::launch_options(&args(&["ice", "--headless", "--port", "8080", "--host", "0.0.0.0"]));
    assert!(headless && !webui);
    assert_eq!(port, 8080);
    assert_eq!(host, "0.0.0.0");
    let o = Application::launch_options(&args(&["ice", "--port"]));
    assert_eq!((o.port, o.host.as_str()), (7878, "127.0.0.1"));
    assert_eq!(Application::network_warning(true, "0.0.0.0", 1), Some(("0.0.0.0".to_string(), 1)));
    assert_eq!(Application::network_warning(true, "localhost", 1), None);
    assert_eq!(Application::network_warning(false, "0.0.0.0", 1), None);
    assert_eq!(Application::favorites_or_default(None), (args(&["local_fs:/", "local_fs:~"]), true));
    assert_eq!(Application::favorites_or_default(Some(args(&["x"]))), (args(&["x"]), false));
    let b = Application::banner("1.0", "linux", "desktop", "deb", "id-1");
    assert_eq!(b.len(), 8);
    assert_eq!(b[2], "   Version   : v1.0");
    assert_eq!(b[6], "   Node ID   : id-1");
}

#[test]
fn timeouts_of_zero_mean_none() {
    let mut t = TimeoutSettings::new();
    assert_eq!(t.connect_secs, DEFAULT_TIMEOUT_SECS);
    assert_eq!(connect_timeout(&t), Some(std::time::Duration::from_secs(20)));
    set_connect_timeout_secs(&mut t, 0);
    set_request_timeout_secs(&mut t, 5);
    assert_eq!(connect_timeout(&t), None);
    assert_eq!(request_timeout(&t), Some(std::time::Duration::from_secs(5)));
    assert_eq!(secs_to_duration(7), Some(std::time::Duration::from_secs(7)));
}

fn ci(name: &str) -> ClipItem {
    ClipItem { name: name.to_string(), is_dir: false, size: 1, permissions: None }
}

#[test]
fn a_paste_into_its_own_folder_renames_or_clears() {
    assert!(matches!(plan_paste(ClipKind::Cut, "/a", "/a", true, &[ci("x")], args(&["x"])), PastePlan::ClearClipboard));
    match plan_paste(ClipKind::Copy, "/a", "/a", true, &[ci("x")], args(&["x"])) {
        PastePlan::Transfer { dest_names } => assert_eq!(dest_names, vec![("x".to_string(), "x (1)".to_string())]),
        _ => panic!("a copy transfers"),
    }
    match plan_paste(ClipKind::Cut, "/a", "/b", true, &[ci("x")], args(&["x"])) {
        PastePlan::Transfer { dest_names } => assert!(dest_names.is_empty()),
        _ => panic!("a move elsewhere transfers"),
    }
    let picked = selected_items(vec![ci(".."), ci("a"), ci("b")]);
    let names: Vec<&str> = picked.iter().map(|c| c.name.as_str()).collect();
    assert_eq!(names, vec!["a", "b"]);
}

#[test]
fn text_helpers_follow_std() {
    assert!(contains_string(&args(&["a", "b"]), "b"));
    assert!(!contains_string(&args(&["a", "b"]), "c"));
    assert!(less_text("a", "b"));
    assert!(less_text("a", "ab"));
    assert!(!less_text("b", "a"));
    assert!(!less_text("a", "a"));
}

#[test]
fn share_mounts_are_no_ops_without_the_webdav_server() {
    ice_commander::davserver::unmount_all();
    ice_commander::davserver::open_in_explorer(8080);
}

fn is_v4_uuid(s: &str) -> bool {
    let c: Vec<char> = s.chars().collect();
    c.len() == 36
        && c.iter().enumerate().all(|(i, &ch)| match i {
            8 | 13 | 18 | 23 => ch == '-',
            14 => ch == '4',
            19 => matches!(ch, '8' | '9' | 'a' | 'b'),
            _ => ch.is_ascii_digit() || ('a'..='f').contains(&ch),
        })
}

#[test]
fn a_fresh_device_id_is_a_random_uuid() {
    let (id, fresh) = device_id(None);
    assert!(fresh);
    assert!(is_v4_uuid(&id), "{id}");
    let (id, fresh) = device_id(Some(String::new()));
    assert!(fresh && is_v4_uuid(&id));
    let (id, fresh) = Application::device_id(None);
    assert!(fresh && is_v4_uuid(&id));
    assert_ne!(device_id(None).0, device_id(None).0);
}
