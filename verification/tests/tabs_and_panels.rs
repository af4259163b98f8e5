use ice_commander::layout::{active_after_focus, active_classes, collapsed_divider, player_returns, PanelLayout};
use ice_commander::naming::ClipKind;
use ice_commander::panel::{
    audio_playlist, clip_kind_for, close_after_session_end, entry_size, file_opening, is_selector_page, mount_drive_name,
    mount_step, page_to_return_to, panel_id, starts_in_files, terminal_cwd, BottomPane, FileOpening, MountStep, PanelId,
};
use ice_commander::tabs::{file_name, focus_new_tab, is_left_panel, tab_title_for, tab_title_for_view, TabSet};
use ice_commander::window_keys::ActivePanelSide;

fn s(v: &[&str]) -> Vec<String> {
    v.iter().map(|x| x.to_string()).collect()
}

#[test]
fn a_new_panel_has_one_selected_tab() {
    let tabs = TabSet::new();
    assert_eq!(tabs.len(), 1);
    assert_eq!(tabs.tab_ids(), vec![0]);
    assert_eq!(tabs.active(), 0);
    assert!(!tabs.can_close());
}

#[test]
fn added_tabs_get_fresh_ids_and_may_take_the_focus() {
    let mut tabs = TabSet::new();
    let a = tabs.add(false);
    assert_eq!(a, 1);
    assert_eq!(tabs.active(), 0);
    let b = tabs.add(true);
    assert_eq!(b, 2);
    assert_eq!(tabs.active(), 2);
    assert_eq!(tabs.tab_ids(), vec![0, 1, 2]);
    assert!(tabs.can_close());
}

#[test]
fn the_last_tab_cannot_be_closed() {
    let mut tabs = TabSet::new();
    assert!(!tabs.close(0));
    assert_eq!(tabs.tab_ids(), vec![0]);
}

#[test]
fn closing_a_tab_never_reuses_its_id() {
    let mut tabs = TabSet::new();
    tabs.add(true);
    assert!(tabs.close(1));
    assert!(!tabs.close(1));
    assert_eq!(tabs.tab_ids(), vec![0]);
    assert_eq!(tabs.active(), 0);
    assert_eq!(tabs.add(false), 2);
    assert_eq!(tabs.position(2), Some(1));
    assert_eq!(tabs.position(1), None);
}

#[test]
fn selecting_a_closed_tab_is_ignored() {
    let mut tabs = TabSet::new();
    tabs.add(false);
    tabs.select(1);
    assert_eq!(tabs.active(), 1);
    tabs.select(7);
    assert_eq!(tabs.active(), 1);
}

#[test]
fn ctrl_turns_the_new_tab_focus_setting_around() {
    assert!(focus_new_tab(None, false));
    assert!(!focus_new_tab(None, true));
    assert!(!focus_new_tab(Some(false), false));
    assert!(focus_new_tab(Some(false), true));
}

#[test]
fn file_names_follow_the_last_path_component() {
    assert_eq!(file_name("/home/me/docs"), Some("docs".to_string()));
    assert_eq!(file_name("/home/me/docs/"), Some("docs".to_string()));
    assert_eq!(file_name("foo.txt/."), Some("foo.txt".to_string()));
    assert_eq!(file_name("a//b"), Some("b".to_string()));
    assert_eq!(file_name("/"), None);
    assert_eq!(file_name("/a/.."), None);
    assert_eq!(file_name("."), None);
    assert_eq!(file_name("plain"), Some("plain".to_string()));
}

#[test]
fn file_name_agrees_with_std_path() {
    for p in ["/usr/lib", "/usr/lib/", "./x", "x/./", "..", "/", "", "a/b/..", "dir/file.tar.gz", "//server//share"] {
        let expected = std::path::Path::new(p).file_name().map(|n| n.to_str().unwrap().to_string());
        assert_eq!(file_name(p), expected, "path {p:?}");
    }
}

#[test]
fn tab_titles_default_to_the_root() {
    assert_eq!(tab_title_for(&None), "/");
    assert_eq!(tab_title_for(&Some(String::new())), "/");
    assert_eq!(tab_title_for(&Some("/".to_string())), "/");
    assert_eq!(tab_title_for(&Some("/home/me".to_string())), "me");
    assert_eq!(tab_title_for_view(true, Some("docs")), "/");
    assert_eq!(tab_title_for_view(false, Some("docs")), "docs");
    assert_eq!(tab_title_for_view(false, Some("")), "/");
    assert_eq!(tab_title_for_view(false, None), "/");
}

#[test]
fn panel_names_decide_their_side() {
    assert!(is_left_panel("Left Panel"));
    assert!(!is_left_panel("Right Panel"));
    assert_eq!(panel_id("Left Panel"), PanelId::Left);
    assert_eq!(panel_id("RIGHT"), PanelId::Right);
    assert_eq!(panel_id("Centre"), PanelId::Default);
}

#[test]
fn stack_pages_and_starting_page() {
    assert_eq!(page_to_return_to(Some("filemanager".to_string())), "filemanager");
    assert_eq!(page_to_return_to(None), "selector");
    assert!(!is_selector_page(Some("filemanager")));
    assert!(is_selector_page(Some("registry")));
    assert!(is_selector_page(None));
    assert!(starts_in_files(&Some("/tmp".to_string()), true));
    assert!(!starts_in_files(&Some("/tmp".to_string()), false));
    assert!(!starts_in_files(&Some(String::new()), true));
    assert!(!starts_in_files(&None, true));
}

#[test]
fn activated_files_go_out_play_or_show() {
    assert_eq!(file_opening(true, false, true), FileOpening::External);
    assert_eq!(file_opening(false, true, false), FileOpening::External);
    assert_eq!(file_opening(false, false, true), FileOpening::Play);
    assert_eq!(file_opening(false, false, false), FileOpening::View);
}

#[test]
fn the_playlist_holds_the_folder_audio_in_order() {
    let names = s(&["a.mp3", "notes.txt", "b.ogg"]);
    let audio = vec![true, false, true];
    let (list, active) = audio_playlist("/music", &names, &audio, "/music/b.ogg");
    assert_eq!(
        list,
        vec![("a.mp3".to_string(), "/music/a.mp3".to_string()), ("b.ogg".to_string(), "/music/b.ogg".to_string())]
    );
    assert_eq!(active, Some(1));
    let (list, active) = audio_playlist("/", &s(&["x.mp3"]), &vec![true], "/y.mp3");
    assert_eq!(list, vec![("x.mp3".to_string(), "/x.mp3".to_string())]);
    assert_eq!(active, None);
}

#[test]
fn the_viewer_size_comes_from_the_first_entry_of_that_name() {
    let names = s(&["a", "b", "a"]);
    let sizes = vec![1, 2, 3];
    assert_eq!(entry_size(&names, &sizes, "a"), 1);
    assert_eq!(entry_size(&names, &sizes, "b"), 2);
    assert_eq!(entry_size(&names, &sizes, "c"), 0);
}

#[test]
fn mounted_peer_drives_are_named_after_their_resource() {
    assert_eq!(mount_drive_name("abcdef"), "P2P_abcd");
    assert_eq!(mount_drive_name("ab"), "P2P_ab");
    assert_eq!(mount_drive_name("ключ-1"), "P2P_ключ");
    assert_eq!(mount_step(true, true), MountStep::Unmount);
    assert_eq!(mount_step(false, true), MountStep::Mount);
    assert_eq!(mount_step(false, false), MountStep::Nothing);
    assert_eq!(clip_kind_for(true), ClipKind::Cut);
    assert_eq!(clip_kind_for(false), ClipKind::Copy);
}

#[test]
fn the_bottom_area_divides_its_height() {
    let mut pane = BottomPane { terminal: false, player: false };
    assert_eq!(pane.show_player(600, 100), 500);
    assert_eq!(pane.open_terminal(600), Some(360));
    assert_eq!(pane.open_terminal(600), None);
    assert_eq!(pane.hide_player(600), Some(400));
    assert_eq!(pane.close_terminal(600, 100), None);
    assert!(!pane.terminal && !pane.player);
    assert_eq!(pane.show_player(90, 100), 75);
    assert_eq!(pane.open_terminal(600), Some(360));
    assert_eq!(pane.close_terminal(90, 100), Some(75));
}

#[test]
fn the_terminal_starts_in_a_selected_folder() {
    let cur = "/home".to_string();
    assert_eq!(terminal_cwd(cur.clone(), None), "/home");
    assert_eq!(terminal_cwd(cur.clone(), Some((true, "src".to_string(), "/home/src".to_string()))), "/home/src");
    assert_eq!(terminal_cwd(cur.clone(), Some((true, "..".to_string(), "/".to_string()))), "/home");
    assert_eq!(terminal_cwd(cur, Some((false, "a.txt".to_string(), "/home/a.txt".to_string()))), "/home");
    assert!(close_after_session_end(true, 3, 3));
    assert!(!close_after_session_end(true, 3, 4));
    assert!(!close_after_session_end(false, 3, 3));
}

#[test]
fn growing_a_terminal_and_putting_it_back_restores_the_divider() {
    let mut layout = PanelLayout::new(1000);
    assert_eq!(layout.saved_position, 500);
    assert!(layout.collapse().is_none());
    let step = layout.expand(ActivePanelSide::Left, 420, true).unwrap();
    assert_eq!(step.collapse_first, None);
    assert!(layout.expand(ActivePanelSide::Left, 0, false).is_none());
    assert!(layout.expand(ActivePanelSide::Neither, 0, false).is_none());
    let step = layout.expand(ActivePanelSide::Right, 10, false).unwrap();
    assert_eq!(step.collapse_first, Some(ActivePanelSide::Left));
    assert_eq!(step.restore_position, 420);
    assert!(layout.button_collapses(ActivePanelSide::Right));
    assert!(!layout.terminal_hidden_collapses(ActivePanelSide::Left));
    let back = layout.collapse().unwrap();
    assert_eq!(back.side, ActivePanelSide::Right);
    assert_eq!(back.restore_position, 420);
    assert!(!back.player_was_visible);
    assert_eq!(layout.expanded, None);
    assert!(layout.saved_player_left);
}

#[test]
fn panel_focus_and_dividers() {
    assert_eq!(collapsed_divider(600, false, true), 360);
    assert_eq!(collapsed_divider(600, false, false), 400);
    assert!(player_returns(true, 3));
    assert!(!player_returns(true, 0));
    assert_eq!(active_after_focus(false, true, ActivePanelSide::Left), ActivePanelSide::Right);
    assert_eq!(active_after_focus(false, false, ActivePanelSide::Neither), ActivePanelSide::Neither);
    assert_eq!(active_classes(ActivePanelSide::Neither), (false, false));
    assert_eq!(active_classes(ActivePanelSide::Left), (true, false));
}
