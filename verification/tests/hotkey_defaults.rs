use ice_commander::hotkeys::{
    conflict_in, conflicting_action, get_default_hotkeys, get_hotkeys, keyval_to_string, resolve_action, HotKey, KeyState,
};

fn hk(id: &str, keys: &str) -> HotKey {
    HotKey { id: id.to_string(), description: String::new(), keys: keys.to_string() }
}

#[test]
fn default_hotkeys_is_not_empty() {
    assert!(!get_default_hotkeys().is_empty());
}

#[test]
fn default_hotkeys_contains_refresh() {
    let hotkeys = get_default_hotkeys();
    assert!(hotkeys.iter().any(|h| h.id == "refresh"), "missing 'refresh' hotkey");
}

#[test]
fn default_hotkeys_all_have_non_empty_keys() {
    for h in get_default_hotkeys() {
        assert!(!h.keys.is_empty(), "hotkey '{}' has empty keys field", h.id);
    }
}

#[test]
fn default_hotkeys_all_have_unique_ids() {
    let hotkeys = get_default_hotkeys();
    let mut ids: Vec<String> = Vec::new();
    for h in &hotkeys {
        assert!(!ids.contains(&h.id), "duplicate hotkey id: {}", h.id);
        ids.push(h.id.clone());
    }
}

#[test]
fn default_hotkeys_contains_the_clipboard_actions() {
    let ids: Vec<_> = get_default_hotkeys().into_iter().map(|h| (h.id, h.keys)).collect();
    for (id, keys) in [("clip_cut", "Ctrl+X"), ("clip_copy", "Ctrl+C"), ("clip_paste", "Ctrl+V")] {
        assert!(
            ids.iter().any(|(i, k)| i == id && k == keys),
            "missing default '{id}' bound to {keys}"
        );
    }
}

#[test]
fn clipboard_defaults_do_not_collide_with_other_defaults() {
    let hotkeys = get_default_hotkeys();
    let clip: Vec<_> = hotkeys.iter().filter(|h| h.id.starts_with("clip_")).collect();
    assert_eq!(clip.len(), 3);
    for c in &clip {
        for other in hotkeys.iter().filter(|h| !h.id.starts_with("clip_")) {
            assert!(
                !other.keys.eq_ignore_ascii_case(&c.keys),
                "'{}' shadows '{}' — both bound to {}",
                other.id,
                c.id,
                c.keys
            );
        }
    }
}

#[test]
fn a_free_combination_conflicts_with_nothing() {
    let list = [hk("refresh", "Ctrl+R"), hk("clip_copy", "Ctrl+C")];
    assert_eq!(conflict_in(&list, "clip_copy", "Ctrl+Alt+K"), None);
}

#[test]
fn a_taken_combination_names_the_action_holding_it() {
    let list = [hk("filter_files", "Ctrl+F"), hk("clip_copy", "Ctrl+C")];
    assert_eq!(conflict_in(&list, "clip_copy", "Ctrl+F"), Some("filter_files".to_string()));
}

#[test]
fn rebinding_an_action_to_its_own_key_is_not_a_conflict() {
    let list = [hk("clip_copy", "Ctrl+C")];
    assert_eq!(conflict_in(&list, "clip_copy", "Ctrl+C"), None);
}

#[test]
fn the_match_ignores_case() {
    let list = [hk("filter_files", "ctrl+f")];
    assert_eq!(conflict_in(&list, "clip_copy", "Ctrl+F"), Some("filter_files".to_string()));
}

#[test]
fn the_two_pairs_that_share_a_combo_by_design_are_allowed() {
    let list = [hk("toggle_video_fullscreen", "Alt+Return"), hk("find_files", "Ctrl+S")];
    assert_eq!(conflict_in(&list, "expand_terminal", "Alt+Return"), None);
    assert_eq!(conflict_in(&list, "editor_save", "Ctrl+S"), None);
}

#[test]
fn a_design_pair_still_conflicts_with_an_unrelated_action() {
    let list = [hk("find_files", "Ctrl+S")];
    assert_eq!(conflict_in(&list, "clip_cut", "Ctrl+S"), Some("find_files".to_string()));
}

#[test]
fn every_clipboard_default_is_free_against_the_shipped_set() {
    let defaults = get_default_hotkeys();
    for id in ["clip_cut", "clip_copy", "clip_paste"] {
        let keys = defaults.iter().find(|h| h.id == id).unwrap().keys.clone();
        assert_eq!(conflict_in(&defaults, id, &keys), None, "{id} ships shadowed");
    }
}

#[test]
fn hotkey_equality_works() {
    let a = HotKey { id: "x".to_string(), description: "d".to_string(), keys: "Ctrl+X".to_string() };
    let b = a.clone();
    assert_eq!(a, b);
}

#[test]
fn a_stored_binding_is_kept_and_missing_defaults_are_added() {
    let stored = vec![hk("refresh", "F5")];
    let (list, changed) = get_hotkeys(Some(stored));
    assert!(changed);
    assert_eq!(list.len(), get_default_hotkeys().len());
    assert_eq!(list[0].id, "refresh");
    assert_eq!(list[0].keys, "F5");
}

#[test]
fn unknown_stored_actions_are_dropped() {
    let mut stored = get_default_hotkeys();
    stored.push(hk("no_such_action", "Ctrl+Q"));
    let (list, changed) = get_hotkeys(Some(stored));
    assert!(changed);
    assert!(list.iter().all(|h| h.id != "no_such_action"));
    assert_eq!(list.len(), get_default_hotkeys().len());
}

#[test]
fn the_full_default_set_needs_no_saving() {
    let (list, changed) = get_hotkeys(Some(get_default_hotkeys()));
    assert!(!changed);
    assert_eq!(list, get_default_hotkeys());
}

#[test]
fn missing_hotkeys_fall_back_to_the_defaults() {
    let (list, changed) = get_hotkeys(None);
    assert!(changed);
    assert_eq!(list.len(), get_default_hotkeys().len());
}

fn held(control: bool, alt: bool, shift: bool) -> KeyState {
    KeyState { control, alt, shift, super_key: false, meta: false }
}

#[test]
fn key_presses_spell_their_combination() {
    assert_eq!(keyval_to_string(Some("r"), false, held(true, false, false)), "Ctrl+R");
    assert_eq!(keyval_to_string(Some("F5"), false, held(true, false, true)), "Ctrl+Shift+f5");
    assert_eq!(keyval_to_string(Some("backslash"), false, held(true, false, false)), "Ctrl+\\");
    assert_eq!(keyval_to_string(Some("Shift_L"), true, held(false, false, true)), "shift_l");
    assert_eq!(keyval_to_string(None, false, held(false, true, false)), "Alt");
}

#[test]
fn a_key_press_triggers_the_first_matching_action() {
    let defaults = get_default_hotkeys();
    assert_eq!(resolve_action(&defaults, Some("r"), false, held(true, false, false)), Some("refresh".to_string()));
    assert_eq!(resolve_action(&defaults, Some("s"), false, held(true, false, false)), Some("find_files".to_string()));
    assert_eq!(resolve_action(&defaults, Some("Return"), false, held(false, true, false)), Some("toggle_video_fullscreen".to_string()));
    assert_eq!(resolve_action(&defaults, Some("q"), false, held(true, true, true)), None);
    assert_eq!(resolve_action(&defaults, None, false, held(false, false, false)), None);
}

#[test]
fn a_new_binding_reports_what_it_would_shadow() {
    assert_eq!(conflicting_action(None, "clip_cut", "ctrl+r"), (Some("refresh".to_string()), true));
    assert_eq!(conflicting_action(Some(get_default_hotkeys()), "editor_save", "Ctrl+S"), (None, false));
    assert_eq!(conflicting_action(Some(get_default_hotkeys()), "refresh", "Ctrl+Q"), (None, false));
}

#[test]
fn arrow_keys_spell_their_lower_cased_names() {
    assert_eq!(keyval_to_string(Some("Left"), false, held(true, false, false)), "Ctrl+left");
    assert_eq!(keyval_to_string(Some("Up"), false, held(false, true, false)), "Alt+up");
}

#[test]
fn every_shipped_default_is_free_against_the_shipped_set() {
    let defaults = get_default_hotkeys();
    for h in &defaults {
        assert_eq!(conflict_in(&defaults, &h.id, &h.keys), None, "{} ships shadowed", h.id);
    }
}
