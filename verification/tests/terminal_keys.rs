use ice_commander::terminal::{encode_key, term_height, KeyCode, KeyEvent, KeyModifiers};

fn plain(code: KeyCode) -> Option<Vec<u8>> {
    encode_key(KeyEvent::new(code, KeyModifiers::none()))
}

fn ctrl(c: char) -> Option<Vec<u8>> {
    encode_key(KeyEvent::new(KeyCode::Char(c), KeyModifiers::ctrl()))
}

#[test]
fn plain_characters_are_sent_as_their_utf8_bytes() {
    assert_eq!(plain(KeyCode::Char('a')), Some(b"a".to_vec()));
    assert_eq!(plain(KeyCode::Char('A')), Some(b"A".to_vec()));
    assert_eq!(plain(KeyCode::Char('я')), Some("я".as_bytes().to_vec()));
    assert_eq!(plain(KeyCode::Char('€')), Some("€".as_bytes().to_vec()));
}

#[test]
fn ctrl_letters_become_control_codes_regardless_of_case() {
    assert_eq!(ctrl('a'), Some(vec![1]));
    assert_eq!(ctrl('A'), Some(vec![1]));
    assert_eq!(ctrl('c'), Some(vec![3]));
    assert_eq!(ctrl('z'), Some(vec![26]));
}

#[test]
fn ctrl_space_is_a_nul_byte() {
    assert_eq!(ctrl(' '), Some(vec![0]));
}

#[test]
fn ctrl_punctuation_maps_to_the_separator_codes() {
    assert_eq!(ctrl('\\'), Some(vec![28]));
    assert_eq!(ctrl(']'), Some(vec![29]));
    assert_eq!(ctrl('^'), Some(vec![30]));
    assert_eq!(ctrl('_'), Some(vec![31]));
}

#[test]
fn ctrl_with_an_unmapped_character_sends_the_character_itself() {
    assert_eq!(ctrl('1'), Some(b"1".to_vec()));
}

#[test]
fn editing_keys_use_their_control_bytes() {
    assert_eq!(plain(KeyCode::Enter), Some(vec![b'\r']));
    assert_eq!(plain(KeyCode::Tab), Some(vec![b'\t']));
    assert_eq!(plain(KeyCode::Backspace), Some(vec![0x7f]));
    assert_eq!(plain(KeyCode::Esc), Some(vec![0x1b]));
}

#[test]
fn arrow_and_navigation_keys_are_escape_sequences() {
    assert_eq!(plain(KeyCode::Up), Some(b"\x1b[A".to_vec()));
    assert_eq!(plain(KeyCode::Down), Some(b"\x1b[B".to_vec()));
    assert_eq!(plain(KeyCode::Right), Some(b"\x1b[C".to_vec()));
    assert_eq!(plain(KeyCode::Left), Some(b"\x1b[D".to_vec()));
    assert_eq!(plain(KeyCode::Delete), Some(b"\x1b[3~".to_vec()));
}

#[test]
fn the_first_four_function_keys_use_ss3_and_the_rest_use_csi() {
    assert_eq!(plain(KeyCode::F(1)), Some(b"\x1bOP".to_vec()));
    assert_eq!(plain(KeyCode::F(4)), Some(b"\x1bOS".to_vec()));
    assert_eq!(plain(KeyCode::F(5)), Some(b"\x1b[15~".to_vec()));
    assert_eq!(plain(KeyCode::F(12)), Some(b"\x1b[24~".to_vec()));
}

#[test]
fn function_keys_outside_one_to_twelve_are_not_encoded() {
    assert_eq!(plain(KeyCode::F(0)), None);
    assert_eq!(plain(KeyCode::F(13)), None);
}

#[test]
fn keys_without_a_terminal_encoding_are_dropped() {
    assert_eq!(plain(KeyCode::Null), None);
    assert_eq!(plain(KeyCode::CapsLock), None);
}

#[test]
fn every_function_key_encoding_is_distinct() {
    let mut seen: Vec<Vec<u8>> = Vec::new();
    for n in 1..=12u8 {
        let bytes = plain(KeyCode::F(n)).expect("F1..F12 are encoded");
        assert!(!seen.contains(&bytes), "F{n} repeats an earlier encoding");
        seen.push(bytes);
    }
}

#[test]
fn a_short_pane_still_gets_a_single_terminal_row() {
    assert_eq!(term_height(1), 1);
    assert_eq!(term_height(3), 1);
    assert_eq!(term_height(5), 2);
    assert_eq!(term_height(9), 6);
}

#[test]
fn a_medium_pane_gives_the_terminal_a_third_but_never_less_than_five() {
    assert_eq!(term_height(10), 5);
    assert_eq!(term_height(20), 6);
    assert_eq!(term_height(29), 9);
}

#[test]
fn a_tall_pane_splits_evenly_with_the_list() {
    assert_eq!(term_height(30), 15);
    assert_eq!(term_height(60), 30);
}

#[test]
fn the_terminal_never_takes_the_whole_pane() {
    for h in 1..=400u16 {
        let t = term_height(h);
        assert!(t >= 1 && t <= h, "pane {h} got terminal height {t}");
        if h >= 10 {
            assert!(h - t >= 3, "pane {h} left only {} rows for the list", h - t);
        }
    }
}

#[test]
fn alt_and_shift_do_not_change_a_plain_character() {
    let shift = KeyModifiers { shift: true, control: false, alt: false, super_key: false };
    assert_eq!(encode_key(KeyEvent::new(KeyCode::Char('x'), shift)), Some(b"x".to_vec()));
}

#[test]
fn home_end_and_page_keys_are_escape_sequences() {
    assert_eq!(plain(KeyCode::Home), Some(b"\x1b[H".to_vec()));
    assert_eq!(plain(KeyCode::End), Some(b"\x1b[F".to_vec()));
    assert_eq!(plain(KeyCode::PageUp), Some(b"\x1b[5~".to_vec()));
    assert_eq!(plain(KeyCode::PageDown), Some(b"\x1b[6~".to_vec()));
}

#[test]
fn ctrl_with_a_non_ascii_character_sends_its_utf8_bytes() {
    assert_eq!(ctrl('я'), Some(vec![0xD1, 0x8F]));
    assert_eq!(ctrl('€'), Some(vec![0xE2, 0x82, 0xAC]));
    assert_eq!(ctrl('Ł'), Some("Ł".as_bytes().to_vec()));
}
