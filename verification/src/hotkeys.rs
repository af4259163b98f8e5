use vstd::prelude::*;
use crate::text::{ascii_lower, chars_of, chars_eq, eq_ignore_ascii_case, eq_ignore_case, join, join_chars, lowercase, push_str, same_text, ascii_upper, to_ascii_upper, to_lowercase};

verus! {

/// A keyboard shortcut: the action it triggers, a human description, and the
/// key combination (such as `Ctrl+R`).
#[derive(Clone, Debug)]
pub struct HotKey {
    pub id: String,
    pub description: String,
    pub keys: String,
}

/// A hotkey as plain text: (id, description, keys).
pub type HotKeyText = (Seq<char>, Seq<char>, Seq<char>);

impl View for HotKey {
    type V = HotKeyText;

    open spec fn view(&self) -> HotKeyText {
        (self.id@, self.description@, self.keys@)
    }
}

impl HotKey {
    /// A copy of this hotkey.
    pub fn duplicate(&self) -> (r: HotKey)
        ensures
            r@ == self@,
    {
        HotKey { id: self.id.clone(), description: self.description.clone(), keys: self.keys.clone() }
    }
}

impl PartialEq for HotKey {
    fn eq(&self, other: &Self) -> (r: bool) {
        self.id == other.id && self.description == other.description && self.keys == other.keys
    }
}

impl vstd::std_specs::cmp::PartialEqSpecImpl for HotKey {
    open spec fn obeys_eq_spec() -> bool {
        true
    }

    open spec fn eq_spec(&self, other: &Self) -> bool {
        self@ == other@
    }
}

/// The view of every hotkey in a list.
pub open spec fn texts(s: Seq<HotKey>) -> Seq<HotKeyText> {
    s.map_values(|h: HotKey| h@)
}

/// The shipped shortcuts, in the order the settings page lists them.
pub open spec fn default_table() -> Seq<HotKeyText> {
    seq![
        ("refresh"@, "Refresh active panel"@, "Ctrl+R"@),
        ("move_left"@, "Move active panel left"@, "Ctrl+Left"@),
        ("move_right"@, "Move active panel right"@, "Ctrl+Right"@),
        ("select_left"@, "Select left panel"@, "Alt+F1"@),
        ("select_right"@, "Select right panel"@, "Alt+F2"@),
        ("go_root_win"@, "Go to root disk (Windows)"@, "Ctrl+\\"@),
        ("go_root_unix"@, "Go to root disk (Unix)"@, "Ctrl+/"@),
        ("find_files"@, "Search files recursively"@, "Ctrl+S"@),
        ("filter_files"@, "Quick filter files in directory"@, "Ctrl+F"@),
        ("manage_connections"@, "Manage FTP/SFTP/WebDAV connections"@, "Ctrl+N"@),
        ("toggle_video_fullscreen"@, "Toggle video fullscreen"@, "Alt+Return"@),
        ("expand_terminal"@, "Expand/collapse active terminal"@, "Alt+Return"@),
        ("editor_save"@, "Save file in editor"@, "Ctrl+S"@),
        ("clip_cut"@, "Cut selected files"@, "Ctrl+X"@),
        ("clip_copy"@, "Copy selected files"@, "Ctrl+C"@),
        ("clip_paste"@, "Paste files into active panel"@, "Ctrl+V"@),
    ]
}

fn hk(id: &str, description: &str, keys: &str) -> (r: HotKey)
    ensures
        r@ == (id@, description@, keys@),
{
    HotKey { id: id.to_owned(), description: description.to_owned(), keys: keys.to_owned() }
}

/// The shortcuts the application ships with.
pub fn get_default_hotkeys() -> (r: Vec<HotKey>)
    ensures
        texts(r@) == default_table(),
{
    let mut v: Vec<HotKey> = Vec::new();
    v.push(hk("refresh", "Refresh active panel", "Ctrl+R"));
    v.push(hk("move_left", "Move active panel left", "Ctrl+Left"));
    v.push(hk("move_right", "Move active panel right", "Ctrl+Right"));
    v.push(hk("select_left", "Select left panel", "Alt+F1"));
    v.push(hk("select_right", "Select right panel", "Alt+F2"));
    v.push(hk("go_root_win", "Go to root disk (Windows)", "Ctrl+\\"));
    v.push(hk("go_root_unix", "Go to root disk (Unix)", "Ctrl+/"));
    v.push(hk("find_files", "Search files recursively", "Ctrl+S"));
    v.push(hk("filter_files", "Quick filter files in directory", "Ctrl+F"));
    v.push(hk("manage_connections", "Manage FTP/SFTP/WebDAV connections", "Ctrl+N"));
    v.push(hk("toggle_video_fullscreen", "Toggle video fullscreen", "Alt+Return"));
    v.push(hk("expand_terminal", "Expand/collapse active terminal", "Alt+Return"));
    v.push(hk("editor_save", "Save file in editor", "Ctrl+S"));
    v.push(hk("clip_cut", "Cut selected files", "Ctrl+X"));
    v.push(hk("clip_copy", "Copy selected files", "Ctrl+C"));
    v.push(hk("clip_paste", "Paste files into active panel", "Ctrl+V"));
    assert(texts(v@) =~= default_table());
    v
}


/// Member of the first pair of actions that share a combination by design.
pub open spec fn in_video_pair(a: Seq<char>) -> bool {
    a == "toggle_video_fullscreen"@ || a == "expand_terminal"@
}

/// Member of the second pair of actions that share a combination by design.
pub open spec fn in_save_pair(a: Seq<char>) -> bool {
    a == "find_files"@ || a == "editor_save"@
}

/// Two actions that may hold the same combination because they never
/// compete for it: full-screen video and the expanded terminal, and search
/// and save in the editor.
pub open spec fn share_combo(a: Seq<char>, b: Seq<char>) -> bool {
    (in_video_pair(a) && in_video_pair(b)) || (in_save_pair(a) && in_save_pair(b))
}

/// Only two fixed pairs of actions may hold the same combination:
/// `toggle_video_fullscreen` with `expand_terminal`, and `find_files` with
/// `editor_save`. A hotkey of any other action stands in the way of binding
/// its combination (ignoring ASCII case) to a different action, so
/// `conflict_in` reports it.
pub proof fn law_only_design_pairs_share(h: HotKeyText, id: Seq<char>, keys: Seq<char>)
    ensures
        clashes(h, id, keys) <==> {
            &&& h.0 != id
            &&& eq_ignore_ascii_case(h.2, keys)
            &&& !((h.0 == "toggle_video_fullscreen"@ || h.0 == "expand_terminal"@) && (id
                == "toggle_video_fullscreen"@ || id == "expand_terminal"@))
            &&& !((h.0 == "find_files"@ || h.0 == "editor_save"@) && (id == "find_files"@ || id
                == "editor_save"@))
        },
{
}

/// Whether actions `a` and `b` may share a key combination.
pub fn shares_combo_by_design(a: &str, b: &str) -> (r: bool)
    ensures
        r == share_combo(a@, b@),
{
    let va = same_text(a, "toggle_video_fullscreen") || same_text(a, "expand_terminal");
    let vb = same_text(b, "toggle_video_fullscreen") || same_text(b, "expand_terminal");
    let sa = same_text(a, "find_files") || same_text(a, "editor_save");
    let sb = same_text(b, "find_files") || same_text(b, "editor_save");
    (va && vb) || (sa && sb)
}

/// Hotkey `h` stands in the way of binding `keys` to action `id`.
pub open spec fn clashes(h: HotKeyText, id: Seq<char>, keys: Seq<char>) -> bool {
    h.0 != id && !share_combo(h.0, id) && eq_ignore_ascii_case(h.2, keys)
}

/// The action already bound to `keys`, if binding it to `id` would clash.
pub fn conflict_in(hotkeys: &[HotKey], id: &str, keys: &str) -> (r: Option<String>)
    ensures
        match r {
            None => forall|i: int| 0 <= i < hotkeys@.len() ==> !clashes(#[trigger] hotkeys@[i]@, id@, keys@),
            Some(x) => exists|i: int|
                0 <= i < hotkeys@.len() && clashes(hotkeys@[i]@, id@, keys@) && x@ == hotkeys@[i].id@
                    && forall|j: int| 0 <= j < i ==> !clashes(#[trigger] hotkeys@[j]@, id@, keys@),
        },
{
    let kc = chars_of(keys);
    let mut i: usize = 0;
    while i < hotkeys.len()
        invariant
            0 <= i <= hotkeys@.len(),
            kc@ == keys@,
            forall|j: int| 0 <= j < i ==> !clashes(#[trigger] hotkeys@[j]@, id@, keys@),
        decreases hotkeys.len() - i,
    {
        let h = &hotkeys[i];
        let hk_keys = chars_of(h.keys.as_str());
        if !same_text(h.id.as_str(), id) && !shares_combo_by_design(h.id.as_str(), id)
            && eq_ignore_case(&hk_keys, &kc) {
            return Some(h.id.clone());
        }
        i = i + 1;
    }
    None
}

/// Whether some hotkey of `s` has the given id.
pub open spec fn has_id(s: Seq<HotKeyText>, id: Seq<char>) -> bool {
    exists|i: int| 0 <= i < s.len() && (#[trigger] s[i]).0 == id
}

/// The stored list after loading: every shipped action that is missing is
/// appended with its default binding, and every action that is no longer
/// shipped is dropped; the rest keeps its stored binding and order.
pub open spec fn merged(s: Seq<HotKeyText>) -> Seq<HotKeyText> {
    (s + default_table().filter(missing_from(s))).filter(shipped())
}

/// Hotkeys whose action `s` has no binding for.
pub open spec fn missing_from(s: Seq<HotKeyText>) -> spec_fn(HotKeyText) -> bool {
    |x: HotKeyText| !has_id(s, x.0)
}

/// Hotkeys of an action the application ships.
pub open spec fn shipped() -> spec_fn(HotKeyText) -> bool {
    |h: HotKeyText| has_id(default_table(), h.0)
}

/// Whether the list that was loaded has to be written back.
pub open spec fn must_save(stored: Option<Seq<HotKeyText>>) -> bool {
    match stored {
        None => true,
        Some(s) => (exists|i: int| 0 <= i < default_table().len() && !has_id(s, #[trigger] default_table()[i].0))
            || (exists|i: int| 0 <= i < s.len() && !has_id(default_table(), #[trigger] s[i].0)),
    }
}

/// The shipped actions all have distinct ids.
pub proof fn lemma_default_ids_distinct()
    ensures
        forall|i: int, j: int|
            0 <= i < j < default_table().len() ==> (#[trigger] default_table()[i]).0 != (
            #[trigger] default_table()[j]).0,
{
    reveal_strlit("refresh");
    reveal_strlit("move_left");
    reveal_strlit("move_right");
    reveal_strlit("select_left");
    reveal_strlit("select_right");
    reveal_strlit("go_root_win");
    reveal_strlit("go_root_unix");
    reveal_strlit("find_files");
    reveal_strlit("filter_files");
    reveal_strlit("manage_connections");
    reveal_strlit("toggle_video_fullscreen");
    reveal_strlit("expand_terminal");
    reveal_strlit("editor_save");
    reveal_strlit("clip_cut");
    reveal_strlit("clip_copy");
    reveal_strlit("clip_paste");
    let t = default_table();
    assert forall|i: int, j: int| 0 <= i < j < t.len() implies (#[trigger] t[i]).0 != (
    #[trigger] t[j]).0 by {
        if t[i].0.len() == t[j].0.len() {
            assert(t[i].0[0] != t[j].0[0]);
        }
    }
}

/// Whether some hotkey of the list has the given id.
fn contains_id(hs: &Vec<HotKey>, id: &str) -> (r: bool)
    ensures
        r == has_id(texts(hs@), id@),
{
    let mut i: usize = 0;
    while i < hs.len()
        invariant
            0 <= i <= hs.len(),
            forall|j: int| 0 <= j < i ==> hs@[j].id@ != id@,
        decreases hs.len() - i,
    {
        if same_text(hs[i].id.as_str(), id) {
            assert(texts(hs@)[i as int].0 == id@);
            return true;
        }
        i = i + 1;
    }
    assert forall|j: int| 0 <= j < texts(hs@).len() implies (#[trigger] texts(hs@)[j]).0 != id@ by {
        assert(hs@[j].id@ != id@);
    }
    false
}

/// Appends, with its default binding, every shipped action that `hotkeys`
/// lacks; tells whether anything was appended.
fn add_missing_defaults(hotkeys: &mut Vec<HotKey>) -> (missing: bool)
    ensures
        texts(final(hotkeys)@) == texts(old(hotkeys)@) + default_table().filter(
            missing_from(texts(old(hotkeys)@)),
        ),
        missing == exists|k: int|
            0 <= k < default_table().len() && !has_id(texts(old(hotkeys)@), #[trigger] default_table()[k].0),
{
    let defaults = get_default_hotkeys();
    proof {
        lemma_default_ids_distinct();
    }
    let ghost s0 = texts(hotkeys@);
    let ghost d = default_table();
    let mut missing = false;
    let mut i: usize = 0;
    while i < defaults.len()
        invariant
            0 <= i <= defaults.len() == d.len(),
            texts(defaults@) == d,
            d == default_table(),
            s0 == texts(old(hotkeys)@),
            forall|a: int, b: int| 0 <= a < b < d.len() ==> (#[trigger] d[a]).0 != (#[trigger] d[b]).0,
            texts(hotkeys@) == s0 + d.take(i as int).filter(missing_from(s0)),
            missing == exists|k: int| 0 <= k < i && !has_id(s0, #[trigger] d[k].0),
        decreases defaults.len() - i,
    {
        let ghost before = texts(hotkeys@);
        let ghost added = d.take(i as int).filter(missing_from(s0));
        let present = contains_id(&hotkeys, defaults[i].id.as_str());
        proof {
            let x = d[i as int];
            assert forall|k: int| 0 <= k < added.len() implies (#[trigger] added[k]).0 != x.0 by {
                assert(added.contains(added[k]));
                d.take(i as int).lemma_filter_contains_rev(missing_from(s0), added[k]);
                let m = choose|m: int| 0 <= m < d.take(i as int).len() && d.take(i as int)[m] == added[k];
                assert(d[m] == added[k]);
            }
            assert(present == has_id(s0, x.0)) by {
                if present {
                    let p = choose|p: int| 0 <= p < before.len() && (#[trigger] before[p]).0 == x.0;
                    if p >= s0.len() {
                        assert(before[p] == added[p - s0.len()]);
                    } else {
                        assert(s0[p] == before[p]);
                    }
                }
                if has_id(s0, x.0) {
                    let p = choose|p: int| 0 <= p < s0.len() && (#[trigger] s0[p]).0 == x.0;
                    assert(before[p] == s0[p]);
                }
            }
        }
        if !present {
            let copy = defaults[i].duplicate();
            hotkeys.push(copy);
            missing = true;
            assert(texts(hotkeys@) =~= before.push(d[i as int]));
        } else {
            assert(texts(hotkeys@) =~= before);
        }
        proof {
            let f = missing_from(s0);
            assert(d.take(i as int + 1) =~= d.take(i as int).push(d[i as int]));
            d.take(i as int).lemma_filter_push(d[i as int], f);
            assert(texts(hotkeys@) =~= s0 + d.take(i as int + 1).filter(f));
        }
        i = i + 1;
    }
    proof {
        assert(d.take(d.len() as int) =~= d);
    }
    missing
}

/// Keeps only the hotkeys of shipped actions; tells whether any was dropped.
fn keep_shipped(hotkeys: &Vec<HotKey>) -> (r: (Vec<HotKey>, bool))
    ensures
        texts(r.0@) == texts(hotkeys@).filter(shipped()),
        r.1 == exists|i: int| 0 <= i < hotkeys@.len() && !has_id(default_table(), #[trigger] texts(hotkeys@)[i].0),
{
    let defaults = get_default_hotkeys();
    let ghost d = default_table();
    let ghost a = texts(hotkeys@);
    let mut kept: Vec<HotKey> = Vec::new();
    let mut dropped = false;
    let mut j: usize = 0;
    while j < hotkeys.len()
        invariant
            0 <= j <= hotkeys.len(),
            a == texts(hotkeys@),
            texts(defaults@) == d,
            d == default_table(),
            texts(kept@) == a.take(j as int).filter(shipped()),
            dropped == exists|i: int| 0 <= i < j && !has_id(d, #[trigger] a[i].0),
        decreases hotkeys.len() - j,
    {
        let known = contains_id(&defaults, hotkeys[j].id.as_str());
        let ghost before = texts(kept@);
        if known {
            let copy = hotkeys[j].duplicate();
            kept.push(copy);
            assert(texts(kept@) =~= before.push(a[j as int]));
        } else {
            dropped = true;
        }
        proof {
            let f = shipped();
            assert(a.take(j as int + 1) =~= a.take(j as int).push(a[j as int]));
            a.take(j as int).lemma_filter_push(a[j as int], f);
            assert(texts(kept@) =~= a.take(j as int + 1).filter(f));
        }
        j = j + 1;
    }
    proof {
        assert(a.take(a.len() as int) =~= a);
    }
    (kept, dropped)
}

/// The hotkeys in effect, from what the configuration stored under
/// `ui.hotkeys` (nothing when it stored nothing), and whether the result has
/// to be saved back because it differs from what was stored.
pub fn get_hotkeys(stored: Option<Vec<HotKey>>) -> (r: (Vec<HotKey>, bool))
    ensures
        match stored {
            None => texts(r.0@) == default_table(),
            Some(s) => texts(r.0@) == merged(texts(s@)),
        },
        r.1 == must_save(
            match stored {
                None => None,
                Some(s) => Some(texts(s@)),
            },
        ),
{
    match stored {
        None => (get_default_hotkeys(), true),
        Some(v) => {
            let mut hotkeys = v;
            let missing = add_missing_defaults(&mut hotkeys);
            let (kept, dropped) = keep_shipped(&hotkeys);
            proof {
                let s = texts(v@);
                let added = texts(hotkeys@);
                if dropped {
                    let i = choose|i: int| 0 <= i < hotkeys@.len() && !has_id(default_table(), #[trigger] added[i].0);
                    if i < s.len() {
                        assert(added[i] == s[i]);
                        assert(exists|i: int| 0 <= i < s.len() && !has_id(default_table(), #[trigger] s[i].0));
                    } else {
                        let e = added[i];
                        let f = missing_from(s);
                        let fl = default_table().filter(f);
                        assert(added == s + fl);
                        assert(added.len() == s.len() + fl.len());
                        assert(0 <= i - s.len() < fl.len());
                        assert(added[i] == fl[i - s.len()]);
                        assert(default_table().filter(f)[i - s.len()] == e);
                        assert(default_table().filter(f).contains(e));
                        default_table().lemma_filter_contains_rev(f, e);
                        let m = choose|m: int| 0 <= m < default_table().len() && default_table()[m] == e;
                        assert(has_id(default_table(), e.0));
                    }
                }
                if exists|i: int| 0 <= i < s.len() && !has_id(default_table(), #[trigger] s[i].0) {
                    let i = choose|i: int| 0 <= i < s.len() && !has_id(default_table(), #[trigger] s[i].0);
                    assert(added[i] == s[i]);
                    assert(added.len() == s.len() + default_table().filter(missing_from(s)).len());
                    assert(i < hotkeys@.len());
                    assert(!has_id(default_table(), texts(hotkeys@)[i].0));
                }
            }
            (kept, missing || dropped)
        },
    }
}


/// The modifier keys held, as the window system reports them.
#[derive(Clone, Copy, Debug)]
pub struct KeyState {
    pub control: bool,
    pub alt: bool,
    pub shift: bool,
    pub super_key: bool,
    pub meta: bool,
}


/// A key on a Cyrillic layout is named after the Latin key at the same
/// place, so that shortcuts keep working when the layout changes.
pub open spec fn latin_of(n: Seq<char>) -> Seq<char> {
    if n == "cyrillic_shorti"@ {
        "q"@
    } else if n == "cyrillic_tse"@ {
        "w"@
    } else if n == "cyrillic_u"@ {
        "e"@
    } else if n == "cyrillic_ka"@ {
        "r"@
    } else if n == "cyrillic_ie"@ {
        "t"@
    } else if n == "cyrillic_en"@ {
        "y"@
    } else if n == "cyrillic_ghe"@ {
        "u"@
    } else if n == "cyrillic_sha"@ {
        "i"@
    } else if n == "cyrillic_shcha"@ {
        "o"@
    } else if n == "cyrillic_ze"@ {
        "p"@
    } else if n == "cyrillic_ha"@ {
        "["@
    } else if n == "cyrillic_hardsign"@ {
        "]"@
    } else if n == "cyrillic_ef"@ {
        "a"@
    } else if n == "cyrillic_yeru"@ {
        "s"@
    } else if n == "cyrillic_ve"@ {
        "d"@
    } else if n == "cyrillic_a"@ {
        "f"@
    } else if n == "cyrillic_pe"@ {
        "g"@
    } else if n == "cyrillic_er"@ {
        "h"@
    } else if n == "cyrillic_o"@ {
        "j"@
    } else if n == "cyrillic_el"@ {
        "k"@
    } else if n == "cyrillic_de"@ {
        "l"@
    } else if n == "cyrillic_zhe"@ {
        ";"@
    } else if n == "cyrillic_e"@ {
        "'"@
    } else if n == "cyrillic_ya"@ {
        "z"@
    } else if n == "cyrillic_che"@ {
        "x"@
    } else if n == "cyrillic_es"@ {
        "c"@
    } else if n == "cyrillic_em"@ {
        "v"@
    } else if n == "cyrillic_i"@ {
        "b"@
    } else if n == "cyrillic_te"@ {
        "n"@
    } else if n == "cyrillic_softsign"@ {
        "m"@
    } else if n == "cyrillic_be"@ {
        ","@
    } else if n == "cyrillic_yu"@ {
        "."@
    } else {
        n
    }
}

fn latin_key(n: &str) -> (r: String)
    ensures
        r@ == latin_of(n@),
{
    if same_text(n, "cyrillic_shorti") {
        "q".to_owned()
    } else if same_text(n, "cyrillic_tse") {
        "w".to_owned()
    } else if same_text(n, "cyrillic_u") {
        "e".to_owned()
    } else if same_text(n, "cyrillic_ka") {
        "r".to_owned()
    } else if same_text(n, "cyrillic_ie") {
        "t".to_owned()
    } else if same_text(n, "cyrillic_en") {
        "y".to_owned()
    } else if same_text(n, "cyrillic_ghe") {
        "u".to_owned()
    } else if same_text(n, "cyrillic_sha") {
        "i".to_owned()
    } else if same_text(n, "cyrillic_shcha") {
        "o".to_owned()
    } else if same_text(n, "cyrillic_ze") {
        "p".to_owned()
    } else if same_text(n, "cyrillic_ha") {
        "[".to_owned()
    } else if same_text(n, "cyrillic_hardsign") {
        "]".to_owned()
    } else if same_text(n, "cyrillic_ef") {
        "a".to_owned()
    } else if same_text(n, "cyrillic_yeru") {
        "s".to_owned()
    } else if same_text(n, "cyrillic_ve") {
        "d".to_owned()
    } else if same_text(n, "cyrillic_a") {
        "f".to_owned()
    } else if same_text(n, "cyrillic_pe") {
        "g".to_owned()
    } else if same_text(n, "cyrillic_er") {
        "h".to_owned()
    } else if same_text(n, "cyrillic_o") {
        "j".to_owned()
    } else if same_text(n, "cyrillic_el") {
        "k".to_owned()
    } else if same_text(n, "cyrillic_de") {
        "l".to_owned()
    } else if same_text(n, "cyrillic_zhe") {
        ";".to_owned()
    } else if same_text(n, "cyrillic_e") {
        "'".to_owned()
    } else if same_text(n, "cyrillic_ya") {
        "z".to_owned()
    } else if same_text(n, "cyrillic_che") {
        "x".to_owned()
    } else if same_text(n, "cyrillic_es") {
        "c".to_owned()
    } else if same_text(n, "cyrillic_em") {
        "v".to_owned()
    } else if same_text(n, "cyrillic_i") {
        "b".to_owned()
    } else if same_text(n, "cyrillic_te") {
        "n".to_owned()
    } else if same_text(n, "cyrillic_softsign") {
        "m".to_owned()
    } else if same_text(n, "cyrillic_be") {
        ",".to_owned()
    } else if same_text(n, "cyrillic_yu") {
        ".".to_owned()
    } else {
        n.to_owned()
    }
}

/// Names of the modifier keys themselves, which add nothing to a combination.
/// They are compared with the key's name after lower-casing, so as written
/// (with capitals) they never match: a modifier key pressed alone spells
/// its lower-cased name, such as `shift_l`.
pub open spec fn is_modifier_name(m: Seq<char>) -> bool {
    ||| m == "Control_L"@
    ||| m == "Control_R"@
    ||| m == "Alt_L"@
    ||| m == "Alt_R"@
    ||| m == "Shift_L"@
    ||| m == "Shift_R"@
    ||| m == "Super_L"@
    ||| m == "Super_R"@
    ||| m == "Meta_L"@
    ||| m == "Meta_R"@
}

/// The label that a named key contributes to a combination, if any: the
/// lower-cased name (after mapping Cyrillic letters to the Latin keys at the
/// same place), a single ASCII character upper-cased, `backslash` and
/// `slash` as `\\` and `/`. Other named keys keep their lower-cased name, so
/// the arrow keys spell `left`, `right`, `up` and `down`.
pub open spec fn key_label(name: Seq<char>) -> Option<Seq<char>> {
    let m = latin_of(lowercase(name));
    if is_modifier_name(m) {
        None
    } else if m == "backslash"@ {
        Some("\\"@)
    } else if m == "slash"@ {
        Some("/"@)
    } else if m.len() == 1 && (m[0] as u32) < 0x80 {
        Some(seq![ascii_upper(m[0])])
    } else {
        Some(m)
    }
}

proof fn lemma_single_ascii_label(name: Seq<char>, c: char)
    requires
        latin_of(lowercase(name)) == seq![c],
        (c as u32) < 0x80,
    ensures
        key_label(name) == Some(seq![ascii_upper(c)]),
{
    reveal_strlit("Control_L");
    reveal_strlit("Control_R");
    reveal_strlit("Alt_L");
    reveal_strlit("Alt_R");
    reveal_strlit("Shift_L");
    reveal_strlit("Shift_R");
    reveal_strlit("Super_L");
    reveal_strlit("Super_R");
    reveal_strlit("Meta_L");
    reveal_strlit("Meta_R");
    reveal_strlit("backslash");
    reveal_strlit("slash");
    let m = latin_of(lowercase(name));
    assert(m.len() == 1);
    assert(!is_modifier_name(m));
    assert(m != "backslash"@);
    assert(m != "slash"@);
}

proof fn lemma_latin_cyrillic_shorti()
    ensures
        latin_of("cyrillic_shorti"@) == seq!['q'],
{
    reveal_strlit("cyrillic_shorti");
    reveal_strlit("q");
    assert("q"@ =~= seq!['q']);
}

proof fn lemma_latin_cyrillic_tse()
    ensures
        latin_of("cyrillic_tse"@) == seq!['w'],
{
    reveal_strlit("cyrillic_tse");
    reveal_strlit("w");
    reveal_strlit("cyrillic_shorti");
    assert("cyrillic_tse"@.len() != "cyrillic_shorti"@.len());
    assert("w"@ =~= seq!['w']);
}

proof fn lemma_latin_cyrillic_u()
    ensures
        latin_of("cyrillic_u"@) == seq!['e'],
{
    reveal_strlit("cyrillic_u");
    reveal_strlit("e");
    reveal_strlit("cyrillic_shorti");
    assert("cyrillic_u"@.len() != "cyrillic_shorti"@.len());
    reveal_strlit("cyrillic_tse");
    assert("cyrillic_u"@.len() != "cyrillic_tse"@.len());
    assert("e"@ =~= seq!['e']);
}

proof fn lemma_latin_cyrillic_ka()
    ensures
        latin_of("cyrillic_ka"@) == seq!['r'],
{
    reveal_strlit("cyrillic_ka");
    reveal_strlit("r");
    reveal_strlit("cyrillic_shorti");
    assert("cyrillic_ka"@.len() != "cyrillic_shorti"@.len());
    reveal_strlit("cyrillic_tse");
    assert("cyrillic_ka"@.len() != "cyrillic_tse"@.len());
    reveal_strlit("cyrillic_u");
    assert("cyrillic_ka"@.len() != "cyrillic_u"@.len());
    assert("r"@ =~= seq!['r']);
}

proof fn lemma_latin_cyrillic_ie()
    ensures
        latin_of("cyrillic_ie"@) == seq!['t'],
{
    reveal_strlit("cyrillic_ie");
    reveal_strlit("t");
    reveal_strlit("cyrillic_shorti");
    assert("cyrillic_ie"@.len() != "cyrillic_shorti"@.len());
    reveal_strlit("cyrillic_tse");
    assert("cyrillic_ie"@.len() != "cyrillic_tse"@.len());
    reveal_strlit("cyrillic_u");
    assert("cyrillic_ie"@.len() != "cyrillic_u"@.len());
    reveal_strlit("cyrillic_ka");
    assert("cyrillic_ie"@[9] != "cyrillic_ka"@[9]);
    assert("t"@ =~= seq!['t']);
}

proof fn lemma_latin_cyrillic_en()
    ensures
        latin_of("cyrillic_en"@) == seq!['y'],
{
    reveal_strlit("cyrillic_en");
    reveal_strlit("y");
    reveal_strlit("cyrillic_shorti");
    assert("cyrillic_en"@.len() != "cyrillic_shorti"@.len());
    reveal_strlit("cyrillic_tse");
    assert("cyrillic_en"@.len() != "cyrillic_tse"@.len());
    reveal_strlit("cyrillic_u");
    assert("cyrillic_en"@.len() != "cyrillic_u"@.len());
    reveal_strlit("cyrillic_ka");
    assert("cyrillic_en"@[9] != "cyrillic_ka"@[9]);
    reveal_strlit("cyrillic_ie");
    assert("cyrillic_en"@[9] != "cyrillic_ie"@[9]);
    assert("y"@ =~= seq!['y']);
}

proof fn lemma_latin_cyrillic_ghe()
    ensures
        latin_of("cyrillic_ghe"@) == seq!['u'],
{
    reveal_strlit("cyrillic_ghe");
    reveal_strlit("u");
    reveal_strlit("cyrillic_shorti");
    assert("cyrillic_ghe"@.len() != "cyrillic_shorti"@.len());
    reveal_strlit("cyrillic_tse");
    assert("cyrillic_ghe"@[9] != "cyrillic_tse"@[9]);
    reveal_strlit("cyrillic_u");
    assert("cyrillic_ghe"@.len() != "cyrillic_u"@.len());
    reveal_strlit("cyrillic_ka");
    assert("cyrillic_ghe"@.len() != "cyrillic_ka"@.len());
    reveal_strlit("cyrillic_ie");
    assert("cyrillic_ghe"@.len() != "cyrillic_ie"@.len());
    reveal_strlit("cyrillic_en");
    assert("cyrillic_ghe"@.len() != "cyrillic_en"@.len());
    assert("u"@ =~= seq!['u']);
}

proof fn lemma_latin_cyrillic_sha()
    ensures
        latin_of("cyrillic_sha"@) == seq!['i'],
{
    reveal_strlit("cyrillic_sha");
    reveal_strlit("i");
    reveal_strlit("cyrillic_shorti");
    assert("cyrillic_sha"@.len() != "cyrillic_shorti"@.len());
    reveal_strlit("cyrillic_tse");
    assert("cyrillic_sha"@[9] != "cyrillic_tse"@[9]);
    reveal_strlit("cyrillic_u");
    assert("cyrillic_sha"@.len() != "cyrillic_u"@.len());
    reveal_strlit("cyrillic_ka");
    assert("cyrillic_sha"@.len() != "cyrillic_ka"@.len());
    reveal_strlit("cyrillic_ie");
    assert("cyrillic_sha"@.len() != "cyrillic_ie"@.len());
    reveal_strlit("cyrillic_en");
    assert("cyrillic_sha"@.len() != "cyrillic_en"@.len());
    reveal_strlit("cyrillic_ghe");
    assert("cyrillic_sha"@[9] != "cyrillic_ghe"@[9]);
    assert("i"@ =~= seq!['i']);
}

proof fn lemma_latin_cyrillic_shcha()
    ensures
        latin_of("cyrillic_shcha"@) == seq!['o'],
{
    reveal_strlit("cyrillic_shcha");
    reveal_strlit("o");
    reveal_strlit("cyrillic_shorti");
    assert("cyrillic_shcha"@.len() != "cyrillic_shorti"@.len());
    reveal_strlit("cyrillic_tse");
    assert("cyrillic_shcha"@.len() != "cyrillic_tse"@.len());
    reveal_strlit("cyrillic_u");
    assert("cyrillic_shcha"@.len() != "cyrillic_u"@.len());
    reveal_strlit("cyrillic_ka");
    assert("cyrillic_shcha"@.len() != "cyrillic_ka"@.len());
    reveal_strlit("cyrillic_ie");
    assert("cyrillic_shcha"@.len() != "cyrillic_ie"@.len());
    reveal_strlit("cyrillic_en");
    assert("cyrillic_shcha"@.len() != "cyrillic_en"@.len());
    reveal_strlit("cyrillic_ghe");
    assert("cyrillic_shcha"@.len() != "cyrillic_ghe"@.len());
    reveal_strlit("cyrillic_sha");
    assert("cyrillic_shcha"@.len() != "cyrillic_sha"@.len());
    assert("o"@ =~= seq!['o']);
}

proof fn lemma_latin_cyrillic_ze()
    ensures
        latin_of("cyrillic_ze"@) == seq!['p'],
{
    reveal_strlit("cyrillic_ze");
    reveal_strlit("p");
    reveal_strlit("cyrillic_shorti");
    assert("cyrillic_ze"@.len() != "cyrillic_shorti"@.len());
    reveal_strlit("cyrillic_tse");
    assert("cyrillic_ze"@.len() != "cyrillic_tse"@.len());
    reveal_strlit("cyrillic_u");
    assert("cyrillic_ze"@.len() != "cyrillic_u"@.len());
    reveal_strlit("cyrillic_ka");
    assert("cyrillic_ze"@[9] != "cyrillic_ka"@[9]);
    reveal_strlit("cyrillic_ie");
    assert("cyrillic_ze"@[9] != "cyrillic_ie"@[9]);
    reveal_strlit("cyrillic_en");
    assert("cyrillic_ze"@[9] != "cyrillic_en"@[9]);
    reveal_strlit("cyrillic_ghe");
    assert("cyrillic_ze"@.len() != "cyrillic_ghe"@.len());
    reveal_strlit("cyrillic_sha");
    assert("cyrillic_ze"@.len() != "cyrillic_sha"@.len());
    reveal_strlit("cyrillic_shcha");
    assert("cyrillic_ze"@.len() != "cyrillic_shcha"@.len());
    assert("p"@ =~= seq!['p']);
}

proof fn lemma_latin_cyrillic_ha()
    ensures
        latin_of("cyrillic_ha"@) == seq!['['],
{
    reveal_strlit("cyrillic_ha");
    reveal_strlit("[");
    reveal_strlit("cyrillic_shorti");
    assert("cyrillic_ha"@.len() != "cyrillic_shorti"@.len());
    reveal_strlit("cyrillic_tse");
    assert("cyrillic_ha"@.len() != "cyrillic_tse"@.len());
    reveal_strlit("cyrillic_u");
    assert("cyrillic_ha"@.len() != "cyrillic_u"@.len());
    reveal_strlit("cyrillic_ka");
    assert("cyrillic_ha"@[9] != "cyrillic_ka"@[9]);
    reveal_strlit("cyrillic_ie");
    assert("cyrillic_ha"@[9] != "cyrillic_ie"@[9]);
    reveal_strlit("cyrillic_en");
    assert("cyrillic_ha"@[9] != "cyrillic_en"@[9]);
    reveal_strlit("cyrillic_ghe");
    assert("cyrillic_ha"@.len() != "cyrillic_ghe"@.len());
    reveal_strlit("cyrillic_sha");
    assert("cyrillic_ha"@.len() != "cyrillic_sha"@.len());
    reveal_strlit("cyrillic_shcha");
    assert("cyrillic_ha"@.len() != "cyrillic_shcha"@.len());
    reveal_strlit("cyrillic_ze");
    assert("cyrillic_ha"@[9] != "cyrillic_ze"@[9]);
    assert("["@ =~= seq!['[']);
}

proof fn lemma_latin_cyrillic_hardsign()
    ensures
        latin_of("cyrillic_hardsign"@) == seq![']'],
{
    reveal_strlit("cyrillic_hardsign");
    reveal_strlit("]");
    reveal_strlit("cyrillic_shorti");
    assert("cyrillic_hardsign"@.len() != "cyrillic_shorti"@.len());
    reveal_strlit("cyrillic_tse");
    assert("cyrillic_hardsign"@.len() != "cyrillic_tse"@.len());
    reveal_strlit("cyrillic_u");
    assert("cyrillic_hardsign"@.len() != "cyrillic_u"@.len());
    reveal_strlit("cyrillic_ka");
    assert("cyrillic_hardsign"@.len() != "cyrillic_ka"@.len());
    reveal_strlit("cyrillic_ie");
    assert("cyrillic_hardsign"@.len() != "cyrillic_ie"@.len());
    reveal_strlit("cyrillic_en");
    assert("cyrillic_hardsign"@.len() != "cyrillic_en"@.len());
    reveal_strlit("cyrillic_ghe");
    assert("cyrillic_hardsign"@.len() != "cyrillic_ghe"@.len());
    reveal_strlit("cyrillic_sha");
    assert("cyrillic_hardsign"@.len() != "cyrillic_sha"@.len());
    reveal_strlit("cyrillic_shcha");
    assert("cyrillic_hardsign"@.len() != "cyrillic_shcha"@.len());
    reveal_strlit("cyrillic_ze");
    assert("cyrillic_hardsign"@.len() != "cyrillic_ze"@.len());
    reveal_strlit("cyrillic_ha");
    assert("cyrillic_hardsign"@.len() != "cyrillic_ha"@.len());
    assert("]"@ =~= seq![']']);
}

proof fn lemma_latin_cyrillic_ef()
    ensures
        latin_of("cyrillic_ef"@) == seq!['a'],
{
    reveal_strlit("cyrillic_ef");
    reveal_strlit("a");
    reveal_strlit("cyrillic_shorti");
    assert("cyrillic_ef"@.len() != "cyrillic_shorti"@.len());
    reveal_strlit("cyrillic_tse");
    assert("cyrillic_ef"@.len() != "cyrillic_tse"@.len());
    reveal_strlit("cyrillic_u");
    assert("cyrillic_ef"@.len() != "cyrillic_u"@.len());
    reveal_strlit("cyrillic_ka");
    assert("cyrillic_ef"@[9] != "cyrillic_ka"@[9]);
    reveal_strlit("cyrillic_ie");
    assert("cyrillic_ef"@[9] != "cyrillic_ie"@[9]);
    reveal_strlit("cyrillic_en");
    assert("cyrillic_ef"@[10] != "cyrillic_en"@[10]);
    reveal_strlit("cyrillic_ghe");
    assert("cyrillic_ef"@.len() != "cyrillic_ghe"@.len());
    reveal_strlit("cyrillic_sha");
    assert("cyrillic_ef"@.len() != "cyrillic_sha"@.len());
    reveal_strlit("cyrillic_shcha");
    assert("cyrillic_ef"@.len() != "cyrillic_shcha"@.len());
    reveal_strlit("cyrillic_ze");
    assert("cyrillic_ef"@[9] != "cyrillic_ze"@[9]);
    reveal_strlit("cyrillic_ha");
    assert("cyrillic_ef"@[9] != "cyrillic_ha"@[9]);
    reveal_strlit("cyrillic_hardsign");
    assert("cyrillic_ef"@.len() != "cyrillic_hardsign"@.len());
    assert("a"@ =~= seq!['a']);
}

proof fn lemma_latin_cyrillic_yeru()
    ensures
        latin_of("cyrillic_yeru"@) == seq!['s'],
{
    reveal_strlit("cyrillic_yeru");
    reveal_strlit("s");
    reveal_strlit("cyrillic_shorti");
    assert("cyrillic_yeru"@.len() != "cyrillic_shorti"@.len());
    reveal_strlit("cyrillic_tse");
    assert("cyrillic_yeru"@.len() != "cyrillic_tse"@.len());
    reveal_strlit("cyrillic_u");
    assert("cyrillic_yeru"@.len() != "cyrillic_u"@.len());
    reveal_strlit("cyrillic_ka");
    assert("cyrillic_yeru"@.len() != "cyrillic_ka"@.len());
    reveal_strlit("cyrillic_ie");
    assert("cyrillic_yeru"@.len() != "cyrillic_ie"@.len());
    reveal_strlit("cyrillic_en");
    assert("cyrillic_yeru"@.len() != "cyrillic_en"@.len());
    reveal_strlit("cyrillic_ghe");
    assert("cyrillic_yeru"@.len() != "cyrillic_ghe"@.len());
    reveal_strlit("cyrillic_sha");
    assert("cyrillic_yeru"@.len() != "cyrillic_sha"@.len());
    reveal_strlit("cyrillic_shcha");
    assert("cyrillic_yeru"@.len() != "cyrillic_shcha"@.len());
    reveal_strlit("cyrillic_ze");
    assert("cyrillic_yeru"@.len() != "cyrillic_ze"@.len());
    reveal_strlit("cyrillic_ha");
    assert("cyrillic_yeru"@.len() != "cyrillic_ha"@.len());
    reveal_strlit("cyrillic_hardsign");
    assert("cyrillic_yeru"@.len() != "cyrillic_hardsign"@.len());
    reveal_strlit("cyrillic_ef");
    assert("cyrillic_yeru"@.len() != "cyrillic_ef"@.len());
    assert("s"@ =~= seq!['s']);
}

proof fn lemma_latin_cyrillic_ve()
    ensures
        latin_of("cyrillic_ve"@) == seq!['d'],
{
    reveal_strlit("cyrillic_ve");
    reveal_strlit("d");
    reveal_strlit("cyrillic_shorti");
    assert("cyrillic_ve"@.len() != "cyrillic_shorti"@.len());
    reveal_strlit("cyrillic_tse");
    assert("cyrillic_ve"@.len() != "cyrillic_tse"@.len());
    reveal_strlit("cyrillic_u");
    assert("cyrillic_ve"@.len() != "cyrillic_u"@.len());
    reveal_strlit("cyrillic_ka");
    assert("cyrillic_ve"@[9] != "cyrillic_ka"@[9]);
    reveal_strlit("cyrillic_ie");
    assert("cyrillic_ve"@[9] != "cyrillic_ie"@[9]);
    reveal_strlit("cyrillic_en");
    assert("cyrillic_ve"@[9] != "cyrillic_en"@[9]);
    reveal_strlit("cyrillic_ghe");
    assert("cyrillic_ve"@.len() != "cyrillic_ghe"@.len());
    reveal_strlit("cyrillic_sha");
    assert("cyrillic_ve"@.len() != "cyrillic_sha"@.len());
    reveal_strlit("cyrillic_shcha");
    assert("cyrillic_ve"@.len() != "cyrillic_shcha"@.len());
    reveal_strlit("cyrillic_ze");
    assert("cyrillic_ve"@[9] != "cyrillic_ze"@[9]);
    reveal_strlit("cyrillic_ha");
    assert("cyrillic_ve"@[9] != "cyrillic_ha"@[9]);
    reveal_strlit("cyrillic_hardsign");
    assert("cyrillic_ve"@.len() != "cyrillic_hardsign"@.len());
    reveal_strlit("cyrillic_ef");
    assert("cyrillic_ve"@[9] != "cyrillic_ef"@[9]);
    reveal_strlit("cyrillic_yeru");
    assert("cyrillic_ve"@.len() != "cyrillic_yeru"@.len());
    assert("d"@ =~= seq!['d']);
}

proof fn lemma_latin_cyrillic_a()
    ensures
        latin_of("cyrillic_a"@) == seq!['f'],
{
    reveal_strlit("cyrillic_a");
    reveal_strlit("f");
    reveal_strlit("cyrillic_shorti");
    assert("cyrillic_a"@.len() != "cyrillic_shorti"@.len());
    reveal_strlit("cyrillic_tse");
    assert("cyrillic_a"@.len() != "cyrillic_tse"@.len());
    reveal_strlit("cyrillic_u");
    assert("cyrillic_a"@[9] != "cyrillic_u"@[9]);
    reveal_strlit("cyrillic_ka");
    assert("cyrillic_a"@.len() != "cyrillic_ka"@.len());
    reveal_strlit("cyrillic_ie");
    assert("cyrillic_a"@.len() != "cyrillic_ie"@.len());
    reveal_strlit("cyrillic_en");
    assert("cyrillic_a"@.len() != "cyrillic_en"@.len());
    reveal_strlit("cyrillic_ghe");
    assert("cyrillic_a"@.len() != "cyrillic_ghe"@.len());
    reveal_strlit("cyrillic_sha");
    assert("cyrillic_a"@.len() != "cyrillic_sha"@.len());
    reveal_strlit("cyrillic_shcha");
    assert("cyrillic_a"@.len() != "cyrillic_shcha"@.len());
    reveal_strlit("cyrillic_ze");
    assert("cyrillic_a"@.len() != "cyrillic_ze"@.len());
    reveal_strlit("cyrillic_ha");
    assert("cyrillic_a"@.len() != "cyrillic_ha"@.len());
    reveal_strlit("cyrillic_hardsign");
    assert("cyrillic_a"@.len() != "cyrillic_hardsign"@.len());
    reveal_strlit("cyrillic_ef");
    assert("cyrillic_a"@.len() != "cyrillic_ef"@.len());
    reveal_strlit("cyrillic_yeru");
    assert("cyrillic_a"@.len() != "cyrillic_yeru"@.len());
    reveal_strlit("cyrillic_ve");
    assert("cyrillic_a"@.len() != "cyrillic_ve"@.len());
    assert("f"@ =~= seq!['f']);
}

proof fn lemma_latin_cyrillic_pe()
    ensures
        latin_of("cyrillic_pe"@) == seq!['g'],
{
    reveal_strlit("cyrillic_pe");
    reveal_strlit("g");
    reveal_strlit("cyrillic_shorti");
    assert("cyrillic_pe"@.len() != "cyrillic_shorti"@.len());
    reveal_strlit("cyrillic_tse");
    assert("cyrillic_pe"@.len() != "cyrillic_tse"@.len());
    reveal_strlit("cyrillic_u");
    assert("cyrillic_pe"@.len() != "cyrillic_u"@.len());
    reveal_strlit("cyrillic_ka");
    assert("cyrillic_pe"@[9] != "cyrillic_ka"@[9]);
    reveal_strlit("cyrillic_ie");
    assert("cyrillic_pe"@[9] != "cyrillic_ie"@[9]);
    reveal_strlit("cyrillic_en");
    assert("cyrillic_pe"@[9] != "cyrillic_en"@[9]);
    reveal_strlit("cyrillic_ghe");
    assert("cyrillic_pe"@.len() != "cyrillic_ghe"@.len());
    reveal_strlit("cyrillic_sha");
    assert("cyrillic_pe"@.len() != "cyrillic_sha"@.len());
    reveal_strlit("cyrillic_shcha");
    assert("cyrillic_pe"@.len() != "cyrillic_shcha"@.len());
    reveal_strlit("cyrillic_ze");
    assert("cyrillic_pe"@[9] != "cyrillic_ze"@[9]);
    reveal_strlit("cyrillic_ha");
    assert("cyrillic_pe"@[9] != "cyrillic_ha"@[9]);
    reveal_strlit("cyrillic_hardsign");
    assert("cyrillic_pe"@.len() != "cyrillic_hardsign"@.len());
    reveal_strlit("cyrillic_ef");
    assert("cyrillic_pe"@[9] != "cyrillic_ef"@[9]);
    reveal_strlit("cyrillic_yeru");
    assert("cyrillic_pe"@.len() != "cyrillic_yeru"@.len());
    reveal_strlit("cyrillic_ve");
    assert("cyrillic_pe"@[9] != "cyrillic_ve"@[9]);
    reveal_strlit("cyrillic_a");
    assert("cyrillic_pe"@.len() != "cyrillic_a"@.len());
    assert("g"@ =~= seq!['g']);
}

proof fn lemma_latin_cyrillic_er()
    ensures
        latin_of("cyrillic_er"@) == seq!['h'],
{
    reveal_strlit("cyrillic_er");
    reveal_strlit("h");
    reveal_strlit("cyrillic_shorti");
    assert("cyrillic_er"@.len() != "cyrillic_shorti"@.len());
    reveal_strlit("cyrillic_tse");
    assert("cyrillic_er"@.len() != "cyrillic_tse"@.len());
    reveal_strlit("cyrillic_u");
    assert("cyrillic_er"@.len() != "cyrillic_u"@.len());
    reveal_strlit("cyrillic_ka");
    assert("cyrillic_er"@[9] != "cyrillic_ka"@[9]);
    reveal_strlit("cyrillic_ie");
    assert("cyrillic_er"@[9] != "cyrillic_ie"@[9]);
    reveal_strlit("cyrillic_en");
    assert("cyrillic_er"@[10] != "cyrillic_en"@[10]);
    reveal_strlit("cyrillic_ghe");
    assert("cyrillic_er"@.len() != "cyrillic_ghe"@.len());
    reveal_strlit("cyrillic_sha");
    assert("cyrillic_er"@.len() != "cyrillic_sha"@.len());
    reveal_strlit("cyrillic_shcha");
    assert("cyrillic_er"@.len() != "cyrillic_shcha"@.len());
    reveal_strlit("cyrillic_ze");
    assert("cyrillic_er"@[9] != "cyrillic_ze"@[9]);
    reveal_strlit("cyrillic_ha");
    assert("cyrillic_er"@[9] != "cyrillic_ha"@[9]);
    reveal_strlit("cyrillic_hardsign");
    assert("cyrillic_er"@.len() != "cyrillic_hardsign"@.len());
    reveal_strlit("cyrillic_ef");
    assert("cyrillic_er"@[10] != "cyrillic_ef"@[10]);
    reveal_strlit("cyrillic_yeru");
    assert("cyrillic_er"@.len() != "cyrillic_yeru"@.len());
    reveal_strlit("cyrillic_ve");
    assert("cyrillic_er"@[9] != "cyrillic_ve"@[9]);
    reveal_strlit("cyrillic_a");
    assert("cyrillic_er"@.len() != "cyrillic_a"@.len());
    reveal_strlit("cyrillic_pe");
    assert("cyrillic_er"@[9] != "cyrillic_pe"@[9]);
    assert("h"@ =~= seq!['h']);
}

proof fn lemma_latin_cyrillic_o()
    ensures
        latin_of("cyrillic_o"@) == seq!['j'],
{
    reveal_strlit("cyrillic_o");
    reveal_strlit("j");
    reveal_strlit("cyrillic_shorti");
    assert("cyrillic_o"@.len() != "cyrillic_shorti"@.len());
    reveal_strlit("cyrillic_tse");
    assert("cyrillic_o"@.len() != "cyrillic_tse"@.len());
    reveal_strlit("cyrillic_u");
    assert("cyrillic_o"@[9] != "cyrillic_u"@[9]);
    reveal_strlit("cyrillic_ka");
    assert("cyrillic_o"@.len() != "cyrillic_ka"@.len());
    reveal_strlit("cyrillic_ie");
    assert("cyrillic_o"@.len() != "cyrillic_ie"@.len());
    reveal_strlit("cyrillic_en");
    assert("cyrillic_o"@.len() != "cyrillic_en"@.len());
    reveal_strlit("cyrillic_ghe");
    assert("cyrillic_o"@.len() != "cyrillic_ghe"@.len());
    reveal_strlit("cyrillic_sha");
    assert("cyrillic_o"@.len() != "cyrillic_sha"@.len());
    reveal_strlit("cyrillic_shcha");
    assert("cyrillic_o"@.len() != "cyrillic_shcha"@.len());
    reveal_strlit("cyrillic_ze");
    assert("cyrillic_o"@.len() != "cyrillic_ze"@.len());
    reveal_strlit("cyrillic_ha");
    assert("cyrillic_o"@.len() != "cyrillic_ha"@.len());
    reveal_strlit("cyrillic_hardsign");
    assert("cyrillic_o"@.len() != "cyrillic_hardsign"@.len());
    reveal_strlit("cyrillic_ef");
    assert("cyrillic_o"@.len() != "cyrillic_ef"@.len());
    reveal_strlit("cyrillic_yeru");
    assert("cyrillic_o"@.len() != "cyrillic_yeru"@.len());
    reveal_strlit("cyrillic_ve");
    assert("cyrillic_o"@.len() != "cyrillic_ve"@.len());
    reveal_strlit("cyrillic_a");
    assert("cyrillic_o"@[9] != "cyrillic_a"@[9]);
    reveal_strlit("cyrillic_pe");
    assert("cyrillic_o"@.len() != "cyrillic_pe"@.len());
    reveal_strlit("cyrillic_er");
    assert("cyrillic_o"@.len() != "cyrillic_er"@.len());
    assert("j"@ =~= seq!['j']);
}

proof fn lemma_latin_cyrillic_el()
    ensures
        latin_of("cyrillic_el"@) == seq!['k'],
{
    reveal_strlit("cyrillic_el");
    reveal_strlit("k");
    reveal_strlit("cyrillic_shorti");
    assert("cyrillic_el"@.len() != "cyrillic_shorti"@.len());
    reveal_strlit("cyrillic_tse");
    assert("cyrillic_el"@.len() != "cyrillic_tse"@.len());
    reveal_strlit("cyrillic_u");
    assert("cyrillic_el"@.len() != "cyrillic_u"@.len());
    reveal_strlit("cyrillic_ka");
    assert("cyrillic_el"@[9] != "cyrillic_ka"@[9]);
    reveal_strlit("cyrillic_ie");
    assert("cyrillic_el"@[9] != "cyrillic_ie"@[9]);
    reveal_strlit("cyrillic_en");
    assert("cyrillic_el"@[10] != "cyrillic_en"@[10]);
    reveal_strlit("cyrillic_ghe");
    assert("cyrillic_el"@.len() != "cyrillic_ghe"@.len());
    reveal_strlit("cyrillic_sha");
    assert("cyrillic_el"@.len() != "cyrillic_sha"@.len());
    reveal_strlit("cyrillic_shcha");
    assert("cyrillic_el"@.len() != "cyrillic_shcha"@.len());
    reveal_strlit("cyrillic_ze");
    assert("cyrillic_el"@[9] != "cyrillic_ze"@[9]);
    reveal_strlit("cyrillic_ha");
    assert("cyrillic_el"@[9] != "cyrillic_ha"@[9]);
    reveal_strlit("cyrillic_hardsign");
    assert("cyrillic_el"@.len() != "cyrillic_hardsign"@.len());
    reveal_strlit("cyrillic_ef");
    assert("cyrillic_el"@[10] != "cyrillic_ef"@[10]);
    reveal_strlit("cyrillic_yeru");
    assert("cyrillic_el"@.len() != "cyrillic_yeru"@.len());
    reveal_strlit("cyrillic_ve");
    assert("cyrillic_el"@[9] != "cyrillic_ve"@[9]);
    reveal_strlit("cyrillic_a");
    assert("cyrillic_el"@.len() != "cyrillic_a"@.len());
    reveal_strlit("cyrillic_pe");
    assert("cyrillic_el"@[9] != "cyrillic_pe"@[9]);
    reveal_strlit("cyrillic_er");
    assert("cyrillic_el"@[10] != "cyrillic_er"@[10]);
    reveal_strlit("cyrillic_o");
    assert("cyrillic_el"@.len() != "cyrillic_o"@.len());
    assert("k"@ =~= seq!['k']);
}

proof fn lemma_latin_cyrillic_de()
    ensures
        latin_of("cyrillic_de"@) == seq!['l'],
{
    reveal_strlit("cyrillic_de");
    reveal_strlit("l");
    reveal_strlit("cyrillic_shorti");
    assert("cyrillic_de"@.len() != "cyrillic_shorti"@.len());
    reveal_strlit("cyrillic_tse");
    assert("cyrillic_de"@.len() != "cyrillic_tse"@.len());
    reveal_strlit("cyrillic_u");
    assert("cyrillic_de"@.len() != "cyrillic_u"@.len());
    reveal_strlit("cyrillic_ka");
    assert("cyrillic_de"@[9] != "cyrillic_ka"@[9]);
    reveal_strlit("cyrillic_ie");
    assert("cyrillic_de"@[9] != "cyrillic_ie"@[9]);
    reveal_strlit("cyrillic_en");
    assert("cyrillic_de"@[9] != "cyrillic_en"@[9]);
    reveal_strlit("cyrillic_ghe");
    assert("cyrillic_de"@.len() != "cyrillic_ghe"@.len());
    reveal_strlit("cyrillic_sha");
    assert("cyrillic_de"@.len() != "cyrillic_sha"@.len());
    reveal_strlit("cyrillic_shcha");
    assert("cyrillic_de"@.len() != "cyrillic_shcha"@.len());
    reveal_strlit("cyrillic_ze");
    assert("cyrillic_de"@[9] != "cyrillic_ze"@[9]);
    reveal_strlit("cyrillic_ha");
    assert("cyrillic_de"@[9] != "cyrillic_ha"@[9]);
    reveal_strlit("cyrillic_hardsign");
    assert("cyrillic_de"@.len() != "cyrillic_hardsign"@.len());
    reveal_strlit("cyrillic_ef");
    assert("cyrillic_de"@[9] != "cyrillic_ef"@[9]);
    reveal_strlit("cyrillic_yeru");
    assert("cyrillic_de"@.len() != "cyrillic_yeru"@.len());
    reveal_strlit("cyrillic_ve");
    assert("cyrillic_de"@[9] != "cyrillic_ve"@[9]);
    reveal_strlit("cyrillic_a");
    assert("cyrillic_de"@.len() != "cyrillic_a"@.len());
    reveal_strlit("cyrillic_pe");
    assert("cyrillic_de"@[9] != "cyrillic_pe"@[9]);
    reveal_strlit("cyrillic_er");
    assert("cyrillic_de"@[9] != "cyrillic_er"@[9]);
    reveal_strlit("cyrillic_o");
    assert("cyrillic_de"@.len() != "cyrillic_o"@.len());
    reveal_strlit("cyrillic_el");
    assert("cyrillic_de"@[9] != "cyrillic_el"@[9]);
    assert("l"@ =~= seq!['l']);
}

proof fn lemma_latin_cyrillic_zhe()
    ensures
        latin_of("cyrillic_zhe"@) == seq![';'],
{
    reveal_strlit("cyrillic_zhe");
    reveal_strlit(";");
    reveal_strlit("cyrillic_shorti");
    assert("cyrillic_zhe"@.len() != "cyrillic_shorti"@.len());
    reveal_strlit("cyrillic_tse");
    assert("cyrillic_zhe"@[9] != "cyrillic_tse"@[9]);
    reveal_strlit("cyrillic_u");
    assert("cyrillic_zhe"@.len() != "cyrillic_u"@.len());
    reveal_strlit("cyrillic_ka");
    assert("cyrillic_zhe"@.len() != "cyrillic_ka"@.len());
    reveal_strlit("cyrillic_ie");
    assert("cyrillic_zhe"@.len() != "cyrillic_ie"@.len());
    reveal_strlit("cyrillic_en");
    assert("cyrillic_zhe"@.len() != "cyrillic_en"@.len());
    reveal_strlit("cyrillic_ghe");
    assert("cyrillic_zhe"@[9] != "cyrillic_ghe"@[9]);
    reveal_strlit("cyrillic_sha");
    assert("cyrillic_zhe"@[9] != "cyrillic_sha"@[9]);
    reveal_strlit("cyrillic_shcha");
    assert("cyrillic_zhe"@.len() != "cyrillic_shcha"@.len());
    reveal_strlit("cyrillic_ze");
    assert("cyrillic_zhe"@.len() != "cyrillic_ze"@.len());
    reveal_strlit("cyrillic_ha");
    assert("cyrillic_zhe"@.len() != "cyrillic_ha"@.len());
    reveal_strlit("cyrillic_hardsign");
    assert("cyrillic_zhe"@.len() != "cyrillic_hardsign"@.len());
    reveal_strlit("cyrillic_ef");
    assert("cyrillic_zhe"@.len() != "cyrillic_ef"@.len());
    reveal_strlit("cyrillic_yeru");
    assert("cyrillic_zhe"@.len() != "cyrillic_yeru"@.len());
    reveal_strlit("cyrillic_ve");
    assert("cyrillic_zhe"@.len() != "cyrillic_ve"@.len());
    reveal_strlit("cyrillic_a");
    assert("cyrillic_zhe"@.len() != "cyrillic_a"@.len());
    reveal_strlit("cyrillic_pe");
    assert("cyrillic_zhe"@.len() != "cyrillic_pe"@.len());
    reveal_strlit("cyrillic_er");
    assert("cyrillic_zhe"@.len() != "cyrillic_er"@.len());
    reveal_strlit("cyrillic_o");
    assert("cyrillic_zhe"@.len() != "cyrillic_o"@.len());
    reveal_strlit("cyrillic_el");
    assert("cyrillic_zhe"@.len() != "cyrillic_el"@.len());
    reveal_strlit("cyrillic_de");
    assert("cyrillic_zhe"@.len() != "cyrillic_de"@.len());
    assert(";"@ =~= seq![';']);
}

proof fn lemma_latin_cyrillic_e()
    ensures
        latin_of("cyrillic_e"@) == seq!['\''],
{
    reveal_strlit("cyrillic_e");
    reveal_strlit("'");
    reveal_strlit("cyrillic_shorti");
    assert("cyrillic_e"@.len() != "cyrillic_shorti"@.len());
    reveal_strlit("cyrillic_tse");
    assert("cyrillic_e"@.len() != "cyrillic_tse"@.len());
    reveal_strlit("cyrillic_u");
    assert("cyrillic_e"@[9] != "cyrillic_u"@[9]);
    reveal_strlit("cyrillic_ka");
    assert("cyrillic_e"@.len() != "cyrillic_ka"@.len());
    reveal_strlit("cyrillic_ie");
    assert("cyrillic_e"@.len() != "cyrillic_ie"@.len());
    reveal_strlit("cyrillic_en");
    assert("cyrillic_e"@.len() != "cyrillic_en"@.len());
    reveal_strlit("cyrillic_ghe");
    assert("cyrillic_e"@.len() != "cyrillic_ghe"@.len());
    reveal_strlit("cyrillic_sha");
    assert("cyrillic_e"@.len() != "cyrillic_sha"@.len());
    reveal_strlit("cyrillic_shcha");
    assert("cyrillic_e"@.len() != "cyrillic_shcha"@.len());
    reveal_strlit("cyrillic_ze");
    assert("cyrillic_e"@.len() != "cyrillic_ze"@.len());
    reveal_strlit("cyrillic_ha");
    assert("cyrillic_e"@.len() != "cyrillic_ha"@.len());
    reveal_strlit("cyrillic_hardsign");
    assert("cyrillic_e"@.len() != "cyrillic_hardsign"@.len());
    reveal_strlit("cyrillic_ef");
    assert("cyrillic_e"@.len() != "cyrillic_ef"@.len());
    reveal_strlit("cyrillic_yeru");
    assert("cyrillic_e"@.len() != "cyrillic_yeru"@.len());
    reveal_strlit("cyrillic_ve");
    assert("cyrillic_e"@.len() != "cyrillic_ve"@.len());
    reveal_strlit("cyrillic_a");
    assert("cyrillic_e"@[9] != "cyrillic_a"@[9]);
    reveal_strlit("cyrillic_pe");
    assert("cyrillic_e"@.len() != "cyrillic_pe"@.len());
    reveal_strlit("cyrillic_er");
    assert("cyrillic_e"@.len() != "cyrillic_er"@.len());
    reveal_strlit("cyrillic_o");
    assert("cyrillic_e"@[9] != "cyrillic_o"@[9]);
    reveal_strlit("cyrillic_el");
    assert("cyrillic_e"@.len() != "cyrillic_el"@.len());
    reveal_strlit("cyrillic_de");
    assert("cyrillic_e"@.len() != "cyrillic_de"@.len());
    reveal_strlit("cyrillic_zhe");
    assert("cyrillic_e"@.len() != "cyrillic_zhe"@.len());
    assert("'"@ =~= seq!['\'']);
}

proof fn lemma_latin_cyrillic_ya()
    ensures
        latin_of("cyrillic_ya"@) == seq!['z'],
{
    reveal_strlit("cyrillic_ya");
    reveal_strlit("z");
    reveal_strlit("cyrillic_shorti");
    assert("cyrillic_ya"@.len() != "cyrillic_shorti"@.len());
    reveal_strlit("cyrillic_tse");
    assert("cyrillic_ya"@.len() != "cyrillic_tse"@.len());
    reveal_strlit("cyrillic_u");
    assert("cyrillic_ya"@.len() != "cyrillic_u"@.len());
    reveal_strlit("cyrillic_ka");
    assert("cyrillic_ya"@[9] != "cyrillic_ka"@[9]);
    reveal_strlit("cyrillic_ie");
    assert("cyrillic_ya"@[9] != "cyrillic_ie"@[9]);
    reveal_strlit("cyrillic_en");
    assert("cyrillic_ya"@[9] != "cyrillic_en"@[9]);
    reveal_strlit("cyrillic_ghe");
    assert("cyrillic_ya"@.len() != "cyrillic_ghe"@.len());
    reveal_strlit("cyrillic_sha");
    assert("cyrillic_ya"@.len() != "cyrillic_sha"@.len());
    reveal_strlit("cyrillic_shcha");
    assert("cyrillic_ya"@.len() != "cyrillic_shcha"@.len());
    reveal_strlit("cyrillic_ze");
    assert("cyrillic_ya"@[9] != "cyrillic_ze"@[9]);
    reveal_strlit("cyrillic_ha");
    assert("cyrillic_ya"@[9] != "cyrillic_ha"@[9]);
    reveal_strlit("cyrillic_hardsign");
    assert("cyrillic_ya"@.len() != "cyrillic_hardsign"@.len());
    reveal_strlit("cyrillic_ef");
    assert("cyrillic_ya"@[9] != "cyrillic_ef"@[9]);
    reveal_strlit("cyrillic_yeru");
    assert("cyrillic_ya"@.len() != "cyrillic_yeru"@.len());
    reveal_strlit("cyrillic_ve");
    assert("cyrillic_ya"@[9] != "cyrillic_ve"@[9]);
    reveal_strlit("cyrillic_a");
    assert("cyrillic_ya"@.len() != "cyrillic_a"@.len());
    reveal_strlit("cyrillic_pe");
    assert("cyrillic_ya"@[9] != "cyrillic_pe"@[9]);
    reveal_strlit("cyrillic_er");
    assert("cyrillic_ya"@[9] != "cyrillic_er"@[9]);
    reveal_strlit("cyrillic_o");
    assert("cyrillic_ya"@.len() != "cyrillic_o"@.len());
    reveal_strlit("cyrillic_el");
    assert("cyrillic_ya"@[9] != "cyrillic_el"@[9]);
    reveal_strlit("cyrillic_de");
    assert("cyrillic_ya"@[9] != "cyrillic_de"@[9]);
    reveal_strlit("cyrillic_zhe");
    assert("cyrillic_ya"@.len() != "cyrillic_zhe"@.len());
    reveal_strlit("cyrillic_e");
    assert("cyrillic_ya"@.len() != "cyrillic_e"@.len());
    assert("z"@ =~= seq!['z']);
}

proof fn lemma_latin_cyrillic_che()
    ensures
        latin_of("cyrillic_che"@) == seq!['x'],
{
    reveal_strlit("cyrillic_che");
    reveal_strlit("x");
    reveal_strlit("cyrillic_shorti");
    assert("cyrillic_che"@.len() != "cyrillic_shorti"@.len());
    reveal_strlit("cyrillic_tse");
    assert("cyrillic_che"@[9] != "cyrillic_tse"@[9]);
    reveal_strlit("cyrillic_u");
    assert("cyrillic_che"@.len() != "cyrillic_u"@.len());
    reveal_strlit("cyrillic_ka");
    assert("cyrillic_che"@.len() != "cyrillic_ka"@.len());
    reveal_strlit("cyrillic_ie");
    assert("cyrillic_che"@.len() != "cyrillic_ie"@.len());
    reveal_strlit("cyrillic_en");
    assert("cyrillic_che"@.len() != "cyrillic_en"@.len());
    reveal_strlit("cyrillic_ghe");
    assert("cyrillic_che"@[9] != "cyrillic_ghe"@[9]);
    reveal_strlit("cyrillic_sha");
    assert("cyrillic_che"@[9] != "cyrillic_sha"@[9]);
    reveal_strlit("cyrillic_shcha");
    assert("cyrillic_che"@.len() != "cyrillic_shcha"@.len());
    reveal_strlit("cyrillic_ze");
    assert("cyrillic_che"@.len() != "cyrillic_ze"@.len());
    reveal_strlit("cyrillic_ha");
    assert("cyrillic_che"@.len() != "cyrillic_ha"@.len());
    reveal_strlit("cyrillic_hardsign");
    assert("cyrillic_che"@.len() != "cyrillic_hardsign"@.len());
    reveal_strlit("cyrillic_ef");
    assert("cyrillic_che"@.len() != "cyrillic_ef"@.len());
    reveal_strlit("cyrillic_yeru");
    assert("cyrillic_che"@.len() != "cyrillic_yeru"@.len());
    reveal_strlit("cyrillic_ve");
    assert("cyrillic_che"@.len() != "cyrillic_ve"@.len());
    reveal_strlit("cyrillic_a");
    assert("cyrillic_che"@.len() != "cyrillic_a"@.len());
    reveal_strlit("cyrillic_pe");
    assert("cyrillic_che"@.len() != "cyrillic_pe"@.len());
    reveal_strlit("cyrillic_er");
    assert("cyrillic_che"@.len() != "cyrillic_er"@.len());
    reveal_strlit("cyrillic_o");
    assert("cyrillic_che"@.len() != "cyrillic_o"@.len());
    reveal_strlit("cyrillic_el");
    assert("cyrillic_che"@.len() != "cyrillic_el"@.len());
    reveal_strlit("cyrillic_de");
    assert("cyrillic_che"@.len() != "cyrillic_de"@.len());
    reveal_strlit("cyrillic_zhe");
    assert("cyrillic_che"@[9] != "cyrillic_zhe"@[9]);
    reveal_strlit("cyrillic_e");
    assert("cyrillic_che"@.len() != "cyrillic_e"@.len());
    reveal_strlit("cyrillic_ya");
    assert("cyrillic_che"@.len() != "cyrillic_ya"@.len());
    assert("x"@ =~= seq!['x']);
}

proof fn lemma_latin_cyrillic_es()
    ensures
        latin_of("cyrillic_es"@) == seq!['c'],
{
    reveal_strlit("cyrillic_es");
    reveal_strlit("c");
    reveal_strlit("cyrillic_shorti");
    assert("cyrillic_es"@.len() != "cyrillic_shorti"@.len());
    reveal_strlit("cyrillic_tse");
    assert("cyrillic_es"@.len() != "cyrillic_tse"@.len());
    reveal_strlit("cyrillic_u");
    assert("cyrillic_es"@.len() != "cyrillic_u"@.len());
    reveal_strlit("cyrillic_ka");
    assert("cyrillic_es"@[9] != "cyrillic_ka"@[9]);
    reveal_strlit("cyrillic_ie");
    assert("cyrillic_es"@[9] != "cyrillic_ie"@[9]);
    reveal_strlit("cyrillic_en");
    assert("cyrillic_es"@[10] != "cyrillic_en"@[10]);
    reveal_strlit("cyrillic_ghe");
    assert("cyrillic_es"@.len() != "cyrillic_ghe"@.len());
    reveal_strlit("cyrillic_sha");
    assert("cyrillic_es"@.len() != "cyrillic_sha"@.len());
    reveal_strlit("cyrillic_shcha");
    assert("cyrillic_es"@.len() != "cyrillic_shcha"@.len());
    reveal_strlit("cyrillic_ze");
    assert("cyrillic_es"@[9] != "cyrillic_ze"@[9]);
    reveal_strlit("cyrillic_ha");
    assert("cyrillic_es"@[9] != "cyrillic_ha"@[9]);
    reveal_strlit("cyrillic_hardsign");
    assert("cyrillic_es"@.len() != "cyrillic_hardsign"@.len());
    reveal_strlit("cyrillic_ef");
    assert("cyrillic_es"@[10] != "cyrillic_ef"@[10]);
    reveal_strlit("cyrillic_yeru");
    assert("cyrillic_es"@.len() != "cyrillic_yeru"@.len());
    reveal_strlit("cyrillic_ve");
    assert("cyrillic_es"@[9] != "cyrillic_ve"@[9]);
    reveal_strlit("cyrillic_a");
    assert("cyrillic_es"@.len() != "cyrillic_a"@.len());
    reveal_strlit("cyrillic_pe");
    assert("cyrillic_es"@[9] != "cyrillic_pe"@[9]);
    reveal_strlit("cyrillic_er");
    assert("cyrillic_es"@[10] != "cyrillic_er"@[10]);
    reveal_strlit("cyrillic_o");
    assert("cyrillic_es"@.len() != "cyrillic_o"@.len());
    reveal_strlit("cyrillic_el");
    assert("cyrillic_es"@[10] != "cyrillic_el"@[10]);
    reveal_strlit("cyrillic_de");
    assert("cyrillic_es"@[9] != "cyrillic_de"@[9]);
    reveal_strlit("cyrillic_zhe");
    assert("cyrillic_es"@.len() != "cyrillic_zhe"@.len());
    reveal_strlit("cyrillic_e");
    assert("cyrillic_es"@.len() != "cyrillic_e"@.len());
    reveal_strlit("cyrillic_ya");
    assert("cyrillic_es"@[9] != "cyrillic_ya"@[9]);
    reveal_strlit("cyrillic_che");
    assert("cyrillic_es"@.len() != "cyrillic_che"@.len());
    assert("c"@ =~= seq!['c']);
}

proof fn lemma_latin_cyrillic_em()
    ensures
        latin_of("cyrillic_em"@) == seq!['v'],
{
    reveal_strlit("cyrillic_em");
    reveal_strlit("v");
    reveal_strlit("cyrillic_shorti");
    assert("cyrillic_em"@.len() != "cyrillic_shorti"@.len());
    reveal_strlit("cyrillic_tse");
    assert("cyrillic_em"@.len() != "cyrillic_tse"@.len());
    reveal_strlit("cyrillic_u");
    assert("cyrillic_em"@.len() != "cyrillic_u"@.len());
    reveal_strlit("cyrillic_ka");
    assert("cyrillic_em"@[9] != "cyrillic_ka"@[9]);
    reveal_strlit("cyrillic_ie");
    assert("cyrillic_em"@[9] != "cyrillic_ie"@[9]);
    reveal_strlit("cyrillic_en");
    assert("cyrillic_em"@[10] != "cyrillic_en"@[10]);
    reveal_strlit("cyrillic_ghe");
    assert("cyrillic_em"@.len() != "cyrillic_ghe"@.len());
    reveal_strlit("cyrillic_sha");
    assert("cyrillic_em"@.len() != "cyrillic_sha"@.len());
    reveal_strlit("cyrillic_shcha");
    assert("cyrillic_em"@.len() != "cyrillic_shcha"@.len());
    reveal_strlit("cyrillic_ze");
    assert("cyrillic_em"@[9] != "cyrillic_ze"@[9]);
    reveal_strlit("cyrillic_ha");
    assert("cyrillic_em"@[9] != "cyrillic_ha"@[9]);
    reveal_strlit("cyrillic_hardsign");
    assert("cyrillic_em"@.len() != "cyrillic_hardsign"@.len());
    reveal_strlit("cyrillic_ef");
    assert("cyrillic_em"@[10] != "cyrillic_ef"@[10]);
    reveal_strlit("cyrillic_yeru");
    assert("cyrillic_em"@.len() != "cyrillic_yeru"@.len());
    reveal_strlit("cyrillic_ve");
    assert("cyrillic_em"@[9] != "cyrillic_ve"@[9]);
    reveal_strlit("cyrillic_a");
    assert("cyrillic_em"@.len() != "cyrillic_a"@.len());
    reveal_strlit("cyrillic_pe");
    assert("cyrillic_em"@[9] != "cyrillic_pe"@[9]);
    reveal_strlit("cyrillic_er");
    assert("cyrillic_em"@[10] != "cyrillic_er"@[10]);
    reveal_strlit("cyrillic_o");
    assert("cyrillic_em"@.len() != "cyrillic_o"@.len());
    reveal_strlit("cyrillic_el");
    assert("cyrillic_em"@[10] != "cyrillic_el"@[10]);
    reveal_strlit("cyrillic_de");
    assert("cyrillic_em"@[9] != "cyrillic_de"@[9]);
    reveal_strlit("cyrillic_zhe");
    assert("cyrillic_em"@.len() != "cyrillic_zhe"@.len());
    reveal_strlit("cyrillic_e");
    assert("cyrillic_em"@.len() != "cyrillic_e"@.len());
    reveal_strlit("cyrillic_ya");
    assert("cyrillic_em"@[9] != "cyrillic_ya"@[9]);
    reveal_strlit("cyrillic_che");
    assert("cyrillic_em"@.len() != "cyrillic_che"@.len());
    reveal_strlit("cyrillic_es");
    assert("cyrillic_em"@[10] != "cyrillic_es"@[10]);
    assert("v"@ =~= seq!['v']);
}

proof fn lemma_latin_cyrillic_i()
    ensures
        latin_of("cyrillic_i"@) == seq!['b'],
{
    reveal_strlit("cyrillic_i");
    reveal_strlit("b");
    reveal_strlit("cyrillic_shorti");
    assert("cyrillic_i"@.len() != "cyrillic_shorti"@.len());
    reveal_strlit("cyrillic_tse");
    assert("cyrillic_i"@.len() != "cyrillic_tse"@.len());
    reveal_strlit("cyrillic_u");
    assert("cyrillic_i"@[9] != "cyrillic_u"@[9]);
    reveal_strlit("cyrillic_ka");
    assert("cyrillic_i"@.len() != "cyrillic_ka"@.len());
    reveal_strlit("cyrillic_ie");
    assert("cyrillic_i"@.len() != "cyrillic_ie"@.len());
    reveal_strlit("cyrillic_en");
    assert("cyrillic_i"@.len() != "cyrillic_en"@.len());
    reveal_strlit("cyrillic_ghe");
    assert("cyrillic_i"@.len() != "cyrillic_ghe"@.len());
    reveal_strlit("cyrillic_sha");
    assert("cyrillic_i"@.len() != "cyrillic_sha"@.len());
    reveal_strlit("cyrillic_shcha");
    assert("cyrillic_i"@.len() != "cyrillic_shcha"@.len());
    reveal_strlit("cyrillic_ze");
    assert("cyrillic_i"@.len() != "cyrillic_ze"@.len());
    reveal_strlit("cyrillic_ha");
    assert("cyrillic_i"@.len() != "cyrillic_ha"@.len());
    reveal_strlit("cyrillic_hardsign");
    assert("cyrillic_i"@.len() != "cyrillic_hardsign"@.len());
    reveal_strlit("cyrillic_ef");
    assert("cyrillic_i"@.len() != "cyrillic_ef"@.len());
    reveal_strlit("cyrillic_yeru");
    assert("cyrillic_i"@.len() != "cyrillic_yeru"@.len());
    reveal_strlit("cyrillic_ve");
    assert("cyrillic_i"@.len() != "cyrillic_ve"@.len());
    reveal_strlit("cyrillic_a");
    assert("cyrillic_i"@[9] != "cyrillic_a"@[9]);
    reveal_strlit("cyrillic_pe");
    assert("cyrillic_i"@.len() != "cyrillic_pe"@.len());
    reveal_strlit("cyrillic_er");
    assert("cyrillic_i"@.len() != "cyrillic_er"@.len());
    reveal_strlit("cyrillic_o");
    assert("cyrillic_i"@[9] != "cyrillic_o"@[9]);
    reveal_strlit("cyrillic_el");
    assert("cyrillic_i"@.len() != "cyrillic_el"@.len());
    reveal_strlit("cyrillic_de");
    assert("cyrillic_i"@.len() != "cyrillic_de"@.len());
    reveal_strlit("cyrillic_zhe");
    assert("cyrillic_i"@.len() != "cyrillic_zhe"@.len());
    reveal_strlit("cyrillic_e");
    assert("cyrillic_i"@[9] != "cyrillic_e"@[9]);
    reveal_strlit("cyrillic_ya");
    assert("cyrillic_i"@.len() != "cyrillic_ya"@.len());
    reveal_strlit("cyrillic_che");
    assert("cyrillic_i"@.len() != "cyrillic_che"@.len());
    reveal_strlit("cyrillic_es");
    assert("cyrillic_i"@.len() != "cyrillic_es"@.len());
    reveal_strlit("cyrillic_em");
    assert("cyrillic_i"@.len() != "cyrillic_em"@.len());
    assert("b"@ =~= seq!['b']);
}

proof fn lemma_latin_cyrillic_te()
    ensures
        latin_of("cyrillic_te"@) == seq!['n'],
{
    reveal_strlit("cyrillic_te");
    reveal_strlit("n");
    reveal_strlit("cyrillic_shorti");
    assert("cyrillic_te"@.len() != "cyrillic_shorti"@.len());
    reveal_strlit("cyrillic_tse");
    assert("cyrillic_te"@.len() != "cyrillic_tse"@.len());
    reveal_strlit("cyrillic_u");
    assert("cyrillic_te"@.len() != "cyrillic_u"@.len());
    reveal_strlit("cyrillic_ka");
    assert("cyrillic_te"@[9] != "cyrillic_ka"@[9]);
    reveal_strlit("cyrillic_ie");
    assert("cyrillic_te"@[9] != "cyrillic_ie"@[9]);
    reveal_strlit("cyrillic_en");
    assert("cyrillic_te"@[9] != "cyrillic_en"@[9]);
    reveal_strlit("cyrillic_ghe");
    assert("cyrillic_te"@.len() != "cyrillic_ghe"@.len());
    reveal_strlit("cyrillic_sha");
    assert("cyrillic_te"@.len() != "cyrillic_sha"@.len());
    reveal_strlit("cyrillic_shcha");
    assert("cyrillic_te"@.len() != "cyrillic_shcha"@.len());
    reveal_strlit("cyrillic_ze");
    assert("cyrillic_te"@[9] != "cyrillic_ze"@[9]);
    reveal_strlit("cyrillic_ha");
    assert("cyrillic_te"@[9] != "cyrillic_ha"@[9]);
    reveal_strlit("cyrillic_hardsign");
    assert("cyrillic_te"@.len() != "cyrillic_hardsign"@.len());
    reveal_strlit("cyrillic_ef");
    assert("cyrillic_te"@[9] != "cyrillic_ef"@[9]);
    reveal_strlit("cyrillic_yeru");
    assert("cyrillic_te"@.len() != "cyrillic_yeru"@.len());
    reveal_strlit("cyrillic_ve");
    assert("cyrillic_te"@[9] != "cyrillic_ve"@[9]);
    reveal_strlit("cyrillic_a");
    assert("cyrillic_te"@.len() != "cyrillic_a"@.len());
    reveal_strlit("cyrillic_pe");
    assert("cyrillic_te"@[9] != "cyrillic_pe"@[9]);
    reveal_strlit("cyrillic_er");
    assert("cyrillic_te"@[9] != "cyrillic_er"@[9]);
    reveal_strlit("cyrillic_o");
    assert("cyrillic_te"@.len() != "cyrillic_o"@.len());
    reveal_strlit("cyrillic_el");
    assert("cyrillic_te"@[9] != "cyrillic_el"@[9]);
    reveal_strlit("cyrillic_de");
    assert("cyrillic_te"@[9] != "cyrillic_de"@[9]);
    reveal_strlit("cyrillic_zhe");
    assert("cyrillic_te"@.len() != "cyrillic_zhe"@.len());
    reveal_strlit("cyrillic_e");
    assert("cyrillic_te"@.len() != "cyrillic_e"@.len());
    reveal_strlit("cyrillic_ya");
    assert("cyrillic_te"@[9] != "cyrillic_ya"@[9]);
    reveal_strlit("cyrillic_che");
    assert("cyrillic_te"@.len() != "cyrillic_che"@.len());
    reveal_strlit("cyrillic_es");
    assert("cyrillic_te"@[9] != "cyrillic_es"@[9]);
    reveal_strlit("cyrillic_em");
    assert("cyrillic_te"@[9] != "cyrillic_em"@[9]);
    reveal_strlit("cyrillic_i");
    assert("cyrillic_te"@.len() != "cyrillic_i"@.len());
    assert("n"@ =~= seq!['n']);
}

proof fn lemma_latin_cyrillic_softsign()
    ensures
        latin_of("cyrillic_softsign"@) == seq!['m'],
{
    reveal_strlit("cyrillic_softsign");
    reveal_strlit("m");
    reveal_strlit("cyrillic_shorti");
    assert("cyrillic_softsign"@.len() != "cyrillic_shorti"@.len());
    reveal_strlit("cyrillic_tse");
    assert("cyrillic_softsign"@.len() != "cyrillic_tse"@.len());
    reveal_strlit("cyrillic_u");
    assert("cyrillic_softsign"@.len() != "cyrillic_u"@.len());
    reveal_strlit("cyrillic_ka");
    assert("cyrillic_softsign"@.len() != "cyrillic_ka"@.len());
    reveal_strlit("cyrillic_ie");
    assert("cyrillic_softsign"@.len() != "cyrillic_ie"@.len());
    reveal_strlit("cyrillic_en");
    assert("cyrillic_softsign"@.len() != "cyrillic_en"@.len());
    reveal_strlit("cyrillic_ghe");
    assert("cyrillic_softsign"@.len() != "cyrillic_ghe"@.len());
    reveal_strlit("cyrillic_sha");
    assert("cyrillic_softsign"@.len() != "cyrillic_sha"@.len());
    reveal_strlit("cyrillic_shcha");
    assert("cyrillic_softsign"@.len() != "cyrillic_shcha"@.len());
    reveal_strlit("cyrillic_ze");
    assert("cyrillic_softsign"@.len() != "cyrillic_ze"@.len());
    reveal_strlit("cyrillic_ha");
    assert("cyrillic_softsign"@.len() != "cyrillic_ha"@.len());
    reveal_strlit("cyrillic_hardsign");
    assert("cyrillic_softsign"@[9] != "cyrillic_hardsign"@[9]);
    reveal_strlit("cyrillic_ef");
    assert("cyrillic_softsign"@.len() != "cyrillic_ef"@.len());
    reveal_strlit("cyrillic_yeru");
    assert("cyrillic_softsign"@.len() != "cyrillic_yeru"@.len());
    reveal_strlit("cyrillic_ve");
    assert("cyrillic_softsign"@.len() != "cyrillic_ve"@.len());
    reveal_strlit("cyrillic_a");
    assert("cyrillic_softsign"@.len() != "cyrillic_a"@.len());
    reveal_strlit("cyrillic_pe");
    assert("cyrillic_softsign"@.len() != "cyrillic_pe"@.len());
    reveal_strlit("cyrillic_er");
    assert("cyrillic_softsign"@.len() != "cyrillic_er"@.len());
    reveal_strlit("cyrillic_o");
    assert("cyrillic_softsign"@.len() != "cyrillic_o"@.len());
    reveal_strlit("cyrillic_el");
    assert("cyrillic_softsign"@.len() != "cyrillic_el"@.len());
    reveal_strlit("cyrillic_de");
    assert("cyrillic_softsign"@.len() != "cyrillic_de"@.len());
    reveal_strlit("cyrillic_zhe");
    assert("cyrillic_softsign"@.len() != "cyrillic_zhe"@.len());
    reveal_strlit("cyrillic_e");
    assert("cyrillic_softsign"@.len() != "cyrillic_e"@.len());
    reveal_strlit("cyrillic_ya");
    assert("cyrillic_softsign"@.len() != "cyrillic_ya"@.len());
    reveal_strlit("cyrillic_che");
    assert("cyrillic_softsign"@.len() != "cyrillic_che"@.len());
    reveal_strlit("cyrillic_es");
    assert("cyrillic_softsign"@.len() != "cyrillic_es"@.len());
    reveal_strlit("cyrillic_em");
    assert("cyrillic_softsign"@.len() != "cyrillic_em"@.len());
    reveal_strlit("cyrillic_i");
    assert("cyrillic_softsign"@.len() != "cyrillic_i"@.len());
    reveal_strlit("cyrillic_te");
    assert("cyrillic_softsign"@.len() != "cyrillic_te"@.len());
    assert("m"@ =~= seq!['m']);
}

proof fn lemma_latin_cyrillic_be()
    ensures
        latin_of("cyrillic_be"@) == seq![','],
{
    reveal_strlit("cyrillic_be");
    reveal_strlit(",");
    reveal_strlit("cyrillic_shorti");
    assert("cyrillic_be"@.len() != "cyrillic_shorti"@.len());
    reveal_strlit("cyrillic_tse");
    assert("cyrillic_be"@.len() != "cyrillic_tse"@.len());
    reveal_strlit("cyrillic_u");
    assert("cyrillic_be"@.len() != "cyrillic_u"@.len());
    reveal_strlit("cyrillic_ka");
    assert("cyrillic_be"@[9] != "cyrillic_ka"@[9]);
    reveal_strlit("cyrillic_ie");
    assert("cyrillic_be"@[9] != "cyrillic_ie"@[9]);
    reveal_strlit("cyrillic_en");
    assert("cyrillic_be"@[9] != "cyrillic_en"@[9]);
    reveal_strlit("cyrillic_ghe");
    assert("cyrillic_be"@.len() != "cyrillic_ghe"@.len());
    reveal_strlit("cyrillic_sha");
    assert("cyrillic_be"@.len() != "cyrillic_sha"@.len());
    reveal_strlit("cyrillic_shcha");
    assert("cyrillic_be"@.len() != "cyrillic_shcha"@.len());
    reveal_strlit("cyrillic_ze");
    assert("cyrillic_be"@[9] != "cyrillic_ze"@[9]);
    reveal_strlit("cyrillic_ha");
    assert("cyrillic_be"@[9] != "cyrillic_ha"@[9]);
    reveal_strlit("cyrillic_hardsign");
    assert("cyrillic_be"@.len() != "cyrillic_hardsign"@.len());
    reveal_strlit("cyrillic_ef");
    assert("cyrillic_be"@[9] != "cyrillic_ef"@[9]);
    reveal_strlit("cyrillic_yeru");
    assert("cyrillic_be"@.len() != "cyrillic_yeru"@.len());
    reveal_strlit("cyrillic_ve");
    assert("cyrillic_be"@[9] != "cyrillic_ve"@[9]);
    reveal_strlit("cyrillic_a");
    assert("cyrillic_be"@.len() != "cyrillic_a"@.len());
    reveal_strlit("cyrillic_pe");
    assert("cyrillic_be"@[9] != "cyrillic_pe"@[9]);
    reveal_strlit("cyrillic_er");
    assert("cyrillic_be"@[9] != "cyrillic_er"@[9]);
    reveal_strlit("cyrillic_o");
    assert("cyrillic_be"@.len() != "cyrillic_o"@.len());
    reveal_strlit("cyrillic_el");
    assert("cyrillic_be"@[9] != "cyrillic_el"@[9]);
    reveal_strlit("cyrillic_de");
    assert("cyrillic_be"@[9] != "cyrillic_de"@[9]);
    reveal_strlit("cyrillic_zhe");
    assert("cyrillic_be"@.len() != "cyrillic_zhe"@.len());
    reveal_strlit("cyrillic_e");
    assert("cyrillic_be"@.len() != "cyrillic_e"@.len());
    reveal_strlit("cyrillic_ya");
    assert("cyrillic_be"@[9] != "cyrillic_ya"@[9]);
    reveal_strlit("cyrillic_che");
    assert("cyrillic_be"@.len() != "cyrillic_che"@.len());
    reveal_strlit("cyrillic_es");
    assert("cyrillic_be"@[9] != "cyrillic_es"@[9]);
    reveal_strlit("cyrillic_em");
    assert("cyrillic_be"@[9] != "cyrillic_em"@[9]);
    reveal_strlit("cyrillic_i");
    assert("cyrillic_be"@.len() != "cyrillic_i"@.len());
    reveal_strlit("cyrillic_te");
    assert("cyrillic_be"@[9] != "cyrillic_te"@[9]);
    reveal_strlit("cyrillic_softsign");
    assert("cyrillic_be"@.len() != "cyrillic_softsign"@.len());
    assert(","@ =~= seq![',']);
}

proof fn lemma_latin_cyrillic_yu()
    ensures
        latin_of("cyrillic_yu"@) == seq!['.'],
{
    reveal_strlit("cyrillic_yu");
    reveal_strlit(".");
    reveal_strlit("cyrillic_shorti");
    assert("cyrillic_yu"@.len() != "cyrillic_shorti"@.len());
    reveal_strlit("cyrillic_tse");
    assert("cyrillic_yu"@.len() != "cyrillic_tse"@.len());
    reveal_strlit("cyrillic_u");
    assert("cyrillic_yu"@.len() != "cyrillic_u"@.len());
    reveal_strlit("cyrillic_ka");
    assert("cyrillic_yu"@[9] != "cyrillic_ka"@[9]);
    reveal_strlit("cyrillic_ie");
    assert("cyrillic_yu"@[9] != "cyrillic_ie"@[9]);
    reveal_strlit("cyrillic_en");
    assert("cyrillic_yu"@[9] != "cyrillic_en"@[9]);
    reveal_strlit("cyrillic_ghe");
    assert("cyrillic_yu"@.len() != "cyrillic_ghe"@.len());
    reveal_strlit("cyrillic_sha");
    assert("cyrillic_yu"@.len() != "cyrillic_sha"@.len());
    reveal_strlit("cyrillic_shcha");
    assert("cyrillic_yu"@.len() != "cyrillic_shcha"@.len());
    reveal_strlit("cyrillic_ze");
    assert("cyrillic_yu"@[9] != "cyrillic_ze"@[9]);
    reveal_strlit("cyrillic_ha");
    assert("cyrillic_yu"@[9] != "cyrillic_ha"@[9]);
    reveal_strlit("cyrillic_hardsign");
    assert("cyrillic_yu"@.len() != "cyrillic_hardsign"@.len());
    reveal_strlit("cyrillic_ef");
    assert("cyrillic_yu"@[9] != "cyrillic_ef"@[9]);
    reveal_strlit("cyrillic_yeru");
    assert("cyrillic_yu"@.len() != "cyrillic_yeru"@.len());
    reveal_strlit("cyrillic_ve");
    assert("cyrillic_yu"@[9] != "cyrillic_ve"@[9]);
    reveal_strlit("cyrillic_a");
    assert("cyrillic_yu"@.len() != "cyrillic_a"@.len());
    reveal_strlit("cyrillic_pe");
    assert("cyrillic_yu"@[9] != "cyrillic_pe"@[9]);
    reveal_strlit("cyrillic_er");
    assert("cyrillic_yu"@[9] != "cyrillic_er"@[9]);
    reveal_strlit("cyrillic_o");
    assert("cyrillic_yu"@.len() != "cyrillic_o"@.len());
    reveal_strlit("cyrillic_el");
    assert("cyrillic_yu"@[9] != "cyrillic_el"@[9]);
    reveal_strlit("cyrillic_de");
    assert("cyrillic_yu"@[9] != "cyrillic_de"@[9]);
    reveal_strlit("cyrillic_zhe");
    assert("cyrillic_yu"@.len() != "cyrillic_zhe"@.len());
    reveal_strlit("cyrillic_e");
    assert("cyrillic_yu"@.len() != "cyrillic_e"@.len());
    reveal_strlit("cyrillic_ya");
    assert("cyrillic_yu"@[10] != "cyrillic_ya"@[10]);
    reveal_strlit("cyrillic_che");
    assert("cyrillic_yu"@.len() != "cyrillic_che"@.len());
    reveal_strlit("cyrillic_es");
    assert("cyrillic_yu"@[9] != "cyrillic_es"@[9]);
    reveal_strlit("cyrillic_em");
    assert("cyrillic_yu"@[9] != "cyrillic_em"@[9]);
    reveal_strlit("cyrillic_i");
    assert("cyrillic_yu"@.len() != "cyrillic_i"@.len());
    reveal_strlit("cyrillic_te");
    assert("cyrillic_yu"@[9] != "cyrillic_te"@[9]);
    reveal_strlit("cyrillic_softsign");
    assert("cyrillic_yu"@.len() != "cyrillic_softsign"@.len());
    reveal_strlit("cyrillic_be");
    assert("cyrillic_yu"@[9] != "cyrillic_be"@[9]);
    assert("."@ =~= seq!['.']);
}

/// Keys typed on a Cyrillic (ЙЦУКЕН) layout count as the Latin keys at the
/// same place of the QWERTY layout, so a shortcut works whichever layout is
/// on: Й is Q, Ц is W, …, С is C, Ы is S, and the keys that carry Х, Ъ,
/// Ж, Э, Б and Ю stand for `[`, `]`, `;`, `'`, `,` and `.`.
pub proof fn law_cyrillic_keys_sit_on_latin_keys(name: Seq<char>)
    ensures
        lowercase(name) == "cyrillic_shorti"@ ==> key_label(name) == Some(seq!['Q']),
        lowercase(name) == "cyrillic_tse"@ ==> key_label(name) == Some(seq!['W']),
        lowercase(name) == "cyrillic_u"@ ==> key_label(name) == Some(seq!['E']),
        lowercase(name) == "cyrillic_ka"@ ==> key_label(name) == Some(seq!['R']),
        lowercase(name) == "cyrillic_ie"@ ==> key_label(name) == Some(seq!['T']),
        lowercase(name) == "cyrillic_en"@ ==> key_label(name) == Some(seq!['Y']),
        lowercase(name) == "cyrillic_ghe"@ ==> key_label(name) == Some(seq!['U']),
        lowercase(name) == "cyrillic_sha"@ ==> key_label(name) == Some(seq!['I']),
        lowercase(name) == "cyrillic_shcha"@ ==> key_label(name) == Some(seq!['O']),
        lowercase(name) == "cyrillic_ze"@ ==> key_label(name) == Some(seq!['P']),
        lowercase(name) == "cyrillic_ha"@ ==> key_label(name) == Some(seq!['[']),
        lowercase(name) == "cyrillic_hardsign"@ ==> key_label(name) == Some(seq![']']),
        lowercase(name) == "cyrillic_ef"@ ==> key_label(name) == Some(seq!['A']),
        lowercase(name) == "cyrillic_yeru"@ ==> key_label(name) == Some(seq!['S']),
        lowercase(name) == "cyrillic_ve"@ ==> key_label(name) == Some(seq!['D']),
        lowercase(name) == "cyrillic_a"@ ==> key_label(name) == Some(seq!['F']),
        lowercase(name) == "cyrillic_pe"@ ==> key_label(name) == Some(seq!['G']),
        lowercase(name) == "cyrillic_er"@ ==> key_label(name) == Some(seq!['H']),
        lowercase(name) == "cyrillic_o"@ ==> key_label(name) == Some(seq!['J']),
        lowercase(name) == "cyrillic_el"@ ==> key_label(name) == Some(seq!['K']),
        lowercase(name) == "cyrillic_de"@ ==> key_label(name) == Some(seq!['L']),
        lowercase(name) == "cyrillic_zhe"@ ==> key_label(name) == Some(seq![';']),
        lowercase(name) == "cyrillic_e"@ ==> key_label(name) == Some(seq!['\'']),
        lowercase(name) == "cyrillic_ya"@ ==> key_label(name) == Some(seq!['Z']),
        lowercase(name) == "cyrillic_che"@ ==> key_label(name) == Some(seq!['X']),
        lowercase(name) == "cyrillic_es"@ ==> key_label(name) == Some(seq!['C']),
        lowercase(name) == "cyrillic_em"@ ==> key_label(name) == Some(seq!['V']),
        lowercase(name) == "cyrillic_i"@ ==> key_label(name) == Some(seq!['B']),
        lowercase(name) == "cyrillic_te"@ ==> key_label(name) == Some(seq!['N']),
        lowercase(name) == "cyrillic_softsign"@ ==> key_label(name) == Some(seq!['M']),
        lowercase(name) == "cyrillic_be"@ ==> key_label(name) == Some(seq![',']),
        lowercase(name) == "cyrillic_yu"@ ==> key_label(name) == Some(seq!['.']),
{
    if lowercase(name) == "cyrillic_shorti"@ {
        lemma_latin_cyrillic_shorti();
        lemma_single_ascii_label(name, 'q');
        assert(ascii_upper('q') == 'Q');
    }
    if lowercase(name) == "cyrillic_tse"@ {
        lemma_latin_cyrillic_tse();
        lemma_single_ascii_label(name, 'w');
        assert(ascii_upper('w') == 'W');
    }
    if lowercase(name) == "cyrillic_u"@ {
        lemma_latin_cyrillic_u();
        lemma_single_ascii_label(name, 'e');
        assert(ascii_upper('e') == 'E');
    }
    if lowercase(name) == "cyrillic_ka"@ {
        lemma_latin_cyrillic_ka();
        lemma_single_ascii_label(name, 'r');
        assert(ascii_upper('r') == 'R');
    }
    if lowercase(name) == "cyrillic_ie"@ {
        lemma_latin_cyrillic_ie();
        lemma_single_ascii_label(name, 't');
        assert(ascii_upper('t') == 'T');
    }
    if lowercase(name) == "cyrillic_en"@ {
        lemma_latin_cyrillic_en();
        lemma_single_ascii_label(name, 'y');
        assert(ascii_upper('y') == 'Y');
    }
    if lowercase(name) == "cyrillic_ghe"@ {
        lemma_latin_cyrillic_ghe();
        lemma_single_ascii_label(name, 'u');
        assert(ascii_upper('u') == 'U');
    }
    if lowercase(name) == "cyrillic_sha"@ {
        lemma_latin_cyrillic_sha();
        lemma_single_ascii_label(name, 'i');
        assert(ascii_upper('i') == 'I');
    }
    if lowercase(name) == "cyrillic_shcha"@ {
        lemma_latin_cyrillic_shcha();
        lemma_single_ascii_label(name, 'o');
        assert(ascii_upper('o') == 'O');
    }
    if lowercase(name) == "cyrillic_ze"@ {
        lemma_latin_cyrillic_ze();
        lemma_single_ascii_label(name, 'p');
        assert(ascii_upper('p') == 'P');
    }
    if lowercase(name) == "cyrillic_ha"@ {
        lemma_latin_cyrillic_ha();
        lemma_single_ascii_label(name, '[');
        assert(ascii_upper('[') == '[');
    }
    if lowercase(name) == "cyrillic_hardsign"@ {
        lemma_latin_cyrillic_hardsign();
        lemma_single_ascii_label(name, ']');
        assert(ascii_upper(']') == ']');
    }
    if lowercase(name) == "cyrillic_ef"@ {
        lemma_latin_cyrillic_ef();
        lemma_single_ascii_label(name, 'a');
        assert(ascii_upper('a') == 'A');
    }
    if lowercase(name) == "cyrillic_yeru"@ {
        lemma_latin_cyrillic_yeru();
        lemma_single_ascii_label(name, 's');
        assert(ascii_upper('s') == 'S');
    }
    if lowercase(name) == "cyrillic_ve"@ {
        lemma_latin_cyrillic_ve();
        lemma_single_ascii_label(name, 'd');
        assert(ascii_upper('d') == 'D');
    }
    if lowercase(name) == "cyrillic_a"@ {
        lemma_latin_cyrillic_a();
        lemma_single_ascii_label(name, 'f');
        assert(ascii_upper('f') == 'F');
    }
    if lowercase(name) == "cyrillic_pe"@ {
        lemma_latin_cyrillic_pe();
        lemma_single_ascii_label(name, 'g');
        assert(ascii_upper('g') == 'G');
    }
    if lowercase(name) == "cyrillic_er"@ {
        lemma_latin_cyrillic_er();
        lemma_single_ascii_label(name, 'h');
        assert(ascii_upper('h') == 'H');
    }
    if lowercase(name) == "cyrillic_o"@ {
        lemma_latin_cyrillic_o();
        lemma_single_ascii_label(name, 'j');
        assert(ascii_upper('j') == 'J');
    }
    if lowercase(name) == "cyrillic_el"@ {
        lemma_latin_cyrillic_el();
        lemma_single_ascii_label(name, 'k');
        assert(ascii_upper('k') == 'K');
    }
    if lowercase(name) == "cyrillic_de"@ {
        lemma_latin_cyrillic_de();
        lemma_single_ascii_label(name, 'l');
        assert(ascii_upper('l') == 'L');
    }
    if lowercase(name) == "cyrillic_zhe"@ {
        lemma_latin_cyrillic_zhe();
        lemma_single_ascii_label(name, ';');
        assert(ascii_upper(';') == ';');
    }
    if lowercase(name) == "cyrillic_e"@ {
        lemma_latin_cyrillic_e();
        lemma_single_ascii_label(name, '\'');
        assert(ascii_upper('\'') == '\'');
    }
    if lowercase(name) == "cyrillic_ya"@ {
        lemma_latin_cyrillic_ya();
        lemma_single_ascii_label(name, 'z');
        assert(ascii_upper('z') == 'Z');
    }
    if lowercase(name) == "cyrillic_che"@ {
        lemma_latin_cyrillic_che();
        lemma_single_ascii_label(name, 'x');
        assert(ascii_upper('x') == 'X');
    }
    if lowercase(name) == "cyrillic_es"@ {
        lemma_latin_cyrillic_es();
        lemma_single_ascii_label(name, 'c');
        assert(ascii_upper('c') == 'C');
    }
    if lowercase(name) == "cyrillic_em"@ {
        lemma_latin_cyrillic_em();
        lemma_single_ascii_label(name, 'v');
        assert(ascii_upper('v') == 'V');
    }
    if lowercase(name) == "cyrillic_i"@ {
        lemma_latin_cyrillic_i();
        lemma_single_ascii_label(name, 'b');
        assert(ascii_upper('b') == 'B');
    }
    if lowercase(name) == "cyrillic_te"@ {
        lemma_latin_cyrillic_te();
        lemma_single_ascii_label(name, 'n');
        assert(ascii_upper('n') == 'N');
    }
    if lowercase(name) == "cyrillic_softsign"@ {
        lemma_latin_cyrillic_softsign();
        lemma_single_ascii_label(name, 'm');
        assert(ascii_upper('m') == 'M');
    }
    if lowercase(name) == "cyrillic_be"@ {
        lemma_latin_cyrillic_be();
        lemma_single_ascii_label(name, ',');
        assert(ascii_upper(',') == ',');
    }
    if lowercase(name) == "cyrillic_yu"@ {
        lemma_latin_cyrillic_yu();
        lemma_single_ascii_label(name, '.');
        assert(ascii_upper('.') == '.');
    }
}

/// The parts of a combination, in order: `Ctrl`, `Alt`, `Shift` (not for a
/// Shift key itself), `Super` (for Super or Meta), then the key's label.
pub open spec fn combo_parts(name: Option<Seq<char>>, is_shift_key: bool, state: KeyState) -> Seq<Seq<char>> {
    let p0: Seq<Seq<char>> = if state.control { seq!["Ctrl"@] } else { Seq::empty() };
    let p1 = if state.alt { p0.push("Alt"@) } else { p0 };
    let p2 = if state.shift && !is_shift_key { p1.push("Shift"@) } else { p1 };
    let p3 = if state.super_key || state.meta { p2.push("Super"@) } else { p2 };
    match name {
        None => p3,
        Some(n) => match key_label(n) {
            None => p3,
            Some(l) => p3.push(l),
        },
    }
}

/// The text of a key combination, such as `Ctrl+Shift+F5`.
pub open spec fn combo_text(name: Option<Seq<char>>, is_shift_key: bool, state: KeyState) -> Seq<char> {
    join(combo_parts(name, is_shift_key, state), "+"@)
}

fn label_of(name: &str) -> (r: Option<Vec<char>>)
    ensures
        match key_label(name@) {
            None => r is None,
            Some(l) => r matches Some(v) && v@ == l,
        },
{
    let lower = to_lowercase(name);
    let mapped = latin_key(lower.as_str());
    let m = mapped.as_str();
    if same_text(m, "Control_L") || same_text(m, "Control_R") || same_text(m, "Alt_L")
        || same_text(m, "Alt_R") || same_text(m, "Shift_L") || same_text(m, "Shift_R")
        || same_text(m, "Super_L") || same_text(m, "Super_R") || same_text(m, "Meta_L")
        || same_text(m, "Meta_R") {
        None
    } else if same_text(m, "backslash") {
        Some(chars_of("\\"))
    } else if same_text(m, "slash") {
        Some(chars_of("/"))
    } else {
        let c = chars_of(m);
        if c.len() == 1 && (c[0] as u32) < 0x80 {
            let mut v: Vec<char> = Vec::new();
            v.push(to_ascii_upper(c[0]));
            assert(v@ =~= seq![ascii_upper(c@[0])]);
            Some(v)
        } else {
            Some(c)
        }
    }
}

/// The combination that a key press spells (Ctrl+Left spells `Ctrl+left`,
/// see `key_label`): `key_name` is the key's name
/// (none for a key without one), `is_shift_key` tells whether the key is a
/// Shift key itself.
pub fn keyval_to_string(key_name: Option<&str>, is_shift_key: bool, state: KeyState) -> (r: String)
    ensures
        r@ == combo_text(
            match key_name {
                Some(n) => Some(n@),
                None => None,
            },
            is_shift_key,
            state,
        ),
{
    let mut parts: Vec<Vec<char>> = Vec::new();
    if state.control {
        parts.push(chars_of("Ctrl"));
    }
    if state.alt {
        parts.push(chars_of("Alt"));
    }
    if state.shift && !is_shift_key {
        parts.push(chars_of("Shift"));
    }
    if state.super_key || state.meta {
        parts.push(chars_of("Super"));
    }
        match key_name {
        Some(n) => match label_of(n) {
            Some(l) => parts.push(l),
            None => {},
        },
        None => {},
    }
    let ghost nm = match key_name {
        Some(n) => Some(n@),
        None => None,
    };
    assert(crate::text::views(parts@) =~= combo_parts(nm, is_shift_key, state));
    let sep = chars_of("+");
    let joined = join_chars(&parts, &sep);
    crate::text::string_of(joined.as_slice())
}

/// The action bound to the combination a key press spells, if any: the first
/// hotkey whose keys equal it up to ASCII case. A key press that spells
/// nothing triggers nothing.
pub fn resolve_action(hotkeys: &Vec<HotKey>, key_name: Option<&str>, is_shift_key: bool, state: KeyState) -> (r: Option<String>)
    ensures
        ({
            let pressed = combo_text(
                match key_name {
                    Some(n) => Some(n@),
                    None => None,
                },
                is_shift_key,
                state,
            );
            match r {
                None => pressed.len() == 0 || forall|i: int|
                    0 <= i < hotkeys@.len() ==> !eq_ignore_ascii_case(#[trigger] hotkeys@[i].keys@, pressed),
                Some(id) => pressed.len() > 0 && exists|i: int|
                    0 <= i < hotkeys@.len() && eq_ignore_ascii_case(hotkeys@[i].keys@, pressed) && id@
                        == hotkeys@[i].id@ && forall|j: int|
                        0 <= j < i ==> !eq_ignore_ascii_case(#[trigger] hotkeys@[j].keys@, pressed),
            }
        }),
{
    let pressed = keyval_to_string(key_name, is_shift_key, state);
    let pc = chars_of(pressed.as_str());
    if pc.len() == 0 {
        return None;
    }
    let mut i: usize = 0;
    while i < hotkeys.len()
        invariant
            0 <= i <= hotkeys@.len(),
            pc@ == pressed@,
            pc@.len() > 0,
            pressed@ == combo_text(
                match key_name {
                    Some(n) => Some(n@),
                    None => None,
                },
                is_shift_key,
                state,
            ),
            forall|j: int| 0 <= j < i ==> !eq_ignore_ascii_case(#[trigger] hotkeys@[j].keys@, pc@),
        decreases hotkeys.len() - i,
    {
        let k = chars_of(hotkeys[i].keys.as_str());
        if eq_ignore_case(&k, &pc) {
            let id = hotkeys[i].id.clone();
            assert(eq_ignore_ascii_case(hotkeys@[i as int].keys@, pressed@) && id@ == hotkeys@[i as int].id@);
            return Some(id);
        }
        i = i + 1;
    }
    None
}


/// The text of what the configuration stored, if anything.
pub open spec fn stored_texts(stored: Option<Vec<HotKey>>) -> Option<Seq<HotKeyText>> {
    match stored {
        None => None,
        Some(s) => Some(texts(s@)),
    }
}

/// The hotkeys in effect for what the configuration stored.
pub open spec fn in_effect(stored: Option<Seq<HotKeyText>>) -> Seq<HotKeyText> {
    match stored {
        None => default_table(),
        Some(s) => merged(s),
    }
}

/// The shipped description of action `id`, if the action is shipped.
pub open spec fn default_description(id: Seq<char>) -> Option<Seq<char>> {
    if exists|i: int| 0 <= i < default_table().len() && (#[trigger] default_table()[i]).0 == id {
        Some(
            default_table()[choose|i: int|
                0 <= i < default_table().len() && (#[trigger] default_table()[i]).0 == id].1,
        )
    } else {
        None
    }
}

/// The translation key of an action's description: `hotkey.<id>`.
pub fn description_key(id: &str) -> (r: String)
    ensures
        r@ == "hotkey."@ + id@,
{
    let mut v = chars_of("hotkey.");
    push_str(&mut v, id);
    crate::text::string_of(v.as_slice())
}

/// The description shown for action `id`, given what the translation
/// catalogue returned for its key: the translation when there is one; when
/// the catalogue handed the key back untranslated, the shipped description,
/// or the key itself for an action that is not shipped.
pub fn description(id: &str, translated: &str) -> (r: String)
    ensures
        translated@ != "hotkey."@ + id@ ==> r@ == translated@,
        translated@ == "hotkey."@ + id@ ==> r@ == match default_description(id@) {
            Some(d) => d,
            None => translated@,
        },
{
    let key = description_key(id);
    if !same_text(translated, key.as_str()) {
        return translated.to_owned();
    }
    let defaults = get_default_hotkeys();
    proof {
        lemma_default_ids_distinct();
    }
    let mut i: usize = 0;
    while i < defaults.len()
        invariant
            0 <= i <= defaults.len(),
            texts(defaults@) == default_table(),
            translated@ == "hotkey."@ + id@,
            forall|j: int| 0 <= j < i ==> (#[trigger] default_table()[j]).0 != id@,
        decreases defaults.len() - i,
    {
        if same_text(defaults[i].id.as_str(), id) {
            let r = defaults[i].description.clone();
            proof {
                lemma_default_ids_distinct();
                assert(default_table()[i as int] == defaults@[i as int]@);
                assert(default_table()[i as int].0 == id@);
                let k = choose|k: int| 0 <= k < default_table().len() && (#[trigger] default_table()[k]).0 == id@;
                assert(k == i);
            }
            return r;
        }
        assert(default_table()[i as int] == defaults@[i as int]@);
        i = i + 1;
    }
    translated.to_owned()
}

/// The action that binding `keys` to `id` would shadow, among the hotkeys in
/// effect for what the configuration stored, and whether that list has to be
/// saved back.
pub fn conflicting_action(stored: Option<Vec<HotKey>>, id: &str, keys: &str) -> (r: (Option<String>, bool))
    ensures
        ({
            let list = in_effect(stored_texts(stored));
            &&& r.1 == must_save(stored_texts(stored))
            &&& match r.0 {
                None => forall|i: int| 0 <= i < list.len() ==> !clashes(#[trigger] list[i], id@, keys@),
                Some(x) => exists|i: int|
                    0 <= i < list.len() && clashes(list[i], id@, keys@) && x@ == list[i].0
                        && forall|j: int| 0 <= j < i ==> !clashes(#[trigger] list[j], id@, keys@),
            }
        }),
{
    let ghost list0 = in_effect(stored_texts(stored));
    let (hotkeys, save) = get_hotkeys(stored);
    let found = conflict_in(hotkeys.as_slice(), id, keys);
    proof {
        let list = texts(hotkeys@);
        assert(list == list0);
        assert forall|i: int| 0 <= i < hotkeys@.len() implies #[trigger] list[i] == hotkeys@[i]@ by {}
        match found {
            None => {
                assert forall|i: int| 0 <= i < list.len() implies !clashes(#[trigger] list[i], id@, keys@) by {
                    assert(list[i] == hotkeys@[i]@);
                }
            },
            Some(ref x) => {
                let i = choose|i: int|
                    0 <= i < hotkeys@.len() && clashes(hotkeys@[i]@, id@, keys@) && x@ == hotkeys@[i].id@
                        && forall|j: int| 0 <= j < i ==> !clashes(#[trigger] hotkeys@[j]@, id@, keys@);
                assert(list[i] == hotkeys@[i]@);
                assert forall|j: int| 0 <= j < i implies !clashes(#[trigger] list[j], id@, keys@) by {
                    assert(list[j] == hotkeys@[j]@);
                }
            },
        }
    }
    (found, save)
}

proof fn lemma_differ_at(a: Seq<char>, b: Seq<char>, i: int)
    requires
        0 <= i < a.len(),
        ascii_lower(a[i]) != ascii_lower(b[i]),
    ensures
        !eq_ignore_ascii_case(a, b),
{
}

/// Every shipped action has a non-empty default combination.
pub proof fn law_default_keys_nonempty(i: int)
    requires
        0 <= i < default_table().len(),
    ensures
        default_table()[i].2.len() > 0,
{
    reveal_strlit("Ctrl+R");
    reveal_strlit("Ctrl+Left");
    reveal_strlit("Ctrl+Right");
    reveal_strlit("Alt+F1");
    reveal_strlit("Alt+F2");
    reveal_strlit("Ctrl+\\");
    reveal_strlit("Ctrl+/");
    reveal_strlit("Ctrl+S");
    reveal_strlit("Ctrl+F");
    reveal_strlit("Ctrl+N");
    reveal_strlit("Alt+Return");
    reveal_strlit("Ctrl+X");
    reveal_strlit("Ctrl+C");
    reveal_strlit("Ctrl+V");
}

/// The shipped hotkeys are free of each other: binding any shipped action to
/// its own default combination clashes with no shipped hotkey (the two
/// pairs that share a combination do so by design), so no default shadows
/// another.
pub proof fn law_defaults_free(c: int, i: int)
    requires
        0 <= c < default_table().len(),
        0 <= i < default_table().len(),
    ensures
        !clashes(default_table()[i], default_table()[c].0, default_table()[c].2),
{
    let t = default_table();
    if i != c {
        reveal_strlit("Ctrl+R");
        reveal_strlit("Ctrl+Left");
        reveal_strlit("Ctrl+Right");
        reveal_strlit("Alt+F1");
        reveal_strlit("Alt+F2");
        reveal_strlit("Ctrl+\\");
        reveal_strlit("Ctrl+/");
        reveal_strlit("Ctrl+S");
        reveal_strlit("Ctrl+F");
        reveal_strlit("Ctrl+N");
        reveal_strlit("Alt+Return");
        reveal_strlit("Ctrl+X");
        reveal_strlit("Ctrl+C");
        reveal_strlit("Ctrl+V");
        let a = t[i].2;
        let b = t[c].2;
        if a.len() == b.len() {
            if ascii_lower(a[0]) != ascii_lower(b[0]) {
                lemma_differ_at(a, b, 0);
            } else if ascii_lower(a[5]) != ascii_lower(b[5]) {
                lemma_differ_at(a, b, 5);
            } else {
                assert(share_combo(t[i].0, t[c].0));
            }
        }
    }
}

/// What a key pressed in the capture dialog does.
pub enum CaptureStep {
    /// Escape: close without change.
    Close,
    /// A modifier alone, or a key that spells nothing: keep waiting.
    Ignore,
    /// The combination is taken by this action: warn and keep waiting.
    Conflict(String),
    /// Bind the combination and close.
    Rebind,
}

/// Decides a key press in the capture dialog from whether it is Escape,
/// the key's name, the combination it spells and the action that
/// combination would shadow.
pub fn capture_step(is_escape: bool, key_name: Option<&str>, combo: &str, conflict: Option<String>) -> (r: CaptureStep)
    ensures
        is_escape ==> r is Close,
        !is_escape && (key_name matches Some(n) && is_modifier_name(n@)) ==> r is Ignore,
        !is_escape && !(key_name matches Some(n) && is_modifier_name(n@)) ==> {
            if combo@.len() == 0 {
                r is Ignore
            } else {
                match conflict {
                    Some(o) => r matches CaptureStep::Conflict(x) && x@ == o@,
                    None => r is Rebind,
                }
            }
        },
{
    if is_escape {
        return CaptureStep::Close;
    }
    if let Some(n) = key_name {
        if same_text(n, "Control_L") || same_text(n, "Control_R") || same_text(n, "Alt_L") || same_text(n, "Alt_R")
            || same_text(n, "Shift_L") || same_text(n, "Shift_R") || same_text(n, "Super_L") || same_text(n, "Super_R")
            || same_text(n, "Meta_L") || same_text(n, "Meta_R") {
            return CaptureStep::Ignore;
        }
    }
    if combo.is_empty() {
        return CaptureStep::Ignore;
    }
    match conflict {
        Some(o) => CaptureStep::Conflict(o),
        None => CaptureStep::Rebind,
    }
}

/// The position of the first hotkey of action `id`.
pub open spec fn first_with_id(hs: Seq<HotKeyText>, id: Seq<char>) -> Option<int>
    decreases hs.len(),
{
    if hs.len() == 0 {
        None
    } else {
        match first_with_id(hs.drop_last(), id) {
            Some(i) => Some(i),
            None => if hs.last().0 == id { Some(hs.len() - 1) } else { None },
        }
    }
}

/// The hotkeys once action `id` is bound to `keys`: its first entry takes
/// the keys; nothing changes when the action is not listed.
pub open spec fn rebound(hs: Seq<HotKeyText>, id: Seq<char>, keys: Seq<char>) -> Seq<HotKeyText> {
    match first_with_id(hs, id) {
        Some(i) => hs.update(i, (hs[i].0, hs[i].1, keys)),
        None => hs,
    }
}

proof fn lemma_first_with_id_prefix(hs: Seq<HotKeyText>, id: Seq<char>, k: int)
    requires
        0 <= k <= hs.len(),
        first_with_id(hs.take(k), id) is Some,
    ensures
        first_with_id(hs, id) == first_with_id(hs.take(k), id),
    decreases hs.len() - k,
{
    if k < hs.len() {
        assert(hs.take(k + 1).drop_last() =~= hs.take(k));
        lemma_first_with_id_prefix(hs, id, k + 1);
    } else {
        assert(hs.take(k) =~= hs);
    }
}

/// Binds action `id` to `keys`.
pub fn rebind(hotkeys: &mut Vec<HotKey>, id: &str, keys: &str)
    ensures
        texts(final(hotkeys)@) == rebound(texts(old(hotkeys)@), id@, keys@),
{
    let ghost hs = texts(hotkeys@);
    let mut i: usize = 0;
    assert(hs.take(0) =~= Seq::<HotKeyText>::empty());
    while i < hotkeys.len()
        invariant
            0 <= i <= hotkeys@.len(),
            hotkeys@ == old(hotkeys)@,
            hs == texts(hotkeys@),
            first_with_id(hs.take(i as int), id@) is None,
        decreases hotkeys.len() - i,
    {
        assert(hs.take(i + 1).drop_last() =~= hs.take(i as int));
        assert(hs[i as int] == hotkeys@[i as int]@);
        if same_text(hotkeys[i].id.as_str(), id) {
            proof {
                lemma_first_with_id_prefix(hs, id@, i + 1);
            }
            let updated = HotKey {
                id: hotkeys[i].id.clone(),
                description: hotkeys[i].description.clone(),
                keys: keys.to_owned(),
            };
            let ghost before = hotkeys@;
            hotkeys.set(i, updated);
            assert(texts(hotkeys@) =~= hs.update(i as int, (hs[i as int].0, hs[i as int].1, keys@)));
            return;
        }
        i = i + 1;
    }
    assert(hs.take(hs.len() as int) =~= hs);
}

} // verus!
