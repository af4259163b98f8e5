use vstd::prelude::*;
use crate::text::same_text;

verus! {

/// The first-run wizard shows until it was finished once.
pub fn should_show(done: Option<bool>) -> (r: bool)
    ensures
        r == !(done == Some(true)),
{
    !match done {
        Some(d) => d,
        None => false,
    }
}

/// What the wizard's buttons show on page `index` of `count`: whether
/// "Back" is there, and whether "Next" reads "Finish".
pub fn wizard_nav(index: u32, count: u32) -> (r: (bool, bool))
    ensures
        r == (index > 0, index + 1 >= count),
{
    (index > 0, index as u64 + 1 >= count as u64)
}

/// What "Next" does on page `index` of `count`: go to the next page, or
/// finish on the last one.
#[derive(Clone, Copy, PartialEq, Eq, Debug, Structural)]
pub enum NextStep {
    Page(usize),
    Finish,
}

/// "Next" moves one page on, and finishes on the last page.
pub fn next_step(index: usize, count: usize) -> (r: NextStep)
    ensures
        r == (if index + 1 < count { NextStep::Page((index + 1) as usize) } else { NextStep::Finish }),
{
    if index < usize::MAX && index + 1 < count {
        NextStep::Page(index + 1)
    } else {
        NextStep::Finish
    }
}

/// "Back" moves one page back, and does nothing on the first page.
pub fn back_target(index: usize) -> (r: Option<usize>)
    ensures
        r == (if index > 0 { Some((index - 1) as usize) } else { None }),
{
    if index > 0 {
        Some(index - 1)
    } else {
        None
    }
}

/// After finishing, the application restarts when the language changed.
pub fn restart_after_finish(language: Option<&str>, start_language: &str) -> (r: bool)
    ensures
        r == (match language {
            Some(l) => l@,
            None => Seq::empty(),
        } != start_language@),
{
    match language {
        Some(l) => !same_text(l, start_language),
        None => {
            if start_language.is_empty() {
                assert(start_language@ =~= Seq::<char>::empty());
            }
            !start_language.is_empty()
        },
    }
}

/// The language codes the wizard offers, in list order.
pub open spec fn language_codes() -> Seq<Seq<char>> {
    seq![
        "en"@, "pl"@, "cs"@, "sk"@, "de"@, "es"@, "uk"@, "it"@, "fr"@, "ro"@, "hu"@, "be"@, "bg"@, "ru"@,
        "sr"@,
    ]
}

/// The languages the wizard offers: (name, code), in list order.
pub fn languages() -> (r: Vec<(&'static str, &'static str)>)
    ensures
        r@.len() == language_codes().len(),
        forall|i: int| 0 <= i < r@.len() ==> (#[trigger] r@[i]).1@ == language_codes()[i],
{
    let v: Vec<(&'static str, &'static str)> = vec![
        ("English", "en"),
        ("Polski", "pl"),
        ("Čeština", "cs"),
        ("Slovenčina", "sk"),
        ("Deutsch", "de"),
        ("Español", "es"),
        ("Українська", "uk"),
        ("Italiano", "it"),
        ("Français", "fr"),
        ("Română", "ro"),
        ("Magyar", "hu"),
        ("Беларуская", "be"),
        ("Български", "bg"),
        ("Русский", "ru"),
        ("Српски", "sr"),
    ];
    assert forall|i: int| 0 <= i < v@.len() implies (#[trigger] v@[i]).1@ == language_codes()[i] by {
        if i == 0 {
        } else if i == 1 {
        } else if i == 2 {
        } else if i == 3 {
        } else if i == 4 {
        } else if i == 5 {
        } else if i == 6 {
        } else if i == 7 {
        } else if i == 8 {
        } else if i == 9 {
        } else if i == 10 {
        } else if i == 11 {
        } else if i == 12 {
        } else if i == 13 {
        } else {
        }
    }
    v
}

/// The first position of `code` in a list of codes, or 0 when it is not
/// there.
pub open spec fn position_or_first(codes: Seq<Seq<char>>, code: Seq<char>) -> int
    decreases codes.len(),
{
    if codes.len() == 0 {
        0
    } else if codes.last() == code && (forall|j: int| 0 <= j < codes.len() - 1 ==> codes[j] != code) {
        codes.len() - 1
    } else {
        position_or_first(codes.drop_last(), code)
    }
}

/// The list position the language drop-down starts at: the stored
/// language (English when none is stored), or the first entry when the
/// stored code is not offered.
pub fn language_index(stored: Option<&str>) -> (r: usize)
    ensures
        ({
            let code = match stored {
                Some(s) => s@,
                None => "en"@,
            };
            &&& r < language_codes().len()
            &&& (exists|i: int| 0 <= i < language_codes().len() && language_codes()[i] == code) ==> {
                &&& language_codes()[r as int] == code
                &&& forall|j: int| 0 <= j < r ==> language_codes()[j] != code
            }
            &&& (forall|i: int| 0 <= i < language_codes().len() ==> language_codes()[i] != code) ==> r == 0
        }),
{
    let code = match stored {
        Some(s) => s,
        None => "en",
    };
    let table = languages();
    let mut i: usize = 0;
    while i < table.len()
        invariant
            0 <= i <= table@.len(),
            table@.len() == language_codes().len(),
            forall|k: int| 0 <= k < table@.len() ==> (#[trigger] table@[k]).1@ == language_codes()[k],
            forall|j: int| 0 <= j < i ==> language_codes()[j] != code@,
            code@ == match stored {
                Some(s) => s@,
                None => "en"@,
            },
        decreases table.len() - i,
    {
        if same_text(table[i].1, code) {
            assert(table@[i as int].1@ == language_codes()[i as int]);
            return i;
        }
        assert(table@[i as int].1@ == language_codes()[i as int]);
        i = i + 1;
    }
    0
}

/// Where a connection opens, as the wizard's drop-down lists it.
pub open spec fn target_index_of(setting: Seq<char>) -> u32 {
    if setting == "opposite"@ {
        1
    } else if setting == "left"@ {
        2
    } else if setting == "right"@ {
        3
    } else {
        0
    }
}

/// The setting stored for a position of the drop-down.
pub open spec fn target_value_of(index: u32) -> Seq<char> {
    if index == 1 {
        "opposite"@
    } else if index == 2 {
        "left"@
    } else if index == 3 {
        "right"@
    } else {
        "active"@
    }
}

/// The drop-down position for the stored target (`active` by default).
pub fn target_index(setting: Option<&str>) -> (r: u32)
    ensures
        r == target_index_of(
            match setting {
                Some(s) => s@,
                None => "active"@,
            },
        ),
{
    let s = match setting {
        Some(s) => s,
        None => "active",
    };
    if same_text(s, "opposite") {
        1
    } else if same_text(s, "left") {
        2
    } else if same_text(s, "right") {
        3
    } else {
        0
    }
}

/// The target to store for a drop-down position.
pub fn target_value(index: u32) -> (r: &'static str)
    ensures
        r@ == target_value_of(index),
{
    if index == 1 {
        "opposite"
    } else if index == 2 {
        "left"
    } else if index == 3 {
        "right"
    } else {
        "active"
    }
}

/// Choosing a target and reading it back selects the same position, and
/// each stored target shows as the position that stores it again.
pub proof fn law_target_round_trip(index: u32, setting: Seq<char>)
    ensures
        index < 4 ==> target_index_of(target_value_of(index)) == index,
        target_value_of(target_index_of(setting)) == setting || target_index_of(setting) == 0,
{
    reveal_strlit("opposite");
    reveal_strlit("left");
    reveal_strlit("right");
    reveal_strlit("active");
    assert("opposite"@.len() == 8 && "left"@.len() == 4 && "right"@.len() == 5 && "active"@.len() == 6);
}

/// The list row size as the drop-down lists it.
pub open spec fn row_size_index_of(setting: Seq<char>) -> u32 {
    if setting == "compact"@ {
        1
    } else if setting == "tiny"@ {
        2
    } else {
        0
    }
}

/// The row size stored for a drop-down position.
pub open spec fn row_size_value_of(index: u32) -> Seq<char> {
    if index == 1 {
        "compact"@
    } else if index == 2 {
        "tiny"@
    } else {
        "normal"@
    }
}

/// The drop-down position for the stored row size (`normal` by default).
pub fn row_size_index(setting: Option<&str>) -> (r: u32)
    ensures
        r == row_size_index_of(
            match setting {
                Some(s) => s@,
                None => "normal"@,
            },
        ),
{
    let s = match setting {
        Some(s) => s,
        None => "normal",
    };
    if same_text(s, "compact") {
        1
    } else if same_text(s, "tiny") {
        2
    } else {
        0
    }
}

/// The row size to store for a drop-down position.
pub fn row_size_value(index: u32) -> (r: &'static str)
    ensures
        r@ == row_size_value_of(index),
{
    if index == 1 {
        "compact"
    } else if index == 2 {
        "tiny"
    } else {
        "normal"
    }
}

/// Choosing a row size and reading it back selects the same position.
pub proof fn law_row_size_round_trip(index: u32)
    ensures
        index < 3 ==> row_size_index_of(row_size_value_of(index)) == index,
{
    reveal_strlit("compact");
    reveal_strlit("tiny");
    reveal_strlit("normal");
    assert("compact"@.len() == 7 && "tiny"@.len() == 4 && "normal"@.len() == 6);
}

/// How the theme controls start: the automatic switch is on for theme 0
/// (or none stored), and the dark card is the chosen one for theme 2.
pub fn theme_controls(theme_index: Option<u32>) -> (r: (bool, bool))
    ensures
        r == (match theme_index {
            Some(t) => t == 0,
            None => true,
        }, theme_index == Some(2u32)),
{
    match theme_index {
        Some(t) => (t == 0, t == 2),
        None => (true, false),
    }
}

/// The theme stored when the automatic switch changes: 0 when it is on,
/// else the chosen card's theme.
pub fn theme_after_switch(auto: bool, dark_chosen: bool) -> (r: u32)
    ensures
        r == (if auto { 0u32 } else if dark_chosen { 2u32 } else { 1u32 }),
{
    if auto {
        0
    } else if dark_chosen {
        2
    } else {
        1
    }
}

/// The theme stored when a card is chosen: its theme, unless the automatic
/// switch is on.
pub fn theme_after_card(dark: bool, active: bool, auto: bool) -> (r: Option<u32>)
    ensures
        r == (if active && !auto { Some(if dark { 2u32 } else { 1u32 }) } else { None }),
{
    if active && !auto {
        Some(if dark { 2 } else { 1 })
    } else {
        None
    }
}

/// A button the panel toolbars can show: its setting and whether it shows
/// by default.
pub open spec fn toolbar_table(windows: bool) -> Seq<(Seq<char>, bool)> {
    seq![("ui.toolbar.terminal"@, true), ("ui.toolbar.search"@, true), ("ui.toolbar.processes"@, true), ("ui.toolbar.devtools"@, false)]
        + if windows { seq![("ui.toolbar.registry"@, true)] } else { Seq::empty() }
}

/// The toolbar buttons, by setting and default.
pub fn toolbar_buttons(windows: bool) -> (r: Vec<(&'static str, bool)>)
    ensures
        r@.len() == toolbar_table(windows).len(),
        forall|i: int| 0 <= i < r@.len() ==> (#[trigger] r@[i]).0@ == toolbar_table(windows)[i].0 && r@[i].1 == toolbar_table(windows)[i].1,
{
    let mut v: Vec<(&'static str, bool)> = Vec::new();
    v.push(("ui.toolbar.terminal", true));
    v.push(("ui.toolbar.search", true));
    v.push(("ui.toolbar.processes", true));
    v.push(("ui.toolbar.devtools", false));
    if windows {
        v.push(("ui.toolbar.registry", true));
    }
    let ghost t = toolbar_table(windows);
    assert forall|i: int| 0 <= i < v@.len() implies (#[trigger] v@[i]).0@ == t[i].0 && v@[i].1 == t[i].1 by {
        if i == 0 {
        } else if i == 1 {
        } else if i == 2 {
        } else if i == 3 {
        } else {
        }
    }
    v
}

/// Whether a toolbar button shows: the stored choice, else the button's
/// default (shown, for a setting the table does not list).
pub fn toolbar_shown(windows: bool, key: &str, stored: Option<bool>) -> (r: bool)
    ensures
        match stored {
            Some(b) => r == b,
            None => (exists|i: int| 0 <= i < toolbar_table(windows).len() && toolbar_table(windows)[i].0 == key@) ==> exists|i: int|
                0 <= i < toolbar_table(windows).len() && toolbar_table(windows)[i].0 == key@ && r == toolbar_table(windows)[i].1
                    && forall|j: int| 0 <= j < i ==> toolbar_table(windows)[j].0 != key@,
        },
        stored is None && (forall|i: int| 0 <= i < toolbar_table(windows).len() ==> toolbar_table(windows)[i].0 != key@) ==> r,
{
    if let Some(b) = stored {
        return b;
    }
    let table = toolbar_buttons(windows);
    let mut i: usize = 0;
    while i < table.len()
        invariant
            0 <= i <= table@.len(),
            table@.len() == toolbar_table(windows).len(),
            stored is None,
            forall|k: int| 0 <= k < table@.len() ==> (#[trigger] table@[k]).0@ == toolbar_table(windows)[k].0 && table@[k].1 == toolbar_table(windows)[k].1,
            forall|j: int| 0 <= j < i ==> toolbar_table(windows)[j].0 != key@,
        decreases table.len() - i,
    {
        assert(table@[i as int].0@ == toolbar_table(windows)[i as int].0);
        if same_text(table[i].0, key) {
            return table[i].1;
        }
        i = i + 1;
    }
    true
}

} // verus!
