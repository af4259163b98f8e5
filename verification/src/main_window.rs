use vstd::prelude::*;
use crate::text::{decimal, push_all, push_str, same_text, string_of, to_decimal};
use crate::startup::{has_flag, port_of, Application};
use crate::text::texts_of;
use crate::window_keys::ActivePanelSide;

verus! {

/// The colour scheme the window asks for.
#[derive(Clone, Copy, PartialEq, Eq, Debug, Structural)]
pub enum ColorScheme {
    Default,
    ForceLight,
    ForceDark,
}

/// The scheme a stored theme number stands for: 1 is light, 2 is dark,
/// anything else (or nothing) follows the system.
pub open spec fn scheme_of(theme_index: Option<u32>) -> ColorScheme {
    match theme_index {
        Some(1) => ColorScheme::ForceLight,
        Some(2) => ColorScheme::ForceDark,
        _ => ColorScheme::Default,
    }
}

/// The scheme the window starts with.
pub fn color_scheme(theme_index: Option<u32>) -> (r: ColorScheme)
    ensures
        r == scheme_of(theme_index),
{
    match theme_index {
        Some(1) => ColorScheme::ForceLight,
        Some(2) => ColorScheme::ForceDark,
        _ => ColorScheme::Default,
    }
}

/// The window's size and state when it opens.
#[derive(Clone, Copy, PartialEq, Eq, Debug, Structural)]
pub struct WindowGeometry {
    pub width: i32,
    pub height: i32,
    pub maximized: bool,
}

/// The stored geometry, with 1200 by 800, not maximized, for what is not
/// stored.
pub fn window_geometry(width: Option<i32>, height: Option<i32>, maximized: Option<bool>) -> (r: WindowGeometry)
    ensures
        r.width == match width {
            Some(w) => w,
            None => 1200,
        },
        r.height == match height {
            Some(h) => h,
            None => 800,
        },
        r.maximized == match maximized {
            Some(m) => m,
            None => false,
        },
{
    WindowGeometry {
        width: match width {
            Some(w) => w,
            None => 1200,
        },
        height: match height {
            Some(h) => h,
            None => 800,
        },
        maximized: match maximized {
            Some(m) => m,
            None => false,
        },
    }
}

/// The panel a connection opens in, from the setting `left`, `right`,
/// `opposite` or (otherwise) the active panel; with no active panel, the
/// left one.
pub open spec fn target_side(setting: Seq<char>, active: ActivePanelSide) -> ActivePanelSide {
    if setting == "left"@ {
        ActivePanelSide::Left
    } else if setting == "right"@ {
        ActivePanelSide::Right
    } else if setting == "opposite"@ {
        if active == ActivePanelSide::Left { ActivePanelSide::Right } else { ActivePanelSide::Left }
    } else {
        if active == ActivePanelSide::Right { ActivePanelSide::Right } else { ActivePanelSide::Left }
    }
}

/// The panel a connection opens in; the setting defaults to `active`.
pub fn connection_target(setting: Option<&str>, active: ActivePanelSide) -> (r: ActivePanelSide)
    ensures
        r == target_side(
            match setting {
                Some(s) => s@,
                None => "active"@,
            },
            active,
        ),
{
    let s = match setting {
        Some(s) => s,
        None => "active",
    };
    if same_text(s, "left") {
        ActivePanelSide::Left
    } else if same_text(s, "right") {
        ActivePanelSide::Right
    } else if same_text(s, "opposite") {
        if active == ActivePanelSide::Left {
            ActivePanelSide::Right
        } else {
            ActivePanelSide::Left
        }
    } else {
        if active == ActivePanelSide::Right {
            ActivePanelSide::Right
        } else {
            ActivePanelSide::Left
        }
    }
}

/// What the remote interface is told when a terminal grows or shrinks:
/// the side's name and `true`, or an empty name and `false`.
pub fn expanded_notice(side: Option<ActivePanelSide>) -> (r: (&'static str, bool))
    ensures
        r.0@ == match side {
            Some(ActivePanelSide::Left) => "left"@,
            Some(ActivePanelSide::Right) => "right"@,
            _ => ""@,
        },
        r.1 == (side == Some(ActivePanelSide::Left) || side == Some(ActivePanelSide::Right)),
{
    match side {
        Some(ActivePanelSide::Left) => ("left", true),
        Some(ActivePanelSide::Right) => ("right", true),
        _ => ("", false),
    }
}

/// The last local folder of a panel's navigation: the relative path of the
/// deepest level that is on the local file system.
pub open spec fn last_local(levels: Seq<(bool, Seq<char>)>) -> Seq<char>
    decreases levels.len(),
{
    if levels.len() == 0 {
        Seq::empty()
    } else if levels.last().0 {
        levels.last().1
    } else {
        last_local(levels.drop_last())
    }
}

/// Navigation levels as (is local, relative path).
pub open spec fn level_views(levels: Seq<(bool, String)>) -> Seq<(bool, Seq<char>)> {
    levels.map_values(|l: (bool, String)| (l.0, l.1@))
}

/// The folder a panel remembers when the window closes: nothing when it
/// shows the source list or browses anything but the local file system;
/// else its deepest local folder.
pub fn saved_panel_path(showing_selector: bool, resource_id: &str, levels: &Vec<(bool, String)>) -> (r: String)
    ensures
        r@ == (if showing_selector || (resource_id@ != "local_fs"@ && resource_id@ != "root_fs"@) {
            Seq::empty()
        } else {
            last_local(level_views(levels@))
        }),
{
    if showing_selector {
        return String::new();
    }
    if !same_text(resource_id, "local_fs") && !same_text(resource_id, "root_fs") {
        return String::new();
    }
    let ghost lv = level_views(levels@);
    let mut i: usize = levels.len();
    assert(lv.take(i as int) =~= lv);
    while i > 0
        invariant
            0 <= i <= levels@.len(),
            !showing_selector,
            resource_id@ == "local_fs"@ || resource_id@ == "root_fs"@,
            lv == level_views(levels@),
            last_local(lv) == last_local(lv.take(i as int)),
        decreases i,
    {
        assert(lv.take(i as int).drop_last() =~= lv.take(i - 1));
        assert(lv.take(i as int).last() == (levels@[i - 1].0, levels@[i - 1].1@));
        if levels[i - 1].0 {
            assert(last_local(lv.take(i as int)) == levels@[i - 1].1@);
            let r = levels[i - 1].1.clone();
            assert(r@ == levels@[i - 1].1@);
            return r;
        }
        i = i - 1;
    }
    String::new()
}

/// Whether the master password is asked for at start: when secrets are
/// protected by it and the user asked for that (off by default).
pub fn asks_startup_password(protected_by_password: bool, require_setting: Option<bool>) -> (r: bool)
    ensures
        r == (protected_by_password && require_setting == Some(true)),
{
    protected_by_password && match require_setting {
        Some(b) => b,
        None => false,
    }
}

/// The text of the warning shown when the remote interface listens beyond
/// this machine: the warning, a blank line, then `label:  host:port`.
pub fn network_warning_text(warning: &str, label: &str, host: &str, port: u16) -> (r: String)
    ensures
        r@ == warning@ + "\n\n"@ + label@ + ":  "@ + host@ + ":"@ + decimal(port as nat),
{
    let mut v: Vec<char> = Vec::new();
    push_str(&mut v, warning);
    push_str(&mut v, "\n\n");
    push_str(&mut v, label);
    push_str(&mut v, ":  ");
    push_str(&mut v, host);
    push_str(&mut v, ":");
    let digits = to_decimal(port as u128);
    push_all(&mut v, &digits);
    string_of(v.as_slice())
}

/// Whether updates are looked for at start: unless an argument is
/// exactly `--no-check-update`.
pub fn checks_for_updates(args: &Vec<String>) -> (r: bool)
    ensures
        r == !has_flag(texts_of(args@), "--no-check-update"@),
{
    !crate::text::contains_string(args.as_slice(), "--no-check-update")
}

/// The port of the web interface when the window was started with
/// `--webui`: the number after `--port`, else 7878.
pub fn web_access_port(args: &Vec<String>) -> (r: Option<u16>)
    ensures
        r == (if has_flag(texts_of(args@), "--webui"@) { Some(port_of(texts_of(args@))) } else { None }),
{
    let opts = Application::launch_options(args);
    if opts.webui {
        Some(opts.port)
    } else {
        None
    }
}

/// The address the web-access button opens.
pub fn web_access_url(port: u16) -> (r: String)
    ensures
        r@ == "http://localhost:"@ + decimal(port as nat) + "/"@,
{
    let mut v: Vec<char> = Vec::new();
    push_str(&mut v, "http://localhost:");
    let digits = to_decimal(port as u128);
    push_all(&mut v, &digits);
    push_str(&mut v, "/");
    string_of(v.as_slice())
}

/// The theme button flips between light and dark: it returns the scheme
/// to force and the theme number to store (1 light, 2 dark).
pub open spec fn toggled(is_dark: bool) -> (ColorScheme, u32) {
    if is_dark { (ColorScheme::ForceLight, 1u32) } else { (ColorScheme::ForceDark, 2u32) }
}

/// The theme button's effect.
pub fn theme_toggle(is_dark: bool) -> (r: (ColorScheme, u32))
    ensures
        r == toggled(is_dark),
{
    if is_dark {
        (ColorScheme::ForceLight, 1)
    } else {
        (ColorScheme::ForceDark, 2)
    }
}

/// Storing the toggled theme and reading it back at the next start gives
/// the scheme the toggle forced.
pub proof fn law_toggled_theme_reads_back(is_dark: bool)
    ensures
        scheme_of(Some(toggled(is_dark).1)) == toggled(is_dark).0,
{
}

/// The count shown beside the connections button: `(n)`.
pub fn connections_badge(count: usize) -> (r: String)
    ensures
        r@ == "("@ + decimal(count as nat) + ")"@,
{
    let mut v: Vec<char> = Vec::new();
    push_str(&mut v, "(");
    let digits = to_decimal(count as u128);
    push_all(&mut v, &digits);
    push_str(&mut v, ")");
    string_of(v.as_slice())
}

} // verus!
