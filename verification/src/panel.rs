use vstd::prelude::*;
use crate::naming::ClipKind;
use crate::text::{chars_of, contains_text, has_substring, lowercase, push_str, same_text, string_of, to_lowercase};

verus! {

/// The id a panel gives its file view, from the panel's name.
#[derive(Clone, Copy, PartialEq, Eq, Debug, Structural)]
pub enum PanelId {
    Left,
    Right,
    Default,
}

/// `left` when the name mentions it in any case, else `right` when it
/// mentions that, else `default`.
pub open spec fn panel_id_of(name: Seq<char>) -> PanelId {
    if contains_text(lowercase(name), "left"@) {
        PanelId::Left
    } else if contains_text(lowercase(name), "right"@) {
        PanelId::Right
    } else {
        PanelId::Default
    }
}

/// The id of a panel's file view.
pub fn panel_id(name: &str) -> (r: PanelId)
    ensures
        r == panel_id_of(name@),
{
    let lower = to_lowercase(name);
    let hay = chars_of(lower.as_str());
    if has_substring(&hay, &chars_of("left")) {
        PanelId::Left
    } else if has_substring(&hay, &chars_of("right")) {
        PanelId::Right
    } else {
        PanelId::Default
    }
}

/// The page a side view goes back to: the page shown before it, or the
/// source list when none was.
pub fn page_to_return_to(visible: Option<String>) -> (r: String)
    ensures
        r@ == match visible {
            Some(p) => p@,
            None => "selector"@,
        },
{
    match visible {
        Some(p) => p,
        None => "selector".to_owned(),
    }
}

/// Whether a page of the tab's stack counts as the source list: any page
/// but the file view does.
pub fn is_selector_page(visible: Option<&str>) -> (r: bool)
    ensures
        r == !(visible matches Some(p) && p@ == "filemanager"@),
{
    match visible {
        Some(p) => !same_text(p, "filemanager"),
        None => true,
    }
}

/// The page a new tab starts on: the file view when it opens at an
/// existing path, else the source list.
pub fn starts_in_files(path: &Option<String>, exists: bool) -> (r: bool)
    ensures
        r == (path matches Some(p) && p@.len() > 0 && exists),
{
    match path {
        Some(p) => !p.as_str().is_empty() && exists,
        None => false,
    }
}

/// How an activated file is opened.
#[derive(Clone, Copy, PartialEq, Eq, Debug, Structural)]
pub enum FileOpening {
    /// Handed to an associated or the system's program.
    External,
    /// Played in the audio player.
    Play,
    /// Shown in the built-in viewer.
    View,
}

/// A file with an associated program, or any file when the fallback is
/// the system's program, goes out; otherwise audio plays and the rest is
/// viewed.
pub fn file_opening(has_association: bool, fallback_is_system: bool, is_audio: bool) -> (r: FileOpening)
    ensures
        r == (if has_association || fallback_is_system {
            FileOpening::External
        } else if is_audio {
            FileOpening::Play
        } else {
            FileOpening::View
        }),
{
    if has_association || fallback_is_system {
        FileOpening::External
    } else if is_audio {
        FileOpening::Play
    } else {
        FileOpening::View
    }
}

/// The full path of an entry of `dir`.
pub open spec fn entry_full_path(dir: Seq<char>, name: Seq<char>) -> Seq<char> {
    if dir == "/"@ { "/"@ + name } else { dir + "/"@ + name }
}

/// The playlist made from the audio files of a folder, in folder order, as
/// (name, full path).
pub open spec fn playlist_of(dir: Seq<char>, names: Seq<Seq<char>>, audio: Seq<bool>) -> Seq<(Seq<char>, Seq<char>)>
    decreases names.len(),
{
    if names.len() == 0 {
        Seq::empty()
    } else {
        let rest = playlist_of(dir, names.drop_last(), audio.drop_last());
        if audio[names.len() - 1] { rest.push((names.last(), entry_full_path(dir, names.last()))) } else { rest }
    }
}

/// The last position of the playlist whose full path is `path`.
pub open spec fn track_of(list: Seq<(Seq<char>, Seq<char>)>, path: Seq<char>) -> Option<int>
    decreases list.len(),
{
    if list.len() == 0 {
        None
    } else if list.last().1 == path {
        Some(list.len() - 1)
    } else {
        track_of(list.drop_last(), path)
    }
}

fn full_path(dir: &str, name: &str) -> (r: String)
    ensures
        r@ == entry_full_path(dir@, name@),
{
    let mut v: Vec<char> = Vec::new();
    if same_text(dir, "/") {
        push_str(&mut v, "/");
        push_str(&mut v, name);
    } else {
        push_str(&mut v, dir);
        push_str(&mut v, "/");
        push_str(&mut v, name);
    }
    string_of(v.as_slice())
}

/// Builds the playlist for an audio file activated at `path` in `dir`:
/// the folder's audio files, marked by `audio`, and the track to start.
pub fn audio_playlist(dir: &str, names: &Vec<String>, audio: &Vec<bool>, path: &str) -> (r: (
    Vec<(String, String)>,
    Option<usize>,
))
    requires
        names@.len() == audio@.len(),
    ensures
        crate::shares::pair_texts(r.0@) == playlist_of(dir@, crate::text::texts_of(names@), audio@),
        match r.1 {
            Some(i) => track_of(playlist_of(dir@, crate::text::texts_of(names@), audio@), path@) == Some(i as int),
            None => track_of(playlist_of(dir@, crate::text::texts_of(names@), audio@), path@) is None,
        },
{
    let ghost nv = crate::text::texts_of(names@);
    let mut list: Vec<(String, String)> = Vec::new();
    let mut active: Option<usize> = None;
    let mut i: usize = 0;
    assert(nv.take(0) =~= Seq::<Seq<char>>::empty());
    assert(audio@.take(0) =~= Seq::<bool>::empty());
    while i < names.len()
        invariant
            0 <= i <= names@.len(),
            names@.len() == audio@.len(),
            nv == crate::text::texts_of(names@),
            crate::shares::pair_texts(list@) == playlist_of(dir@, nv.take(i as int), audio@.take(i as int)),
            match active {
                Some(k) => track_of(crate::shares::pair_texts(list@), path@) == Some(k as int),
                None => track_of(crate::shares::pair_texts(list@), path@) is None,
            },
        decreases names.len() - i,
    {
        let ghost before = list@;
        assert(nv.take(i + 1).drop_last() =~= nv.take(i as int));
        assert(audio@.take(i + 1).drop_last() =~= audio@.take(i as int));
        assert(nv.take(i + 1).last() == names@[i as int]@);
        if audio[i] {
            let full = full_path(dir, names[i].as_str());
            let is_active = same_text(full.as_str(), path);
            let entry = (names[i].clone(), full);
            list.push(entry);
            assert(crate::shares::pair_texts(list@) =~= crate::shares::pair_texts(before).push((entry.0@, entry.1@)));
            let ghost pl = crate::shares::pair_texts(list@);
            assert(pl.drop_last() =~= crate::shares::pair_texts(before));
            if is_active {
                active = Some(list.len() - 1);
            }
        } else {
            assert(playlist_of(dir@, nv.take(i + 1), audio@.take(i + 1)) == playlist_of(dir@, nv.take(i as int), audio@.take(i as int)));
        }
        i = i + 1;
    }
    assert(nv.take(names@.len() as int) =~= nv);
    assert(audio@.take(names@.len() as int) =~= audio@);
    (list, active)
}

/// The size the viewer shows for a file: the first entry of that name in
/// the folder, else 0.
pub fn entry_size(names: &Vec<String>, sizes: &Vec<u64>, name: &str) -> (r: u64)
    requires
        names@.len() == sizes@.len(),
    ensures
        (exists|i: int| 0 <= i < names@.len() && names@[i]@ == name@) ==> exists|i: int|
            0 <= i < names@.len() && names@[i]@ == name@ && r == sizes@[i] && forall|j: int|
                0 <= j < i ==> names@[j]@ != name@,
        (forall|i: int| 0 <= i < names@.len() ==> names@[i]@ != name@) ==> r == 0,
{
    let mut i: usize = 0;
    while i < names.len()
        invariant
            0 <= i <= names@.len(),
            names@.len() == sizes@.len(),
            forall|j: int| 0 <= j < i ==> names@[j]@ != name@,
        decreases names.len() - i,
    {
        if same_text(names[i].as_str(), name) {
            return sizes[i];
        }
        i = i + 1;
    }
    0
}

/// The name a mounted peer drive gets: `P2P_` and the first four
/// characters of the resource id.
pub fn mount_drive_name(resource_id: &str) -> (r: String)
    ensures
        r@ == "P2P_"@ + resource_id@.take(if resource_id@.len() < 4 { resource_id@.len() as int } else { 4 }),
{
    let chars = chars_of(resource_id);
    let mut v: Vec<char> = Vec::new();
    push_str(&mut v, "P2P_");
    let ghost start = v@;
    let n: usize = if chars.len() < 4 { chars.len() } else { 4 };
    let mut i: usize = 0;
    while i < n
        invariant
            0 <= i <= n,
            n <= chars@.len(),
            chars@ == resource_id@,
            v@ == start + chars@.take(i as int),
        decreases n - i,
    {
        v.push(chars[i]);
        assert(chars@.take(i + 1) =~= chars@.take(i as int).push(chars@[i as int]));
        i = i + 1;
    }
    string_of(v.as_slice())
}

/// What the mount button does for a peer drive.
#[derive(Clone, Copy, PartialEq, Eq, Debug, Structural)]
pub enum MountStep {
    /// It is mounted: unmount it.
    Unmount,
    /// Mount it through the drive's bridge.
    Mount,
    /// Not mounted and no bridge: nothing.
    Nothing,
}

/// The mount button toggles: unmount when mounted, else mount when the
/// drive offers a bridge.
pub fn mount_step(mounted: bool, has_bridge: bool) -> (r: MountStep)
    ensures
        r == (if mounted {
            MountStep::Unmount
        } else if has_bridge {
            MountStep::Mount
        } else {
            MountStep::Nothing
        }),
{
    if mounted {
        MountStep::Unmount
    } else if has_bridge {
        MountStep::Mount
    } else {
        MountStep::Nothing
    }
}

/// What the file view's cut and copy do to the clipboard.
pub fn clip_kind_for(cut: bool) -> (r: ClipKind)
    ensures
        r == (if cut { ClipKind::Cut } else { ClipKind::Copy }),
{
    if cut {
        ClipKind::Cut
    } else {
        ClipKind::Copy
    }
}

/// What the bottom area of a tab shows; the area itself is on screen
/// exactly when one of the two is.
pub struct BottomPane {
    pub terminal: bool,
    pub player: bool,
}

/// Where the divider goes when the player sits alone: its natural height
/// from the bottom, or a sixth of the height when it does not fit.
pub open spec fn player_alone_position(height: int, natural: int) -> int {
    if height > natural { height - natural } else { height * 5 / 6 }
}

impl BottomPane {
    /// Whether the bottom area is on screen.
    pub open spec fn visible(&self) -> bool {
        self.terminal || self.player
    }

    /// Shows the player; returns where the divider goes.
    pub fn show_player(&mut self, height: i32, natural: i32) -> (pos: i32)
        requires
            0 <= height,
            0 <= natural,
            old(self).terminal ==> height * 3 <= i32::MAX,
            !old(self).terminal && height <= natural ==> height * 5 <= i32::MAX,
        ensures
            final(self).player,
            final(self).terminal == old(self).terminal,
            pos == (if old(self).terminal { height * 3 / 5 } else { player_alone_position(height as int, natural as int) }),
    {
        self.player = true;
        if !self.terminal {
            if height > natural {
                height - natural
            } else {
                height * 5 / 6
            }
        } else {
            height * 3 / 5
        }
    }

    /// Hides the player; returns where the divider goes when the terminal
    /// stays, and nothing when the area goes away.
    pub fn hide_player(&mut self, height: i32) -> (pos: Option<i32>)
        requires
            0 <= height,
            old(self).terminal ==> height * 2 <= i32::MAX,
        ensures
            !final(self).player,
            final(self).terminal == old(self).terminal,
            pos == (if old(self).terminal { Some((height * 2 / 3) as i32) } else { None }),
    {
        self.player = false;
        if self.terminal {
            Some(height * 2 / 3)
        } else {
            None
        }
    }

    /// Opens the terminal unless it is open; returns where the divider
    /// goes, or nothing when it was open already (then nothing changes and
    /// no session starts).
    pub fn open_terminal(&mut self, height: i32) -> (pos: Option<i32>)
        requires
            0 <= height,
            !old(self).terminal && old(self).player ==> height * 3 <= i32::MAX,
            !old(self).terminal && !old(self).player ==> height * 2 <= i32::MAX,
        ensures
            final(self).terminal,
            final(self).player == old(self).player,
            pos == (if old(self).terminal {
                None
            } else if old(self).player {
                Some((height * 3 / 5) as i32)
            } else {
                Some((height * 2 / 3) as i32)
            }),
    {
        if self.terminal {
            return None;
        }
        self.terminal = true;
        if self.player {
            Some(height * 3 / 5)
        } else {
            Some(height * 2 / 3)
        }
    }

    /// Closes the terminal, which was open; returns where the divider goes
    /// when the player stays, and nothing when the area goes away.
    pub fn close_terminal(&mut self, height: i32, natural: i32) -> (pos: Option<i32>)
        requires
            0 <= height,
            0 <= natural,
            old(self).player && height <= natural ==> height * 5 <= i32::MAX,
        ensures
            !final(self).terminal,
            final(self).player == old(self).player,
            pos == (if old(self).player { Some(player_alone_position(height as int, natural as int) as i32) } else { None }),
    {
        self.terminal = false;
        if self.player {
            if height > natural {
                Some(height - natural)
            } else {
                Some(height * 5 / 6)
            }
        } else {
            None
        }
    }
}

/// Toggling the terminal twice leaves the bottom area as it was.
pub proof fn law_toggle_terminal_twice(before: BottomPane, mid: BottomPane, after: BottomPane)
    requires
        mid.terminal == !before.terminal,
        mid.player == before.player,
        after.terminal == !mid.terminal,
        after.player == mid.player,
    ensures
        after == before,
        after.visible() == before.visible(),
{
}

/// The folder a new terminal starts in: the first selected entry when it
/// is a folder other than `..`, else the folder on show.
pub fn terminal_cwd(current: String, first_selected: Option<(bool, String, String)>) -> (r: String)
    ensures
        r@ == match first_selected {
            Some((is_dir, name, path)) => if is_dir && name@ != ".."@ { path@ } else { current@ },
            None => current@,
        },
{
    match first_selected {
        Some((is_dir, name, path)) => if is_dir && !same_text(name.as_str(), "..") {
            path
        } else {
            current
        },
        None => current,
    }
}

/// A second after a terminal session ends, the terminal closes when it is
/// still on show and no new session has started since.
pub fn close_after_session_end(visible: bool, generation_at_end: u64, generation_now: u64) -> (r: bool)
    ensures
        r == (visible && generation_at_end == generation_now),
{
    visible && generation_at_end == generation_now
}

} // verus!
