use vstd::prelude::*;
use vstd::utf8::{decode_utf8, valid_utf8};
use crate::connections::{debug_quoted, debug_str, kept_secret, opt_text};
use crate::drives::{AppDrive, DriveAction, DriveItem, MountKind};
use crate::text::{chars_of, find_last, last_index, lemma_last_index, push_str, same_text, string_of, texts_of, to_uppercase, uppercase};
use chrono::TimeZone;

verus! {

/// The path of an entry named `name` in the folder shown as `display`.
pub open spec fn entry_path_of(display: Seq<char>, name: Seq<char>) -> Seq<char> {
    if display == "/"@ { "/"@ + name } else { display + "/"@ + name }
}

/// The full path of an entry of the shown folder.
pub fn entry_path(display: &str, name: &str) -> (r: String)
    ensures
        r@ == entry_path_of(display@, name@),
{
    let mut v: Vec<char> = Vec::new();
    if same_text(display, "/") {
        push_str(&mut v, "/");
        push_str(&mut v, name);
    } else {
        push_str(&mut v, display);
        push_str(&mut v, "/");
        push_str(&mut v, name);
    }
    string_of(v.as_slice())
}

/// `s` without the `/`s at its end.
pub open spec fn without_trailing_slashes(s: Seq<char>) -> Seq<char>
    decreases s.len(),
{
    if s.len() > 0 && s.last() == '/' { without_trailing_slashes(s.drop_last()) } else { s }
}

fn strip_trailing_slashes(s: &str) -> (r: Vec<char>)
    ensures
        r@ == without_trailing_slashes(s@),
{
    let chars = chars_of(s);
    let mut k: usize = chars.len();
    assert(s@.take(s@.len() as int) =~= s@);
    while k > 0 && chars[k - 1] == '/'
        invariant
            0 <= k <= chars.len(),
            chars@ == s@,
            without_trailing_slashes(s@) == without_trailing_slashes(s@.take(k as int)),
        decreases k,
    {
        assert(s@.take(k as int).drop_last() =~= s@.take(k - 1));
        k = k - 1;
    }
    let mut out: Vec<char> = Vec::new();
    let mut i: usize = 0;
    while i < k
        invariant
            0 <= i <= k <= chars.len(),
            chars@ == s@,
            out@ == s@.take(i as int),
        decreases k - i,
    {
        out.push(chars[i]);
        i = i + 1;
        assert(out@ =~= s@.take(i as int));
    }
    out
}

/// `folder/name`, with the folder's trailing `/`s dropped first.
pub open spec fn joined(folder: Seq<char>, name: Seq<char>) -> Seq<char> {
    without_trailing_slashes(folder) + "/"@ + name
}

/// Where a copied file goes: into `dst_folder`, under `name`.
pub fn join_into(dst_folder: &str, name: &str) -> (r: String)
    ensures
        r@ == joined(dst_folder@, name@),
{
    let mut v = strip_trailing_slashes(dst_folder);
    push_str(&mut v, "/");
    push_str(&mut v, name);
    string_of(v.as_slice())
}

/// The path an entry gets when renamed to `new_name` in its own folder.
pub open spec fn renamed_entry(old_path: Seq<char>, new_name: Seq<char>) -> Seq<char> {
    let parent = match crate::folders::parent_of(old_path) {
        Some(p) => p,
        None => Seq::empty(),
    };
    joined(parent, new_name)
}

/// The new path for renaming `old_path` to `new_name`.
pub fn rename_target(old_path: &str, new_name: &str) -> (r: String)
    ensures
        r@ == renamed_entry(old_path@, new_name@),
{
    let parent = match crate::folders::parent_folder(old_path) {
        Some(p) => p,
        None => String::new(),
    };
    join_into(parent.as_str(), new_name)
}

/// The kind and path of a drive as the API lists it.
pub fn api_drive_kind(item: &DriveItem, home: &str) -> (r: (&'static str, String))
    ensures
        match item {
            DriveItem::RootFs => r.0@ == "root"@ && r.1@ == "/"@,
            DriveItem::UserHome => r.0@ == "home"@ && r.1@ == home@,
            DriveItem::LocalDrive(p) => r.0@ == "drive"@ && r.1@ == p@,
            DriveItem::Volume { .. } => r.0@ == "volume"@ && r.1@.len() == 0,
            DriveItem::NetConnection(_) => r.0@ == "net"@ && r.1@.len() == 0,
            DriveItem::RemotePeer { .. } => r.0@ == "peer"@ && r.1@.len() == 0,
        },
{
    match item {
        DriveItem::RootFs => ("root", "/".to_owned()),
        DriveItem::UserHome => ("home", home.to_owned()),
        DriveItem::LocalDrive(p) => ("drive", p.clone()),
        DriveItem::Volume { .. } => ("volume", String::new()),
        DriveItem::NetConnection(_) => ("net", String::new()),
        DriveItem::RemotePeer { .. } => ("peer", String::new()),
    }
}

/// The first drive with the given key.
pub fn find_drive(drives: &Vec<AppDrive>, key: &str) -> (r: Option<usize>)
    ensures
        match r {
            Some(i) => i < drives@.len() && drives@[i as int].key@ == key@ && forall|j: int| 0 <= j < i ==> (#[trigger] drives@[j]).key@ != key@,
            None => forall|j: int| 0 <= j < drives@.len() ==> (#[trigger] drives@[j]).key@ != key@,
        },
{
    let mut i: usize = 0;
    while i < drives.len()
        invariant
            0 <= i <= drives.len(),
            forall|j: int| 0 <= j < i ==> (#[trigger] drives@[j]).key@ != key@,
        decreases drives.len() - i,
    {
        if same_text(drives[i].key.as_str(), key) {
            return Some(i);
        }
        i = i + 1;
    }
    None
}

/// The API's answer to opening a source: an unknown key is refused, a
/// volume must be mounted in the desktop app, a build without peers does
/// nothing, and anything else is shown (the result then says to leave the
/// source selector).
pub fn activation_reply(action: Option<&DriveAction>, key: &str) -> (r: Result<bool, String>)
    ensures
        match action {
            None => r matches Err(e) && e@ == "unknown source key: "@ + key@,
            Some(DriveAction::NeedsAsyncMount) => r matches Err(e) && e@ == "Mount this drive in the desktop app first"@,
            Some(DriveAction::Noop) => r == Ok::<bool, String>(false),
            Some(_) => r == Ok::<bool, String>(true),
        },
{
    match action {
        None => {
            let mut v: Vec<char> = Vec::new();
            push_str(&mut v, "unknown source key: ");
            push_str(&mut v, key);
            Err(string_of(v.as_slice()))
        },
        Some(DriveAction::NeedsAsyncMount) => Err("Mount this drive in the desktop app first".to_owned()),
        Some(DriveAction::Noop) => Ok(false),
        Some(_) => Ok(true),
    }
}

/// `String::from_utf8`: the text the bytes encode, when they are valid
/// UTF-8 (as the standard library documents it).
#[verifier::external_body]
fn utf8_text(bytes: Vec<u8>) -> (r: Option<String>)
    ensures
        r is Some <==> valid_utf8(bytes@),
        r matches Some(s) ==> s@ == decode_utf8(bytes@),
{
    String::from_utf8(bytes).ok()
}

/// The largest file the API shows as text: 2 MiB.
pub const MAX_TEXT_BYTES: usize = 2097152;

/// How the API returns a file's content: as text when it is at most 2 MiB
/// of valid UTF-8, else as binary (with no text).
pub fn file_content(bytes: Vec<u8>) -> (r: (String, bool))
    ensures
        bytes@.len() > MAX_TEXT_BYTES ==> r.0@.len() == 0 && r.1,
        bytes@.len() <= MAX_TEXT_BYTES && valid_utf8(bytes@) ==> r.0@ == decode_utf8(bytes@) && !r.1,
        bytes@.len() <= MAX_TEXT_BYTES && !valid_utf8(bytes@) ==> r.0@.len() == 0 && r.1,
{
    if bytes.len() > MAX_TEXT_BYTES {
        return (String::new(), true);
    }
    match utf8_text(bytes) {
        Some(t) => (t, false),
        None => (String::new(), true),
    }
}

/// The largest file the API streams: 100 MiB.
pub const MAX_STREAM_BYTES: usize = 104857600;

/// Whether a file of `len` bytes may be streamed, or why not.
pub fn stream_allowed(len: usize) -> (r: Result<(), String>)
    ensures
        len > MAX_STREAM_BYTES ==> (r matches Err(e) && e@ == "file too large to stream (100 MB max)"@),
        len <= MAX_STREAM_BYTES ==> r is Ok,
{
    if len > MAX_STREAM_BYTES {
        Err("file too large to stream (100 MB max)".to_owned())
    } else {
        Ok(())
    }
}

/// Checks that every key a client wants to set is a public setting; the
/// error names the first one that is not.
pub fn check_settings_keys(keys: &Vec<String>, allowed: &Vec<String>) -> (r: Result<(), String>)
    ensures
        r is Ok <==> forall|i: int| 0 <= i < keys@.len() ==> texts_of(allowed@).contains(#[trigger] texts_of(keys@)[i]),
        r matches Err(e) ==> exists|i: int|
            0 <= i < keys@.len() && !texts_of(allowed@).contains(#[trigger] texts_of(keys@)[i]) && (forall|j: int|
                0 <= j < i ==> texts_of(allowed@).contains(#[trigger] texts_of(keys@)[j])) && e@ == debug_quoted(
                texts_of(keys@)[i],
            ) + " is not a settable setting"@,
{
    let ghost ks = texts_of(keys@);
    let ghost al = texts_of(allowed@);
    let mut i: usize = 0;
    while i < keys.len()
        invariant
            0 <= i <= keys.len(),
            ks == texts_of(keys@),
            al == texts_of(allowed@),
            forall|j: int| 0 <= j < i ==> al.contains(#[trigger] ks[j]),
        decreases keys.len() - i,
    {
        let found = crate::text::contains_string(allowed.as_slice(), keys[i].as_str());
        assert(ks[i as int] == keys@[i as int]@);
        if !found {
            let mut v: Vec<char> = Vec::new();
            let q = debug_str(keys[i].as_str());
            push_str(&mut v, q.as_str());
            push_str(&mut v, " is not a settable setting");
            assert(!al.contains(ks[i as int]));
            return Err(string_of(v.as_slice()));
        }
        i = i + 1;
    }
    Ok(())
}

/// Whether there is anything to export, or why not.
pub fn export_allowed(count: usize) -> (r: Result<(), String>)
    ensures
        count == 0 ==> (r matches Err(e) && e@ == "no saved connections to export"@),
        count > 0 ==> r is Ok,
{
    if count == 0 {
        Err("no saved connections to export".to_owned())
    } else {
        Ok(())
    }
}

/// A password given with an export or import; an empty one counts as none.
pub fn given_password(pw: Option<String>) -> (r: Option<String>)
    ensures
        opt_text(r) == match opt_text(pw) {
            Some(p) => if p.len() > 0 { Some(p) } else { None },
            None => None,
        },
{
    match pw {
        Some(p) => if !p.as_str().is_empty() { Some(p) } else { None },
        None => None,
    }
}

/// A secret for connecting: the one the client sent, which is stored
/// encrypted and must be decrypted (second result), or, when it sent none
/// or an empty one, the saved connection's own.
pub fn connect_secret(incoming: Option<String>, saved: Option<String>) -> (r: (Option<String>, bool))
    ensures
        opt_text(r.0) == kept_secret(opt_text(incoming), opt_text(saved)),
        r.1 == (opt_text(incoming) matches Some(v) && v.len() > 0),
{
    match incoming {
        Some(v) => if !v.as_str().is_empty() { (Some(v), true) } else { (saved, false) },
        None => (saved, false),
    }
}

/// The provider the API connects with; any protocol but FTP, WebDAV and
/// SFTP is refused.
pub fn api_provider(protocol: &str) -> (r: Result<MountKind, String>)
    ensures
        match r {
            Ok(k) => (uppercase(protocol@) == "FTP"@ && k == MountKind::Ftp) || (uppercase(protocol@) == "WEBDAV"@ && k
                == MountKind::Webdav) || (uppercase(protocol@) == "SFTP"@ && k == MountKind::Sftp),
            Err(e) => e@ == "Unknown protocol: "@ + protocol@ && uppercase(protocol@) != "FTP"@ && uppercase(protocol@)
                != "WEBDAV"@ && uppercase(protocol@) != "SFTP"@,
        },
{
    let up = to_uppercase(protocol);
    if same_text(up.as_str(), "FTP") {
        Ok(MountKind::Ftp)
    } else if same_text(up.as_str(), "WEBDAV") {
        Ok(MountKind::Webdav)
    } else if same_text(up.as_str(), "SFTP") {
        Ok(MountKind::Sftp)
    } else {
        let mut v: Vec<char> = Vec::new();
        push_str(&mut v, "Unknown protocol: ");
        push_str(&mut v, protocol);
        Err(string_of(v.as_slice()))
    }
}

/// Whether an account is signed in: it has a refresh token.
pub fn logged_in(token: &Option<String>) -> (r: bool)
    ensures
        r == (opt_text(*token) matches Some(t) && t.len() > 0),
{
    match token {
        Some(t) => !t.as_str().is_empty(),
        None => false,
    }
}

/// Files and bytes done by a copy the API runs.
#[derive(Clone, Copy, PartialEq, Eq, Debug, Structural)]
pub struct BatchProgress {
    pub files: usize,
    pub bytes: u64,
}

/// One more file done, of `len` bytes (0 when it could not be read).
pub fn batch_step(p: BatchProgress, len: u64) -> (r: BatchProgress)
    requires
        p.files < usize::MAX,
        p.bytes + len <= u64::MAX,
    ensures
        r.files == p.files + 1,
        r.bytes == p.bytes + len,
{
    BatchProgress { files: p.files + 1, bytes: p.bytes + len }
}


/// The part of `s` after its last `/` (all of it when there is none).
pub open spec fn after_last_slash(s: Seq<char>) -> Seq<char> {
    match last_index(s, '/') {
        Some(p) => s.subrange(p + 1, s.len() as int),
        None => s,
    }
}

fn last_segment(path: &str) -> (r: String)
    ensures
        r@ == after_last_slash(path@),
{
    let v = chars_of(path);
    proof {
        lemma_last_index(path@, '/');
    }
    match find_last(&v, '/') {
        Some(p) => {
            assert(last_index(path@, '/') == Some(p as int));
            assert(p < v.len());
            let mut out: Vec<char> = Vec::new();
            let mut i: usize = p + 1;
            while i < v.len()
                invariant
                    p < i <= v.len(),
                    v@ == path@,
                    out@ == path@.subrange(p + 1, i as int),
                decreases v.len() - i,
            {
                out.push(v[i]);
                i = i + 1;
                assert(out@ =~= path@.subrange(p + 1, i as int));
            }
            string_of(out.as_slice())
        },
        None => path.to_string(),
    }
}

/// What an API copy of `src_path` into `dst_folder` shows and writes: the
/// file's name (the part of the path after its last `/`) and the path of
/// the copy.
pub fn batch_target(src_path: &str, dst_folder: &str) -> (r: (String, String))
    ensures
        r.0@ == after_last_slash(src_path@),
        r.1@ == joined(dst_folder@, after_last_slash(src_path@)),
{
    let name = last_segment(src_path);
    let dst = join_into(dst_folder, name.as_str());
    (name, dst)
}

/// A level of a panel's path as the panel knows it: its name, the name the
/// file system gives itself (if any), the path of that file system's icon,
/// and whether the level's name is that of an archive.
pub struct LevelInfo {
    pub name: String,
    pub display_name: Option<String>,
    pub icon: String,
    pub is_archive: bool,
}

/// A level of a panel's path as the web interface shows it.
pub struct ApiLevel {
    pub name: String,
    pub is_archive: bool,
    pub label: Option<String>,
    pub icon: Option<String>,
}

/// A path level as plain values: name, display name, icon, archive flag.
pub open spec fn level_info_view(l: LevelInfo) -> (Seq<char>, Option<Seq<char>>, Seq<char>, bool) {
    (l.name@, opt_text(l.display_name), l.icon@, l.is_archive)
}

/// A shown level as plain values: name, archive flag, label, icon.
pub open spec fn api_level_view(l: ApiLevel) -> (Seq<char>, bool, Option<Seq<char>>, Option<Seq<char>>) {
    (l.name@, l.is_archive, opt_text(l.label), opt_text(l.icon))
}

/// How level `i` is shown: only the first level carries the file system's
/// label, and with it the file name of its icon; a level counts as an
/// archive only past the first.
pub open spec fn api_level_of(i: int, l: (Seq<char>, Option<Seq<char>>, Seq<char>, bool)) -> (
    Seq<char>,
    bool,
    Option<Seq<char>>,
    Option<Seq<char>>,
) {
    let label = if i == 0 { l.1 } else { None };
    let icon = match label {
        Some(_) => Some(after_last_slash(l.2)),
        None => None,
    };
    (l.0, i > 0 && l.3, label, icon)
}

/// The levels of a panel's path as the web interface shows them.
pub fn api_levels(levels: &Vec<LevelInfo>) -> (r: Vec<ApiLevel>)
    ensures
        r@.len() == levels@.len(),
        forall|i: int| 0 <= i < levels@.len() ==> api_level_view(#[trigger] r@[i]) == api_level_of(i, level_info_view(levels@[i])),
{
    let mut r: Vec<ApiLevel> = Vec::new();
    let mut i: usize = 0;
    while i < levels.len()
        invariant
            0 <= i <= levels@.len(),
            r@.len() == i,
            forall|j: int| 0 <= j < i ==> api_level_view(#[trigger] r@[j]) == api_level_of(j, level_info_view(levels@[j])),
        decreases levels.len() - i,
    {
        let l = &levels[i];
        let label = if i == 0 { l.display_name.clone() } else { None };
        let icon = match &label {
            Some(_) => Some(last_segment(l.icon.as_str())),
            None => None,
        };
        r.push(ApiLevel { name: l.name.clone(), is_archive: i > 0 && l.is_archive, label, icon });
        i = i + 1;
    }
    r
}

/// A directory entry as the panel lists it: name, kind, size, modification
/// time in seconds since 1970 (0 when unknown), and whether the panel hides
/// it (hidden files while they are not shown).
pub struct EntryInfo {
    pub name: String,
    pub is_dir: bool,
    pub size: u64,
    pub modified: u64,
    pub skipped: bool,
}

/// A directory entry as the web interface shows it.
pub struct ApiFileEntry {
    pub path: String,
    pub is_dir: bool,
    pub size: Option<u64>,
    pub modified: Option<String>,
    pub name: String,
}

/// A listed entry as plain values: name, kind, size, time, hidden flag.
pub open spec fn entry_info_view(e: EntryInfo) -> (Seq<char>, bool, u64, u64, bool) {
    (e.name@, e.is_dir, e.size, e.modified, e.skipped)
}

/// A shown entry as plain values: path, kind, size, time, name.
pub open spec fn api_entry_view(e: ApiFileEntry) -> (Seq<char>, bool, Option<u64>, Option<Seq<char>>, Seq<char>) {
    (e.path@, e.is_dir, e.size, opt_text(e.modified), e.name@)
}

/// How an entry of the folder shown as `display` appears, `time` being its
/// modification time as the machine's clock shows it: folders have no
/// size, and an unknown time (0) is not shown.
pub open spec fn api_entry_of(display: Seq<char>, e: (Seq<char>, bool, u64, u64, bool), time: Option<Seq<char>>) -> (
    Seq<char>,
    bool,
    Option<u64>,
    Option<Seq<char>>,
    Seq<char>,
) {
    (
        entry_path_of(display, e.0),
        e.1,
        if e.1 { None } else { Some(e.2) },
        if e.3 != 0 { time } else { None },
        e.0,
    )
}

/// The entries the web interface shows, in order: the hidden ones left out,
/// `times[i]` being the shown time of `es[i]`.
pub open spec fn api_entries_of(
    display: Seq<char>,
    es: Seq<(Seq<char>, bool, u64, u64, bool)>,
    times: Seq<Option<Seq<char>>>,
) -> Seq<(Seq<char>, bool, Option<u64>, Option<Seq<char>>, Seq<char>)>
    decreases es.len(),
{
    if es.len() == 0 {
        Seq::empty()
    } else {
        let rest = api_entries_of(display, es.drop_last(), times.take(es.len() - 1));
        if es.last().4 {
            rest
        } else {
            rest.push(api_entry_of(display, es.last(), times[es.len() - 1]))
        }
    }
}

/// The listed entries as plain values.
pub open spec fn entry_infos(es: Seq<EntryInfo>) -> Seq<(Seq<char>, bool, u64, u64, bool)> {
    es.map_values(|e: EntryInfo| entry_info_view(e))
}

/// The shown entries as plain values.
pub open spec fn api_entry_views(es: Seq<ApiFileEntry>) -> Seq<(Seq<char>, bool, Option<u64>, Option<Seq<char>>, Seq<char>)> {
    es.map_values(|e: ApiFileEntry| api_entry_view(e))
}

/// The entries of the folder shown as `display`, as the web interface
/// shows them, given the shown modification time of each entry.
pub fn api_entries(display: &str, entries: &Vec<EntryInfo>, times: &Vec<Option<String>>) -> (r: Vec<ApiFileEntry>)
    requires
        times@.len() == entries@.len(),
    ensures
        api_entry_views(r@) == api_entries_of(display@, entry_infos(entries@), times@.map_values(|t: Option<String>| opt_text(t))),
{
    let ghost es = entry_infos(entries@);
    let ghost ts = times@.map_values(|t: Option<String>| opt_text(t));
    let mut r: Vec<ApiFileEntry> = Vec::new();
    let mut i: usize = 0;
    while i < entries.len()
        invariant
            0 <= i <= entries@.len(),
            times@.len() == entries@.len(),
            es == entry_infos(entries@),
            ts == times@.map_values(|t: Option<String>| opt_text(t)),
            api_entry_views(r@) == api_entries_of(display@, es.take(i as int), ts.take(i as int)),
        decreases entries.len() - i,
    {
        let e = &entries[i];
        assert(es.take(i + 1).drop_last() =~= es.take(i as int));
        assert(ts.take(i + 1).take(i as int) =~= ts.take(i as int));
        if !e.skipped {
            let modified = if e.modified != 0 { times[i].clone() } else { None };
            let entry = ApiFileEntry {
                path: entry_path(display, e.name.as_str()),
                is_dir: e.is_dir,
                size: if e.is_dir { None } else { Some(e.size) },
                modified,
                name: e.name.clone(),
            };
            let ghost before = r@;
            r.push(entry);
            assert(api_entry_views(r@) =~= api_entry_views(before).push(api_entry_view(entry)));
        }
        i = i + 1;
    }
    assert(es.take(entries@.len() as int) =~= es);
    assert(ts.take(entries@.len() as int) =~= ts);
    r
}

/// The latest modification time (seconds since 1970) whose local date is
/// sure to fall before the year 10000 whatever the time zone (local offsets
/// stay within a day).
pub const LAST_FOUR_DIGIT_YEAR_SECS: u64 = 253402214399;

/// A time as `%Y-%m-%d %H:%M:%S` writes it for a four-digit year: 19
/// characters, `-` at 4 and 7, a space at 10, `:` at 13 and 16, and ASCII
/// digits everywhere else.
pub open spec fn is_time_text(t: Seq<char>) -> bool {
    &&& t.len() == 19
    &&& forall|i: int|
        0 <= i < 19 ==> if i == 4 || i == 7 {
            #[trigger] t[i] == '-'
        } else if i == 10 {
            t[i] == ' '
        } else if i == 13 || i == 16 {
            t[i] == ':'
        } else {
            '0' <= t[i] <= '9'
        }
}

/// `chrono::Local.timestamp_opt(secs, 0)`, formatted by chrono's
/// `DateTime::format` as `YYYY-MM-DD HH:MM:SS`: a modification time as the
/// machine's clock shows it, `None` when chrono finds no single local time.
/// Which time it shows depends on the machine's time zone (chrono falls back
/// to UTC when the zone data cannot be read), so only its form is stated:
/// from the first second after 1970 to `LAST_FOUR_DIGIT_YEAR_SECS` the local
/// year has four digits, which chrono writes as they are, and the other
/// fields are written zero-padded to two digits.
#[verifier::external_body]
fn local_time_text(secs: u64) -> (r: Option<String>)
    ensures
        1 <= secs <= LAST_FOUR_DIGIT_YEAR_SECS ==> (r matches Some(t) ==> is_time_text(t@)),
{
    match chrono::Local.timestamp_opt(secs as i64, 0) {
        chrono::LocalResult::Single(dt) => Some(dt.format("%Y-%m-%d %H:%M:%S").to_string()),
        chrono::LocalResult::Ambiguous(_, _) => None,
        chrono::LocalResult::None => None,
    }
}

/// The entries of the folder shown as `display` for the web interface, each
/// known modification time read on the machine's clock: whatever the clock
/// gives, the entries are the visible ones in order, and an unknown time
/// stays unshown.
pub fn list_entries(display: &str, entries: &Vec<EntryInfo>) -> (r: Vec<ApiFileEntry>)
    ensures
        exists|ts: Seq<Option<Seq<char>>>|
            {
                &&& ts.len() == entries@.len()
                &&& api_entry_views(r@) == api_entries_of(display@, entry_infos(entries@), ts)
                &&& forall|i: int|
                    0 <= i < ts.len() && entries@[i].modified <= LAST_FOUR_DIGIT_YEAR_SECS ==> (#[trigger] ts[i] matches Some(t)
                        ==> is_time_text(t))
            },
{
    let mut times: Vec<Option<String>> = Vec::new();
    let mut i: usize = 0;
    while i < entries.len()
        invariant
            0 <= i <= entries@.len(),
            times@.len() == i,
            forall|j: int|
                0 <= j < i && entries@[j].modified <= LAST_FOUR_DIGIT_YEAR_SECS ==> (#[trigger] times@[j] matches Some(t)
                    ==> is_time_text(t@)),
        decreases entries.len() - i,
    {
        let t = if entries[i].modified != 0 { local_time_text(entries[i].modified) } else { None };
        times.push(t);
        i = i + 1;
    }
    let r = api_entries(display, entries, &times);
    proof {
        let ts = times@.map_values(|t: Option<String>| opt_text(t));
        assert(ts.len() == entries@.len());
        assert forall|j: int|
            0 <= j < ts.len() && entries@[j].modified <= LAST_FOUR_DIGIT_YEAR_SECS implies (#[trigger] ts[j] matches Some(t)
                ==> is_time_text(t)) by {
            assert(ts[j] == opt_text(times@[j]));
        }
    }
    r
}

} // verus!
