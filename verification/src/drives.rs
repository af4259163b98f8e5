use vstd::prelude::*;
use crate::connections::{copy_opt, opt_text, ConnView, FtpConnection};
use crate::peers::{P2pContext, P2pSource, SourceView};
use crate::text::{
    chars_of, decimal, has_prefix, lowercase, push_all, push_str, same_text, starts_with, string_of,
    texts_of, to_decimal, to_lowercase, to_uppercase, uppercase,
};

verus! {

/// Something the drives bar can open. A removable volume is known by the
/// root of its mount, when it is mounted.
pub enum DriveItem {
    RootFs,
    UserHome,
    LocalDrive(String),
    Volume { name: String, mount_root: Option<String> },
    NetConnection(FtpConnection),
    RemotePeer { peer_id: String, resource_id: String, name: String },
}

/// The machine the application runs on, as far as drives care.
#[derive(Clone, Copy, PartialEq, Eq, Debug, Structural)]
pub enum Platform {
    Windows,
    MacOs,
    Other,
}

/// Where a panel stands: whether it shows files at all, the resource it
/// browses, its current path, and the id of its remote connection if any.
pub struct PanelPlace {
    pub showing_files: bool,
    pub resource_id: String,
    pub path: String,
    pub connection_id: Option<String>,
}

/// `s` with every `\` turned into `/`.
pub open spec fn forward_slashes(s: Seq<char>) -> Seq<char> {
    s.map_values(|c: char| if c == '\\' { '/' } else { c })
}

/// The id under which a saved connection's provider reports itself:
/// `webdav://user@host` for WebDAV, else `protocol://user@host:port` with
/// the protocol in lower case.
pub open spec fn net_key_of(c: ConnView) -> Seq<char> {
    if uppercase(c.protocol) == "WEBDAV"@ {
        "webdav://"@ + c.user + "@"@ + c.host
    } else {
        lowercase(c.protocol) + "://"@ + c.user + "@"@ + c.host + ":"@ + decimal(c.port as nat)
    }
}

/// Whether a drive of the bar is the one the panel shows. Local drives
/// match by path prefix (separators normalised); the file-system root
/// matches any local path that is not in the home folder or on another
/// mounted volume; remote drives match by connection id.
pub open spec fn active_spec(
    place: PanelPlace,
    item: DriveItem,
    platform: Platform,
    home: Seq<char>,
    volume_roots: Seq<Seq<char>>,
) -> bool {
    let cur = forward_slashes(place.path@);
    let local = place.resource_id@ == "local_fs"@;
    if !place.showing_files {
        false
    } else {
        match item {
            DriveItem::RootFs => local && if platform == Platform::Windows {
                cur == "/"@ || cur.len() == 0
            } else {
                &&& !starts_with(cur, home)
                &&& platform == Platform::MacOs ==> !starts_with(cur, "/Volumes/"@)
                &&& platform == Platform::Other ==> forall|i: int| 0 <= i < volume_roots.len() ==> !starts_with(cur, #[trigger] volume_roots[i])
            },
            DriveItem::UserHome => local && starts_with(cur, forward_slashes(home)),
            DriveItem::LocalDrive(d) => local && starts_with(cur, forward_slashes(d@)),
            DriveItem::Volume { mount_root, .. } => local && match mount_root {
                Some(r) => starts_with(cur, forward_slashes(r@)),
                None => false,
            },
            DriveItem::NetConnection(c) => match place.connection_id {
                Some(id) => id@ == net_key_of(c@),
                None => false,
            },
            DriveItem::RemotePeer { peer_id, resource_id, .. } => match place.connection_id {
                Some(id) => id@ == "p2p://"@ + peer_id@ + "@"@ + resource_id@,
                None => false,
            },
        }
    }
}

fn forward(s: &str) -> (r: Vec<char>)
    ensures
        r@ == forward_slashes(s@),
{
    let chars = chars_of(s);
    let mut out: Vec<char> = Vec::new();
    let mut i: usize = 0;
    while i < chars.len()
        invariant
            0 <= i <= chars.len(),
            chars@ == s@,
            out@ == forward_slashes(s@.take(i as int)),
        decreases chars.len() - i,
    {
        let c = chars[i];
        out.push(if c == '\\' { '/' } else { c });
        i = i + 1;
        assert(forward_slashes(s@.take(i as int)) =~= forward_slashes(s@.take(i - 1)).push(if c == '\\' { '/' } else { c }));
    }
    assert(s@.take(s@.len() as int) =~= s@);
    out
}

/// The provider id of a saved connection.
pub fn net_key(c: &FtpConnection) -> (r: String)
    ensures
        r@ == net_key_of(c@),
{
    let up = to_uppercase(c.protocol.as_str());
    let mut v: Vec<char> = Vec::new();
    if same_text(up.as_str(), "WEBDAV") {
        push_str(&mut v, "webdav://");
        push_str(&mut v, c.user.as_str());
        push_str(&mut v, "@");
        push_str(&mut v, c.host.as_str());
    } else {
        let low = to_lowercase(c.protocol.as_str());
        push_str(&mut v, low.as_str());
        push_str(&mut v, "://");
        push_str(&mut v, c.user.as_str());
        push_str(&mut v, "@");
        push_str(&mut v, c.host.as_str());
        push_str(&mut v, ":");
        let digits = to_decimal(c.port as u128);
        push_all(&mut v, &digits);
    }
    string_of(v.as_slice())
}

fn starts_with_text(s: &Vec<char>, p: &str) -> (r: bool)
    ensures
        r == starts_with(s@, p@),
{
    let pc = chars_of(p);
    has_prefix(s, &pc)
}

fn under_any(cur: &Vec<char>, roots: &Vec<String>) -> (r: bool)
    ensures
        r == exists|i: int| 0 <= i < roots@.len() && starts_with(cur@, #[trigger] texts_of(roots@)[i]),
{
    let ghost rs = texts_of(roots@);
    let mut i: usize = 0;
    while i < roots.len()
        invariant
            0 <= i <= roots.len(),
            rs == texts_of(roots@),
            forall|j: int| 0 <= j < i ==> !starts_with(cur@, #[trigger] rs[j]),
        decreases roots.len() - i,
    {
        if starts_with_text(cur, roots[i].as_str()) {
            assert(starts_with(cur@, rs[i as int]));
            return true;
        }
        i = i + 1;
    }
    false
}

/// Whether `item` is the drive the panel currently shows.
pub fn is_currently_active(
    place: &PanelPlace,
    item: &DriveItem,
    platform: Platform,
    home: &str,
    volume_roots: &Vec<String>,
) -> (r: bool)
    ensures
        r == active_spec(*place, *item, platform, home@, texts_of(volume_roots@)),
{
    if !place.showing_files {
        return false;
    }
    let cur = forward(place.path.as_str());
    let local = same_text(place.resource_id.as_str(), "local_fs");
    match item {
        DriveItem::RootFs => {
            if !local {
                return false;
            }
            match platform {
                Platform::Windows => {
                    let slash = chars_of("/");
                    cur.len() == 0 || crate::text::chars_eq(&cur, &slash)
                },
                _ => {
                    if starts_with_text(&cur, home) {
                        return false;
                    }
                    match platform {
                        Platform::MacOs => !starts_with_text(&cur, "/Volumes/"),
                        _ => !under_any(&cur, volume_roots),
                    }
                },
            }
        },
        DriveItem::UserHome => local && has_prefix(&cur, &forward(home)),
        DriveItem::LocalDrive(d) => local && has_prefix(&cur, &forward(d.as_str())),
        DriveItem::Volume { mount_root, .. } => local && match mount_root {
            Some(r) => has_prefix(&cur, &forward(r.as_str())),
            None => false,
        },
        DriveItem::NetConnection(c) => match &place.connection_id {
            Some(id) => {
                let target = net_key(c);
                same_text(id.as_str(), target.as_str())
            },
            None => false,
        },
        DriveItem::RemotePeer { peer_id, resource_id, .. } => match &place.connection_id {
            Some(id) => {
                let mut v: Vec<char> = Vec::new();
                push_str(&mut v, "p2p://");
                push_str(&mut v, peer_id.as_str());
                push_str(&mut v, "@");
                push_str(&mut v, resource_id.as_str());
                let target = string_of(v.as_slice());
                same_text(id.as_str(), target.as_str())
            },
            None => false,
        },
    }
}

/// A drive item as plain values.
pub enum ItemView {
    RootFs,
    UserHome,
    LocalDrive(Seq<char>),
    Volume(Seq<char>, Option<Seq<char>>),
    NetConnection(ConnView),
    RemotePeer(Seq<char>, Seq<char>, Seq<char>),
}

/// The view of a drive item.
pub open spec fn item_view(i: DriveItem) -> ItemView {
    match i {
        DriveItem::RootFs => ItemView::RootFs,
        DriveItem::UserHome => ItemView::UserHome,
        DriveItem::LocalDrive(p) => ItemView::LocalDrive(p@),
        DriveItem::Volume { name, mount_root } => ItemView::Volume(name@, opt_text(mount_root)),
        DriveItem::NetConnection(c) => ItemView::NetConnection(c@),
        DriveItem::RemotePeer { peer_id, resource_id, name } => ItemView::RemotePeer(peer_id@, resource_id@, name@),
    }
}

/// An entry of the drives bar.
pub struct AppDrive {
    pub item: DriveItem,
    pub name: String,
    pub subtitle: String,
    pub icon: String,
    pub key: String,
    pub is_favorite: bool,
    pub is_online: bool,
}

/// A drives-bar entry as plain values.
pub struct DriveView {
    pub item: ItemView,
    pub name: Seq<char>,
    pub subtitle: Seq<char>,
    pub icon: Seq<char>,
    pub key: Seq<char>,
    pub is_favorite: bool,
    pub is_online: bool,
}

impl View for AppDrive {
    type V = DriveView;

    open spec fn view(&self) -> DriveView {
        DriveView {
            item: item_view(self.item),
            name: self.name@,
            subtitle: self.subtitle@,
            icon: self.icon@,
            key: self.key@,
            is_favorite: self.is_favorite,
            is_online: self.is_online,
        }
    }
}

/// The views of a list of drives.
pub open spec fn drive_views(v: Seq<AppDrive>) -> Seq<DriveView> {
    v.map_values(|d: AppDrive| d@)
}

impl AppDrive {
    /// Whether the drive can be browsed without mounting it first: local
    /// folders always, a volume when mounted, remote drives never.
    pub fn is_mounted(&self) -> (r: bool)
        ensures
            r == match self.item {
                DriveItem::RootFs | DriveItem::UserHome | DriveItem::LocalDrive(_) => true,
                DriveItem::Volume { mount_root, .. } => mount_root is Some,
                DriveItem::NetConnection(_) | DriveItem::RemotePeer { .. } => false,
            },
    {
        match &self.item {
            DriveItem::RootFs | DriveItem::UserHome | DriveItem::LocalDrive(_) => true,
            DriveItem::Volume { mount_root, .. } => mount_root.is_some(),
            DriveItem::NetConnection(_) | DriveItem::RemotePeer { .. } => false,
        }
    }
}

/// A local drive the system reports.
pub struct LocalDriveInfo {
    pub name: String,
    pub path: String,
    pub is_mounted: bool,
}

/// A removable volume the system reports.
pub struct VolumeInfo {
    pub name: String,
    pub can_mount: bool,
    pub is_mounted: bool,
}

/// What the drives bar is built from on this machine: the translated
/// labels, the home folder, the local drives and the volumes.
pub struct SystemDrives {
    pub system_root_label: String,
    pub user_home_label: String,
    pub not_mounted_label: String,
    pub home: String,
    pub locals: Vec<LocalDriveInfo>,
    pub volumes: Vec<VolumeInfo>,
}

/// An entry, flagged a favourite when its key is among `favorites`.
pub open spec fn drive_entry(
    item: ItemView,
    name: Seq<char>,
    subtitle: Seq<char>,
    icon: Seq<char>,
    key: Seq<char>,
    is_online: bool,
    favorites: Seq<Seq<char>>,
) -> DriveView {
    DriveView { item, name, subtitle, icon, key, is_favorite: favorites.contains(key), is_online }
}

/// The entries of the mounted local drives.
pub open spec fn local_entries(locals: Seq<LocalDriveInfo>, favorites: Seq<Seq<char>>) -> Seq<DriveView>
    decreases locals.len(),
{
    if locals.len() == 0 {
        Seq::empty()
    } else {
        let rest = local_entries(locals.drop_last(), favorites);
        let d = locals.last();
        if d.is_mounted {
            rest.push(drive_entry(ItemView::LocalDrive(d.path@), d.name@, d.path@, "/com/icecommander/gtk/ssd.svg"@,
                "local_fs:"@ + d.path@, true, favorites))
        } else {
            rest
        }
    }
}

/// The entries of the volumes that could be mounted but are not.
pub open spec fn volume_entries(vols: Seq<VolumeInfo>, not_mounted: Seq<char>, favorites: Seq<Seq<char>>) -> Seq<DriveView>
    decreases vols.len(),
{
    if vols.len() == 0 {
        Seq::empty()
    } else {
        let rest = volume_entries(vols.drop_last(), not_mounted, favorites);
        let v = vols.last();
        if v.can_mount && !v.is_mounted {
            rest.push(drive_entry(ItemView::Volume(v.name@, None), v.name@, not_mounted, "/com/icecommander/gtk/ssd.svg"@,
                v.name@, false, favorites))
        } else {
            rest
        }
    }
}

/// The entry of a saved connection.
pub open spec fn conn_entry(c: ConnView, favorites: Seq<Seq<char>>) -> DriveView {
    let webdav = uppercase(c.protocol) == "WEBDAV"@;
    drive_entry(
        ItemView::NetConnection(c),
        c.name,
        lowercase(c.protocol) + "://"@ + c.host,
        if webdav { "/com/icecommander/gtk/netdrive.svg"@ } else { "/com/icecommander/gtk/ftp.svg"@ },
        net_key_of(c),
        true,
        favorites,
    )
}

/// The entries of the saved connections.
pub open spec fn conn_entries(cs: Seq<ConnView>, favorites: Seq<Seq<char>>) -> Seq<DriveView>
    decreases cs.len(),
{
    if cs.len() == 0 {
        Seq::empty()
    } else {
        conn_entries(cs.drop_last(), favorites).push(conn_entry(cs.last(), favorites))
    }
}

/// The entry of a peer source.
pub open spec fn peer_entry(s: SourceView) -> DriveView {
    DriveView {
        item: ItemView::RemotePeer(s.peer_id, s.resource_id, s.name),
        name: s.name,
        subtitle: s.subtitle,
        icon: "/com/icecommander/gtk/connect.svg"@,
        key: s.key,
        is_favorite: s.is_favorite,
        is_online: s.is_online,
    }
}

/// The entries of a list of peer sources.
pub open spec fn peer_entries(ss: Seq<SourceView>) -> Seq<DriveView> {
    ss.map_values(|s: SourceView| peer_entry(s))
}

/// The whole drives bar: the file-system root and the home folder, the
/// mounted local drives, the unmounted volumes, the saved connections and
/// then the peer sources.
pub open spec fn all_drives(
    sys: SystemDrives,
    conns: Seq<ConnView>,
    peers: Seq<SourceView>,
    favorites: Seq<Seq<char>>,
) -> Seq<DriveView> {
    seq![
        drive_entry(ItemView::RootFs, sys.system_root_label@, "/"@, "/com/icecommander/gtk/home.svg"@, "local_fs:/"@, true, favorites),
        drive_entry(ItemView::UserHome, sys.user_home_label@, sys.home@, "/com/icecommander/gtk/at-home.svg"@, "local_fs:~"@, true, favorites),
    ] + local_entries(sys.locals@, favorites) + volume_entries(sys.volumes@, sys.not_mounted_label@, favorites)
        + conn_entries(conns, favorites) + peer_entries(peers)
}


fn make_drive(item: DriveItem, name: String, subtitle: String, icon: &str, key: String, is_online: bool, favorites: &[String]) -> (r: AppDrive)
    ensures
        r@ == drive_entry(item_view(item), name@, subtitle@, icon@, key@, is_online, texts_of(favorites@)),
{
    let is_favorite = crate::text::contains_string(favorites, key.as_str());
    AppDrive { item, name, subtitle, icon: icon.to_owned(), key, is_favorite, is_online }
}

fn concat2(a: &str, b: &str) -> (r: String)
    ensures
        r@ == a@ + b@,
{
    let mut v: Vec<char> = Vec::new();
    push_str(&mut v, a);
    push_str(&mut v, b);
    string_of(v.as_slice())
}

/// The drive for a peer source.
pub fn peer_drive(s: P2pSource) -> (r: AppDrive)
    ensures
        r@ == peer_entry(s@),
{
    let name2 = s.name.clone();
    AppDrive {
        item: DriveItem::RemotePeer { peer_id: s.peer_id, resource_id: s.resource_id, name: name2 },
        name: s.name,
        subtitle: s.subtitle,
        icon: "/com/icecommander/gtk/connect.svg".to_owned(),
        key: s.key,
        is_favorite: s.is_favorite,
        is_online: s.is_online,
    }
}

/// The drives of the peer sources.
pub fn p2p_app_drives(sources: Vec<P2pSource>) -> (r: Vec<AppDrive>)
    ensures
        drive_views(r@) == peer_entries(crate::peers::source_views(sources@)),
{
    let ghost sv = crate::peers::source_views(sources@);
    let mut out: Vec<AppDrive> = Vec::new();
    let n = sources.len();
    let mut i: usize = 0;
    for s in it: sources
        invariant
            sv == crate::peers::source_views(it.seq()),
            i == it.index(),
            i <= sv.len() == n,
            drive_views(out@) == peer_entries(sv.take(i as int)),
    {
        let ghost x = s@;
        let ghost prev = out@;
        out.push(peer_drive(s));
        proof {
            assert(sv.take(i + 1) =~= sv.take(i as int).push(x));
            assert(drive_views(out@) =~= drive_views(prev).push(peer_entry(x)));
            assert(peer_entries(sv.take(i + 1)) =~= peer_entries(sv.take(i as int)).push(peer_entry(x)));
        }
        i = i + 1;
    }
    assert(sv.take(sv.len() as int) =~= sv);
    out
}

/// Every entry of the drives bar, in the order it shows them.
pub fn get_all_app_drives(
    sys: &SystemDrives,
    conns: &Vec<FtpConnection>,
    sources: Vec<P2pSource>,
    favorites: &[String],
) -> (r: Vec<AppDrive>)
    ensures
        drive_views(r@) == all_drives(*sys, crate::connections::conn_views(conns@), crate::peers::source_views(sources@), texts_of(favorites@)),
{
    let ghost fv = texts_of(favorites@);
    let mut out: Vec<AppDrive> = Vec::new();
    out.push(make_drive(DriveItem::RootFs, sys.system_root_label.clone(), "/".to_owned(), "/com/icecommander/gtk/home.svg",
        "local_fs:/".to_owned(), true, favorites));
    out.push(make_drive(DriveItem::UserHome, sys.user_home_label.clone(), sys.home.clone(), "/com/icecommander/gtk/at-home.svg",
        "local_fs:~".to_owned(), true, favorites));
    let ghost head = drive_views(out@);
    let mut i: usize = 0;
    while i < sys.locals.len()
        invariant
            0 <= i <= sys.locals.len(),
            fv == texts_of(favorites@),
            drive_views(out@) == head + local_entries(sys.locals@.take(i as int), fv),
        decreases sys.locals.len() - i,
    {
        let d = &sys.locals[i];
        assert(sys.locals@.take(i + 1).drop_last() =~= sys.locals@.take(i as int));
        if d.is_mounted {
            let key = concat2("local_fs:", d.path.as_str());
            let ghost prev = out@;
            let dr = make_drive(DriveItem::LocalDrive(d.path.clone()), d.name.clone(), d.path.clone(), "/com/icecommander/gtk/ssd.svg",
                key, true, favorites);
            out.push(dr);
            assert(drive_views(out@) =~= drive_views(prev).push(dr@));
        }
        assert(drive_views(out@) =~= head + local_entries(sys.locals@.take(i + 1), fv));
        i = i + 1;
    }
    assert(sys.locals@.take(sys.locals@.len() as int) =~= sys.locals@);
    let ghost head2 = drive_views(out@);
    let mut j: usize = 0;
    while j < sys.volumes.len()
        invariant
            0 <= j <= sys.volumes.len(),
            fv == texts_of(favorites@),
            drive_views(out@) == head2 + volume_entries(sys.volumes@.take(j as int), sys.not_mounted_label@, fv),
        decreases sys.volumes.len() - j,
    {
        let v = &sys.volumes[j];
        assert(sys.volumes@.take(j + 1).drop_last() =~= sys.volumes@.take(j as int));
        if v.can_mount && !v.is_mounted {
            let ghost prev = out@;
            let dr = make_drive(DriveItem::Volume { name: v.name.clone(), mount_root: None }, v.name.clone(),
                sys.not_mounted_label.clone(), "/com/icecommander/gtk/ssd.svg", v.name.clone(), false, favorites);
            out.push(dr);
            assert(drive_views(out@) =~= drive_views(prev).push(dr@));
        }
        assert(drive_views(out@) =~= head2 + volume_entries(sys.volumes@.take(j + 1), sys.not_mounted_label@, fv));
        j = j + 1;
    }
    assert(sys.volumes@.take(sys.volumes@.len() as int) =~= sys.volumes@);
    let ghost head3 = drive_views(out@);
    let ghost cv = crate::connections::conn_views(conns@);
    let mut k: usize = 0;
    while k < conns.len()
        invariant
            0 <= k <= conns.len(),
            fv == texts_of(favorites@),
            cv == crate::connections::conn_views(conns@),
            drive_views(out@) == head3 + conn_entries(cv.take(k as int), fv),
        decreases conns.len() - k,
    {
        let c = &conns[k];
        assert(cv.take(k + 1).drop_last() =~= cv.take(k as int));
        let up = to_uppercase(c.protocol.as_str());
        let webdav = same_text(up.as_str(), "WEBDAV");
        let key = net_key(c);
        let low = to_lowercase(c.protocol.as_str());
        let mut sub: Vec<char> = Vec::new();
        push_str(&mut sub, low.as_str());
        push_str(&mut sub, "://");
        push_str(&mut sub, c.host.as_str());
        let subtitle = string_of(sub.as_slice());
        let icon = if webdav { "/com/icecommander/gtk/netdrive.svg" } else { "/com/icecommander/gtk/ftp.svg" };
        let ghost prev = out@;
        let dr = make_drive(DriveItem::NetConnection(c.duplicate()), c.name.clone(), subtitle, icon, key, true, favorites);
        assert(dr@ == conn_entry(cv[k as int], fv));
        out.push(dr);
        assert(drive_views(out@) =~= drive_views(prev).push(dr@));
        assert(drive_views(out@) =~= head3 + conn_entries(cv.take(k + 1), fv));
        k = k + 1;
    }
    assert(cv.take(cv.len() as int) =~= cv);
    let ghost head4 = drive_views(out@);
    let peers = p2p_app_drives(sources);
    let ghost pv = drive_views(peers@);
    let np = peers.len();
    let mut m: usize = 0;
    for d in it: peers
        invariant
            pv == drive_views(it.seq()),
            m == it.index(),
            m <= pv.len() == np,
            drive_views(out@) == head4 + pv.take(m as int),
    {
        let ghost x = d@;
        let ghost prev = out@;
        out.push(d);
        assert(pv.take(m + 1) =~= pv.take(m as int).push(x));
        assert(drive_views(out@) =~= drive_views(prev).push(x));
        m = m + 1;
    }
    assert(pv.take(pv.len() as int) =~= pv);
    assert(head + local_entries(sys.locals@, fv) + volume_entries(sys.volumes@, sys.not_mounted_label@, fv) + conn_entries(cv, fv)
        + pv =~= all_drives(*sys, cv, crate::peers::source_views(sources@), fv));
    out
}

/// The file provider a saved connection is opened with.
#[derive(Clone, Copy, PartialEq, Eq, Debug, Structural)]
pub enum MountKind {
    Ftp,
    Webdav,
    Sftp,
}

/// What opening a drive of the bar does.
pub enum DriveAction {
    /// Browse a local folder.
    OpenLocal(String),
    /// The volume must be mounted first, which takes a while.
    NeedsAsyncMount,
    /// Open a saved connection with the given provider, at its remote path.
    Mount { kind: MountKind, remote_path: String },
    /// Call the peer and open its shared resource.
    CallPeer { peer_id: String, resource_id: String },
    /// Nothing: peers are not available in this build.
    Noop,
}

/// The provider a protocol name stands for: FTP, WebDAV, and SFTP for
/// anything else.
pub open spec fn mount_kind_of(protocol: Seq<char>) -> MountKind {
    if uppercase(protocol) == "FTP"@ {
        MountKind::Ftp
    } else if uppercase(protocol) == "WEBDAV"@ {
        MountKind::Webdav
    } else {
        MountKind::Sftp
    }
}

/// What opening `item` does; `home` is the home folder and `p2p_enabled`
/// tells whether this build talks to peers.
pub fn drive_action(item: &DriveItem, home: &str, p2p_enabled: bool) -> (r: DriveAction)
    ensures
        match item {
            DriveItem::RootFs => r matches DriveAction::OpenLocal(p) && p@ == "/"@,
            DriveItem::UserHome => r matches DriveAction::OpenLocal(p) && p@ == home@,
            DriveItem::LocalDrive(d) => r matches DriveAction::OpenLocal(p) && p@ == d@,
            DriveItem::Volume { .. } => r is NeedsAsyncMount,
            DriveItem::NetConnection(c) => r matches DriveAction::Mount { kind, remote_path } && kind == mount_kind_of(c@.protocol)
                && remote_path@ == match c@.remote_path {
                    Some(p) => p,
                    None => "/"@,
                },
            DriveItem::RemotePeer { peer_id, resource_id, .. } => if p2p_enabled {
                r matches DriveAction::CallPeer { peer_id: p, resource_id: q } && p@ == peer_id@ && q@ == resource_id@
            } else {
                r is Noop
            },
        },
{
    match item {
        DriveItem::RootFs => DriveAction::OpenLocal("/".to_owned()),
        DriveItem::UserHome => DriveAction::OpenLocal(home.to_owned()),
        DriveItem::LocalDrive(d) => DriveAction::OpenLocal(d.clone()),
        DriveItem::Volume { .. } => DriveAction::NeedsAsyncMount,
        DriveItem::NetConnection(c) => {
            let remote_path = match &c.remote_path {
                Some(p) => p.clone(),
                None => "/".to_owned(),
            };
            let up = to_uppercase(c.protocol.as_str());
            let kind = if same_text(up.as_str(), "FTP") {
                MountKind::Ftp
            } else if same_text(up.as_str(), "WEBDAV") {
                MountKind::Webdav
            } else {
                MountKind::Sftp
            };
            DriveAction::Mount { kind, remote_path }
        },
        DriveItem::RemotePeer { peer_id, resource_id, .. } => if p2p_enabled {
            DriveAction::CallPeer { peer_id: peer_id.clone(), resource_id: resource_id.clone() }
        } else {
            DriveAction::Noop
        },
    }
}

/// The FTP password of a connection; none is an empty one.
pub fn ftp_password(c: &FtpConnection) -> (r: String)
    ensures
        r@ == match c@.pass {
            Some(p) => p,
            None => Seq::empty(),
        },
{
    match &c.pass {
        Some(p) => p.clone(),
        None => String::new(),
    }
}

/// The WebDAV user of a connection; an empty one means none.
pub fn webdav_user(c: &FtpConnection) -> (r: Option<String>)
    ensures
        opt_text(r) == if c@.user.len() == 0 { None } else { Some(c@.user) },
{
    if c.user.as_str().is_empty() {
        None
    } else {
        Some(c.user.clone())
    }
}

/// The SFTP authentication of a connection; password when none is set.
pub fn sftp_auth_type(c: &FtpConnection) -> (r: String)
    ensures
        r@ == match c@.auth_type {
            Some(a) => a,
            None => "password"@,
        },
{
    match &c.auth_type {
        Some(a) => a.clone(),
        None => "password".to_owned(),
    }
}

/// The peer and resource a panel's connection id names, when it is a
/// `p2p://peer@resource` id with exactly one `@`.
pub open spec fn active_peer_of(conn_id: Seq<char>) -> Option<(Seq<char>, Seq<char>)> {
    let prefix = "p2p://"@;
    if starts_with(conn_id, prefix) {
        let rest = conn_id.skip(prefix.len() as int);
        let parts = crate::text::split_on(rest, '@');
        if parts.len() == 2 { Some((parts[0], parts[1])) } else { None }
    } else {
        None
    }
}

/// The peer connection a panel shows, read from its connection id.
pub fn active_peer(conn_id: Option<&str>) -> (r: Option<(String, String)>)
    ensures
        match conn_id {
            Some(id) => match (r, active_peer_of(id@)) {
                (Some((p, q)), Some((a, b))) => p@ == a && q@ == b,
                (None, None) => true,
                _ => false,
            },
            None => r is None,
        },
{
    let id = match conn_id {
        Some(id) => id,
        None => return None,
    };
    let chars = chars_of(id);
    let prefix = chars_of("p2p://");
    if !has_prefix(&chars, &prefix) {
        return None;
    }
    let ghost rest = id@.skip(6);
    proof {
        reveal_strlit("p2p://");
    }
    let mut parts: Vec<Vec<char>> = Vec::new();
    let mut cur: Vec<char> = Vec::new();
    let ghost mut pieces: Seq<Seq<char>> = Seq::empty();
    let mut i: usize = 6;
    assert(rest.take(0) =~= Seq::<char>::empty());
    assert(pieces.push(cur@) =~= seq![Seq::<char>::empty()]);
    while i < chars.len()
        invariant
            6 <= i <= chars.len(),
            chars@ == id@,
            rest == id@.skip(6),
            crate::text::split_on(rest.take(i - 6), '@') == pieces.push(cur@),
            crate::text::views(parts@) == pieces,
        decreases chars.len() - i,
    {
        let c = chars[i];
        proof {
            crate::text::lemma_split_on_push(rest.take(i - 6), '@', c);
            assert(rest.take(i - 6 + 1) =~= rest.take(i - 6).push(c));
        }
        if c == '@' {
            let ghost prev = parts@;
            parts.push(cur);
            proof {
                pieces = pieces.push(cur@);
            }
            assert(crate::text::views(parts@) =~= pieces);
            cur = Vec::new();
            assert(crate::text::split_on(rest.take(i - 6 + 1), '@') =~= pieces.push(cur@));
        } else {
            cur.push(c);
            assert(crate::text::split_on(rest.take(i - 6 + 1), '@') =~= pieces.push(cur@));
        }
        i = i + 1;
    }
    assert(rest.take(rest.len() as int) =~= rest);
    if parts.len() == 1 {
        let a = string_of(parts[0].as_slice());
        let b = string_of(cur.as_slice());
        Some((a, b))
    } else {
        None
    }
}

/// The drives the drop-down lists: with "favourites only", the favourites
/// and the drive on show; otherwise all of them, favourites first, each
/// group in its own order.
pub open spec fn menu_drives(ds: Seq<DriveView>, active: Seq<bool>, fav_only: bool) -> Seq<DriveView>
    decreases ds.len(),
{
    if ds.len() == 0 {
        Seq::empty()
    } else if fav_only {
        let rest = menu_drives(ds.drop_last(), active.drop_last(), fav_only);
        if ds.last().is_favorite || active.last() { rest.push(ds.last()) } else { rest }
    } else {
        favorites_first(ds, true) + favorites_first(ds, false)
    }
}

/// The drives whose favourite flag is `fav`, in order.
pub open spec fn favorites_first(ds: Seq<DriveView>, fav: bool) -> Seq<DriveView> {
    ds.filter(|d: DriveView| d.is_favorite == fav)
}

/// The labels of a list of drives.
pub open spec fn menu_labels(ds: Seq<DriveView>) -> Seq<Seq<char>> {
    ds.map_values(|d: DriveView| menu_label(d))
}

/// The label of a drive in the drop-down: favourites get a star.
pub open spec fn menu_label(d: DriveView) -> Seq<char> {
    if d.is_favorite { "⭐ "@ + d.name } else { d.name }
}

/// The drop-down of the drives bar: its drives, their labels, and which
/// one to select (the last drive on show, else the first).
pub struct DriveMenu {
    pub items: Vec<AppDrive>,
    pub labels: Vec<String>,
    pub selected: usize,
}

/// Which drives of a list are on show in the panel.
pub open spec fn active_flags(
    ds: Seq<AppDrive>,
    place: PanelPlace,
    platform: Platform,
    home: Seq<char>,
    roots: Seq<Seq<char>>,
) -> Seq<bool> {
    Seq::new(ds.len(), |i: int| active_spec(place, ds[i].item, platform, home, roots))
}

/// The last position whose flag is set, or 0.
pub open spec fn last_set(flags: Seq<bool>) -> int
    decreases flags.len(),
{
    if flags.len() == 0 {
        0
    } else if flags.last() {
        flags.len() - 1
    } else {
        last_set(flags.drop_last())
    }
}

pub(crate) fn label_of(d: &AppDrive) -> (r: String)
    ensures
        r@ == menu_label(d@),
{
    if d.is_favorite {
        concat2("⭐ ", d.name.as_str())
    } else {
        d.name.clone()
    }
}

/// Builds the drop-down from the drives and where the panel stands.
pub fn drive_menu(
    drives: Vec<AppDrive>,
    place: &PanelPlace,
    platform: Platform,
    home: &str,
    volume_roots: &Vec<String>,
    fav_only: bool,
) -> (r: DriveMenu)
    ensures
        ({
            let flags = active_flags(drives@, *place, platform, home@, texts_of(volume_roots@));
            let items = menu_drives(drive_views(drives@), flags, fav_only);
            &&& drive_views(r.items@) == items
            &&& texts_of(r.labels@) == menu_labels(items)
            &&& r.selected as int == last_set(active_flags(r.items@, *place, platform, home@, texts_of(volume_roots@)))
        }),
{
    let ghost dv = drive_views(drives@);
    let ghost roots = texts_of(volume_roots@);
    let mut flags: Vec<bool> = Vec::new();
    let mut i: usize = 0;
    while i < drives.len()
        invariant
            0 <= i <= drives.len(),
            roots == texts_of(volume_roots@),
            flags@ == active_flags(drives@, *place, platform, home@, roots).take(i as int),
        decreases drives.len() - i,
    {
        let f = is_currently_active(place, &drives[i].item, platform, home, volume_roots);
        flags.push(f);
        assert(flags@ =~= active_flags(drives@, *place, platform, home@, roots).take(i + 1));
        i = i + 1;
    }
    let ghost fl = active_flags(drives@, *place, platform, home@, roots);
    assert(flags@ =~= fl);
    let ghost isfav = |d: DriveView| d.is_favorite == true;
    let ghost notfav = |d: DriveView| d.is_favorite == false;
    let mut kept: Vec<AppDrive> = Vec::new();
    let mut favs: Vec<AppDrive> = Vec::new();
    let mut others: Vec<AppDrive> = Vec::new();
    let n = drives.len();
    let mut k: usize = 0;
    for d in it: drives
        invariant
            dv == drive_views(it.seq()),
            k == it.index(),
            k <= dv.len() == n,
            flags@ == fl,
            fl.len() == n,
            isfav == (|d: DriveView| d.is_favorite == true),
            notfav == (|d: DriveView| d.is_favorite == false),
            fav_only ==> drive_views(kept@) == menu_drives(dv.take(k as int), fl.take(k as int), true),
            !fav_only ==> drive_views(favs@) == dv.take(k as int).filter(isfav),
            !fav_only ==> drive_views(others@) == dv.take(k as int).filter(notfav),
    {
        let ghost x = d@;
        proof {
            assert(dv.take(k + 1) =~= dv.take(k as int).push(x));
            assert(dv.take(k + 1).drop_last() =~= dv.take(k as int));
            assert(fl.take(k + 1).drop_last() =~= fl.take(k as int));
            dv.take(k as int).lemma_filter_push(x, isfav);
            dv.take(k as int).lemma_filter_push(x, notfav);
        }
        if fav_only {
            if d.is_favorite || flags[k] {
                let ghost prev = kept@;
                kept.push(d);
                assert(drive_views(kept@) =~= drive_views(prev).push(x));
            }
        } else if d.is_favorite {
            let ghost prev = favs@;
            favs.push(d);
            assert(drive_views(favs@) =~= drive_views(prev).push(x));
        } else {
            let ghost prev = others@;
            others.push(d);
            assert(drive_views(others@) =~= drive_views(prev).push(x));
        }
        k = k + 1;
    }
    assert(dv.take(dv.len() as int) =~= dv);
    assert(fl.take(fl.len() as int) =~= fl);
    let items = if fav_only {
        kept
    } else {
        let mut all = favs;
        let ghost fv = drive_views(all@);
        let nothers = others.len();
        let mut m: usize = 0;
        for o in it: others
            invariant
                fv == favorites_first(dv, true),
                drive_views(it.seq()) == favorites_first(dv, false),
                m == it.index(),
                m <= it.seq().len() == nothers,
                drive_views(all@) == fv + favorites_first(dv, false).take(m as int),
        {
            let ghost x = o@;
            let ghost prev = all@;
            all.push(o);
            assert(favorites_first(dv, false).take(m + 1) =~= favorites_first(dv, false).take(m as int).push(x));
            assert(drive_views(all@) =~= drive_views(prev).push(x));
            m = m + 1;
        }
        assert(favorites_first(dv, false).take(favorites_first(dv, false).len() as int) =~= favorites_first(dv, false));
        all
    };
    let ghost iv = drive_views(items@);
    assert(iv == menu_drives(dv, fl, fav_only));
    let mut labels: Vec<String> = Vec::new();
    let mut selected: usize = 0;
    let mut j: usize = 0;
    while j < items.len()
        invariant
            0 <= j <= items.len(),
            iv == drive_views(items@),
            roots == texts_of(volume_roots@),
            texts_of(labels@) == menu_labels(iv.take(j as int)),
            selected as int == last_set(active_flags(items@, *place, platform, home@, roots).take(j as int)),
        decreases items.len() - j,
    {
        let ghost prev = labels@;
        let l = label_of(&items[j]);
        assert(l@ == menu_label(iv[j as int]));
        labels.push(l);
        assert(texts_of(labels@) =~= texts_of(prev).push(menu_label(iv[j as int])));
        assert(iv.take(j + 1) =~= iv.take(j as int).push(iv[j as int]));
        assert(menu_labels(iv.take(j + 1)) =~= menu_labels(iv.take(j as int)).push(menu_label(iv[j as int])));
        let ghost af = active_flags(items@, *place, platform, home@, roots);
        assert(af.take(j + 1).drop_last() =~= af.take(j as int));
        if is_currently_active(place, &items[j].item, platform, home, volume_roots) {
            selected = j;
        }
        j = j + 1;
    }
    assert(iv.take(iv.len() as int) =~= iv);
    assert(active_flags(items@, *place, platform, home@, roots).take(items@.len() as int) =~= active_flags(items@, *place, platform, home@, roots));
    DriveMenu { items, labels, selected }
}

/// What keeping the drop-down in step with the panel does.
#[derive(Clone, Copy, PartialEq, Eq, Debug, Structural)]
pub enum SyncStep {
    /// Select the drive at this position.
    Select(usize),
    /// No listed drive is on show although files are: rebuild the list.
    Rebuild,
    /// The panel shows no files: select the first drive.
    SelectFirst,
}

/// The first position whose flag is set.
pub open spec fn first_set(flags: Seq<bool>) -> Option<int>
    decreases flags.len(),
{
    if flags.len() == 0 {
        None
    } else {
        match first_set(flags.drop_last()) {
            Some(i) => Some(i),
            None => if flags.last() { Some(flags.len() - 1) } else { None },
        }
    }
}

/// After the panel moves: select the first listed drive that is on show;
/// if none is, rebuild the list when files are shown, else go back to the
/// first entry.
pub fn sync_step(items: &Vec<AppDrive>, place: &PanelPlace, platform: Platform, home: &str, volume_roots: &Vec<String>) -> (r: SyncStep)
    ensures
        r == match first_set(active_flags(items@, *place, platform, home@, texts_of(volume_roots@))) {
            Some(i) => SyncStep::Select(i as usize),
            None => if place.showing_files { SyncStep::Rebuild } else { SyncStep::SelectFirst },
        },
{
    let ghost af = active_flags(items@, *place, platform, home@, texts_of(volume_roots@));
    let mut i: usize = 0;
    while i < items.len()
        invariant
            0 <= i <= items.len(),
            af == active_flags(items@, *place, platform, home@, texts_of(volume_roots@)),
            first_set(af.take(i as int)) is None,
        decreases items.len() - i,
    {
        assert(af.take(i + 1).drop_last() =~= af.take(i as int));
        if is_currently_active(place, &items[i].item, platform, home, volume_roots) {
            proof {
                lemma_first_set_prefix(af, i + 1);
            }
            return SyncStep::Select(i);
        }
        i = i + 1;
    }
    assert(af.take(af.len() as int) =~= af);
    if place.showing_files {
        SyncStep::Rebuild
    } else {
        SyncStep::SelectFirst
    }
}

proof fn lemma_first_set_prefix(flags: Seq<bool>, k: int)
    requires
        0 <= k <= flags.len(),
        first_set(flags.take(k)) is Some,
    ensures
        first_set(flags) == first_set(flags.take(k)),
    decreases flags.len() - k,
{
    if k < flags.len() {
        assert(flags.take(k + 1).drop_last() =~= flags.take(k));
        lemma_first_set_prefix(flags, k + 1);
    } else {
        assert(flags.take(k) =~= flags);
    }
}

/// "Favourites only" holds unless Shift is held down.
pub fn favorites_only(setting: bool, shift_held: bool) -> (r: bool)
    ensures
        r == (setting && !shift_held),
{
    setting && !shift_held
}

} // verus!
