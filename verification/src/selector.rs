use vstd::prelude::*;
use crate::connections::FtpConnection;
use crate::drives::{label_of, menu_label, AppDrive, DriveItem, DriveView, ItemView, MountKind, drive_views};
use crate::network::{NodeInfo, ResourceType};
use crate::peers::{find_online, online_node};
use crate::shares::{pair_texts, Shares};
use crate::text::{same_text, to_uppercase, uppercase};

verus! {

/// The picture in front of a row of the source list.
#[derive(Clone, Copy, PartialEq, Eq, Debug, Structural)]
pub enum RowIcon {
    Home,
    AtHome,
    Ssd,
    NetDrive,
    Ftp,
    Connect,
}

/// A row of the source list. A source row stands for the drive at
/// position `drive`; `star` tells whether it carries the favourite
/// button, `enabled` whether it can be activated.
pub enum SelectorRow {
    Source { drive: usize, title: String, icon: RowIcon, star: bool, enabled: bool },
    ConnectionsHeader,
    DiscoveredHeader,
    MySharesHeader,
    /// Nothing is shared and nobody is signed in: a row that opens the account.
    SignIn,
    /// Nothing is shared: a row that shares a folder.
    NoShares,
    Share { name: String, path: String },
}

/// A row of the source list as plain values.
pub enum RowView {
    Source { drive: int, title: Seq<char>, icon: RowIcon, star: bool, enabled: bool },
    ConnectionsHeader,
    DiscoveredHeader,
    MySharesHeader,
    SignIn,
    NoShares,
    Share { name: Seq<char>, path: Seq<char> },
}

impl View for SelectorRow {
    type V = RowView;

    open spec fn view(&self) -> RowView {
        match self {
            SelectorRow::Source { drive, title, icon, star, enabled } => RowView::Source {
                drive: *drive as int,
                title: title@,
                icon: *icon,
                star: *star,
                enabled: *enabled,
            },
            SelectorRow::ConnectionsHeader => RowView::ConnectionsHeader,
            SelectorRow::DiscoveredHeader => RowView::DiscoveredHeader,
            SelectorRow::MySharesHeader => RowView::MySharesHeader,
            SelectorRow::SignIn => RowView::SignIn,
            SelectorRow::NoShares => RowView::NoShares,
            SelectorRow::Share { name, path } => RowView::Share { name: name@, path: path@ },
        }
    }
}

/// The views of a list of rows.
pub open spec fn row_views(v: Seq<SelectorRow>) -> Seq<RowView> {
    v.map_values(|r: SelectorRow| r@)
}

/// The sections of the source list that drives fall into.
#[derive(Clone, Copy, PartialEq, Eq, Debug, Structural)]
pub enum Group {
    /// The root and the home folder.
    Home,
    /// Local drives and removable volumes.
    Local,
    /// Saved connections.
    Connection,
    /// Peer drives, favourites or not.
    Peer(bool),
}

/// Whether a drive belongs to a section.
pub open spec fn in_group(d: DriveView, g: Group) -> bool {
    match g {
        Group::Home => d.item is RootFs || d.item is UserHome,
        Group::Local => d.item is LocalDrive || d.item is Volume,
        Group::Connection => d.item is NetConnection,
        Group::Peer(fav) => d.item is RemotePeer && d.is_favorite == fav,
    }
}

/// The positions of the drives of a section, in order.
pub open spec fn indices_in(ds: Seq<DriveView>, g: Group) -> Seq<int>
    decreases ds.len(),
{
    if ds.len() == 0 {
        Seq::empty()
    } else {
        let rest = indices_in(ds.drop_last(), g);
        if in_group(ds.last(), g) { rest.push(ds.len() - 1) } else { rest }
    }
}

/// The icon of a connection: WebDAV ones look like a network drive.
pub open spec fn connection_icon(protocol: Seq<char>) -> RowIcon {
    if uppercase(protocol) == "WEBDAV"@ { RowIcon::NetDrive } else { RowIcon::Ftp }
}

/// The row for the drive at position `i`. Peer drives show a star in
/// their title when they are favourites, and only online ones can be
/// opened or starred.
pub open spec fn source_row(ds: Seq<DriveView>, i: int) -> RowView {
    let d = ds[i];
    match d.item {
        ItemView::RootFs => RowView::Source { drive: i, title: d.name, icon: RowIcon::Home, star: true, enabled: true },
        ItemView::UserHome => RowView::Source { drive: i, title: d.name, icon: RowIcon::AtHome, star: true, enabled: true },
        ItemView::NetConnection(c) => RowView::Source {
            drive: i,
            title: d.name,
            icon: connection_icon(c.protocol),
            star: true,
            enabled: true,
        },
        ItemView::RemotePeer(..) => RowView::Source {
            drive: i,
            title: menu_label(d),
            icon: RowIcon::Connect,
            star: d.is_online,
            enabled: d.is_online,
        },
        _ => RowView::Source { drive: i, title: d.name, icon: RowIcon::Ssd, star: true, enabled: true },
    }
}

/// The rows for the drives at the given positions.
pub open spec fn rows_of(ds: Seq<DriveView>, idx: Seq<int>) -> Seq<RowView> {
    idx.map_values(|i: int| source_row(ds, i))
}

/// The positions of the peer drives, favourites first.
pub open spec fn peer_indices(ds: Seq<DriveView>) -> Seq<int> {
    indices_in(ds, Group::Peer(true)) + indices_in(ds, Group::Peer(false))
}

/// The section of discovered peer drives: absent when there is none.
pub open spec fn peer_section(ds: Seq<DriveView>) -> Seq<RowView> {
    if peer_indices(ds).len() == 0 {
        Seq::empty()
    } else {
        seq![RowView::DiscoveredHeader] + rows_of(ds, peer_indices(ds))
    }
}

/// The row of one share.
pub open spec fn share_row(p: (Seq<char>, Seq<char>)) -> RowView {
    RowView::Share { name: p.0, path: p.1 }
}

/// The rows under "my shared resources".
pub open spec fn shares_section(shares: Seq<(Seq<char>, Seq<char>)>, signed_in: bool) -> Seq<RowView> {
    if shares.len() == 0 {
        if signed_in { seq![RowView::NoShares] } else { seq![RowView::SignIn] }
    } else {
        shares.map_values(|p: (Seq<char>, Seq<char>)| share_row(p))
    }
}

/// Whether an account login is stored.
pub open spec fn signed_in(login: Option<Seq<char>>) -> bool {
    login matches Some(l) && l.len() > 0
}

/// The whole source list: home folders, local drives, the connections
/// under their header, then, where peers are available, the discovered
/// peer drives and the device's own shares.
pub open spec fn selector_rows(
    ds: Seq<DriveView>,
    shares: Seq<(Seq<char>, Seq<char>)>,
    login: Option<Seq<char>>,
    with_peers: bool,
) -> Seq<RowView> {
    rows_of(ds, indices_in(ds, Group::Home)) + rows_of(ds, indices_in(ds, Group::Local))
        + seq![RowView::ConnectionsHeader] + rows_of(ds, indices_in(ds, Group::Connection))
        + if with_peers {
        peer_section(ds) + seq![RowView::MySharesHeader] + shares_section(shares, signed_in(login))
    } else {
        Seq::empty()
    }
}

fn drive_in_group(d: &AppDrive, g: Group) -> (r: bool)
    ensures
        r == in_group(d@, g),
{
    match g {
        Group::Home => matches!(d.item, DriveItem::RootFs) || matches!(d.item, DriveItem::UserHome),
        Group::Local => matches!(d.item, DriveItem::LocalDrive(_)) || matches!(d.item, DriveItem::Volume { .. }),
        Group::Connection => matches!(d.item, DriveItem::NetConnection(_)),
        Group::Peer(fav) => matches!(d.item, DriveItem::RemotePeer { .. }) && d.is_favorite == fav,
    }
}

fn make_row(ds: &Vec<AppDrive>, i: usize) -> (r: SelectorRow)
    requires
        i < ds@.len(),
    ensures
        r@ == source_row(drive_views(ds@), i as int),
{
    let d = &ds[i];
    assert(drive_views(ds@)[i as int] == d@);
    match &d.item {
        DriveItem::RootFs => SelectorRow::Source { drive: i, title: d.name.clone(), icon: RowIcon::Home, star: true, enabled: true },
        DriveItem::UserHome => SelectorRow::Source { drive: i, title: d.name.clone(), icon: RowIcon::AtHome, star: true, enabled: true },
        DriveItem::NetConnection(c) => {
            let up = to_uppercase(c.protocol.as_str());
            let icon = if same_text(up.as_str(), "WEBDAV") { RowIcon::NetDrive } else { RowIcon::Ftp };
            SelectorRow::Source { drive: i, title: d.name.clone(), icon, star: true, enabled: true }
        },
        DriveItem::RemotePeer { .. } => SelectorRow::Source {
            drive: i,
            title: label_of(d),
            icon: RowIcon::Connect,
            star: d.is_online,
            enabled: d.is_online,
        },
        _ => SelectorRow::Source { drive: i, title: d.name.clone(), icon: RowIcon::Ssd, star: true, enabled: true },
    }
}

/// Appends the rows of one section.
fn push_group(ds: &Vec<AppDrive>, g: Group, out: &mut Vec<SelectorRow>)
    ensures
        row_views(final(out)@) == row_views(old(out)@) + rows_of(drive_views(ds@), indices_in(drive_views(ds@), g)),
{
    let ghost dv = drive_views(ds@);
    let ghost start = row_views(out@);
    let n = ds.len();
    let mut i: usize = 0;
    assert(dv.take(0) =~= Seq::<DriveView>::empty());
    assert(rows_of(dv, Seq::<int>::empty()) =~= Seq::<RowView>::empty());
    assert(row_views(out@) =~= start + rows_of(dv, indices_in(dv.take(0), g)));
    while i < n
        invariant
            n == ds@.len(),
            dv == drive_views(ds@),
            dv.len() == n,
            0 <= i <= n,
            row_views(out@) == start + rows_of(dv, indices_in(dv.take(i as int), g)),
        decreases n - i,
    {
        let ghost before = out@;
        let ghost idx = indices_in(dv.take(i as int), g);
        assert(dv.take(i as int + 1).drop_last() =~= dv.take(i as int));
        assert(dv.take(i as int + 1).last() == dv[i as int]);
        assert(dv[i as int] == ds@[i as int]@);
        if drive_in_group(&ds[i], g) {
            let row = make_row(ds, i);
            out.push(row);
            assert(indices_in(dv.take(i as int + 1), g) == idx.push(i as int));
            assert(rows_of(dv, idx.push(i as int)) =~= rows_of(dv, idx).push(source_row(dv, i as int)));
            assert(row_views(out@) =~= row_views(before).push(row@));
        } else {
            assert(indices_in(dv.take(i as int + 1), g) == idx);
        }
        i = i + 1;
    }
    assert(dv.take(n as int) =~= dv);
}

/// Builds the source list from the drives, the device's shares, the
/// stored account login and whether peers are available.
pub fn selector_rows_of(
    drives: &Vec<AppDrive>,
    shares: &Shares,
    account_login: &Option<String>,
    with_peers: bool,
) -> (r: Vec<SelectorRow>)
    ensures
        row_views(r@) == selector_rows(
            drive_views(drives@),
            shares.pairs(),
            match account_login {
                Some(l) => Some(l@),
                None => None,
            },
            with_peers,
        ),
{
    let ghost dv = drive_views(drives@);
    let mut out: Vec<SelectorRow> = Vec::new();
    assert(row_views(out@) =~= Seq::<RowView>::empty());
    push_group(drives, Group::Home, &mut out);
    push_group(drives, Group::Local, &mut out);
    let ghost before = out@;
    out.push(SelectorRow::ConnectionsHeader);
    assert(row_views(out@) =~= row_views(before).push(RowView::ConnectionsHeader));
    push_group(drives, Group::Connection, &mut out);
    let ghost base = row_views(out@);
    assert(base =~= rows_of(dv, indices_in(dv, Group::Home)) + rows_of(dv, indices_in(dv, Group::Local))
        + seq![RowView::ConnectionsHeader] + rows_of(dv, indices_in(dv, Group::Connection)));
    if !with_peers {
        assert(base + Seq::<RowView>::empty() =~= base);
        return out;
    }
    let mut peers: Vec<SelectorRow> = Vec::new();
    assert(row_views(peers@) =~= Seq::<RowView>::empty());
    push_group(drives, Group::Peer(true), &mut peers);
    push_group(drives, Group::Peer(false), &mut peers);
    assert(rows_of(dv, peer_indices(dv)) =~= rows_of(dv, indices_in(dv, Group::Peer(true)))
        + rows_of(dv, indices_in(dv, Group::Peer(false))));
    let ghost peer_rows = row_views(peers@);
    if peers.len() > 0 {
        let ghost b1 = out@;
        out.push(SelectorRow::DiscoveredHeader);
        assert(row_views(out@) =~= row_views(b1).push(RowView::DiscoveredHeader));
        let ghost b2 = out@;
        out.append(&mut peers);
        assert(row_views(out@) =~= row_views(b2) + peer_rows);
        assert(peer_indices(dv).len() > 0) by {
            assert(rows_of(dv, peer_indices(dv)).len() == peer_indices(dv).len());
        }
    } else {
        assert(peer_indices(dv).len() == 0) by {
            assert(rows_of(dv, peer_indices(dv)).len() == peer_indices(dv).len());
        }
    }
    let ghost b4 = out@;
    out.push(SelectorRow::MySharesHeader);
    assert(row_views(out@) =~= row_views(b4).push(RowView::MySharesHeader));
    let entries = shares.entries();
    if entries.len() == 0 {
        let has_account = match account_login {
            Some(l) => !l.as_str().is_empty(),
            None => false,
        };
        let ghost b5 = out@;
        if has_account {
            out.push(SelectorRow::NoShares);
        } else {
            out.push(SelectorRow::SignIn);
        }
        assert(row_views(out@) =~= row_views(b5).push(out@.last()@));
    } else {
        let ghost pairs = pair_texts(entries@);
        let ghost b6 = row_views(out@);
        let mut j: usize = 0;
        while j < entries.len()
            invariant
                0 <= j <= entries@.len(),
                pairs == pair_texts(entries@),
                row_views(out@) == b6 + pairs.take(j as int).map_values(|p: (Seq<char>, Seq<char>)| share_row(p)),
            decreases entries.len() - j,
        {
            let row = SelectorRow::Share { name: entries[j].0.clone(), path: entries[j].1.clone() };
            let ghost b7 = out@;
            out.push(row);
            assert(pairs[j as int] == (entries@[j as int].0@, entries@[j as int].1@));
            assert(row_views(out@) =~= row_views(b7).push(row@));
            assert(pairs.take(j as int + 1).map_values(|p: (Seq<char>, Seq<char>)| share_row(p)) =~= pairs.take(
                j as int,
            ).map_values(|p: (Seq<char>, Seq<char>)| share_row(p)).push(share_row(pairs[j as int])));
            j = j + 1;
        }
        assert(pairs.take(entries@.len() as int) =~= pairs);
    }
    out
}

/// The tooltip of the share button.
pub enum ShareTooltip {
    /// Nothing is shared.
    NotShared,
    /// One folder is shared: its path.
    Path(String),
    /// Several folders are shared: how many.
    Count(usize),
}

/// The share button's tooltip: none shared, the path of the only share, or
/// the number of shares.
pub fn share_tooltip(shares: &Shares) -> (r: ShareTooltip)
    ensures
        shares.pairs().len() == 0 <==> r is NotShared,
        shares.pairs().len() == 1 ==> (r matches ShareTooltip::Path(p) && p@ == shares.pairs()[0].1),
        shares.pairs().len() >= 2 ==> (r matches ShareTooltip::Count(n) && n == shares.pairs().len()),
{
    let entries = shares.entries();
    let n = entries.len();
    if n == 0 {
        ShareTooltip::NotShared
    } else if n == 1 {
        assert(pair_texts(entries@)[0] == (entries@[0].0@, entries@[0].1@));
        ShareTooltip::Path(entries[0].1.clone())
    } else {
        ShareTooltip::Count(n)
    }
}

/// The name a new share gets: what the user typed, or the suggested name
/// when the field was left empty.
pub fn chosen_share_name(typed: &str, suggested: &str) -> (r: String)
    ensures
        r@ == if typed@.len() == 0 { suggested@ } else { typed@ },
{
    if typed.is_empty() {
        suggested.to_owned()
    } else {
        typed.to_owned()
    }
}

/// How a saved connection is opened from the source list: its provider and
/// the remote folder to start in (`/` when none is set). Only FTP, WebDAV
/// and SFTP connections open; any other protocol does nothing.
pub fn connection_mount(c: &FtpConnection) -> (r: Option<(MountKind, String)>)
    ensures
        match r {
            Some((kind, path)) => {
                &&& (uppercase(c@.protocol) == "FTP"@ && kind == MountKind::Ftp
                    || uppercase(c@.protocol) == "WEBDAV"@ && kind == MountKind::Webdav
                    || uppercase(c@.protocol) == "SFTP"@ && kind == MountKind::Sftp)
                &&& path@ == match c@.remote_path {
                    Some(p) => p,
                    None => "/"@,
                }
            },
            None => uppercase(c@.protocol) != "FTP"@ && uppercase(c@.protocol) != "WEBDAV"@
                && uppercase(c@.protocol) != "SFTP"@,
        },
{
    let up = to_uppercase(c.protocol.as_str());
    let kind = if same_text(up.as_str(), "FTP") {
        MountKind::Ftp
    } else if same_text(up.as_str(), "WEBDAV") {
        MountKind::Webdav
    } else if same_text(up.as_str(), "SFTP") {
        MountKind::Sftp
    } else {
        return None;
    };
    let path = match &c.remote_path {
        Some(p) => p.clone(),
        None => "/".to_owned(),
    };
    Some((kind, path))
}

/// Whether a node offers a file system with this resource id.
pub open spec fn offers_fs(n: NodeInfo, resource_id: Seq<char>) -> bool {
    exists|j: int|
        0 <= j < n.resources@.len() && (#[trigger] n.resources@[j]).id@ == resource_id
            && n.resources@[j].resource_type == ResourceType::Filesystem
}

/// What activating a peer drive's row does, checked against the nodes
/// online at that moment.
pub enum PeerOpen {
    /// The peer went offline: nothing happens.
    Ignore,
    /// Open the peer's file system.
    Open { peer_id: String, resource_id: String },
    /// The peer no longer shares that file system: an error is shown.
    Unshared,
}

/// Decides what activating the row of `peer_id`'s share `resource_id` does.
pub fn peer_row_open(nodes: &Vec<NodeInfo>, peer_id: &str, resource_id: &str) -> (r: PeerOpen)
    ensures
        match online_node(nodes@, peer_id@) {
            None => r is Ignore,
            Some(n) => if offers_fs(n, resource_id@) {
                r matches PeerOpen::Open { peer_id: p, resource_id: q } && p@ == peer_id@ && q@ == resource_id@
            } else {
                r is Unshared
            },
        },
{
    match find_online(nodes, peer_id) {
        None => PeerOpen::Ignore,
        Some(i) => {
            let node = &nodes[i];
            let mut j: usize = 0;
            while j < node.resources.len()
                invariant
                    i < nodes@.len(),
                    *node == nodes@[i as int],
                    online_node(nodes@, peer_id@) == Some(nodes@[i as int]),
                    0 <= j <= node.resources@.len(),
                    forall|k: int|
                        0 <= k < j ==> !((#[trigger] node.resources@[k]).id@ == resource_id@
                            && node.resources@[k].resource_type == ResourceType::Filesystem),
                decreases node.resources.len() - j,
            {
                let res = &node.resources[j];
                if res.resource_type == ResourceType::Filesystem && same_text(res.id.as_str(), resource_id) {
                    assert(node.resources@[j as int].id@ == resource_id@);
                    assert(offers_fs(nodes@[i as int], resource_id@));
                    return PeerOpen::Open { peer_id: peer_id.to_owned(), resource_id: res.id.clone() };
                }
                j = j + 1;
            }
            PeerOpen::Unshared
        },
    }
}

} // verus!
