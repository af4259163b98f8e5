use vstd::prelude::*;
use vstd::string::StringSliceAdditionalSpecFns;
use vstd::utf8::{decode_utf8, encode_utf8, encode_utf8_decode_utf8, is_char_boundary};
use crate::network::{NodeInfo, ResourceType, SharedResource};
use crate::text::{push_str, same_text, string_of, texts_of};

verus! {

/// A peer the user saved, by name and id.
#[derive(Clone, Debug)]
pub struct SavedPeerConnection {
    pub name: String,
    pub peer_id: String,
}

/// Names the network layer has learnt for peers and for their resources:
/// (peer id, name) and (peer id, resource id, name).
pub struct KnownNames {
    pub peers: Vec<(String, String)>,
    pub resources: Vec<(String, String, String)>,
}

/// The first saved name for a peer id.
pub open spec fn saved_name(saved: Seq<SavedPeerConnection>, peer_id: Seq<char>) -> Option<Seq<char>>
    decreases saved.len(),
{
    if saved.len() == 0 {
        None
    } else {
        match saved_name(saved.drop_last(), peer_id) {
            Some(n) => Some(n),
            None => if saved.last().peer_id@ == peer_id { Some(saved.last().name@) } else { None },
        }
    }
}

/// The first name the network layer knows for a peer.
pub open spec fn known_peer(peers: Seq<(String, String)>, peer_id: Seq<char>) -> Option<Seq<char>>
    decreases peers.len(),
{
    if peers.len() == 0 {
        None
    } else {
        match known_peer(peers.drop_last(), peer_id) {
            Some(n) => Some(n),
            None => if peers.last().0@ == peer_id { Some(peers.last().1@) } else { None },
        }
    }
}

/// The first name the network layer knows for a peer's resource.
pub open spec fn known_resource(
    resources: Seq<(String, String, String)>,
    peer_id: Seq<char>,
    resource_id: Seq<char>,
) -> Option<Seq<char>>
    decreases resources.len(),
{
    if resources.len() == 0 {
        None
    } else {
        match known_resource(resources.drop_last(), peer_id, resource_id) {
            Some(n) => Some(n),
            None => if resources.last().0@ == peer_id && resources.last().1@ == resource_id {
                Some(resources.last().2@)
            } else {
                None
            },
        }
    }
}

/// The name a drive of a peer goes by: the saved name, else the name the
/// network knows.
pub open spec fn peer_label(saved: Seq<SavedPeerConnection>, known: KnownNames, peer_id: Seq<char>) -> Option<Seq<char>> {
    match saved_name(saved, peer_id) {
        Some(n) => Some(n),
        None => known_peer(known.peers@, peer_id),
    }
}

/// A long peer id shortened to its first and last six bytes.
pub open spec fn short_id(peer_id: Seq<char>) -> Seq<char> {
    let b = encode_utf8(peer_id);
    decode_utf8(b.subrange(0, 6)) + "..."@ + decode_utf8(b.subrange(b.len() - 6, b.len() as int))
}

/// Whether the id can be shortened without cutting a character: an id of
/// more than 12 bytes is cut at byte 6 and six bytes before its end, and both
/// cuts must fall between characters.
pub open spec fn shortenable(peer_id: Seq<char>) -> bool {
    let b = encode_utf8(peer_id);
    b.len() > 12 ==> is_char_boundary(b, 6) && is_char_boundary(b, b.len() - 6)
}

/// `resource (peer)`: the resource's known name (or its id), then the
/// peer's name, or its id shortened when longer than 12 bytes.
pub open spec fn drive_name_of(
    saved: Seq<SavedPeerConnection>,
    known: KnownNames,
    peer_id: Seq<char>,
    resource_id: Seq<char>,
) -> Seq<char> {
    let resource = match known_resource(known.resources@, peer_id, resource_id) {
        Some(n) => n,
        None => resource_id,
    };
    let who = match peer_label(saved, known, peer_id) {
        Some(p) => p,
        None => if encode_utf8(peer_id).len() > 12 { short_id(peer_id) } else { peer_id },
    };
    resource + " ("@ + who + ")"@
}

fn saved_name_of(saved: &[SavedPeerConnection], peer_id: &str) -> (r: Option<String>)
    ensures
        match r {
            Some(n) => saved_name(saved@, peer_id@) == Some(n@),
            None => saved_name(saved@, peer_id@) is None,
        },
{
    let mut i: usize = 0;
    while i < saved.len()
        invariant
            0 <= i <= saved.len(),
            saved_name(saved@.take(i as int), peer_id@) is None,
        decreases saved.len() - i,
    {
        assert(saved@.take(i + 1).drop_last() =~= saved@.take(i as int));
        if same_text(saved[i].peer_id.as_str(), peer_id) {
            proof {
                lemma_saved_name_prefix(saved@, peer_id@, i + 1);
            }
            return Some(saved[i].name.clone());
        }
        i = i + 1;
    }
    assert(saved@.take(saved@.len() as int) =~= saved@);
    None
}

proof fn lemma_saved_name_prefix(saved: Seq<SavedPeerConnection>, peer_id: Seq<char>, k: int)
    requires
        0 <= k <= saved.len(),
        saved_name(saved.take(k), peer_id) is Some,
    ensures
        saved_name(saved, peer_id) == saved_name(saved.take(k), peer_id),
    decreases saved.len() - k,
{
    if k < saved.len() {
        assert(saved.take(k + 1).drop_last() =~= saved.take(k));
        lemma_saved_name_prefix(saved, peer_id, k + 1);
    } else {
        assert(saved.take(k) =~= saved);
    }
}

proof fn lemma_known_peer_prefix(peers: Seq<(String, String)>, peer_id: Seq<char>, k: int)
    requires
        0 <= k <= peers.len(),
        known_peer(peers.take(k), peer_id) is Some,
    ensures
        known_peer(peers, peer_id) == known_peer(peers.take(k), peer_id),
    decreases peers.len() - k,
{
    if k < peers.len() {
        assert(peers.take(k + 1).drop_last() =~= peers.take(k));
        lemma_known_peer_prefix(peers, peer_id, k + 1);
    } else {
        assert(peers.take(k) =~= peers);
    }
}

proof fn lemma_known_resource_prefix(
    rs: Seq<(String, String, String)>,
    peer_id: Seq<char>,
    resource_id: Seq<char>,
    k: int,
)
    requires
        0 <= k <= rs.len(),
        known_resource(rs.take(k), peer_id, resource_id) is Some,
    ensures
        known_resource(rs, peer_id, resource_id) == known_resource(rs.take(k), peer_id, resource_id),
    decreases rs.len() - k,
{
    if k < rs.len() {
        assert(rs.take(k + 1).drop_last() =~= rs.take(k));
        lemma_known_resource_prefix(rs, peer_id, resource_id, k + 1);
    } else {
        assert(rs.take(k) =~= rs);
    }
}

fn known_peer_of(peers: &Vec<(String, String)>, peer_id: &str) -> (r: Option<String>)
    ensures
        match r {
            Some(n) => known_peer(peers@, peer_id@) == Some(n@),
            None => known_peer(peers@, peer_id@) is None,
        },
{
    let mut i: usize = 0;
    while i < peers.len()
        invariant
            0 <= i <= peers.len(),
            known_peer(peers@.take(i as int), peer_id@) is None,
        decreases peers.len() - i,
    {
        assert(peers@.take(i + 1).drop_last() =~= peers@.take(i as int));
        if same_text(peers[i].0.as_str(), peer_id) {
            proof {
                lemma_known_peer_prefix(peers@, peer_id@, i + 1);
            }
            return Some(peers[i].1.clone());
        }
        i = i + 1;
    }
    assert(peers@.take(peers@.len() as int) =~= peers@);
    None
}

fn known_resource_of(rs: &Vec<(String, String, String)>, peer_id: &str, resource_id: &str) -> (r: Option<String>)
    ensures
        match r {
            Some(n) => known_resource(rs@, peer_id@, resource_id@) == Some(n@),
            None => known_resource(rs@, peer_id@, resource_id@) is None,
        },
{
    let mut i: usize = 0;
    while i < rs.len()
        invariant
            0 <= i <= rs.len(),
            known_resource(rs@.take(i as int), peer_id@, resource_id@) is None,
        decreases rs.len() - i,
    {
        assert(rs@.take(i + 1).drop_last() =~= rs@.take(i as int));
        if same_text(rs[i].0.as_str(), peer_id) && same_text(rs[i].1.as_str(), resource_id) {
            proof {
                lemma_known_resource_prefix(rs@, peer_id@, resource_id@, i + 1);
            }
            return Some(rs[i].2.clone());
        }
        i = i + 1;
    }
    assert(rs@.take(rs@.len() as int) =~= rs@);
    None
}

proof fn lemma_saved_name_none(saved: Seq<SavedPeerConnection>, peer_id: Seq<char>)
    requires
        forall|k: int| 0 <= k < saved.len() ==> (#[trigger] saved[k]).peer_id@ != peer_id,
    ensures
        saved_name(saved, peer_id) is None,
    decreases saved.len(),
{
    if saved.len() > 0 {
        let d = saved.drop_last();
        assert forall|k: int| 0 <= k < d.len() implies (#[trigger] d[k]).peer_id@ != peer_id by {
            assert(d[k] == saved[k]);
        }
        lemma_saved_name_none(d, peer_id);
    }
}

proof fn lemma_saved_name_first(saved: Seq<SavedPeerConnection>, peer_id: Seq<char>, j: int)
    requires
        0 <= j < saved.len(),
        saved[j].peer_id@ == peer_id,
        forall|k: int| 0 <= k < j ==> (#[trigger] saved[k]).peer_id@ != peer_id,
    ensures
        saved_name(saved, peer_id) == Some(saved[j].name@),
    decreases saved.len(),
{
    let d = saved.drop_last();
    if j == saved.len() - 1 {
        assert forall|k: int| 0 <= k < d.len() implies (#[trigger] d[k]).peer_id@ != peer_id by {
            assert(d[k] == saved[k]);
        }
        lemma_saved_name_none(d, peer_id);
    } else {
        assert forall|k: int| 0 <= k < j implies (#[trigger] d[k]).peer_id@ != peer_id by {
            assert(d[k] == saved[k]);
        }
        assert(d[j] == saved[j]);
        lemma_saved_name_first(d, peer_id, j);
    }
}

/// The name the user saved for a peer wins: when the peer is among the
/// saved peers, a drive of it is labelled with the first name saved for it,
/// in brackets after the resource, whatever name the network knows it by.
pub proof fn law_saved_peer_name_wins(
    saved: Seq<SavedPeerConnection>,
    known: KnownNames,
    peer_id: Seq<char>,
    resource_id: Seq<char>,
    j: int,
)
    requires
        0 <= j < saved.len(),
        saved[j].peer_id@ == peer_id,
        forall|k: int| 0 <= k < j ==> (#[trigger] saved[k]).peer_id@ != peer_id,
    ensures
        exists|res: Seq<char>| drive_name_of(saved, known, peer_id, resource_id) == res + " ("@ + saved[j].name@ + ")"@,
{
    lemma_saved_name_first(saved, peer_id, j);
    let res = match known_resource(known.resources@, peer_id, resource_id) {
        Some(n) => n,
        None => resource_id,
    };
    assert(drive_name_of(saved, known, peer_id, resource_id) == res + " ("@ + saved[j].name@ + ")"@);
}

/// The name of peer `peer_id`'s resource `resource_id` as a drive.
pub fn drive_name(peer_id: &str, resource_id: &str, saved: &[SavedPeerConnection], known: &KnownNames) -> (r: String)
    requires
        peer_label(saved@, *known, peer_id@) is None ==> shortenable(peer_id@),
    ensures
        r@ == drive_name_of(saved@, *known, peer_id@, resource_id@),
{
    let peer = match saved_name_of(saved, peer_id) {
        Some(n) => Some(n),
        None => known_peer_of(&known.peers, peer_id),
    };
    let resource = match known_resource_of(&known.resources, peer_id, resource_id) {
        Some(n) => n,
        None => resource_id.to_owned(),
    };
    let mut v: Vec<char> = Vec::new();
    push_str(&mut v, resource.as_str());
    push_str(&mut v, " (");
    match peer {
        Some(p) => {
            push_str(&mut v, p.as_str());
        },
        None => {
            let n = peer_id.as_bytes().len();
            if n > 12 {
                let (head, _) = peer_id.split_at(6);
                let (_, tail) = peer_id.split_at(n - 6);
                proof {
                    encode_utf8_decode_utf8(head@);
                    encode_utf8_decode_utf8(tail@);
                    assert(head@ == decode_utf8(encode_utf8(peer_id@).subrange(0, 6)));
                    assert(tail@ == decode_utf8(encode_utf8(peer_id@).subrange(n - 6, n as int)));
                }
                push_str(&mut v, head);
                push_str(&mut v, "...");
                push_str(&mut v, tail);
            } else {
                push_str(&mut v, peer_id);
            }
        },
    }
    push_str(&mut v, ")");
    string_of(v.as_slice())
}

/// The texts the list shows for peers it cannot name: the suffix after an
/// offline peer's name, and the name of a device that announced none.
pub struct SourceLabels {
    pub offline_suffix: String,
    pub unnamed_device: String,
}

/// What the list of peer sources is built from: our own id, the saved
/// peers, the nodes the network reports, and what it knows of their names.
pub struct P2pContext {
    pub my_id: String,
    pub saved_peers: Vec<SavedPeerConnection>,
    pub online_nodes: Vec<NodeInfo>,
    pub known: KnownNames,
    pub labels: SourceLabels,
}

/// Whether `peer_id` is this device: only when our id is known.
pub open spec fn is_self_id(my_id: Seq<char>, peer_id: Seq<char>) -> bool {
    my_id.len() > 0 && peer_id == my_id
}

impl P2pContext {
    pub fn new(
        my_id: String,
        saved_peers: Vec<SavedPeerConnection>,
        online_nodes: Vec<NodeInfo>,
        known: KnownNames,
        labels: SourceLabels,
    ) -> (r: Self)
        ensures
            r.my_id@ == my_id@,
            r.saved_peers@ == saved_peers@,
            r.online_nodes@ == online_nodes@,
            r.known == known,
            r.labels == labels,
    {
        P2pContext { my_id, saved_peers, online_nodes, known, labels }
    }

    /// Whether `peer_id` is this device.
    pub fn is_self(&self, peer_id: &str) -> (r: bool)
        ensures
            r == is_self_id(self.my_id@, peer_id@),
    {
        !self.my_id.as_str().is_empty() && same_text(peer_id, self.my_id.as_str())
    }

    /// The saved peers.
    pub fn saved_peers(&self) -> (r: Vec<SavedPeerConnection>)
        ensures
            saved_views(r@) == saved_views(self.saved_peers@),
    {
        let mut r: Vec<SavedPeerConnection> = Vec::new();
        let mut i: usize = 0;
        while i < self.saved_peers.len()
            invariant
                0 <= i <= self.saved_peers.len(),
                saved_views(r@) == saved_views(self.saved_peers@.take(i as int)),
            decreases self.saved_peers.len() - i,
        {
            let p = &self.saved_peers[i];
            r.push(SavedPeerConnection { name: p.name.clone(), peer_id: p.peer_id.clone() });
            assert(saved_views(self.saved_peers@.take(i + 1)) =~= saved_views(self.saved_peers@.take(i as int)).push(
                (p.name@, p.peer_id@)));
            assert(saved_views(r@) =~= saved_views(self.saved_peers@.take(i + 1)));
            i = i + 1;
        }
        assert(self.saved_peers@.take(self.saved_peers@.len() as int) =~= self.saved_peers@);
        r
    }
}

/// Saved peers as (name, id) texts.
pub open spec fn saved_views(v: Seq<SavedPeerConnection>) -> Seq<(Seq<char>, Seq<char>)> {
    v.map_values(|p: SavedPeerConnection| (p.name@, p.peer_id@))
}

/// A drive the source list offers for a peer.
#[derive(Clone, Debug)]
pub struct P2pSource {
    pub peer_id: String,
    pub resource_id: String,
    pub name: String,
    pub subtitle: String,
    pub key: String,
    pub is_online: bool,
    pub is_favorite: bool,
}

/// A peer source as plain values.
pub struct SourceView {
    pub peer_id: Seq<char>,
    pub resource_id: Seq<char>,
    pub name: Seq<char>,
    pub subtitle: Seq<char>,
    pub key: Seq<char>,
    pub is_online: bool,
    pub is_favorite: bool,
}

impl View for P2pSource {
    type V = SourceView;

    open spec fn view(&self) -> SourceView {
        SourceView {
            peer_id: self.peer_id@,
            resource_id: self.resource_id@,
            name: self.name@,
            subtitle: self.subtitle@,
            key: self.key@,
            is_online: self.is_online,
            is_favorite: self.is_favorite,
        }
    }
}

/// The views of a list of sources.
pub open spec fn source_views(v: Seq<P2pSource>) -> Seq<SourceView> {
    v.map_values(|s: P2pSource| s@)
}

/// The key of a peer's shared resource.
pub open spec fn resource_key(peer_id: Seq<char>, resource_id: Seq<char>) -> Seq<char> {
    "p2p://"@ + peer_id + "@"@ + resource_id
}

/// The key of a peer without a resource.
pub open spec fn bare_key(peer_id: Seq<char>) -> Seq<char> {
    "p2p://"@ + peer_id
}

/// The line under a shared resource.
pub open spec fn resource_line(resource_id: Seq<char>, peer_id: Seq<char>) -> Seq<char> {
    "Resource ID: "@ + resource_id + " | Peer ID: "@ + peer_id
}

/// `a (b)`.
pub open spec fn labeled(a: Seq<char>, b: Seq<char>) -> Seq<char> {
    a + " ("@ + b + ")"@
}

/// A source entry; it is a favourite when its key is among `favorites`.
pub open spec fn entry(
    peer_id: Seq<char>,
    resource_id: Seq<char>,
    name: Seq<char>,
    subtitle: Seq<char>,
    key: Seq<char>,
    is_online: bool,
    favorites: Seq<Seq<char>>,
) -> SourceView {
    SourceView { peer_id, resource_id, name, subtitle, key, is_online, is_favorite: favorites.contains(key) }
}

/// The file-system shares of a node.
pub open spec fn fs_shares(node: NodeInfo) -> Seq<SharedResource> {
    node.resources@.filter(|r: SharedResource| r.resource_type == ResourceType::Filesystem)
}

/// The first node with id `peer_id` that is online.
pub open spec fn online_node(nodes: Seq<NodeInfo>, peer_id: Seq<char>) -> Option<NodeInfo>
    decreases nodes.len(),
{
    if nodes.len() == 0 {
        None
    } else {
        match online_node(nodes.drop_last(), peer_id) {
            Some(n) => Some(n),
            None => if nodes.last().id@ == peer_id && nodes.last().is_online { Some(nodes.last()) } else { None },
        }
    }
}

/// One entry per share of a peer: `share (label)`.
pub open spec fn share_entries(
    peer_id: Seq<char>,
    label: Seq<char>,
    shares: Seq<SharedResource>,
    skip_key: Option<Seq<char>>,
    favorites: Seq<Seq<char>>,
) -> Seq<SourceView>
    decreases shares.len(),
{
    if shares.len() == 0 {
        Seq::empty()
    } else {
        let rest = share_entries(peer_id, label, shares.drop_last(), skip_key, favorites);
        let sh = shares.last();
        let key = resource_key(peer_id, sh.id@);
        if skip_key == Some(key) {
            rest
        } else {
            rest.push(entry(peer_id, sh.id@, labeled(sh.name@, label), resource_line(sh.id@, peer_id), key, true, favorites))
        }
    }
}

/// The entries a saved peer contributes: none for ourselves; one offline
/// entry when it is not online; one bare entry when it shares no folder;
/// else one per shared folder.
pub open spec fn saved_peer_entries(ctx: P2pContext, peer: SavedPeerConnection, favorites: Seq<Seq<char>>) -> Seq<SourceView> {
    let id = peer.peer_id@;
    if is_self_id(ctx.my_id@, id) {
        Seq::empty()
    } else {
        match online_node(ctx.online_nodes@, id) {
            None => seq![entry(id, Seq::empty(), peer.name@ + ctx.labels.offline_suffix@, id, bare_key(id), false, favorites)],
            Some(node) => if fs_shares(node).len() == 0 {
                seq![entry(id, Seq::empty(), peer.name@, id, bare_key(id), true, favorites)]
            } else {
                share_entries(id, peer.name@, fs_shares(node), None, favorites)
            },
        }
    }
}

/// The entries of the saved peers, in saved order.
pub open spec fn saved_entries(ctx: P2pContext, peers: Seq<SavedPeerConnection>, favorites: Seq<Seq<char>>) -> Seq<SourceView>
    decreases peers.len(),
{
    if peers.len() == 0 {
        Seq::empty()
    } else {
        saved_entries(ctx, peers.drop_last(), favorites) + saved_peer_entries(ctx, peers.last(), favorites)
    }
}

/// Whether a node id is among the saved peers.
pub open spec fn is_saved(peers: Seq<SavedPeerConnection>, id: Seq<char>) -> bool {
    exists|i: int| 0 <= i < peers.len() && (#[trigger] peers[i]).peer_id@ == id
}

/// The entries an unsaved online node contributes: one per shared folder,
/// except the active one, which is already listed.
pub open spec fn node_entries(ctx: P2pContext, node: NodeInfo, active_key: Option<Seq<char>>, favorites: Seq<Seq<char>>) -> Seq<SourceView> {
    if !node.is_online || is_self_id(ctx.my_id@, node.id@) || is_saved(ctx.saved_peers@, node.id@) {
        Seq::empty()
    } else {
        let device = if node.name@.len() == 0 { ctx.labels.unnamed_device@ } else { node.name@ };
        share_entries(node.id@, device, fs_shares(node), active_key, favorites)
    }
}

/// The entries of the unsaved online nodes, in reported order.
pub open spec fn nodes_entries(ctx: P2pContext, nodes: Seq<NodeInfo>, active_key: Option<Seq<char>>, favorites: Seq<Seq<char>>) -> Seq<SourceView>
    decreases nodes.len(),
{
    if nodes.len() == 0 {
        Seq::empty()
    } else {
        nodes_entries(ctx, nodes.drop_last(), active_key, favorites) + node_entries(ctx, nodes.last(), active_key, favorites)
    }
}

/// The entry of the active connection, unless it is to ourselves.
pub open spec fn active_entries(ctx: P2pContext, active: Option<(Seq<char>, Seq<char>)>, favorites: Seq<Seq<char>>) -> Seq<SourceView> {
    match active {
        Some((p, r)) => if is_self_id(ctx.my_id@, p) {
            Seq::empty()
        } else {
            seq![entry(p, r, drive_name_of(ctx.saved_peers@, ctx.known, p, r), resource_line(r, p), resource_key(p, r), true, favorites)]
        },
        None => Seq::empty(),
    }
}

/// Every entry in the order the list considers them, repeats included:
/// the active connection, the saved peers, the other online nodes.
pub open spec fn candidates(ctx: P2pContext, active: Option<(Seq<char>, Seq<char>)>, favorites: Seq<Seq<char>>) -> Seq<SourceView> {
    let active_key = match active {
        Some((p, r)) => Some(resource_key(p, r)),
        None => None,
    };
    active_entries(ctx, active, favorites) + saved_entries(ctx, ctx.saved_peers@, favorites) + nodes_entries(
        ctx,
        ctx.online_nodes@,
        active_key,
        favorites,
    )
}

/// Whether a key is already among the entries.
pub open spec fn has_key(s: Seq<SourceView>, key: Seq<char>) -> bool {
    exists|i: int| 0 <= i < s.len() && (#[trigger] s[i]).key == key
}

/// The entries with each key kept only where it first occurs.
pub open spec fn first_of_each_key(s: Seq<SourceView>) -> Seq<SourceView>
    decreases s.len(),
{
    if s.len() == 0 {
        Seq::empty()
    } else {
        let rest = first_of_each_key(s.drop_last());
        if has_key(rest, s.last().key) { rest } else { rest.push(s.last()) }
    }
}

fn resource_key_string(peer_id: &str, resource_id: &str) -> (r: String)
    ensures
        r@ == resource_key(peer_id@, resource_id@),
{
    let mut v: Vec<char> = Vec::new();
    push_str(&mut v, "p2p://");
    push_str(&mut v, peer_id);
    push_str(&mut v, "@");
    push_str(&mut v, resource_id);
    string_of(v.as_slice())
}

fn bare_key_string(peer_id: &str) -> (r: String)
    ensures
        r@ == bare_key(peer_id@),
{
    let mut v: Vec<char> = Vec::new();
    push_str(&mut v, "p2p://");
    push_str(&mut v, peer_id);
    string_of(v.as_slice())
}

fn resource_line_string(resource_id: &str, peer_id: &str) -> (r: String)
    ensures
        r@ == resource_line(resource_id@, peer_id@),
{
    let mut v: Vec<char> = Vec::new();
    push_str(&mut v, "Resource ID: ");
    push_str(&mut v, resource_id);
    push_str(&mut v, " | Peer ID: ");
    push_str(&mut v, peer_id);
    string_of(v.as_slice())
}

fn labeled_string(a: &str, b: &str) -> (r: String)
    ensures
        r@ == labeled(a@, b@),
{
    let mut v: Vec<char> = Vec::new();
    push_str(&mut v, a);
    push_str(&mut v, " (");
    push_str(&mut v, b);
    push_str(&mut v, ")");
    string_of(v.as_slice())
}

fn concat_string(a: &str, b: &str) -> (r: String)
    ensures
        r@ == a@ + b@,
{
    let mut v: Vec<char> = Vec::new();
    push_str(&mut v, a);
    push_str(&mut v, b);
    string_of(v.as_slice())
}


fn make_source(
    peer_id: String,
    resource_id: String,
    name: String,
    subtitle: String,
    key: String,
    is_online: bool,
    favorites: &[String],
) -> (r: P2pSource)
    ensures
        r@ == entry(peer_id@, resource_id@, name@, subtitle@, key@, is_online, texts_of(favorites@)),
{
    let is_favorite = crate::text::contains_string(favorites, key.as_str());
    P2pSource { peer_id, resource_id, name, subtitle, key, is_online, is_favorite }
}

/// Adds a source unless one with its key is listed already.
fn push_unique(out: &mut Vec<P2pSource>, src: P2pSource)
    ensures
        source_views(final(out)@) == (if has_key(source_views(old(out)@), src@.key) {
            source_views(old(out)@)
        } else {
            source_views(old(out)@).push(src@)
        }),
{
    let ghost ov = source_views(out@);
    let mut i: usize = 0;
    while i < out.len()
        invariant
            0 <= i <= out.len(),
            ov == source_views(out@),
            forall|j: int| 0 <= j < i ==> (#[trigger] ov[j]).key != src@.key,
        decreases out.len() - i,
    {
        if same_text(out[i].key.as_str(), src.key.as_str()) {
            assert(ov[i as int].key == src@.key);
            return;
        }
        i = i + 1;
    }
    let ghost sv = src@;
    out.push(src);
    assert(source_views(out@) =~= ov.push(sv));
}

proof fn lemma_first_of_each_key_push(base: Seq<SourceView>, s: Seq<SourceView>, x: SourceView)
    ensures
        first_of_each_key(base + s.push(x)) == (if has_key(first_of_each_key(base + s), x.key) {
            first_of_each_key(base + s)
        } else {
            first_of_each_key(base + s).push(x)
        }),
{
    assert((base + s.push(x)).drop_last() =~= base + s);
}

fn is_fs(r: &SharedResource) -> (b: bool)
    ensures
        b == (r.resource_type == ResourceType::Filesystem),
{
    match r.resource_type {
        ResourceType::Filesystem => true,
        _ => false,
    }
}

/// Adds the entries of a node's shared folders, labelled `label`.
fn add_share_entries(
    out: &mut Vec<P2pSource>,
    Ghost(base): Ghost<Seq<SourceView>>,
    peer_id: &str,
    label: &str,
    node: &NodeInfo,
    skip_key: &Option<String>,
    favorites: &[String],
)
    requires
        source_views(old(out)@) == first_of_each_key(base),
    ensures
        source_views(final(out)@) == first_of_each_key(base + share_entries(
            peer_id@,
            label@,
            fs_shares(*node),
            match skip_key {
                Some(k) => Some(k@),
                None => None,
            },
            texts_of(favorites@),
        )),
{
    let ghost fs = |r: SharedResource| r.resource_type == ResourceType::Filesystem;
    let ghost sk = match skip_key {
        Some(k) => Some(k@),
        None => None,
    };
    let ghost fv = texts_of(favorites@);
    let ghost res = node.resources@;
    let mut i: usize = 0;
    assert(res.take(0).filter(fs) =~= Seq::<SharedResource>::empty());
    assert(base + share_entries(peer_id@, label@, res.take(0).filter(fs), sk, fv) =~= base);
    while i < node.resources.len()
        invariant
            0 <= i <= node.resources.len(),
            res == node.resources@,
            fs == (|r: SharedResource| r.resource_type == ResourceType::Filesystem),
            sk == (match skip_key {
                Some(k) => Some(k@),
                None => None,
            }),
            fv == texts_of(favorites@),
            source_views(out@) == first_of_each_key(base + share_entries(peer_id@, label@, res.take(i as int).filter(fs), sk, fv)),
        decreases node.resources.len() - i,
    {
        let r = &node.resources[i];
        let ghost prev = res.take(i as int).filter(fs);
        proof {
            res.take(i as int).lemma_filter_push(res[i as int], fs);
            assert(res.take(i + 1) =~= res.take(i as int).push(res[i as int]));
        }
        if is_fs(r) {
            let key = resource_key_string(peer_id, r.id.as_str());
            let skip = match skip_key {
                Some(k) => same_text(k.as_str(), key.as_str()),
                None => false,
            };
            assert(prev.push(*r).drop_last() =~= prev);
            if !skip {
                let name = labeled_string(r.name.as_str(), label);
                let line = resource_line_string(r.id.as_str(), peer_id);
                let src = make_source(peer_id.to_owned(), r.id.clone(), name, line, key, true, favorites);
                proof {
                    lemma_first_of_each_key_push(base, share_entries(peer_id@, label@, prev, sk, fv), src@);
                }
                push_unique(out, src);
            }
        }
        i = i + 1;
    }
    assert(res.take(res.len() as int) =~= res);
}

/// Whether a node shares at least one folder.
fn has_fs_share(node: &NodeInfo) -> (r: bool)
    ensures
        r == (fs_shares(*node).len() > 0),
{
    let ghost fs = |r: SharedResource| r.resource_type == ResourceType::Filesystem;
    let ghost res = node.resources@;
    let mut i: usize = 0;
    assert(res.take(0).filter(fs) =~= Seq::<SharedResource>::empty());
    while i < node.resources.len()
        invariant
            0 <= i <= node.resources.len(),
            res == node.resources@,
            fs == (|r: SharedResource| r.resource_type == ResourceType::Filesystem),
            res.take(i as int).filter(fs).len() == 0,
        decreases node.resources.len() - i,
    {
        proof {
            res.take(i as int).lemma_filter_push(res[i as int], fs);
            assert(res.take(i + 1) =~= res.take(i as int).push(res[i as int]));
        }
        if is_fs(&node.resources[i]) {
            proof {
                lemma_filter_prefix_nonempty(res, fs, i + 1);
            }
            return true;
        }
        i = i + 1;
    }
    assert(res.take(res.len() as int) =~= res);
    false
}

proof fn lemma_filter_prefix_nonempty(s: Seq<SharedResource>, f: spec_fn(SharedResource) -> bool, k: int)
    requires
        0 <= k <= s.len(),
        s.take(k).filter(f).len() > 0,
    ensures
        s.filter(f).len() > 0,
    decreases s.len() - k,
{
    if k < s.len() {
        s.take(k).lemma_filter_push(s[k], f);
        assert(s.take(k + 1) =~= s.take(k).push(s[k]));
        lemma_filter_prefix_nonempty(s, f, k + 1);
    } else {
        assert(s.take(k) =~= s);
    }
}

proof fn lemma_online_node_prefix(nodes: Seq<NodeInfo>, id: Seq<char>, k: int)
    requires
        0 <= k <= nodes.len(),
        online_node(nodes.take(k), id) is Some,
    ensures
        online_node(nodes, id) == online_node(nodes.take(k), id),
    decreases nodes.len() - k,
{
    if k < nodes.len() {
        assert(nodes.take(k + 1).drop_last() =~= nodes.take(k));
        lemma_online_node_prefix(nodes, id, k + 1);
    } else {
        assert(nodes.take(k) =~= nodes);
    }
}

/// The position of the first online node with id `id`.
pub(crate) fn find_online(nodes: &Vec<NodeInfo>, id: &str) -> (r: Option<usize>)
    ensures
        match r {
            Some(i) => i < nodes@.len() && online_node(nodes@, id@) == Some(nodes@[i as int]),
            None => online_node(nodes@, id@) is None,
        },
{
    let mut i: usize = 0;
    while i < nodes.len()
        invariant
            0 <= i <= nodes.len(),
            online_node(nodes@.take(i as int), id@) is None,
        decreases nodes.len() - i,
    {
        assert(nodes@.take(i + 1).drop_last() =~= nodes@.take(i as int));
        if nodes[i].is_online && same_text(nodes[i].id.as_str(), id) {
            proof {
                lemma_online_node_prefix(nodes@, id@, i + 1);
            }
            return Some(i);
        }
        i = i + 1;
    }
    assert(nodes@.take(nodes@.len() as int) =~= nodes@);
    None
}

/// Whether a node id is among the saved peers.
fn saved_has(peers: &Vec<SavedPeerConnection>, id: &str) -> (r: bool)
    ensures
        r == is_saved(peers@, id@),
{
    let mut i: usize = 0;
    while i < peers.len()
        invariant
            0 <= i <= peers.len(),
            forall|j: int| 0 <= j < i ==> (#[trigger] peers@[j]).peer_id@ != id@,
        decreases peers.len() - i,
    {
        if same_text(peers[i].peer_id.as_str(), id) {
            assert(peers@[i as int].peer_id@ == id@);
            return true;
        }
        i = i + 1;
    }
    false
}

/// The active connection as texts.
pub open spec fn active_view(active: Option<(String, String)>) -> Option<(Seq<char>, Seq<char>)> {
    match active {
        Some((p, r)) => Some((p@, r@)),
        None => None,
    }
}

/// The drives the source list offers for peers: the active connection
/// first (unless it is to ourselves), then each saved peer (offline, bare,
/// or one entry per shared folder), then the shared folders of other
/// online nodes. A key is listed once, where it first comes; favourites are
/// flagged; this device never appears.
pub fn peer_sources(ctx: &P2pContext, active: Option<(String, String)>, favorites: &[String]) -> (r: Vec<P2pSource>)
    requires
        active matches Some((p, _)) ==> is_self_id(ctx.my_id@, p@) || peer_label(ctx.saved_peers@, ctx.known, p@) is Some
            || shortenable(p@),
    ensures
        source_views(r@) == first_of_each_key(candidates(*ctx, active_view(active), texts_of(favorites@))),
{
    let ghost fv = texts_of(favorites@);
    let ghost av = active_view(active);
    let mut out: Vec<P2pSource> = Vec::new();
    let active_key: Option<String> = match &active {
        Some((p, r)) => Some(resource_key_string(p.as_str(), r.as_str())),
        None => None,
    };
    let ghost ak = match av {
        Some((p, r)) => Some(resource_key(p, r)),
        None => None,
    };
    assert(ak == match active_key {
        Some(k) => Some(k@),
        None => None,
    });
    let ghost mut cands: Seq<SourceView> = Seq::empty();
    assert(first_of_each_key(cands) =~= source_views(out@));
    if let Some((p, r)) = &active {
        if !ctx.is_self(p.as_str()) {
            let name = drive_name(p.as_str(), r.as_str(), ctx.saved_peers.as_slice(), &ctx.known);
            let key = resource_key_string(p.as_str(), r.as_str());
            let line = resource_line_string(r.as_str(), p.as_str());
            let src = make_source(p.clone(), r.clone(), name, line, key, true, favorites);
            proof {
                lemma_first_of_each_key_push(Seq::empty(), Seq::empty(), src@);
                assert(Seq::<SourceView>::empty() + seq![src@] =~= seq![src@]);
                assert(Seq::<SourceView>::empty() + Seq::<SourceView>::empty().push(src@) =~= seq![src@]);
                assert(Seq::<SourceView>::empty() + Seq::<SourceView>::empty() =~= Seq::<SourceView>::empty());
                cands = seq![src@];
            }
            push_unique(&mut out, src);
        }
    }
    assert(cands =~= active_entries(*ctx, av, fv));
    let ghost head = cands;
    let peers = &ctx.saved_peers;
    let mut i: usize = 0;
    assert(head + saved_entries(*ctx, peers@.take(0), fv) =~= head);
    while i < peers.len()
        invariant
            0 <= i <= peers.len(),
            peers == &ctx.saved_peers,
            fv == texts_of(favorites@),
            source_views(out@) == first_of_each_key(head + saved_entries(*ctx, peers@.take(i as int), fv)),
        decreases peers.len() - i,
    {
        let peer = &peers[i];
        let ghost before = head + saved_entries(*ctx, peers@.take(i as int), fv);
        proof {
            assert(peers@.take(i + 1).drop_last() =~= peers@.take(i as int));
            assert(head + saved_entries(*ctx, peers@.take(i + 1), fv) =~= before + saved_peer_entries(*ctx, *peer, fv));
        }
        if ctx.is_self(peer.peer_id.as_str()) {
            assert(before + saved_peer_entries(*ctx, *peer, fv) =~= before);
        } else {
            match find_online(&ctx.online_nodes, peer.peer_id.as_str()) {
                None => {
                    let key = bare_key_string(peer.peer_id.as_str());
                    let name = concat_string(peer.name.as_str(), ctx.labels.offline_suffix.as_str());
                    let src = make_source(peer.peer_id.clone(), String::new(), name, peer.peer_id.clone(), key, false, favorites);
                    proof {
                        lemma_first_of_each_key_push(before, Seq::empty(), src@);
                        assert(before + Seq::<SourceView>::empty() =~= before);
                        assert(before + Seq::<SourceView>::empty().push(src@) =~= before + saved_peer_entries(*ctx, *peer, fv));
                    }
                    push_unique(&mut out, src);
                },
                Some(ni) => {
                    let node = &ctx.online_nodes[ni];
                    if !has_fs_share(node) {
                        let key = bare_key_string(peer.peer_id.as_str());
                        let src = make_source(peer.peer_id.clone(), String::new(), peer.name.clone(), peer.peer_id.clone(), key, true, favorites);
                        proof {
                            lemma_first_of_each_key_push(before, Seq::empty(), src@);
                            assert(before + Seq::<SourceView>::empty() =~= before);
                            assert(before + Seq::<SourceView>::empty().push(src@) =~= before + saved_peer_entries(*ctx, *peer, fv));
                        }
                        push_unique(&mut out, src);
                    } else {
                        let no_skip: Option<String> = None;
                        add_share_entries(&mut out, Ghost(before), peer.peer_id.as_str(), peer.name.as_str(), node, &no_skip, favorites);
                    }
                },
            }
        }
        i = i + 1;
    }
    assert(peers@.take(peers@.len() as int) =~= peers@);
    let ghost mid = head + saved_entries(*ctx, ctx.saved_peers@, fv);
    let nodes = &ctx.online_nodes;
    let mut j: usize = 0;
    assert(mid + nodes_entries(*ctx, nodes@.take(0), ak, fv) =~= mid);
    while j < nodes.len()
        invariant
            0 <= j <= nodes.len(),
            nodes == &ctx.online_nodes,
            fv == texts_of(favorites@),
            ak == match active_key {
                Some(k) => Some(k@),
                None => None,
            },
            source_views(out@) == first_of_each_key(mid + nodes_entries(*ctx, nodes@.take(j as int), ak, fv)),
        decreases nodes.len() - j,
    {
        let node = &nodes[j];
        let ghost before = mid + nodes_entries(*ctx, nodes@.take(j as int), ak, fv);
        proof {
            assert(nodes@.take(j + 1).drop_last() =~= nodes@.take(j as int));
            assert(mid + nodes_entries(*ctx, nodes@.take(j + 1), ak, fv) =~= before + node_entries(*ctx, *node, ak, fv));
        }
        if !node.is_online || ctx.is_self(node.id.as_str()) || saved_has(&ctx.saved_peers, node.id.as_str()) {
            assert(before + node_entries(*ctx, *node, ak, fv) =~= before);
        } else {
            let device = if node.name.as_str().is_empty() {
                ctx.labels.unnamed_device.clone()
            } else {
                node.name.clone()
            };
            add_share_entries(&mut out, Ghost(before), node.id.as_str(), device.as_str(), node, &active_key, favorites);
        }
        j = j + 1;
    }
    assert(nodes@.take(nodes@.len() as int) =~= nodes@);
    assert(mid + nodes_entries(*ctx, ctx.online_nodes@, ak, fv) =~= candidates(*ctx, av, fv));
    out
}

/// Every entry is of another device and flagged a favourite exactly when
/// its key is among `favorites`.
pub open spec fn well_flagged(s: Seq<SourceView>, my_id: Seq<char>, favorites: Seq<Seq<char>>) -> bool {
    forall|i: int|
        0 <= i < s.len() ==> !is_self_id(my_id, (#[trigger] s[i]).peer_id) && s[i].is_favorite == favorites.contains(
            s[i].key,
        )
}

proof fn lemma_well_flagged_concat(a: Seq<SourceView>, b: Seq<SourceView>, my_id: Seq<char>, fv: Seq<Seq<char>>)
    requires
        well_flagged(a, my_id, fv),
        well_flagged(b, my_id, fv),
    ensures
        well_flagged(a + b, my_id, fv),
{
    assert forall|i: int| 0 <= i < (a + b).len() implies !is_self_id(my_id, (#[trigger] (a + b)[i]).peer_id)
        && (a + b)[i].is_favorite == fv.contains((a + b)[i].key) by {
        if i < a.len() {
            assert((a + b)[i] == a[i]);
        } else {
            assert((a + b)[i] == b[i - a.len()]);
        }
    }
}

proof fn lemma_share_entries_flagged(
    peer_id: Seq<char>,
    label: Seq<char>,
    shares: Seq<SharedResource>,
    skip: Option<Seq<char>>,
    my_id: Seq<char>,
    fv: Seq<Seq<char>>,
)
    requires
        !is_self_id(my_id, peer_id),
    ensures
        well_flagged(share_entries(peer_id, label, shares, skip, fv), my_id, fv),
    decreases shares.len(),
{
    if shares.len() > 0 {
        lemma_share_entries_flagged(peer_id, label, shares.drop_last(), skip, my_id, fv);
        let rest = share_entries(peer_id, label, shares.drop_last(), skip, fv);
        let sh = shares.last();
        let key = resource_key(peer_id, sh.id@);
        let e = entry(peer_id, sh.id@, labeled(sh.name@, label), resource_line(sh.id@, peer_id), key, true, fv);
        assert(well_flagged(seq![e], my_id, fv));
        lemma_well_flagged_concat(rest, seq![e], my_id, fv);
        assert(rest + seq![e] =~= rest.push(e));
    }
}

proof fn lemma_candidates_flagged(ctx: P2pContext, active: Option<(Seq<char>, Seq<char>)>, fv: Seq<Seq<char>>)
    ensures
        well_flagged(candidates(ctx, active, fv), ctx.my_id@, fv),
{
    let my = ctx.my_id@;
    let ak = match active {
        Some((p, r)) => Some(resource_key(p, r)),
        None => None,
    };
    lemma_saved_flagged(ctx, ctx.saved_peers@, fv);
    lemma_nodes_flagged(ctx, ctx.online_nodes@, ak, fv);
    let a = active_entries(ctx, active, fv);
    assert(well_flagged(a, my, fv));
    lemma_well_flagged_concat(a, saved_entries(ctx, ctx.saved_peers@, fv), my, fv);
    lemma_well_flagged_concat(a + saved_entries(ctx, ctx.saved_peers@, fv), nodes_entries(ctx, ctx.online_nodes@, ak, fv), my, fv);
}

proof fn lemma_saved_flagged(ctx: P2pContext, peers: Seq<SavedPeerConnection>, fv: Seq<Seq<char>>)
    ensures
        well_flagged(saved_entries(ctx, peers, fv), ctx.my_id@, fv),
    decreases peers.len(),
{
    if peers.len() > 0 {
        lemma_saved_flagged(ctx, peers.drop_last(), fv);
        let peer = peers.last();
        let id = peer.peer_id@;
        if !is_self_id(ctx.my_id@, id) {
            if let Some(node) = online_node(ctx.online_nodes@, id) {
                lemma_share_entries_flagged(id, peer.name@, fs_shares(node), None, ctx.my_id@, fv);
            }
        }
        assert(well_flagged(saved_peer_entries(ctx, peer, fv), ctx.my_id@, fv));
        lemma_well_flagged_concat(saved_entries(ctx, peers.drop_last(), fv), saved_peer_entries(ctx, peer, fv), ctx.my_id@, fv);
    }
}

proof fn lemma_nodes_flagged(ctx: P2pContext, nodes: Seq<NodeInfo>, ak: Option<Seq<char>>, fv: Seq<Seq<char>>)
    ensures
        well_flagged(nodes_entries(ctx, nodes, ak, fv), ctx.my_id@, fv),
    decreases nodes.len(),
{
    if nodes.len() > 0 {
        lemma_nodes_flagged(ctx, nodes.drop_last(), ak, fv);
        let node = nodes.last();
        if node.is_online && !is_self_id(ctx.my_id@, node.id@) && !is_saved(ctx.saved_peers@, node.id@) {
            let device = if node.name@.len() == 0 { ctx.labels.unnamed_device@ } else { node.name@ };
            lemma_share_entries_flagged(node.id@, device, fs_shares(node), ak, ctx.my_id@, fv);
        }
        assert(well_flagged(node_entries(ctx, node, ak, fv), ctx.my_id@, fv));
        lemma_well_flagged_concat(nodes_entries(ctx, nodes.drop_last(), ak, fv), node_entries(ctx, node, ak, fv), ctx.my_id@, fv);
    }
}

proof fn lemma_first_of_each_key(s: Seq<SourceView>)
    ensures
        forall|a: int, b: int| 0 <= a < b < first_of_each_key(s).len() ==> (#[trigger] first_of_each_key(s)[a]).key
            != (#[trigger] first_of_each_key(s)[b]).key,
        forall|i: int| 0 <= i < first_of_each_key(s).len() ==> exists|j: int| 0 <= j < s.len() && s[j] == #[trigger] first_of_each_key(s)[i],
        forall|j: int| 0 <= j < s.len() ==> has_key(first_of_each_key(s), (#[trigger] s[j]).key),
    decreases s.len(),
{
    if s.len() > 0 {
        let t = s.drop_last();
        lemma_first_of_each_key(t);
        let rest = first_of_each_key(t);
        let x = s.last();
        if !has_key(rest, x.key) {
            let f = rest.push(x);
            assert forall|i: int| 0 <= i < f.len() implies exists|j: int| 0 <= j < s.len() && s[j] == #[trigger] f[i] by {
                if i < rest.len() {
                    let j = choose|j: int| 0 <= j < t.len() && t[j] == rest[i];
                    assert(s[j] == f[i]);
                } else {
                    assert(s[s.len() - 1] == f[i]);
                }
            }
            assert forall|j: int| 0 <= j < s.len() implies has_key(f, (#[trigger] s[j]).key) by {
                if j < t.len() {
                    assert(s[j] == t[j]);
                    let k = choose|k: int| 0 <= k < rest.len() && (#[trigger] rest[k]).key == t[j].key;
                    assert(f[k] == rest[k]);
                } else {
                    assert(f[rest.len() as int] == x);
                }
            }
        } else {
            assert forall|i: int| 0 <= i < rest.len() implies exists|j: int| 0 <= j < s.len() && s[j] == #[trigger] rest[i] by {
                let j = choose|j: int| 0 <= j < t.len() && t[j] == rest[i];
                assert(s[j] == rest[i]);
            }
            assert forall|j: int| 0 <= j < s.len() implies has_key(rest, (#[trigger] s[j]).key) by {
                if j < t.len() {
                    assert(s[j] == t[j]);
                }
            }
        }
    }
}

/// The source list never offers this device, never lists a key twice, and
/// flags exactly the favourite keys; every entry it lists is one of the
/// candidates, and every candidate's key is listed.
pub proof fn law_peer_sources_clean(ctx: P2pContext, active: Option<(Seq<char>, Seq<char>)>, favorites: Seq<Seq<char>>)
    ensures
        ({
            let r = first_of_each_key(candidates(ctx, active, favorites));
            &&& well_flagged(r, ctx.my_id@, favorites)
            &&& forall|a: int, b: int| 0 <= a < b < r.len() ==> (#[trigger] r[a]).key != (#[trigger] r[b]).key
            &&& forall|j: int| 0 <= j < candidates(ctx, active, favorites).len() ==> has_key(r, (#[trigger] candidates(ctx, active, favorites)[j]).key)
        }),
{
    let c = candidates(ctx, active, favorites);
    lemma_candidates_flagged(ctx, active, favorites);
    lemma_first_of_each_key(c);
    let r = first_of_each_key(c);
    assert forall|i: int| 0 <= i < r.len() implies !is_self_id(ctx.my_id@, (#[trigger] r[i]).peer_id) && r[i].is_favorite
        == favorites.contains(r[i].key) by {
        let j = choose|j: int| 0 <= j < c.len() && c[j] == r[i];
    }
}

} // verus!
