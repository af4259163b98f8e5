use vstd::prelude::*;
use crate::network::{NodeInfo, ResourceType, SharedResource};
use crate::text::same_text;

verus! {

/// The state of the signalling connection.
#[derive(Clone, Copy, PartialEq, Eq, Debug, Structural)]
pub enum WsState {
    Disconnected,
    Connecting,
    Connected,
    LocalMesh,
    LocalMeshError,
}

/// The id of the terminal a node shares: its first active terminal
/// resource.
pub open spec fn shared_terminal(resources: Seq<SharedResource>) -> Option<Seq<char>>
    decreases resources.len(),
{
    if resources.len() == 0 {
        None
    } else {
        match shared_terminal(resources.drop_last()) {
            Some(t) => Some(t),
            None => {
                let r = resources.last();
                if r.resource_type == ResourceType::Terminal && r.is_active { Some(r.id@) } else { None }
            },
        }
    }
}

/// For every node that shares a terminal, that terminal; when a node id
/// comes twice, its last report counts.
pub open spec fn terminals_of(nodes: Seq<NodeInfo>) -> Map<Seq<char>, Seq<char>>
    decreases nodes.len(),
{
    if nodes.len() == 0 {
        Map::empty()
    } else {
        let rest = terminals_of(nodes.drop_last());
        match shared_terminal(nodes.last().resources@) {
            Some(t) => rest.insert(nodes.last().id@, t),
            None => rest,
        }
    }
}

/// The terminals peers share: (peer id, terminal resource id), each peer
/// once.
pub struct PeerTerminals {
    entries: Vec<(String, String)>,
}

impl PeerTerminals {
    /// No peer id occurs twice.
    pub closed spec fn wf(&self) -> bool {
        forall|i: int, j: int| 0 <= i < j < self.entries@.len() ==> self.entries@[i].0@ != self.entries@[j].0@
    }

    /// The terminals as a map from peer id to terminal id.
    pub closed spec fn view_map(&self) -> Map<Seq<char>, Seq<char>> {
        Map::new(
            |k: Seq<char>| exists|i: int| 0 <= i < self.entries@.len() && self.entries@[i].0@ == k,
            |k: Seq<char>| {
                let i = choose|i: int| 0 <= i < self.entries@.len() && self.entries@[i].0@ == k;
                self.entries@[i].1@
            },
        )
    }

    fn find(&self, peer_id: &str) -> (r: Option<usize>)
        requires
            self.wf(),
        ensures
            match r {
                Some(i) => i < self.entries@.len() && self.entries@[i as int].0@ == peer_id@,
                None => !self.view_map().dom().contains(peer_id@),
            },
    {
        let mut i: usize = 0;
        while i < self.entries.len()
            invariant
                0 <= i <= self.entries@.len(),
                forall|j: int| 0 <= j < i ==> self.entries@[j].0@ != peer_id@,
            decreases self.entries.len() - i,
        {
            if same_text(self.entries[i].0.as_str(), peer_id) {
                return Some(i);
            }
            i = i + 1;
        }
        None
    }

    /// The terminal `peer_id` shares, if any.
    pub fn get(&self, peer_id: &str) -> (r: Option<String>)
        requires
            self.wf(),
        ensures
            match r {
                Some(t) => self.view_map().dom().contains(peer_id@) && self.view_map()[peer_id@] == t@,
                None => !self.view_map().dom().contains(peer_id@),
            },
    {
        match self.find(peer_id) {
            Some(i) => {
                proof {
                    self.lemma_lookup(i as int);
                }
                Some(self.entries[i].1.clone())
            },
            None => None,
        }
    }

    proof fn lemma_lookup(&self, i: int)
        requires
            self.wf(),
            0 <= i < self.entries@.len(),
        ensures
            self.view_map().dom().contains(self.entries@[i].0@),
            self.view_map()[self.entries@[i].0@] == self.entries@[i].1@,
    {
        let k = self.entries@[i].0@;
        assert(self.view_map().dom().contains(k));
        let j = choose|j: int| 0 <= j < self.entries@.len() && self.entries@[j].0@ == k;
        assert(j == i);
    }

    /// Whether no peer shares a terminal.
    pub fn is_empty(&self) -> (r: bool)
        ensures
            r == (self.view_map().dom() =~= Set::empty()),
    {
        let r = self.entries.len() == 0;
        if !r {
            assert(self.view_map().dom().contains(self.entries@[0].0@));
        }
        r
    }

    fn put(&mut self, peer_id: String, terminal: String)
        requires
            old(self).wf(),
        ensures
            final(self).wf(),
            final(self).view_map() == old(self).view_map().insert(peer_id@, terminal@),
    {
        let ghost before = self.entries@;
        let ghost old_map = self.view_map();
        let ghost k = peer_id@;
        let ghost v = terminal@;
        match self.find(peer_id.as_str()) {
            Some(i) => {
                self.entries.set(i, (peer_id, terminal));
                proof {
                    assert forall|a: int, b: int| 0 <= a < b < self.entries@.len() implies self.entries@[a].0@ != self.entries@[b].0@ by {
                        if a != i && b != i {
                            assert(self.entries@[a] == before[a]);
                            assert(self.entries@[b] == before[b]);
                        } else if a == i {
                            assert(self.entries@[b] == before[b]);
                        } else {
                            assert(self.entries@[a] == before[a]);
                        }
                    }
                    assert forall|kk: Seq<char>| #[trigger] self.view_map().dom().contains(kk) <==> old_map.insert(k, v).dom().contains(kk) by {
                        if self.view_map().dom().contains(kk) {
                            let j = choose|j: int| 0 <= j < self.entries@.len() && self.entries@[j].0@ == kk;
                            if j != i {
                                assert(before[j].0@ == kk);
                            }
                        }
                        if old_map.dom().contains(kk) {
                            let j = choose|j: int| 0 <= j < before.len() && before[j].0@ == kk;
                            if j != i {
                                assert(self.entries@[j].0@ == kk);
                            } else {
                                assert(self.entries@[i as int].0@ == kk);
                            }
                        }
                        if kk == k {
                            assert(self.entries@[i as int].0@ == kk);
                        }
                    }
                    assert forall|kk: Seq<char>| #[trigger] self.view_map().dom().contains(kk) implies self.view_map()[kk] == old_map.insert(k, v)[kk] by {
                        let j = choose|j: int| 0 <= j < self.entries@.len() && self.entries@[j].0@ == kk;
                        self.lemma_lookup(j);
                        if j != i {
                            assert(before[j] == self.entries@[j]);
                            assert(old_map.dom().contains(kk));
                            let jj = choose|jj: int| 0 <= jj < before.len() && before[jj].0@ == kk;
                            assert(jj == j);
                        }
                    }
                    assert(self.view_map() =~= old_map.insert(k, v));
                }
            },
            None => {
                self.entries.push((peer_id, terminal));
                proof {
                    let n = before.len() as int;
                    assert forall|a: int, b: int| 0 <= a < b < self.entries@.len() implies self.entries@[a].0@ != self.entries@[b].0@ by {
                        if b < n {
                            assert(self.entries@[a] == before[a]);
                            assert(self.entries@[b] == before[b]);
                        } else {
                            assert(self.entries@[a] == before[a]);
                            assert(old_map.dom().contains(before[a].0@));
                        }
                    }
                    assert forall|kk: Seq<char>| #[trigger] self.view_map().dom().contains(kk) <==> old_map.insert(k, v).dom().contains(kk) by {
                        if self.view_map().dom().contains(kk) {
                            let j = choose|j: int| 0 <= j < self.entries@.len() && self.entries@[j].0@ == kk;
                            if j < n {
                                assert(before[j].0@ == kk);
                            }
                        }
                        if old_map.dom().contains(kk) {
                            let j = choose|j: int| 0 <= j < before.len() && before[j].0@ == kk;
                            assert(self.entries@[j].0@ == kk);
                        }
                        if kk == k {
                            assert(self.entries@[n].0@ == kk);
                        }
                    }
                    assert forall|kk: Seq<char>| #[trigger] self.view_map().dom().contains(kk) implies self.view_map()[kk] == old_map.insert(k, v)[kk] by {
                        let j = choose|j: int| 0 <= j < self.entries@.len() && self.entries@[j].0@ == kk;
                        self.lemma_lookup(j);
                        if j < n {
                            assert(before[j] == self.entries@[j]);
                            let jj = choose|jj: int| 0 <= jj < before.len() && before[jj].0@ == kk;
                            assert(jj == j);
                        }
                    }
                    assert(self.view_map() =~= old_map.insert(k, v));
                }
            },
        }
    }
}

fn terminal_of(node: &NodeInfo) -> (r: Option<String>)
    ensures
        match r {
            Some(t) => shared_terminal(node.resources@) == Some(t@),
            None => shared_terminal(node.resources@) is None,
        },
{
    let rs = &node.resources;
    let mut i: usize = 0;
    while i < rs.len()
        invariant
            0 <= i <= rs.len(),
            rs@ == node.resources@,
            shared_terminal(rs@.take(i as int)) is None,
        decreases rs.len() - i,
    {
        assert(rs@.take(i + 1).drop_last() =~= rs@.take(i as int));
        let is_term = match rs[i].resource_type {
            ResourceType::Terminal => true,
            _ => false,
        };
        if is_term && rs[i].is_active {
            assert(shared_terminal(rs@.take(i + 1)) == Some(rs@[i as int].id@));
            proof {
                lemma_shared_terminal_prefix(rs@, i + 1);
            }
            return Some(rs[i].id.clone());
        }
        i = i + 1;
    }
    assert(rs@.take(rs@.len() as int) =~= rs@);
    None
}

proof fn lemma_shared_terminal_prefix(rs: Seq<SharedResource>, k: int)
    requires
        0 <= k <= rs.len(),
        shared_terminal(rs.take(k)) is Some,
    ensures
        shared_terminal(rs) == shared_terminal(rs.take(k)),
    decreases rs.len() - k,
{
    if k < rs.len() {
        assert(rs.take(k + 1).drop_last() =~= rs.take(k));
        lemma_shared_terminal_prefix(rs, k + 1);
    } else {
        assert(rs.take(k) =~= rs);
    }
}

proof fn lemma_shared_terminal_is_first_active_terminal(rs: Seq<SharedResource>)
    ensures
        shared_terminal(rs) matches Some(t) ==> exists|i: int|
            0 <= i < rs.len() && rs[i].resource_type == ResourceType::Terminal && rs[i].is_active && rs[i].id@ == t
                && forall|j: int|
                0 <= j < i ==> !((#[trigger] rs[j]).resource_type == ResourceType::Terminal && rs[j].is_active),
    decreases rs.len(),
{
    if rs.len() > 0 {
        let d = rs.drop_last();
        lemma_shared_terminal_is_first_active_terminal(d);
        match shared_terminal(d) {
            Some(t) => {
                let i = choose|i: int|
                    0 <= i < d.len() && d[i].resource_type == ResourceType::Terminal && d[i].is_active && d[i].id@ == t
                        && forall|j: int|
                        0 <= j < i ==> !((#[trigger] d[j]).resource_type == ResourceType::Terminal && d[j].is_active);
                assert(rs[i] == d[i]);
                assert forall|j: int| 0 <= j < i implies !((#[trigger] rs[j]).resource_type == ResourceType::Terminal
                    && rs[j].is_active) by {
                    assert(rs[j] == d[j]);
                }
            },
            None => {
                lemma_no_shared_terminal(d);
                if shared_terminal(rs) is Some {
                    let i = rs.len() - 1;
                    assert forall|j: int| 0 <= j < i implies !((#[trigger] rs[j]).resource_type == ResourceType::Terminal
                        && rs[j].is_active) by {
                        assert(rs[j] == d[j]);
                    }
                }
            },
        }
    }
}

proof fn lemma_no_shared_terminal(rs: Seq<SharedResource>)
    ensures
        shared_terminal(rs) is None ==> forall|j: int|
            0 <= j < rs.len() ==> !((#[trigger] rs[j]).resource_type == ResourceType::Terminal && rs[j].is_active),
    decreases rs.len(),
{
    if rs.len() > 0 {
        let d = rs.drop_last();
        lemma_no_shared_terminal(d);
        if shared_terminal(rs) is None {
            assert forall|j: int| 0 <= j < rs.len() implies !((#[trigger] rs[j]).resource_type == ResourceType::Terminal
                && rs[j].is_active) by {
                if j < d.len() {
                    assert(rs[j] == d[j]);
                }
            }
        }
    }
}

proof fn lemma_terminals_of_node(nodes: Seq<NodeInfo>, k: Seq<char>)
    ensures
        terminals_of(nodes).dom().contains(k) ==> exists|n: int|
            0 <= n < nodes.len() && nodes[n].id@ == k && shared_terminal(nodes[n].resources@) == Some(
                terminals_of(nodes)[k],
            ),
    decreases nodes.len(),
{
    if nodes.len() > 0 {
        let d = nodes.drop_last();
        lemma_terminals_of_node(d, k);
        if terminals_of(nodes).dom().contains(k) {
            match shared_terminal(nodes.last().resources@) {
                Some(t) => {
                    if nodes.last().id@ != k {
                        let n = choose|n: int|
                            0 <= n < d.len() && d[n].id@ == k && shared_terminal(d[n].resources@) == Some(terminals_of(d)[k]);
                        assert(nodes[n] == d[n]);
                    } else {
                        assert(nodes[nodes.len() - 1] == nodes.last());
                    }
                },
                None => {
                    let n = choose|n: int|
                        0 <= n < d.len() && d[n].id@ == k && shared_terminal(d[n].resources@) == Some(terminals_of(d)[k]);
                    assert(nodes[n] == d[n]);
                },
            }
        }
    }
}

/// Every terminal a peer is remembered by is a terminal it shares: the id
/// of an active resource of type Terminal that the peer reported, the first
/// such of its resources. A peer that reports no active terminal is not
/// remembered by one (unless it reported one under the same id before).
pub proof fn law_shared_terminals_are_active_terminals(nodes: Seq<NodeInfo>, k: Seq<char>)
    ensures
        terminals_of(nodes).dom().contains(k) ==> exists|n: int, i: int|
            0 <= n < nodes.len() && nodes[n].id@ == k && 0 <= i < nodes[n].resources@.len() && nodes[n].resources@[i].resource_type
                == ResourceType::Terminal && nodes[n].resources@[i].is_active && nodes[n].resources@[i].id@
                == terminals_of(nodes)[k] && forall|j: int|
                0 <= j < i ==> !((#[trigger] nodes[n].resources@[j]).resource_type == ResourceType::Terminal
                    && nodes[n].resources@[j].is_active),
{
    lemma_terminals_of_node(nodes, k);
    if terminals_of(nodes).dom().contains(k) {
        let n = choose|n: int|
            0 <= n < nodes.len() && nodes[n].id@ == k && shared_terminal(nodes[n].resources@) == Some(terminals_of(nodes)[k]);
        lemma_shared_terminal_is_first_active_terminal(nodes[n].resources@);
    }
}

/// The terminals the reported nodes share.
pub fn shared_terminals(nodes: &[NodeInfo]) -> (r: PeerTerminals)
    ensures
        r.wf(),
        r.view_map() == terminals_of(nodes@),
{
    let mut m = PeerTerminals { entries: Vec::new() };
    assert(m.view_map() =~= Map::<Seq<char>, Seq<char>>::empty());
    let mut i: usize = 0;
    while i < nodes.len()
        invariant
            0 <= i <= nodes.len(),
            m.wf(),
            m.view_map() == terminals_of(nodes@.take(i as int)),
        decreases nodes.len() - i,
    {
        assert(nodes@.take(i + 1).drop_last() =~= nodes@.take(i as int));
        match terminal_of(&nodes[i]) {
            Some(t) => {
                m.put(nodes[i].id.clone(), t);
            },
            None => {},
        }
        i = i + 1;
    }
    assert(nodes@.take(nodes@.len() as int) =~= nodes@);
    m
}

/// A peer-to-peer message, as far as routing it goes: the answers that
/// carry the id of the request they answer (ids as their 128-bit value),
/// terminal output, and everything else.
pub enum P2pMessage {
    EntriesResponse { request_id: u128 },
    MetadataResponse { request_id: u128 },
    CreateDirectoryResponse { request_id: u128 },
    DeleteEntryResponse { request_id: u128 },
    RenameEntryResponse { request_id: u128 },
    SetPermissionsResponse { request_id: u128 },
    FileTransferComplete { transfer_id: u128 },
    FileTransferResponse { transfer_id: u128 },
    TerminalOutput { resource_id: String, data: Vec<u8> },
    Other,
}

/// The id of the request a message answers, if it answers one.
pub open spec fn pending_of(msg: P2pMessage) -> Option<u128> {
    match msg {
        P2pMessage::EntriesResponse { request_id } => Some(request_id),
        P2pMessage::MetadataResponse { request_id } => Some(request_id),
        P2pMessage::CreateDirectoryResponse { request_id } => Some(request_id),
        P2pMessage::DeleteEntryResponse { request_id } => Some(request_id),
        P2pMessage::RenameEntryResponse { request_id } => Some(request_id),
        P2pMessage::SetPermissionsResponse { request_id } => Some(request_id),
        P2pMessage::FileTransferComplete { transfer_id } => Some(transfer_id),
        P2pMessage::FileTransferResponse { transfer_id } => Some(transfer_id),
        _ => None,
    }
}

/// The id of the request a message answers, if it answers one.
pub fn pending_id(msg: &P2pMessage) -> (r: Option<u128>)
    ensures
        r == pending_of(*msg),
        r == match *msg {
            P2pMessage::EntriesResponse { request_id } => Some(request_id),
            P2pMessage::MetadataResponse { request_id } => Some(request_id),
            P2pMessage::CreateDirectoryResponse { request_id } => Some(request_id),
            P2pMessage::DeleteEntryResponse { request_id } => Some(request_id),
            P2pMessage::RenameEntryResponse { request_id } => Some(request_id),
            P2pMessage::SetPermissionsResponse { request_id } => Some(request_id),
            P2pMessage::FileTransferComplete { transfer_id } => Some(transfer_id),
            P2pMessage::FileTransferResponse { transfer_id } => Some(transfer_id),
            _ => None,
        },
{
    match msg {
        P2pMessage::EntriesResponse { request_id }
        | P2pMessage::MetadataResponse { request_id }
        | P2pMessage::CreateDirectoryResponse { request_id }
        | P2pMessage::DeleteEntryResponse { request_id }
        | P2pMessage::RenameEntryResponse { request_id }
        | P2pMessage::SetPermissionsResponse { request_id } => Some(*request_id),
        P2pMessage::FileTransferComplete { transfer_id }
        | P2pMessage::FileTransferResponse { transfer_id } => Some(*transfer_id),
        _ => None,
    }
}

/// Where an incoming message goes.
#[derive(Clone, Copy, PartialEq, Eq, Debug, Structural)]
pub enum MessageRoute {
    /// Terminal output goes to the peer's shell.
    Terminal,
    /// An answer goes to whoever waits for this request.
    Pending(u128),
    /// Anything else is left to others.
    Unhandled,
}

/// The route of an incoming message.
pub fn message_route(msg: &P2pMessage) -> (r: MessageRoute)
    ensures
        msg is TerminalOutput ==> r == MessageRoute::Terminal,
        !(msg is TerminalOutput) ==> r == match pending_of(*msg) {
            Some(id) => MessageRoute::Pending(id),
            None => MessageRoute::Unhandled,
        },
{
    if let P2pMessage::TerminalOutput { .. } = msg {
        return MessageRoute::Terminal;
    }
    match pending_id(msg) {
        Some(id) => MessageRoute::Pending(id),
        None => MessageRoute::Unhandled,
    }
}

/// Whether a message was consumed: terminal output always; an answer when
/// someone waited for it (`waiting`); nothing else.
pub fn message_consumed(route: MessageRoute, waiting: bool) -> (r: bool)
    ensures
        r == match route {
            MessageRoute::Terminal => true,
            MessageRoute::Pending(_) => waiting,
            MessageRoute::Unhandled => false,
        },
{
    match route {
        MessageRoute::Terminal => true,
        MessageRoute::Pending(_) => waiting,
        MessageRoute::Unhandled => false,
    }
}

/// The text of the sign-in label when the signalling state changes:
/// `Disconnected`, `Connecting...`, the account's login (or `Connected`)
/// once connected; the local-mesh states leave it as it is.
pub fn login_label(state: WsState, account_login: &Option<String>) -> (r: Option<String>)
    ensures
        match state {
            WsState::Disconnected => r matches Some(t) && t@ == "Disconnected"@,
            WsState::Connecting => r matches Some(t) && t@ == "Connecting..."@,
            WsState::Connected => r matches Some(t) && t@ == match account_login {
                Some(l) => l@,
                None => "Connected"@,
            },
            _ => r is None,
        },
{
    match state {
        WsState::Disconnected => Some("Disconnected".to_owned()),
        WsState::Connecting => Some("Connecting...".to_owned()),
        WsState::Connected => match account_login {
            Some(l) => Some(l.clone()),
            None => Some("Connected".to_owned()),
        },
        _ => None,
    }
}

} // verus!
