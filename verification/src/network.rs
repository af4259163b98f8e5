use vstd::prelude::*;

verus! {

/// What a device offers to its peers.
#[derive(Clone, Copy, PartialEq, Eq, Debug, Structural)]
pub enum ResourceType {
    Filesystem,
    SystemInfo,
    Terminal,
    Other,
}

/// One thing a device shares on the network.
#[derive(Clone, Debug)]
pub struct SharedResource {
    pub id: String,
    pub name: String,
    pub resource_type: ResourceType,
    pub config: Option<String>,
    pub is_active: bool,
    pub session_token: Option<String>,
}

/// A device as the network announces it.
#[derive(Clone, Debug)]
pub struct NodeInfo {
    pub id: String,
    pub name: String,
    pub os: String,
    pub version: String,
    pub app_type: String,
    pub build_type: String,
    pub public_key: String,
    pub resources: Vec<SharedResource>,
    pub is_online: bool,
    pub last_used: i64,
    pub is_temporary: bool,
}

} // verus!
