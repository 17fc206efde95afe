//! The local node's declared description: protocol versions, version
//! string, network name, and listening address data.

use vstd::prelude::*;
use vstd::string::{StringExecFns, StringSliceAdditionalSpecFns};
use crate::compound_types::LimitedString;

verus! {

/// What the node announces about itself in its `Hello`.
#[derive(Debug, Clone)]
pub struct NodeInfo {
    pub ledger_version: u32,
    pub overlay_version: u32,
    pub overlay_min_version: u32,
    pub version_string: LimitedString,
    pub network_id: String,
}

impl NodeInfo {
    pub open spec fn wf(&self) -> bool {
        self.version_string.wf()
    }

    /// The description used against a local test network.
    pub fn local() -> (r: NodeInfo)
        ensures
            r.wf(),
            r.ledger_version == 19,
            r.overlay_version == 29,
            r.overlay_min_version == 27,
    {
        NodeInfo {
            ledger_version: 19,
            overlay_version: 29,
            overlay_min_version: 27,
            version_string: version_string_from_text("v19.13.0"),
            network_id: String::from_str("Test SDF Network ; September 2015"),
        }
    }

    /// The description used against the public main network.
    pub fn mainnet() -> (r: NodeInfo)
        ensures
            r.wf(),
            r.ledger_version == 19,
            r.overlay_version == 29,
            r.overlay_min_version == 27,
    {
        NodeInfo {
            ledger_version: 19,
            overlay_version: 29,
            overlay_min_version: 27,
            version_string: version_string_from_text("v19.13.0"),
            network_id: String::from_str("Public Global Stellar Network ; September 2015"),
        }
    }
}

/// The version string's bytes, truncated to nothing if the text ever
/// outgrew the wire bound.
fn version_string_from_text(text: &str) -> (r: LimitedString)
    ensures
        r.wf(),
        (text.spec_bytes().len() <= crate::compound_types::LIMITED_STRING_MAX ==> r.bytes()
            == text.spec_bytes()),
{
    let bytes = vstd::slice::slice_to_vec(text.as_bytes());
    match LimitedString::new(bytes) {
        Ok(s) => s,
        Err(_) => LimitedString::empty(),
    }
}

/// The local node's connection configuration.
#[derive(Debug, Clone)]
pub struct NodeConfig {
    pub node_info: NodeInfo,
    pub ip: String,
    pub listening_port: i32,
}

impl NodeConfig {
    pub open spec fn wf(&self) -> bool {
        self.node_info.wf()
    }

    /// The configuration for a node on the local machine.
    pub fn local() -> (r: NodeConfig)
        ensures
            r.wf(),
            r.listening_port == 11625,
    {
        NodeConfig {
            node_info: NodeInfo::local(),
            ip: String::from_str("127.0.0.1"),
            listening_port: 11625,
        }
    }

    /// The configuration for a public main-network node.
    pub fn mainnet() -> (r: NodeConfig)
        ensures
            r.wf(),
            r.listening_port == 11625,
    {
        NodeConfig {
            node_info: NodeInfo::mainnet(),
            ip: String::from_str("35.233.35.143"),
            listening_port: 11625,
        }
    }
}

} // verus!
