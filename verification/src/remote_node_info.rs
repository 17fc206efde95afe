//! What the handshake keeps of a peer's identity announcement: the
//! freshness nonce and the ephemeral key from its certificate.

use vstd::prelude::*;
use crate::messages::Hello;
use crate::types::Curve25519Public;

verus! {

/// The peer's connection nonce and ephemeral Curve25519 public key.
#[derive(Debug, Clone, PartialEq, Eq)]
pub struct RemoteNodeInfo {
    pub nonce: Vec<u8>,
    pub public_key: Curve25519Public,
}

impl RemoteNodeInfo {
    pub open spec fn wf(&self) -> bool {
        self.nonce@.len() == 32 && self.public_key.wf()
    }

    /// Extracts the peer's nonce and the ephemeral key its certificate
    /// carries.
    pub fn from_hello(hello: &Hello) -> (r: RemoteNodeInfo)
        requires
            hello.wf(),
        ensures
            r.wf(),
            r.nonce@ == hello.nonce@,
            r.public_key.key@ == hello.cert.pubkey.key@,
    {
        let remote_nonce = hello.nonce.clone();
        proof {
            assert(remote_nonce@ =~= hello.nonce@);
        }
        RemoteNodeInfo { nonce: remote_nonce, public_key: hello.cert.pubkey.duplicate() }
    }
}

} // verus!
